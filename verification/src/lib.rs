//! Verified core of the Herdr GUI client.
pub mod agent;
pub mod bootstrap;
pub mod detail;
pub mod ghostty;
pub mod herdr;
pub mod input;
pub mod paths;
pub mod settings;
pub mod shell;
pub mod text;
pub mod theme;
pub mod viewer;
