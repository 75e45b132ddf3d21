//! Where the client keeps its settings, and how the layout and theme choices
//! are written in them.
use vstd::prelude::*;

use crate::paths::{join_path, join_spec};
use crate::text::str_eq;

verus! {

broadcast use vstd::string::group_string_axioms;

/// The settings directory: `.herdrgui` under `HOME`, else under
/// `USERPROFILE`, else under the working directory.
pub open spec fn settings_dir_spec(home: Option<Seq<char>>, userprofile: Option<Seq<char>>) -> Seq<
    char,
> {
    let base = match home {
        Some(h) => h,
        None => match userprofile {
            Some(u) => u,
            None => "."@,
        },
    };
    join_spec(base, ".herdrgui"@)
}

pub open spec fn opt_view(o: Option<String>) -> Option<Seq<char>> {
    match o {
        Some(s) => Some(s@),
        None => None,
    }
}

pub fn settings_dir(home: Option<String>, userprofile: Option<String>) -> (dir: String)
    ensures
        dir@ == settings_dir_spec(opt_view(home), opt_view(userprofile)),
{
    let base = match home {
        Some(h) => h,
        None => match userprofile {
            Some(u) => u,
            None => String::from_str("."),
        },
    };
    join_path(base.as_str(), ".herdrgui")
}

/// The settings file: `settings.json` in the settings directory.
pub fn settings_path(home: Option<String>, userprofile: Option<String>) -> (path: String)
    ensures
        path@ == join_spec(settings_dir_spec(opt_view(home), opt_view(userprofile)), "settings.json"@),
{
    let dir = settings_dir(home, userprofile);
    join_path(dir.as_str(), "settings.json")
}

/// Where tabs are shown: in the sidebar (`Warp`) or along the top (`Arc`).
#[derive(Clone, Copy, Debug, PartialEq, Eq)]
pub enum SidebarLayout {
    Warp,
    Arc,
}

impl SidebarLayout {
    /// The layout a setting names: `warp`, or `Arc` for anything else.
    pub fn from_setting(s: &str) -> (l: SidebarLayout)
        ensures
            l == (if s@ == "warp"@ {
                SidebarLayout::Warp
            } else {
                SidebarLayout::Arc
            }),
    {
        if str_eq(s, "warp") {
            SidebarLayout::Warp
        } else {
            SidebarLayout::Arc
        }
    }

    pub open spec fn setting_spec(self) -> Seq<char> {
        match self {
            SidebarLayout::Warp => "warp"@,
            SidebarLayout::Arc => "arc"@,
        }
    }

    /// How the layout is written in the settings.
    pub fn setting_name(self) -> (s: &'static str)
        ensures
            s@ == self.setting_spec(),
    {
        match self {
            SidebarLayout::Warp => "warp",
            SidebarLayout::Arc => "arc",
        }
    }

    /// The other layout.
    pub fn toggled(self) -> (l: SidebarLayout)
        ensures
            l != self,
    {
        match self {
            SidebarLayout::Warp => SidebarLayout::Arc,
            SidebarLayout::Arc => SidebarLayout::Warp,
        }
    }
}

/// A saved layout reads back as itself.
pub proof fn law_sidebar_layout_round_trip(l: SidebarLayout)
    ensures
        (if l.setting_spec() == "warp"@ {
            SidebarLayout::Warp
        } else {
            SidebarLayout::Arc
        }) == l,
{
    if l == SidebarLayout::Arc {
        reveal_strlit("arc");
        reveal_strlit("warp");
        assert("arc"@[0] != "warp"@[0]);
    }
}

/// Which theme the chrome follows: a named theme, or the system appearance
/// (automatically, or forced dark or light).
#[derive(Clone, Debug, PartialEq, Eq)]
pub enum ThemeMode {
    Herdr(String),
    System,
    SystemDark,
    SystemLight,
}

pub enum ThemeModeView {
    Herdr(Seq<char>),
    System,
    SystemDark,
    SystemLight,
}

impl View for ThemeMode {
    type V = ThemeModeView;

    open spec fn view(&self) -> ThemeModeView {
        match self {
            ThemeMode::Herdr(n) => ThemeModeView::Herdr(n@),
            ThemeMode::System => ThemeModeView::System,
            ThemeMode::SystemDark => ThemeModeView::SystemDark,
            ThemeMode::SystemLight => ThemeModeView::SystemLight,
        }
    }
}

pub open spec fn theme_mode_of_setting(s: Seq<char>) -> ThemeModeView {
    if s == "system"@ {
        ThemeModeView::System
    } else if s == "system-dark"@ {
        ThemeModeView::SystemDark
    } else if s == "system-light"@ {
        ThemeModeView::SystemLight
    } else {
        ThemeModeView::Herdr(s)
    }
}

pub open spec fn theme_mode_setting(m: ThemeModeView) -> Seq<char> {
    match m {
        ThemeModeView::Herdr(n) => n,
        ThemeModeView::System => "system"@,
        ThemeModeView::SystemDark => "system-dark"@,
        ThemeModeView::SystemLight => "system-light"@,
    }
}

/// The built-in themes the system appearance maps to.
pub open spec fn theme_for_mode(m: ThemeModeView, light_appearance: bool) -> Seq<char> {
    match m {
        ThemeModeView::Herdr(n) => n,
        ThemeModeView::SystemDark => "oled"@,
        ThemeModeView::SystemLight => "catppuccin-latte"@,
        ThemeModeView::System => if light_appearance {
            "catppuccin-latte"@
        } else {
            "catppuccin"@
        },
    }
}

impl ThemeMode {
    /// The mode a setting names.
    pub fn from_setting(s: &str) -> (m: ThemeMode)
        ensures
            m@ == theme_mode_of_setting(s@),
    {
        if str_eq(s, "system") {
            ThemeMode::System
        } else if str_eq(s, "system-dark") {
            ThemeMode::SystemDark
        } else if str_eq(s, "system-light") {
            ThemeMode::SystemLight
        } else {
            ThemeMode::Herdr(String::from_str(s))
        }
    }

    /// How the mode is written in the settings.
    pub fn setting_name(&self) -> (s: String)
        ensures
            s@ == theme_mode_setting(self@),
    {
        match self {
            ThemeMode::Herdr(n) => n.clone(),
            ThemeMode::System => String::from_str("system"),
            ThemeMode::SystemDark => String::from_str("system-dark"),
            ThemeMode::SystemLight => String::from_str("system-light"),
        }
    }

    /// The name of the theme to draw with, given whether the system
    /// appearance is light.
    pub fn theme_name(&self, light_appearance: bool) -> (n: String)
        ensures
            n@ == theme_for_mode(self@, light_appearance),
    {
        match self {
            ThemeMode::Herdr(n) => n.clone(),
            ThemeMode::SystemDark => String::from_str("oled"),
            ThemeMode::SystemLight => String::from_str("catppuccin-latte"),
            ThemeMode::System => if light_appearance {
                String::from_str("catppuccin-latte")
            } else {
                String::from_str("catppuccin")
            },
        }
    }
}

/// Reading a setting and writing it back gives the same text.
pub proof fn law_theme_setting_read_write(s: Seq<char>)
    ensures
        theme_mode_setting(theme_mode_of_setting(s)) == s,
{
}

/// A saved mode reads back as itself, except a theme that happens to be
/// named like a system mode.
pub proof fn law_theme_mode_round_trip(m: ThemeModeView)
    requires
        m matches ThemeModeView::Herdr(n) ==> n != "system"@ && n != "system-dark"@ && n
            != "system-light"@,
    ensures
        theme_mode_of_setting(theme_mode_setting(m)) == m,
{
    reveal_strlit("system");
    reveal_strlit("system-dark");
    reveal_strlit("system-light");
    match m {
        ThemeModeView::SystemDark => {
            assert("system-dark"@.len() != "system"@.len());
        },
        ThemeModeView::SystemLight => {
            assert("system-light"@.len() != "system"@.len());
            assert("system-light"@[7] != "system-dark"@[7]);
        },
        _ => {},
    }
}

} // verus!
