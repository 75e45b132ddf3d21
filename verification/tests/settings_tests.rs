use herdr_gui::settings::{settings_dir, settings_path, SidebarLayout, ThemeMode};

#[test]
fn settings_live_under_home() {
    assert_eq!(settings_dir(Some("/home/me".to_string()), None), "/home/me/.herdrgui");
    assert_eq!(settings_dir(None, Some("C:/Users/me".to_string())), "C:/Users/me/.herdrgui");
    assert_eq!(settings_path(None, None), "./.herdrgui/settings.json");
}

#[test]
fn sidebar_layout_round_trips_and_toggles() {
    for l in [SidebarLayout::Warp, SidebarLayout::Arc] {
        assert_eq!(SidebarLayout::from_setting(l.setting_name()), l);
        assert_ne!(l.toggled(), l);
    }
    assert_eq!(SidebarLayout::from_setting("anything"), SidebarLayout::Arc);
}

#[test]
fn theme_modes_map_to_theme_names() {
    assert_eq!(ThemeMode::from_setting("system"), ThemeMode::System);
    assert_eq!(ThemeMode::from_setting("nord"), ThemeMode::Herdr("nord".to_string()));
    assert_eq!(ThemeMode::System.theme_name(true), "catppuccin-latte");
    assert_eq!(ThemeMode::System.theme_name(false), "catppuccin");
    assert_eq!(ThemeMode::SystemDark.theme_name(true), "oled");
    assert_eq!(ThemeMode::SystemLight.theme_name(false), "catppuccin-latte");
    for m in [ThemeMode::System, ThemeMode::SystemDark, ThemeMode::Herdr("x".to_string())] {
        assert_eq!(ThemeMode::from_setting(&m.setting_name()), m);
    }
}
