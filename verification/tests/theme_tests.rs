use herdr_gui::theme::{
    agent_status_accent, agent_status_background, default_theme, herdr_theme, load_themes,
    parse_hex, status_color, theme_from_colors, themes_path, ThemeTable, UiTheme,
    DEFAULT_THEMES_JSON,
};

fn dark() -> UiTheme {
    default_theme()
}

#[test]
fn built_in_nord_theme_has_its_palette() {
    let themes = load_themes(None);
    let nord = herdr_theme(&themes, "nord");
    assert_eq!(nord.bg, 0x2e3440);
    assert_eq!(nord.terminal, 0x20242d);
    assert_eq!(nord.text, 0xeceff4);
    assert_eq!(nord.label, nord.text);
    assert_eq!(nord.active, 0x434c5e);
    assert_eq!(nord.border, nord.active);
}

#[test]
fn unknown_theme_is_the_default() {
    let themes = load_themes(None);
    assert_eq!(herdr_theme(&themes, "no-such-theme"), default_theme());
}

#[test]
fn broken_theme_file_falls_back_to_built_in_themes() {
    let themes = load_themes(Some("{ not json".to_string()));
    assert_eq!(herdr_theme(&themes, "dracula").bg, 0x282a36);
    let custom = load_themes(Some(
        r#"{"mine": ["010203", "040506", "070809", "0a0b0c", "0d0e0f", "101112", "131415"], "short": ["000000"]}"#
            .to_string(),
    ));
    assert_eq!(herdr_theme(&custom, "mine").hover, 0x101112);
    assert_eq!(herdr_theme(&custom, "short"), default_theme());
    assert_eq!(herdr_theme(&custom, "nord"), default_theme());
}

#[test]
fn theme_table_parse_reports_json_errors() {
    assert!(ThemeTable::parse("[1, 2]").is_err());
    assert!(ThemeTable::parse(DEFAULT_THEMES_JSON).is_ok());
}

#[test]
fn hex_parsing_follows_from_str_radix() {
    assert_eq!(parse_hex("ff"), Some(0xff));
    assert_eq!(parse_hex("+1A"), Some(0x1a));
    assert_eq!(parse_hex(""), None);
    assert_eq!(parse_hex("+"), None);
    assert_eq!(parse_hex("xyz"), None);
    assert_eq!(parse_hex("ffffffff"), Some(0xffffffff));
    assert_eq!(parse_hex("100000000"), None);
}

#[test]
fn bad_colours_read_as_black() {
    let colors: Vec<String> =
        ["zz", "1", "2", "3", "4", "5", "6"].iter().map(|s| s.to_string()).collect();
    let t = theme_from_colors(&colors);
    assert_eq!(t.bg, 0);
    assert_eq!(t.panel, 1);
    assert_eq!(t.border, 6);
}

#[test]
fn agent_colours_follow_status_and_brightness() {
    let light = UiTheme { bg: 0xffffff, ..dark() };
    assert_eq!(agent_status_background("working", light), 0xfff3d6);
    assert_eq!(agent_status_background("working", dark()), 0x2a210f);
    assert_eq!(agent_status_background("done", dark()), 0x102615);
    assert_eq!(agent_status_background("idle", dark()), dark().panel);
    assert_eq!(agent_status_accent("blocked"), 0xef4444);
    assert_eq!(agent_status_accent("idle"), 0x8a8a8a);
    assert_eq!(status_color("idle"), 0x8a8a8a);
    assert_eq!(status_color("other"), 0x555555);
    assert_eq!(status_color("working"), 0xf59e0b);
}

#[test]
fn themes_live_in_the_settings_directory() {
    assert_eq!(themes_path("/home/me/.herdrgui"), "/home/me/.herdrgui/themes.json");
}
