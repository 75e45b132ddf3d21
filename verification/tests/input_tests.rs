use herdr_gui::input::{
    is_named_key, key_input, key_name, should_swallow_gui_keystroke, KeyInput, KeyPress,
};

fn ks(key: &str, platform: bool, shift: bool) -> KeyPress {
    KeyPress {
        key: key.to_string(),
        key_char: None,
        control: false,
        alt: false,
        shift,
        platform,
        function: false,
    }
}

#[test]
fn cmd_backspace_encodes_platform_modifier() {
    assert_eq!(key_name(&ks("backspace", true, false)), "cmd+backspace");
}

#[test]
fn cmd_v_is_swallowed_for_terminal_observer() {
    assert!(should_swallow_gui_keystroke(&ks("v", true, false)));
    assert!(!should_swallow_gui_keystroke(&ks("backspace", true, false)));
}

#[test]
fn key_name_orders_all_modifiers() {
    let k = KeyPress {
        key: "x".to_string(),
        key_char: None,
        control: true,
        alt: true,
        shift: true,
        platform: true,
        function: false,
    };
    assert_eq!(key_name(&k), "ctrl+alt+shift+cmd+x");
    assert_eq!(key_name(&ks("a", false, false)), "a");
}

#[test]
fn gui_bindings_are_swallowed_by_shift_state() {
    assert!(should_swallow_gui_keystroke(&ks("f1", false, false)));
    assert!(!should_swallow_gui_keystroke(&ks("v", true, true)));
    assert!(should_swallow_gui_keystroke(&ks("s", true, true)));
    assert!(!should_swallow_gui_keystroke(&ks("s", true, false)));
    assert!(should_swallow_gui_keystroke(&ks("left", true, false)));
    assert!(!should_swallow_gui_keystroke(&ks("v", false, false)));
}

#[test]
fn named_keys_are_recognised() {
    assert!(is_named_key("enter"));
    assert!(is_named_key("pagedown"));
    assert!(!is_named_key("a"));
}

#[test]
fn keystrokes_send_keys_or_text() {
    let mut enter = ks("enter", false, false);
    enter.key_char = Some("\n".to_string());
    assert_eq!(key_input(&enter), KeyInput::Key("enter".to_string()));
    let mut a = ks("a", false, false);
    a.key_char = Some("a".to_string());
    assert_eq!(key_input(&a), KeyInput::Text("a".to_string()));
    let mut alt_a = a.clone();
    alt_a.alt = true;
    assert_eq!(key_input(&alt_a), KeyInput::Key("alt+a".to_string()));
    assert_eq!(key_input(&ks("f5", false, false)), KeyInput::Key("f5".to_string()));
}
