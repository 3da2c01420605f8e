use vhs_86::keybindings::{keycode_to_string, Action, KeyCode, Keybindings};

#[test]
fn test_keybindings_defaults() {
    let defaults = Keybindings::defaults();
    assert_eq!(defaults.get("q"), Some(&Action::Quit));
    assert_eq!(defaults.get("j"), Some(&Action::MoveDown));
    assert_eq!(defaults.get("k"), Some(&Action::MoveUp));
    assert_eq!(defaults.get("h"), Some(&Action::MoveLeft));
    assert_eq!(defaults.get("l"), Some(&Action::MoveRight));
    assert_eq!(defaults.get("g"), Some(&Action::GoTop));
    assert_eq!(defaults.get("G"), Some(&Action::GoBottom));
    assert_eq!(defaults.get("~"), Some(&Action::GoHome));
    assert_eq!(defaults.get("."), Some(&Action::ToggleHidden));
}

#[test]
fn test_keycode_to_string_char() {
    assert_eq!(keycode_to_string(&KeyCode::Char('a')), "a");
    assert_eq!(keycode_to_string(&KeyCode::Char('G')), "G");
}

#[test]
fn test_keycode_to_string_special() {
    assert_eq!(keycode_to_string(&KeyCode::Up), "up");
    assert_eq!(keycode_to_string(&KeyCode::Down), "down");
    assert_eq!(keycode_to_string(&KeyCode::Left), "left");
    assert_eq!(keycode_to_string(&KeyCode::Right), "right");
    assert_eq!(keycode_to_string(&KeyCode::Enter), "enter");
    assert_eq!(keycode_to_string(&KeyCode::Esc), "esc");
    assert_eq!(keycode_to_string(&KeyCode::Backspace), "backspace");
}

#[test]
fn test_keybindings_get_action_from_custom() {
    let mut bindings = Keybindings::default();
    bindings.bindings.insert("x".to_string(), Action::Quit);
    assert_eq!(bindings.get_action(&KeyCode::Char('x')), Some(Action::Quit));
}

#[test]
fn test_keybindings_get_action_fallback() {
    let bindings = Keybindings::default();
    assert_eq!(bindings.get_action(&KeyCode::Char('q')), Some(Action::Quit));
}

#[test]
fn test_keybindings_get_action_unknown() {
    let bindings = Keybindings::default();
    assert_eq!(bindings.get_action(&KeyCode::Char('z')), None);
}

#[test]
fn custom_binding_overrides_default() {
    let mut bindings = Keybindings::default();
    bindings.bindings.insert("q".to_string(), Action::Refresh);
    assert_eq!(bindings.get_action(&KeyCode::Char('q')), Some(Action::Refresh));
    bindings.bindings.insert("q".to_string(), Action::OpenShell);
    assert_eq!(bindings.get_action(&KeyCode::Char('q')), Some(Action::OpenShell));
    assert_eq!(bindings.get_action(&KeyCode::Enter), Some(Action::Enter));
}

#[test]
fn other_keys_are_named_by_their_lowercased_text() {
    assert_eq!(keycode_to_string(&KeyCode::Other("F(5)".to_string())), "f(5)");
    assert_eq!(keycode_to_string(&KeyCode::PageDown), "pagedown");
    assert_eq!(keycode_to_string(&KeyCode::Tab), "tab");
    let defaults = Keybindings::defaults();
    assert_eq!(defaults.get(" "), Some(&Action::ToggleSelect));
    assert_eq!(defaults.get("R"), Some(&Action::Refresh));
    assert_eq!(defaults.get("x"), None);
    assert!(defaults.contains_key("/"));
}
