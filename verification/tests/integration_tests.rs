use vhs_86::keybindings::KeyCode;

#[test]
fn test_format_size_integration() {
    assert_eq!(vhs_86::format_size(0), "-");
    assert_eq!(vhs_86::format_size(1), "1 B");
    assert_eq!(vhs_86::format_size(1024), "1.0 K");
    assert_eq!(vhs_86::format_size(1024 * 1024), "1.0 M");
}

#[test]
fn test_keybindings_integration() {
    let bindings = vhs_86::keybindings::Keybindings::default();
    assert_eq!(bindings.get_action(&KeyCode::Char('q')), Some(vhs_86::keybindings::Action::Quit));
    assert_eq!(bindings.get_action(&KeyCode::Char('j')), Some(vhs_86::keybindings::Action::MoveDown));
    assert_eq!(bindings.get_action(&KeyCode::Char('z')), None);
}

#[test]
fn test_permissions_parsing_integration() {
    assert_eq!(vhs_86::permissions::parse_numeric_mode("755"), Some(0o755));
    assert_eq!(vhs_86::permissions::parse_numeric_mode("644"), Some(0o644));
    assert_eq!(vhs_86::permissions::mode_to_string(0o755), "rwxr-xr-x");
}

#[test]
fn test_archive_detection_integration() {
    assert!(vhs_86::archive::detect_archive("test.zip").is_some());
    assert!(vhs_86::archive::detect_archive("test.tar.gz").is_some());
    assert!(vhs_86::archive::detect_archive("test.txt").is_none());
}

#[test]
fn test_image_detection() {
    assert!(vhs_86::preview::is_image("photo.png"));
    assert!(!vhs_86::preview::is_image("file.txt"));
}

#[test]
fn test_ssh_target_parsing() {
    let (user, host) = vhs_86::remote::parse_ssh_target("alice@example.com", None).unwrap();
    assert_eq!(user, "alice");
    assert_eq!(host, "example.com");
}
