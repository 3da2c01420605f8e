use vhs_86::remote::{parse_ssh_target, RemoteFs};

#[test]
fn test_parse_ssh_target_with_user() {
    let result = parse_ssh_target("alice@example.com", None);
    assert!(result.is_some());
    let (user, host) = result.unwrap();
    assert_eq!(user, "alice");
    assert_eq!(host, "example.com");
}

#[test]
fn test_parse_ssh_target_without_user() {
    let result = parse_ssh_target("example.com", Some("me".to_string()));
    assert!(result.is_some());
    let (_, host) = result.unwrap();
    assert_eq!(host, "example.com");
    assert!(parse_ssh_target("example.com", None).is_none());
}

#[test]
fn test_remote_fs_new() {
    let fs = RemoteFs::new();
    assert!(!fs.is_connected());
    assert!(fs.current_dir().is_none());
    assert!(fs.connection_string().is_none());
}

#[test]
fn test_remote_fs_connect() {
    let mut fs = RemoteFs::new();
    assert!(fs.connect("example.com", "alice").is_ok());
    assert!(fs.is_connected());
    assert_eq!(fs.connection_string(), Some("alice@example.com".to_string()));
}

#[test]
fn test_remote_fs_disconnect() {
    let mut fs = RemoteFs::new();
    fs.connect("example.com", "alice").unwrap();
    fs.disconnect();
    assert!(!fs.is_connected());
}

#[test]
fn test_remote_fs_list_dir_disconnected() {
    let fs = RemoteFs::new();
    assert!(fs.list_dir("/").is_err());
}

#[test]
fn test_remote_fs_list_dir_connected() {
    let mut fs = RemoteFs::new();
    fs.connect("example.com", "alice").unwrap();
    let entries = fs.list_dir("/home/alice").unwrap();
    assert!(!entries.is_empty());
}

#[test]
fn ssh_target_splits_at_the_first_at_sign() {
    assert_eq!(
        parse_ssh_target("a@b@c", None),
        Some(("a".to_string(), "b@c".to_string()))
    );
    assert_eq!(
        parse_ssh_target("host", Some("bob".to_string())),
        Some(("bob".to_string(), "host".to_string()))
    );
    assert_eq!(parse_ssh_target("host", None), None);
}

#[test]
fn connected_listing_names_the_connection() {
    let mut fs = RemoteFs::new();
    fs.connect("h", "u").unwrap();
    assert_eq!(fs.current_dir(), Some("/home/u".to_string()));
    let entries = fs.list_dir("/home/u").unwrap();
    assert_eq!(entries.len(), 2);
    assert_eq!(entries[0].name, "..");
    assert_eq!(entries[0].path, "/home");
    assert_eq!(entries[1].name, "[remote: u@h]");
    assert_eq!(entries[1].path, "/home/u");
}
