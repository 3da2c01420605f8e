use vhs_86::archive::{ArchiveEntry, ArchiveType};
use vhs_86::batch::{BatchAction, BatchActionType};
use vhs_86::browser::{
    arrange_listing, command_for_key, Browser, Command, Effect, FsEntry, FsMeta, InputMode, ListingSource,
};
use vhs_86::keybindings::KeyCode;
use vhs_86::{DirEntry, EntryKind};

fn file(name: &str, dir: &str) -> FsEntry {
    FsEntry {
        name: name.to_string(),
        path: format!("{}/{}", dir, name),
        meta: Some(FsMeta { is_dir: false, is_symlink: false, is_file: true, len: 3, modified: Some(5) }),
    }
}

fn folder(name: &str, dir: &str) -> FsEntry {
    FsEntry {
        name: name.to_string(),
        path: format!("{}/{}", dir, name),
        meta: Some(FsMeta { is_dir: true, is_symlink: false, is_file: false, len: 0, modified: None }),
    }
}

fn entry(name: &str, path: &str, kind: EntryKind) -> DirEntry {
    DirEntry { name: name.to_string(), path: path.to_string(), kind, size: 0, modified: None }
}

#[test]
fn listing_puts_up_dirs_files_archives_each_sorted() {
    let raw = vec![
        file("b.txt", "/w"),
        folder("Zoo", "/w"),
        file("pack.ZIP", "/w"),
        file(".hidden", "/w"),
        folder("apps", "/w"),
        file("A.txt", "/w"),
        FsEntry { name: "odd".to_string(), path: "/w/odd".to_string(), meta: None },
    ];
    let listing = arrange_listing("/w", raw.clone(), false);
    let names: Vec<&str> = listing.iter().map(|e| e.name.as_str()).collect();
    assert_eq!(names, vec!["..", "apps", "Zoo", "A.txt", "b.txt", "odd", "pack.ZIP"]);
    assert_eq!(listing[0].path, "/");
    assert_eq!(listing[6].kind, EntryKind::Archive);
    assert_eq!(listing[5].kind, EntryKind::Unknown);
    assert_eq!(listing[3].size, 3);
    assert_eq!(listing[3].modified, Some(5));
    let with_hidden = arrange_listing("/w", raw, true);
    assert_eq!(with_hidden.len(), 8);
    assert_eq!(with_hidden[3].name, ".hidden");
}

#[test]
fn keys_map_to_commands() {
    assert_eq!(command_for_key(&KeyCode::Char('q')), Command::Quit);
    assert_eq!(command_for_key(&KeyCode::Char('Q')), Command::Quit);
    assert_eq!(command_for_key(&KeyCode::Down), Command::Down);
    assert_eq!(command_for_key(&KeyCode::Char('h')), Command::Parent);
    assert_eq!(command_for_key(&KeyCode::Enter), Command::Open);
    assert_eq!(command_for_key(&KeyCode::Char('`')), Command::Home);
    assert_eq!(command_for_key(&KeyCode::Char('7')), Command::Digit('7'));
    assert_eq!(command_for_key(&KeyCode::Char('R')), Command::Refresh);
    assert_eq!(command_for_key(&KeyCode::Char('r')), Command::Remote);
    assert_eq!(command_for_key(&KeyCode::Char('z')), Command::Nothing);
    assert_eq!(command_for_key(&KeyCode::Esc), Command::Nothing);
}

#[test]
fn selection_stays_inside_the_listing() {
    let mut b = Browser::new("/w".to_string(), false);
    b.set_entries(vec![entry("..", "/", EntryKind::Dir), entry("a", "/w/a", EntryKind::File), entry("b", "/w/b", EntryKind::File)]);
    b.move_down(10);
    assert_eq!(b.selected, 2);
    b.move_up(1);
    assert_eq!(b.selected, 1);
    b.selected = 9;
    b.scroll_offset = 7;
    b.set_entries(vec![entry("..", "/", EntryKind::Dir)]);
    assert_eq!(b.selected, 0);
    assert_eq!(b.scroll_offset, 0);
    b.set_entries(vec![]);
    assert_eq!(b.selected, 0);
}

#[test]
fn digits_jump_to_entries() {
    let mut b = Browser::new("/w".to_string(), false);
    let many: Vec<DirEntry> = (0..12).map(|i| entry(&format!("e{}", i), "/w/e", EntryKind::File)).collect();
    b.set_entries(many);
    b.digit_key('1', 100_000_000);
    assert_eq!(b.selected, 0);
    b.digit_key('2', 800_000_000);
    assert_eq!(b.key_buffer, "12");
    assert_eq!(b.selected, 11);
    b.digit_key('3', 800_000_001);
    assert_eq!(b.key_buffer, "3");
    assert_eq!(b.selected, 2);
    b.digit_key('9', 0);
    assert_eq!(b.selected, 2);
}

#[test]
fn entering_directories_and_archives() {
    let mut b = Browser::new("/w".to_string(), false);
    b.set_entries(vec![entry("..", "/", EntryKind::Dir), entry("sub", "/w/sub", EntryKind::Dir), entry("x.tgz", "/w/x.tgz", EntryKind::Archive)]);
    b.selected = 2;
    assert!(matches!(b.open_selected(), Effect::Reload));
    assert_eq!(b.cwd, "/w/x.tgz");
    assert_eq!(b.message.as_deref(), Some("Browsing TAR.GZ archive"));
    match b.listing_source() {
        ListingSource::Archive(p, t) => {
            assert_eq!(p, "/w/x.tgz");
            assert_eq!(t, ArchiveType::TarGz);
        },
        _ => panic!("expected an archive listing"),
    }
    b.show_archive(vec![ArchiveEntry { name: "f".to_string(), path: "f".to_string(), kind: EntryKind::File, size: 2, is_dir: false }]);
    assert_eq!(b.entries[0].path, "/w");
    assert_eq!(b.entries[1].path, "/w/x.tgz/f");
    assert!(matches!(b.go_parent(), Effect::Reload));
    assert_eq!(b.cwd, "/w");
    assert!(b.archive_state.is_none());
    assert!(matches!(b.go_parent(), Effect::Reload));
    assert_eq!(b.cwd, "/");
    assert!(matches!(b.go_parent(), Effect::Idle));
}

#[test]
fn hidden_toggle_and_selection_messages() {
    let mut b = Browser::new("/w".to_string(), false);
    assert!(matches!(b.toggle_hidden(), Effect::Reload));
    assert_eq!(b.message.as_deref(), Some("Hidden files: ON"));
    b.set_entries(vec![entry("..", "/", EntryKind::Dir), entry("a", "/w/a", EntryKind::File)]);
    b.selected = 1;
    b.toggle_select();
    assert_eq!(b.message.as_deref(), Some("1 items selected"));
    b.batch_key(BatchActionType::Copy);
    assert_eq!(b.input_mode, InputMode::Batch);
    for c in "/dst".chars() {
        b.batch_input(&KeyCode::Char(c));
    }
    match b.batch_input(&KeyCode::Enter) {
        Effect::RunBatch(BatchAction::Copy { dest }, paths) => {
            assert_eq!(dest, "/dst");
            assert_eq!(paths, vec!["/w/a".to_string()]);
        },
        _ => panic!("expected a batch copy"),
    }
    assert_eq!(b.input_mode, InputMode::Normal);
    assert!(matches!(b.batch_finished(Ok((1, 0))), Effect::Reload));
    assert_eq!(b.message.as_deref(), Some("Batch: 1 succeeded, 0 failed"));
    assert!(!b.batch_selection.active);
}

#[test]
fn delete_key_asks_for_the_selected_file_but_not_up() {
    let mut b = Browser::new("/w".to_string(), false);
    b.set_entries(vec![entry("..", "/", EntryKind::Dir), entry("a", "/w/a", EntryKind::File)]);
    assert!(matches!(b.delete_key(), Effect::Idle));
    b.selected = 1;
    match b.delete_key() {
        Effect::DeleteFile(p) => assert_eq!(p, "/w/a"),
        _ => panic!("expected a delete"),
    }
    assert!(matches!(b.delete_finished("a", Err("denied".to_string())), Effect::Idle));
    assert_eq!(b.message.as_deref(), Some("Delete failed: denied"));
    assert!(matches!(b.delete_finished("a", Ok(())), Effect::Reload));
    assert_eq!(b.message.as_deref(), Some("Deleted: a"));
}

#[test]
fn chmod_dialog_flow() {
    let mut b = Browser::new("/w".to_string(), false);
    b.set_entries(vec![entry("..", "/", EntryKind::Dir), entry("a", "/w/a", EntryKind::File)]);
    b.selected = 1;
    match b.chmod_key() {
        Effect::ReadMode(p) => assert_eq!(p, "/w/a"),
        _ => panic!("expected a mode read"),
    }
    assert_eq!(b.input_mode, InputMode::Chmod);
    b.chmod_dialog.open("/w/a", Some(0o644));
    b.chmod_input(&KeyCode::Backspace);
    b.chmod_input(&KeyCode::Char('0'));
    match b.chmod_input(&KeyCode::Enter) {
        Effect::SetMode(p, m) => {
            assert_eq!(p, "/w/a");
            assert_eq!(m, 0o640);
        },
        _ => panic!("expected a mode change"),
    }
    assert_eq!(b.input_mode, InputMode::Normal);
    assert!(matches!(b.chmod_finished(Ok(())), Effect::Reload));
    assert_eq!(b.message.as_deref(), Some("Permissions updated"));
}

#[test]
fn remote_connect_flow() {
    let mut b = Browser::new("/w".to_string(), false);
    assert!(matches!(b.remote_key(), Effect::Idle));
    assert_eq!(b.input_mode, InputMode::RemoteConnect);
    for c in "bob@host".chars() {
        b.remote_input(&KeyCode::Char(c), None);
    }
    assert!(matches!(b.remote_input(&KeyCode::Enter, None), Effect::Reload));
    assert_eq!(b.cwd, "/home/bob");
    assert_eq!(b.message.as_deref(), Some("Connected to bob@host"));
    assert!(matches!(b.listing_source(), ListingSource::Remote));
    b.show_remote();
    assert_eq!(b.entries.len(), 3);
    assert_eq!(b.entries[2].name, "[remote: bob@host]");
    assert!(matches!(b.remote_key(), Effect::GoHome));
    assert!(!b.remote_fs.is_connected());
    b.remote_key();
    for c in "host".chars() {
        b.remote_input(&KeyCode::Char(c), None);
    }
    assert!(matches!(b.remote_input(&KeyCode::Enter, None), Effect::Idle));
    assert_eq!(b.message.as_deref(), Some("Invalid SSH target"));
}

#[test]
fn disk_usage_and_quit_keys() {
    let mut b = Browser::new("/w".to_string(), false);
    match b.disk_usage_key() {
        Effect::MeasureDir(d) => assert_eq!(d, "/w"),
        _ => panic!("expected a measurement"),
    }
    b.disk_usage.open("/w", vec![("a".to_string(), 1), ("b".to_string(), 2)]);
    b.down_key();
    assert_eq!(b.disk_usage.selected, 1);
    b.top_key();
    assert_eq!(b.disk_usage.selected, 0);
    b.quit_key();
    assert!(!b.disk_usage.visible);
    assert!(!b.quit);
    b.quit_key();
    assert!(b.quit);
}

#[test]
fn scrolling_keeps_the_selection_visible() {
    let mut b = Browser::new("/w".to_string(), false);
    b.selected = 10;
    b.scroll_into_view(4);
    assert_eq!(b.scroll_offset, 7);
    b.selected = 2;
    b.scroll_into_view(4);
    assert_eq!(b.scroll_offset, 2);
}

#[test]
fn messages_expire_after_three_seconds() {
    let mut b = Browser::new("/w".to_string(), false);
    b.set_message("saved".to_string());
    assert!(!b.clear_expired_message(None));
    assert!(!b.clear_expired_message(Some(3_000_000_000)));
    assert_eq!(b.message.as_deref(), Some("saved"));
    assert!(b.clear_expired_message(Some(3_000_000_001)));
    assert_eq!(b.message, None);
}

#[test]
fn key_steps_dispatch_by_mode_and_command() {
    let mut b = Browser::new("/w".to_string(), false);
    b.set_entries(vec![entry("..", "/", EntryKind::Dir), entry("a", "/w/a", EntryKind::File)]);
    assert!(matches!(b.key_step(&KeyCode::Char('R'), 0, None), Effect::Reload));
    assert!(matches!(b.key_step(&KeyCode::Char('~'), 0, None), Effect::GoHome));
    assert!(matches!(b.key_step(&KeyCode::Char('j'), 0, None), Effect::Idle));
    assert_eq!(b.selected, 1);
    assert!(matches!(b.key_step(&KeyCode::Char('z'), 0, None), Effect::Idle));
    assert_eq!(b.selected, 1);
    assert!(matches!(b.key_step(&KeyCode::Char('r'), 0, None), Effect::Idle));
    assert_eq!(b.input_mode, InputMode::RemoteConnect);
    b.key_step(&KeyCode::Char('x'), 0, None);
    assert_eq!(b.input_buffer, "x");
    b.key_step(&KeyCode::Esc, 0, None);
    assert_eq!(b.input_mode, InputMode::Normal);
    b.key_step(&KeyCode::Char('1'), 0, None);
    assert_eq!(b.selected, 0);
    b.key_step(&KeyCode::Char('q'), 0, None);
    assert!(b.quit);
}
