use vhs_86::archive::ArchiveEntry;
use vhs_86::browser::{Browser, FsEntry, FsMeta};
use vhs_86::display::{
    archive_entry_line, entry_icon, git_label, git_prefix, kind_name, list_title, permissions_text, status_left,
    status_right, KEY_HELP,
};
use vhs_86::git::GitStatus;
use vhs_86::EntryKind;

fn file(name: &str, dir: &str) -> FsEntry {
    FsEntry {
        name: name.to_string(),
        path: format!("{}/{}", dir, name),
        meta: Some(FsMeta { is_dir: false, is_symlink: false, is_file: true, len: 3, modified: Some(5) }),
    }
}

#[test]
fn git_markers_and_labels() {
    assert_eq!(git_prefix(GitStatus::Added), "+ ");
    assert_eq!(git_prefix(GitStatus::Modified), "M ");
    assert_eq!(git_prefix(GitStatus::Untracked), "? ");
    assert_eq!(git_prefix(GitStatus::Unchanged), "  ");
    assert_eq!(git_label(GitStatus::Added), "added");
    assert_eq!(git_label(GitStatus::Unchanged), "unchanged");
}

#[test]
fn kind_icons_and_names() {
    assert_eq!(entry_icon(EntryKind::Dir), "▸");
    assert_eq!(entry_icon(EntryKind::File), "•");
    assert_eq!(entry_icon(EntryKind::Archive), "📦");
    assert_eq!(kind_name(EntryKind::Symlink), "Symlink");
    assert_eq!(kind_name(EntryKind::Unknown), "Unknown");
}

#[test]
fn permissions_are_shown_in_octal_and_letters() {
    assert_eq!(permissions_text(0o755), "755 rwxr-xr-x");
    assert_eq!(permissions_text(0o4), "004 ------r--");
}

#[test]
fn archive_lines_show_icon_name_and_size() {
    let dir = ArchiveEntry { name: "src".to_string(), path: "a.zip/src".to_string(), kind: EntryKind::Dir, size: 0, is_dir: true };
    let f = ArchiveEntry { name: "a.txt".to_string(), path: "a.zip/a.txt".to_string(), kind: EntryKind::File, size: 2048, is_dir: false };
    assert_eq!(archive_entry_line(&dir), "▸ src (-)");
    assert_eq!(archive_entry_line(&f), "• a.txt (2.0 K)");
}

#[test]
fn title_and_status_line_follow_the_browser() {
    let mut b = Browser::new("/w".to_string(), false);
    assert_eq!(list_title(&b), " VHS-86 ");
    b.show_directory(vec![file("a", "/w"), file("b", "/w")]);
    assert_eq!(status_left(&b, false), " /w  |  3 items  |  hidden: false");
    assert_eq!(status_left(&b, true), " /w  |  3 items  |  hidden: false [git]");
    b.toggle_select();
    assert_eq!(list_title(&b), " VHS-86  [1 selected]");
    assert_eq!(status_right(&b), " 1 items selected ");
    b.clear_message();
    assert_eq!(status_right(&b), KEY_HELP);
    b.set_message("done".to_string());
    assert_eq!(status_right(&b), " done ");
}
