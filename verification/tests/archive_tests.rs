use vhs_86::archive::{
    archive_entries_to_direntries, archive_type_name, detect_archive, top_level_entries, ArchiveEntry,
    ArchiveMember, ArchiveType,
};
use vhs_86::EntryKind;

#[test]
fn test_detect_archive_zip() {
    assert_eq!(detect_archive("file.zip"), Some(ArchiveType::Zip));
}

#[test]
fn test_detect_archive_tar() {
    assert_eq!(detect_archive("file.tar"), Some(ArchiveType::Tar));
}

#[test]
fn test_detect_archive_tgz() {
    assert_eq!(detect_archive("file.tgz"), Some(ArchiveType::TarGz));
}

#[test]
fn test_detect_archive_tar_gz() {
    assert_eq!(detect_archive("file.tar.gz"), Some(ArchiveType::TarGz));
}

#[test]
fn test_detect_archive_not_archive() {
    assert_eq!(detect_archive("file.txt"), None);
    assert_eq!(detect_archive("file.pdf"), None);
}

#[test]
fn test_archive_type_name() {
    assert_eq!(archive_type_name(&ArchiveType::Zip), "ZIP");
    assert_eq!(archive_type_name(&ArchiveType::Tar), "TAR");
    assert_eq!(archive_type_name(&ArchiveType::TarGz), "TAR.GZ");
}

#[test]
fn test_archive_entries_to_direntries() {
    let entries = vec![ArchiveEntry {
        name: "file.txt".to_string(),
        path: "file.txt".to_string(),
        kind: EntryKind::File,
        size: 100,
        is_dir: false,
    }];
    let dir_entries = archive_entries_to_direntries("/archive.zip", entries);
    assert_eq!(dir_entries.len(), 1);
    assert_eq!(dir_entries[0].name, "file.txt");
}

#[test]
fn detect_archive_ignores_case_and_needs_tar_before_gz() {
    assert_eq!(detect_archive("BACKUP.ZIP"), Some(ArchiveType::Zip));
    assert_eq!(detect_archive("a.tar.GZ"), Some(ArchiveType::TarGz));
    assert_eq!(detect_archive("a.TAR.GZ"), None);
    assert_eq!(detect_archive("notes.gz"), None);
    assert_eq!(detect_archive("noext"), None);
}

#[test]
fn archive_entries_are_placed_below_the_archive_path() {
    let entries = vec![ArchiveEntry {
        name: "dir".to_string(),
        path: "dir".to_string(),
        kind: EntryKind::Dir,
        size: 0,
        is_dir: true,
    }];
    let d = archive_entries_to_direntries("/tmp/a.zip", entries);
    assert_eq!(d[0].path, "/tmp/a.zip/dir");
    assert_eq!(d[0].kind, EntryKind::Dir);
    assert!(d[0].modified.is_none());
}

fn member(name: &str, is_dir: bool, size: u64) -> ArchiveMember {
    ArchiveMember { name: name.to_string(), is_dir, size }
}

#[test]
fn top_level_lists_each_directory_once_sorted_by_lowercase_name() {
    let members = vec![
        member("zeta.txt", false, 5),
        member("dir/nested.txt", false, 14),
        member("dir/other.txt", false, 3),
        member("Alpha.txt", false, 7),
    ];
    let top = top_level_entries(&members);
    let names: Vec<&str> = top.iter().map(|e| e.name.as_str()).collect();
    assert_eq!(names, vec!["Alpha.txt", "dir", "zeta.txt"]);
    assert!(top[1].is_dir);
    assert_eq!(top[1].kind, EntryKind::Dir);
    assert_eq!(top[0].size, 7);
}
