use vhs_86::files::{
    error_line, extract_format, zip_entry_target, format_err, format_hex_dump, generate_sequential_names, is_archive_file, sequential_names_with, is_image_file,
    is_text_data, rename_paths, valid_name, ExtractFormat,
};

#[test]
fn image_extensions_detected_case_insensitively() {
    for name in ["a.png", "b.JPG", "c.jpeg", "d.gif", "e.bmp", "f.webp", "g.tiff", "h.avif"] {
        assert!(is_image_file(name), "{} should be an image", name);
    }
}

#[test]
fn non_image_extensions_rejected() {
    for name in ["a.txt", "b.rs", "c.zip", "noext", ".hidden"] {
        assert!(!is_image_file(name), "{} should not be an image", name);
    }
}

#[test]
fn archive_extensions_detected() {
    for name in ["a.zip", "b.tar", "c.gz", "d.tgz", "e.ZIP"] {
        assert!(is_archive_file(name), "{} should be an archive", name);
    }
    assert!(!is_archive_file("f.png"));
    assert!(!is_archive_file("noext"));
}

#[test]
fn text_file_detected_as_text() {
    assert!(is_text_data(&b"hello world\nthis is text\n".to_vec()));
}

#[test]
fn binary_file_with_nul_detected_as_binary() {
    assert!(!is_text_data(&vec![0x89, 0x50, 0x00, 0xFF, 0x01]));
}

#[test]
fn hex_dump_formats_offsets_bytes_and_ascii() {
    let dump = format_hex_dump("data.bin", &b"AB".to_vec());
    assert!(dump.contains("00000000"), "missing offset: {}", dump);
    assert!(dump.contains("41 42"), "missing hex bytes: {}", dump);
    assert!(dump.contains("|AB|"), "missing ascii column: {}", dump);
}

#[test]
fn hex_dump_replaces_non_printable_with_dot() {
    let dump = format_hex_dump("data.bin", &vec![0x00, 0x41]);
    assert!(dump.contains("|.A|"), "non-printable should be '.': {}", dump);
}

#[test]
fn extract_unknown_format_errors() {
    assert_eq!(extract_format("file.rar"), None);
}

#[test]
fn sequential_names_with_brace_placeholder() {
    let names = generate_sequential_names("img_{}.png", 3);
    assert_eq!(names, vec!["img_1.png", "img_2.png", "img_3.png"]);
}

#[test]
fn sequential_names_with_zero_padding() {
    let names = generate_sequential_names("vacation_{:03}.jpg", 3);
    assert_eq!(names, vec!["vacation_001.jpg", "vacation_002.jpg", "vacation_003.jpg"]);
}

#[test]
fn sequential_names_without_placeholder_appends_number() {
    let names = generate_sequential_names("backup", 2);
    assert_eq!(names, vec!["backup_1", "backup_2"]);
}

#[test]
fn valid_name_rejects_bad_names() {
    assert!(!valid_name(""));
    assert!(!valid_name("a/b"));
    assert!(!valid_name("a\0b"));
    assert!(valid_name("normal file.txt"));
}

#[test]
fn format_err_prefixes_error() {
    let msg = format_err(std::io::Error::new(std::io::ErrorKind::NotFound, "gone"));
    assert!(msg.starts_with("Error: "));
    assert!(msg.contains("gone"));
}

#[test]
fn hex_dump_exact_text_for_seventeen_bytes() {
    let data: Vec<u8> = (0u8..17).collect();
    let dump = format_hex_dump("x", &data);
    let expected = "Hex dump: x (17 bytes)\n\n\
        00000000  00 01 02 03 04 05 06 07 08 09 0a 0b 0c 0d 0e 0f  |................|\n\
        00000010  10                                               |.|\n";
    assert_eq!(dump, expected);
}

#[test]
fn sequential_names_track_pattern_two_digits() {
    let names = generate_sequential_names("track_{:02}.txt", 3);
    assert_eq!(names, vec!["track_01.txt", "track_02.txt", "track_03.txt"]);
    assert!(generate_sequential_names("x", 0).is_empty());
}

#[test]
fn extract_formats_by_extension() {
    assert_eq!(extract_format("a.ZIP"), Some(ExtractFormat::Zip));
    assert_eq!(extract_format("a.tar.gz"), Some(ExtractFormat::TarGz));
    assert_eq!(extract_format("a.tgz"), Some(ExtractFormat::TarGz));
    assert_eq!(extract_format("a.tar"), None);
}

#[test]
fn rename_paths_join_both_names() {
    let (a, b) = rename_paths("/d", "old.txt", "new.txt");
    assert_eq!(a, "/d/old.txt");
    assert_eq!(b, "/d/new.txt");
}

#[test]
fn sequential_names_put_the_number_before_the_extension() {
    assert_eq!(generate_sequential_names("photo.jpg", 2), vec!["photo_1.jpg", "photo_2.jpg"]);
    assert_eq!(generate_sequential_names("a.tar.gz", 1), vec!["a.tar_1.gz"]);
    assert_eq!(generate_sequential_names(".bashrc", 1), vec![".bashrc_1"]);
    assert_eq!(generate_sequential_names("dir.d/file", 1), vec!["dir.d/file_1"]);
}

#[test]
fn sequential_names_from_a_given_placeholder() {
    let names = sequential_names_with(
        "shot_{:04}.png",
        Some(("shot_".to_string(), "4".to_string(), ".png".to_string())),
        2,
    );
    assert_eq!(names, vec!["shot_0001.png", "shot_0002.png"]);
    assert_eq!(sequential_names_with("x.txt", None, 1), vec!["x_1.txt"]);
}

#[test]
fn error_lines_prefix_the_text() {
    assert_eq!(error_line("gone"), "Error: gone");
    assert_eq!(error_line(""), "Error: ");
}

#[test]
fn zip_members_extract_below_the_output_directory() {
    assert_eq!(zip_entry_target("/out", "a/b.txt"), Some(("/out/a/b.txt".to_string(), false)));
    assert_eq!(zip_entry_target("/out/", "dir/"), Some(("/out/dir/".to_string(), true)));
    assert_eq!(zip_entry_target("/out", "a/..b/c"), Some(("/out/a/..b/c".to_string(), false)));
    assert_eq!(zip_entry_target("/out", "/abs"), None);
    assert_eq!(zip_entry_target("/out", "../x"), None);
    assert_eq!(zip_entry_target("/out", "a/../../x"), None);
    assert_eq!(zip_entry_target("/out", "a\\b"), None);
}
