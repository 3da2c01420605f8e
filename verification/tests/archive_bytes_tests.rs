use std::io::{Cursor, Write};

use vhs_86::archive::{list_tar_bytes, list_zip_bytes};
use vhs_86::files::{extraction_plan, zip_archive_bytes, ZipInput};
use vhs_86::preview::{kitty_image_for, kitty_image_of_bytes};
use vhs_86::EntryKind;

fn zip_bytes(files: &[(&str, &[u8])], dirs: &[&str]) -> Vec<u8> {
    let mut zip = zip::ZipWriter::new(Cursor::new(Vec::new()));
    let options = zip::write::SimpleFileOptions::default();
    for d in dirs {
        zip.add_directory(d.to_string(), options).unwrap();
    }
    for (name, data) in files {
        zip.start_file(name.to_string(), options).unwrap();
        zip.write_all(data).unwrap();
    }
    zip.finish().unwrap().into_inner()
}

fn tar_bytes(files: &[(&str, &[u8])]) -> Vec<u8> {
    let mut builder = tar::Builder::new(Vec::new());
    for (name, data) in files {
        let mut header = tar::Header::new_gnu();
        header.set_size(data.len() as u64);
        header.set_mode(0o644);
        header.set_cksum();
        builder.append_data(&mut header, name, *data).unwrap();
    }
    builder.into_inner().unwrap()
}

fn gzip(bytes: &[u8]) -> Vec<u8> {
    let mut enc = flate2::write::GzEncoder::new(Vec::new(), flate2::Compression::default());
    enc.write_all(bytes).unwrap();
    enc.finish().unwrap()
}

#[test]
fn zip_listing_shows_top_level_entries_sorted() {
    let bytes = zip_bytes(&[("zeta.txt", b"hello"), ("docs/a.md", b"x"), ("Alpha.txt", b"1234567")], &["empty/"]);
    let top = list_zip_bytes(&bytes).unwrap();
    let names: Vec<&str> = top.iter().map(|e| e.name.as_str()).collect();
    assert_eq!(names, vec!["Alpha.txt", "docs", "empty", "zeta.txt"]);
    assert_eq!(top[0].size, 7);
    assert_eq!(top[0].kind, EntryKind::File);
    assert_eq!(top[1].path, "docs/");
    assert!(top[1].is_dir);
    assert_eq!(top[1].size, 0);
    assert_eq!(top[2].kind, EntryKind::Dir);
    assert_eq!(top[3].path, "zeta.txt");
    assert_eq!(top[3].size, 5);
}

#[test]
fn bytes_that_are_no_zip_archive_give_no_listing() {
    assert!(list_zip_bytes(&b"not a zip archive".to_vec()).is_none());
    assert!(list_zip_bytes(&Vec::new()).is_none());
}

#[test]
fn tar_listing_reads_a_single_file() {
    let bytes = tar_bytes(&[("hello.txt", b"Hello, world!")]);
    let top = list_tar_bytes(&bytes, false).unwrap();
    assert_eq!(top.len(), 1);
    assert_eq!(top[0].name, "hello.txt");
    assert_eq!(top[0].kind, EntryKind::File);
    assert_eq!(top[0].size, 13);
}

#[test]
fn gzipped_tar_listing_lists_directories_once() {
    let tar = tar_bytes(&[("src/main.rs", b"fn main() {}"), ("src/lib.rs", b""), ("README", b"read me")]);
    let top = list_tar_bytes(&gzip(&tar), true).unwrap();
    let names: Vec<&str> = top.iter().map(|e| e.name.as_str()).collect();
    assert_eq!(names, vec!["README", "src"]);
    assert!(top[1].is_dir);
    assert_eq!(top[1].path, "src/");
}

#[test]
fn tar_listing_of_bad_gzip_data_is_none() {
    let tar = tar_bytes(&[("a.txt", b"a")]);
    assert!(list_tar_bytes(&tar, true).is_none());
}

#[test]
fn extraction_plan_targets_members_under_the_output_directory() {
    let bytes = zip_bytes(&[("a.txt", b"alpha"), ("../evil.txt", b"bad"), ("sub/b.txt", b"beta")], &["sub/"]);
    let plan = extraction_plan("/out", &bytes).unwrap();
    assert_eq!(plan.len(), 3);
    assert_eq!(plan[0], ("/out/sub/".to_string(), true, Vec::new()));
    assert_eq!(plan[1], ("/out/a.txt".to_string(), false, b"alpha".to_vec()));
    assert_eq!(plan[2], ("/out/sub/b.txt".to_string(), false, b"beta".to_vec()));
}

#[test]
fn extraction_plan_of_bytes_that_are_no_zip_is_none() {
    assert!(extraction_plan("/out", &b"plain text".to_vec()).is_none());
}

fn png_bytes(w: u32, h: u32) -> Vec<u8> {
    let img = image::RgbaImage::from_pixel(w, h, image::Rgba([10, 20, 30, 255]));
    let mut out = Cursor::new(Vec::new());
    img.write_to(&mut out, image::ImageFormat::Png).unwrap();
    out.into_inner()
}

#[test]
fn decoded_image_bytes_give_the_commands_of_the_decoded_pixels() {
    let bytes = png_bytes(3, 2);
    let pixels: Vec<u8> = [10u8, 20, 30, 255].repeat(6);
    assert_eq!(kitty_image_of_bytes("png", &bytes, 4, 2), kitty_image_for(3, 2, &pixels, 4, 2));
    assert_eq!(kitty_image_of_bytes("PNG", &bytes, 4, 2), kitty_image_for(3, 2, &pixels, 4, 2));
    assert!(!kitty_image_of_bytes("png", &bytes, 4, 2).is_empty());
}

#[test]
fn undecodable_image_bytes_give_no_commands() {
    let bytes = png_bytes(3, 2);
    assert!(kitty_image_of_bytes("txt", &bytes, 4, 2).is_empty());
    assert!(kitty_image_of_bytes("", &bytes, 4, 2).is_empty());
    assert!(kitty_image_of_bytes("png", &b"not an image".to_vec(), 4, 2).is_empty());
    assert!(kitty_image_of_bytes("png", &bytes, 0, 2).is_empty());
}

#[test]
fn zip_archives_written_from_inputs_read_back_member_by_member() {
    let inputs = vec![
        ZipInput { base: "notes.txt".to_string(), rel: None, data: b"remember".to_vec() },
        ZipInput { base: "src".to_string(), rel: Some("main.rs".to_string()), data: b"fn main() {}".to_vec() },
        ZipInput { base: "src".to_string(), rel: Some("lib.rs".to_string()), data: Vec::new() },
    ];
    let bytes = zip_archive_bytes(inputs).unwrap();
    let plan = extraction_plan("out", &bytes).unwrap();
    assert_eq!(
        plan,
        vec![
            ("out/notes.txt".to_string(), false, b"remember".to_vec()),
            ("out/src/main.rs".to_string(), false, b"fn main() {}".to_vec()),
            ("out/src/lib.rs".to_string(), false, Vec::new()),
        ]
    );
    let top = list_zip_bytes(&bytes).unwrap();
    let names: Vec<&str> = top.iter().map(|e| e.name.as_str()).collect();
    assert_eq!(names, vec!["notes.txt", "src"]);
    assert_eq!(top[0].size, 8);
}

#[test]
fn an_empty_zip_archive_lists_nothing() {
    let bytes = zip_archive_bytes(Vec::new()).unwrap();
    assert_eq!(list_zip_bytes(&bytes).unwrap().len(), 0);
    assert_eq!(extraction_plan("out", &bytes).unwrap().len(), 0);
}
