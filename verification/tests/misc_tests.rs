use vhs_86::crash_reporter::{crash_report_path_in, generate_crash_report, panic_location, panic_payload};
use vhs_86::pathname::{ancestors, extension, file_name, file_stem, join, parent};

#[test]
fn crash_report_text_and_location() {
    let r = generate_crash_report("2024-01-02 03:04:05", "0.5.0", "linux x86_64", "src/a.rs:1:2", "boom", "bt");
    assert_eq!(
        r,
        "\n--- Crash Report ---\nTimestamp:   2024-01-02 03:04:05\nVersion:     v0.5.0\nOS:          linux x86_64\nLocation:    src/a.rs:1:2\nPayload:     boom\n\nBacktrace:\nbt\n--- End Crash Report ---\n"
    );
    assert_eq!(panic_location(Some(("src/a.rs".to_string(), 10, 5))), "src/a.rs:10:5");
    assert_eq!(panic_location(None), "unknown location");
    assert_eq!(panic_payload(None), "Unknown panic payload");
    assert_eq!(crash_report_path_in(Some("/d".to_string())), Some("/d/vhs-86/crash.log".to_string()));
}

#[test]
fn paths_behave_as_std_paths() {
    for p in ["/a/b/c.txt", "/a/b/", "a", "/", "", "./x", ".", "a/..", "/a/./", "x.tar.gz", ".bashrc"] {
        let std_path = std::path::Path::new(p);
        assert_eq!(parent(p), std_path.parent().map(|q| q.to_string_lossy().to_string()), "parent of {:?}", p);
        assert_eq!(file_name(p), std_path.file_name().map(|q| q.to_string_lossy().to_string()), "name of {:?}", p);
        assert_eq!(extension(p), std_path.extension().map(|q| q.to_string_lossy().to_string()), "extension of {:?}", p);
        assert_eq!(file_stem(p), std_path.file_stem().map(|q| q.to_string_lossy().to_string()), "stem of {:?}", p);
    }
    assert_eq!(join("/a", "b"), "/a/b");
    assert_eq!(join("/a/", "b"), "/a/b");
    assert_eq!(join("/a", "/b"), "/b");
}

#[test]
fn ancestors_run_up_to_the_root() {
    assert_eq!(ancestors("/a/b"), vec!["/a/b", "/a", "/"]);
    assert_eq!(ancestors("rel/x"), vec!["rel/x", "rel", ""]);
}
