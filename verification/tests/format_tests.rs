use vhs_86::{format_size, format_time};

#[test]
fn test_format_size_zero() {
    assert_eq!(format_size(0), "-");
}

#[test]
fn test_format_size_bytes() {
    assert_eq!(format_size(512), "512 B");
}

#[test]
fn test_format_size_kilobytes() {
    assert_eq!(format_size(1536), "1.5 K");
}

#[test]
fn test_format_size_megabytes() {
    assert_eq!(format_size(1024 * 1024), "1.0 M");
}

#[test]
fn test_format_size_gigabytes() {
    assert_eq!(format_size(1024 * 1024 * 1024), "1.0 G");
}

#[test]
fn test_format_size_terabytes() {
    assert_eq!(format_size(1024_u64 * 1024 * 1024 * 1024), "1.0 T");
}

#[test]
fn test_format_time_none() {
    assert_eq!(format_time(None), "-");
}

#[test]
fn test_format_time_some() {
    let now = std::time::SystemTime::now()
        .duration_since(std::time::UNIX_EPOCH)
        .unwrap()
        .as_secs() as i64;
    let formatted = format_time(Some(now));
    assert!(!formatted.is_empty());
    assert_ne!(formatted, "-");
}

#[test]
fn format_size_matches_float_formatting() {
    for size in [1u64, 1023, 1024, 1025, 1536, 10_000, 1_048_575, 1_048_576, 5_000_000_000, u64::MAX] {
        let mut f = size as f64;
        let mut k = 0usize;
        while f >= 1024.0 && k < 4 {
            f /= 1024.0;
            k += 1;
        }
        let unit = ["B", "K", "M", "G", "T"][k];
        let expected = if k == 0 {
            format!("{} {}", f as u64, unit)
        } else {
            format!("{:.1} {}", f, unit)
        };
        assert_eq!(format_size(size), expected, "size {}", size);
    }
}

#[test]
fn format_size_rounds_tenths_half_to_even() {
    assert_eq!(format_size(1023), "1023 B");
    assert_eq!(format_size(1075), "1.0 K");
    assert_eq!(format_size(2047), "2.0 K");
    assert_eq!(format_size(u64::MAX), "16777216.0 T");
}

#[test]
fn times_chrono_can_hold_are_formatted_to_the_minute() {
    for secs in [0i64, 1_700_000_000, -8334601228800, 8210266876799] {
        let t = vhs_86::format_time(Some(secs));
        let c: Vec<char> = t.chars().collect();
        let n = c.len();
        assert!(n >= 16, "{}", t);
        assert_eq!(c[n - 6], ' ');
        assert_eq!(c[n - 3], ':');
        assert!(c[n - 5].is_ascii_digit() && c[n - 4].is_ascii_digit());
        assert!(c[n - 2].is_ascii_digit() && c[n - 1].is_ascii_digit());
    }
    assert_eq!(vhs_86::format_time(Some(-8334601228801)), "-");
    assert_eq!(vhs_86::format_time(Some(8210266876800)), "-");
    assert_eq!(vhs_86::format_time(Some(i64::MAX)), "-");
}
