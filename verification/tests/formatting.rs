use qq_warning::utils::format_size;

/// The size formatting as a float computation, for comparison.
fn float_reference(bytes: u64) -> String {
    const UNITS: &[&str] = &["B", "KB", "MB", "GB"];
    let mut size = bytes as f64;
    let mut unit_index = 0;
    while size >= 1024.0 && unit_index < UNITS.len() - 1 {
        size /= 1024.0;
        unit_index += 1;
    }
    format!("{:.2} {}", size, UNITS[unit_index])
}

#[test]
fn format_size_small_values() {
    assert_eq!(format_size(0), "0.00 B");
    assert_eq!(format_size(1), "1.00 B");
    assert_eq!(format_size(1023), "1023.00 B");
}

#[test]
fn format_size_units() {
    assert_eq!(format_size(1024), "1.00 KB");
    assert_eq!(format_size(1536), "1.50 KB");
    assert_eq!(format_size(104858), "102.40 KB");
    assert_eq!(format_size(1048576), "1.00 MB");
    assert_eq!(format_size(1572864), "1.50 MB");
    assert_eq!(format_size(1073741824), "1.00 GB");
    assert_eq!(format_size(5 * 1073741824), "5.00 GB");
}

#[test]
fn format_size_rounds_up_to_next_thousand() {
    // 1048575 bytes is 1023.999 KB, which shows as 1024.00 KB
    assert_eq!(format_size(1048575), "1024.00 KB");
}

#[test]
fn format_size_ties_go_to_even() {
    // 1029 / 1024 = 1.0048828125, 1034 / 1024 = 1.009765625: no ties; look for exact halves
    for bytes in 1024u64..1024 * 64 {
        assert_eq!(format_size(bytes), float_reference(bytes), "bytes = {}", bytes);
    }
}

#[test]
fn format_size_matches_float_on_large_values() {
    let samples: [u64; 12] = [
        u64::MAX,
        u64::MAX - 1,
        (1u64 << 53) - 1,
        1u64 << 53,
        (1u64 << 53) + 1,
        (1u64 << 53) + 3,
        (1u64 << 60) + 12345,
        1099511627776,
        999999999999,
        123456789012345,
        18014398509481985,
        36028797018963971,
    ];
    for bytes in samples {
        assert_eq!(format_size(bytes), float_reference(bytes), "bytes = {}", bytes);
    }
    let mut x: u64 = 0x9E3779B97F4A7C15;
    for _ in 0..20000 {
        x ^= x << 13;
        x ^= x >> 7;
        x ^= x << 17;
        let shift = (x % 64) as u32;
        let bytes = x >> shift;
        assert_eq!(format_size(bytes), float_reference(bytes), "bytes = {}", bytes);
    }
}
