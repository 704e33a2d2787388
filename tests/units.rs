use rice::{format_bytes, format_uptime};

#[test]
fn test_format_bytes() {
    assert_eq!(format_bytes(0), "0 B");
    assert_eq!(format_bytes(512), "512 B");
    assert_eq!(format_bytes(1024), "1.0 KB");
    assert_eq!(format_bytes(1536), "1.5 KB");
    assert_eq!(format_bytes(1048576), "1.0 MB");
    assert_eq!(format_bytes(1073741824), "1.0 GB");
    assert_eq!(format_bytes(2147483648), "2.0 GB");
}

#[test]
fn test_format_uptime() {
    assert_eq!(format_uptime(0), "0m");
    assert_eq!(format_uptime(30), "0m");
    assert_eq!(format_uptime(60), "1m");
    assert_eq!(format_uptime(3600), "1h 0m");
    assert_eq!(format_uptime(3660), "1h 1m");
    assert_eq!(format_uptime(86400), "1d 0h 0m");
    assert_eq!(format_uptime(90061), "1d 1h 1m");
}

#[test]
fn test_format_bytes_edge_cases() {
    // Test very large values
    assert_eq!(format_bytes(1099511627776), "1.0 TB");

    // Test values just under threshold
    assert_eq!(format_bytes(1023), "1023 B");
    assert_eq!(format_bytes(1047552), "1023.0 KB");
}

#[test]
fn test_format_uptime_edge_cases() {
    // Test maximum values
    assert_eq!(format_uptime(31536000), "365d 0h 0m"); // 1 year

    // Test seconds that round down
    assert_eq!(format_uptime(59), "0m");
    assert_eq!(format_uptime(3599), "59m");
}

#[test]
fn format_bytes_rounds_to_one_decimal() {
    // 1.25 KB is a tie: it rounds to the even tenth.
    assert_eq!(format_bytes(1280), "1.2 KB");
    // 1.375 KB rounds up.
    assert_eq!(format_bytes(1408), "1.4 KB");
    // 1023.99... KB rounds to 1024.0 KB: the unit stays KB below one MiB.
    assert_eq!(format_bytes(1048575), "1024.0 KB");
}

#[test]
fn format_bytes_stays_in_terabytes() {
    assert_eq!(format_bytes(1024 * 1099511627776), "1024.0 TB");
    assert_eq!(format_bytes(u64::MAX), "16777216.0 TB");
}

#[test]
fn format_uptime_hours_and_days() {
    assert_eq!(format_uptime(7200 + 59), "2h 0m");
    assert_eq!(format_uptime(2 * 86400 + 3 * 3600 + 4 * 60 + 5), "2d 3h 4m");
    assert_eq!(format_uptime(86400 + 59), "1d 0h 0m");
}
