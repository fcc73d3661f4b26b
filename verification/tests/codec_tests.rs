use clipvault::clock::{format_timestamp, now_unix_millis, timestamp_now};
use clipvault::codec::payload_bytes;
use clipvault::numfmt::dec_u64;
use clipvault::popup::{popup_position, MonitorInfo};

#[test]
fn payloads_strip_a_data_url_prefix() {
    assert_eq!(payload_bytes("data:image/png;base64,aGVsbG8=").unwrap(), b"hello");
    assert_eq!(payload_bytes("aGVsbG8=").unwrap(), b"hello");
    assert_eq!(payload_bytes("data:image/png;base64,").unwrap(), b"");
    assert!(payload_bytes("data:image/png;base64,!!!").is_none());
}

#[test]
fn decimal_rendering_is_exact() {
    assert_eq!(dec_u64(0), "0");
    assert_eq!(dec_u64(7), "7");
    assert_eq!(dec_u64(10), "10");
    assert_eq!(dec_u64(90210), "90210");
    assert_eq!(dec_u64(u64::MAX), "18446744073709551615");
}

#[test]
fn timestamps_are_zero_padded() {
    assert_eq!(format_timestamp(2024, 3, 7, 9, 5, 30), "2024-03-07 09:05:30");
    assert_eq!(format_timestamp(999, 12, 31, 23, 59, 59), "0999-12-31 23:59:59");
    assert_eq!(format_timestamp(0, 1, 1, 0, 0, 0), "0000-01-01 00:00:00");
}

#[test]
fn the_clock_renders_in_the_fixed_shape() {
    let now = timestamp_now();
    assert_eq!(now.len(), 19);
    assert_eq!(&now[4..5], "-");
    assert_eq!(&now[7..8], "-");
    assert_eq!(&now[10..11], " ");
    assert_eq!(&now[13..14], ":");
    assert_eq!(&now[16..17], ":");
    assert!(now_unix_millis() > 0);
}

#[test]
fn popup_lands_at_the_scaled_cursor() {
    let monitors = vec![MonitorInfo { x: 0, y: 0, width: 1920, height: 1080, scale: 1 }];
    assert_eq!(popup_position(&monitors, 100, 200, 300, 150), (100, 200));
}

#[test]
fn popup_shifts_back_inside_the_monitor_edges() {
    let monitors = vec![MonitorInfo { x: 0, y: 0, width: 1920, height: 1080, scale: 1 }];
    // off the right edge: the window flips to the left of the cursor
    assert_eq!(popup_position(&monitors, 1800, 500, 300, 150), (1500, 500));
    // off the bottom edge: it flips above the cursor
    assert_eq!(popup_position(&monitors, 500, 1000, 300, 150), (500, 850));
}

#[test]
fn popup_scales_to_the_monitor_that_holds_the_cursor() {
    let monitors = vec![
        MonitorInfo { x: 0, y: 0, width: 800, height: 600, scale: 1 },
        MonitorInfo { x: 800, y: 0, width: 1920, height: 1080, scale: 2 },
    ];
    // past the first monitor's edge, the doubled position falls on the
    // second monitor
    assert_eq!(popup_position(&monitors, 900, 100, 100, 100), (1800, 200));
}

#[test]
fn popup_without_monitors_keeps_the_raw_position() {
    let monitors: Vec<MonitorInfo> = Vec::new();
    assert_eq!(popup_position(&monitors, 42, 43, 10, 10), (42, 43));
}
