use yfp::util::format::{format_eta, format_speed};
use yfp::util::text::{push_decimal, push_decimal_pad2};

#[test]
fn eta_under_an_hour_is_minutes_and_seconds() {
    assert_eq!(format_eta(0), "0:00");
    assert_eq!(format_eta(9), "0:09");
    assert_eq!(format_eta(59), "0:59");
    assert_eq!(format_eta(60), "1:00");
    assert_eq!(format_eta(605), "10:05");
    assert_eq!(format_eta(3599), "59:59");
}

#[test]
fn eta_of_an_hour_or_more_shows_hours() {
    assert_eq!(format_eta(3600), "1:00:00");
    assert_eq!(format_eta(3725), "1:02:05");
    assert_eq!(format_eta(36_000 + 59 * 60 + 7), "10:59:07");
    assert_eq!(format_eta(u64::MAX), format!("{}:{:02}:{:02}", u64::MAX / 3600, (u64::MAX % 3600) / 60, u64::MAX % 60));
}

#[test]
fn decimal_rendering_matches_std() {
    for n in [0u128, 7, 10, 99, 100, 12345, u64::MAX as u128, u128::MAX] {
        let mut s = String::from("x");
        push_decimal(&mut s, n);
        assert_eq!(s, format!("x{n}"));
    }
    let mut s = String::new();
    push_decimal_pad2(&mut s, 5);
    push_decimal_pad2(&mut s, 42);
    assert_eq!(s, "0542");
}

fn float_speed(bytes_per_sec: u64) -> String {
    let mbps = bytes_per_sec as f64 / (1024.0 * 1024.0);
    format!("{mbps:.1} MB/s")
}

#[test]
fn speed_display_matches_double_precision_formatting() {
    let mut values: Vec<u64> = (0..5000).map(|k| k * 97).collect();
    for shift in 0..64 {
        let p = 1u64 << shift;
        values.extend([p - 1, p, p + 1, p / 2 * 3]);
    }
    values.extend([262144, 786432, (1 << 53) + 1, u64::MAX]);
    let mut x: u64 = 88172645463325252;
    for _ in 0..20000 {
        x ^= x << 13;
        x ^= x >> 7;
        x ^= x << 17;
        values.push(x >> (x % 64));
    }
    for b in values {
        assert_eq!(format_speed(b), float_speed(b), "bytes/s = {b}");
    }
}

#[test]
fn speed_display_examples() {
    assert_eq!(format_speed(0), "0.0 MB/s");
    assert_eq!(format_speed(262144), "0.2 MB/s");
    assert_eq!(format_speed(786432), "0.8 MB/s");
    assert_eq!(format_speed(10 * 1048576), "10.0 MB/s");
    assert_eq!(format_speed(u64::MAX), "17592186044416.0 MB/s");
}
