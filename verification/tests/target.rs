use yfp::engine::target::{byte_unit_index, drive_info, drive_roots, format_bytes, to_wide_null};

#[test]
fn wide_strings_are_utf16_with_nul() {
    assert_eq!(to_wide_null("C:\\"), vec![67, 58, 92, 0]);
    assert_eq!(to_wide_null(""), vec![0]);
    let s = "D:\\é😀";
    let expected: Vec<u16> = s.encode_utf16().chain(std::iter::once(0)).collect();
    assert_eq!(to_wide_null(s), expected);
}

#[test]
fn drive_mask_bits_become_roots() {
    assert!(drive_roots(0).is_empty());
    assert_eq!(drive_roots(0b101), vec!["A:\\".to_string(), "C:\\".to_string()]);
    let all = drive_roots(u32::MAX);
    assert_eq!(all.len(), 26);
    assert_eq!(all[25], "Z:\\");
}

#[test]
fn ready_drives_get_labels() {
    let info = drive_info("C:\\", false, true, 1000, 400).unwrap();
    assert_eq!(info.label, "Local Disk (C:)");
    assert_eq!(info.root_path, "C:\\");
    assert_eq!(info.total_bytes, 1000);
    assert_eq!(info.free_bytes, 400);
    assert!(!info.is_removable);
    let usb = drive_info("E:\\", true, true, 1, 0).unwrap();
    assert_eq!(usb.label, "Removable Drive (E:)");
    assert!(usb.is_removable);
    assert_eq!(drive_info("X:\\\\", false, true, 1, 1).unwrap().label, "Local Disk (X:)");
}

#[test]
fn unready_or_empty_drives_are_skipped() {
    assert!(drive_info("D:\\", false, false, 1000, 400).is_none());
    assert!(drive_info("D:\\", false, true, 0, 0).is_none());
}

#[test]
fn byte_units_follow_powers_of_1024() {
    assert_eq!(byte_unit_index(1), 0);
    assert_eq!(byte_unit_index(1023), 0);
    assert_eq!(byte_unit_index(1024), 1);
    assert_eq!(byte_unit_index(1024 * 1024 - 1), 1);
    assert_eq!(byte_unit_index(1024 * 1024), 2);
    assert_eq!(byte_unit_index(1 << 30), 3);
    assert_eq!(byte_unit_index(1 << 40), 4);
    assert_eq!(byte_unit_index(u64::MAX), 4);
}

/// The double-precision computation the byte display is defined by.
fn float_bytes(bytes: u64) -> String {
    const UNITS: [&str; 5] = ["B", "KB", "MB", "GB", "TB"];
    if bytes == 0 {
        return "0 B".to_string();
    }
    let mut value = bytes as f64;
    let mut unit_index = 0;
    while value >= 1024.0 && unit_index < UNITS.len() - 1 {
        value /= 1024.0;
        unit_index += 1;
    }
    format!("{:.1} {}", value, UNITS[unit_index])
}

/// Values across all magnitudes, including rounding ties and the
/// precision limit of doubles.
fn sample_values() -> Vec<u64> {
    let mut v: Vec<u64> = (0..3000).collect();
    for shift in 0..64 {
        let p = 1u64 << shift;
        for d in [p.wrapping_sub(1), p, p.wrapping_add(1), p / 2 * 3, p / 4 * 5, p / 20 * 19] {
            v.push(d);
        }
    }
    v.extend([102, 51, 153, 262144, 786432, 1_310_720, 1_992_294_400, (1 << 53) + 1, (1 << 53) + 3, (1 << 54) + 2, u64::MAX, u64::MAX - 1]);
    let mut x: u64 = 0x2545_F491_4F6C_DD1D;
    for _ in 0..20000 {
        x ^= x << 13;
        x ^= x >> 7;
        x ^= x << 17;
        v.push(x >> (x % 64));
    }
    v
}

#[test]
fn byte_display_matches_double_precision_formatting() {
    for b in sample_values() {
        assert_eq!(format_bytes(b), float_bytes(b), "bytes = {b}");
    }
}

#[test]
fn byte_display_examples() {
    assert_eq!(format_bytes(0), "0 B");
    assert_eq!(format_bytes(1), "1.0 B");
    assert_eq!(format_bytes(1536), "1.5 KB");
    assert_eq!(format_bytes(1048575), "1024.0 KB");
    assert_eq!(format_bytes(5 << 30), "5.0 GB");
    assert_eq!(format_bytes(u64::MAX), "16777216.0 TB");
}
