use filest::size::format_size;

// The same size worked out in floating point.
fn in_floating_point(bytes: u64) -> String {
    let units = ["B", "KB", "MB", "GB", "TB"];
    if bytes == 0 {
        return "0 B".to_string();
    }
    let k = 1024_f64;
    let i = (bytes as f64).log(k).floor() as usize;
    let i = i.min(units.len() - 1);
    format!("{:.2} {}", bytes as f64 / k.powi(i as i32), units[i])
}

#[test]
fn format_size_of_nothing() {
    assert_eq!(format_size(0), "0 B");
}

#[test]
fn format_size_picks_the_largest_unit_reached() {
    assert_eq!(format_size(1), "1.00 B");
    assert_eq!(format_size(1023), "1023.00 B");
    assert_eq!(format_size(1024), "1.00 KB");
    assert_eq!(format_size(1536), "1.50 KB");
    assert_eq!(format_size(1048576), "1.00 MB");
    assert_eq!(format_size(5 * 1024 * 1024 + 512 * 1024), "5.50 MB");
    assert_eq!(format_size(1073741824), "1.00 GB");
    assert_eq!(format_size(1099511627776), "1.00 TB");
    assert_eq!(format_size(500 * 1024 * 1024 * 1024), "500.00 GB");
}

#[test]
fn format_size_stays_in_tb_above_tb() {
    assert_eq!(format_size(1024 * 1099511627776), "1024.00 TB");
    assert_eq!(format_size(u64::MAX), "16777216.00 TB");
}

#[test]
fn format_size_rounds_to_the_nearest_hundredth() {
    assert_eq!(format_size(1025), "1.00 KB");
    assert_eq!(format_size(1029), "1.00 KB");
    assert_eq!(format_size(1030), "1.01 KB");
    assert_eq!(format_size(1048575), "1024.00 KB");
}

#[test]
fn format_size_rounds_a_tie_to_the_even_hundredth() {
    // 1152 / 1024 = 1.125 and 1408 / 1024 = 1.375, both exactly.
    assert_eq!(format_size(1152), "1.12 KB");
    assert_eq!(format_size(1408), "1.38 KB");
}

#[test]
fn format_size_agrees_with_floating_point_at_the_unit_borders() {
    for k in 1..=6u32 {
        let border = 1024u64.pow(k);
        for d in 0..5u64 {
            assert_eq!(format_size(border - d), in_floating_point(border - d), "{}", border - d);
            assert_eq!(format_size(border + d), in_floating_point(border + d), "{}", border + d);
        }
    }
}

#[test]
fn format_size_agrees_with_floating_point_on_small_sizes() {
    for bytes in 0..60_000u64 {
        assert_eq!(format_size(bytes), in_floating_point(bytes), "{}", bytes);
    }
}

#[test]
fn format_size_agrees_with_floating_point_on_ties() {
    for m in 0..4_000u64 {
        let kb = 128 * (2 * m + 1);
        assert_eq!(format_size(kb), in_floating_point(kb), "{}", kb);
        let tb = (1u64 << 37) * (2 * m + 1);
        assert_eq!(format_size(tb), in_floating_point(tb), "{}", tb);
        for d in [1u64, 2, 1023, 1024, 1025, 2047, 2048] {
            if let Some(near) = tb.checked_add(d) {
                assert_eq!(format_size(near), in_floating_point(near), "{}", near);
            }
            assert_eq!(format_size(tb - d), in_floating_point(tb - d), "{}", tb - d);
        }
    }
}

#[test]
fn format_size_agrees_with_floating_point_on_large_sizes() {
    let mut x: u64 = 0x9E37_79B9_7F4A_7C15;
    for _ in 0..40_000 {
        x ^= x << 13;
        x ^= x >> 7;
        x ^= x << 17;
        for shift in [0u32, 3, 8, 11, 16, 24, 30] {
            let bytes = x >> shift;
            assert_eq!(format_size(bytes), in_floating_point(bytes), "{}", bytes);
        }
    }
    for d in 0..4096u64 {
        assert_eq!(format_size(u64::MAX - d), in_floating_point(u64::MAX - d));
        let b = (1u64 << 53) + d;
        assert_eq!(format_size(b), in_floating_point(b));
        let b = (1u64 << 63) - 2048 + d;
        assert_eq!(format_size(b), in_floating_point(b));
    }
}
