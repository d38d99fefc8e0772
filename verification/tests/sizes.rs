use forg::utils::format_file_size;

fn with_floats(size: u64) -> String {
    let units = ["B", "KB", "MB", "GB", "TB"];
    let mut value = size as f64;
    let mut unit = 0;
    while value >= 1024.0 && unit < units.len() - 1 {
        value /= 1024.0;
        unit += 1;
    }
    if unit == 0 {
        format!("{} {}", value as u64, units[unit])
    } else {
        format!("{:.1} {}", value, units[unit])
    }
}

#[test]
fn test_file_size_formatting() {
    assert_eq!(format_file_size(0), "0 B");
    assert_eq!(format_file_size(1023), "1023 B");
    assert_eq!(format_file_size(1024), "1.0 KB");
    assert_eq!(format_file_size(1536), "1.5 KB");
    assert_eq!(format_file_size(1048576), "1.0 MB");
    assert_eq!(format_file_size(1073741824), "1.0 GB");
}

#[test]
fn size_units_change_at_powers_of_1024() {
    assert_eq!(format_file_size(1), "1 B");
    assert_eq!(format_file_size(1_048_575), "1024.0 KB");
    assert_eq!(format_file_size(1_073_741_823), "1024.0 MB");
    assert_eq!(format_file_size(1_099_511_627_775), "1024.0 GB");
    assert_eq!(format_file_size(1_099_511_627_776), "1.0 TB");
    assert_eq!(format_file_size(5 * 1_099_511_627_776), "5.0 TB");
}

#[test]
fn size_stays_in_terabytes_beyond_the_last_unit() {
    assert_eq!(format_file_size(1024 * 1_099_511_627_776), "1024.0 TB");
    assert_eq!(format_file_size(u64::MAX), "16777216.0 TB");
}

#[test]
fn size_ties_go_to_the_even_tenth() {
    assert_eq!(format_file_size(1280), "1.2 KB");
    assert_eq!(format_file_size(1792), "1.8 KB");
    assert_eq!(format_file_size(1024 + 51), "1.0 KB");
    assert_eq!(format_file_size(1024 + 52), "1.1 KB");
}

#[test]
fn size_text_agrees_with_floating_point_on_small_sizes() {
    for size in 0..70_000u64 {
        assert_eq!(format_file_size(size), with_floats(size), "size {}", size);
    }
}

#[test]
fn size_text_agrees_with_floating_point_across_magnitudes() {
    let mut state: u64 = 0x9e37_79b9_7f4a_7c15;
    for _ in 0..20_000 {
        state ^= state << 13;
        state ^= state >> 7;
        state ^= state << 17;
        let shift = (state >> 58) as u32;
        let size = state >> shift;
        assert_eq!(format_file_size(size), with_floats(size), "size {}", size);
    }
}

#[test]
fn size_text_agrees_with_floating_point_near_ties() {
    let quarter_tb: u64 = 1 << 38;
    for j in [1u64, 3, 5, 7, 32_769, 32_771, 4_000_001, 67_108_863] {
        let tie = j * quarter_tb;
        for delta in 0..3000u64 {
            let below = tie - delta;
            assert_eq!(format_file_size(below), with_floats(below), "size {}", below);
            if let Some(above) = tie.checked_add(delta) {
                assert_eq!(format_file_size(above), with_floats(above), "size {}", above);
            }
        }
    }
    for bits in 53..64u32 {
        let edge: u64 = 1 << bits;
        for delta in 0..3000u64 {
            assert_eq!(format_file_size(edge - delta), with_floats(edge - delta));
            assert_eq!(format_file_size(edge + delta), with_floats(edge + delta));
        }
    }
    for delta in 0..5000u64 {
        let top = u64::MAX - delta;
        assert_eq!(format_file_size(top), with_floats(top), "size {}", top);
    }
}
