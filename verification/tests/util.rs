use ratlog::util::{centered_rect, format_bytes, Rect};

/// The same sizes written with floating-point formatting.
fn with_floats(bytes: u64) -> String {
    const KB: u64 = 1024;
    const MB: u64 = KB * 1024;
    const GB: u64 = MB * 1024;
    if bytes >= GB {
        format!("{:.1} GiB", bytes as f64 / GB as f64)
    } else if bytes >= MB {
        format!("{:.1} MiB", bytes as f64 / MB as f64)
    } else if bytes >= KB {
        format!("{:.0} KiB", bytes / KB)
    } else {
        format!("{} B", bytes)
    }
}

#[test]
fn test_format_bytes() {
    assert_eq!(format_bytes(0), "0 B");
    assert_eq!(format_bytes(512), "512 B");
    assert_eq!(format_bytes(1024), "1 KiB");
    assert_eq!(format_bytes(1536), "1 KiB");
    assert_eq!(format_bytes(1024 * 1024), "1.0 MiB");
    assert_eq!(format_bytes(1024 * 1024 * 1024), "1.0 GiB");
    assert_eq!(format_bytes(1536 * 1024 * 1024), "1.5 GiB");
}

#[test]
fn test_centered_rect() {
    let area = Rect {
        x: 0,
        y: 0,
        width: 100,
        height: 20,
    };
    let r = centered_rect(area, 50, 50);
    assert_eq!(r.width, 50);
    assert_eq!(r.height, 10);
    assert_eq!(r.x, 25);
    assert_eq!(r.y, 5);
}

#[test]
fn centered_rect_rounds_down_and_keeps_the_origin() {
    let area = Rect { x: 3, y: 7, width: 81, height: 25 };
    let r = centered_rect(area, 56, 50);
    assert_eq!(r, Rect { x: 3 + (81 - 45) / 2, y: 7 + (25 - 12) / 2, width: 45, height: 12 });
    let whole = centered_rect(area, 100, 100);
    assert_eq!(whole, area);
    let none = centered_rect(area, 0, 0);
    assert_eq!(none, Rect { x: 3 + 40, y: 7 + 12, width: 0, height: 0 });
}

#[test]
fn centered_rect_larger_than_the_area_starts_at_its_origin() {
    let area = Rect { x: 5, y: 6, width: 10, height: 10 };
    let r = centered_rect(area, 150, 200);
    assert_eq!(r, Rect { x: 5, y: 6, width: 15, height: 20 });
}

#[test]
fn centered_rect_at_the_edge_of_the_screen() {
    let area = Rect { x: 65000, y: 65535, width: 600, height: 0 };
    let r = centered_rect(area, 100, 50);
    assert_eq!(r, Rect { x: 65000, y: 65535, width: 600, height: 0 });
    let r = centered_rect(area, 50, 0);
    assert_eq!(r, Rect { x: 65150, y: 65535, width: 300, height: 0 });
}

#[test]
fn format_bytes_at_the_unit_borders() {
    assert_eq!(format_bytes(1), "1 B");
    assert_eq!(format_bytes(1023), "1023 B");
    assert_eq!(format_bytes(2047), "1 KiB");
    assert_eq!(format_bytes(2048), "2 KiB");
    assert_eq!(format_bytes(1024 * 1024 - 1), "1023 KiB");
    assert_eq!(format_bytes(1024 * 1024 * 1024 - 1), "1024.0 MiB");
    assert_eq!(format_bytes(12 * 1024 * 1024 + 512 * 1024), "12.5 MiB");
    assert_eq!(format_bytes(u64::MAX), "17179869184.0 GiB");
}

#[test]
fn format_bytes_rounds_ties_to_even() {
    let quarter_gib: u64 = 256 * 1024 * 1024;
    // 1.25, 1.75, 2.25 GiB
    assert_eq!(format_bytes(5 * quarter_gib), "1.2 GiB");
    assert_eq!(format_bytes(7 * quarter_gib), "1.8 GiB");
    assert_eq!(format_bytes(9 * quarter_gib), "2.2 GiB");
    // 1.05 MiB is no tie in binary: 1101005 bytes is just above it.
    let quarter_mib: u64 = 256 * 1024;
    assert_eq!(format_bytes(5 * quarter_mib), "1.2 MiB");
    assert_eq!(format_bytes(5 * quarter_mib + 1), "1.3 MiB");
    assert_eq!(format_bytes(5 * quarter_mib - 1), "1.2 MiB");
    assert_eq!(format_bytes(3 * quarter_mib + 1024 * 1024 * 9), "9.8 MiB");
    // 9.95 rounds up into the next whole number.
    assert_eq!(format_bytes(1024 * 1024 * 10 - 1), "10.0 MiB");
}

#[test]
fn format_bytes_agrees_with_floating_point_formatting() {
    let mut samples: Vec<u64> = vec![
        0,
        1,
        1023,
        1024,
        1025,
        (1 << 20) - 1,
        1 << 20,
        (1 << 20) + 1,
        (1 << 30) - 1,
        1 << 30,
        (1 << 30) + 1,
        (1 << 53) - 1,
        1 << 53,
        (1 << 53) + 1,
        (1 << 53) + 2,
        (1 << 53) + 3,
        (1 << 54) + 2,
        (1 << 54) + 6,
        (1 << 63) - 1,
        1 << 63,
        (1 << 63) + 1024,
        (1 << 63) + 1025,
        (1 << 63) + 3072,
        u64::MAX - 1024,
        u64::MAX - 1023,
        u64::MAX,
    ];
    // Sizes next to each half of a tenth of a GiB and of a MiB.
    for k in 0..400u64 {
        for unit in [1u64 << 20, 1u64 << 30] {
            let edge = (2 * k + 1) * unit / 20;
            for delta in 0..3 {
                samples.push(edge + delta);
                samples.push(edge.saturating_sub(delta));
            }
        }
    }
    // Sizes of every magnitude, from a fixed sequence.
    let mut x: u64 = 0x9e3779b97f4a7c15;
    for _ in 0..20000 {
        x ^= x << 13;
        x ^= x >> 7;
        x ^= x << 17;
        samples.push(x);
        samples.push(x >> (x % 64));
    }
    // Large sizes next to a half of a tenth of a GiB, where the 53 bits of
    // a float decide.
    for k in 0..2000u64 {
        let edge = ((1u64 << 53) / (1 << 30) * 20 + 2 * k + 1) * (1 << 30) / 20;
        for delta in 0..4 {
            samples.push(edge + delta);
            samples.push(edge - delta);
        }
        let high = (u64::MAX / (1 << 30) * 20 - 2 * k - 1) / 20 * (1 << 30) + (1 << 29) / 10 * (2 * (k % 5) + 1);
        for delta in 0..1030 {
            if delta % 97 == 0 || delta > 1020 || delta < 4 {
                samples.push(high.wrapping_add(delta));
                samples.push(high.wrapping_sub(delta));
            }
        }
    }
    for bytes in samples {
        assert_eq!(format_bytes(bytes), with_floats(bytes), "{} bytes", bytes);
    }
}
