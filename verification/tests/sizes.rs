use lchat::size::human_size;

/// The same text, computed with floating point.
fn by_float(bytes: u64) -> String {
    const UNITS: [&str; 5] = ["Б", "КБ", "МБ", "ГБ", "ТБ"];
    let mut v = bytes as f64;
    let mut u = 0;
    while v >= 1024.0 && u < UNITS.len() - 1 {
        v /= 1024.0;
        u += 1;
    }
    if u == 0 {
        format!("{bytes} {}", UNITS[0])
    } else {
        format!("{v:.1} {}", UNITS[u])
    }
}

#[test]
fn human_size_units() {
    assert_eq!(human_size(512), "512 Б");
    assert_eq!(human_size(1024), "1.0 КБ");
    assert_eq!(human_size(1536), "1.5 КБ");
}

#[test]
fn human_size_at_the_edges_of_the_units() {
    assert_eq!(human_size(0), "0 Б");
    assert_eq!(human_size(1023), "1023 Б");
    assert_eq!(human_size(1048575), "1024.0 КБ");
    assert_eq!(human_size(1048576), "1.0 МБ");
    assert_eq!(human_size(1073741824), "1.0 ГБ");
    assert_eq!(human_size(1099511627776), "1.0 ТБ");
    assert_eq!(human_size(u64::MAX), "16777216.0 ТБ");
}

#[test]
fn human_size_rounds_a_half_to_even() {
    // 1.25 KB and 1.75 KB lie in the middle between two tenths.
    assert_eq!(human_size(1280), "1.2 КБ");
    assert_eq!(human_size(1792), "1.8 КБ");
    assert_eq!(human_size(1281), "1.3 КБ");
}

#[test]
fn human_size_agrees_with_floating_point() {
    for bytes in 0..20000u64 {
        assert_eq!(human_size(bytes), by_float(bytes));
    }
    let mut step: u64 = 12345;
    for _ in 0..200000 {
        step = step.wrapping_mul(6364136223846793005).wrapping_add(1442695040888963407);
        let bytes = step >> (step % 60);
        assert_eq!(human_size(bytes), by_float(bytes));
    }
}

#[test]
fn human_size_rounds_to_a_double_first() {
    // A quarter of a TB above 2^53 bytes: a tie, which one more byte leaves a tie.
    for j in [32769u64, 32771, 40001, 67108863] {
        let tie = j << 38;
        for d in 0..3000u64 {
            assert_eq!(human_size(tie - d), by_float(tie - d));
            assert_eq!(human_size(tie + d), by_float(tie + d));
        }
    }
    assert_eq!(human_size((32769u64 << 38) + 1), "8192.2 ТБ");
    assert_eq!(human_size((32769u64 << 38) + 1000), "8192.3 ТБ");
    for d in 0..5000u64 {
        assert_eq!(human_size(u64::MAX - d), by_float(u64::MAX - d));
        assert_eq!(human_size((1u64 << 53) + d), by_float((1u64 << 53) + d));
    }
}

#[test]
fn small_sizes_are_told_to_half_a_tenth() {
    // 5000 bytes are 4.88... KB, told as 4.9 KB.
    assert_eq!(human_size(5000), "4.9 КБ");
    assert!((5000.0f64 / 1024.0 - 4.9).abs() <= 0.05);
    assert_eq!(human_size(1 << 53), "8192.0 ТБ");
    assert_eq!(human_size((1 << 53) - 1), "8192.0 ТБ");
    assert_eq!(human_size(1 << 50), "1024.0 ТБ");
}
