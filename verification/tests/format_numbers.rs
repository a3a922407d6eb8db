use traceview::{format_duration, format_tokens};

#[test]
fn test_format_duration_milliseconds() {
    assert_eq!(format_duration(500), "500ms");
    assert_eq!(format_duration(999), "999ms");
}

#[test]
fn test_format_duration_seconds() {
    assert_eq!(format_duration(1000), "1.00s");
    assert_eq!(format_duration(1500), "1.50s");
    assert_eq!(format_duration(59990), "59.99s"); // 59999 rounds to 60.00
}

#[test]
fn test_format_duration_minutes() {
    assert_eq!(format_duration(60000), "1m 0s");
    assert_eq!(format_duration(90000), "1m 30s");
    assert_eq!(format_duration(125000), "2m 5s");
}

#[test]
fn test_format_tokens_small() {
    assert_eq!(format_tokens(0), "0");
    assert_eq!(format_tokens(999), "999");
}

#[test]
fn test_format_tokens_thousands() {
    assert_eq!(format_tokens(1000), "1.0k");
    assert_eq!(format_tokens(1500), "1.5k");
    assert_eq!(format_tokens(999_999), "1000.0k");
}

#[test]
fn test_format_tokens_millions() {
    assert_eq!(format_tokens(1_000_000), "1.00M");
    assert_eq!(format_tokens(2_500_000), "2.50M");
}

fn float_tokens(count: i64) -> String {
    if count < 1000 {
        count.to_string()
    } else if count < 1_000_000 {
        format!("{:.1}k", count as f64 / 1000.0)
    } else {
        format!("{:.2}M", count as f64 / 1_000_000.0)
    }
}

fn float_duration(ms: i64) -> String {
    if ms < 1000 {
        format!("{ms}ms")
    } else if ms < 60_000 {
        let secs = ms as f64 / 1000.0;
        format!("{secs:.2}s")
    } else {
        let mins = ms / 60_000;
        let secs = (ms % 60_000) / 1000;
        format!("{mins}m {secs}s")
    }
}

#[test]
fn format_tokens_matches_float_formatting_below_a_million() {
    for count in -2000..1_000_000i64 {
        assert_eq!(format_tokens(count), float_tokens(count), "count {}", count);
    }
}

#[test]
fn format_tokens_matches_float_formatting_for_millions() {
    let mut count: i64 = 1_000_000;
    while count < 40_000_000 {
        assert_eq!(format_tokens(count), float_tokens(count), "count {}", count);
        count += 7;
    }
    for count in [
        i64::MAX,
        i64::MAX - 1,
        i64::MAX - 1023,
        i64::MAX - 1024,
        i64::MAX - 2048,
        (1i64 << 53) - 1,
        1i64 << 53,
        (1i64 << 53) + 1,
        (1i64 << 53) + 3,
        (1i64 << 54) + 2,
        (1i64 << 54) + 6,
        123_456_789_012_345,
        9_999_995_000_000,
        1_234_565_000,
        1_000_005_000,
    ] {
        assert_eq!(format_tokens(count), float_tokens(count), "count {}", count);
    }
}

#[test]
fn format_duration_matches_float_formatting() {
    for ms in -2000..200_000i64 {
        assert_eq!(format_duration(ms), float_duration(ms), "ms {}", ms);
    }
    for ms in [i64::MIN, i64::MAX, -1, 0] {
        assert_eq!(format_duration(ms), float_duration(ms), "ms {}", ms);
    }
}
