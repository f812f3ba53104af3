use mp4converter::{format_duration, parse_time};

/// Mirrors how a floating-point second count is reduced to centiseconds:
/// scaled by 100 and truncated, never rounded.
fn centis(seconds: f64) -> u64 {
    (seconds * 100.0).trunc() as u64
}

#[test]
fn lib_test_format_duration() {
    assert_eq!(format_duration(centis(3661.5)), "01:01:01.50");
    assert_eq!(format_duration(centis(0.0)), "00:00:00.00");
    assert_eq!(format_duration(centis(7323.0)), "02:02:03.00");
}

#[test]
fn main_test_test_format_duration() {
    assert_eq!(format_duration(centis(3661.5)), "01:01:01.50");
    assert_eq!(format_duration(centis(0.0)), "00:00:00.00");
    assert_eq!(format_duration(centis(7323.0)), "02:02:03.00");
}

#[test]
fn lib_test_duration_formatting_properties() {
    let test_cases = [
        (0.0, "00:00:00.00"),
        (59.949, "00:00:59.94"),
        (59.999, "00:00:59.99"),
        (60.0, "00:01:00.00"),
        (3599.999, "00:59:59.99"),
        (3600.0, "01:00:00.00"),
    ];

    for (input, expected) in test_cases {
        assert_eq!(format_duration(centis(input)), expected, "Failed for input: {}", input);
    }
}

#[test]
fn test_truncating_format() {
    // Formatting truncates: 59.999 seconds renders as 59.99, not 60.00.
    assert_eq!(format_duration(centis(59.999)), "00:00:59.99");
}

#[test]
fn test_format_duration_comprehensive() {
    let test_cases = [
        (0.0, "00:00:00.00"),
        (0.001, "00:00:00.00"),
        (0.004, "00:00:00.00"),
        (0.01, "00:00:00.01"),
        (0.99, "00:00:00.99"),
        (1.999, "00:00:01.99"),
        (59.994, "00:00:59.99"),
        (61.5, "00:01:01.50"),
        (3661.25, "01:01:01.25"),
        (3723.456, "01:02:03.45"),
        (3599.999, "00:59:59.99"),
        (86399.99, "23:59:59.99"),
        (90061.0, "25:01:01.00"),
    ];

    for (input, expected) in test_cases {
        assert_eq!(format_duration(centis(input)), expected, "Failed for input: {}", input);
    }
}

#[test]
fn lib_test_parse_time() {
    let result = parse_time("frame=1000 fps=30 time=00:01:23.45 bitrate=1000k");
    assert_eq!(result, Some(8345));
}

#[test]
fn main_test_test_parse_time() {
    assert_eq!(parse_time("frame=1000 fps=30 time=00:01:23.45"), Some(8345));
    assert_eq!(parse_time("invalid input"), None);
    assert_eq!(parse_time("time=00:00:00.00"), Some(0));
}

#[test]
fn test_time_edge_cases() {
    let test_cases = [
        ("time=00:00:03.45", Some(345u64)),
        ("time=00:01:23.45", Some(8345)),
        ("time=01:00:00.00", Some(360_000)),
        ("time=00:01:00.00", Some(6_000)),
    ];

    for (input, expected) in test_cases.iter() {
        let result = parse_time(input);
        assert_eq!(
            result, *expected,
            "Failed parsing edge case '{}'. Got {:?}, expected {:?}",
            input, result, expected
        );
    }
}

#[test]
fn test_precise_timing() {
    let result = parse_time("time=00:01:23.45");
    assert!(result.is_some(), "Expected Some value but got None");
    if let Some(time) = result {
        assert_eq!(time, 8345, "Expected 8345, got {}", time);
    }
}

#[test]
fn test_parse_time_comprehensive() {
    let test_cases = [
        ("time=00:01:23.45", Some(8345u64)),
        ("frame=1234 fps=30 time=00:00:30.12", Some(3012)),
        ("invalid line", None),
        ("time=invalid", None),
        ("time=", None),
        ("time=abc:def:ghi", None),
        ("time=1:2", None),
        ("time=1:2:3 extra", Some(372_300)),
        ("prefix time=01:02:03 suffix", Some(372_300)),
        ("multiple time=1:0:0 and time=2:0:0", Some(360_000)),
        ("time=25:61:61", Some(9_372_100)),
    ];

    for (input, expected) in test_cases {
        assert_eq!(parse_time(input), expected, "Failed for input: {}", input);
    }
}

#[test]
fn test_rounding_behavior() {
    let input: f64 = 59.999;
    let scaled: f64 = (input * 100.0).round();
    let normalized = scaled / 100.0;
    assert_eq!(normalized, 60.0);
}

#[test]
fn test_signed_field_forms() {
    // A leading plus is accepted on each field, as the original float
    // parser did; a negative field has no unsigned representation and is
    // rejected.
    assert_eq!(parse_time("time=+1:02:3.5"), Some(372_350));
    assert_eq!(parse_time("time=-1:2:3"), None);
}
