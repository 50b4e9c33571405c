use worker_pools::config::{kind_weights, parse_dist, parse_i32, task_count, uniform_durations, DistError};

#[test]
fn whole_numbers_as_from_str_radix_reads_them() {
    let cases: [&str; 14] = [
        "1000", "+5", "-0", "0", "-2147483648", "2147483647", "2147483648", "-2147483649",
        "", "+", "-", "1a", " 1", "00012",
    ];
    for s in cases {
        assert_eq!(parse_i32(s.as_bytes()), i32::from_str_radix(s, 10).ok(), "{s:?}");
    }
    assert_eq!(parse_i32(b"99999999999999999999"), None);
}

#[test]
fn task_count_defaults_to_1000() {
    assert_eq!(task_count(None), Some(1000));
    assert_eq!(task_count(Some(b"25")), Some(25));
    assert_eq!(task_count(Some(b"-3")), Some(-3));
    assert_eq!(task_count(Some(b"ten")), None);
}

#[test]
fn dist_reads_x_colon_y() {
    assert_eq!(parse_dist(b"7:3"), Ok((7, 3)));
    assert_eq!(parse_dist(b"1:1"), Ok((1, 1)));
    assert_eq!(parse_dist(b"0:0"), Ok((0, 0)));
}

#[test]
fn dist_takes_the_leftmost_match_anywhere() {
    assert_eq!(parse_dist(b"ratio a12:34b"), Ok((12, 34)));
    assert_eq!(parse_dist(b"1a23:4"), Ok((23, 4)));
    assert_eq!(parse_dist(b"5:6:7"), Ok((5, 6)));
    assert_eq!(parse_dist(b":1 2:3"), Ok((2, 3)));
    assert_eq!(parse_dist("é9:8".as_bytes()), Ok((9, 8)));
}

#[test]
fn dist_without_a_match_is_refused() {
    for s in ["", "x:y", "7-3", ":5", "5:", "7 : 3", "a:1", "1:b"] {
        assert_eq!(parse_dist(s.as_bytes()), Err(DistError::InvalidFormat), "{s:?}");
    }
    assert_eq!(parse_dist(b"-7:3x"), Ok((7, 3)));
}

#[test]
fn dist_side_too_large_is_refused() {
    assert_eq!(parse_dist(b"2147483648:1"), Err(DistError::WeightTooLarge));
    assert_eq!(parse_dist(b"1:99999999999"), Err(DistError::WeightTooLarge));
    assert_eq!(parse_dist(b"2147483647:0"), Ok((2147483647, 0)));
}

#[test]
fn dist_defaults_to_seven_to_three() {
    assert_eq!(kind_weights(None), Ok((7, 3)));
    assert_eq!(kind_weights(Some(b"2:5")), Ok((2, 5)));
    assert_eq!(kind_weights(Some(b"nope")), Err(DistError::InvalidFormat));
}

#[test]
fn durations_uniform_unless_zero() {
    assert!(uniform_durations(None));
    assert!(!uniform_durations(Some(b"0")));
    assert!(uniform_durations(Some(b"1")));
    assert!(uniform_durations(Some(b"00")));
    assert!(uniform_durations(Some(b"")));
    assert!(uniform_durations(Some(b"false")));
}
