use afk::clock::format_time;

#[test]
fn seconds_only_when_groups_hidden() {
    assert_eq!(format_time(45, false), "45");
    assert_eq!(format_time(5, false), "05");
    assert_eq!(format_time(0, false), "00");
}

#[test]
fn negative_with_minutes() {
    assert_eq!(format_time(-75, false), "-01:15");
    assert_eq!(format_time(-75, true), "-00:01:15");
}

#[test]
fn all_groups_when_zeroes_shown() {
    assert_eq!(format_time(5, true), "00:00:05");
    assert_eq!(format_time(0, true), "00:00:00");
}

#[test]
fn hours_minutes_seconds() {
    assert_eq!(format_time(3661, false), "01:01:01");
    assert_eq!(format_time(3600, false), "01:00:00");
    assert_eq!(format_time(60, false), "01:00");
    assert_eq!(format_time(59, false), "59");
}

#[test]
fn hours_wider_than_two_digits() {
    assert_eq!(format_time(360000, false), "100:00:00");
    assert_eq!(format_time(i32::MAX, false), "596523:14:07");
    assert_eq!(format_time(i32::MIN, false), "-596523:14:08");
}

#[test]
fn nonnegative_counts_have_no_sign() {
    for t in [0, 1, 59, 60, 3599, 3600, 86399, 1_000_000] {
        assert!(!format_time(t, false).contains('-'));
        assert!(!format_time(t, true).contains('-'));
    }
}

#[test]
fn negative_counts_have_sign_and_magnitude() {
    for t in [1, 59, 61, 3599, 3725, 1_000_000] {
        let shown = format_time(-t, true);
        assert!(shown.starts_with('-'));
        assert_eq!(&shown[1..], format_time(t, true));
    }
    assert_eq!(format_time(-3725, true), "-01:02:05");
}
