use cmus_notify::timefmt::format_time;

#[test]
fn test_format_time_seconds_only() {
    assert_eq!(format_time(0), "00:00");
    assert_eq!(format_time(1), "00:01");
    assert_eq!(format_time(59), "00:59");
}

#[test]
fn test_format_time_minutes() {
    assert_eq!(format_time(60), "01:00");
    assert_eq!(format_time(61), "01:01");
    assert_eq!(format_time(123), "02:03");
}

#[test]
fn test_format_time_hour_boundary() {
    assert_eq!(format_time(3599), "59:59");
    assert_eq!(format_time(3600), "01:00:00");
    assert_eq!(format_time(3601), "01:00:01");
    assert_eq!(format_time(3659), "01:00:59");
    assert_eq!(format_time(3661), "01:01:01");
}

#[test]
fn test_format_time_many_hours() {
    assert_eq!(format_time(36000), "10:00:00");
    assert_eq!(format_time(360000), "100:00:00");
}
