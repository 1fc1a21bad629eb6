use github_dashboard::clock::{clock_text, Moment, FIRST_MILLIS, LAST_MILLIS};

fn shown(millis: i64, offset: i32) -> Option<String> {
    clock_text(Moment { millis, offset })
}

#[test]
fn the_clock_shows_hour_minute_and_second() {
    assert_eq!(shown(0, 0), Some("00:00:00".to_string()));
    assert_eq!(shown(86_399_999, 0), Some("23:59:59".to_string()));
    assert_eq!(shown(-1, 0), Some("23:59:59".to_string()));
    assert_eq!(shown(947_638_923_004, 0), Some("01:02:03".to_string()));
}

#[test]
fn the_clock_is_local() {
    assert_eq!(shown(0, 5 * 3600 + 30 * 60), Some("05:30:00".to_string()));
    assert_eq!(shown(0, -1), Some("23:59:59".to_string()));
    assert_eq!(shown(0, 86_399), Some("23:59:59".to_string()));
    assert_eq!(shown(0, 86_400), None);
    assert_eq!(shown(0, -86_399), Some("00:00:01".to_string()));
    assert_eq!(shown(0, -86_400), None);
}

#[test]
fn the_calendar_has_a_first_and_a_last_time() {
    assert_eq!(shown(FIRST_MILLIS, 0), Some("00:00:00".to_string()));
    assert_eq!(shown(FIRST_MILLIS, -1), Some("23:59:59".to_string()));
    assert_eq!(shown(FIRST_MILLIS - 1, 0), None);
    assert_eq!(shown(LAST_MILLIS, 0), Some("23:59:59".to_string()));
    assert_eq!(shown(LAST_MILLIS, 1), Some("00:00:00".to_string()));
    assert_eq!(shown(LAST_MILLIS + 1, 0), None);
    assert_eq!(shown(i64::MIN, 0), None);
    assert_eq!(shown(i64::MAX, 0), None);
}

#[test]
fn the_clock_shows_the_same_a_day_later() {
    for day in [-3i64, 1, 400] {
        assert_eq!(shown(12_345_678 + day * 86_400_000, 77), shown(12_345_678, 77));
    }
}
