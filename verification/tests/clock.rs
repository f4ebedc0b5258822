use chrono::{Offset, TimeZone};
use pomodoro_notifier::clock::{clock_time, local_offset_at, now};
use pomodoro_notifier::schedule::{EARLIEST_SECOND, LATEST_SECOND};

#[test]
fn the_clock_time_at_twenty_five_past_ten() {
    assert_eq!(clock_time(1_705_314_300, 0), "10:25");
}

#[test]
fn the_clock_time_follows_the_offset() {
    assert_eq!(clock_time(1_705_281_900, 32_400), "10:25");
    assert_eq!(clock_time(1_705_281_900, 0), "01:25");
    assert_eq!(clock_time(1_705_281_900, -18_000), "20:25");
    assert_eq!(clock_time(1_705_281_900, 20_700), "07:10");
}

#[test]
fn hours_and_minutes_have_two_digits() {
    assert_eq!(clock_time(0, 0), "00:00");
    assert_eq!(clock_time(59, 0), "00:00");
    assert_eq!(clock_time(60, 0), "00:01");
    assert_eq!(clock_time(9 * 3600 + 5 * 60, 0), "09:05");
    assert_eq!(clock_time(86_399, 0), "23:59");
    assert_eq!(clock_time(86_400, 0), "00:00");
    assert_eq!(clock_time(-1, 0), "23:59");
    assert_eq!(clock_time(12 * 3600, 0), "12:00");
}

#[test]
fn every_minute_of_the_day_is_written_as_hours_and_minutes() {
    for minute in 0..1440_i64 {
        let expected = format!("{:02}:{:02}", minute / 60, minute % 60);
        assert_eq!(clock_time(1_705_276_800 + minute * 60, 0), expected);
        assert_eq!(clock_time(1_705_276_800 + minute * 60 + 59, 0), expected);
    }
}

#[test]
fn the_clock_time_is_the_time_of_the_calendar() {
    for offset in [-43_200, -12_600, 0, 3_600, 20_700, 32_400, 50_400] {
        let zone = chrono::FixedOffset::east_opt(offset).unwrap();
        for second in [0_i64, 1_705_281_900, 1_711_846_740, 951_782_399, -86_400 * 365, 4_102_444_799] {
            let expected = zone.timestamp_opt(second, 0).unwrap().format("%H:%M").to_string();
            assert_eq!(clock_time(second, offset), expected);
        }
    }
}

#[test]
fn the_clock_time_is_defined_for_every_second() {
    assert_eq!(clock_time(i64::MAX, i32::MAX).len(), 5);
    assert_eq!(clock_time(i64::MIN, i32::MIN).len(), 5);
    assert_eq!(clock_time(i64::MAX, 0), "15:30");
}

#[test]
fn the_clock_reads_the_present() {
    let before = chrono::Utc::now().timestamp();
    let reading = now();
    let after = chrono::Utc::now().timestamp();
    assert!(before <= reading.seconds() && reading.seconds() <= after);
    assert!(reading.nanoseconds() < 1_000_000_000);
    let expected = chrono::Local.timestamp_opt(reading.seconds(), 0).unwrap().offset().fix().local_minus_utc();
    assert_eq!(reading.utc_offset(), expected);
}

#[test]
fn the_offset_at_a_second_is_the_offset_of_the_local_zone() {
    for second in [0_i64, 1_705_281_900, 1_720_000_000, 951_782_399, EARLIEST_SECOND, LATEST_SECOND] {
        let expected = chrono::Local.timestamp_opt(second, 0).unwrap().offset().fix().local_minus_utc();
        assert_eq!(local_offset_at(second), Some(expected));
        assert!(-86_400 < expected && expected < 86_400);
    }
}

#[test]
fn there_is_no_offset_outside_the_calendar() {
    assert_eq!(local_offset_at(EARLIEST_SECOND - 1), None);
    assert_eq!(local_offset_at(LATEST_SECOND + 1), None);
    assert_eq!(local_offset_at(i64::MAX), None);
    assert_eq!(local_offset_at(i64::MIN), None);
}
