use last_core::get_long_usage;
use last_core::timefmt::{
    Timestamp, calculate_time_delta, clock_string, duration_string, start_time_string,
};

fn ts(secs: i64, nanos: u32, month: u8, day: u8, hour: u8, minute: u8) -> Timestamp {
    Timestamp { secs, nanos, month, day, hour, minute }
}

#[test]
fn long_usage_text() {
    assert_eq!(get_long_usage(), "For more details see last(1).");
}

#[test]
fn duration_one_day_one_hour() {
    assert_eq!(duration_string(90000), "(1+01:00)");
}

#[test]
fn duration_one_hour_one_minute() {
    assert_eq!(duration_string(3661), "(01:01)");
}

#[test]
fn duration_zero() {
    assert_eq!(duration_string(0), "(00:00)");
}

#[test]
fn duration_sub_minute() {
    assert_eq!(duration_string(59), "(00:00)");
}

#[test]
fn duration_many_days() {
    // 12 days, 3 hours, 25 minutes
    assert_eq!(duration_string(12 * 86400 + 3 * 3600 + 25 * 60 + 7), "(12+03:25)");
}

#[test]
fn duration_negative_hour() {
    // negative whole hours keep the minus sign in the hour column
    assert_eq!(duration_string(-90000), "(-1:00)");
}

#[test]
fn duration_negative_minutes_only() {
    assert_eq!(duration_string(-60), "(00:-1)");
}

#[test]
fn delta_whole_seconds() {
    let a = ts(0, 0, 1, 1, 0, 0);
    let b = ts(90000, 0, 1, 2, 1, 0);
    assert_eq!(calculate_time_delta(&a, &b), 90000);
}

#[test]
fn delta_truncates_towards_zero() {
    // 1.5 seconds forward truncates to 1
    let a = ts(0, 500_000_000, 1, 1, 0, 0);
    let b = ts(2, 0, 1, 1, 0, 0);
    assert_eq!(calculate_time_delta(&a, &b), 1);
    // 1.5 seconds backward truncates to -1
    assert_eq!(calculate_time_delta(&b, &a), -1);
}

#[test]
fn delta_negative() {
    let a = ts(100, 0, 1, 1, 0, 1);
    let b = ts(40, 0, 1, 1, 0, 0);
    assert_eq!(calculate_time_delta(&a, &b), -60);
}

#[test]
fn start_time_fixed_pattern() {
    let t = ts(1_000_000, 0, 9, 5, 14, 3);
    assert_eq!(start_time_string(&t), "Sep  5 14:03");
}

#[test]
fn start_time_two_digit_day() {
    let t = ts(1_000_000, 0, 12, 31, 23, 59);
    assert_eq!(start_time_string(&t), "Dec 31 23:59");
}

#[test]
fn clock_text() {
    let t = ts(0, 0, 1, 1, 7, 9);
    assert_eq!(clock_string(&t), "07:09");
}
