use dday_todo::text::current_clock_time;
use dday_todo::text::decimal_string;
use dday_todo::text::two_digit_string;
use dday_todo::text::unsigned_string;

#[test]
fn clock_time_is_zero_padded() {
    assert_eq!(current_clock_time(9, 0), "09:00");
    assert_eq!(current_clock_time(0, 0), "00:00");
    assert_eq!(current_clock_time(9, 1), "09:01");
    assert_eq!(current_clock_time(23, 59), "23:59");
    assert_eq!(current_clock_time(12, 5), "12:05");
}

#[test]
fn clock_time_agrees_with_std_formatting() {
    for hour in 0..24u32 {
        for minute in 0..60u32 {
            assert_eq!(current_clock_time(hour, minute), format!("{:02}:{:02}", hour, minute));
        }
    }
}

#[test]
fn two_digit_string_pads_only_single_digits() {
    assert_eq!(two_digit_string(0), "00");
    assert_eq!(two_digit_string(7), "07");
    assert_eq!(two_digit_string(10), "10");
    assert_eq!(two_digit_string(99), "99");
    assert_eq!(two_digit_string(123), "123");
    assert_eq!(two_digit_string(u32::MAX), "4294967295");
}

#[test]
fn unsigned_string_writes_decimal() {
    assert_eq!(unsigned_string(0), "0");
    assert_eq!(unsigned_string(9), "9");
    assert_eq!(unsigned_string(10), "10");
    assert_eq!(unsigned_string(1234567890), "1234567890");
    assert_eq!(unsigned_string(u64::MAX), "18446744073709551615");
}

#[test]
fn decimal_string_writes_the_sign() {
    assert_eq!(decimal_string(0), "0");
    assert_eq!(decimal_string(3), "3");
    assert_eq!(decimal_string(-5), "-5");
    assert_eq!(decimal_string(1000), "1000");
    assert_eq!(decimal_string(-1000), "-1000");
    assert_eq!(decimal_string(i64::MAX), "9223372036854775807");
    assert_eq!(decimal_string(i64::MIN), "-9223372036854775808");
}

#[test]
fn decimal_string_agrees_with_std_formatting() {
    for n in -1100i64..1100 {
        assert_eq!(decimal_string(n), format!("{}", n));
    }
}
