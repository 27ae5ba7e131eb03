use statuspage::text::{format_hundredths, format_tenths_percent, u32_dec, u32_pad2, u32_pad4};
use statuspage::timefmt::format_timestamp;
use statuspage::Timestamp;

#[test]
fn hundredths_render_with_two_decimals() {
    assert_eq!(format_hundredths(10000), "100.00");
    assert_eq!(format_hundredths(7500), "75.00");
    assert_eq!(format_hundredths(0), "0.00");
    assert_eq!(format_hundredths(3), "0.03");
    assert_eq!(format_hundredths(6667), "66.67");
}

#[test]
fn tenths_render_with_one_decimal_and_percent() {
    assert_eq!(format_tenths_percent(1000), "100.0%");
    assert_eq!(format_tenths_percent(400), "40.0%");
    assert_eq!(format_tenths_percent(0), "0.0%");
    assert_eq!(format_tenths_percent(5), "0.5%");
}

#[test]
fn plain_decimal_digits() {
    assert_eq!(u32_dec(0), "0");
    assert_eq!(u32_dec(7), "7");
    assert_eq!(u32_dec(40960), "40960");
    assert_eq!(u32_dec(u32::MAX), "4294967295");
}

#[test]
fn padded_decimal_digits() {
    assert_eq!(u32_pad2(0), "00");
    assert_eq!(u32_pad2(9), "09");
    assert_eq!(u32_pad2(42), "42");
    assert_eq!(u32_pad4(0), "0000");
    assert_eq!(u32_pad4(37), "0037");
    assert_eq!(u32_pad4(2024), "2024");
}

#[test]
fn timestamps_render_in_the_fixed_utc_format() {
    let t = Timestamp { year: 2024, month: 1, day: 2, hour: 3, minute: 4, second: 5 };
    assert_eq!(format_timestamp(&t), "2024-01-02 03:04:05 UTC");
    let t = Timestamp { year: 999, month: 12, day: 31, hour: 23, minute: 59, second: 59 };
    assert_eq!(format_timestamp(&t), "0999-12-31 23:59:59 UTC");
}

#[test]
fn monitoring_error_wraps_its_message() {
    let e = statuspage::MonitoringError::from("connection refused".to_string());
    assert_eq!(e.0, "connection refused");
}
