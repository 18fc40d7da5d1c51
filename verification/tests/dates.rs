use memx::dates::format_timestamp;

#[test]
fn timestamps_show_as_utc_dates() {
    assert_eq!(format_timestamp(1431648000), "2015-05-15");
    assert_eq!(format_timestamp(0), "1970-01-01");
    assert_eq!(format_timestamp(-86400), "1969-12-31");
}

#[test]
fn timestamps_out_of_range_show_as_numbers() {
    assert_eq!(format_timestamp(i64::MAX), "9223372036854775807");
    assert_eq!(format_timestamp(i64::MIN), "-9223372036854775808");
}
