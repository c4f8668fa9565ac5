use ruby_macro::color::RGB;
use ruby_macro::text::{parse_coordinate, parse_offset, parse_rgb};

#[test]
fn rgb_reads_three_fields() {
    assert_eq!(parse_rgb("255,0,0"), Some(RGB::new(255, 0, 0)));
    assert_eq!(parse_rgb(" 1, 2 ,3\n"), Some(RGB::new(1, 2, 3)));
    assert_eq!(parse_rgb("+7,8,9"), Some(RGB::new(7, 8, 9)));
}

#[test]
fn rgb_extra_fields_must_read_too() {
    assert_eq!(parse_rgb("1,2,3,4"), Some(RGB::new(1, 2, 3)));
    assert_eq!(parse_rgb("1,2,3,x"), None);
}

#[test]
fn rgb_rejects_bad_input() {
    assert_eq!(parse_rgb("256,0,0"), None);
    assert_eq!(parse_rgb("-1,0,0"), None);
    assert_eq!(parse_rgb("1,2"), None);
    assert_eq!(parse_rgb(""), None);
    assert_eq!(parse_rgb("1,,3"), None);
    assert_eq!(parse_rgb("1 2,3,4"), None);
}

#[test]
fn coordinate_reads_signed_pairs() {
    assert_eq!(parse_coordinate("10,10"), Some((10, 10)));
    assert_eq!(parse_coordinate(" -5 , 7 "), Some((-5, 7)));
    assert_eq!(parse_coordinate("-2147483648,2147483647"), Some((i32::MIN, i32::MAX)));
}

#[test]
fn coordinate_rejects_bad_input() {
    assert_eq!(parse_coordinate("2147483648,0"), None);
    assert_eq!(parse_coordinate("10"), None);
    assert_eq!(parse_coordinate("-,3"), None);
    assert_eq!(parse_coordinate("a,b"), None);
}

#[test]
fn offset_reads_plain_numbers() {
    assert_eq!(parse_offset("0"), Some(0));
    assert_eq!(parse_offset("1234"), Some(1234));
    assert_eq!(parse_offset("+12"), Some(12));
    assert_eq!(parse_offset("007"), Some(7));
}

#[test]
fn offset_rejects_non_numbers() {
    assert_eq!(parse_offset("abc"), None);
    assert_eq!(parse_offset(""), None);
    assert_eq!(parse_offset(" 12"), None);
    assert_eq!(parse_offset("-1"), None);
    assert_eq!(parse_offset("0x10"), None);
    assert_eq!(parse_offset("99999999999999999999999"), None);
}

#[test]
fn fields_range_checked_each() {
    assert_eq!(parse_coordinate("3, -4,5"), Some((3, -4)));
    assert_eq!(parse_coordinate("3,-4,99999999999"), None);
    assert_eq!(parse_rgb("3,4,5,300"), None);
}
