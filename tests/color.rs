use ruby_macro::color::{check_color_distance, color_check_one_by_one, RGB};

#[test]
fn new_keeps_channels() {
    let c = RGB::new(1, 2, 3);
    assert_eq!((c.r, c.g, c.b), (1, 2, 3));
}

#[test]
fn squared_distance_exact() {
    let a = RGB::new(10, 20, 30);
    let b = RGB::new(13, 16, 30);
    assert_eq!(a.squared_distance_to(&b), 25);
    assert_eq!(RGB::new(0, 0, 0).squared_distance_to(&RGB::new(255, 255, 255)), 195075);
}

#[test]
fn equal_color_matches_at_zero_tolerance() {
    let target = RGB::new(255, 0, 0);
    assert!(color_check_one_by_one(RGB::new(255, 0, 0), target, 0));
}

#[test]
fn one_channel_off_by_one_fails_at_zero_tolerance() {
    let target = RGB::new(255, 0, 0);
    assert!(!color_check_one_by_one(RGB::new(254, 0, 0), target, 0));
    assert!(!color_check_one_by_one(RGB::new(255, 1, 0), target, 0));
}

#[test]
fn one_channel_off_by_one_matches_at_tolerance_one() {
    let target = RGB::new(255, 0, 0);
    assert!(color_check_one_by_one(RGB::new(254, 0, 0), target, 1));
    assert!(color_check_one_by_one(RGB::new(255, 0, 1), target, 2));
}

#[test]
fn tolerance_bound_is_three_times() {
    let target = RGB::new(100, 100, 100);
    assert!(color_check_one_by_one(RGB::new(103, 100, 100), target, 1));
    assert!(!color_check_one_by_one(RGB::new(104, 100, 100), target, 1));
    assert!(color_check_one_by_one(RGB::new(101, 99, 101), target, 1));
    assert!(!color_check_one_by_one(RGB::new(100, 100, 100), target, -1));
}

#[test]
fn check_color_distance_reads_target() {
    assert!(check_color_distance("255,0,0", RGB::new(255, 0, 0), 0));
    assert!(check_color_distance(" 255 , 0 , 0 ", RGB::new(255, 0, 0), 0));
    assert!(!check_color_distance("255,0,1", RGB::new(255, 0, 0), 0));
    assert!(!check_color_distance("red", RGB::new(255, 0, 0), 0));
    assert!(!check_color_distance("255,0", RGB::new(255, 0, 0), 0));
}
