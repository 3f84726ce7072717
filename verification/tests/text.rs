use ara_forest::text::has_prefix;
use ara_forest::text::has_suffix;
use ara_forest::text::to_decimal;

#[test]
fn decimal_of_zero_is_a_single_digit() {
    assert_eq!(to_decimal(0), "0");
}

#[test]
fn decimal_has_no_leading_zero() {
    assert_eq!(to_decimal(7), "7");
    assert_eq!(to_decimal(10), "10");
    assert_eq!(to_decimal(1203), "1203");
    assert_eq!(to_decimal(u64::MAX), "18446744073709551615");
}

#[test]
fn suffix_is_compared_character_by_character() {
    assert!(has_suffix("main.ara", ".ara"));
    assert!(has_suffix(".ara", ".ara"));
    assert!(has_suffix("anything", ""));
    assert!(!has_suffix("ara", ".ara"));
    assert!(!has_suffix("main.arab", ".ara"));
    assert!(has_suffix("h\u{e9}llo.ara", "llo.ara"));
    assert!(!has_suffix("h\u{e9}", "h\u{e8}"));
}

#[test]
fn prefix_is_compared_character_by_character() {
    assert!(has_prefix("/project/src", "/project"));
    assert!(has_prefix("abc", ""));
    assert!(!has_prefix("/pro", "/project"));
    assert!(!has_prefix("/projekt/src", "/project"));
}
