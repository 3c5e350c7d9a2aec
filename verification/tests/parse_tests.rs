use entity_crud::parse_num::parse_i64_or_zero;

#[test]
fn plain_decimals() {
    assert_eq!(parse_i64_or_zero("0"), 0);
    assert_eq!(parse_i64_or_zero("123"), 123);
    assert_eq!(parse_i64_or_zero("007"), 7);
}

#[test]
fn signed_decimals() {
    assert_eq!(parse_i64_or_zero("-5"), -5);
    assert_eq!(parse_i64_or_zero("+7"), 7);
}

#[test]
fn empty_and_malformed_fall_back_to_zero() {
    assert_eq!(parse_i64_or_zero(""), 0);
    assert_eq!(parse_i64_or_zero("-"), 0);
    assert_eq!(parse_i64_or_zero("+"), 0);
    assert_eq!(parse_i64_or_zero("abc"), 0);
    assert_eq!(parse_i64_or_zero("12x"), 0);
    assert_eq!(parse_i64_or_zero(" 1"), 0);
    assert_eq!(parse_i64_or_zero("1.5"), 0);
}

#[test]
fn range_edges() {
    assert_eq!(parse_i64_or_zero("9223372036854775807"), i64::MAX);
    assert_eq!(parse_i64_or_zero("-9223372036854775808"), i64::MIN);
    assert_eq!(parse_i64_or_zero("9223372036854775808"), 0);
    assert_eq!(parse_i64_or_zero("-9223372036854775809"), 0);
    assert_eq!(parse_i64_or_zero("99999999999999999999999999"), 0);
}
