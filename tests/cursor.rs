use rsky_feedgen::cursor::{encode_cursor, parse_cursor, parse_decimal_i64};

#[test]
fn encode_cursor_writes_millis_and_cid() {
    assert_eq!(encode_cursor(200, &"bafyrepost".to_string()), "200::bafyrepost");
    assert_eq!(encode_cursor(-42, &"c".to_string()), "-42::c");
    assert_eq!(encode_cursor(0, &"".to_string()), "0::");
}

#[test]
fn parse_cursor_reads_two_fields() {
    assert_eq!(parse_cursor("1700000000123::bafyabc"), Some(Some(1700000000123)));
    assert_eq!(parse_cursor("x::y"), Some(None));
    assert_eq!(parse_cursor("5:::x"), Some(Some(5)));
}

#[test]
fn parse_cursor_rejects_other_field_counts() {
    assert_eq!(parse_cursor("abc"), None);
    assert_eq!(parse_cursor(""), None);
    assert_eq!(parse_cursor("1::2::3"), None);
    assert_eq!(parse_cursor("::::"), None);
}

#[test]
fn cursor_round_trips() {
    let c = encode_cursor(1699999999999, &"bafy2bzace".to_string());
    assert_eq!(parse_cursor(&c), Some(Some(1699999999999)));
    let c = encode_cursor(i64::MIN, &"z".to_string());
    assert_eq!(parse_cursor(&c), Some(Some(i64::MIN)));
}

#[test]
fn decimal_parsing_edges() {
    assert_eq!(parse_decimal_i64("0"), Some(0));
    assert_eq!(parse_decimal_i64("-5"), Some(-5));
    assert_eq!(parse_decimal_i64("+7"), Some(7));
    assert_eq!(parse_decimal_i64("9223372036854775807"), Some(i64::MAX));
    assert_eq!(parse_decimal_i64("-9223372036854775808"), Some(i64::MIN));
    assert_eq!(parse_decimal_i64("9223372036854775808"), None);
    assert_eq!(parse_decimal_i64(""), None);
    assert_eq!(parse_decimal_i64("-"), None);
    assert_eq!(parse_decimal_i64("12a"), None);
    assert_eq!(parse_decimal_i64(" 1"), None);
}
