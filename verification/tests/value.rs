use libsql_shell::value::{format_integer, format_value, Value};

#[test]
fn null_is_shown_as_null() {
    assert_eq!(format_value(&Value::Null), "null");
}

#[test]
fn integer_is_shown_in_decimal() {
    assert_eq!(format_value(&Value::Integer(0)), "0");
    assert_eq!(format_value(&Value::Integer(42)), "42");
    assert_eq!(format_value(&Value::Integer(-7)), "-7");
}

#[test]
fn integer_text_is_that_of_std() {
    let cases = [
        0, 1, -1, 9, 10, -10, 99, 100, 101, 12345, -98765, 1_000_000_007,
        i64::MAX, i64::MIN, i64::MAX - 1, i64::MIN + 1,
    ];
    for case in cases {
        assert_eq!(format_integer(case), case.to_string());
    }
    assert_eq!(format_integer(i64::MIN), "-9223372036854775808");
    assert_eq!(format_integer(i64::MAX), "9223372036854775807");
}

#[test]
fn real_and_text_are_shown_as_they_are() {
    assert_eq!(format_value(&Value::Real("1.5".to_owned())), "1.5");
    assert_eq!(format_value(&Value::Text("héllo; 'x'".to_owned())), "héllo; 'x'");
    assert_eq!(format_value(&Value::Text(String::new())), "");
}

#[test]
fn blob_is_shown_as_unpadded_base64_behind_a_prefix() {
    assert_eq!(format_value(&Value::Blob(vec![])), "0x");
    assert_eq!(format_value(&Value::Blob(vec![1, 2, 3])), "0xAQID");
    assert_eq!(format_value(&Value::Blob(b"hello".to_vec())), "0xaGVsbG8");
    assert_eq!(format_value(&Value::Blob(vec![0xff])), "0x/w");
    assert_eq!(format_value(&Value::Blob(vec![0xfb, 0xef])), "0x++8");
}
