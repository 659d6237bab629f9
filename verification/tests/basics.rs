use tidb_lake::bytes::{
    be_word, read_be, read_le, read_length_prefix, read_uvarint, slice_of, to_lossy_text,
    to_signed, LengthPrefix,
};
use tidb_lake::string_map::{copy_texts, StringMap};
use tidb_lake::text::{
    append_padded, chars_of, contains, decimal_text, is_before, join, parse_integer, same,
    signed_text, skip_chars, starts_with, take_chars, to_lowercase, trim_quotes,
};
use tidb_lake::value::{Number, Value};

#[test]
fn texts_are_compared_by_characters() {
    assert_eq!(chars_of("aß"), vec!['a', 'ß']);
    assert!(same("", ""));
    assert!(same("über", "über"));
    assert!(!same("a", "ab"));
    assert!(!same("a", "A"));
    assert!(starts_with("s3://bucket", "s3://"));
    assert!(starts_with("x", ""));
    assert!(!starts_with("s3", "s3://"));
    assert!(contains("No log segment", "log"));
    assert!(contains("", ""));
    assert!(!contains("lo", "log"));
}

#[test]
fn numbers_are_written_and_read_back() {
    assert_eq!(decimal_text(0), "0");
    assert_eq!(decimal_text(u64::MAX), "18446744073709551615");
    assert_eq!(signed_text(-7), "-7");
    assert_eq!(signed_text(i64::MIN), "-9223372036854775808");
    for n in [0i64, 9, 10, -1, i64::MAX, i64::MIN] {
        let read = parse_integer(&signed_text(n), true, i64::MIN as i128, i64::MAX as i128);
        assert_eq!(read, Some(n as i128));
    }
    let mut out = "at ".to_string();
    append_padded(&mut out, 7, 2);
    append_padded(&mut out, 1234, 2);
    assert_eq!(out, "at 071234");
}

#[test]
fn integers_are_read_within_their_limits() {
    assert_eq!(parse_integer("+5", false, 0, 255), Some(5));
    assert_eq!(parse_integer("007", false, 0, 255), Some(7));
    assert_eq!(parse_integer("256", false, 0, 255), None);
    assert_eq!(parse_integer("-5", false, 0, 255), None);
    assert_eq!(parse_integer("-128", true, -128, 127), Some(-128));
    assert_eq!(parse_integer("-129", true, -128, 127), None);
    for text in ["", "+", "-", " 1", "1 ", "1.5", "0x1", "++1"] {
        assert_eq!(parse_integer(text, true, -128, 127), None);
    }
}

#[test]
fn texts_are_cut_and_joined() {
    assert_eq!(take_chars("äbc", 2), "äb");
    assert_eq!(skip_chars("äbc", 1), "bc");
    assert_eq!(skip_chars("abc", 3), "");
    assert_eq!(trim_quotes("\"\"a\"b\""), "a\"b");
    assert_eq!(trim_quotes("\"\""), "");
    assert_eq!(trim_quotes("'a'"), "'a'");
    let parts = vec!["a".to_string(), "".to_string(), "b".to_string()];
    assert_eq!(join(&parts, ", "), "a, , b");
    assert_eq!(join(&vec![], ", "), "");
}

#[test]
fn texts_have_a_lower_case() {
    assert_eq!(to_lowercase("Http_API"), "http_api");
    assert_eq!(to_lowercase("ÄΣ"), "ÄΣ".to_lowercase());
    assert_eq!(to_lowercase("ODOS\u{3A3}"), "odos\u{3C2}");
}

#[test]
fn texts_have_an_order() {
    assert!(is_before("a", "b"));
    assert!(is_before("a", "aa"));
    assert!(is_before("", "a"));
    assert!(!is_before("a", "a"));
    assert!(is_before("Z", "a"));
    assert!(is_before("z", "ä"));
}

#[test]
fn maps_hold_one_value_for_each_key() {
    let mut map = StringMap::new();
    assert_eq!(map.len(), 0);
    map.insert("b".to_string(), 1);
    map.insert("a".to_string(), 2);
    map.insert("b".to_string(), 3);
    assert_eq!(map.len(), 2);
    assert_eq!(map.get("b"), Some(&3));
    assert_eq!(map.get("c"), None);
    assert!(map.contains_key("a"));
    assert_eq!(map.key_at(0), "b");
    assert_eq!(map.value_at(1), &2);
    assert_eq!(map.remove("c"), None);
    assert_eq!(map.remove("b"), Some(3));
    assert!(!map.contains_key("b"));
    assert_eq!(map.into_entries(), vec![("a".to_string(), 2)]);
}

#[test]
fn maps_of_texts_are_copied_in_order() {
    let mut map = StringMap::new();
    map.insert("z".to_string(), "1".to_string());
    map.insert("a".to_string(), "2".to_string());
    let copy = copy_texts(&map);
    assert_eq!(copy.into_entries(), map.into_entries());
}

#[test]
fn numbers_keep_their_kind() {
    assert_eq!(Number::from_i64(-1), Number::NegInt(-1));
    assert_eq!(Number::from_i64(0), Number::PosInt(0));
    assert_eq!(Number::from_bits(1.5f64.to_bits()), Number::Float(1.5f64.to_bits()));
    assert_eq!(Number::from_bits(f64::NAN.to_bits()), Number::PosInt(0));
    assert_eq!(Number::from_bits(f64::NEG_INFINITY.to_bits()), Number::PosInt(0));
    assert_eq!(Number::from_bits(f64::MAX.to_bits()), Number::Float(f64::MAX.to_bits()));
    assert_eq!(Number::PosInt(u64::MAX).as_i64(), None);
    assert_eq!(Number::NegInt(-3).as_i64(), Some(-3));
    assert_eq!(Number::Float(0).as_i64(), None);
}

#[test]
fn objects_have_fields() {
    let object = Value::Object(vec![("n".to_string(), Value::Number(Number::PosInt(4)))]);
    assert_eq!(object.field("n").and_then(|v| v.as_i64()), Some(4));
    assert_eq!(object.field("m"), None);
    assert_eq!(Value::Null.field("n"), None);
    assert_eq!(Value::Text("4".to_string()).as_i64(), None);
}

#[test]
fn words_have_bytes() {
    let word = 0x0102_0304_0506_0708u64;
    assert_eq!(be_word(word), vec![1, 2, 3, 4, 5, 6, 7, 8]);
    let bytes = [9, 1, 2, 3, 4, 5, 6, 7, 8];
    assert_eq!(read_be(&bytes, 1), word);
    assert_eq!(read_le(&bytes, 1), word.swap_bytes());
    assert_eq!(to_signed(u64::MAX), -1);
    assert_eq!(to_signed(5), 5);
    assert_eq!(slice_of(&bytes, 2, 4), vec![2, 3]);
}

#[test]
fn groups_of_seven_bits_end_or_are_too_long() {
    assert_eq!(read_uvarint(&[0xAC, 0x02], 0), Some((300, 2)));
    assert_eq!(read_uvarint(&[], 0), Some((0, 0)));
    assert_eq!(read_uvarint(&[0x80; 10], 0), None);
    assert!(matches!(read_length_prefix(&[0xAC, 0x02], 0), LengthPrefix::Word(300, 2)));
    assert!(matches!(read_length_prefix(&[0xAC], 0), LengthPrefix::CutOff));
    let mut long = vec![0x80u8; 9];
    long.push(2);
    assert!(matches!(read_length_prefix(&long, 0), LengthPrefix::TooLong));
    assert!(matches!(read_length_prefix(&[0x80; 10], 0), LengthPrefix::TooLong));
}

#[test]
fn bytes_that_are_no_text_are_replaced() {
    assert_eq!(to_lossy_text("grün".as_bytes()), "grün");
    assert_eq!(to_lossy_text(&[b'a', 0xFF, b'b']), "a\u{FFFD}b");
}
