use tidb_lake::system_tables::coprocessor::codec::{
    decode_bytes, decode_compact_bytes, decode_decimal, decode_duration, decode_float, decode_int,
    decode_json, decode_time_value, decode_uint, decode_uvarint, decode_value_from_bytes,
    decode_value_from_bytes_with_type, decode_varint, decode_varint_length, decode_vector_float32,
    unzigzag,
};
use tidb_lake::system_tables::coprocessor::packed_time::{
    decode_packed_time_to_microseconds, decode_packed_time_to_string, parse_fields, valid,
};
use tidb_lake::system_tables::data_collector::CollectionError;
use tidb_lake::value::{Number, Value};

fn parse_error(message: &str) -> CollectionError {
    CollectionError::ParseError(message.to_string())
}

fn packed(year: u64, month: u64, day: u64, hour: u64, minute: u64, second: u64) -> u64 {
    let date = ((year * 13 + month) << 5) | day;
    let time = (hour << 12) | (minute << 6) | second;
    ((date << 17) | time) << 24
}

fn groups(mut n: u64) -> Vec<u8> {
    let mut out = Vec::new();
    while n >= 128 {
        out.push((n % 128 + 128) as u8);
        n /= 128;
    }
    out.push(n as u8);
    out
}

#[test]
fn uvarint_reads_groups_of_seven_bits() {
    assert_eq!(decode_uvarint(&[0x00], 0), Ok((0, 1)));
    assert_eq!(decode_uvarint(&[0x7F, 0xFF], 0), Ok((127, 1)));
    assert_eq!(decode_uvarint(&[0xAC, 0x02], 0), Ok((300, 2)));
    assert_eq!(decode_uvarint(&[0xFF, 0xAC, 0x02, 0x09], 1), Ok((300, 3)));
    for n in [0, 1, 127, 128, 300, 1 << 35, u64::MAX - 1, u64::MAX] {
        let bytes = groups(n);
        assert_eq!(decode_uvarint(&bytes, 0), Ok((n, bytes.len())));
    }
}

#[test]
fn uvarint_ends_with_its_data() {
    assert_eq!(decode_uvarint(&[], 0), Ok((0, 0)));
    assert_eq!(decode_uvarint(&[1, 2], 7), Ok((0, 7)));
    assert_eq!(decode_uvarint(&[0x85, 0x81], 0), Ok((5 + 128, 2)));
    let nine = [0xFF; 9];
    assert_eq!(decode_uvarint(&nine, 0), Ok(((1 << 63) - 1, 9)));
}

#[test]
fn uvarint_of_too_many_bytes_is_an_error() {
    let ten = [0x80; 10];
    assert_eq!(decode_uvarint(&ten, 0), Err(parse_error("Uvarint too long")));
    assert_eq!(decode_varint(&ten, 0), Err(parse_error("Uvarint too long")));
    assert_eq!(decode_varint_length(&ten, 0), Err(parse_error("Varint too long")));
    let mut tenth = vec![0x80u8; 9];
    tenth.push(0x7F);
    assert_eq!(decode_uvarint(&tenth, 0), Ok((1 << 63, 10)));
}

#[test]
fn varint_is_zigzag() {
    assert_eq!(unzigzag(0), 0);
    assert_eq!(unzigzag(1), -1);
    assert_eq!(unzigzag(2), 1);
    assert_eq!(unzigzag(3), -2);
    assert_eq!(unzigzag(u64::MAX), i64::MIN);
    assert_eq!(unzigzag(u64::MAX - 1), i64::MAX);
    assert_eq!(decode_varint(&[0x03], 0), Ok((-2, 1)));
    for n in [0i64, 1, -1, 63, -64, 64, i64::MAX, i64::MIN] {
        let word = if n >= 0 { 2 * (n as u64) } else { 2 * (!n as u64) + 1 };
        let bytes = groups(word);
        assert_eq!(decode_varint(&bytes, 0), Ok((n, bytes.len())));
    }
}

#[test]
fn words_are_read_lowest_byte_first() {
    let bytes = (-2i64).to_le_bytes();
    assert_eq!(decode_int(&bytes, 0), Ok((-2, 8)));
    assert_eq!(decode_uint(&bytes, 0), Ok((u64::MAX - 1, 8)));
    let mut shifted = vec![9u8];
    shifted.extend_from_slice(&1_000_000_007i64.to_le_bytes());
    assert_eq!(decode_int(&shifted, 1), Ok((1_000_000_007, 9)));
    assert_eq!(
        decode_time_value(&shifted, 1),
        Ok(("timestamp_1000000007".to_string(), 9))
    );
}

#[test]
fn words_that_are_cut_off_are_errors() {
    let seven = [1u8; 7];
    assert_eq!(
        decode_int(&seven, 0),
        Err(parse_error("Cannot decode int: insufficient data"))
    );
    assert_eq!(
        decode_uint(&seven, 0),
        Err(parse_error("Cannot decode uint: insufficient data"))
    );
    assert_eq!(
        decode_float(&seven, 0),
        Err(parse_error("Cannot decode float: insufficient data"))
    );
    assert_eq!(
        decode_time_value(&seven, 0),
        Err(parse_error("Cannot decode time: insufficient data"))
    );
    let eight = [1u8; 8];
    assert_eq!(
        decode_int(&eight, usize::MAX),
        Err(parse_error("Cannot decode int: insufficient data"))
    );
}

#[test]
fn floats_keep_their_order() {
    let mut last: Option<[u8; 8]> = None;
    for f in [f64::NEG_INFINITY, -2.5, -1.0e-320, 0.0, 6.3e-322, 1.0, 1.5e300, f64::INFINITY] {
        let bits = f.to_bits();
        let word = if bits >> 63 == 0 { bits | (1 << 63) } else { !bits };
        let bytes = word.to_be_bytes();
        assert_eq!(decode_float(&bytes, 0), Ok((bits, 8)));
        if let Some(before) = last {
            assert!(before < bytes);
        }
        last = Some(bytes);
    }
}

#[test]
fn bytes_start_behind_their_length() {
    assert_eq!(decode_bytes(&[3, b'a', b'b', b'c', b'd'], 0), Ok((b"abc".to_vec(), 4)));
    assert_eq!(decode_decimal(&[2, b'1', b'2'], 0), Ok(("12".to_string(), 3)));
    assert_eq!(decode_duration(&[2, b'1', b'2'], 0), Ok(("12".to_string(), 3)));
    assert_eq!(decode_json(&[2, b'{', b'}'], 0), Ok(("{}".to_string(), 3)));
    assert_eq!(decode_vector_float32(&[1, b'v'], 0), Ok(("v".to_string(), 2)));
}

#[test]
fn bytes_read_back_wherever_they_stand() {
    assert_eq!(decode_bytes(&[0, 2, b'h', b'i'], 1), Ok((b"hi".to_vec(), 4)));
    for content in [&b""[..], b"a", b"digest", &[7u8; 200]] {
        for at in [0usize, 1, 5] {
            let mut data = vec![0xEEu8; at];
            data.extend(groups(content.len() as u64));
            data.extend_from_slice(content);
            data.push(0xBB);
            assert_eq!(decode_bytes(&data, at), Ok((content.to_vec(), data.len() - 1)));
        }
    }
}

#[test]
fn bytes_that_are_cut_off_are_errors() {
    assert_eq!(
        decode_bytes(&[], 0),
        Err(parse_error("Cannot decode bytes: insufficient data"))
    );
    assert_eq!(
        decode_bytes(&[5, b'a'], 0),
        Err(parse_error("Cannot decode bytes: need 5 bytes, have 1"))
    );
    assert_eq!(
        decode_bytes(&[0, 0, 1], 2),
        Err(parse_error("Cannot decode bytes: need 1 bytes, have 0"))
    );
    assert_eq!(
        decode_bytes(&[0, 3, b'a'], 1),
        Err(parse_error("Cannot decode bytes: need 3 bytes, have 1"))
    );
    assert_eq!(
        decode_decimal(&[5, b'a'], 0),
        Err(parse_error("Cannot decode bytes: need 5 bytes, have 1"))
    );
}

#[test]
fn compact_bytes_read_back() {
    for content in [&b""[..], b"a", b"digest", &[7u8; 100]] {
        let mut data = vec![0xAAu8];
        data.extend(groups(2 * content.len() as u64));
        data.extend_from_slice(content);
        data.push(0xBB);
        assert_eq!(
            decode_compact_bytes(&data, 1),
            Ok((content.to_vec(), data.len() - 1))
        );
    }
}

#[test]
fn compact_bytes_have_an_error_for_each_fault() {
    assert_eq!(
        decode_compact_bytes(&[], 0),
        Err(parse_error("insufficient data, cannot decode compact byte array"))
    );
    assert_eq!(
        decode_compact_bytes(&[0x80, 0x80], 0),
        Err(parse_error("cannot decode compact byte array length"))
    );
    let mut long = vec![0x80u8; 9];
    long.push(2);
    assert_eq!(
        decode_compact_bytes(&long, 0),
        Err(parse_error("varint overflows a 64-bit integer"))
    );
    assert_eq!(
        decode_compact_bytes(&[0x03, 1, 2], 0),
        Err(parse_error("negative length in compact bytes"))
    );
    assert_eq!(
        decode_compact_bytes(&[0x08, 1, 2], 0),
        Err(parse_error("insufficient data, cannot decode compact byte array data"))
    );
    for endless in [&[0x80u8; 10][..], &[0x80u8; 12], &[0xFFu8; 11]] {
        assert_eq!(
            decode_compact_bytes(endless, 0),
            Err(parse_error("varint overflows a 64-bit integer"))
        );
    }
}

#[test]
fn values_are_read_by_their_flags() {
    assert_eq!(decode_value_from_bytes(&[0x00], 0), Ok((Value::Null, 1)));
    assert_eq!(
        decode_value_from_bytes(&[0x01, 2, b'x', b'a'], 0),
        Ok((Value::Text("xa".to_string()), 4))
    );
    assert_eq!(
        decode_value_from_bytes(&[0x02, 0x04, b'o', b'k'], 0),
        Ok((Value::Text("ok".to_string()), 4))
    );
    let mut int = vec![0x03u8];
    int.extend_from_slice(&(-5i64).to_le_bytes());
    assert_eq!(
        decode_value_from_bytes(&int, 0),
        Ok((Value::Number(Number::NegInt(-5)), 9))
    );
    int[0] = 0x04;
    assert_eq!(
        decode_value_from_bytes(&int, 0),
        Ok((Value::Number(Number::PosInt(u64::MAX - 4)), 9))
    );
    let mut float = vec![0x05u8];
    float.extend_from_slice(&(1.5f64.to_bits() | (1 << 63)).to_be_bytes());
    assert_eq!(
        decode_value_from_bytes(&float, 0),
        Ok((Value::Number(Number::Float(1.5f64.to_bits())), 9))
    );
    let mut infinite = vec![0x05u8];
    infinite.extend_from_slice(&(f64::INFINITY.to_bits() | (1 << 63)).to_be_bytes());
    assert_eq!(
        decode_value_from_bytes(&infinite, 0),
        Ok((Value::Number(Number::PosInt(0)), 9))
    );
    for flag in [0x06u8, 0x07, 0x0A, 0x14] {
        assert_eq!(
            decode_value_from_bytes(&[0xEE, flag, 2, b'-', b'7'], 1),
            Ok((Value::Text("-7".to_string()), 5))
        );
    }
    assert_eq!(
        decode_value_from_bytes(&[0x08, 0x05], 0),
        Ok((Value::Number(Number::NegInt(-3)), 2))
    );
    assert_eq!(
        decode_value_from_bytes(&[0x09, 0x05], 0),
        Ok((Value::Number(Number::PosInt(5)), 2))
    );
    assert_eq!(
        decode_value_from_bytes(&[0xFA], 0),
        Ok((Value::Text("MAX_VALUE".to_string()), 1))
    );
    let mut time = vec![0x25u8];
    time.extend_from_slice(&77u64.to_le_bytes());
    assert_eq!(
        decode_value_from_bytes(&time, 0),
        Ok((Value::Text("timestamp_77".to_string()), 9))
    );
    assert_eq!(decode_value_from_bytes(&[0x31, 1], 0), Ok((Value::Null, 1)));
    assert_eq!(decode_value_from_bytes(&[0x0B, 1], 0), Ok((Value::Null, 1)));
    assert_eq!(
        decode_value_from_bytes(&[0x00], 1),
        Err(parse_error("Insufficient data"))
    );
}

#[test]
fn text_that_is_no_utf8_is_repaired() {
    assert_eq!(
        decode_value_from_bytes(&[0x02, 0x06, b'a', 0xFF, b'b'], 0),
        Ok((Value::Text("a\u{FFFD}b".to_string()), 5))
    );
    assert_eq!(
        decode_value_from_bytes(&[0x02, 0x04, 0xC3, 0xA9], 0),
        Ok((Value::Text("é".to_string()), 4))
    );
}

#[test]
fn packed_time_has_its_parts() {
    let p = parse_fields(packed(2024, 2, 29, 23, 58, 57) | 123_456);
    assert_eq!(
        (p.year, p.month, p.day, p.hour, p.minute, p.second),
        (2024, 2, 29, 23, 58, 57)
    );
    assert!(valid(&p));
    let zero = parse_fields(packed(2024, 0, 5, 0, 0, 0));
    assert_eq!((zero.year, zero.month), (2023, 12));
    assert!(!valid(&parse_fields(packed(2024, 1, 0, 0, 0, 0))));
    assert!(!valid(&parse_fields(packed(2024, 1, 1, 24, 0, 0))));
}

#[test]
fn packed_time_is_written_and_counted() {
    let leap = packed(2024, 2, 29, 23, 58, 57);
    assert_eq!(decode_packed_time_to_string(leap), "2024-02-29 23:58:57");
    assert_eq!(
        decode_packed_time_to_microseconds(leap),
        Some(1_709_251_137_000_000)
    );
    assert_eq!(
        decode_packed_time_to_microseconds(packed(1970, 1, 1, 0, 0, 0)),
        Some(0)
    );
    assert_eq!(
        decode_packed_time_to_microseconds(packed(1969, 12, 31, 23, 59, 59)),
        Some(-1_000_000)
    );
    assert_eq!(
        decode_packed_time_to_microseconds(packed(9999, 12, 31, 23, 59, 59)),
        Some(253_402_300_799_000_000)
    );
    assert_eq!(
        decode_packed_time_to_string(packed(7, 3, 4, 5, 6, 8)),
        "0007-03-04 05:06:08"
    );
}

#[test]
fn packed_time_that_is_none_is_the_zero_time() {
    assert_eq!(decode_packed_time_to_string(0), "0000-00-00 00:00:00");
    assert_eq!(decode_packed_time_to_microseconds(0), None);
    let no_hour = packed(2024, 1, 1, 31, 0, 0);
    assert_eq!(decode_packed_time_to_string(no_hour), "0000-00-00 00:00:00");
    assert_eq!(decode_packed_time_to_microseconds(no_hour), None);
    let no_day = packed(2023, 2, 30, 1, 2, 3);
    assert_eq!(decode_packed_time_to_string(no_day), "2023-02-30 01:02:03");
    assert_eq!(decode_packed_time_to_microseconds(no_day), None);
}

#[test]
fn time_columns_hold_packed_times() {
    let word = packed(2024, 2, 29, 23, 58, 57);
    let micros = Value::Number(Number::PosInt(1_709_251_137_000_000));
    let text = Value::Text("2024-02-29 23:58:57".to_string());

    let mut uvarint = vec![0x09u8];
    uvarint.extend(groups(word));
    let end = uvarint.len();
    assert_eq!(
        decode_value_from_bytes_with_type(&uvarint, 0, 7),
        Ok((micros.clone(), end))
    );
    assert_eq!(
        decode_value_from_bytes_with_type(&uvarint, 0, 12),
        Ok((text.clone(), end))
    );
    assert_eq!(
        decode_value_from_bytes_with_type(&uvarint, 0, 8),
        Ok((Value::Number(Number::PosInt(word)), end))
    );

    let mut uint = vec![0x04u8];
    uint.extend_from_slice(&word.to_be_bytes());
    assert_eq!(
        decode_value_from_bytes_with_type(&uint, 0, 7),
        Ok((micros.clone(), 9))
    );
    assert_eq!(
        decode_value_from_bytes_with_type(&uint[..8], 0, 7),
        Err(parse_error("Insufficient bytes for uintFlag time"))
    );

    for fraction in [1u64, 999_999, 1_000_000, 0xFF_FFFF] {
        let mut fractional = vec![0x09u8];
        fractional.extend(groups(word | fraction));
        let end = fractional.len();
        assert_eq!(
            decode_value_from_bytes_with_type(&fractional, 0, 7),
            Ok((micros.clone(), end))
        );
        assert_eq!(
            decode_value_from_bytes_with_type(&fractional, 0, 12),
            Ok((text.clone(), end))
        );
    }

    for inner in [&uvarint, &uint] {
        let mut compact = vec![0x02u8];
        compact.extend(groups(2 * inner.len() as u64));
        compact.extend_from_slice(inner);
        let end = compact.len();
        assert_eq!(
            decode_value_from_bytes_with_type(&compact, 0, 7),
            Ok((micros.clone(), end))
        );
        assert_eq!(
            decode_value_from_bytes_with_type(&compact, 0, 12),
            Ok((text.clone(), end))
        );
    }
}

#[test]
fn time_columns_without_a_packed_time() {
    assert_eq!(
        decode_value_from_bytes_with_type(&[0x02, 0x00], 0, 7),
        Ok((Value::Null, 2))
    );
    assert_eq!(
        decode_value_from_bytes_with_type(&[0x02, 0x04, 0x05, 1], 0, 12),
        Ok((Value::Null, 4))
    );
    assert_eq!(
        decode_value_from_bytes_with_type(&[0x02, 0x04, 0x04, 1], 0, 12),
        Ok((Value::Null, 4))
    );
    assert_eq!(
        decode_value_from_bytes_with_type(&[0x00], 0, 12),
        Ok((Value::Null, 1))
    );
    assert_eq!(
        decode_value_from_bytes_with_type(&[], 0, 12),
        Err(parse_error("Insufficient data"))
    );
    let mut endless = vec![0x02u8, 22, 0x09];
    endless.extend_from_slice(&[0x80; 10]);
    assert_eq!(
        decode_value_from_bytes_with_type(&endless, 0, 7),
        Err(parse_error("Uvarint too long"))
    );
    let invalid = packed(2023, 2, 30, 1, 2, 3);
    let mut uvarint = vec![0x09u8];
    uvarint.extend(groups(invalid));
    let end = uvarint.len();
    assert_eq!(
        decode_value_from_bytes_with_type(&uvarint, 0, 7),
        Ok((Value::Text("2023-02-30 01:02:03".to_string()), end))
    );
}
