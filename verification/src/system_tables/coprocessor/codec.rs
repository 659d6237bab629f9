//! The encoding of column values in the rows that the coprocessor sends.
//!
//! Each value starts with a flag byte that says how the bytes after it are to be
//! read. A value is specified by what stands in the data at a position, and by
//! the position behind it.
use vstd::prelude::*;
use vstd::string::*;
use crate::bytes::{
    as_signed, be_value, le_value, length_prefix, lossy_text, read_be, read_le, read_length_prefix,
    read_uvarint, slice_of, to_lossy_text, to_signed, uvarint, LengthPrefix,
};
use crate::system_tables::coprocessor::packed_time::{
    decode_packed_time_to_microseconds, decode_packed_time_to_string, packed_micros, packed_text,
};
use crate::system_tables::data_collector::{parse_error, CollectionError, CollectionErrorView};
use crate::text::{append_decimal, decimal};
use crate::value::{Number, Value, ValueView};

verus! {

pub const FLAG_NIL: u8 = 0x00;

pub const FLAG_BYTES: u8 = 0x01;

pub const FLAG_COMPACT_BYTES: u8 = 0x02;

pub const FLAG_INT: u8 = 0x03;

pub const FLAG_UINT: u8 = 0x04;

pub const FLAG_FLOAT: u8 = 0x05;

pub const FLAG_DECIMAL: u8 = 0x06;

pub const FLAG_DURATION: u8 = 0x07;

pub const FLAG_VARINT: u8 = 0x08;

pub const FLAG_UVARINT: u8 = 0x09;

pub const FLAG_JSON: u8 = 0x0A;

pub const FLAG_VECTOR_FLOAT32: u8 = 0x14;

pub const FLAG_TIME_FIRST: u8 = 0x20;

pub const FLAG_TIME_LAST: u8 = 0x30;

pub const FLAG_MAX: u8 = 0xFA;

/// The type of a point in time with a time zone.
pub const TYPE_TIMESTAMP: i32 = 7;

/// The type of a point in time without a time zone.
pub const TYPE_DATETIME: i32 = 12;

/// What a decoder returned: a value and the position behind it, or an error.
pub open spec fn outcome<T: View>(r: Result<(T, usize), CollectionError>) -> Result<
    (T::V, int),
    CollectionErrorView,
> {
    match r {
        Ok((v, end)) => Ok((v@, end as int)),
        Err(e) => Err(e@),
    }
}

/// Whether a decoder that started at `at` stayed within `size` bytes of data.
pub open spec fn within<T>(r: Result<(T, usize), CollectionError>, at: int, size: nat) -> bool {
    r matches Ok((_, end)) ==> at <= end && (at <= size ==> end <= size)
}

/// The error for data that cannot be read.
pub open spec fn unreadable(message: Seq<char>) -> CollectionErrorView {
    CollectionErrorView::ParseError(message)
}

/// The unsigned number in groups of seven bits at `at`; zero behind the end of
/// the data.
pub open spec fn uvarint_at(data: Seq<u8>, at: int) -> Result<(u64, int), CollectionErrorView> {
    if at >= data.len() {
        Ok((0, at))
    } else {
        match uvarint(data, at) {
            Some(found) => Ok(found),
            None => Err(unreadable("Uvarint too long"@)),
        }
    }
}

/// The signed number whose zigzag encoding is `word`: the even words stand for
/// 0, 1, 2 and so on, the odd ones for -1, -2 and so on.
pub open spec fn zigzag(word: u64) -> i64 {
    if word % 2 == 0 {
        (word / 2) as i64
    } else {
        (-(word / 2) - 1) as i64
    }
}

/// The signed number in groups of seven bits at `at`.
pub open spec fn varint_at(data: Seq<u8>, at: int) -> Result<(i64, int), CollectionErrorView> {
    match uvarint_at(data, at) {
        Ok((word, end)) => Ok((zigzag(word), end)),
        Err(e) => Err(e),
    }
}

/// The eight bytes at `at`.
pub open spec fn word_bytes(data: Seq<u8>, at: int) -> Seq<u8> {
    data.subrange(at, at + 8)
}

/// The signed number of eight bytes at `at`.
pub open spec fn int_at(data: Seq<u8>, at: int) -> Result<(i64, int), CollectionErrorView> {
    if at + 8 > data.len() {
        Err(unreadable("Cannot decode int: insufficient data"@))
    } else {
        Ok((as_signed(le_value(word_bytes(data, at))) as i64, at + 8))
    }
}

/// The unsigned number of eight bytes at `at`.
pub open spec fn uint_at(data: Seq<u8>, at: int) -> Result<(u64, int), CollectionErrorView> {
    if at + 8 > data.len() {
        Err(unreadable("Cannot decode uint: insufficient data"@))
    } else {
        Ok((le_value(word_bytes(data, at)) as u64, at + 8))
    }
}

/// The bits of the double that `word` stands for in the encoding that keeps the
/// order of doubles: a double that is not negative is stored with its sign bit
/// set, a negative one with every bit inverted.
pub open spec fn ordered_bits(word: u64) -> u64 {
    if word >= 0x8000_0000_0000_0000 {
        (word - 0x8000_0000_0000_0000) as u64
    } else {
        (u64::MAX - word) as u64
    }
}

/// The bits of the double at `at`.
pub open spec fn float_at(data: Seq<u8>, at: int) -> Result<(u64, int), CollectionErrorView> {
    if at + 8 > data.len() {
        Err(unreadable("Cannot decode float: insufficient data"@))
    } else {
        Ok((ordered_bits(be_value(word_bytes(data, at)) as u64), at + 8))
    }
}

/// The text for the time of eight bytes at `at`.
pub open spec fn time_at(data: Seq<u8>, at: int) -> Result<(Seq<char>, int), CollectionErrorView> {
    if at + 8 > data.len() {
        Err(unreadable("Cannot decode time: insufficient data"@))
    } else {
        Ok(("timestamp_"@ + decimal(le_value(word_bytes(data, at))), at + 8))
    }
}

/// The length of a byte array at `at`, in groups of seven bits, and the position
/// behind it.
pub open spec fn varint_length_at(data: Seq<u8>, at: int) -> Result<
    (u64, int),
    CollectionErrorView,
> {
    if at >= data.len() {
        Ok((0, at))
    } else {
        match uvarint(data, at) {
            Some(found) => Ok(found),
            None => Err(unreadable("Varint too long"@)),
        }
    }
}

/// The byte array at `at`: its length in groups of seven bits, and then its
/// content.
pub open spec fn bytes_at(data: Seq<u8>, at: int) -> Result<(Seq<u8>, int), CollectionErrorView> {
    if at >= data.len() {
        Err(unreadable("Cannot decode bytes: insufficient data"@))
    } else {
        match varint_length_at(data, at) {
            Err(e) => Err(e),
            Ok((length, start)) => {
                if start + length > data.len() {
                    Err(
                        unreadable(
                            "Cannot decode bytes: need "@ + decimal(length as nat)
                                + " bytes, have "@ + decimal((data.len() - start) as nat),
                        ),
                    )
                } else {
                    Ok((data.subrange(start, start + length), start + length))
                }
            },
        }
    }
}

/// The text of the byte array at `at`.
pub open spec fn text_at(data: Seq<u8>, at: int) -> Result<(Seq<char>, int), CollectionErrorView> {
    match bytes_at(data, at) {
        Ok((bytes, end)) => Ok((lossy_text(bytes), end)),
        Err(e) => Err(e),
    }
}

/// The compact byte array at `at`: its length as a signed number in groups of
/// seven bits, and then its content.
pub open spec fn compact_bytes_at(data: Seq<u8>, at: int) -> Result<
    (Seq<u8>, int),
    CollectionErrorView,
> {
    if at >= data.len() {
        Err(unreadable("insufficient data, cannot decode compact byte array"@))
    } else {
        match length_prefix(data, at) {
            LengthPrefix::CutOff => Err(unreadable("cannot decode compact byte array length"@)),
            LengthPrefix::TooLong => Err(unreadable("varint overflows a 64-bit integer"@)),
            LengthPrefix::Word(word, taken) => {
                let length = zigzag(word);
                let start = at + taken;
                if length < 0 {
                    Err(unreadable("negative length in compact bytes"@))
                } else if start + length > data.len() {
                    Err(unreadable("insufficient data, cannot decode compact byte array data"@))
                } else {
                    Ok((data.subrange(start, start + length), start + length))
                }
            },
        }
    }
}

/// The unsigned number in groups of seven bits at `offset`.
pub fn decode_uvarint(data: &[u8], offset: usize) -> (r: Result<(u64, usize), CollectionError>)
    ensures
        outcome(r) == uvarint_at(data@, offset as int),
        within(r, offset as int, data@.len()),
{
    if offset >= data.len() {
        return Ok((0, offset));
    }
    match read_uvarint(data, offset) {
        Some((n, end)) => Ok((n, end)),
        None => Err(parse_error("Uvarint too long")),
    }
}

/// The signed number whose zigzag encoding is `word`.
pub fn unzigzag(word: u64) -> (r: i64)
    ensures
        r == zigzag(word),
{
    if word % 2 == 0 {
        (word / 2) as i64
    } else {
        -((word / 2) as i64) - 1
    }
}

/// The signed number in groups of seven bits at `offset`.
pub fn decode_varint(data: &[u8], offset: usize) -> (r: Result<(i64, usize), CollectionError>)
    ensures
        outcome(r) == varint_at(data@, offset as int),
        within(r, offset as int, data@.len()),
{
    match decode_uvarint(data, offset) {
        Ok((word, end)) => Ok((unzigzag(word), end)),
        Err(e) => Err(e),
    }
}

fn lacks_word(data: &[u8], offset: usize) -> (r: bool)
    ensures
        r == (offset + 8 > data@.len()),
        !r ==> offset + 8 <= usize::MAX,
{
    data.len() < 8 || offset > data.len() - 8
}

/// The signed number of eight bytes at `offset`, lowest byte first.
pub fn decode_int(data: &[u8], offset: usize) -> (r: Result<(i64, usize), CollectionError>)
    ensures
        outcome(r) == int_at(data@, offset as int),
        within(r, offset as int, data@.len()),
{
    if lacks_word(data, offset) {
        return Err(parse_error("Cannot decode int: insufficient data"));
    }
    Ok((to_signed(read_le(data, offset)), offset + 8))
}

/// The unsigned number of eight bytes at `offset`, lowest byte first.
pub fn decode_uint(data: &[u8], offset: usize) -> (r: Result<(u64, usize), CollectionError>)
    ensures
        outcome(r) == uint_at(data@, offset as int),
        within(r, offset as int, data@.len()),
{
    if lacks_word(data, offset) {
        return Err(parse_error("Cannot decode uint: insufficient data"));
    }
    Ok((read_le(data, offset), offset + 8))
}

/// The bits of the double at `offset`, in the encoding that keeps the order of
/// doubles, highest byte first.
pub fn decode_float(data: &[u8], offset: usize) -> (r: Result<(u64, usize), CollectionError>)
    ensures
        outcome(r) == float_at(data@, offset as int),
        within(r, offset as int, data@.len()),
{
    if lacks_word(data, offset) {
        return Err(parse_error("Cannot decode float: insufficient data"));
    }
    let word = read_be(data, offset);
    let bits: u64 = if word >= 0x8000_0000_0000_0000 {
        word - 0x8000_0000_0000_0000
    } else {
        u64::MAX - word
    };
    Ok((bits, offset + 8))
}

/// The text for the time of eight bytes at `offset`, lowest byte first.
pub fn decode_time_value(data: &[u8], offset: usize) -> (r: Result<(String, usize), CollectionError>)
    ensures
        outcome(r) == time_at(data@, offset as int),
        within(r, offset as int, data@.len()),
{
    if lacks_word(data, offset) {
        return Err(parse_error("Cannot decode time: insufficient data"));
    }
    let mut text = "timestamp_".to_string();
    append_decimal(&mut text, read_le(data, offset));
    Ok((text, offset + 8))
}

/// The length of a byte array at `offset`, and the position behind it.
pub fn decode_varint_length(data: &[u8], offset: usize) -> (r: Result<
    (u64, usize),
    CollectionError,
>)
    ensures
        outcome(r) == varint_length_at(data@, offset as int),
        within(r, offset as int, data@.len()),
{
    if offset >= data.len() {
        return Ok((0, offset));
    }
    match read_uvarint(data, offset) {
        Some((n, end)) => Ok((n, end)),
        None => Err(parse_error("Varint too long")),
    }
}

fn too_few_bytes(needed: u64, room: usize) -> (r: CollectionError)
    ensures
        r@ == unreadable(
            "Cannot decode bytes: need "@ + decimal(needed as nat) + " bytes, have "@ + decimal(
                room as nat,
            ),
        ),
{
    let mut message = "Cannot decode bytes: need ".to_string();
    append_decimal(&mut message, needed);
    message.append(" bytes, have ");
    append_decimal(&mut message, room as u64);
    CollectionError::ParseError(message)
}

/// The byte array at `offset`: its length, and then its content.
pub fn decode_bytes(data: &[u8], offset: usize) -> (r: Result<(Vec<u8>, usize), CollectionError>)
    ensures
        outcome(r) == bytes_at(data@, offset as int),
        within(r, offset as int, data@.len()),
{
    if offset >= data.len() {
        return Err(parse_error("Cannot decode bytes: insufficient data"));
    }
    match decode_varint_length(data, offset) {
        Err(e) => Err(e),
        Ok((length, start)) => {
            let room: usize = data.len() - start;
            if length > room as u64 {
                return Err(too_few_bytes(length, room));
            }
            let end: usize = start + length as usize;
            Ok((slice_of(data, start, end), end))
        },
    }
}

fn decode_text(data: &[u8], offset: usize) -> (r: Result<(String, usize), CollectionError>)
    ensures
        outcome(r) == text_at(data@, offset as int),
        within(r, offset as int, data@.len()),
{
    match decode_bytes(data, offset) {
        Ok((bytes, end)) => Ok((to_lossy_text(bytes.as_slice()), end)),
        Err(e) => Err(e),
    }
}

/// The text of a decimal number.
pub fn decode_decimal(data: &[u8], offset: usize) -> (r: Result<(String, usize), CollectionError>)
    ensures
        outcome(r) == text_at(data@, offset as int),
        within(r, offset as int, data@.len()),
{
    decode_text(data, offset)
}

/// The text of a duration.
pub fn decode_duration(data: &[u8], offset: usize) -> (r: Result<(String, usize), CollectionError>)
    ensures
        outcome(r) == text_at(data@, offset as int),
        within(r, offset as int, data@.len()),
{
    decode_text(data, offset)
}

/// The text of a JSON document.
pub fn decode_json(data: &[u8], offset: usize) -> (r: Result<(String, usize), CollectionError>)
    ensures
        outcome(r) == text_at(data@, offset as int),
        within(r, offset as int, data@.len()),
{
    decode_text(data, offset)
}

/// The text of a vector of floats.
pub fn decode_vector_float32(data: &[u8], offset: usize) -> (r: Result<
    (String, usize),
    CollectionError,
>)
    ensures
        outcome(r) == text_at(data@, offset as int),
        within(r, offset as int, data@.len()),
{
    decode_text(data, offset)
}

/// The compact byte array at `offset`.
pub fn decode_compact_bytes(data: &[u8], offset: usize) -> (r: Result<
    (Vec<u8>, usize),
    CollectionError,
>)
    ensures
        outcome(r) == compact_bytes_at(data@, offset as int),
        within(r, offset as int, data@.len()),
{
    if offset >= data.len() {
        return Err(parse_error("insufficient data, cannot decode compact byte array"));
    }
    match read_length_prefix(data, offset) {
        LengthPrefix::CutOff => Err(parse_error("cannot decode compact byte array length")),
        LengthPrefix::TooLong => Err(parse_error("varint overflows a 64-bit integer")),
        LengthPrefix::Word(word, taken) => {
            let size: usize = data.len();
            let length: i64 = unzigzag(word);
            if length < 0 {
                return Err(parse_error("negative length in compact bytes"));
            }
            let start: usize = offset + taken;
            let room: usize = size - start;
            if length as u64 > room as u64 {
                return Err(parse_error("insufficient data, cannot decode compact byte array data"));
            }
            let end: usize = start + length as usize;
            Ok((slice_of(data, start, end), end))
        },
    }
}

/// A text and the position behind it as a value and the position behind it.
pub open spec fn as_text(r: Result<(Seq<char>, int), CollectionErrorView>) -> Result<
    (ValueView, int),
    CollectionErrorView,
> {
    match r {
        Ok((s, end)) => Ok((ValueView::Text(s), end)),
        Err(e) => Err(e),
    }
}

/// Bytes and the position behind them as a text value and the position behind
/// it.
pub open spec fn as_lossy_text(r: Result<(Seq<u8>, int), CollectionErrorView>) -> Result<
    (ValueView, int),
    CollectionErrorView,
> {
    match r {
        Ok((bytes, end)) => Ok((ValueView::Text(lossy_text(bytes)), end)),
        Err(e) => Err(e),
    }
}

/// A signed integer and the position behind it as a number value and the
/// position behind it.
pub open spec fn as_signed_number(r: Result<(i64, int), CollectionErrorView>) -> Result<
    (ValueView, int),
    CollectionErrorView,
> {
    match r {
        Ok((n, end)) => Ok((ValueView::Number(Number::of_int(n as int)), end)),
        Err(e) => Err(e),
    }
}

/// An unsigned integer and the position behind it as a number value and the
/// position behind it.
pub open spec fn as_unsigned_number(r: Result<(u64, int), CollectionErrorView>) -> Result<
    (ValueView, int),
    CollectionErrorView,
> {
    match r {
        Ok((n, end)) => Ok((ValueView::Number(Number::PosInt(n)), end)),
        Err(e) => Err(e),
    }
}

/// The bits of a double and the position behind it as a number value and the
/// position behind it.
pub open spec fn as_double(r: Result<(u64, int), CollectionErrorView>) -> Result<
    (ValueView, int),
    CollectionErrorView,
> {
    match r {
        Ok((bits, end)) => Ok((ValueView::Number(Number::of_bits(bits)), end)),
        Err(e) => Err(e),
    }
}

/// The value at `at`, as its flag says. A flag that is not known is an absent
/// value of one byte.
pub open spec fn value_at(data: Seq<u8>, at: int) -> Result<(ValueView, int), CollectionErrorView> {
    if at >= data.len() {
        Err(unreadable("Insufficient data"@))
    } else {
        let flag = data[at];
        let inner = at + 1;
        if flag == FLAG_BYTES {
            as_lossy_text(bytes_at(data, inner))
        } else if flag == FLAG_COMPACT_BYTES {
            as_lossy_text(compact_bytes_at(data, inner))
        } else if flag == FLAG_INT {
            as_signed_number(int_at(data, inner))
        } else if flag == FLAG_UINT {
            as_unsigned_number(uint_at(data, inner))
        } else if flag == FLAG_FLOAT {
            as_double(float_at(data, inner))
        } else if flag == FLAG_DECIMAL || flag == FLAG_DURATION || flag == FLAG_JSON || flag
            == FLAG_VECTOR_FLOAT32 {
            as_text(text_at(data, inner))
        } else if flag == FLAG_VARINT {
            as_signed_number(varint_at(data, inner))
        } else if flag == FLAG_UVARINT {
            as_unsigned_number(uvarint_at(data, inner))
        } else if FLAG_TIME_FIRST <= flag <= FLAG_TIME_LAST {
            as_text(time_at(data, inner))
        } else if flag == FLAG_MAX {
            Ok((ValueView::Text("MAX_VALUE"@), inner))
        } else {
            Ok((ValueView::Null, inner))
        }
    }
}

/// The value of a column of the type `tp` that holds a packed time: microseconds
/// for a timestamp that is a point in time, or else its text.
pub open spec fn packed_value(packed: u64, tp: i32) -> ValueView {
    if tp == TYPE_TIMESTAMP && packed_micros(packed) is Some {
        ValueView::Number(Number::of_int(packed_micros(packed)->0 as int))
    } else {
        ValueView::Text(packed_text(packed))
    }
}

/// The value that the content of a compact byte array stands for in a column of a
/// time type `tp`: a packed time behind its flag, or else the absent value.
pub open spec fn inner_time(inner: Seq<u8>, tp: i32) -> Result<ValueView, CollectionErrorView> {
    if inner.len() > 0 && inner[0] == FLAG_UVARINT {
        match uvarint_at(inner, 1) {
            Ok((packed, _)) => Ok(packed_value(packed, tp)),
            Err(e) => Err(e),
        }
    } else if inner.len() >= 9 && inner[0] == FLAG_UINT {
        Ok(packed_value(be_value(word_bytes(inner, 1)) as u64, tp))
    } else {
        Ok(ValueView::Null)
    }
}

/// The value at `at` of a column of the type `tp`. In a column of a time type
/// unsigned numbers and compact byte arrays hold packed times.
pub open spec fn typed_value_at(data: Seq<u8>, at: int, tp: i32) -> Result<
    (ValueView, int),
    CollectionErrorView,
> {
    if at >= data.len() {
        Err(unreadable("Insufficient data"@))
    } else if tp == TYPE_TIMESTAMP || tp == TYPE_DATETIME {
        let flag = data[at];
        if flag == FLAG_UVARINT {
            match uvarint_at(data, at + 1) {
                Ok((packed, end)) => Ok((packed_value(packed, tp), end)),
                Err(e) => Err(e),
            }
        } else if flag == FLAG_UINT {
            if at + 9 > data.len() {
                Err(unreadable("Insufficient bytes for uintFlag time"@))
            } else {
                Ok((packed_value(be_value(word_bytes(data, at + 1)) as u64, tp), at + 9))
            }
        } else if flag == FLAG_COMPACT_BYTES {
            match compact_bytes_at(data, at + 1) {
                Ok((inner, end)) => match inner_time(inner, tp) {
                    Ok(v) => Ok((v, end)),
                    Err(e) => Err(e),
                },
                Err(e) => Err(e),
            }
        } else {
            value_at(data, at)
        }
    } else {
        value_at(data, at)
    }
}

/// The value at `offset`, as its flag says.
pub fn decode_value_from_bytes(data: &[u8], offset: usize) -> (r: Result<
    (Value, usize),
    CollectionError,
>)
    ensures
        outcome(r) == value_at(data@, offset as int),
        r matches Ok((_, end)) ==> offset < end <= data@.len(),
{
    if offset >= data.len() {
        return Err(parse_error("Insufficient data"));
    }
    let flag: u8 = data[offset];
    let inner: usize = offset + 1;
    if flag == FLAG_BYTES {
        match decode_bytes(data, inner) {
            Ok((bytes, end)) => Ok((Value::Text(to_lossy_text(bytes.as_slice())), end)),
            Err(e) => Err(e),
        }
    } else if flag == FLAG_COMPACT_BYTES {
        match decode_compact_bytes(data, inner) {
            Ok((bytes, end)) => Ok((Value::Text(to_lossy_text(bytes.as_slice())), end)),
            Err(e) => Err(e),
        }
    } else if flag == FLAG_INT {
        match decode_int(data, inner) {
            Ok((n, end)) => Ok((Value::Number(Number::from_i64(n)), end)),
            Err(e) => Err(e),
        }
    } else if flag == FLAG_UINT {
        match decode_uint(data, inner) {
            Ok((n, end)) => Ok((Value::Number(Number::PosInt(n)), end)),
            Err(e) => Err(e),
        }
    } else if flag == FLAG_FLOAT {
        match decode_float(data, inner) {
            Ok((bits, end)) => Ok((Value::Number(Number::from_bits(bits)), end)),
            Err(e) => Err(e),
        }
    } else if flag == FLAG_DECIMAL {
        match decode_decimal(data, inner) {
            Ok((text, end)) => Ok((Value::Text(text), end)),
            Err(e) => Err(e),
        }
    } else if flag == FLAG_DURATION {
        match decode_duration(data, inner) {
            Ok((text, end)) => Ok((Value::Text(text), end)),
            Err(e) => Err(e),
        }
    } else if flag == FLAG_VARINT {
        match decode_varint(data, inner) {
            Ok((n, end)) => Ok((Value::Number(Number::from_i64(n)), end)),
            Err(e) => Err(e),
        }
    } else if flag == FLAG_UVARINT {
        match decode_uvarint(data, inner) {
            Ok((n, end)) => Ok((Value::Number(Number::PosInt(n)), end)),
            Err(e) => Err(e),
        }
    } else if flag == FLAG_JSON {
        match decode_json(data, inner) {
            Ok((text, end)) => Ok((Value::Text(text), end)),
            Err(e) => Err(e),
        }
    } else if flag == FLAG_VECTOR_FLOAT32 {
        match decode_vector_float32(data, inner) {
            Ok((text, end)) => Ok((Value::Text(text), end)),
            Err(e) => Err(e),
        }
    } else if flag == FLAG_MAX {
        Ok((Value::Text("MAX_VALUE".to_string()), inner))
    } else if flag >= FLAG_TIME_FIRST && flag <= FLAG_TIME_LAST {
        match decode_time_value(data, inner) {
            Ok((text, end)) => Ok((Value::Text(text), end)),
            Err(e) => Err(e),
        }
    } else {
        Ok((Value::Null, inner))
    }
}

/// The value of a column of the type `mysql_tp` that holds a packed time.
fn packed_time_value(packed: u64, mysql_tp: i32) -> (r: Value)
    ensures
        r@ == packed_value(packed, mysql_tp),
{
    if mysql_tp == TYPE_TIMESTAMP {
        if let Some(us) = decode_packed_time_to_microseconds(packed) {
            return Value::Number(Number::from_i64(us));
        }
    }
    Value::Text(decode_packed_time_to_string(packed))
}

fn decode_inner_time(inner: &[u8], mysql_tp: i32) -> (r: Result<Value, CollectionError>)
    ensures
        match r {
            Ok(v) => inner_time(inner@, mysql_tp) == Ok::<ValueView, CollectionErrorView>(v@),
            Err(e) => inner_time(inner@, mysql_tp) == Err::<ValueView, CollectionErrorView>(e@),
        },
{
    if inner.len() == 0 {
        return Ok(Value::Null);
    }
    if inner[0] == FLAG_UVARINT {
        match decode_uvarint(inner, 1) {
            Ok((packed, _)) => Ok(packed_time_value(packed, mysql_tp)),
            Err(e) => Err(e),
        }
    } else if inner[0] == FLAG_UINT && inner.len() >= 9 {
        Ok(packed_time_value(read_be(inner, 1), mysql_tp))
    } else {
        Ok(Value::Null)
    }
}

/// The value at `offset` of a column of the type `mysql_tp`.
pub fn decode_value_from_bytes_with_type(data: &[u8], offset: usize, mysql_tp: i32) -> (r: Result<
    (Value, usize),
    CollectionError,
>)
    ensures
        outcome(r) == typed_value_at(data@, offset as int, mysql_tp),
        r matches Ok((_, end)) ==> offset < end <= data@.len(),
{
    if offset >= data.len() {
        return Err(parse_error("Insufficient data"));
    }
    if mysql_tp == TYPE_TIMESTAMP || mysql_tp == TYPE_DATETIME {
        let flag: u8 = data[offset];
        let inner: usize = offset + 1;
        if flag == FLAG_UVARINT {
            return match decode_uvarint(data, inner) {
                Ok((packed, end)) => Ok((packed_time_value(packed, mysql_tp), end)),
                Err(e) => Err(e),
            };
        }
        if flag == FLAG_UINT {
            if lacks_word(data, inner) {
                return Err(parse_error("Insufficient bytes for uintFlag time"));
            }
            return Ok((packed_time_value(read_be(data, inner), mysql_tp), inner + 8));
        }
        if flag == FLAG_COMPACT_BYTES {
            return match decode_compact_bytes(data, inner) {
                Ok((bytes, end)) => match decode_inner_time(bytes.as_slice(), mysql_tp) {
                    Ok(v) => Ok((v, end)),
                    Err(e) => Err(e),
                },
                Err(e) => Err(e),
            };
        }
    }
    decode_value_from_bytes(data, offset)
}

} // verus!
