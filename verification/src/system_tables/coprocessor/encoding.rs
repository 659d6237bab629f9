//! How an instance writes the values that the decoders read, and that reading
//! gives back what was written.
//!
//! Each statement is about data that goes on in any way before and behind the
//! written value.
use vstd::prelude::*;
use crate::bytes::{
    be_bytes, be_value, groups_length, groups_value, le_value, lossy_text, run_length,
};
use crate::clock::{days_before_month, unix_micros, TimeParts};
use crate::system_tables::coprocessor::codec::{
    bytes_at, compact_bytes_at, float_at, int_at, ordered_bits, packed_value, typed_value_at,
    uint_at, uvarint_at, value_at, varint_at, word_bytes, zigzag, FLAG_BYTES, FLAG_COMPACT_BYTES,
    FLAG_DECIMAL, FLAG_DURATION, FLAG_FLOAT, FLAG_INT, FLAG_JSON, FLAG_UINT, FLAG_UVARINT,
    FLAG_VARINT, FLAG_VECTOR_FLOAT32, TYPE_DATETIME, TYPE_TIMESTAMP,
};
use crate::system_tables::coprocessor::packed_time::{packed_micros, packed_text, unpacked};
use crate::system_tables::data_collector::CollectionErrorView;
use crate::value::{Number, ValueView};

verus! {

/// `n` in groups of seven bits, the lowest first, each but the last with its
/// highest bit set.
pub open spec fn groups_of(n: nat) -> Seq<u8>
    decreases n,
{
    if n < 128 {
        seq![n as u8]
    } else {
        seq![(n % 128 + 128) as u8] + groups_of(n / 128)
    }
}

/// The zigzag encoding of a signed number.
pub open spec fn zigzag_word(n: i64) -> u64 {
    if n >= 0 {
        (2 * n) as u64
    } else {
        (-2 * n - 1) as u64
    }
}

/// The lower `width` bytes of `n`, the lowest byte first.
pub open spec fn le_bytes(n: nat, width: nat) -> Seq<u8>
    decreases width,
{
    if width == 0 {
        Seq::empty()
    } else {
        seq![(n % 256) as u8] + le_bytes(n / 256, (width - 1) as nat)
    }
}

/// The word that stands for a double, by its bits, in the encoding that keeps the
/// order of doubles.
pub open spec fn ordered_word(bits: u64) -> u64 {
    if bits < 0x8000_0000_0000_0000 {
        (bits + 0x8000_0000_0000_0000) as u64
    } else {
        (u64::MAX - bits) as u64
    }
}

/// A point in time, and microseconds, in a packed time.
pub open spec fn packed(parts: TimeParts, micros: nat) -> nat {
    let date = ((13 * parts.year + parts.month) * 32 + parts.day) as nat;
    (((date * 32 + parts.hour) * 64 + parts.minute) * 64 + parts.second) as nat * 0x100_0000
        + micros
}

/// The part of `data` that starts at `at` begins with `part`.
pub open spec fn stands_at(data: Seq<u8>, part: Seq<u8>, at: int) -> bool {
    &&& 0 <= at
    &&& at + part.len() <= data.len()
    &&& forall|i: int| 0 <= i < part.len() ==> data[at + i] == #[trigger] part[i]
}

proof fn lemma_groups(data: Seq<u8>, n: nat, at: int)
    requires
        stands_at(data, groups_of(n), at),
    ensures
        groups_of(n).len() > 0,
        run_length(data, at) == groups_of(n).len() - 1,
        groups_length(data, at) == groups_of(n).len(),
        groups_value(data.subrange(at, at + groups_of(n).len())) == n,
    decreases n,
{
    let part = groups_of(n);
    assert(part.len() > 0);
    let piece = data.subrange(at, at + part.len());
    assert(piece[0] == part[0]);
    if n < 128 {
        assert(data[at] == part[0]);
        assert(run_length(data, at) == 0);
        assert(piece.skip(1) =~= Seq::<u8>::empty());
        assert(groups_value(piece.skip(1)) == 0);
    } else {
        let rest = groups_of(n / 128);
        assert forall|i: int| 0 <= i < rest.len() implies data[at + 1 + i] == #[trigger] rest[i] by {
            assert(part[i + 1] == rest[i]);
        }
        lemma_groups(data, n / 128, at + 1);
        assert(data[at] == part[0]);
        assert(run_length(data, at) == 1 + run_length(data, at + 1));
        assert(piece.skip(1) =~= data.subrange(at + 1, at + 1 + rest.len()));
        assert(((n % 128 + 128) as u8) % 128 == n % 128);
    }
}

proof fn lemma_groups_count(n: nat, limit: nat)
    requires
        n < vstd::arithmetic::power::pow(128, limit),
        limit > 0,
    ensures
        groups_of(n).len() <= limit,
    decreases limit,
{
    reveal(vstd::arithmetic::power::pow);
    vstd::arithmetic::power::lemma_pow0(128);
    if n >= 128 {
        if limit == 1 {
            vstd::arithmetic::power::lemma_pow1(128);
        } else {
            assert(n / 128 < vstd::arithmetic::power::pow(128, (limit - 1) as nat));
            lemma_groups_count(n / 128, (limit - 1) as nat);
        }
    }
}

proof fn lemma_groups_of_word(n: u64)
    ensures
        0 < groups_of(n as nat).len() <= 10,
        groups_of(n as nat).len() == 10 ==> groups_of(n as nat)[9] <= 1,
{
    assert(vstd::arithmetic::power::pow(128, 10) > 0x1_0000_0000_0000_0000) by {
        reveal_with_fuel(vstd::arithmetic::power::pow, 12);
    }
    lemma_groups_count(n as nat, 10);
    reveal_with_fuel(groups_of, 11);
}

/// An unsigned number in groups of seven bits reads back.
pub proof fn uvarint_reads_back(data: Seq<u8>, n: u64, at: int)
    requires
        stands_at(data, groups_of(n as nat), at),
    ensures
        uvarint_at(data, at) == Ok::<_, CollectionErrorView>((n, at + groups_of(n as nat).len())),
{
    lemma_groups(data, n as nat, at);
    lemma_groups_of_word(n);
}

/// The zigzag encoding of a signed number reads back.
pub proof fn zigzag_reads_back(n: i64)
    ensures
        zigzag(zigzag_word(n)) == n,
{
}

/// A signed number in groups of seven bits reads back.
pub proof fn varint_reads_back(data: Seq<u8>, n: i64, at: int)
    requires
        stands_at(data, groups_of(zigzag_word(n) as nat), at),
    ensures
        varint_at(data, at) == Ok::<_, CollectionErrorView>((n, at + groups_of(zigzag_word(n) as nat).len())),
{
    uvarint_reads_back(data, zigzag_word(n), at);
    zigzag_reads_back(n);
}

/// A compact byte array reads back: its length, as a signed number, and its
/// content.
pub proof fn compact_bytes_read_back(data: Seq<u8>, content: Seq<u8>, at: int)
    requires
        content.len() <= i64::MAX,
        stands_at(data, groups_of(zigzag_word(content.len() as i64) as nat) + content, at),
    ensures
        compact_bytes_at(data, at) == Ok::<_, CollectionErrorView>(
            (
                content,
                at + groups_of(zigzag_word(content.len() as i64) as nat).len() + content.len(),
            ),
        ),
{
    let word = zigzag_word(content.len() as i64);
    let prefix = groups_of(word as nat);
    let whole = prefix + content;
    assert forall|i: int| 0 <= i < prefix.len() implies data[at + i] == #[trigger] prefix[i] by {
        assert(whole[i] == prefix[i]);
    }
    lemma_groups(data, word as nat, at);
    lemma_groups_of_word(word);
    zigzag_reads_back(content.len() as i64);
    if prefix.len() == 10 {
        assert(data[at + 9] == prefix[9]);
    }
    let start = at + prefix.len();
    assert(data.subrange(start, start + content.len()) =~= content) by {
        assert forall|i: int| 0 <= i < content.len() implies data[start + i] == content[i] by {
            assert(whole[prefix.len() + i] == content[i]);
        }
    }
}

/// A byte array reads back, wherever it stands: its length and its content.
pub proof fn bytes_read_back(data: Seq<u8>, content: Seq<u8>, at: int)
    requires
        content.len() <= u64::MAX,
        stands_at(data, groups_of(content.len()) + content, at),
    ensures
        bytes_at(data, at) == Ok::<_, CollectionErrorView>(
            (content, at + groups_of(content.len()).len() + content.len()),
        ),
{
    let prefix = groups_of(content.len());
    let whole = prefix + content;
    assert forall|i: int| 0 <= i < prefix.len() implies data[at + i] == #[trigger] prefix[i] by {
        assert(whole[i] == prefix[i]);
    }
    lemma_groups(data, content.len(), at);
    lemma_groups_of_word(content.len() as u64);
    let start = at + prefix.len();
    assert(data.subrange(start, start + content.len()) =~= content) by {
        assert forall|i: int| 0 <= i < content.len() implies data[start + i] == content[i] by {
            assert(whole[prefix.len() + i] == content[i]);
        }
    }
}

pub proof fn lemma_le_bytes(n: nat, width: nat)
    requires
        n < vstd::arithmetic::power::pow(256, width),
    ensures
        le_bytes(n, width).len() == width,
        le_value(le_bytes(n, width)) == n,
    decreases width,
{
    vstd::arithmetic::power::lemma_pow0(256);
    reveal(vstd::arithmetic::power::pow);
    if width > 0 {
        let less = (width - 1) as nat;
        assert(n / 256 < vstd::arithmetic::power::pow(256, less));
        lemma_le_bytes(n / 256, less);
        assert(le_bytes(n, width).skip(1) =~= le_bytes(n / 256, less));
    }
}

pub proof fn lemma_be_bytes(n: nat, width: nat)
    requires
        n < vstd::arithmetic::power::pow(256, width),
    ensures
        be_bytes(n, width).len() == width,
        be_value(be_bytes(n, width)) == n,
    decreases width,
{
    vstd::arithmetic::power::lemma_pow0(256);
    reveal(vstd::arithmetic::power::pow);
    if width > 0 {
        let less = (width - 1) as nat;
        assert(n / 256 < vstd::arithmetic::power::pow(256, less));
        lemma_be_bytes(n / 256, less);
        assert(be_bytes(n, width).drop_last() =~= be_bytes(n / 256, less));
    }
}

pub proof fn lemma_word_range()
    ensures
        vstd::arithmetic::power::pow(256, 8) == 0x1_0000_0000_0000_0000,
{
    reveal_with_fuel(vstd::arithmetic::power::pow, 10);
}

/// An unsigned number of eight bytes reads back.
pub proof fn uint_reads_back(data: Seq<u8>, n: u64, at: int)
    requires
        stands_at(data, le_bytes(n as nat, 8), at),
    ensures
        uint_at(data, at) == Ok::<_, CollectionErrorView>((n, at + 8)),
{
    lemma_word_range();
    lemma_le_bytes(n as nat, 8);
    assert(word_bytes(data, at) =~= le_bytes(n as nat, 8));
}

/// A signed number of eight bytes reads back.
pub proof fn int_reads_back(data: Seq<u8>, n: i64, at: int)
    requires
        stands_at(
            data,
            le_bytes(
                (if n < 0 {
                    n + 0x1_0000_0000_0000_0000
                } else {
                    n as int
                }) as nat,
                8,
            ),
            at,
        ),
    ensures
        int_at(data, at) == Ok::<_, CollectionErrorView>((n, at + 8)),
{
    let word = (if n < 0 {
        n + 0x1_0000_0000_0000_0000
    } else {
        n as int
    }) as nat;
    lemma_word_range();
    lemma_le_bytes(word, 8);
    assert(word_bytes(data, at) =~= le_bytes(word, 8));
}

/// A double, by its bits, reads back, whatever its sign, and whether it is a
/// number or not.
pub proof fn float_reads_back(data: Seq<u8>, bits: u64, at: int)
    requires
        stands_at(data, be_bytes(ordered_word(bits) as nat, 8), at),
    ensures
        float_at(data, at) == Ok::<_, CollectionErrorView>((bits, at + 8)),
{
    let word = ordered_word(bits);
    assert(ordered_bits(word) == bits);
    lemma_word_range();
    lemma_be_bytes(word as nat, 8);
    assert(word_bytes(data, at) =~= be_bytes(word as nat, 8));
}

/// A value that was written with its flag is read with its flag: a signed number.
pub proof fn signed_value_reads_back(data: Seq<u8>, n: i64, at: int)
    requires
        stands_at(data, seq![FLAG_VARINT] + groups_of(zigzag_word(n) as nat), at),
    ensures
        value_at(data, at) == Ok::<_, CollectionErrorView>(
            (
                ValueView::Number(Number::of_int(n as int)),
                at + 1 + groups_of(zigzag_word(n) as nat).len(),
            ),
        ),
{
    lemma_behind_flag(data, FLAG_VARINT, groups_of(zigzag_word(n) as nat), at);
    varint_reads_back(data, n, at + 1);
}

/// What stands behind a flag starts one byte further on.
pub proof fn lemma_behind_flag(data: Seq<u8>, flag: u8, part: Seq<u8>, at: int)
    requires
        stands_at(data, seq![flag] + part, at),
    ensures
        data[at] == flag,
        stands_at(data, part, at + 1),
{
    let whole = seq![flag] + part;
    assert(data[at] == whole[0]);
    assert forall|i: int| 0 <= i < part.len() implies data[at + 1 + i] == #[trigger] part[i] by {
        assert(whole[i + 1] == part[i]);
    }
}

/// A value that was written with its flag is read with its flag: an unsigned number
/// in groups of seven bits.
pub proof fn unsigned_value_reads_back(data: Seq<u8>, n: u64, at: int)
    requires
        stands_at(data, seq![FLAG_UVARINT] + groups_of(n as nat), at),
    ensures
        value_at(data, at) == Ok::<_, CollectionErrorView>(
            (ValueView::Number(Number::PosInt(n)), at + 1 + groups_of(n as nat).len()),
        ),
{
    lemma_behind_flag(data, FLAG_UVARINT, groups_of(n as nat), at);
    uvarint_reads_back(data, n, at + 1);
}

/// A value that was written with its flag is read with its flag: a number of eight
/// bytes, signed or not.
pub proof fn word_values_read_back(data: Seq<u8>, n: u64, at: int)
    ensures
        stands_at(data, seq![FLAG_UINT] + le_bytes(n as nat, 8), at) ==> value_at(data, at) == Ok::<
            _,
            CollectionErrorView,
        >((ValueView::Number(Number::PosInt(n)), at + 9)),
        stands_at(data, seq![FLAG_INT] + le_bytes(n as nat, 8), at) ==> value_at(data, at) == Ok::<
            _,
            CollectionErrorView,
        >(
            (
                ValueView::Number(
                    Number::of_int(
                        if n > i64::MAX {
                            n - 0x1_0000_0000_0000_0000
                        } else {
                            n as int
                        },
                    ),
                ),
                at + 9,
            ),
        ),
{
    lemma_word_range();
    lemma_le_bytes(n as nat, 8);
    if stands_at(data, seq![FLAG_UINT] + le_bytes(n as nat, 8), at) {
        lemma_behind_flag(data, FLAG_UINT, le_bytes(n as nat, 8), at);
        uint_reads_back(data, n, at + 1);
    }
    if stands_at(data, seq![FLAG_INT] + le_bytes(n as nat, 8), at) {
        lemma_behind_flag(data, FLAG_INT, le_bytes(n as nat, 8), at);
        let signed = (if n > i64::MAX {
            n - 0x1_0000_0000_0000_0000
        } else {
            n as int
        }) as i64;
        int_reads_back(data, signed, at + 1);
    }
}

/// A value that was written with its flag is read with its flag: a double, or zero
/// where it is not finite.
pub proof fn double_value_reads_back(data: Seq<u8>, bits: u64, at: int)
    requires
        stands_at(data, seq![FLAG_FLOAT] + be_bytes(ordered_word(bits) as nat, 8), at),
    ensures
        value_at(data, at) == Ok::<_, CollectionErrorView>(
            (ValueView::Number(Number::of_bits(bits)), at + 9),
        ),
{
    lemma_behind_flag(data, FLAG_FLOAT, be_bytes(ordered_word(bits) as nat, 8), at);
    float_reads_back(data, bits, at + 1);
}

/// A value that was written with its flag is read with its flag: a text.
pub proof fn text_value_reads_back(data: Seq<u8>, content: Seq<u8>, at: int)
    requires
        content.len() <= i64::MAX,
        stands_at(
            data,
            seq![FLAG_COMPACT_BYTES] + (groups_of(zigzag_word(content.len() as i64) as nat)
                + content),
            at,
        ),
    ensures
        value_at(data, at) == Ok::<_, CollectionErrorView>(
            (
                ValueView::Text(lossy_text(content)),
                at + 1 + groups_of(zigzag_word(content.len() as i64) as nat).len() + content.len(),
            ),
        ),
{
    lemma_behind_flag(data, FLAG_COMPACT_BYTES, groups_of(zigzag_word(content.len() as i64) as nat) + content, at);
    compact_bytes_read_back(data, content, at + 1);
}

/// Whether a value with this flag is a byte array with its length before it.
pub open spec fn is_prefixed(flag: u8) -> bool {
    flag == FLAG_BYTES || flag == FLAG_DECIMAL || flag == FLAG_DURATION || flag == FLAG_JSON || flag
        == FLAG_VECTOR_FLOAT32
}

/// A value that was written with its flag is read with its flag: bytes, a decimal
/// number, a duration, a JSON document or a vector of floats.
pub proof fn prefixed_value_reads_back(data: Seq<u8>, flag: u8, content: Seq<u8>, at: int)
    requires
        is_prefixed(flag),
        content.len() <= u64::MAX,
        stands_at(data, seq![flag] + (groups_of(content.len()) + content), at),
    ensures
        value_at(data, at) == Ok::<_, CollectionErrorView>(
            (
                ValueView::Text(lossy_text(content)),
                at + 1 + groups_of(content.len()).len() + content.len(),
            ),
        ),
{
    lemma_behind_flag(data, flag, groups_of(content.len()) + content, at);
    bytes_read_back(data, content, at + 1);
}

/// The parts of a packed number, from the highest to the lowest.
pub proof fn lemma_packed_fields(
    year_month: int,
    day: int,
    hour: int,
    minute: int,
    second: int,
    micros: int,
) -> (p: int)
    requires
        0 <= year_month < 0x20000,
        0 <= day < 32,
        0 <= hour < 32,
        0 <= minute < 64,
        0 <= second < 64,
        0 <= micros < 0x100_0000,
    ensures
        p == ((((year_month * 32 + day) * 32 + hour) * 64 + minute) * 64 + second) * 0x100_0000
            + micros,
        0 <= p <= u64::MAX,
        p / 0x4000_0000_0000 == year_month,
        (p / 0x200_0000_0000) % 32 == day,
        (p / 0x10_0000_0000) % 32 == hour,
        (p / 0x4000_0000) % 64 == minute,
        (p / 0x100_0000) % 64 == second,
{
    let date = year_month * 32 + day;
    let hours = date * 32 + hour;
    let minutes = hours * 64 + minute;
    let seconds = minutes * 64 + second;
    let p = seconds * 0x100_0000 + micros;
    assert(p / 0x100_0000 == seconds);
    assert(p / 0x4000_0000 == minutes);
    assert(p / 0x10_0000_0000 == hours);
    assert(p / 0x200_0000_0000 == date);
    p
}

/// A packed time reads back, whatever the 24 bits of its fraction of a second hold:
/// its parts, its text and its microseconds are those of the point in time.
pub proof fn packed_time_reads_back(parts: TimeParts, micros: nat)
    requires
        parts.in_range(),
        micros < 0x100_0000,
    ensures
        packed(parts, micros) <= u64::MAX,
        unpacked(packed(parts, micros) as u64) == parts,
        packed_text(packed(parts, micros) as u64) == parts.text(),
        packed_micros(packed(parts, micros) as u64) == parts.micros(),
{
    let year_month = 13 * parts.year + parts.month;
    let p = lemma_packed_fields(
        year_month,
        parts.day as int,
        parts.hour as int,
        parts.minute as int,
        parts.second as int,
        micros as int,
    );
    assert(packed(parts, micros) == p);
    assert(year_month % 13 == parts.month % 13);
    assert(unpacked(p as u64) == parts);
}

/// Whether a column of this type holds packed times.
pub open spec fn is_time_type(tp: i32) -> bool {
    tp == TYPE_TIMESTAMP || tp == TYPE_DATETIME
}

/// A packed time, as it is written behind a flag: in groups of seven bits, or as eight
/// bytes, the highest first.
pub open spec fn packed_form(word: u64, in_groups: bool) -> Seq<u8> {
    if in_groups {
        seq![FLAG_UVARINT] + groups_of(word as nat)
    } else {
        seq![FLAG_UINT] + be_bytes(word as nat, 8)
    }
}

/// A packed time reads back in a column of a time type, whichever way it is written.
pub proof fn packed_value_reads_back(
    data: Seq<u8>,
    word: u64,
    in_groups: bool,
    tp: i32,
    at: int,
)
    requires
        is_time_type(tp),
        stands_at(data, packed_form(word, in_groups), at),
    ensures
        typed_value_at(data, at, tp) == Ok::<_, CollectionErrorView>(
            (packed_value(word, tp), at + packed_form(word, in_groups).len()),
        ),
{
    if in_groups {
        lemma_behind_flag(data, FLAG_UVARINT, groups_of(word as nat), at);
        uvarint_reads_back(data, word, at + 1);
    } else {
        lemma_behind_flag(data, FLAG_UINT, be_bytes(word as nat, 8), at);
        lemma_word_range();
        lemma_be_bytes(word as nat, 8);
        assert(word_bytes(data, at + 1) =~= be_bytes(word as nat, 8));
    }
}

/// A packed time that is wrapped in a compact byte array reads back in a column of a
/// time type, whichever way it is written in there.
pub proof fn wrapped_packed_value_reads_back(
    data: Seq<u8>,
    word: u64,
    in_groups: bool,
    tp: i32,
    at: int,
)
    requires
        is_time_type(tp),
        stands_at(
            data,
            seq![FLAG_COMPACT_BYTES] + (groups_of(
                zigzag_word(packed_form(word, in_groups).len() as i64) as nat,
            ) + packed_form(word, in_groups)),
            at,
        ),
    ensures
        typed_value_at(data, at, tp) == Ok::<_, CollectionErrorView>(
            (
                packed_value(word, tp),
                at + 1 + groups_of(
                    zigzag_word(packed_form(word, in_groups).len() as i64) as nat,
                ).len() + packed_form(word, in_groups).len(),
            ),
        ),
{
    let content = packed_form(word, in_groups);
    lemma_groups_of_word(word);
    lemma_word_range();
    lemma_be_bytes(word as nat, 8);
    assert(content.len() <= 11);
    lemma_behind_flag(
        data,
        FLAG_COMPACT_BYTES,
        groups_of(zigzag_word(content.len() as i64) as nat) + content,
        at,
    );
    compact_bytes_read_back(data, content, at + 1);
    if in_groups {
        lemma_behind_flag(content, FLAG_UVARINT, groups_of(word as nat), 0);
        uvarint_reads_back(content, word, 1);
    } else {
        lemma_behind_flag(content, FLAG_UINT, be_bytes(word as nat, 8), 0);
        assert(word_bytes(content, 1) =~= be_bytes(word as nat, 8));
    }
}

/// A packed time in a column of timestamps is read as the microseconds of its point
/// in time, to the second, where the day exists.
pub proof fn timestamp_value_reads_back(data: Seq<u8>, parts: TimeParts, micros: nat, at: int)
    requires
        parts.exists_in_calendar(),
        micros < 0x100_0000,
        stands_at(data, seq![FLAG_UVARINT] + groups_of(packed(parts, micros)), at),
    ensures
        typed_value_at(data, at, TYPE_TIMESTAMP) == Ok::<_, CollectionErrorView>(
            (
                ValueView::Number(
                    Number::of_int(
                        unix_micros(
                            parts.year as int,
                            parts.month as int,
                            parts.day as int,
                            parts.hour as int,
                            parts.minute as int,
                            parts.second as int,
                        ),
                    ),
                ),
                at + 1 + groups_of(packed(parts, micros)).len(),
            ),
        ),
{
    let word = packed(parts, micros) as u64;
    packed_time_reads_back(parts, micros);
    assert(word as nat == packed(parts, micros));
    packed_value_reads_back(data, word, true, TYPE_TIMESTAMP, at);
    lemma_micros_fit(parts);
}

/// The microseconds of a point in time in the years 0 to 9999 are a signed number
/// of 64 bits.
pub proof fn lemma_micros_fit(parts: TimeParts)
    requires
        parts.exists_in_calendar(),
    ensures
        i64::MIN <= unix_micros(
            parts.year as int,
            parts.month as int,
            parts.day as int,
            parts.hour as int,
            parts.minute as int,
            parts.second as int,
        ) <= i64::MAX,
{
    reveal_with_fuel(days_before_month, 13);
}

/// A packed time in a column of date times is read as its text.
pub proof fn datetime_value_reads_back(data: Seq<u8>, parts: TimeParts, micros: nat, at: int)
    requires
        parts.in_range(),
        micros < 0x100_0000,
        stands_at(data, seq![FLAG_UVARINT] + groups_of(packed(parts, micros)), at),
    ensures
        typed_value_at(data, at, TYPE_DATETIME) == Ok::<_, CollectionErrorView>(
            (ValueView::Text(parts.text()), at + 1 + groups_of(packed(parts, micros)).len()),
        ),
{
    let word = packed(parts, micros) as u64;
    packed_time_reads_back(parts, micros);
    packed_value_reads_back(data, word, true, TYPE_DATETIME, at);
}

proof fn lemma_long_run(data: Seq<u8>, at: int, count: nat)
    requires
        0 <= at,
        at + count <= data.len(),
        forall|k: int| at <= k < at + count ==> #[trigger] data[k] >= 0x80,
    ensures
        run_length(data, at) >= count,
        at + count == data.len() ==> run_length(data, at) == count,
    decreases count,
{
    if count > 0 {
        assert(data[at] >= 0x80);
        lemma_long_run(data, at + 1, (count - 1) as nat);
    }
}

/// A number that goes on for ten bytes without an end is refused, wherever it stands:
/// as a number, and as the length of a text.
pub proof fn unending_numbers_are_refused(data: Seq<u8>, at: int)
    requires
        0 <= at,
        at + 10 <= data.len(),
        forall|k: int| at <= k < at + 10 ==> #[trigger] data[k] >= 0x80,
    ensures
        uvarint_at(data, at) is Err,
        varint_at(data, at) is Err,
        bytes_at(data, at) is Err,
        compact_bytes_at(data, at) is Err,
{
    lemma_long_run(data, at, 10);
}

/// Data that ends within a number ends the number; it does not end the length of a
/// compact byte array.
pub proof fn cut_off_numbers_end_with_the_data(data: Seq<u8>, at: int)
    requires
        0 <= at < data.len() < at + 10,
        forall|k: int| at <= k < data.len() ==> #[trigger] data[k] >= 0x80,
    ensures
        uvarint_at(data, at) matches Ok((_, end)) && end == data.len(),
        compact_bytes_at(data, at) is Err,
{
    lemma_long_run(data, at, (data.len() - at) as nat);
}

/// A text that is shorter than its length says is refused.
pub proof fn cut_off_texts_are_refused(data: Seq<u8>, length: u64, at: int)
    requires
        stands_at(data, groups_of(length as nat), at),
        at + groups_of(length as nat).len() + length > data.len(),
    ensures
        bytes_at(data, at) is Err,
{
    uvarint_reads_back(data, length, at);
    lemma_groups_of_word(length);
}

/// A run that ends is as long as the bytes before its end.
proof fn lemma_run_ends(data: Seq<u8>, at: int, count: nat)
    requires
        0 <= at,
        at + count < data.len(),
        forall|k: int| at <= k < at + count ==> #[trigger] data[k] >= 0x80,
        data[at + count] < 0x80,
    ensures
        run_length(data, at) == count,
    decreases count,
{
    if count > 0 {
        assert(data[at] >= 0x80);
        lemma_run_ends(data, at + 1, (count - 1) as nat);
    }
}

/// A number of ten groups of which the last is more than one bit is cut down to 64 bits
/// where it is a number, and refused where it is the length of a compact byte array.
pub proof fn numbers_of_more_than_64_bits(data: Seq<u8>, at: int)
    requires
        0 <= at,
        at + 10 <= data.len(),
        forall|k: int| at <= k < at + 9 ==> #[trigger] data[k] >= 0x80,
        1 < data[at + 9] < 0x80,
    ensures
        uvarint_at(data, at) matches Ok((_, end)) && end == at + 10,
        compact_bytes_at(data, at) == Err::<(Seq<u8>, int), _>(
            CollectionErrorView::ParseError("varint overflows a 64-bit integer"@),
        ),
{
    lemma_run_ends(data, at, 9);
}

/// A number that would stand behind the end of the data is zero; a text there is refused.
pub proof fn behind_the_end_there_is_nothing(data: Seq<u8>, at: int)
    requires
        at >= data.len(),
    ensures
        uvarint_at(data, at) == Ok::<_, CollectionErrorView>((0u64, at)),
        varint_at(data, at) == Ok::<_, CollectionErrorView>((0i64, at)),
        bytes_at(data, at) is Err,
        compact_bytes_at(data, at) is Err,
        int_at(data, at) is Err,
        uint_at(data, at) is Err,
        float_at(data, at) is Err,
        value_at(data, at) is Err,
        typed_value_at(data, at, 15) is Err,
{
}

/// What cannot be read is told as an error of parsing, which says what was wanted.
pub proof fn unreadable_data_is_told(data: Seq<u8>, at: int)
    requires
        0 <= at < data.len() < at + 8,
    ensures
        int_at(data, at) == Err::<(i64, int), _>(
            CollectionErrorView::ParseError("Cannot decode int: insufficient data"@),
        ),
        uint_at(data, at) == Err::<(u64, int), _>(
            CollectionErrorView::ParseError("Cannot decode uint: insufficient data"@),
        ),
        float_at(data, at) == Err::<(u64, int), _>(
            CollectionErrorView::ParseError("Cannot decode float: insufficient data"@),
        ),
        value_at(data, data.len() as int) == Err::<(ValueView, int), _>(
            CollectionErrorView::ParseError("Insufficient data"@),
        ),
        bytes_at(data, data.len() as int) == Err::<(Seq<u8>, int), _>(
            CollectionErrorView::ParseError("Cannot decode bytes: insufficient data"@),
        ),
        compact_bytes_at(data, data.len() as int) == Err::<(Seq<u8>, int), _>(
            CollectionErrorView::ParseError("insufficient data, cannot decode compact byte array"@),
        ),
{
}

} // verus!
