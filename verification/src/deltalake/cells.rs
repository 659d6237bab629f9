//! What the cells of a column hold of what the events hold.
//!
//! Each statement goes from what an event holds under the name of a field to the
//! cell for that event in the column of the field.
use vstd::prelude::*;
use vstd::string::*;
use vstd::utf8::{decode_utf8, encode_scalar, encode_utf8, is_ascii_chars, valid_utf8};
use crate::clock::{pattern_micros, rfc3339_micros};
use crate::deltalake::batch::{is_made, BatchError, RecordBatch};
use crate::deltalake::column::{
    byte_length, char_width, column_of, create_column, has_date, leaf_named, lemma_ascii_bytes,
    lemma_cut, Column, ColumnView, FloatCellView,
};
use crate::deltalake::event::{entry_at, Event, LogEntry, LogValue};
use crate::deltalake::schema::{ArrowType, Field};
use crate::text::{
    integer_in, lowercase, other_characters_write_no_integer, signed_decimal,
    signed_decimal_reads_back, unquoting_takes_off_quotes,
};

verus! {

/// Whether the entry at `k` is the first with the path.
pub open spec fn is_first(entries: Seq<LogEntry>, path: Seq<char>, k: int) -> bool {
    &&& 0 <= k < entries.len()
    &&& entries[k].path@ == path
    &&& forall|j: int| 0 <= j < k ==> (#[trigger] entries[j]).path@ != path
}

/// Whether an event holds a value under a path.
pub open spec fn holds(event: Event, path: Seq<char>, value: LogValue) -> bool {
    event matches Event::Log(log) && exists|k: int| #[trigger]
        is_first(log.entries@, path, k) && log.entries@[k].value == value
}

/// Whether an event displays a value under a path so.
pub open spec fn displays(event: Event, path: Seq<char>, display: Seq<char>) -> bool {
    event matches Event::Log(log) && exists|k: int| #[trigger]
        is_first(log.entries@, path, k) && log.entries@[k].display@ == display
}

/// Whether an event holds nothing under a path.
pub open spec fn holds_nothing(event: Event, path: Seq<char>) -> bool {
    match event {
        Event::Log(log) => forall|k: int|
            0 <= k < log.entries@.len() ==> (#[trigger] log.entries@[k]).path@ != path,
        Event::Other => true,
    }
}

/// Whether a text begins and ends with something else than a double quote.
pub open spec fn is_unquoted(text: Seq<char>) -> bool {
    text.len() == 0 || (text[0] != '"' && text.last() != '"')
}

/// Whether a name is one of those of the fields that tell where an event comes from.
pub open spec fn names_origin(name: Seq<char>) -> bool {
    name == "_vector_table"@ || name == "_vector_source_table"@ || name == "_vector_source_schema"@
        || name == "_vector_instance"@ || name == "_vector_timestamp"@
}

/// What an event holds under a path is what is found there.
pub proof fn first_entry_is_found(entries: Seq<LogEntry>, path: Seq<char>, k: int)
    ensures
        is_first(entries, path, k) ==> entry_at(entries, path) == Some(entries[k]),
        (forall|j: int| 0 <= j < entries.len() ==> (#[trigger] entries[j]).path@ != path)
            ==> entry_at(entries, path) is None,
    decreases entries.len(),
{
    if entries.len() > 0 {
        let rest = entries.skip(1);
        if is_first(entries, path, k) && k > 0 {
            assert(entries[0].path@ != path);
            assert forall|j: int| 0 <= j < k - 1 implies (#[trigger] rest[j]).path@ != path by {
                assert(rest[j] == entries[j + 1]);
            }
            assert(is_first(rest, path, k - 1));
        }
        if forall|j: int| 0 <= j < entries.len() ==> (#[trigger] entries[j]).path@ != path {
            assert(entries[0].path@ != path);
            assert forall|j: int| 0 <= j < rest.len() implies (#[trigger] rest[j]).path@ != path by {
                assert(rest[j] == entries[j + 1]);
            }
        }
        first_entry_is_found(rest, path, k - 1);
    }
}

proof fn lemma_held(event: Event, path: Seq<char>, value: LogValue)
    requires
        holds(event, path, value),
    ensures
        event matches Event::Log(log) && log.at(path) is Some && log.at(path)->0.value == value,
{
    let log = event->Log_0;
    let k = choose|k: int| #[trigger]
        is_first(log.entries@, path, k) && log.entries@[k].value == value;
    first_entry_is_found(log.entries@, path, k);
}

proof fn lemma_displayed(event: Event, path: Seq<char>, display: Seq<char>)
    requires
        displays(event, path, display),
    ensures
        event matches Event::Log(log) && log.at(path) is Some && log.at(path)->0.display@ == display,
{
    let log = event->Log_0;
    let k = choose|k: int| #[trigger]
        is_first(log.entries@, path, k) && log.entries@[k].display@ == display;
    first_entry_is_found(log.entries@, path, k);
}

proof fn lemma_nothing_held(event: Event, path: Seq<char>)
    requires
        holds_nothing(event, path),
    ensures
        event matches Event::Log(log) ==> log.at(path) is None,
{
    if let Event::Log(log) = event {
        first_entry_is_found(log.entries@, path, 0);
    }
}

/// Whether an event holds no text under a path: nothing, or something else.
pub open spec fn tells_no_text(event: Event, path: Seq<char>) -> bool {
    holds_nothing(event, path) || exists|value: LogValue| #[trigger]
        holds(event, path, value) && !(value is Bytes)
}

/// No text is found where an event holds none.
pub proof fn lemma_no_text(event: Event, path: Seq<char>)
    ensures
        tells_no_text(event, path) && event is Log ==> event->Log_0.text_at(path) is None,
{
    if holds_nothing(event, path) {
        lemma_nothing_held(event, path);
    } else if tells_no_text(event, path) {
        let value = choose|value: LogValue| #[trigger]
            holds(event, path, value) && !(value is Bytes);
        lemma_held(event, path, value);
    }
}

/// A truth value is kept: an event that holds it under the name of a field of truth
/// values has it in its cell.
pub proof fn truth_values_are_kept(
    field: Field,
    events: Seq<Event>,
    today: Seq<char>,
    i: int,
    b: bool,
)
    requires
        field.data_type == ArrowType::Boolean,
        0 <= i < events.len(),
        holds(events[i], field.name@, LogValue::Boolean(b)),
    ensures
        column_of(field, events, today) matches ColumnView::Boolean(cells) && cells.len()
            == events.len() && cells[i] == Some(b),
{
    lemma_held(events[i], field.name@, LogValue::Boolean(b));
}

/// Two events that hold different truth values have different cells.
pub proof fn different_truth_values_differ(
    field: Field,
    events: Seq<Event>,
    today: Seq<char>,
    i: int,
    j: int,
    b: bool,
)
    requires
        field.data_type == ArrowType::Boolean,
        0 <= i < events.len(),
        0 <= j < events.len(),
        holds(events[i], field.name@, LogValue::Boolean(b)),
        holds(events[j], field.name@, LogValue::Boolean(!b)),
    ensures
        column_of(field, events, today) matches ColumnView::Boolean(cells) && cells[i] != cells[j],
{
    truth_values_are_kept(field, events, today, i, b);
    truth_values_are_kept(field, events, today, j, !b);
}

/// Whether the cell at `i` of the column is the integer, where a column of that type
/// can hold it, and is absent where it cannot.
pub open spec fn integer_is_kept(column: ColumnView, i: int, n: int) -> bool {
    match column {
        ColumnView::Int64(cells) => cells[i] == if -0x8000_0000_0000_0000 <= n
            <= 0x7FFF_FFFF_FFFF_FFFF {
            Some(n as i64)
        } else {
            None
        },
        ColumnView::Int32(cells) => cells[i] == if -0x8000_0000 <= n <= 0x7FFF_FFFF {
            Some(n as i32)
        } else {
            None
        },
        ColumnView::Int16(cells) => cells[i] == if -0x8000 <= n <= 0x7FFF {
            Some(n as i16)
        } else {
            None
        },
        ColumnView::Int8(cells) => cells[i] == if -0x80 <= n <= 0x7F {
            Some(n as i8)
        } else {
            None
        },
        ColumnView::UInt64(cells) => cells[i] == if 0 <= n <= 0xFFFF_FFFF_FFFF_FFFF {
            Some(n as u64)
        } else {
            None
        },
        ColumnView::UInt32(cells) => cells[i] == if 0 <= n <= 0xFFFF_FFFF {
            Some(n as u32)
        } else {
            None
        },
        _ => true,
    }
}

/// An integer is kept: an event that holds it under the name of a field of integers
/// has it in its cell, where the type of the field can hold it. In a column of doubles
/// it is the double nearest to it, and in one of points in time the microseconds.
pub proof fn integers_are_kept(
    field: Field,
    events: Seq<Event>,
    today: Seq<char>,
    i: int,
    n: i64,
)
    requires
        0 <= i < events.len(),
        holds(events[i], field.name@, LogValue::Integer(n)),
    ensures
        integer_is_kept(column_of(field, events, today), i, n as int),
        field.data_type == ArrowType::Int64 ==> column_of(field, events, today) is Int64,
        field.data_type == ArrowType::Int32 ==> column_of(field, events, today) is Int32,
        field.data_type == ArrowType::Int16 ==> column_of(field, events, today) is Int16,
        field.data_type == ArrowType::Int8 ==> column_of(field, events, today) is Int8,
        field.data_type == ArrowType::UInt64 ==> column_of(field, events, today) is UInt64,
        field.data_type == ArrowType::UInt32 ==> column_of(field, events, today) is UInt32,
        field.data_type == ArrowType::Float64 ==> (column_of(
            field,
            events,
            today,
        ) matches ColumnView::Float64(cells) && cells[i] == Some(FloatCellView::OfInteger(n))),
        field.data_type == ArrowType::TimestampMicrosecond ==> (column_of(
            field,
            events,
            today,
        ) matches ColumnView::Timestamp(cells) && cells[i] == Some(n)),
{
    lemma_held(events[i], field.name@, LogValue::Integer(n));
}

/// A text that writes an integer is read as that integer in a column of integers, where
/// the type of the field can hold it. The identifier of an event is never read from a
/// text.
pub proof fn written_integers_are_kept(
    field: Field,
    events: Seq<Event>,
    today: Seq<char>,
    i: int,
    bytes: Vec<u8>,
    n: int,
)
    requires
        0 <= i < events.len(),
        holds(events[i], field.name@, LogValue::Bytes(bytes)),
        valid_utf8(bytes@),
        decode_utf8(bytes@) == signed_decimal(n),
        field.name@ != "_vector_id"@,
    ensures
        integer_is_kept(column_of(field, events, today), i, n),
{
    lemma_held(events[i], field.name@, LogValue::Bytes(bytes));
    let text = signed_decimal(n);
    signed_decimal_reads_back(n, n, n);
    if n < 0 {
        assert(text[0] == '-');
        other_characters_write_no_unsigned(text, 0, 0xFFFF_FFFF_FFFF_FFFF);
        other_characters_write_no_unsigned(text, 0, 0xFFFF_FFFF);
    }
}

/// A text that begins with a minus sign writes no integer without a sign.
proof fn other_characters_write_no_unsigned(text: Seq<char>, low: int, high: int)
    requires
        text.len() > 0,
        text[0] == '-',
    ensures
        integer_in(text, false, low, high) is None,
{
    assert(!crate::text::is_digit(text[0]));
}

/// The identifier of an event is never read from a text.
pub proof fn identifiers_are_no_texts(
    field: Field,
    events: Seq<Event>,
    today: Seq<char>,
    i: int,
    bytes: Vec<u8>,
)
    requires
        0 <= i < events.len(),
        field.data_type == ArrowType::Int64,
        field.name@ == "_vector_id"@,
        holds(events[i], field.name@, LogValue::Bytes(bytes)),
    ensures
        column_of(field, events, today) matches ColumnView::Int64(cells) && cells[i] is None,
{
    lemma_held(events[i], field.name@, LogValue::Bytes(bytes));
}

/// A text that writes no integer has no cell in a column of integers.
pub proof fn other_texts_are_no_integers(
    field: Field,
    events: Seq<Event>,
    today: Seq<char>,
    i: int,
    bytes: Vec<u8>,
    k: int,
)
    requires
        0 <= i < events.len(),
        holds(events[i], field.name@, LogValue::Bytes(bytes)),
        !valid_utf8(bytes@) || {
            let text = decode_utf8(bytes@);
            &&& 0 <= k < text.len()
            &&& !('0' <= text[k] <= '9')
            &&& k > 0 || (text[k] != '+' && text[k] != '-')
        },
    ensures
        match column_of(field, events, today) {
            ColumnView::Int64(cells) => cells[i] is None,
            ColumnView::Int32(cells) => cells[i] is None,
            ColumnView::Int16(cells) => cells[i] is None,
            ColumnView::Int8(cells) => cells[i] is None,
            ColumnView::UInt64(cells) => cells[i] is None,
            ColumnView::UInt32(cells) => cells[i] is None,
            ColumnView::Boolean(cells) => cells[i] is None,
            _ => true,
        },
{
    lemma_held(events[i], field.name@, LogValue::Bytes(bytes));
    if valid_utf8(bytes@) {
        let text = decode_utf8(bytes@);
        other_characters_write_no_integer(text, true, i64::MIN as int, i64::MAX as int, k);
        other_characters_write_no_integer(text, true, i32::MIN as int, i32::MAX as int, k);
        other_characters_write_no_integer(text, true, i16::MIN as int, i16::MAX as int, k);
        other_characters_write_no_integer(text, true, i8::MIN as int, i8::MAX as int, k);
        other_characters_write_no_integer(text, false, 0, u64::MAX as int, k);
        other_characters_write_no_integer(text, false, 0, u32::MAX as int, k);
    }
}

/// A double is kept bit by bit in a column of doubles, and a text is the double that it
/// spells. No double is a truth value, an integer or a point in time.
pub proof fn doubles_are_kept(
    field: Field,
    events: Seq<Event>,
    today: Seq<char>,
    i: int,
    bits: u64,
    bytes: Vec<u8>,
)
    requires
        0 <= i < events.len(),
    ensures
        holds(events[i], field.name@, LogValue::Float(bits)) ==> match column_of(
            field,
            events,
            today,
        ) {
            ColumnView::Float64(cells) => cells[i] == Some(FloatCellView::Bits(bits)),
            ColumnView::Int64(cells) => cells[i] is None,
            ColumnView::Int32(cells) => cells[i] is None,
            ColumnView::Int16(cells) => cells[i] is None,
            ColumnView::Int8(cells) => cells[i] is None,
            ColumnView::UInt64(cells) => cells[i] is None,
            ColumnView::UInt32(cells) => cells[i] is None,
            ColumnView::Boolean(cells) => cells[i] is None,
            ColumnView::Timestamp(cells) => cells[i] is None,
            _ => true,
        },
        holds(events[i], field.name@, LogValue::Bytes(bytes)) && valid_utf8(bytes@)
            && field.data_type == ArrowType::Float64 ==> (column_of(
            field,
            events,
            today,
        ) matches ColumnView::Float64(cells) && cells[i] == Some(
            FloatCellView::OfText(decode_utf8(bytes@)),
        )),
        field.data_type == ArrowType::Float64 ==> column_of(field, events, today) is Float64,
{
    if holds(events[i], field.name@, LogValue::Float(bits)) {
        lemma_held(events[i], field.name@, LogValue::Float(bits));
    }
    if holds(events[i], field.name@, LogValue::Bytes(bytes)) {
        lemma_held(events[i], field.name@, LogValue::Bytes(bytes));
    }
}

/// Whether the cell at `i` of a column of numbers, truth values or points in time is
/// absent.
pub open spec fn is_absent(column: ColumnView, i: int) -> bool {
    match column {
        ColumnView::Text(cells) => false,
        ColumnView::Int64(cells) => cells[i] is None,
        ColumnView::Int32(cells) => cells[i] is None,
        ColumnView::Int16(cells) => cells[i] is None,
        ColumnView::Int8(cells) => cells[i] is None,
        ColumnView::UInt64(cells) => cells[i] is None,
        ColumnView::UInt32(cells) => cells[i] is None,
        ColumnView::Float64(cells) => cells[i] is None,
        ColumnView::Boolean(cells) => cells[i] is None,
        ColumnView::Timestamp(cells) => cells[i] is None,
    }
}

/// Only a truth value is a truth value, and a truth value is nothing else: no number and
/// no point in time. Values by name, absent values and values of other types are none of
/// them, and neither are bytes that are no UTF-8.
pub proof fn values_of_other_kinds_are_absent(
    field: Field,
    events: Seq<Event>,
    today: Seq<char>,
    i: int,
    value: LogValue,
)
    requires
        0 <= i < events.len(),
        holds(events[i], field.name@, value),
    ensures
        field.data_type == ArrowType::Boolean && !(value is Boolean) ==> is_absent(
            column_of(field, events, today),
            i,
        ),
        value is Boolean && has_own_cells(field.data_type) && field.data_type != ArrowType::Boolean
            && field.data_type != ArrowType::Utf8 ==> is_absent(column_of(field, events, today), i),
        (value is Object || value is Other || value is Null) && has_own_cells(field.data_type)
            && field.data_type != ArrowType::Utf8 ==> is_absent(column_of(field, events, today), i),
        (value matches LogValue::Bytes(bytes) ==> !valid_utf8(bytes@)) && value is Bytes
            && has_own_cells(field.data_type) && field.data_type != ArrowType::Utf8 ==> is_absent(
            column_of(field, events, today),
            i,
        ),
{
    lemma_held(events[i], field.name@, value);
}

/// A text that is no point in time in either format has no cell in a column of points in
/// time.
pub proof fn other_texts_are_no_times(
    field: Field,
    events: Seq<Event>,
    today: Seq<char>,
    i: int,
    bytes: Vec<u8>,
)
    requires
        0 <= i < events.len(),
        field.data_type == ArrowType::TimestampMicrosecond,
        holds(events[i], field.name@, LogValue::Bytes(bytes)),
        valid_utf8(bytes@),
        rfc3339_micros(decode_utf8(bytes@)) is None,
        pattern_micros(decode_utf8(bytes@), "%Y-%m-%d %H:%M:%S"@) is None,
    ensures
        column_of(field, events, today) matches ColumnView::Timestamp(cells) && cells[i] is None,
{
    lemma_held(events[i], field.name@, LogValue::Bytes(bytes));
}

/// A point in time that is written in the format of RFC 3339, or else as a date and a
/// time of day, is kept as its microseconds.
pub proof fn written_times_are_kept(
    field: Field,
    events: Seq<Event>,
    today: Seq<char>,
    i: int,
    bytes: Vec<u8>,
    us: i64,
)
    requires
        0 <= i < events.len(),
        field.data_type == ArrowType::TimestampMicrosecond,
        holds(events[i], field.name@, LogValue::Bytes(bytes)),
        valid_utf8(bytes@),
        rfc3339_micros(decode_utf8(bytes@)) == Some(us) || (rfc3339_micros(
            decode_utf8(bytes@),
        ) is None && pattern_micros(decode_utf8(bytes@), "%Y-%m-%d %H:%M:%S"@) == Some(us)),
    ensures
        column_of(field, events, today) matches ColumnView::Timestamp(cells) && cells[i] == Some(
            us,
        ),
{
    lemma_held(events[i], field.name@, LogValue::Bytes(bytes));
}

/// What is displayed is kept in a column of texts, without double quotes around it, and
/// so it is in a column of any type that has no cells of its own. What is displayed
/// without quotes stays as it is.
pub proof fn displayed_values_are_kept(
    field: Field,
    events: Seq<Event>,
    today: Seq<char>,
    i: int,
    display: Seq<char>,
)
    requires
        0 <= i < events.len(),
        displays(events[i], field.name@, display)
            || displays(events[i], field.name@, seq!['"'] + display + seq!['"']),
        is_unquoted(display),
        field.data_type == ArrowType::Utf8 ==> !names_origin(field.name@) && field.name@ != "date"@,
    ensures
        match field.data_type {
            ArrowType::Boolean | ArrowType::Int8 | ArrowType::Int16 | ArrowType::Int32
                | ArrowType::Int64 | ArrowType::UInt32 | ArrowType::UInt64 | ArrowType::Float64
                | ArrowType::TimestampMicrosecond => true,
            _ => column_of(field, events, today) matches ColumnView::Text(cells) && cells.len()
                == events.len() && cells[i] == Some(display),
        },
{
    unquoting_takes_off_quotes(display);
    if displays(events[i], field.name@, display) {
        lemma_displayed(events[i], field.name@, display);
    } else {
        lemma_displayed(events[i], field.name@, seq!['"'] + display + seq!['"']);
    }
}

/// Whether the leaf at `k` is the first whose path is the name but for upper and lower
/// case.
pub open spec fn is_first_leaf(leaves: Seq<LogEntry>, name: Seq<char>, k: int) -> bool {
    &&& 0 <= k < leaves.len()
    &&& lowercase(leaves[k].path@) == lowercase(name)
    &&& forall|j: int| 0 <= j < k ==> lowercase((#[trigger] leaves[j]).path@) != lowercase(name)
}

proof fn lemma_first_leaf(leaves: Seq<LogEntry>, name: Seq<char>, k: int)
    ensures
        is_first_leaf(leaves, name, k) ==> leaf_named(leaves, name) == Some(leaves[k]),
        (forall|j: int|
            0 <= j < leaves.len() ==> lowercase((#[trigger] leaves[j]).path@) != lowercase(name))
            ==> leaf_named(leaves, name) is None,
    decreases leaves.len(),
{
    if leaves.len() > 0 {
        let rest = leaves.skip(1);
        if is_first_leaf(leaves, name, k) && k > 0 {
            assert(lowercase(leaves[0].path@) != lowercase(name));
            assert forall|j: int| 0 <= j < k - 1 implies lowercase((#[trigger] rest[j]).path@)
                != lowercase(name) by {
                assert(rest[j] == leaves[j + 1]);
            }
            assert(is_first_leaf(rest, name, k - 1));
        }
        if forall|j: int|
            0 <= j < leaves.len() ==> lowercase((#[trigger] leaves[j]).path@) != lowercase(name) {
            assert(lowercase(leaves[0].path@) != lowercase(name));
            assert forall|j: int| 0 <= j < rest.len() implies lowercase((#[trigger] rest[j]).path@)
                != lowercase(name) by {
                assert(rest[j] == leaves[j + 1]);
            }
        }
        lemma_first_leaf(rest, name, k - 1);
    }
}

/// A column of texts is filled from a field whose name differs from that of the column
/// in upper and lower case only, where there is none of the name itself.
pub proof fn case_does_not_matter(
    field: Field,
    events: Seq<Event>,
    today: Seq<char>,
    i: int,
    k: int,
)
    requires
        0 <= i < events.len(),
        field.data_type == ArrowType::Utf8,
        !names_origin(field.name@),
        field.name@ != "date"@,
        holds_nothing(events[i], field.name@),
        events[i] matches Event::Log(log) && is_first_leaf(log.leaves@, field.name@, k)
            && is_unquoted(log.leaves@[k].display@),
    ensures
        column_of(field, events, today) matches ColumnView::Text(cells) && cells[i] == Some(
            events[i]->Log_0.leaves@[k].display@,
        ),
{
    lemma_nothing_held(events[i], field.name@);
    let log = events[i]->Log_0;
    lemma_first_leaf(log.leaves@, field.name@, k);
    unquoting_takes_off_quotes(log.leaves@[k].display@);
}

/// The fields that tell where an event comes from are kept as they are written.
pub proof fn origins_are_kept(
    field: Field,
    events: Seq<Event>,
    today: Seq<char>,
    i: int,
    bytes: Vec<u8>,
)
    requires
        0 <= i < events.len(),
        field.data_type == ArrowType::Utf8,
        names_origin(field.name@),
        holds(events[i], field.name@, LogValue::Bytes(bytes)),
        valid_utf8(bytes@),
        is_unquoted(decode_utf8(bytes@)),
    ensures
        column_of(field, events, today) matches ColumnView::Text(cells) && cells[i] == Some(
            decode_utf8(bytes@),
        ),
{
    lemma_held(events[i], field.name@, LogValue::Bytes(bytes));
    unquoting_takes_off_quotes(decode_utf8(bytes@));
}

/// Where an event comes from is told by texts: what is no text is absent.
pub proof fn origins_are_texts(
    field: Field,
    events: Seq<Event>,
    today: Seq<char>,
    i: int,
    value: LogValue,
)
    requires
        0 <= i < events.len(),
        field.data_type == ArrowType::Utf8,
        names_origin(field.name@),
        holds(events[i], field.name@, value),
        !(value is Bytes),
    ensures
        column_of(field, events, today) matches ColumnView::Text(cells) && cells[i] is None,
{
    lemma_held(events[i], field.name@, value);
}

proof fn lemma_first_width(text: Seq<char>)
    requires
        text.len() > 0,
    ensures
        byte_length(text) == char_width(text[0]) + byte_length(text.skip(1)),
    decreases text.len(),
{
    if text.len() > 1 {
        let less = text.drop_last();
        lemma_first_width(less);
        assert(text.skip(1).drop_last() =~= less.skip(1));
        assert(text.skip(1).last() == text.last());
    } else {
        assert(text.drop_last() =~= Seq::<char>::empty());
        assert(text.skip(1) =~= Seq::<char>::empty());
    }
}

proof fn lemma_scalar_width(c: char)
    ensures
        encode_scalar(c as u32).len() == char_width(c),
{
}

/// A text is as long as its encoding in UTF-8.
pub proof fn texts_are_as_long_as_their_bytes(text: Seq<char>)
    ensures
        byte_length(text) == encode_utf8(text).len(),
    decreases text.len(),
{
    if text.len() > 0 {
        lemma_first_width(text);
        lemma_scalar_width(text[0]);
        assert(text.drop_first() =~= text.skip(1));
        texts_are_as_long_as_their_bytes(text.skip(1));
    }
}

/// The date of an event is the part of its timestamp that takes ten bytes in UTF-8, of
/// whatever characters.
pub proof fn dates_take_ten_bytes(
    field: Field,
    events: Seq<Event>,
    today: Seq<char>,
    i: int,
    bytes: Vec<u8>,
    k: int,
)
    requires
        0 <= i < events.len(),
        events[i] is Log,
        field.data_type == ArrowType::Utf8,
        field.name@ == "date"@,
        holds(events[i], "_vector_timestamp"@, LogValue::Bytes(bytes)),
        valid_utf8(bytes@),
        0 <= k <= decode_utf8(bytes@).len(),
        encode_utf8(decode_utf8(bytes@).take(k)).len() == 10,
        is_unquoted(decode_utf8(bytes@).take(k)),
    ensures
        column_of(field, events, today) matches ColumnView::Text(cells) && cells[i] == Some(
            decode_utf8(bytes@).take(k),
        ),
{
    let text = decode_utf8(bytes@);
    lemma_date_is_no_origin();
    lemma_held(events[i], "_vector_timestamp"@, LogValue::Bytes(bytes));
    texts_are_as_long_as_their_bytes(text.take(k));
    lemma_cut(text, k, 10);
    unquoting_takes_off_quotes(text.take(k));
}

/// The names of the origin are not the date.
proof fn lemma_date_is_no_origin()
    ensures
        !names_origin("date"@),
{
    reveal_strlit("date");
    reveal_strlit("_vector_table");
    reveal_strlit("_vector_source_table");
    reveal_strlit("_vector_source_schema");
    reveal_strlit("_vector_instance");
    reveal_strlit("_vector_timestamp");
    assert("date"@.len() == 4);
}

/// The date of an event is the first ten characters of its timestamp, and the current
/// date where it has none, or one of fewer characters.
pub proof fn dates_are_those_of_timestamps(
    field: Field,
    events: Seq<Event>,
    today: Seq<char>,
    i: int,
    bytes: Vec<u8>,
)
    requires
        0 <= i < events.len(),
        events[i] is Log,
        field.data_type == ArrowType::Utf8,
        field.name@ == "date"@,
        is_unquoted(today),
    ensures
        tells_no_text(events[i], "_vector_timestamp"@) ==> (column_of(
            field,
            events,
            today,
        ) matches ColumnView::Text(cells) && cells[i] == Some(today)),
        holds(events[i], "_vector_timestamp"@, LogValue::Bytes(bytes)) && valid_utf8(bytes@)
            && is_ascii_chars(decode_utf8(bytes@)) && decode_utf8(bytes@).len() < 10 ==> (column_of(
            field,
            events,
            today,
        ) matches ColumnView::Text(cells) && cells[i] == Some(today)),
        holds(events[i], "_vector_timestamp"@, LogValue::Bytes(bytes)) && valid_utf8(bytes@)
            && is_ascii_chars(decode_utf8(bytes@)) && decode_utf8(bytes@).len() >= 10
            && is_unquoted(decode_utf8(bytes@).take(10)) ==> (column_of(
            field,
            events,
            today,
        ) matches ColumnView::Text(cells) && cells[i] == Some(decode_utf8(bytes@).take(10))),
{
    lemma_date_is_no_origin();
    unquoting_takes_off_quotes(today);
    lemma_no_text(events[i], "_vector_timestamp"@);
    if holds(events[i], "_vector_timestamp"@, LogValue::Bytes(bytes)) && valid_utf8(bytes@)
        && is_ascii_chars(decode_utf8(bytes@)) {
        lemma_held(events[i], "_vector_timestamp"@, LogValue::Bytes(bytes));
        let text = decode_utf8(bytes@);
        lemma_ascii_bytes(text);
        if text.len() >= 10 {
            let start = text.take(10);
            assert(is_ascii_chars(start)) by {
                assert forall|j: int| 0 <= j < start.len() implies '\0' <= #[trigger] start[j]
                    <= '\u{7f}' by {
                    assert(start[j] == text[j]);
                }
            }
            lemma_ascii_bytes(start);
            lemma_cut(text, 10, 10);
            unquoting_takes_off_quotes(start);
        }
    }
}

/// What an event does not hold is absent in every column; so is everything of an event
/// that is no log event.
pub proof fn absent_values_are_absent(field: Field, events: Seq<Event>, today: Seq<char>, i: int)
    requires
        0 <= i < events.len(),
        holds_nothing(events[i], field.name@),
        events[i] matches Event::Log(log) ==> field.name@ != "date"@ && forall|k: int|
            0 <= k < log.leaves@.len() ==> lowercase((#[trigger] log.leaves@[k]).path@)
                != lowercase(field.name@),
    ensures
        match column_of(field, events, today) {
            ColumnView::Text(cells) => cells[i] is None,
            ColumnView::Int64(cells) => cells[i] is None,
            ColumnView::Int32(cells) => cells[i] is None,
            ColumnView::Int16(cells) => cells[i] is None,
            ColumnView::Int8(cells) => cells[i] is None,
            ColumnView::UInt64(cells) => cells[i] is None,
            ColumnView::UInt32(cells) => cells[i] is None,
            ColumnView::Float64(cells) => cells[i] is None,
            ColumnView::Boolean(cells) => cells[i] is None,
            ColumnView::Timestamp(cells) => cells[i] is None,
        },
{
    lemma_nothing_held(events[i], field.name@);
    if let Event::Log(log) = events[i] {
        lemma_first_leaf(log.leaves@, field.name@, 0);
    }
}

/// Whether a column holds cells of the type.
pub open spec fn has_cells_of(column: ColumnView, data_type: ArrowType) -> bool {
    match data_type {
        ArrowType::Utf8 => column is Text,
        ArrowType::Int64 => column is Int64,
        ArrowType::Int32 => column is Int32,
        ArrowType::Int16 => column is Int16,
        ArrowType::Int8 => column is Int8,
        ArrowType::UInt64 => column is UInt64,
        ArrowType::UInt32 => column is UInt32,
        ArrowType::Float64 => column is Float64,
        ArrowType::Boolean => column is Boolean,
        ArrowType::TimestampMicrosecond => column is Timestamp,
        _ => false,
    }
}

/// Whether a type has cells of its own.
pub open spec fn has_own_cells(data_type: ArrowType) -> bool {
    match data_type {
        ArrowType::Utf8 | ArrowType::Int64 | ArrowType::Int32 | ArrowType::Int16 | ArrowType::Int8
            | ArrowType::UInt64 | ArrowType::UInt32 | ArrowType::Float64 | ArrowType::Boolean
            | ArrowType::TimestampMicrosecond => true,
        _ => false,
    }
}

/// A column of texts, integers, doubles, truth values or points in time always keeps
/// its type; a column of any other type holds texts.
pub proof fn columns_keep_their_type(field: Field, events: Seq<Event>, today: Seq<char>)
    ensures
        has_own_cells(field.data_type) ==> has_cells_of(
            column_of(field, events, today),
            field.data_type,
        ),
        !has_own_cells(field.data_type) ==> column_of(field, events, today) is Text,
{
}

/// Whether no cell of a column is absent.
pub open spec fn is_full(column: ColumnView) -> bool {
    match column {
        ColumnView::Text(cells) => forall|k: int|
            0 <= k < cells.len() ==> (#[trigger] cells[k]) is Some,
        ColumnView::Int64(cells) => forall|k: int|
            0 <= k < cells.len() ==> (#[trigger] cells[k]) is Some,
        ColumnView::Int32(cells) => forall|k: int|
            0 <= k < cells.len() ==> (#[trigger] cells[k]) is Some,
        ColumnView::Int16(cells) => forall|k: int|
            0 <= k < cells.len() ==> (#[trigger] cells[k]) is Some,
        ColumnView::Int8(cells) => forall|k: int|
            0 <= k < cells.len() ==> (#[trigger] cells[k]) is Some,
        ColumnView::UInt64(cells) => forall|k: int|
            0 <= k < cells.len() ==> (#[trigger] cells[k]) is Some,
        ColumnView::UInt32(cells) => forall|k: int|
            0 <= k < cells.len() ==> (#[trigger] cells[k]) is Some,
        ColumnView::Float64(cells) => forall|k: int|
            0 <= k < cells.len() ==> (#[trigger] cells[k]) is Some,
        ColumnView::Boolean(cells) => forall|k: int|
            0 <= k < cells.len() ==> (#[trigger] cells[k]) is Some,
        ColumnView::Timestamp(cells) => forall|k: int|
            0 <= k < cells.len() ==> (#[trigger] cells[k]) is Some,
    }
}

/// A batch is made of columns of the types of their fields, where those that must not
/// be null are full, and of no others; and it holds those fields and columns.
pub proof fn batches_are_made_of_fitting_columns(
    r: Result<RecordBatch, BatchError>,
    fields: Seq<Field>,
    columns: Seq<ColumnView>,
)
    requires
        is_made(r, fields, columns),
        fields.len() == columns.len(),
    ensures
        r is Ok <==> {
            &&& fields.len() > 0
            &&& forall|i: int|
                #![trigger fields[i]]
                0 <= i < fields.len() ==> {
                    &&& has_cells_of(columns[i], fields[i].data_type)
                    &&& fields[i].nullable || is_full(columns[i])
                }
        },
        r matches Ok(batch) ==> batch.fields@ == fields && batch.columns@.len() == columns.len()
            && forall|i: int|
            0 <= i < columns.len() ==> (#[trigger] batch.columns@[i])@ == columns[i],
{
    assert forall|i: int| 0 <= i < fields.len() implies (is_full(#[trigger] columns[i])
        == !columns[i].lacks_a_cell()) by {
        lemma_full_columns(columns[i]);
    }
    assert forall|i: int| 0 <= i < fields.len() implies (has_cells_of(
        #[trigger] columns[i],
        fields[i].data_type,
    ) == (columns[i].data_type() == fields[i].data_type)) by {}
    if let Ok(batch) = r {
        assert forall|i: int| 0 <= i < columns.len() implies (#[trigger] batch.columns@[i])@
            == columns[i] by {
            assert(crate::deltalake::batch::column_views(batch.columns@)[i] == columns[i]);
        }
    }
    if let Err(BatchError::MissingValue(name)) = r {
        let i = choose|i: int|
            0 <= i < fields.len() && name@ == (#[trigger] fields[i]).name@
                && crate::deltalake::batch::misses_a_value(fields[i], columns[i]);
        assert(!is_full(columns[i]));
    }
    if let Err(BatchError::TypeMismatch { expected, found, index }) = r {
        assert(!has_cells_of(columns[index as int], fields[index as int].data_type));
    }
}

proof fn lemma_full_columns(column: ColumnView)
    ensures
        is_full(column) == !column.lacks_a_cell(),
{
}

/// Of the columns that must not lack a value, the first that does is named.
pub proof fn first_missing_value_is_told(
    r: Result<RecordBatch, BatchError>,
    fields: Seq<Field>,
    columns: Seq<ColumnView>,
    i: int,
)
    requires
        is_made(r, fields, columns),
        fields.len() == columns.len(),
        0 <= i < fields.len(),
        !fields[i].nullable,
        !is_full(columns[i]),
        forall|j: int|
            0 <= j < i ==> (#[trigger] fields[j]).nullable || is_full(columns[j]),
    ensures
        r matches Err(BatchError::MissingValue(name)) && name@ == fields[i].name@,
{
    lemma_full_columns(columns[i]);
    assert(crate::deltalake::batch::misses_a_value(fields[i], columns[i]));
    assert forall|j: int| 0 <= j < i implies !crate::deltalake::batch::misses_a_value(
        #[trigger] fields[j],
        columns[j],
    ) by {
        lemma_full_columns(columns[j]);
    }
    if let Err(BatchError::MissingValue(name)) = r {
        let k = choose|k: int|
            0 <= k < fields.len() && name@ == (#[trigger] fields[k]).name@
                && crate::deltalake::batch::misses_a_value(fields[k], columns[k])
                && crate::deltalake::batch::first_are_filled(fields, columns, k);
        if k < i {
            assert(!crate::deltalake::batch::misses_a_value(fields[k], columns[k]));
        } else if i < k {
            assert(!crate::deltalake::batch::misses_a_value(fields[i], columns[i]));
        }
    }
}

/// Where no value is missing, the first column that does not have the type of its field
/// is told, by its place and both types.
pub proof fn first_mismatch_is_told(
    r: Result<RecordBatch, BatchError>,
    fields: Seq<Field>,
    columns: Seq<ColumnView>,
    i: int,
)
    requires
        is_made(r, fields, columns),
        fields.len() == columns.len(),
        0 <= i < fields.len(),
        forall|j: int|
            0 <= j < fields.len() ==> (#[trigger] fields[j]).nullable || is_full(columns[j]),
        !has_cells_of(columns[i], fields[i].data_type),
        forall|j: int|
            0 <= j < i ==> has_cells_of(columns[j], (#[trigger] fields[j]).data_type),
    ensures
        r matches Err(BatchError::TypeMismatch { expected, found, index }) && index == i && expected
            == fields[i].data_type && has_cells_of(columns[i], found),
{
    assert forall|j: int| 0 <= j < fields.len() implies !crate::deltalake::batch::misses_a_value(
        #[trigger] fields[j],
        columns[j],
    ) by {
        lemma_full_columns(columns[j]);
    }
    if let Err(BatchError::MissingValue(name)) = r {
        let k = choose|k: int|
            0 <= k < fields.len() && name@ == (#[trigger] fields[k]).name@
                && crate::deltalake::batch::misses_a_value(fields[k], columns[k]);
        assert(!crate::deltalake::batch::misses_a_value(fields[k], columns[k]));
    }
    assert(columns[i].data_type() != fields[i].data_type);
    if let Ok(batch) = r {
        assert(crate::deltalake::batch::keeps_type(fields[i], columns[i]));
    }
    if let Err(BatchError::TypeMismatch { expected, found, index }) = r {
        if index < i {
            assert(has_cells_of(columns[index as int], fields[index as int].data_type));
        } else if i < index {
            assert(crate::deltalake::batch::keeps_type(fields[i], columns[i]));
        }
    }
}

/// A timestamp can be cut down to a date exactly if it takes fewer than ten bytes, or
/// its tenth byte is the last one of a character.
pub proof fn timestamps_can_be_cut_between_characters(text: Seq<char>)
    ensures
        has_date(Some(text)) <==> encode_utf8(text).len() < 10 || exists|k: int|
            0 <= k <= text.len() && encode_utf8(#[trigger] text.take(k)).len() == 10,
        has_date(None),
{
    texts_are_as_long_as_their_bytes(text);
    assert forall|k: int| 0 <= k <= text.len() implies byte_length(#[trigger] text.take(k))
        == encode_utf8(text.take(k)).len() by {
        texts_are_as_long_as_their_bytes(text.take(k));
    }
}

/// The column that is made for a field of truth values has the truth value of each event
/// in its cell.
pub proof fn made_columns_keep_truth_values(
    field: &Field,
    events: &Vec<Event>,
    today: &str,
    column: Column,
    i: int,
    b: bool,
)
    requires
        call_ensures(create_column, (field, events, today), column),
        field.data_type == ArrowType::Boolean,
        0 <= i < events@.len(),
        holds(events@[i], field.name@, LogValue::Boolean(b)),
    ensures
        column matches Column::Boolean(cells) && cells@.len() == events@.len() && cells@[i] == Some(
            b,
        ),
{
    truth_values_are_kept(*field, events@, today@, i, b);
}

} // verus!
