//! The columns of a batch: for each event what the table holds in a column.
use vstd::prelude::*;
use vstd::utf8::{decode_utf8, valid_utf8};
use crate::bytes::utf8_text;
use crate::clock::{
    parse_pattern, parse_rfc3339, parts_are_determined, pattern_micros, rfc3339_micros,
    rfc3339_text, TimeParts, DATE_PATTERN, TIME_PATTERN,
};
use crate::deltalake::event::{Event, LogEntry, LogEvent, LogValue};
use crate::deltalake::schema::{ArrowType, Field};
use crate::text::{
    chars_of, decimal, integer_in, lemma_padded_length, lowercase, padded, parse_integer, same,
    take_chars, to_lowercase, trim_quotes, unquoted,
};

verus! {

/// A cell of a column of doubles.
#[derive(Debug, PartialEq)]
pub enum FloatCell {
    /// The double with these bits
    Bits(u64),
    /// The double nearest to an integer
    OfInteger(i64),
    /// The double that a text spells; absent where it spells none
    OfText(String),
}

/// What a cell of a column of doubles holds.
pub enum FloatCellView {
    Bits(u64),
    OfInteger(i64),
    OfText(Seq<char>),
}

impl View for FloatCell {
    type V = FloatCellView;

    open spec fn view(&self) -> FloatCellView {
        match self {
            FloatCell::Bits(bits) => FloatCellView::Bits(*bits),
            FloatCell::OfInteger(i) => FloatCellView::OfInteger(*i),
            FloatCell::OfText(s) => FloatCellView::OfText(s@),
        }
    }
}

/// The cells of a column, one for each event. An absent cell is `None`.
#[derive(Debug, PartialEq)]
pub enum Column {
    Text(Vec<Option<String>>),
    Int64(Vec<Option<i64>>),
    Int32(Vec<Option<i32>>),
    Int16(Vec<Option<i16>>),
    Int8(Vec<Option<i8>>),
    UInt64(Vec<Option<u64>>),
    UInt32(Vec<Option<u32>>),
    Float64(Vec<Option<FloatCell>>),
    Boolean(Vec<Option<bool>>),
    /// Microseconds since the beginning of the year 1970
    Timestamp(Vec<Option<i64>>),
}

/// What the cells of a column hold.
pub enum ColumnView {
    Text(Seq<Option<Seq<char>>>),
    Int64(Seq<Option<i64>>),
    Int32(Seq<Option<i32>>),
    Int16(Seq<Option<i16>>),
    Int8(Seq<Option<i8>>),
    UInt64(Seq<Option<u64>>),
    UInt32(Seq<Option<u32>>),
    Float64(Seq<Option<FloatCellView>>),
    Boolean(Seq<Option<bool>>),
    Timestamp(Seq<Option<i64>>),
}

/// What an optional text holds.
pub open spec fn text_view(text: Option<String>) -> Option<Seq<char>> {
    match text {
        Some(s) => Some(s@),
        None => None,
    }
}

/// What an optional double holds.
pub open spec fn float_view(cell: Option<FloatCell>) -> Option<FloatCellView> {
    match cell {
        Some(c) => Some(c@),
        None => None,
    }
}

impl View for Column {
    type V = ColumnView;

    open spec fn view(&self) -> ColumnView {
        match self {
            Column::Text(v) => ColumnView::Text(v@.map_values(|c: Option<String>| text_view(c))),
            Column::Int64(v) => ColumnView::Int64(v@),
            Column::Int32(v) => ColumnView::Int32(v@),
            Column::Int16(v) => ColumnView::Int16(v@),
            Column::Int8(v) => ColumnView::Int8(v@),
            Column::UInt64(v) => ColumnView::UInt64(v@),
            Column::UInt32(v) => ColumnView::UInt32(v@),
            Column::Float64(v) => ColumnView::Float64(
                v@.map_values(|c: Option<FloatCell>| float_view(c)),
            ),
            Column::Boolean(v) => ColumnView::Boolean(v@),
            Column::Timestamp(v) => ColumnView::Timestamp(v@),
        }
    }
}

/// How many bytes a character takes in UTF-8.
pub open spec fn char_width(c: char) -> nat {
    if (c as int) < 0x80 {
        1
    } else if (c as int) < 0x800 {
        2
    } else if (c as int) < 0x1_0000 {
        3
    } else {
        4
    }
}

/// How many bytes a text takes in UTF-8.
pub open spec fn byte_length(text: Seq<char>) -> nat
    decreases text.len(),
{
    if text.len() == 0 {
        0
    } else {
        byte_length(text.drop_last()) + char_width(text.last())
    }
}

/// Whether a text has a part, from its beginning on, that takes exactly `n` bytes.
pub open spec fn can_be_cut(text: Seq<char>, n: nat) -> bool {
    exists|k: int| 0 <= k <= text.len() && byte_length(#[trigger] text.take(k)) == n
}

/// The part of a text, from its beginning on, that takes exactly `n` bytes.
pub open spec fn byte_prefix(text: Seq<char>, n: nat) -> Seq<char> {
    text.take(choose|k: int| 0 <= k <= text.len() && byte_length(#[trigger] text.take(k)) == n)
}

/// The date of an event, by its timestamp: the first ten bytes of the timestamp,
/// or `today` where there are fewer or none.
pub open spec fn date_of(timestamp: Option<Seq<char>>, today: Seq<char>) -> Seq<char> {
    match timestamp {
        Some(text) => if byte_length(text) >= 10 {
            byte_prefix(text, 10)
        } else {
            today
        },
        None => today,
    }
}

/// Whether a timestamp can be cut down to a date: its tenth byte is the last one
/// of a character.
pub open spec fn has_date(timestamp: Option<Seq<char>>) -> bool {
    match timestamp {
        Some(text) => byte_length(text) >= 10 ==> can_be_cut(text, 10),
        None => true,
    }
}

/// The first of `leaves` whose path is `name` but for upper and lower case.
pub open spec fn leaf_named(leaves: Seq<LogEntry>, name: Seq<char>) -> Option<LogEntry>
    decreases leaves.len(),
{
    if leaves.len() == 0 {
        None
    } else if lowercase(leaves[0].path@) == lowercase(name) {
        Some(leaves[0])
    } else {
        leaf_named(leaves.skip(1), name)
    }
}

/// Whether a column of texts is taken from a field that tells where an event comes
/// from.
pub open spec fn is_origin_field(name: Seq<char>) -> bool {
    ||| name == "_vector_table"@
    ||| name == "_vector_source_table"@
    ||| name == "_vector_source_schema"@
    ||| name == "_vector_instance"@
    ||| name == "_vector_timestamp"@
}

/// What a log event gives for a column of texts, before double quotes around it
/// are taken off.
pub open spec fn raw_text(log: LogEvent, name: Seq<char>, today: Seq<char>) -> Option<Seq<char>> {
    if is_origin_field(name) {
        log.text_at(name)
    } else if name == "date"@ {
        Some(date_of(log.text_at("_vector_timestamp"@), today))
    } else {
        match log.at(name) {
            Some(entry) => Some(entry.display@),
            None => match leaf_named(log.leaves@, name) {
                Some(entry) => Some(entry.display@),
                None => None,
            },
        }
    }
}

/// The cell of an event in a column of texts.
pub open spec fn text_cell(event: Event, name: Seq<char>, today: Seq<char>) -> Option<Seq<char>> {
    match event {
        Event::Log(log) => match raw_text(log, name, today) {
            Some(s) => Some(unquoted(s)),
            None => None,
        },
        Event::Other => None,
    }
}

/// The cell of an event in a column whose type has no cells of its own: the
/// displayed value.
pub open spec fn display_cell(event: Event, name: Seq<char>) -> Option<Seq<char>> {
    match event {
        Event::Log(log) => match log.at(name) {
            Some(entry) => Some(unquoted(entry.display@)),
            None => None,
        },
        Event::Other => None,
    }
}

/// What is found under a name in an event.
pub open spec fn value_in(event: Event, name: Seq<char>) -> Option<LogValue> {
    match event {
        Event::Log(log) => match log.at(name) {
            Some(entry) => Some(entry.value),
            None => None,
        },
        Event::Other => None,
    }
}

/// The integer between `low` and `high` that a value is, or that its text writes.
pub open spec fn integer_of(value: LogValue, signed: bool, low: int, high: int) -> Option<int> {
    match value {
        LogValue::Integer(i) => if low <= i <= high {
            Some(i as int)
        } else {
            None
        },
        LogValue::Bytes(bytes) => if valid_utf8(bytes@) {
            integer_in(decode_utf8(bytes@), signed, low, high)
        } else {
            None
        },
        _ => None,
    }
}

/// The cell of an event in a column of integers between `low` and `high`.
pub open spec fn integer_cell(
    event: Event,
    name: Seq<char>,
    signed: bool,
    low: int,
    high: int,
) -> Option<int> {
    match value_in(event, name) {
        Some(value) => integer_of(value, signed, low, high),
        None => None,
    }
}

/// The cell of an event in a column of integers of 64 bits. The identifier of an
/// event is never read from a text.
pub open spec fn int64_cell(event: Event, name: Seq<char>) -> Option<i64> {
    if name == "_vector_id"@ {
        match value_in(event, name) {
            Some(LogValue::Integer(i)) => Some(i),
            _ => None,
        }
    } else {
        match integer_cell(event, name, true, i64::MIN as int, i64::MAX as int) {
            Some(n) => Some(n as i64),
            None => None,
        }
    }
}

/// The cell of an event in a column of doubles.
pub open spec fn float_cell(event: Event, name: Seq<char>) -> Option<FloatCellView> {
    match value_in(event, name) {
        Some(LogValue::Float(bits)) => Some(FloatCellView::Bits(bits)),
        Some(LogValue::Integer(i)) => Some(FloatCellView::OfInteger(i)),
        Some(LogValue::Bytes(bytes)) => if valid_utf8(bytes@) {
            Some(FloatCellView::OfText(decode_utf8(bytes@)))
        } else {
            None
        },
        _ => None,
    }
}

/// The cell of an event in a column of truth values.
pub open spec fn boolean_cell(event: Event, name: Seq<char>) -> Option<bool> {
    match value_in(event, name) {
        Some(LogValue::Boolean(b)) => Some(b),
        _ => None,
    }
}

/// The cell of an event in a column of points in time.
pub open spec fn timestamp_cell(event: Event, name: Seq<char>) -> Option<i64> {
    match value_in(event, name) {
        Some(LogValue::Integer(us)) => Some(us),
        Some(LogValue::Bytes(bytes)) => if valid_utf8(bytes@) {
            match rfc3339_micros(decode_utf8(bytes@)) {
                Some(us) => Some(us),
                None => pattern_micros(decode_utf8(bytes@), TIME_PATTERN@),
            }
        } else {
            None
        },
        _ => None,
    }
}

/// The cells of the column for a field.
pub open spec fn column_of(field: Field, events: Seq<Event>, today: Seq<char>) -> ColumnView {
    let name = field.name@;
    match field.data_type {
        ArrowType::Utf8 => ColumnView::Text(
            events.map_values(|e: Event| text_cell(e, name, today)),
        ),
        ArrowType::Int64 => ColumnView::Int64(events.map_values(|e: Event| int64_cell(e, name))),
        ArrowType::Int32 => ColumnView::Int32(
            events.map_values(
                |e: Event|
                    match integer_cell(e, name, true, i32::MIN as int, i32::MAX as int) {
                        Some(n) => Some(n as i32),
                        None => None,
                    },
            ),
        ),
        ArrowType::Int16 => ColumnView::Int16(
            events.map_values(
                |e: Event|
                    match integer_cell(e, name, true, i16::MIN as int, i16::MAX as int) {
                        Some(n) => Some(n as i16),
                        None => None,
                    },
            ),
        ),
        ArrowType::Int8 => ColumnView::Int8(
            events.map_values(
                |e: Event|
                    match integer_cell(e, name, true, i8::MIN as int, i8::MAX as int) {
                        Some(n) => Some(n as i8),
                        None => None,
                    },
            ),
        ),
        ArrowType::UInt64 => ColumnView::UInt64(
            events.map_values(
                |e: Event|
                    match integer_cell(e, name, false, 0, u64::MAX as int) {
                        Some(n) => Some(n as u64),
                        None => None,
                    },
            ),
        ),
        ArrowType::UInt32 => ColumnView::UInt32(
            events.map_values(
                |e: Event|
                    match integer_cell(e, name, false, 0, u32::MAX as int) {
                        Some(n) => Some(n as u32),
                        None => None,
                    },
            ),
        ),
        ArrowType::Float64 => ColumnView::Float64(
            events.map_values(|e: Event| float_cell(e, name)),
        ),
        ArrowType::Boolean => ColumnView::Boolean(
            events.map_values(|e: Event| boolean_cell(e, name)),
        ),
        ArrowType::TimestampMicrosecond => ColumnView::Timestamp(
            events.map_values(|e: Event| timestamp_cell(e, name)),
        ),
        _ => ColumnView::Text(events.map_values(|e: Event| display_cell(e, name))),
    }
}

/// More characters take more bytes.
proof fn lemma_bytes_grow(text: Seq<char>, j: int, k: int)
    requires
        0 <= j < k <= text.len(),
    ensures
        byte_length(text.take(j)) < byte_length(text.take(k)),
    decreases k,
{
    assert(text.take(k).drop_last() =~= text.take(k - 1));
    if j < k - 1 {
        lemma_bytes_grow(text, j, k - 1);
    }
}

/// A part that takes so many bytes is the part that takes so many bytes.
pub proof fn lemma_cut(text: Seq<char>, k: int, n: nat)
    requires
        0 <= k <= text.len(),
        byte_length(text.take(k)) == n,
    ensures
        can_be_cut(text, n),
        byte_prefix(text, n) == text.take(k),
        byte_length(text) >= n,
{
    let chosen = choose|c: int| 0 <= c <= text.len() && byte_length(#[trigger] text.take(c)) == n;
    if chosen < k {
        lemma_bytes_grow(text, chosen, k);
    } else if k < chosen {
        lemma_bytes_grow(text, k, chosen);
    }
    assert(text.take(text.len() as int) =~= text);
    if k < text.len() {
        lemma_bytes_grow(text, k, text.len() as int);
    }
}

/// A text of ASCII characters takes one byte for each.
pub proof fn lemma_ascii_bytes(text: Seq<char>)
    requires
        vstd::utf8::is_ascii_chars(text),
    ensures
        byte_length(text) == text.len(),
    decreases text.len(),
{
    if text.len() > 0 {
        lemma_ascii_bytes(text.drop_last());
    }
}

/// Where the first ten bytes of a text end.
enum TenBytes {
    /// There are fewer
    TooFew,
    /// Behind so many characters
    Behind(usize),
    /// Within a character
    Within,
}

fn ten_bytes(text: &str) -> (r: TenBytes)
    ensures
        match r {
            TenBytes::TooFew => byte_length(text@) < 10,
            TenBytes::Behind(k) => k <= text@.len() && byte_length(text@.take(k as int)) == 10,
            TenBytes::Within => byte_length(text@) >= 10 && !can_be_cut(text@, 10),
        },
{
    let all = chars_of(text);
    let mut total: usize = 0;
    let mut i: usize = 0;
    assert(text@.take(0) =~= Seq::empty());
    while i < all.len() && total < 10
        invariant
            all@ == text@,
            i <= all@.len(),
            total == byte_length(text@.take(i as int)),
            total <= 13,
            i > 0 ==> byte_length(text@.take(i - 1)) < 10,
        decreases all@.len() - i,
    {
        let c = all[i];
        let width: usize = if c <= '\u{7F}' {
            1
        } else if c <= '\u{7FF}' {
            2
        } else if c <= '\u{FFFF}' {
            3
        } else {
            4
        };
        assert(text@.take(i + 1).drop_last() =~= text@.take(i as int));
        total += width;
        i += 1;
    }
    if total == 10 {
        return TenBytes::Behind(i);
    }
    assert(text@.take(text@.len() as int) =~= text@);
    if total < 10 {
        return TenBytes::TooFew;
    }
    proof {
        if i < text@.len() {
            lemma_bytes_grow(text@, i as int, text@.len() as int);
        }
        assert forall|k: int| 0 <= k <= text@.len() implies byte_length(#[trigger] text@.take(k))
            != 10 by {
            if k < i - 1 {
                lemma_bytes_grow(text@, k, i - 1);
            } else if k > i {
                lemma_bytes_grow(text@, i as int, k);
            }
        }
    }
    TenBytes::Within
}

/// The date of an event, by its timestamp.
pub fn event_date(timestamp: &str, today: &str) -> (r: String)
    requires
        has_date(Some(timestamp@)),
    ensures
        r@ == date_of(Some(timestamp@), today@),
{
    if let Some((_, date)) = parse_rfc3339(timestamp, DATE_PATTERN) {
        proof {
            let start = timestamp@.take(10);
            assert forall|k: int| 0 <= k < start.len() implies start[k] == timestamp@.take(19)[k] by {}
            lemma_ascii_bytes(start);
            lemma_cut(timestamp@, 10, 10);
        }
        return date;
    }
    match ten_bytes(timestamp) {
        TenBytes::Behind(k) => {
            proof {
                lemma_cut(timestamp@, k as int, 10);
            }
            take_chars(timestamp, k)
        },
        _ => today.to_string(),
    }
}

/// Whether the timestamp of an event, where it has one, can be cut down to a date.
pub open spec fn event_has_date(event: Event) -> bool {
    match event {
        Event::Log(log) => has_date(log.text_at("_vector_timestamp"@)),
        Event::Other => true,
    }
}

/// Whether the column for a field can be made: where it is the date, every
/// timestamp can be cut down to one.
pub open spec fn can_be_made(field: Field, events: Seq<Event>) -> bool {
    field.data_type == ArrowType::Utf8 && field.name@ == "date"@ ==> forall|i: int|
        0 <= i < events.len() ==> event_has_date(#[trigger] events[i])
}

fn find_leaf<'a>(leaves: &'a Vec<LogEntry>, name: &str) -> (r: Option<&'a LogEntry>)
    ensures
        match r {
            Some(entry) => leaf_named(leaves@, name@) == Some(*entry),
            None => leaf_named(leaves@, name@) is None,
        },
{
    let wanted = to_lowercase(name);
    let mut i: usize = 0;
    assert(leaves@.skip(0) =~= leaves@);
    while i < leaves.len()
        invariant
            wanted@ == lowercase(name@),
            i <= leaves@.len(),
            leaf_named(leaves@, name@) == leaf_named(leaves@.skip(i as int), name@),
        decreases leaves@.len() - i,
    {
        assert(leaves@.skip(i as int)[0] == leaves@[i as int]);
        assert(leaves@.skip(i as int).skip(1) =~= leaves@.skip(i + 1));
        if same(to_lowercase(leaves[i].path.as_str()).as_str(), wanted.as_str()) {
            return Some(&leaves[i]);
        }
        i += 1;
    }
    None
}

fn origin_field(name: &str) -> (r: bool)
    ensures
        r == is_origin_field(name@),
{
    same(name, "_vector_table") || same(name, "_vector_source_table") || same(
        name,
        "_vector_source_schema",
    ) || same(name, "_vector_instance") || same(name, "_vector_timestamp")
}

fn read_text(event: &Event, name: &str, today: &str) -> (r: Option<String>)
    requires
        name@ == "date"@ ==> event_has_date(*event),
    ensures
        text_view(r) == text_cell(*event, name@, today@),
{
    match event {
        Event::Other => None,
        Event::Log(log) => {
            let found = if origin_field(name) {
                log.get_text(name)
            } else if same(name, "date") {
                match log.get_text("_vector_timestamp") {
                    Some(timestamp) => Some(event_date(timestamp.as_str(), today)),
                    None => Some(today.to_string()),
                }
            } else {
                match log.get(name) {
                    Some(entry) => Some(entry.display.clone()),
                    None => match find_leaf(&log.leaves, name) {
                        Some(entry) => Some(entry.display.clone()),
                        None => None,
                    },
                }
            };
            match found {
                Some(s) => Some(trim_quotes(s.as_str())),
                None => None,
            }
        },
    }
}

fn read_display(event: &Event, name: &str) -> (r: Option<String>)
    ensures
        text_view(r) == display_cell(*event, name@),
{
    match event {
        Event::Other => None,
        Event::Log(log) => match log.get(name) {
            Some(entry) => Some(trim_quotes(entry.display.as_str())),
            None => None,
        },
    }
}

fn value_of<'a>(event: &'a Event, name: &str) -> (r: Option<&'a LogValue>)
    ensures
        match r {
            Some(value) => value_in(*event, name@) == Some(*value),
            None => value_in(*event, name@) is None,
        },
{
    match event {
        Event::Other => None,
        Event::Log(log) => match log.get(name) {
            Some(entry) => Some(&entry.value),
            None => None,
        },
    }
}

fn read_integer(event: &Event, name: &str, signed: bool, low: i128, high: i128) -> (r: Option<i128>)
    requires
        -0x1_0000_0000_0000_0000 <= low,
        high <= 0x1_0000_0000_0000_0000,
    ensures
        match r {
            Some(n) => integer_cell(*event, name@, signed, low as int, high as int) == Some(
                n as int,
            ) && low <= n <= high,
            None => integer_cell(*event, name@, signed, low as int, high as int) is None,
        },
{
    match value_of(event, name) {
        Some(LogValue::Integer(i)) => {
            let n: i128 = *i as i128;
            if low <= n && n <= high {
                Some(n)
            } else {
                None
            }
        },
        Some(LogValue::Bytes(bytes)) => match utf8_text(bytes.as_slice()) {
            Some(s) => parse_integer(s, signed, low, high),
            None => None,
        },
        _ => None,
    }
}

fn read_int64(event: &Event, name: &str) -> (r: Option<i64>)
    ensures
        r == int64_cell(*event, name@),
{
    if same(name, "_vector_id") {
        match value_of(event, name) {
            Some(LogValue::Integer(i)) => Some(*i),
            _ => None,
        }
    } else {
        match read_integer(event, name, true, i64::MIN as i128, i64::MAX as i128) {
            Some(n) => Some(n as i64),
            None => None,
        }
    }
}

fn read_float(event: &Event, name: &str) -> (r: Option<FloatCell>)
    ensures
        float_view(r) == float_cell(*event, name@),
{
    match value_of(event, name) {
        Some(LogValue::Float(bits)) => Some(FloatCell::Bits(*bits)),
        Some(LogValue::Integer(i)) => Some(FloatCell::OfInteger(*i)),
        Some(LogValue::Bytes(bytes)) => match utf8_text(bytes.as_slice()) {
            Some(s) => Some(FloatCell::OfText(s.to_string())),
            None => None,
        },
        _ => None,
    }
}

fn read_boolean(event: &Event, name: &str) -> (r: Option<bool>)
    ensures
        r == boolean_cell(*event, name@),
{
    match value_of(event, name) {
        Some(LogValue::Boolean(b)) => Some(*b),
        _ => None,
    }
}

fn read_timestamp(event: &Event, name: &str) -> (r: Option<i64>)
    ensures
        r == timestamp_cell(*event, name@),
{
    match value_of(event, name) {
        Some(LogValue::Integer(us)) => Some(*us),
        Some(LogValue::Bytes(bytes)) => match utf8_text(bytes.as_slice()) {
            Some(s) => match parse_rfc3339(s, DATE_PATTERN) {
                Some((us, _)) => Some(us),
                None => parse_pattern(s, TIME_PATTERN),
            },
            None => None,
        },
        _ => None,
    }
}

fn texts_column(field: &Field, events: &Vec<Event>, today: &str) -> (r: Column)
    requires
        field.data_type == ArrowType::Utf8,
        can_be_made(*field, events@),
    ensures
        r@ == column_of(*field, events@, today@),
{
    let mut cells: Vec<Option<String>> = Vec::new();
    let mut i: usize = 0;
    while i < events.len()
        invariant
            i <= events@.len(),
            field.data_type == ArrowType::Utf8,
            can_be_made(*field, events@),
            cells@.len() == i,
            forall|k: int|
                0 <= k < i ==> text_view(#[trigger] cells@[k]) == text_cell(
                    events@[k],
                    field.name@,
                    today@,
                ),
        decreases events@.len() - i,
    {
        cells.push(read_text(&events[i], field.name.as_str(), today));
        i += 1;
    }
    let r = Column::Text(cells);
    assert(r@->Text_0 =~= column_of(*field, events@, today@)->Text_0);
    r
}

fn displays_column(name: &str, events: &Vec<Event>) -> (r: Column)
    ensures
        r@ == ColumnView::Text(events@.map_values(|e: Event| display_cell(e, name@))),
{
    let mut cells: Vec<Option<String>> = Vec::new();
    let mut i: usize = 0;
    while i < events.len()
        invariant
            i <= events@.len(),
            cells@.len() == i,
            forall|k: int|
                0 <= k < i ==> text_view(#[trigger] cells@[k]) == display_cell(events@[k], name@),
        decreases events@.len() - i,
    {
        cells.push(read_display(&events[i], name));
        i += 1;
    }
    let r = Column::Text(cells);
    assert(r@->Text_0 =~= events@.map_values(|e: Event| display_cell(e, name@)));
    r
}

fn floats_column(name: &str, events: &Vec<Event>) -> (r: Column)
    ensures
        r@ == ColumnView::Float64(events@.map_values(|e: Event| float_cell(e, name@))),
{
    let mut cells: Vec<Option<FloatCell>> = Vec::new();
    let mut i: usize = 0;
    while i < events.len()
        invariant
            i <= events@.len(),
            cells@.len() == i,
            forall|k: int|
                0 <= k < i ==> float_view(#[trigger] cells@[k]) == float_cell(events@[k], name@),
        decreases events@.len() - i,
    {
        cells.push(read_float(&events[i], name));
        i += 1;
    }
    let r = Column::Float64(cells);
    assert(r@->Float64_0 =~= events@.map_values(|e: Event| float_cell(e, name@)));
    r
}

/// Create a column for a specific field. `today` is the current date, which stands
/// in for a date that an event does not have.
pub fn create_column(field: &Field, events: &Vec<Event>, today: &str) -> (r: Column)
    requires
        can_be_made(*field, events@),
    ensures
        r@ == column_of(*field, events@, today@),
{
    let name = field.name.as_str();
    let ghost want = column_of(*field, events@, today@);
    match field.data_type {
        ArrowType::Utf8 => texts_column(field, events, today),
        ArrowType::Int64 => {
            let mut cells: Vec<Option<i64>> = Vec::new();
            let mut i: usize = 0;
            while i < events.len()
                invariant
                    i <= events@.len(),
                    want == column_of(*field, events@, today@),
                    field.data_type == ArrowType::Int64,
                    name@ == field.name@,
                    want->Int64_0.len() == events@.len(),
                    cells@ == want->Int64_0.take(i as int),
                decreases events@.len() - i,
            {
                cells.push(read_int64(&events[i], name));
                i += 1;
                assert(cells@ =~= want->Int64_0.take(i as int));
            }
            assert(cells@ =~= want->Int64_0);
            Column::Int64(cells)
        },
        ArrowType::Int32 => {
            let mut cells: Vec<Option<i32>> = Vec::new();
            let mut i: usize = 0;
            while i < events.len()
                invariant
                    i <= events@.len(),
                    want == column_of(*field, events@, today@),
                    name@ == field.name@,
                    field.data_type == ArrowType::Int32,
                    want->Int32_0.len() == events@.len(),
                    cells@ == want->Int32_0.take(i as int),
                decreases events@.len() - i,
            {
                let cell = match read_integer(&events[i], name, true, i32::MIN as i128, i32::MAX as i128) {
                    Some(n) => Some(n as i32),
                    None => None,
                };
                cells.push(cell);
                i += 1;
                assert(cells@ =~= want->Int32_0.take(i as int));
            }
            assert(cells@ =~= want->Int32_0);
            Column::Int32(cells)
        },
        ArrowType::Int16 => {
            let mut cells: Vec<Option<i16>> = Vec::new();
            let mut i: usize = 0;
            while i < events.len()
                invariant
                    i <= events@.len(),
                    want == column_of(*field, events@, today@),
                    name@ == field.name@,
                    field.data_type == ArrowType::Int16,
                    want->Int16_0.len() == events@.len(),
                    cells@ == want->Int16_0.take(i as int),
                decreases events@.len() - i,
            {
                let cell = match read_integer(&events[i], name, true, i16::MIN as i128, i16::MAX as i128) {
                    Some(n) => Some(n as i16),
                    None => None,
                };
                cells.push(cell);
                i += 1;
                assert(cells@ =~= want->Int16_0.take(i as int));
            }
            assert(cells@ =~= want->Int16_0);
            Column::Int16(cells)
        },
        ArrowType::Int8 => {
            let mut cells: Vec<Option<i8>> = Vec::new();
            let mut i: usize = 0;
            while i < events.len()
                invariant
                    i <= events@.len(),
                    want == column_of(*field, events@, today@),
                    name@ == field.name@,
                    field.data_type == ArrowType::Int8,
                    want->Int8_0.len() == events@.len(),
                    cells@ == want->Int8_0.take(i as int),
                decreases events@.len() - i,
            {
                let cell = match read_integer(&events[i], name, true, i8::MIN as i128, i8::MAX as i128) {
                    Some(n) => Some(n as i8),
                    None => None,
                };
                cells.push(cell);
                i += 1;
                assert(cells@ =~= want->Int8_0.take(i as int));
            }
            assert(cells@ =~= want->Int8_0);
            Column::Int8(cells)
        },
        ArrowType::UInt64 => {
            let mut cells: Vec<Option<u64>> = Vec::new();
            let mut i: usize = 0;
            while i < events.len()
                invariant
                    i <= events@.len(),
                    want == column_of(*field, events@, today@),
                    name@ == field.name@,
                    field.data_type == ArrowType::UInt64,
                    want->UInt64_0.len() == events@.len(),
                    cells@ == want->UInt64_0.take(i as int),
                decreases events@.len() - i,
            {
                let cell = match read_integer(&events[i], name, false, 0, u64::MAX as i128) {
                    Some(n) => Some(n as u64),
                    None => None,
                };
                cells.push(cell);
                i += 1;
                assert(cells@ =~= want->UInt64_0.take(i as int));
            }
            assert(cells@ =~= want->UInt64_0);
            Column::UInt64(cells)
        },
        ArrowType::UInt32 => {
            let mut cells: Vec<Option<u32>> = Vec::new();
            let mut i: usize = 0;
            while i < events.len()
                invariant
                    i <= events@.len(),
                    want == column_of(*field, events@, today@),
                    name@ == field.name@,
                    field.data_type == ArrowType::UInt32,
                    want->UInt32_0.len() == events@.len(),
                    cells@ == want->UInt32_0.take(i as int),
                decreases events@.len() - i,
            {
                let cell = match read_integer(&events[i], name, false, 0, u32::MAX as i128) {
                    Some(n) => Some(n as u32),
                    None => None,
                };
                cells.push(cell);
                i += 1;
                assert(cells@ =~= want->UInt32_0.take(i as int));
            }
            assert(cells@ =~= want->UInt32_0);
            Column::UInt32(cells)
        },
        ArrowType::Float64 => floats_column(name, events),
        ArrowType::Boolean => {
            let mut cells: Vec<Option<bool>> = Vec::new();
            let mut i: usize = 0;
            while i < events.len()
                invariant
                    i <= events@.len(),
                    want == column_of(*field, events@, today@),
                    field.data_type == ArrowType::Boolean,
                    name@ == field.name@,
                    want->Boolean_0.len() == events@.len(),
                    cells@ == want->Boolean_0.take(i as int),
                decreases events@.len() - i,
            {
                cells.push(read_boolean(&events[i], name));
                i += 1;
                assert(cells@ =~= want->Boolean_0.take(i as int));
            }
            assert(cells@ =~= want->Boolean_0);
            Column::Boolean(cells)
        },
        ArrowType::TimestampMicrosecond => {
            let mut cells: Vec<Option<i64>> = Vec::new();
            let mut i: usize = 0;
            while i < events.len()
                invariant
                    i <= events@.len(),
                    want == column_of(*field, events@, today@),
                    field.data_type == ArrowType::TimestampMicrosecond,
                    name@ == field.name@,
                    want->Timestamp_0.len() == events@.len(),
                    cells@ == want->Timestamp_0.take(i as int),
                decreases events@.len() - i,
            {
                cells.push(read_timestamp(&events[i], name));
                i += 1;
                assert(cells@ =~= want->Timestamp_0.take(i as int));
            }
            assert(cells@ =~= want->Timestamp_0);
            Column::Timestamp(cells)
        },
        _ => displays_column(name, events),
    }
}

fn timestamp_has_date(event: &Event) -> (r: bool)
    ensures
        r == event_has_date(*event),
{
    match event {
        Event::Other => true,
        Event::Log(log) => match log.get_text("_vector_timestamp") {
            None => true,
            Some(timestamp) => match ten_bytes(timestamp.as_str()) {
                TenBytes::TooFew => true,
                TenBytes::Behind(k) => {
                    proof {
                        lemma_cut(timestamp@, k as int, 10);
                    }
                    true
                },
                TenBytes::Within => false,
            },
        },
    }
}

/// Create a column for a specific field, where it can be made.
pub fn try_create_column(field: &Field, events: &Vec<Event>, today: &str) -> (r: Option<Column>)
    ensures
        match r {
            Some(column) => can_be_made(*field, events@) && column@ == column_of(
                *field,
                events@,
                today@,
            ),
            None => !can_be_made(*field, events@),
        },
{
    if field.data_type == ArrowType::Utf8 && same(field.name.as_str(), "date") {
        let mut i: usize = 0;
        while i < events.len()
            invariant
                i <= events@.len(),
                field.data_type == ArrowType::Utf8 && field.name@ == "date"@,
                forall|k: int| 0 <= k < i ==> event_has_date(#[trigger] events@[k]),
            decreases events@.len() - i,
        {
            if !timestamp_has_date(&events[i]) {
                return None;
            }
            i += 1;
        }
    }
    Some(create_column(field, events, today))
}

/// The date of an event whose timestamp was written in the format of RFC 3339 is
/// the date of that point in time, in the years that are written with four digits.
pub proof fn date_is_that_of_the_timestamp(
    parts: TimeParts,
    seconds: i64,
    nanos: u32,
    today: Seq<char>,
)
    requires
        parts.is_at(seconds as int),
        0 <= parts.year <= 9999,
    ensures
        has_date(Some(rfc3339_text(seconds, nanos))),
        date_of(Some(rfc3339_text(seconds, nanos)), today) == parts.date_text(),
{
    parts_are_determined(parts, seconds as int);
    let text = rfc3339_text(seconds, nanos);
    let date = parts.date_text();
    reveal_with_fuel(decimal, 5);
    lemma_padded_length(parts.year as nat, 4);
    lemma_padded_length(parts.month as nat, 2);
    lemma_padded_length(parts.day as nat, 2);
    let year = padded(parts.year as nat, 4);
    let month = padded(parts.month as nat, 2);
    let day = padded(parts.day as nat, 2);
    reveal_strlit("-");
    assert(date.len() == 10);
    assert forall|i: int| 0 <= i < 10 implies (#[trigger] date[i] as u32) < 0x80 by {
        if i < 4 {
            assert(date[i] == year[i]);
        } else if i == 4 || i == 7 {
            assert(date[i] == '-');
        } else if i < 7 {
            assert(date[i] == month[i - 5]);
        } else {
            assert(date[i] == day[i - 8]);
        }
    }
    lemma_ascii_bytes(date);
    assert(text.take(10) =~= date);
    lemma_cut(text, 10, 10);
}

} // verus!
