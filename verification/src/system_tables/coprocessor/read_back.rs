//! What the rows hold of what an instance wrote.
//!
//! Each statement goes from the bytes that were written for a column to what the
//! row holds under the name of that column. Flags and types are given by their
//! numbers.
use vstd::prelude::*;
use vstd::string::*;
use vstd::utf8::{decode_utf8, valid_utf8};
use crate::bytes::{be_bytes, lossy_text};
use crate::clock::{day_exists, unix_micros, written_time_tells_its_parts, TimeParts};
use crate::string_map::StringMap;
use crate::system_tables::coprocessor::codec::{packed_value, typed_value_at, value_at};
use crate::system_tables::coprocessor::columns::{
    column_form, column_label, packed_form as time_form, TableColumn, TableSchema,
};
use crate::system_tables::coprocessor::encoding::{
    compact_bytes_read_back, double_value_reads_back, groups_of, le_bytes, lemma_be_bytes,
    lemma_behind_flag, lemma_le_bytes, lemma_micros_fit, lemma_packed_fields, lemma_word_range,
    ordered_word, packed, packed_form, packed_time_reads_back, packed_value_reads_back,
    prefixed_value_reads_back, signed_value_reads_back, stands_at, text_value_reads_back,
    uint_reads_back, unsigned_value_reads_back, word_values_read_back,
    wrapped_packed_value_reads_back, zigzag_word,
};
use crate::system_tables::coprocessor::packed_time::{
    decode_packed_time_to_microseconds, decode_packed_time_to_string, packed_text, unpacked,
};
use crate::system_tables::coprocessor::rows::{
    blank_row, chunk_rows, columns_read, parse_row_format_with_schema, row_at, row_model,
    rows_from, rows_model,
};
use crate::text::{
    decimal, integer_in, other_characters_write_no_integer, signed_decimal,
    signed_decimal_reads_back,
};
use crate::value::{FloatFormView, Number, Value, ValueView};

verus! {

/// Whether the column at `index` is stored under `name`, and no column behind it is.
pub open spec fn is_last_named(columns: Seq<TableColumn>, index: int, name: Seq<char>) -> bool {
    &&& 0 <= index < columns.len()
    &&& match columns[index].name {
        Some(n) => n@ == name,
        None => name == "col_"@ + decimal(index as nat),
    }
    &&& forall|j: int|
        index < j < columns.len() ==> match (#[trigger] columns[j]).name {
            Some(n) => n@ != name,
            None => name != "col_"@ + decimal(j as nat),
        }
}

/// Whether an integer was written at `at`, in any of the four ways: a signed or an
/// unsigned number in groups of seven bits, or one of eight bytes.
pub open spec fn holds_integer(data: Seq<u8>, at: int, n: int) -> bool {
    ||| i64::MIN <= n <= i64::MAX && stands_at(
        data,
        seq![0x08u8] + groups_of(zigzag_word(n as i64) as nat),
        at,
    )
    ||| 0 <= n <= u64::MAX && stands_at(data, seq![0x09u8] + groups_of(n as nat), at)
    ||| 0 <= n <= u64::MAX && stands_at(data, seq![0x04u8] + le_bytes(n as nat, 8), at)
    ||| 0 <= n <= i64::MAX && stands_at(data, seq![0x03u8] + le_bytes(n as nat, 8), at)
    ||| i64::MIN <= n < 0 && stands_at(
        data,
        seq![0x03u8] + le_bytes((n + 0x1_0000_0000_0000_0000) as nat, 8),
        at,
    )
}

/// Whether a text, by its bytes, was written at `at`: a compact byte array, bytes, a
/// decimal number, a duration, a JSON document or a vector of floats.
pub open spec fn holds_text(data: Seq<u8>, at: int, content: Seq<u8>) -> bool {
    ||| content.len() <= i64::MAX && stands_at(
        data,
        seq![0x02u8] + (groups_of(zigzag_word(content.len() as i64) as nat) + content),
        at,
    )
    ||| content.len() <= u64::MAX && exists|flag: u8|
        (flag == 0x01 || flag == 0x06 || flag == 0x07 || flag == 0x0A || flag == 0x14)
            && #[trigger] stands_at(data, seq![flag] + (groups_of(content.len()) + content), at)
}

/// Whether a packed time was written at `at`: in groups of seven bits or as eight
/// bytes, the highest first, and either way bare or in a compact byte array.
pub open spec fn holds_packed(data: Seq<u8>, at: int, word: u64) -> bool {
    let groups = seq![0x09u8] + groups_of(word as nat);
    let bytes = seq![0x04u8] + be_bytes(word as nat, 8);
    ||| stands_at(data, groups, at)
    ||| stands_at(data, bytes, at)
    ||| stands_at(
        data,
        seq![0x02u8] + (groups_of(zigzag_word(groups.len() as i64) as nat) + groups),
        at,
    )
    ||| stands_at(
        data,
        seq![0x02u8] + (groups_of(zigzag_word(bytes.len() as i64) as nat) + bytes),
        at,
    )
}

/// Columns behind the last one with a name leave what is stored under the name.
proof fn lemma_other_columns_keep(
    data: Seq<u8>,
    at: int,
    columns: Seq<TableColumn>,
    index: int,
    from: int,
    row: Map<Seq<char>, ValueView>,
    instance: Seq<char>,
    name: Seq<char>,
)
    requires
        is_last_named(columns, index, name),
        index < from,
    ensures
        row.dom().contains(name) ==> columns_read(
            data,
            at,
            columns,
            from,
            row,
            instance,
        ).0.dom().contains(name),
        columns_read(data, at, columns, from, row, instance).0[name] == row[name],
    decreases columns.len() - from,
{
    if from < columns.len() && at < data.len() {
        if let Ok((value, next)) = typed_value_at(data, at, columns[from].tp) {
            let label = column_label(columns[from], from);
            assert(columns[from].name is Some || columns[from].name is None);
            let after = row.insert(label, column_form(label, value, columns[from].tp, instance));
            lemma_other_columns_keep(
                data,
                next,
                columns,
                index,
                from + 1,
                after,
                instance,
                name,
            );
        }
    }
}

/// A column that can be read is in the row, in the form that its type asks for.
proof fn lemma_column_is_stored(
    data: Seq<u8>,
    at: int,
    columns: Seq<TableColumn>,
    index: int,
    row: Map<Seq<char>, ValueView>,
    instance: Seq<char>,
    name: Seq<char>,
)
    requires
        is_last_named(columns, index, name),
        typed_value_at(data, at, columns[index].tp) is Ok,
        at < data.len(),
    ensures
        ({
            let read = columns_read(data, at, columns, index, row, instance).0;
            &&& read.dom().contains(name)
            &&& read[name] == column_form(
                name,
                typed_value_at(data, at, columns[index].tp)->Ok_0.0,
                columns[index].tp,
                instance,
            )
        }),
{
    if let Ok((value, next)) = typed_value_at(data, at, columns[index].tp) {
        let after = row.insert(name, column_form(name, value, columns[index].tp, instance));
        lemma_other_columns_keep(data, next, columns, index, index + 1, after, instance, name);
    }
}

proof fn lemma_integer_value(data: Seq<u8>, at: int, n: int)
    requires
        holds_integer(data, at, n),
    ensures
        at < data.len(),
        value_at(data, at) is Ok,
        value_at(data, at)->Ok_0.0 == ValueView::Number(
            if n < 0 {
                Number::NegInt(n as i64)
            } else {
                Number::PosInt(n as u64)
            },
        ),
{
    if i64::MIN <= n <= i64::MAX && stands_at(
        data,
        seq![0x08u8] + groups_of(zigzag_word(n as i64) as nat),
        at,
    ) {
        signed_value_reads_back(data, n as i64, at);
    } else if 0 <= n <= u64::MAX && stands_at(data, seq![0x09u8] + groups_of(n as nat), at) {
        unsigned_value_reads_back(data, n as u64, at);
    } else if n >= 0 {
        word_values_read_back(data, n as u64, at);
    } else {
        word_values_read_back(data, (n + 0x1_0000_0000_0000_0000) as u64, at);
    }
}

/// An integer that was written for a column is the integer that the row holds, of
/// whatever size and sign and however it was written. Only the types for floats and
/// for points in time ask for another form.
pub proof fn integers_arrive(
    data: Seq<u8>,
    at: int,
    columns: Seq<TableColumn>,
    index: int,
    row: Map<Seq<char>, ValueView>,
    instance: Seq<char>,
    name: Seq<char>,
    n: int,
)
    requires
        is_last_named(columns, index, name),
        name != "INSTANCE"@,
        holds_integer(data, at, n),
    ensures
        ({
            let tp = columns[index].tp;
            let read = columns_read(data, at, columns, index, row, instance).0;
            &&& tp != 4 && tp != 5 && tp != 7 && tp != 12 ==> {
                &&& read.dom().contains(name)
                &&& n < 0 ==> read[name] == ValueView::Number(Number::NegInt(n as i64))
                &&& n >= 0 ==> read[name] == ValueView::Number(Number::PosInt(n as u64))
            }
            &&& tp == 4 || tp == 5 ==> {
                &&& read.dom().contains(name)
                &&& n <= i64::MAX ==> read[name] == ValueView::Deferred(
                    FloatFormView::OfInteger(n as i64),
                )
                &&& n > i64::MAX ==> read[name] == ValueView::Number(Number::PosInt(0))
            }
        }),
{
    let tp = columns[index].tp;
    if tp != 7 && tp != 12 {
        lemma_integer_value(data, at, n);
        lemma_column_is_stored(data, at, columns, index, row, instance, name);
    }
}

/// A double that was written for a column is the double that the row holds, bit by
/// bit, where it is finite. A column of date times holds its text.
pub proof fn doubles_arrive(
    data: Seq<u8>,
    at: int,
    columns: Seq<TableColumn>,
    index: int,
    row: Map<Seq<char>, ValueView>,
    instance: Seq<char>,
    name: Seq<char>,
    bits: u64,
)
    requires
        is_last_named(columns, index, name),
        name != "INSTANCE"@,
        stands_at(data, seq![0x05u8] + be_bytes(ordered_word(bits) as nat, 8), at),
        (bits / 0x10_0000_0000_0000) % 0x800 != 0x7FF,
    ensures
        ({
            let read = columns_read(data, at, columns, index, row, instance).0;
            &&& read.dom().contains(name)
            &&& columns[index].tp != 12 ==> read[name] == ValueView::Number(Number::Float(bits))
            &&& columns[index].tp == 12 ==> read[name] == ValueView::Deferred(
                FloatFormView::TextOf(bits),
            )
        }),
{
    lemma_word_range();
    lemma_be_bytes(ordered_word(bits) as nat, 8);
    lemma_behind_flag(data, 0x05, be_bytes(ordered_word(bits) as nat, 8), at);
    double_value_reads_back(data, bits, at);
    lemma_column_is_stored(data, at, columns, index, row, instance, name);
}

/// A double that is infinite or no number is read as zero.
pub proof fn infinite_doubles_arrive_as_zero(
    data: Seq<u8>,
    at: int,
    columns: Seq<TableColumn>,
    index: int,
    row: Map<Seq<char>, ValueView>,
    instance: Seq<char>,
    name: Seq<char>,
    bits: u64,
)
    requires
        is_last_named(columns, index, name),
        name != "INSTANCE"@,
        stands_at(data, seq![0x05u8] + be_bytes(ordered_word(bits) as nat, 8), at),
        (bits / 0x10_0000_0000_0000) % 0x800 == 0x7FF,
    ensures
        ({
            let tp = columns[index].tp;
            let read = columns_read(data, at, columns, index, row, instance).0;
            &&& read.dom().contains(name)
            &&& tp != 4 && tp != 5 && tp != 12 ==> read[name] == ValueView::Number(
                Number::PosInt(0),
            )
            &&& tp == 4 || tp == 5 ==> read[name] == ValueView::Deferred(
                FloatFormView::OfInteger(0),
            )
        }),
{
    lemma_word_range();
    lemma_be_bytes(ordered_word(bits) as nat, 8);
    lemma_behind_flag(data, 0x05, be_bytes(ordered_word(bits) as nat, 8), at);
    double_value_reads_back(data, bits, at);
    lemma_column_is_stored(data, at, columns, index, row, instance, name);
}

/// In a column of timestamps a signed number in groups of seven bits is kept as it is.
/// In a column of date times it is taken as a packed time, and a negative one is told by
/// its digits.
pub proof fn signed_numbers_arrive_in_time_columns(
    data: Seq<u8>,
    at: int,
    columns: Seq<TableColumn>,
    index: int,
    row: Map<Seq<char>, ValueView>,
    instance: Seq<char>,
    name: Seq<char>,
    n: i64,
    parts: TimeParts,
    micros: nat,
)
    requires
        is_last_named(columns, index, name),
        name != "INSTANCE"@,
        stands_at(data, seq![0x08u8] + groups_of(zigzag_word(n) as nat), at),
        0 <= parts.year <= 9999,
        1 <= parts.month <= 12,
        1 <= parts.day <= 31,
        0 <= parts.hour <= 23,
        0 <= parts.minute <= 59,
        0 <= parts.second <= 59,
        micros < 0x100_0000,
    ensures
        ({
            let tp = columns[index].tp;
            let read = columns_read(data, at, columns, index, row, instance).0;
            &&& tp == 7 ==> holds_number(read, name, n)
            &&& tp == 12 ==> read.dom().contains(name)
            &&& tp == 12 && n < 0 ==> read[name] == ValueView::Text(signed_decimal(n as int))
            &&& tp == 12 && n == packed(parts, micros) ==> read[name] == ValueView::Text(
                parts.text(),
            )
        }),
{
    let tp = columns[index].tp;
    if tp == 7 || tp == 12 {
        signed_value_reads_back(data, n, at);
        lemma_behind_flag(data, 0x08, groups_of(zigzag_word(n) as nat), at);
        packed_time_reads_back(parts, micros);
        lemma_column_is_stored(data, at, columns, index, row, instance, name);
    }
}

/// In a column of a time type a text in bytes that writes a packed time is the text of
/// that point in time, and any other text is left as it is.
pub proof fn texts_arrive_in_time_columns(
    data: Seq<u8>,
    at: int,
    columns: Seq<TableColumn>,
    index: int,
    row: Map<Seq<char>, ValueView>,
    instance: Seq<char>,
    name: Seq<char>,
    content: Seq<u8>,
    parts: TimeParts,
    micros: nat,
    i: int,
)
    requires
        is_last_named(columns, index, name),
        name != "INSTANCE"@,
        columns[index].tp == 7 || columns[index].tp == 12,
        content.len() <= u64::MAX,
        stands_at(data, seq![0x01u8] + (groups_of(content.len()) + content), at),
        valid_utf8(content),
        0 <= parts.year <= 9999,
        1 <= parts.month <= 12,
        1 <= parts.day <= 31,
        0 <= parts.hour <= 23,
        0 <= parts.minute <= 59,
        0 <= parts.second <= 59,
        micros < 0x100_0000,
    ensures
        ({
            let read = columns_read(data, at, columns, index, row, instance).0;
            let text = decode_utf8(content);
            &&& read.dom().contains(name)
            &&& text == decimal(packed(parts, micros)) ==> read[name] == ValueView::Text(
                parts.text(),
            )
            &&& 0 < i < text.len() && !('0' <= text[i] <= '9') ==> read[name] == ValueView::Text(
                text,
            )
        }),
{
    prefixed_value_reads_back(data, 0x01, content, at);
    lemma_behind_flag(data, 0x01, groups_of(content.len()) + content, at);
    packed_time_reads_back(parts, micros);
    lemma_column_is_stored(data, at, columns, index, row, instance, name);
    let text = decode_utf8(content);
    if text == decimal(packed(parts, micros)) {
        signed_decimal_reads_back(packed(parts, micros) as int, 0, u64::MAX as int);
    }
    if 0 < i < text.len() && !('0' <= text[i] <= '9') {
        other_characters_write_no_integer(text, true, i64::MIN as int, i64::MAX as int, i);
        other_characters_write_no_integer(text, false, 0, u64::MAX as int, i);
    }
}

/// A compact byte array in a column of a time type that holds no packed time is absent.
pub proof fn other_contents_of_time_columns_are_absent(
    data: Seq<u8>,
    at: int,
    columns: Seq<TableColumn>,
    index: int,
    row: Map<Seq<char>, ValueView>,
    instance: Seq<char>,
    name: Seq<char>,
    content: Seq<u8>,
)
    requires
        is_last_named(columns, index, name),
        name != "INSTANCE"@,
        columns[index].tp == 7 || columns[index].tp == 12,
        content.len() <= i64::MAX,
        stands_at(
            data,
            seq![0x02u8] + (groups_of(zigzag_word(content.len() as i64) as nat) + content),
            at,
        ),
        content.len() == 0 || (content[0] != 0x04 && content[0] != 0x09) || (content[0] == 0x04
            && content.len() < 9),
    ensures
        ({
            let read = columns_read(data, at, columns, index, row, instance).0;
            read.dom().contains(name) && read[name] == ValueView::Null
        }),
{
    lemma_behind_flag(
        data,
        0x02,
        groups_of(zigzag_word(content.len() as i64) as nat) + content,
        at,
    );
    compact_bytes_read_back(data, content, at + 1);
    lemma_column_is_stored(data, at, columns, index, row, instance, name);
}

/// The month zero of a packed time is the last month of the year before.
pub proof fn month_zero_is_the_month_before(parts: TimeParts, micros: nat)
    requires
        0 <= parts.year <= 9999,
        1 <= parts.month <= 12,
        1 <= parts.day <= 31,
        0 <= parts.hour <= 23,
        0 <= parts.minute <= 59,
        0 <= parts.second <= 59,
        parts.month == 12,
        micros < 0x100_0000,
    ensures
        ({
            let date = (13 * (parts.year + 1)) * 32 + parts.day;
            let word = (((date * 32 + parts.hour) * 64 + parts.minute) * 64 + parts.second)
                * 0x100_0000 + micros;
            &&& 0 <= word <= u64::MAX
            &&& packed_text(word as u64) == parts.text()
        }),
{
    let year_month = 13 * (parts.year + 1);
    let p = lemma_packed_fields(
        year_month,
        parts.day as int,
        parts.hour as int,
        parts.minute as int,
        parts.second as int,
        micros as int,
    );
    assert(year_month % 13 == 0);
    assert(unpacked(p as u64) == parts);
}

proof fn lemma_text_value(data: Seq<u8>, at: int, content: Seq<u8>)
    requires
        holds_text(data, at, content),
    ensures
        at < data.len(),
        value_at(data, at) is Ok,
        value_at(data, at)->Ok_0.0 == ValueView::Text(lossy_text(content)),
{
    if content.len() <= i64::MAX && stands_at(
        data,
        seq![0x02u8] + (groups_of(zigzag_word(content.len() as i64) as nat) + content),
        at,
    ) {
        text_value_reads_back(data, content, at);
    } else {
        let flag = choose|flag: u8|
            (flag == 0x01 || flag == 0x06 || flag == 0x07 || flag == 0x0A || flag == 0x14)
                && #[trigger] stands_at(
                data,
                seq![flag] + (groups_of(content.len()) + content),
                at,
            );
        prefixed_value_reads_back(data, flag, content, at);
    }
}

/// A text that was written for a column of texts is the text that the row holds,
/// however it was written. In a column of numbers a text that writes an integer is
/// that integer, and any other is left as it is; in a column of floats it is the
/// double that it spells.
pub proof fn texts_arrive(
    data: Seq<u8>,
    at: int,
    columns: Seq<TableColumn>,
    index: int,
    row: Map<Seq<char>, ValueView>,
    instance: Seq<char>,
    name: Seq<char>,
    content: Seq<u8>,
    text: Seq<char>,
)
    requires
        is_last_named(columns, index, name),
        name != "INSTANCE"@,
        holds_text(data, at, content),
        valid_utf8(content),
        text == decode_utf8(content),
    ensures
        ({
            let tp = columns[index].tp;
            let read = columns_read(data, at, columns, index, row, instance).0;
            let numeric = tp == 1 || tp == 2 || tp == 3 || tp == 8 || tp == 9 || tp == 16 || tp
                == 246;
            &&& tp != 7 && tp != 12 ==> read.dom().contains(name)
            &&& !numeric && tp != 4 && tp != 5 && tp != 7 && tp != 12 ==> read[name]
                == ValueView::Text(text)
            &&& numeric ==> (forall|n: int|
                i64::MIN <= n <= i64::MAX && text == #[trigger] signed_decimal(n) ==> read[name]
                    == ValueView::Number(
                    if n < 0 {
                        Number::NegInt(n as i64)
                    } else {
                        Number::PosInt(n as u64)
                    },
                ))
            &&& numeric ==> (forall|i: int|
                0 < i < text.len() && !('0' <= #[trigger] text[i] <= '9') ==> read[name]
                    == ValueView::Text(text))
            &&& tp == 4 || tp == 5 ==> read[name] == ValueView::Deferred(FloatFormView::OfText(text))
        }),
{
    let tp = columns[index].tp;
    if tp != 7 && tp != 12 {
        lemma_text_value(data, at, content);
        lemma_column_is_stored(data, at, columns, index, row, instance, name);
        assert forall|n: int|
            i64::MIN <= n <= i64::MAX && text == #[trigger] signed_decimal(n) implies integer_in(
            text,
            true,
            i64::MIN as int,
            i64::MAX as int,
        ) == Some(n) by {
            signed_decimal_reads_back(n, i64::MIN as int, i64::MAX as int);
        }
        assert forall|i: int| 0 < i < text.len() && !('0' <= #[trigger] text[i] <= '9') implies integer_in(
            text,
            true,
            i64::MIN as int,
            i64::MAX as int,
        ) is None by {
            other_characters_write_no_integer(text, true, i64::MIN as int, i64::MAX as int, i);
        }
    }
}

/// An absent value is absent in the row; only a column of floats holds zero for it.
pub proof fn absent_values_arrive(
    data: Seq<u8>,
    at: int,
    columns: Seq<TableColumn>,
    index: int,
    row: Map<Seq<char>, ValueView>,
    instance: Seq<char>,
    name: Seq<char>,
)
    requires
        is_last_named(columns, index, name),
        name != "INSTANCE"@,
        0 <= at < data.len(),
        data[at] == 0x00 || 0x0A < data[at] < 0x14 || 0x14 < data[at] < 0x20 || 0x30 < data[at]
            < 0xFA || data[at] > 0xFA,
    ensures
        ({
            let tp = columns[index].tp;
            let read = columns_read(data, at, columns, index, row, instance).0;
            &&& read.dom().contains(name)
            &&& tp != 4 && tp != 5 ==> read[name] == ValueView::Null
            &&& tp == 4 || tp == 5 ==> read[name] == ValueView::Number(Number::PosInt(0))
        }),
{
    lemma_column_is_stored(data, at, columns, index, row, instance, name);
}

/// The greatest value is told as such.
pub proof fn greatest_value_arrives(
    data: Seq<u8>,
    at: int,
    columns: Seq<TableColumn>,
    index: int,
    row: Map<Seq<char>, ValueView>,
    instance: Seq<char>,
    name: Seq<char>,
)
    requires
        is_last_named(columns, index, name),
        name != "INSTANCE"@,
        0 <= at < data.len(),
        data[at] == 0xFA,
        columns[index].tp != 4,
        columns[index].tp != 5,
    ensures
        ({
            let read = columns_read(data, at, columns, index, row, instance).0;
            read.dom().contains(name) && read[name] == ValueView::Text("MAX_VALUE"@)
        }),
{
    reveal_strlit("MAX_VALUE");
    let text = "MAX_VALUE"@;
    other_characters_write_no_integer(text, true, i64::MIN as int, i64::MAX as int, 0);
    other_characters_write_no_integer(text, false, 0, u64::MAX as int, 0);
    lemma_column_is_stored(data, at, columns, index, row, instance, name);
}

/// A time of eight bytes is told by its number.
pub proof fn raw_times_arrive(
    data: Seq<u8>,
    at: int,
    columns: Seq<TableColumn>,
    index: int,
    row: Map<Seq<char>, ValueView>,
    instance: Seq<char>,
    name: Seq<char>,
    flag: u8,
    n: u64,
)
    requires
        is_last_named(columns, index, name),
        name != "INSTANCE"@,
        0x20 <= flag <= 0x30,
        stands_at(data, seq![flag] + le_bytes(n as nat, 8), at),
        columns[index].tp != 4,
        columns[index].tp != 5,
    ensures
        ({
            let read = columns_read(data, at, columns, index, row, instance).0;
            read.dom().contains(name) && read[name] == ValueView::Text(
                "timestamp_"@ + decimal(n as nat),
            )
        }),
{
    lemma_word_range();
    lemma_le_bytes(n as nat, 8);
    lemma_behind_flag(data, flag, le_bytes(n as nat, 8), at);
    uint_reads_back(data, n, at + 1);
    assert(data.subrange(at + 1, at + 9) =~= le_bytes(n as nat, 8));
    reveal_strlit("timestamp_");
    let text = "timestamp_"@ + decimal(n as nat);
    other_characters_write_no_integer(text, true, i64::MIN as int, i64::MAX as int, 0);
    other_characters_write_no_integer(text, false, 0, u64::MAX as int, 0);
    lemma_column_is_stored(data, at, columns, index, row, instance, name);
}

proof fn lemma_packed_cell(data: Seq<u8>, at: int, word: u64, tp: i32)
    requires
        tp == 7 || tp == 12,
        holds_packed(data, at, word),
    ensures
        at < data.len(),
        typed_value_at(data, at, tp) is Ok,
        typed_value_at(data, at, tp)->Ok_0.0 == packed_value(word, tp),
{
    lemma_word_range();
    lemma_be_bytes(word as nat, 8);
    let groups = packed_form(word, true);
    let bytes = packed_form(word, false);
    if stands_at(data, groups, at) {
        packed_value_reads_back(data, word, true, tp, at);
    } else if stands_at(data, bytes, at) {
        packed_value_reads_back(data, word, false, tp, at);
    } else if stands_at(
        data,
        seq![0x02u8] + (groups_of(zigzag_word(groups.len() as i64) as nat) + groups),
        at,
    ) {
        wrapped_packed_value_reads_back(data, word, true, tp, at);
    } else {
        wrapped_packed_value_reads_back(data, word, false, tp, at);
    }
}

/// A written point in time is no integer, so that it is left as it is.
proof fn lemma_time_text_stays(parts: TimeParts)
    requires
        parts.in_range(),
    ensures
        time_form(ValueView::Text(parts.text())) == ValueView::Text(parts.text()),
{
    written_time_tells_its_parts(parts);
    other_characters_write_no_integer(parts.text(), true, i64::MIN as int, i64::MAX as int, 4);
    other_characters_write_no_integer(parts.text(), false, 0, u64::MAX as int, 4);
}

proof fn lemma_zero_time_stays()
    ensures
        time_form(ValueView::Text("0000-00-00 00:00:00"@)) == ValueView::Text(
            "0000-00-00 00:00:00"@,
        ),
{
    reveal_strlit("0000-00-00 00:00:00");
    let text = "0000-00-00 00:00:00"@;
    other_characters_write_no_integer(text, true, i64::MIN as int, i64::MAX as int, 4);
    other_characters_write_no_integer(text, false, 0, u64::MAX as int, 4);
}

/// A point in time that was written packed is, in a column of timestamps, the
/// microseconds since the beginning of the year 1970, and in a column of date times
/// its text, to the second and however it was written. A day that the calendar does
/// not have is told by its text in both.
pub proof fn times_arrive(
    data: Seq<u8>,
    at: int,
    columns: Seq<TableColumn>,
    index: int,
    row: Map<Seq<char>, ValueView>,
    instance: Seq<char>,
    name: Seq<char>,
    parts: TimeParts,
    micros: nat,
)
    requires
        is_last_named(columns, index, name),
        name != "INSTANCE"@,
        0 <= parts.year <= 9999,
        1 <= parts.month <= 12,
        1 <= parts.day <= 31,
        0 <= parts.hour <= 23,
        0 <= parts.minute <= 59,
        0 <= parts.second <= 59,
        micros < 0x100_0000,
        holds_packed(data, at, packed(parts, micros) as u64),
    ensures
        ({
            let tp = columns[index].tp;
            let read = columns_read(data, at, columns, index, row, instance).0;
            let us = unix_micros(
                parts.year as int,
                parts.month as int,
                parts.day as int,
                parts.hour as int,
                parts.minute as int,
                parts.second as int,
            );
            &&& tp == 7 || tp == 12 ==> read.dom().contains(name)
            &&& tp == 12 ==> read[name] == ValueView::Text(parts.text())
            &&& tp == 7 && !day_exists(
                parts.year as int,
                parts.month as int,
                parts.day as int,
            ) ==> read[name] == ValueView::Text(
                parts.text(),
            )
            &&& tp == 7 && day_exists(
                parts.year as int,
                parts.month as int,
                parts.day as int,
            ) ==> read[name] == ValueView::Number(
                if us < 0 {
                    Number::NegInt(us as i64)
                } else {
                    Number::PosInt(us as u64)
                },
            )
        }),
{
    let tp = columns[index].tp;
    if tp == 7 || tp == 12 {
        let word = packed(parts, micros) as u64;
        packed_time_reads_back(parts, micros);
        lemma_packed_cell(data, at, word, tp);
        lemma_time_text_stays(parts);
        if parts.exists_in_calendar() {
            lemma_micros_fit(parts);
        }
        lemma_column_is_stored(data, at, columns, index, row, instance, name);
    }
}

/// What was written packed and is no point in time, for its day is zero, its hour is
/// past 23, its minute or its second is past 59, or its year is past 9999, is told as
/// the zero time; so is the packed time zero.
pub proof fn impossible_times_arrive_as_zero(
    data: Seq<u8>,
    at: int,
    columns: Seq<TableColumn>,
    index: int,
    row: Map<Seq<char>, ValueView>,
    instance: Seq<char>,
    name: Seq<char>,
    parts: TimeParts,
    micros: nat,
)
    requires
        is_last_named(columns, index, name),
        name != "INSTANCE"@,
        columns[index].tp == 7 || columns[index].tp == 12,
        0 <= parts.year <= 10000,
        1 <= parts.month <= 12,
        0 <= parts.day < 32,
        0 <= parts.hour < 32,
        0 <= parts.minute < 64,
        0 <= parts.second < 64,
        micros < 0x100_0000,
        parts.day == 0 || parts.hour > 23 || parts.minute > 59 || parts.second > 59 || parts.year
            > 9999,
        holds_packed(data, at, packed(parts, micros) as u64) || holds_packed(data, at, 0),
    ensures
        ({
            let read = columns_read(data, at, columns, index, row, instance).0;
            read.dom().contains(name) && read[name] == ValueView::Text("0000-00-00 00:00:00"@)
        }),
{
    let tp = columns[index].tp;
    let year_month = 13 * parts.year + parts.month;
    let p = lemma_packed_fields(
        year_month,
        parts.day as int,
        parts.hour as int,
        parts.minute as int,
        parts.second as int,
        micros as int,
    );
    assert(packed(parts, micros) == p);
    assert(year_month % 13 == parts.month % 13);
    assert(unpacked(p as u64) == parts);
    lemma_zero_time_stays();
    if holds_packed(data, at, p as u64) {
        lemma_packed_cell(data, at, p as u64, tp);
    } else {
        lemma_packed_cell(data, at, 0, tp);
    }
    lemma_column_is_stored(data, at, columns, index, row, instance, name);
}

/// The column for the instance holds the name of the instance, whatever was written
/// for it.
pub proof fn instance_column_is_named(
    data: Seq<u8>,
    at: int,
    columns: Seq<TableColumn>,
    index: int,
    row: Map<Seq<char>, ValueView>,
    instance: Seq<char>,
)
    requires
        is_last_named(columns, index, "INSTANCE"@),
        0 <= at < data.len(),
        typed_value_at(data, at, columns[index].tp) is Ok,
    ensures
        ({
            let read = columns_read(data, at, columns, index, row, instance).0;
            read.dom().contains("INSTANCE"@) && read["INSTANCE"@] == ValueView::Text(instance)
        }),
{
    lemma_column_is_stored(data, at, columns, index, row, instance, "INSTANCE"@);
}

/// A number of eight bytes that is cut off is not read, nor is anything behind it: the
/// row ends before it.
pub proof fn cut_off_numbers_end_the_row(
    data: Seq<u8>,
    at: int,
    columns: Seq<TableColumn>,
    index: int,
    row: Map<Seq<char>, ValueView>,
    instance: Seq<char>,
)
    requires
        0 <= index < columns.len(),
        0 <= at < data.len() < at + 9,
        data[at] == 0x03 || data[at] == 0x04 || data[at] == 0x05,
    ensures
        columns_read(data, at, columns, index, row, instance) == (row, at),
{
}

/// Signed integers, one behind the other, as a row is written.
pub open spec fn written_row(ns: Seq<i64>) -> Seq<u8>
    decreases ns.len(),
{
    if ns.len() == 0 {
        Seq::empty()
    } else {
        (seq![0x08u8] + groups_of(zigzag_word(ns[0]) as nat)) + written_row(ns.skip(1))
    }
}

/// Rows of signed integers, one behind the other.
pub open spec fn written_rows(rows: Seq<Seq<i64>>) -> Seq<u8>
    decreases rows.len(),
{
    if rows.len() == 0 {
        Seq::empty()
    } else {
        written_row(rows[0]) + written_rows(rows.skip(1))
    }
}

/// Whether the columns are those of a table of integers, with names of their own.
pub open spec fn are_integer_columns(columns: Seq<TableColumn>) -> bool {
    &&& forall|j: int|
        0 <= j < columns.len() ==> {
            let tp = (#[trigger] columns[j]).tp;
            &&& tp == 1 || tp == 2 || tp == 3 || tp == 8 || tp == 9
            &&& columns[j].name matches Some(n) && n@ != "INSTANCE"@
        }
    &&& forall|j: int, k: int|
        0 <= j < k < columns.len() ==> (#[trigger] columns[j]).name->0@ != (
        #[trigger] columns[k]).name->0@
}

/// What stands behind what stands at a place.
proof fn lemma_parts_stand(data: Seq<u8>, a: Seq<u8>, b: Seq<u8>, at: int)
    requires
        stands_at(data, a + b, at),
    ensures
        stands_at(data, a, at),
        stands_at(data, b, at + a.len()),
{
    let whole = a + b;
    assert forall|i: int| 0 <= i < a.len() implies data[at + i] == #[trigger] a[i] by {
        assert(whole[i] == a[i]);
    }
    assert forall|i: int| 0 <= i < b.len() implies data[at + a.len() + i] == #[trigger] b[i] by {
        assert(whole[a.len() + i] == b[i]);
    }
}

/// Whether a row holds an integer under a name.
pub open spec fn holds_number(row: Map<Seq<char>, ValueView>, name: Seq<char>, n: i64) -> bool {
    &&& row.dom().contains(name)
    &&& n < 0 ==> row[name] == ValueView::Number(Number::NegInt(n))
    &&& n >= 0 ==> row[name] == ValueView::Number(Number::PosInt(n as u64))
}

proof fn lemma_integer_column(
    data: Seq<u8>,
    at: int,
    columns: Seq<TableColumn>,
    index: int,
    row: Map<Seq<char>, ValueView>,
    instance: Seq<char>,
    n: i64,
) -> (after: Map<Seq<char>, ValueView>)
    requires
        are_integer_columns(columns),
        0 <= index < columns.len(),
        stands_at(data, seq![0x08u8] + groups_of(zigzag_word(n) as nat), at),
    ensures
        columns_read(data, at, columns, index, row, instance) == columns_read(
            data,
            at + 1 + groups_of(zigzag_word(n) as nat).len(),
            columns,
            index + 1,
            after,
            instance,
        ),
        holds_number(
            columns_read(data, at, columns, index, row, instance).0,
            columns[index].name->0@,
            n,
        ),
{
    signed_value_reads_back(data, n, at);
    let tp = columns[index].tp;
    let value = typed_value_at(data, at, tp)->Ok_0.0;
    let name = columns[index].name->0@;
    assert forall|k: int| index < k < columns.len() implies match (#[trigger] columns[k]).name {
        Some(n) => n@ != name,
        None => name != "col_"@ + decimal(k as nat),
    } by {}
    assert(is_last_named(columns, index, name));
    integers_arrive(data, at, columns, index, row, instance, name, n as int);
    row.insert(name, column_form(name, value, tp, instance))
}

#[verifier::spinoff_prover]
#[verifier::rlimit(40)]
proof fn lemma_integer_row(
    data: Seq<u8>,
    at: int,
    columns: Seq<TableColumn>,
    index: int,
    row: Map<Seq<char>, ValueView>,
    instance: Seq<char>,
    ns: Seq<i64>,
)
    requires
        are_integer_columns(columns),
        0 <= index <= columns.len(),
        ns.len() <= columns.len() - index,
        stands_at(data, written_row(ns), at),
        ns.len() < columns.len() - index ==> at + written_row(ns).len() == data.len(),
    ensures
        columns_read(data, at, columns, index, row, instance).1 == at + written_row(ns).len(),
        forall|j: int|
            index <= j < index + ns.len() ==> holds_number(
                columns_read(data, at, columns, index, row, instance).0,
                (#[trigger] columns[j]).name->0@,
                ns[j - index],
            ),
    decreases ns.len(),
{
    if ns.len() > 0 {
        let first = seq![0x08u8] + groups_of(zigzag_word(ns[0]) as nat);
        let rest = ns.skip(1);
        lemma_parts_stand(data, first, written_row(rest), at);
        let next = at + 1 + groups_of(zigzag_word(ns[0]) as nat).len();
        assert(next == at + first.len());
        let after = lemma_integer_column(data, at, columns, index, row, instance, ns[0]);
        lemma_integer_row(data, next, columns, index + 1, after, instance, rest);
        assert forall|j: int| index <= j < index + ns.len() implies holds_number(
            columns_read(data, at, columns, index, row, instance).0,
            (#[trigger] columns[j]).name->0@,
            ns[j - index],
        ) by {
            if j > index {
                assert(rest[j - index - 1] == ns[j - index]);
            }
        }
    }
}

proof fn lemma_rows_of_integers(
    data: Seq<u8>,
    at: int,
    columns: Seq<TableColumn>,
    instance: Seq<char>,
    rows: Seq<Seq<i64>>,
)
    requires
        are_integer_columns(columns),
        columns.len() > 0,
        forall|i: int| 0 <= i < rows.len() ==> (#[trigger] rows[i]).len() == columns.len(),
        stands_at(data, written_rows(rows), at),
        at + written_rows(rows).len() == data.len(),
    ensures
        rows_from(data, at, columns, instance).len() == rows.len(),
        forall|i: int, j: int|
            0 <= i < rows.len() && 0 <= j < columns.len() ==> holds_number(
                #[trigger] rows_from(data, at, columns, instance)[i],
                (#[trigger] columns[j]).name->0@,
                rows[i][j],
            ),
    decreases rows.len(),
{
    if rows.len() > 0 {
        let first = written_row(rows[0]);
        let rest = rows.skip(1);
        lemma_parts_stand(data, first, written_rows(rest), at);
        let blank = blank_row(instance);
        lemma_integer_row(data, at, columns, 0, blank, instance, rows[0]);
        let next = at + first.len();
        assert(first.len() > 0);
        lemma_rows_of_integers(data, next, columns, instance, rest);
        let all = rows_from(data, at, columns, instance);
        let tail = rows_from(data, next, columns, instance);
        assert(all == seq![row_at(data, at, columns, instance).0] + tail);
        assert forall|i: int, j: int|
            0 <= i < rows.len() && 0 <= j < columns.len() implies holds_number(
            #[trigger] rows_from(data, at, columns, instance)[i],
            (#[trigger] columns[j]).name->0@,
            rows[i][j],
        ) by {
            if i > 0 {
                assert(all[i] == tail[i - 1]);
                assert(rest[i - 1] == rows[i]);
            } else {
                assert(all[0] == columns_read(data, at, columns, 0, blank, instance).0);
            }
        }
    }
}

/// A table of integers reads back whole: as many rows as were written, in their order,
/// and in each of them each integer under the name of its column.
pub proof fn tables_of_integers_read_back(
    columns: Seq<TableColumn>,
    instance: Seq<char>,
    rows: Seq<Seq<i64>>,
)
    requires
        are_integer_columns(columns),
        columns.len() > 0,
        forall|i: int| 0 <= i < rows.len() ==> (#[trigger] rows[i]).len() == columns.len(),
    ensures
        ({
            let found = rows_from(written_rows(rows), 0, columns, instance);
            &&& found.len() == rows.len()
            &&& forall|i: int, j: int|
                0 <= i < rows.len() && 0 <= j < columns.len() ==> holds_number(
                    #[trigger] found[i],
                    (#[trigger] columns[j]).name->0@,
                    rows[i][j],
                )
        }),
{
    lemma_rows_of_integers(written_rows(rows), 0, columns, instance, rows);
}

/// A row that the data ends in is kept with the columns that were written of it.
pub proof fn short_rows_are_kept(
    columns: Seq<TableColumn>,
    instance: Seq<char>,
    ns: Seq<i64>,
    j: int,
)
    requires
        are_integer_columns(columns),
        0 < ns.len() <= columns.len(),
        0 <= j < ns.len(),
    ensures
        rows_from(written_row(ns), 0, columns, instance).len() == 1,
        holds_number(
            rows_from(written_row(ns), 0, columns, instance)[0],
            columns[j].name->0@,
            ns[j],
        ),
{
    let data = written_row(ns);
    lemma_integer_row(data, 0, columns, 0, blank_row(instance), instance, ns);
    assert(data.len() > 0);
    assert(rows_from(data, data.len() as int, columns, instance) =~= Seq::empty());
    let row = row_at(data, 0, columns, instance).0;
    assert(rows_from(data, 0, columns, instance) =~= seq![row]);
}

/// The rows of more chunks are the rows of the first, and behind them those of the
/// others; the rows of one chunk are those of its data.
pub proof fn chunks_follow_each_other(
    first: Seq<Vec<u8>>,
    second: Seq<Vec<u8>>,
    columns: Seq<TableColumn>,
    instance: Seq<char>,
)
    ensures
        chunk_rows(first + second, columns, instance) == chunk_rows(first, columns, instance)
            + chunk_rows(second, columns, instance),
        first.len() == 1 ==> chunk_rows(first, columns, instance) == rows_from(
            first[0]@,
            0,
            columns,
            instance,
        ),
    decreases second.len(),
{
    let all = first + second;
    if second.len() == 0 {
        assert(all =~= first);
        assert(chunk_rows(first, columns, instance) + chunk_rows(second, columns, instance)
            =~= chunk_rows(first, columns, instance));
    } else {
        chunks_follow_each_other(first, second.drop_last(), columns, instance);
        assert(all.drop_last() =~= first + second.drop_last());
        assert(all.last() == second.last());
        assert(chunk_rows(all, columns, instance) =~= chunk_rows(first, columns, instance)
            + chunk_rows(second, columns, instance));
    }
    if first.len() == 1 {
        assert(first.drop_last() =~= Seq::<Vec<u8>>::empty());
        assert(chunk_rows(first.drop_last(), columns, instance) =~= Seq::empty());
        assert(chunk_rows(first, columns, instance) =~= rows_from(
            first[0]@,
            0,
            columns,
            instance,
        ));
    }
}

/// A response of rows of integers is parsed to those rows: as many as were written, and
/// in each of them each integer under the name of its column.
pub proof fn parsed_tables_of_integers_read_back(
    data: &[u8],
    schema: &TableSchema,
    instance: &str,
    parsed: Vec<StringMap<Value>>,
    rows: Seq<Seq<i64>>,
    i: int,
    j: int,
)
    requires
        call_ensures(parse_row_format_with_schema, (data, schema, instance), parsed),
        are_integer_columns(schema.columns@),
        schema.columns@.len() > 0,
        forall|k: int| 0 <= k < rows.len() ==> (#[trigger] rows[k]).len() == schema.columns@.len(),
        data@ == written_rows(rows),
        0 <= i < rows.len(),
        0 <= j < schema.columns@.len(),
    ensures
        parsed@.len() == rows.len(),
        ({
            let name = schema.columns@[j].name->0@;
            let n = rows[i][j];
            &&& parsed@[i]@.dom().contains(name)
            &&& n < 0 ==> parsed@[i]@[name]@ == ValueView::Number(Number::NegInt(n))
            &&& n >= 0 ==> parsed@[i]@[name]@ == ValueView::Number(Number::PosInt(n as u64))
        }),
{
    tables_of_integers_read_back(schema.columns@, instance@, rows);
    let found = rows_from(written_rows(rows), 0, schema.columns@, instance@);
    assert(rows_model(parsed@) == found);
    assert(rows_model(parsed@)[i] == row_model(parsed@[i]@));
    assert(holds_number(found[i], schema.columns@[j].name->0@, rows[i][j]));
}

/// A packed time is decoded to its text, and to its microseconds where the day exists.
pub proof fn packed_times_are_decoded(
    parts: TimeParts,
    micros: nat,
    word: u64,
    text: String,
    us: Option<i64>,
)
    requires
        0 <= parts.year <= 9999,
        1 <= parts.month <= 12,
        1 <= parts.day <= 31,
        0 <= parts.hour <= 23,
        0 <= parts.minute <= 59,
        0 <= parts.second <= 59,
        micros < 0x100_0000,
        word == packed(parts, micros),
        call_ensures(decode_packed_time_to_string, (word,), text),
        call_ensures(decode_packed_time_to_microseconds, (word,), us),
    ensures
        text@ == parts.text(),
        us is Some <==> day_exists(parts.year as int, parts.month as int, parts.day as int),
        us matches Some(n) ==> n == unix_micros(
            parts.year as int,
            parts.month as int,
            parts.day as int,
            parts.hour as int,
            parts.minute as int,
            parts.second as int,
        ),
{
    packed_time_reads_back(parts, micros);
    if day_exists(parts.year as int, parts.month as int, parts.day as int) {
        lemma_micros_fit(parts);
    }
}

} // verus!
