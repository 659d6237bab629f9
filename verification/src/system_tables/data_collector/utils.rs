//! Utility functions for collection.
use vstd::prelude::*;
use vstd::string::*;
use crate::bytes::{as_signed, to_signed};
use crate::clock::{parts_are_determined, rfc3339_text, TimeParts};
use crate::string_map::StringMap;
use crate::system_tables::config::CollectionConfig;
use crate::system_tables::data_collector::{CollectionMethod, CollectionResult};
use crate::text::{
    decimal, decimal_reads_back, has_prefix, integer_in, is_digit,
    other_characters_write_no_integer, parse_integer, same, skip_chars, starts_with,
};
use crate::value::{Number, Value, ValueView};

verus! {

/// The fields of an event, each by its path and what it holds, in the order in
/// which they are set.
pub open spec fn fields_view(fields: Seq<(String, Value)>) -> Seq<(Seq<char>, ValueView)> {
    fields.map_values(|f: (String, Value)| (f.0@, f.1@))
}

/// The entries of a row, each by its name and what it holds.
pub open spec fn row_view(items: Seq<(Seq<char>, Value)>) -> Seq<(Seq<char>, ValueView)> {
    items.map_values(|e: (Seq<char>, Value)| (e.0, e.1@))
}

/// The additional metadata as fields of an event.
pub open spec fn extra_fields(extra: Seq<(Seq<char>, Value)>) -> Seq<(Seq<char>, ValueView)> {
    extra.map_values(|e: (Seq<char>, Value)| ("_vector_meta_"@ + e.0, e.1@))
}

/// An integer as what a field holds.
pub open spec fn integer_field(n: int) -> ValueView {
    ValueView::Number(Number::of_int(n))
}

/// The fields that tell where the rows of a result come from.
pub open spec fn metadata_fields(result: CollectionResult) -> Seq<(Seq<char>, ValueView)> {
    let about = result.metadata;
    seq![
        ("_vector_table"@, ValueView::Text(about.table_config.dest_table@)),
        ("_vector_source_table"@, ValueView::Text(about.table_config.source_table@)),
        ("_vector_source_schema"@, ValueView::Text(about.table_config.source_schema@)),
        ("_vector_instance"@, ValueView::Text(about.instance@)),
        (
            "_vector_timestamp"@,
            ValueView::Text(rfc3339_text(about.timestamp.seconds, about.timestamp.nanos)),
        ),
        ("_vector_collection_method"@, ValueView::Text(about.collection_method.name())),
        ("_vector_collection_duration_ms"@, integer_field(as_signed(about.duration_ms as nat))),
        ("_vector_row_count"@, integer_field(as_signed(about.row_count as nat))),
    ]
}

/// The fields of the event for one row of a result, in the order in which they
/// are set: where the row comes from, the additional metadata, and the row
/// itself.
pub open spec fn event_fields(result: CollectionResult, row: Seq<(Seq<char>, Value)>) -> Seq<
    (Seq<char>, ValueView),
> {
    metadata_fields(result) + extra_fields(result.metadata.extra.items()) + row_view(row)
}

/// One more field is one more field of the view.
proof fn lemma_fields_push(fields: Seq<(String, Value)>, f: (String, Value))
    ensures
        fields_view(fields.push(f)) == fields_view(fields).push((f.0@, f.1@)),
{
    assert(fields_view(fields.push(f)) =~= fields_view(fields).push((f.0@, f.1@)));
}

/// The fields of the event for one row of a result, in the order in which they
/// are set.
pub fn create_event_from_result(result: &CollectionResult, row_data: &StringMap<Value>) -> (r: Vec<
    (String, Value),
>)
    requires
        result.metadata.timestamp.wf(),
    ensures
        fields_view(r@) == event_fields(*result, row_data.items()),
{
    let about = &result.metadata;
    let mut fields: Vec<(String, Value)> = Vec::new();
    fields.push(
        ("_vector_table".to_string(), Value::Text(about.table_config.dest_table.clone())),
    );
    fields.push(
        ("_vector_source_table".to_string(), Value::Text(about.table_config.source_table.clone())),
    );
    fields.push(
        (
            "_vector_source_schema".to_string(),
            Value::Text(about.table_config.source_schema.clone()),
        ),
    );
    fields.push(("_vector_instance".to_string(), Value::Text(about.instance.clone())));
    fields.push(("_vector_timestamp".to_string(), Value::Text(about.timestamp.to_rfc3339())));
    fields.push(
        (
            "_vector_collection_method".to_string(),
            Value::Text(about.collection_method.to_text()),
        ),
    );
    fields.push(
        (
            "_vector_collection_duration_ms".to_string(),
            Value::Number(Number::from_i64(to_signed(about.duration_ms))),
        ),
    );
    fields.push(
        (
            "_vector_row_count".to_string(),
            Value::Number(Number::from_i64(to_signed(about.row_count as u64))),
        ),
    );
    let ghost base = metadata_fields(*result);
    let ghost extra = result.metadata.extra.items();
    let ghost row = row_data.items();
    assert(fields_view(fields@) =~= base + extra_fields(extra.take(0)));
    let mut i: usize = 0;
    while i < about.extra.len()
        invariant
            extra == about.extra.items(),
            i <= extra.len(),
            fields_view(fields@) == base + extra_fields(extra.take(i as int)),
        decreases extra.len() - i,
    {
        let key = "_vector_meta_".to_string().concat(about.extra.key_at(i).as_str());
        let value = about.extra.value_at(i).clone();
        proof {
            lemma_fields_push(fields@, (key, value));
            assert(extra_fields(extra.take(i + 1)) =~= extra_fields(extra.take(i as int)).push(
                (key@, value@),
            ));
        }
        fields.push((key, value));
        i += 1;
    }
    assert(extra.take(i as int) =~= extra);
    let ghost before = base + extra_fields(extra);
    assert(fields_view(fields@) =~= before + row_view(row.take(0)));
    let mut j: usize = 0;
    while j < row_data.len()
        invariant
            row == row_data.items(),
            j <= row.len(),
            fields_view(fields@) == before + row_view(row.take(j as int)),
        decreases row.len() - j,
    {
        let key = row_data.key_at(j).clone();
        let value = row_data.value_at(j).clone();
        proof {
            lemma_fields_push(fields@, (key, value));
            assert(row_view(row.take(j + 1)) =~= row_view(row.take(j as int)).push((key@, value@)));
        }
        fields.push((key, value));
        j += 1;
    }
    assert(row.take(j as int) =~= row);
    fields
}

/// The number of seconds that a collection interval stands for: `short` and `long`
/// as configured, `custom=` with a number of seconds, and the short interval for
/// all else.
pub open spec fn interval_seconds(text: Seq<char>, config: CollectionConfig) -> u64 {
    if text == "short"@ {
        config.short_interval
    } else if text == "long"@ {
        config.long_interval
    } else if has_prefix(text, "custom="@) {
        match integer_in(text.skip("custom="@.len() as int), false, 0, u64::MAX as int) {
            Some(n) => n as u64,
            None => config.short_interval,
        }
    } else {
        config.short_interval
    }
}

/// Parse collection interval.
pub fn parse_collection_interval(interval_str: &str, collection_config: &CollectionConfig) -> (r:
    u64)
    ensures
        r == interval_seconds(interval_str@, *collection_config),
{
    if same(interval_str, "short") {
        collection_config.short_interval
    } else if same(interval_str, "long") {
        collection_config.long_interval
    } else if starts_with(interval_str, "custom=") {
        proof {
            reveal_strlit("custom=");
        }
        let seconds = skip_chars(interval_str, 7);
        match parse_integer(seconds.as_str(), false, 0, u64::MAX as i128) {
            Some(n) => n as u64,
            None => collection_config.short_interval,
        }
    } else {
        collection_config.short_interval
    }
}

/// A custom interval of any number of seconds stands for that number of seconds,
/// whatever is configured.
pub proof fn custom_interval_is_exact(n: u64, config: CollectionConfig)
    ensures
        interval_seconds("custom="@ + decimal(n as nat), config) == n,
{
    let text = "custom="@ + decimal(n as nat);
    reveal_strlit("custom=");
    reveal_strlit("short");
    reveal_strlit("long");
    assert(text[0] == 'c');
    assert(text.subrange(0, 7) =~= "custom="@);
    assert(text.skip(7) =~= decimal(n as nat));
    decimal_reads_back(n as nat);
    assert(is_digit(decimal(n as nat)[0]));
}

/// What a row holds under a name is set after all metadata: no field of the event
/// is set again behind the fields of the row.
pub proof fn row_is_set_last(result: CollectionResult, row: Seq<(Seq<char>, Value)>)
    ensures
        event_fields(result, row).len() == 8 + result.metadata.extra.items().len() + row.len(),
        event_fields(result, row).skip(8 + result.metadata.extra.items().len() as int) == row_view(
            row,
        ),
{
    assert(event_fields(result, row).skip(8 + result.metadata.extra.items().len() as int)
        =~= row_view(row));
}

/// An event tells where its row comes from: the destination, the table and its schema,
/// the instance, the time and the method of the collection, how long it took and how
/// many rows it brought.
pub proof fn events_tell_where_they_come_from(
    result: CollectionResult,
    row: Seq<(Seq<char>, Value)>,
    parts: TimeParts,
)
    requires
        result.metadata.timestamp.nanos == 0,
        parts.is_at(result.metadata.timestamp.seconds as int),
    ensures
        ({
            let fields = event_fields(result, row);
            let about = result.metadata;
            &&& fields.contains(
                ("_vector_table"@, ValueView::Text(about.table_config.dest_table@)),
            )
            &&& fields.contains(
                ("_vector_source_table"@, ValueView::Text(about.table_config.source_table@)),
            )
            &&& fields.contains(
                ("_vector_source_schema"@, ValueView::Text(about.table_config.source_schema@)),
            )
            &&& fields.contains(("_vector_instance"@, ValueView::Text(about.instance@)))
            &&& fields.contains(
                (
                    "_vector_timestamp"@,
                    ValueView::Text(
                        parts.date_text() + "T"@ + parts.clock_text() + "+00:00"@,
                    ),
                ),
            )
            &&& about.collection_method == CollectionMethod::Sql ==> fields.contains(
                ("_vector_collection_method"@, ValueView::Text("sql"@)),
            )
            &&& about.collection_method == CollectionMethod::Coprocessor ==> fields.contains(
                ("_vector_collection_method"@, ValueView::Text("coprocessor"@)),
            )
            &&& about.duration_ms <= i64::MAX ==> fields.contains(
                (
                    "_vector_collection_duration_ms"@,
                    ValueView::Number(Number::PosInt(about.duration_ms)),
                ),
            )
            &&& about.row_count <= i64::MAX ==> fields.contains(
                ("_vector_row_count"@, ValueView::Number(Number::PosInt(about.row_count as u64))),
            )
        }),
{
    let fields = event_fields(result, row);
    let base = metadata_fields(result);
    parts_are_determined(parts, result.metadata.timestamp.seconds as int);
    reveal_strlit("");
    let written = rfc3339_text(
        result.metadata.timestamp.seconds,
        result.metadata.timestamp.nanos,
    );
    assert(written =~= parts.date_text() + "T"@ + parts.clock_text() + "+00:00"@);
    assert(fields[0] == base[0]);
    assert(fields[1] == base[1]);
    assert(fields[2] == base[2]);
    assert(fields[3] == base[3]);
    assert(fields[4] == base[4]);
    assert(fields[5] == base[5]);
    assert(fields[6] == base[6]);
    assert(fields[7] == base[7]);
}

/// An event holds every value of its row under the name of its column, and every item of
/// the additional metadata under its name behind `_vector_meta_`.
pub proof fn events_hold_their_row(
    result: CollectionResult,
    row: Seq<(Seq<char>, Value)>,
    i: int,
    k: int,
)
    ensures
        0 <= i < row.len() ==> event_fields(result, row).contains((row[i].0, row[i].1@)),
        0 <= k < result.metadata.extra.items().len() ==> event_fields(result, row).contains(
            (
                "_vector_meta_"@ + result.metadata.extra.items()[k].0,
                result.metadata.extra.items()[k].1@,
            ),
        ),
{
    let fields = event_fields(result, row);
    let extra = result.metadata.extra.items();
    if 0 <= i < row.len() {
        assert(fields[8 + extra.len() + i] == (row[i].0, row[i].1@));
    }
    if 0 <= k < extra.len() {
        assert(fields[8 + k] == ("_vector_meta_"@ + extra[k].0, extra[k].1@));
    }
}

/// The short and the long interval are those that are configured. A custom interval that
/// writes no number of seconds, and any other text, is the short interval.
pub proof fn intervals_are_those_configured(text: Seq<char>, config: CollectionConfig, i: int)
    ensures
        text == "short"@ ==> interval_seconds(text, config) == config.short_interval,
        text == "long"@ ==> interval_seconds(text, config) == config.long_interval,
        text != "long"@ && !has_prefix(text, "custom="@) ==> interval_seconds(text, config)
            == config.short_interval,
        has_prefix(text, "custom="@) && 7 < i < text.len() && !('0' <= text[i] <= '9')
            ==> interval_seconds(text, config) == config.short_interval,
        text == "custom="@ ==> interval_seconds(text, config) == config.short_interval,
{
    reveal_strlit("short");
    reveal_strlit("long");
    reveal_strlit("custom=");
    assert("short"@.len() == 5 && "long"@.len() == 4 && "custom="@.len() == 7);
    if has_prefix(text, "custom="@) && 7 < i < text.len() && !('0' <= text[i] <= '9') {
        let rest = text.skip(7);
        assert(rest[i - 7] == text[i]);
        other_characters_write_no_integer(rest, false, 0, u64::MAX as int, i - 7);
    }
    if text == "custom="@ {
        assert(text.skip(7) =~= Seq::<char>::empty());
        assert(text.skip(7).len() == 0);
    }
}

} // verus!
