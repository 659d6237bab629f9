//! What is written to a table: its schema, its batches, and the steps by which a
//! batch gets there.
use vstd::prelude::*;
use vstd::string::*;
use vstd::utf8::{decode_utf8, valid_utf8};
use crate::deltalake::batch::{column_views, is_made, BatchError, RecordBatch};
use crate::deltalake::cells::{
    batches_are_made_of_fitting_columns, columns_keep_their_type, first_entry_is_found,
    has_cells_of, has_own_cells, holds, holds_nothing, is_first, is_full, lemma_no_text,
    names_origin, tells_no_text,
};
use crate::deltalake::column::{
    can_be_made, column_of, text_cell, try_create_column, Column, ColumnView,
};
use crate::deltalake::config::{DeltaTableConfig, WriteConfig};
use crate::deltalake::event::{Event, LogEntry, LogEvent, LogValue};
use crate::deltalake::schema::{
    add_field, all_nullable, copy_fields, field_place, field_types, has_field, has_system_fields,
    in_order, is_data_name, lemma_one_place, mysql_type_to_arrow_type, system_fields, system_names,
    type_for, with_type, ArrowType, Field,
};
use crate::string_map::StringMap;
use crate::text::{before, has_prefix, lowercase, order_is_total, same, starts_with};

verus! {

/// The type for a value.
pub open spec fn value_type(value: LogValue) -> ArrowType {
    match value {
        LogValue::Integer(_) => ArrowType::Int64,
        LogValue::Float(_) => ArrowType::Float64,
        LogValue::Boolean(_) => ArrowType::Boolean,
        _ => ArrowType::Utf8,
    }
}

/// Convert a value to Arrow data type.
pub fn value_to_arrow_type(value: &LogValue) -> (r: ArrowType)
    ensures
        r == value_type(*value),
{
    match value {
        LogValue::Bytes(_) => ArrowType::Utf8,
        LogValue::Integer(_) => ArrowType::Int64,
        LogValue::Float(_) => ArrowType::Float64,
        LogValue::Boolean(_) => ArrowType::Boolean,
        LogValue::Null => ArrowType::Utf8,
        _ => ArrowType::Utf8,
    }
}

/// Infer Arrow data type from a value.
pub fn infer_arrow_type(value: &LogValue) -> (r: ArrowType)
    ensures
        r == value_type(*value),
{
    match value {
        LogValue::Null => ArrowType::Utf8,
        _ => value_to_arrow_type(value),
    }
}

/// The table of an event.
pub open spec fn table_of(log: LogEvent) -> Seq<char> {
    match log.text_at("_vector_table"@) {
        Some(name) => name,
        None => "unknown_table"@,
    }
}

fn table_name(log: &LogEvent) -> (r: String)
    ensures
        r@ == table_of(*log),
{
    match log.get_text("_vector_table") {
        Some(name) => name,
        None => "unknown_table".to_string(),
    }
}

/// What stands under `name` in the entries of an object.
pub open spec fn member(entries: Seq<(String, LogValue)>, name: Seq<char>) -> Option<LogValue>
    decreases entries.len(),
{
    if entries.len() == 0 {
        None
    } else if entries[0].0@ == name {
        Some(entries[0].1)
    } else {
        member(entries.skip(1), name)
    }
}

/// The SQL type that the description of a column gives.
pub open spec fn described_type(description: LogValue) -> Option<Seq<char>> {
    match description {
        LogValue::Object(entries) => match member(entries@, "mysql_type"@) {
            Some(value) => value.text(),
            None => None,
        },
        _ => None,
    }
}

/// The SQL types of the columns that are described.
pub open spec fn described_types(columns: Seq<(String, LogValue)>) -> Map<Seq<char>, Seq<char>>
    decreases columns.len(),
{
    if columns.len() == 0 {
        Map::empty()
    } else {
        let earlier = described_types(columns.drop_last());
        match described_type(columns.last().1) {
            Some(sql_type) => earlier.insert(columns.last().0@, sql_type),
            None => earlier,
        }
    }
}

/// The SQL types of the columns of the event's table, where the event describes
/// them.
pub open spec fn event_types(log: LogEvent) -> Option<Map<Seq<char>, Seq<char>>> {
    match log.at("_schema_metadata"@) {
        Some(entry) => match entry.value {
            LogValue::Object(columns) => Some(described_types(columns@)),
            _ => None,
        },
        None => None,
    }
}

/// What a map of SQL types holds.
pub open spec fn types_held(types: Map<Seq<char>, String>) -> Map<Seq<char>, Seq<char>> {
    types.map_values(|t: String| t@)
}

/// What the remembered types of tables hold.
pub open spec fn cache_held(cache: Map<Seq<char>, StringMap<String>>) -> Map<
    Seq<char>,
    Map<Seq<char>, Seq<char>>,
> {
    cache.map_values(|types: StringMap<String>| types_held(types@))
}

/// The remembered types after an event was seen: the types of a table are
/// remembered from the first event that describes them.
pub open spec fn remembered(
    cache: Map<Seq<char>, Map<Seq<char>, Seq<char>>>,
    log: LogEvent,
) -> Map<Seq<char>, Map<Seq<char>, Seq<char>>> {
    if cache.dom().contains(table_of(log)) {
        cache
    } else {
        match event_types(log) {
            Some(types) => cache.insert(table_of(log), types),
            None => cache,
        }
    }
}

fn find_member<'a>(entries: &'a Vec<(String, LogValue)>, name: &str) -> (r: Option<&'a LogValue>)
    ensures
        match r {
            Some(value) => member(entries@, name@) == Some(*value),
            None => member(entries@, name@) is None,
        },
{
    let mut i: usize = 0;
    assert(entries@.skip(0) =~= entries@);
    while i < entries.len()
        invariant
            i <= entries@.len(),
            member(entries@, name@) == member(entries@.skip(i as int), name@),
        decreases entries@.len() - i,
    {
        assert(entries@.skip(i as int)[0] == entries@[i as int]);
        assert(entries@.skip(i as int).skip(1) =~= entries@.skip(i + 1));
        if same(entries[i].0.as_str(), name) {
            return Some(&entries[i].1);
        }
        i += 1;
    }
    None
}

fn read_types(columns: &Vec<(String, LogValue)>) -> (r: StringMap<String>)
    ensures
        types_held(r@) == described_types(columns@),
{
    let mut types: StringMap<String> = StringMap::new();
    let mut i: usize = 0;
    assert(types_held(types@) =~= described_types(columns@.take(0)));
    while i < columns.len()
        invariant
            i <= columns@.len(),
            types_held(types@) == described_types(columns@.take(i as int)),
        decreases columns@.len() - i,
    {
        assert(columns@.take(i + 1).drop_last() =~= columns@.take(i as int));
        let found = match &columns[i].1 {
            LogValue::Object(entries) => match find_member(entries, "mysql_type") {
                Some(value) => value.as_str(),
                None => None,
            },
            _ => None,
        };
        if let Some(sql_type) = found {
            let ghost had = types@;
            let ghost added = sql_type;
            types.insert(columns[i].0.clone(), sql_type);
            assert(types_held(types@) =~= types_held(had).insert(
                columns@[i as int].0@,
                added@,
            ));
        }
        i += 1;
    }
    assert(columns@.take(i as int) =~= columns@);
    types
}

/// The types of the data columns of a table whose SQL types are known.
pub open spec fn table_columns(types: Map<Seq<char>, Seq<char>>) -> Map<Seq<char>, ArrowType> {
    Map::new(
        |name: Seq<char>| types.dom().contains(name) && is_data_name(name),
        |name: Seq<char>| type_for(lowercase(types[name])),
    )
}

/// The types of the data columns of a table of which only an event is known: those
/// of the fields of the event.
pub open spec fn event_columns(leaves: Seq<LogEntry>) -> Map<Seq<char>, ArrowType>
    decreases leaves.len(),
{
    if leaves.len() == 0 {
        Map::empty()
    } else {
        let earlier = event_columns(leaves.drop_last());
        let last = leaves.last();
        if is_data_name(last.path@) {
            with_type(earlier, last.path@, value_type(last.value))
        } else {
            earlier
        }
    }
}

/// The types of the data columns of the event's table.
pub open spec fn data_columns(
    cache: Map<Seq<char>, Map<Seq<char>, Seq<char>>>,
    log: LogEvent,
) -> Map<Seq<char>, ArrowType> {
    let known = remembered(cache, log);
    if known.dom().contains(table_of(log)) {
        table_columns(known[table_of(log)])
    } else {
        event_columns(log.leaves@)
    }
}

/// Whether `fields` is the schema of a table with these data columns: first the
/// fields that every table has, then the data columns in the order of their names,
/// each of which may be null.
pub open spec fn is_schema(fields: Seq<Field>, columns: Map<Seq<char>, ArrowType>) -> bool {
    &&& has_system_fields(fields)
    &&& in_order(fields.skip(6))
    &&& all_nullable(fields.skip(6))
    &&& field_types(fields.skip(6)) == columns
}

fn is_data_field(name: &str) -> (r: bool)
    ensures
        r == is_data_name(name@),
{
    let system = same(name, "_vector_table") || same(name, "_vector_source_table") || same(
        name,
        "_vector_source_schema",
    ) || same(name, "_vector_instance") || same(name, "_vector_timestamp") || same(name, "date");
    proof {
        let names = system_names();
        assert(names[0] == "_vector_table"@ && names[1] == "_vector_source_table"@ && names[2]
            == "_vector_source_schema"@ && names[3] == "_vector_instance"@ && names[4]
            == "_vector_timestamp"@ && names[5] == "date"@);
        assert(names.contains(name@) == system);
    }
    !system && !starts_with(name, "_schema_metadata")
}

fn known_fields(types: &StringMap<String>) -> (r: Vec<Field>)
    ensures
        in_order(r@),
        all_nullable(r@),
        field_types(r@) == table_columns(types_held(types@)),
{
    let mut fields: Vec<Field> = Vec::new();
    let ghost items = types.items();
    let mut i: usize = 0;
    assert(field_types(fields@) =~= Map::empty());
    while i < types.len()
        invariant
            items == types.items(),
            i <= items.len(),
            in_order(fields@),
            all_nullable(fields@),
            forall|name: Seq<char>| #[trigger]
                field_types(fields@).dom().contains(name) ==> types@.dom().contains(name)
                    && is_data_name(name) && field_types(fields@)[name] == type_for(
                    lowercase(types@[name]@),
                ),
            forall|k: int|
                0 <= k < i && is_data_name((#[trigger] items[k]).0) ==> field_types(
                    fields@,
                ).dom().contains(items[k].0),
        decreases items.len() - i,
    {
        let name = types.key_at(i);
        proof {
            assert(crate::string_map::has_key(items, name@));
        }
        if is_data_field(name.as_str()) {
            match types.get(name.as_str()) {
                Some(sql_type) => {
                    let data_type = mysql_type_to_arrow_type(sql_type.as_str());
                    add_field(&mut fields, name.as_str(), data_type);
                },
                None => {},
            }
        }
        i += 1;
    }
    proof {
        let held = types_held(types@);
        assert forall|name: Seq<char>| types@.dom().contains(name) && is_data_name(
            name,
        ) implies #[trigger] field_types(fields@).dom().contains(name) by {
            let k = crate::string_map::key_place(items, name);
            assert(items[k].0 == name);
        }
        assert(field_types(fields@) =~= table_columns(held));
    }
    fields
}

/// The columns for the fields of a schema.
pub open spec fn columns_of(fields: Seq<Field>, events: Seq<Event>, today: Seq<char>) -> Seq<
    ColumnView,
> {
    fields.map_values(|f: Field| column_of(f, events, today))
}

fn append_fields(fields: &mut Vec<Field>, more: Vec<Field>)
    ensures
        final(fields)@ == old(fields)@ + more@,
{
    let mut rest = more;
    fields.append(&mut rest);
}

/// Delta Lake table writer.
pub struct DeltaLakeWriter {
    pub table_path: String,
    pub table_config: DeltaTableConfig,
    pub write_config: WriteConfig,
    pub storage_options: Option<StringMap<String>>,
    pub schema: Option<Vec<Field>>,
    /// Cached schema information from source (table_name -> (field_name -> mysql_type))
    pub cached_source_schemas: StringMap<StringMap<String>>,
    /// Fixed schema for this table to ensure consistency across batches
    pub fixed_arrow_schema: Option<Vec<Field>>,
}

impl DeltaLakeWriter {
    /// What is remembered of the types of tables.
    pub open spec fn cache(self) -> Map<Seq<char>, Map<Seq<char>, Seq<char>>> {
        cache_held(self.cached_source_schemas@)
    }

    /// Whether everything but what was learnt from events is the same.
    pub open spec fn same_settings(self, other: Self) -> bool {
        &&& self.table_path == other.table_path
        &&& self.table_config == other.table_config
        &&& self.write_config == other.write_config
        &&& self.storage_options == other.storage_options
    }

    /// Create a new Delta Lake writer.
    pub fn new(
        table_path: String,
        table_config: DeltaTableConfig,
        write_config: WriteConfig,
        storage_options: Option<StringMap<String>>,
    ) -> (r: Self)
        ensures
            r.table_path == table_path,
            r.table_config == table_config,
            r.write_config == write_config,
            r.storage_options == storage_options,
            r.schema is None,
            r.fixed_arrow_schema is None,
            r.cache() == Map::<Seq<char>, Map<Seq<char>, Seq<char>>>::empty(),
    {
        let r = DeltaLakeWriter {
            table_path,
            table_config,
            write_config,
            storage_options,
            schema: None,
            cached_source_schemas: StringMap::new(),
            fixed_arrow_schema: None,
        };
        assert(r.cache() =~= Map::empty());
        r
    }

    /// Remembers the types of the event's table, where they are not known yet.
    pub fn extract_and_cache_mysql_schema(&mut self, log_event: &LogEvent)
        ensures
            final(self).cache() == remembered(old(self).cache(), *log_event),
            final(self).same_settings(*old(self)),
            final(self).schema == old(self).schema,
            final(self).fixed_arrow_schema == old(self).fixed_arrow_schema,
    {
        let name = table_name(log_event);
        if self.cached_source_schemas.contains_key(name.as_str()) {
            return;
        }
        if let Some(entry) = log_event.get("_schema_metadata") {
            if let LogValue::Object(columns) = &entry.value {
                let types = read_types(columns);
                let ghost had = self.cached_source_schemas@;
                let ghost added = types;
                self.cached_source_schemas.insert(name, types);
                assert(self.cache() =~= cache_held(had).insert(name@, types_held(added@)));
            }
        }
    }

    /// Get Arrow data type from cached schema or extract from event and cache.
    pub fn get_arrow_type_from_schema(
        &mut self,
        log_event: &LogEvent,
        field_name: &str,
        value: &LogValue,
    ) -> (r: ArrowType)
        ensures
            ({
                let table = table_of(*log_event);
                let cache = old(self).cache();
                if cache.dom().contains(table) && cache[table].dom().contains(field_name@) {
                    &&& final(self).cache() == cache
                    &&& r == type_for(lowercase(cache[table][field_name@]))
                } else {
                    match event_types(*log_event) {
                        Some(types) => {
                            &&& final(self).cache() == cache.insert(table, types)
                            &&& r == if types.dom().contains(field_name@) {
                                type_for(lowercase(types[field_name@]))
                            } else {
                                value_type(*value)
                            }
                        },
                        None => final(self).cache() == cache && r == value_type(*value),
                    }
                }
            }),
            final(self).same_settings(*old(self)),
            final(self).schema == old(self).schema,
            final(self).fixed_arrow_schema == old(self).fixed_arrow_schema,
    {
        let name = table_name(log_event);
        if let Some(types) = self.cached_source_schemas.get(name.as_str()) {
            if let Some(sql_type) = types.get(field_name) {
                return mysql_type_to_arrow_type(sql_type.as_str());
            }
        }
        if let Some(entry) = log_event.get("_schema_metadata") {
            if let LogValue::Object(columns) = &entry.value {
                let types = read_types(columns);
                let found = match types.get(field_name) {
                    Some(sql_type) => Some(mysql_type_to_arrow_type(sql_type.as_str())),
                    None => None,
                };
                let ghost had = self.cached_source_schemas@;
                let ghost added = types;
                self.cached_source_schemas.insert(name, types);
                assert(self.cache() =~= cache_held(had).insert(name@, types_held(added@)));
                if let Some(arrow_type) = found {
                    return arrow_type;
                }
            }
        }
        infer_arrow_type(value)
    }

    fn event_fields(&mut self, log_event: &LogEvent) -> (r: Vec<Field>)
        requires
            !old(self).cache().dom().contains(table_of(*log_event)),
            event_types(*log_event) is None,
        ensures
            in_order(r@),
            all_nullable(r@),
            field_types(r@) == event_columns(log_event.leaves@),
            final(self).cache() == old(self).cache(),
            final(self).same_settings(*old(self)),
            final(self).schema == old(self).schema,
            final(self).fixed_arrow_schema == old(self).fixed_arrow_schema,
    {
        let mut fields: Vec<Field> = Vec::new();
        let ghost leaves = log_event.leaves@;
        let mut i: usize = 0;
        assert(field_types(fields@) =~= event_columns(leaves.take(0)));
        while i < log_event.leaves.len()
            invariant
                leaves == log_event.leaves@,
                i <= leaves.len(),
                in_order(fields@),
                all_nullable(fields@),
                field_types(fields@) == event_columns(leaves.take(i as int)),
                !old(self).cache().dom().contains(table_of(*log_event)),
                event_types(*log_event) is None,
                self.cache() == old(self).cache(),
                self.same_settings(*old(self)),
                self.schema == old(self).schema,
                self.fixed_arrow_schema == old(self).fixed_arrow_schema,
            decreases leaves.len() - i,
        {
            assert(leaves.take(i + 1).drop_last() =~= leaves.take(i as int));
            let leaf = &log_event.leaves[i];
            if is_data_field(leaf.path.as_str()) {
                let data_type = self.get_arrow_type_from_schema(
                    log_event,
                    leaf.path.as_str(),
                    &leaf.value,
                );
                add_field(&mut fields, leaf.path.as_str(), data_type);
            }
            i += 1;
        }
        assert(leaves.take(i as int) =~= leaves);
        fields
    }

    /// Build a fixed schema from the first event that will be consistent across all
    /// batches.
    pub fn build_fixed_schema(&mut self, event: &Event) -> (r: Result<Vec<Field>, BatchError>)
        ensures
            final(self).same_settings(*old(self)),
            final(self).schema == old(self).schema,
            final(self).fixed_arrow_schema == old(self).fixed_arrow_schema,
            match r {
                Ok(fields) => event matches Event::Log(log) && is_schema(
                    fields@,
                    data_columns(old(self).cache(), *log),
                ) && final(self).cache() == remembered(old(self).cache(), *log),
                Err(e) => event is Other && e == BatchError::NotALogEvent && final(self).cache()
                    == old(self).cache(),
            },
    {
        match event {
            Event::Other => Err(BatchError::NotALogEvent),
            Event::Log(log_event) => {
                self.extract_and_cache_mysql_schema(log_event);
                let name = table_name(log_event);
                let data_fields = match self.cached_source_schemas.get(name.as_str()) {
                    Some(types) => Some(known_fields(types)),
                    None => None,
                };
                let data_fields = match data_fields {
                    Some(fields) => fields,
                    None => self.event_fields(log_event),
                };
                let mut fields = system_fields();
                let ghost more = data_fields@;
                append_fields(&mut fields, data_fields);
                proof {
                    assert(fields@.skip(6) =~= more);
                }
                Ok(fields)
            },
        }
    }

    /// The fixed schema.
    pub open spec fn fixed(self) -> Option<Seq<Field>> {
        match self.fixed_arrow_schema {
            Some(fields) => Some(fields@),
            None => None,
        }
    }

    /// The schema that a table is created with.
    pub open spec fn creation_schema(self) -> Option<Seq<Field>> {
        match self.schema {
            Some(fields) => Some(fields@),
            None => None,
        }
    }

    /// Whether nothing was learnt.
    pub open spec fn learnt_nothing(self, before: Self) -> bool {
        &&& self.fixed() == before.fixed()
        &&& self.creation_schema() == before.creation_schema()
        &&& self.cache() == before.cache()
    }

    /// Whether the schema was learnt from the event.
    pub open spec fn learnt_from(self, before: Self, log: LogEvent) -> bool {
        &&& self.fixed() is Some
        &&& is_schema(self.fixed()->0, data_columns(before.cache(), log))
        &&& self.creation_schema() == self.fixed()
        &&& self.cache() == remembered(before.cache(), log)
    }

    /// Whether what was learnt is what is learnt from these events: the schema from
    /// the first of them, unless it is fixed.
    pub open spec fn learnt(self, before: Self, events: Seq<Event>) -> bool {
        if before.fixed() is None && events.len() > 0 {
            match events[0] {
                Event::Log(log) => self.learnt_from(before, log),
                Event::Other => self.learnt_nothing(before),
            }
        } else {
            self.learnt_nothing(before)
        }
    }

    /// Convert events to a batch. `today` is the current date.
    pub fn events_to_record_batch(&mut self, events: &Vec<Event>, today: &str) -> (r: Result<
        RecordBatch,
        BatchError,
    >)
        ensures
            final(self).same_settings(*old(self)),
            final(self).learnt(*old(self), events@),
            match r {
                Err(BatchError::NoEvents) => events@.len() == 0,
                Err(BatchError::NotALogEvent) => events@.len() > 0 && old(self).fixed() is None
                    && events@[0] is Other,
                Err(BatchError::NoDate) => events@.len() > 0 && final(self).fixed() is Some
                    && exists|i: int|
                    0 <= i < final(self).fixed()->0.len() && !can_be_made(
                        #[trigger] final(self).fixed()->0[i],
                        events@,
                    ),
                _ => {
                    &&& events@.len() > 0
                    &&& final(self).fixed() is Some
                    &&& forall|i: int|
                        0 <= i < final(self).fixed()->0.len() ==> can_be_made(
                            #[trigger] final(self).fixed()->0[i],
                            events@,
                        )
                    &&& is_made(
                        r,
                        final(self).fixed()->0,
                        columns_of(final(self).fixed()->0, events@, today@),
                    )
                },
            },
    {
        if events.len() == 0 {
            return Err(BatchError::NoEvents);
        }
        let fields = match &self.fixed_arrow_schema {
            Some(fields) => copy_fields(fields),
            None => {
                match self.build_fixed_schema(&events[0]) {
                    Err(e) => {
                        return Err(e);
                    },
                    Ok(fields) => {
                        self.fixed_arrow_schema = Some(copy_fields(&fields));
                        self.schema = Some(copy_fields(&fields));
                        fields
                    },
                }
            },
        };
        let mut columns: Vec<Column> = Vec::new();
        let mut i: usize = 0;
        let ghost now = *self;
        while i < fields.len()
            invariant
                *self == now,
                now.fixed() == Some(fields@),
                now.same_settings(*old(self)),
                now.learnt(*old(self), events@),
                events@.len() > 0,
                i <= fields@.len(),
                columns@.len() == i,
                forall|k: int|
                    0 <= k < i ==> can_be_made(fields@[k], events@) && (#[trigger] columns@[k])@
                        == column_of(fields@[k], events@, today@),
            decreases fields@.len() - i,
        {
            match try_create_column(&fields[i], events, today) {
                Some(column) => {
                    columns.push(column);
                },
                None => {
                    return Err(BatchError::NoDate);
                },
            }
            i += 1;
        }
        proof {
            assert(column_views(columns@) =~= columns_of(fields@, events@, today@));
            assert forall|k: int| 0 <= k < columns@.len() implies (#[trigger] columns@[k])@.cell_count()
                == events@.len() by {
                one_cell_for_each_event(fields@[k], events@, today@);
            }
        }
        RecordBatch::try_new(fields, columns)
    }
}

proof fn lemma_event_columns_are_data(leaves: Seq<LogEntry>, name: Seq<char>)
    requires
        event_columns(leaves).dom().contains(name),
    ensures
        is_data_name(name),
    decreases leaves.len(),
{
    if leaves.len() > 0 && event_columns(leaves.drop_last()).dom().contains(name) {
        lemma_event_columns_are_data(leaves.drop_last(), name);
    }
}

/// Every field that is added to those that every table has is one for the data of
/// the table.
pub proof fn added_fields_are_data_fields(
    cache: Map<Seq<char>, Map<Seq<char>, Seq<char>>>,
    log: LogEvent,
    fields: Seq<Field>,
    i: int,
)
    requires
        is_schema(fields, data_columns(cache, log)),
        6 <= i < fields.len(),
    ensures
        is_data_name(fields[i].name@),
{
    let data = fields.skip(6);
    let name = fields[i].name@;
    assert(data[i - 6] == fields[i]);
    assert(field_types(data).dom().contains(name));
    if !remembered(cache, log).dom().contains(table_of(log)) {
        lemma_event_columns_are_data(log.leaves@, name);
    }
}

/// No two fields of a schema have the same name.
pub proof fn field_names_are_distinct(
    cache: Map<Seq<char>, Map<Seq<char>, Seq<char>>>,
    log: LogEvent,
    fields: Seq<Field>,
    i: int,
    j: int,
)
    requires
        is_schema(fields, data_columns(cache, log)),
        0 <= i < j < fields.len(),
    ensures
        fields[i].name@ != fields[j].name@,
{
    let names = system_names();
    if j < 6 {
        reveal_strlit("_vector_table");
        reveal_strlit("_vector_source_table");
        reveal_strlit("_vector_source_schema");
        reveal_strlit("_vector_instance");
        reveal_strlit("_vector_timestamp");
        reveal_strlit("date");
        assert(names[0].len() == 13 && names[1].len() == 20 && names[2].len() == 21
            && names[3].len() == 16 && names[4].len() == 17 && names[5].len() == 4);
        assert(names[i].len() != names[j].len());
    } else if i < 6 {
        added_fields_are_data_fields(cache, log, fields, j);
        assert(names.contains(names[i]));
    } else {
        let data = fields.skip(6);
        assert(data[i - 6] == fields[i] && data[j - 6] == fields[j]);
        order_is_total(data[i - 6].name@, data[j - 6].name@);
    }
}

/// The name at `i` is also in the other sequence of fields, where the types by name
/// are the same.
proof fn lemma_shared_name(a: Seq<Field>, b: Seq<Field>, i: int) -> (j: int)
    requires
        field_types(a) == field_types(b),
        0 <= i < a.len(),
    ensures
        0 <= j < b.len(),
        b[j].name@ == a[i].name@,
{
    assert(has_field(a, a[i].name@));
    assert(field_types(a).dom().contains(a[i].name@));
    assert(field_types(b).dom().contains(a[i].name@));
    field_place(b, a[i].name@)
}

/// Fields in the order of their names stand at the same places, where the types by
/// name are the same.
proof fn lemma_one_order(a: Seq<Field>, b: Seq<Field>, i: int)
    requires
        in_order(a),
        in_order(b),
        field_types(a) == field_types(b),
        0 <= i < a.len(),
    ensures
        i < b.len(),
        a[i].name@ == b[i].name@,
    decreases i,
{
    let j = lemma_shared_name(a, b, i);
    if j < i {
        lemma_one_order(a, b, j);
        order_is_total(a[j].name@, a[i].name@);
    } else if j > i {
        let k = lemma_shared_name(b, a, i);
        if k < i {
            lemma_one_order(a, b, k);
            order_is_total(b[k].name@, b[i].name@);
        } else if k > i {
            order_is_total(a[i].name@, a[k].name@);
            order_is_total(b[i].name@, b[j].name@);
        }
    }
}

/// The schema is determined by the data columns of the table: two schemas for the
/// same columns have the same fields in the same order.
pub proof fn schema_is_determined(
    one: Seq<Field>,
    other: Seq<Field>,
    columns: Map<Seq<char>, ArrowType>,
    i: int,
)
    requires
        is_schema(one, columns),
        is_schema(other, columns),
        0 <= i < one.len(),
    ensures
        one.len() == other.len(),
        one[i].name@ == other[i].name@,
        one[i].data_type == other[i].data_type,
        one[i].nullable == other[i].nullable,
{
    let a = one.skip(6);
    let b = other.skip(6);
    if a.len() > b.len() {
        lemma_one_order(a, b, b.len() as int);
    } else if b.len() > a.len() {
        lemma_one_order(b, a, a.len() as int);
    }
    if i >= 6 {
        let name = one[i].name@;
        lemma_one_order(a, b, i - 6);
        assert(a[i - 6] == one[i] && b[i - 6] == other[i]);
        assert(has_field(a, name) && has_field(b, name));
        lemma_one_place(a, field_place(a, name), i - 6);
        lemma_one_place(b, field_place(b, name), i - 6);
        assert(field_types(a)[name] == one[i].data_type);
        assert(field_types(b)[name] == other[i].data_type);
    }
}

/// The schema of a table is fixed by its first batch: no later events change it.
pub proof fn schema_stays_fixed(
    before: DeltaLakeWriter,
    after: DeltaLakeWriter,
    events: Seq<Event>,
)
    requires
        before.fixed() is Some,
        after.learnt(before, events),
    ensures
        after.fixed() == before.fixed(),
        after.creation_schema() == before.creation_schema(),
{
}

/// Events that describe a table do not change the types that are remembered for
/// it, nor those of any other table.
pub proof fn remembered_types_stay(
    cache: Map<Seq<char>, Map<Seq<char>, Seq<char>>>,
    log: LogEvent,
    table: Seq<char>,
)
    requires
        cache.dom().contains(table),
    ensures
        remembered(cache, log).dom().contains(table),
        remembered(cache, log)[table] == cache[table],
{
}

/// Every column has one cell for each event.
pub proof fn one_cell_for_each_event(field: Field, events: Seq<Event>, today: Seq<char>)
    ensures
        column_of(field, events, today).cell_count() == events.len(),
{
}

/// A column has the type of its field, or else it holds texts.
pub proof fn columns_keep_types_or_are_texts(field: Field, events: Seq<Event>, today: Seq<char>)
    ensures
        column_of(field, events, today).data_type() == field.data_type || column_of(
            field,
            events,
            today,
        ).data_type() == ArrowType::Utf8,
{
}

/// Every log event has a date, whatever it holds.
pub proof fn every_log_event_has_a_date(log: LogEvent, today: Seq<char>)
    ensures
        text_cell(Event::Log(log), "date"@, today) is Some,
{
    reveal_strlit("date");
    reveal_strlit("_vector_table");
    reveal_strlit("_vector_source_table");
    reveal_strlit("_vector_source_schema");
    reveal_strlit("_vector_instance");
    reveal_strlit("_vector_timestamp");
    assert("date"@.len() == 4);
}

/// Whether a name is none of those that every table has, and does not begin like those
/// of the descriptions.
pub open spec fn is_free_name(name: Seq<char>) -> bool {
    &&& name != "_vector_table"@
    &&& name != "_vector_source_table"@
    &&& name != "_vector_source_schema"@
    &&& name != "_vector_instance"@
    &&& name != "_vector_timestamp"@
    &&& name != "date"@
    &&& !has_prefix(name, "_schema_metadata"@)
}

/// Whether the fields have one of the name and the type that may be null, behind those
/// that every table has.
pub open spec fn has_data_field(
    fields: Seq<Field>,
    name: Seq<char>,
    data_type: ArrowType,
) -> bool {
    exists|i: int|
        6 <= i < fields.len() && (#[trigger] fields[i]).name@ == name && fields[i].data_type
            == data_type && fields[i].nullable
}

proof fn lemma_free_name(name: Seq<char>)
    ensures
        is_free_name(name) == is_data_name(name),
{
    let names = system_names();
    assert(names[0] == "_vector_table"@ && names[1] == "_vector_source_table"@ && names[2]
        == "_vector_source_schema"@ && names[3] == "_vector_instance"@ && names[4]
        == "_vector_timestamp"@ && names[5] == "date"@);
    if names.contains(name) {
        let i = choose|i: int| 0 <= i < names.len() && names[i] == name;
        assert(i == 0 || i == 1 || i == 2 || i == 3 || i == 4 || i == 5);
    }
}

proof fn lemma_field_is_there(
    fields: Seq<Field>,
    columns: Map<Seq<char>, ArrowType>,
    name: Seq<char>,
)
    requires
        is_schema(fields, columns),
        columns.dom().contains(name),
    ensures
        has_data_field(fields, name, columns[name]),
{
    let data = fields.skip(6);
    assert(field_types(data).dom().contains(name));
    let k = field_place(data, name);
    assert(data[k].name@ == name);
    assert(data[k].nullable);
    assert(field_types(data)[name] == data[k].data_type);
    assert(fields[k + 6] == data[k]);
}

proof fn lemma_first_member(entries: Seq<(String, LogValue)>, name: Seq<char>, m: int)
    requires
        0 <= m < entries.len(),
        entries[m].0@ == name,
        forall|j: int| 0 <= j < m ==> (#[trigger] entries[j]).0@ != name,
    ensures
        member(entries, name) == Some(entries[m].1),
    decreases entries.len(),
{
    if m > 0 {
        let rest = entries.skip(1);
        assert(entries[0].0@ != name);
        assert forall|j: int| 0 <= j < m - 1 implies (#[trigger] rest[j]).0@ != name by {
            assert(rest[j] == entries[j + 1]);
        }
        lemma_first_member(rest, name, m - 1);
    }
}

proof fn lemma_last_described(
    columns: Seq<(String, LogValue)>,
    k: int,
    name: Seq<char>,
    sql_type: Seq<char>,
)
    requires
        0 <= k < columns.len(),
        columns[k].0@ == name,
        forall|j: int| k < j < columns.len() ==> (#[trigger] columns[j]).0@ != name,
        described_type(columns[k].1) == Some(sql_type),
    ensures
        described_types(columns).dom().contains(name),
        described_types(columns)[name] == sql_type,
    decreases columns.len(),
{
    if k < columns.len() - 1 {
        let less = columns.drop_last();
        assert(columns[columns.len() - 1].0@ != name);
        assert forall|j: int| k < j < less.len() implies (#[trigger] less[j]).0@ != name by {
            assert(less[j] == columns[j]);
        }
        lemma_last_described(less, k, name, sql_type);
    }
}

/// A column that an event describes is a field of the table, of the type for its SQL
/// type, where the table is not known yet.
pub proof fn described_columns_are_fields(
    cache: Map<Seq<char>, Map<Seq<char>, Seq<char>>>,
    log: LogEvent,
    fields: Seq<Field>,
    columns: Vec<(String, LogValue)>,
    k: int,
    name: Seq<char>,
    entries: Vec<(String, LogValue)>,
    m: int,
    bytes: Vec<u8>,
)
    requires
        is_schema(fields, data_columns(cache, log)),
        !cache.dom().contains(table_of(log)),
        holds(Event::Log(log), "_schema_metadata"@, LogValue::Object(columns)),
        0 <= k < columns@.len(),
        columns@[k].0@ == name,
        forall|j: int| k < j < columns@.len() ==> (#[trigger] columns@[j]).0@ != name,
        columns@[k].1 == LogValue::Object(entries),
        0 <= m < entries@.len(),
        entries@[m].0@ == "mysql_type"@,
        forall|j: int| 0 <= j < m ==> (#[trigger] entries@[j]).0@ != "mysql_type"@,
        entries@[m].1 == LogValue::Bytes(bytes),
        valid_utf8(bytes@),
        is_free_name(name),
    ensures
        has_data_field(fields, name, type_for(lowercase(decode_utf8(bytes@)))),
{
    lemma_free_name(name);
    lemma_metadata(log, columns);
    lemma_first_member(entries@, "mysql_type"@, m);
    lemma_last_described(columns@, k, name, decode_utf8(bytes@));
    lemma_field_is_there(fields, data_columns(cache, log), name);
}

proof fn lemma_metadata(log: LogEvent, columns: Vec<(String, LogValue)>)
    requires
        holds(Event::Log(log), "_schema_metadata"@, LogValue::Object(columns)),
    ensures
        event_types(log) == Some(described_types(columns@)),
{
    let path = "_schema_metadata"@;
    let k = choose|k: int| #[trigger]
        is_first(log.entries@, path, k) && log.entries@[k].value == LogValue::Object(columns);
    first_entry_is_found(log.entries@, path, k);
}

/// What is remembered of a table counts: each of its columns is a field, of the type for
/// its remembered SQL type, whatever the event holds.
pub proof fn remembered_columns_are_fields(
    cache: Map<Seq<char>, Map<Seq<char>, Seq<char>>>,
    log: LogEvent,
    fields: Seq<Field>,
    name: Seq<char>,
)
    requires
        is_schema(fields, data_columns(cache, log)),
        cache.dom().contains(table_of(log)),
        cache[table_of(log)].dom().contains(name),
        is_free_name(name),
    ensures
        has_data_field(fields, name, type_for(lowercase(cache[table_of(log)][name]))),
{
    lemma_free_name(name);
    lemma_field_is_there(fields, data_columns(cache, log), name);
}

proof fn lemma_first_leaf_counts(leaves: Seq<LogEntry>, k: int, name: Seq<char>)
    requires
        0 <= k < leaves.len(),
        leaves[k].path@ == name,
        forall|j: int| 0 <= j < k ==> (#[trigger] leaves[j]).path@ != name,
        is_data_name(name),
    ensures
        event_columns(leaves).dom().contains(name),
        event_columns(leaves)[name] == value_type(leaves[k].value),
    decreases leaves.len(),
{
    let less = leaves.drop_last();
    if k < leaves.len() - 1 {
        assert forall|j: int| 0 <= j < k implies (#[trigger] less[j]).path@ != name by {
            assert(less[j] == leaves[j]);
        }
        lemma_first_leaf_counts(less, k, name);
    } else {
        assert forall|j: int| 0 <= j < less.len() implies (#[trigger] less[j]).path@ != name by {
            assert(less[j] == leaves[j]);
        }
        lemma_no_such_leaf(less, name);
    }
}

proof fn lemma_no_such_leaf(leaves: Seq<LogEntry>, name: Seq<char>)
    requires
        forall|j: int| 0 <= j < leaves.len() ==> (#[trigger] leaves[j]).path@ != name,
    ensures
        !event_columns(leaves).dom().contains(name),
    decreases leaves.len(),
{
    if leaves.len() > 0 {
        let less = leaves.drop_last();
        assert(leaves[leaves.len() - 1].path@ != name);
        assert forall|j: int| 0 <= j < less.len() implies (#[trigger] less[j]).path@ != name by {
            assert(less[j] == leaves[j]);
        }
        lemma_no_such_leaf(less, name);
    }
}

/// Whether an event does not describe its table: it holds nothing under
/// `_schema_metadata`, or something else than values by name.
pub open spec fn describes_nothing(log: LogEvent) -> bool {
    holds_nothing(Event::Log(log), "_schema_metadata"@) || exists|value: LogValue| #[trigger]
        holds(Event::Log(log), "_schema_metadata"@, value) && !(value is Object)
}

proof fn lemma_no_description(log: LogEvent)
    requires
        describes_nothing(log),
    ensures
        event_types(log) is None,
{
    let path = "_schema_metadata"@;
    first_entry_is_found(log.entries@, path, 0);
    if !holds_nothing(Event::Log(log), path) {
        let value = choose|value: LogValue| #[trigger]
            holds(Event::Log(log), path, value) && !(value is Object);
        let k = choose|k: int| #[trigger]
            is_first(log.entries@, path, k) && log.entries@[k].value == value;
        first_entry_is_found(log.entries@, path, k);
    }
}

/// Of a table that nothing describes, the fields of the event are the fields: integers
/// for an integer, doubles for a double, truth values for a truth value, and texts for
/// all else.
pub proof fn undescribed_events_make_fields(
    cache: Map<Seq<char>, Map<Seq<char>, Seq<char>>>,
    log: LogEvent,
    fields: Seq<Field>,
    k: int,
    name: Seq<char>,
)
    requires
        is_schema(fields, data_columns(cache, log)),
        !cache.dom().contains(table_of(log)),
        describes_nothing(log),
        0 <= k < log.leaves@.len(),
        log.leaves@[k].path@ == name,
        forall|j: int| 0 <= j < k ==> (#[trigger] log.leaves@[j]).path@ != name,
        is_free_name(name),
    ensures
        has_data_field(
            fields,
            name,
            match log.leaves@[k].value {
                LogValue::Integer(_) => ArrowType::Int64,
                LogValue::Float(_) => ArrowType::Float64,
                LogValue::Boolean(_) => ArrowType::Boolean,
                _ => ArrowType::Utf8,
            },
        ),
{
    lemma_free_name(name);
    lemma_no_description(log);
    lemma_first_leaf_counts(log.leaves@, k, name);
    lemma_field_is_there(fields, data_columns(cache, log), name);
}

/// Every table begins with the same six fields, texts that are never null, and has no
/// other field that is described neither by an event nor by its name.
pub proof fn tables_begin_with_these_fields(
    fields: Seq<Field>,
    columns: Map<Seq<char>, ArrowType>,
    i: int,
)
    requires
        is_schema(fields, columns),
    ensures
        fields.len() >= 6,
        fields[0].name@ == "_vector_table"@,
        fields[1].name@ == "_vector_source_table"@,
        fields[2].name@ == "_vector_source_schema"@,
        fields[3].name@ == "_vector_instance"@,
        fields[4].name@ == "_vector_timestamp"@,
        fields[5].name@ == "date"@,
        0 <= i < 6 ==> fields[i].data_type == ArrowType::Utf8 && !fields[i].nullable,
        6 <= i < fields.len() ==> columns.dom().contains(fields[i].name@) && fields[i].nullable,
        6 <= i < fields.len() - 1 ==> before(fields[i].name@, fields[i + 1].name@),
{
    let names = system_names();
    assert(names[0] == "_vector_table"@ && names[1] == "_vector_source_table"@ && names[2]
        == "_vector_source_schema"@ && names[3] == "_vector_instance"@ && names[4]
        == "_vector_timestamp"@ && names[5] == "date"@);
    assert(fields[0].name@ == names[0]);
    assert(fields[1].name@ == names[1]);
    assert(fields[2].name@ == names[2]);
    assert(fields[3].name@ == names[3]);
    assert(fields[4].name@ == names[4]);
    assert(fields[5].name@ == names[5]);
    let data = fields.skip(6);
    if 6 <= i < fields.len() {
        assert(data[i - 6] == fields[i]);
        assert(field_types(data).dom().contains(fields[i].name@));
        if i < fields.len() - 1 {
            assert(data[i - 5] == fields[i + 1]);
        }
    }
}

/// The table of an event is the one that it names under `_vector_table`.
pub proof fn events_name_their_table(log: LogEvent, bytes: Vec<u8>)
    ensures
        holds(Event::Log(log), "_vector_table"@, LogValue::Bytes(bytes)) && valid_utf8(bytes@)
            ==> table_of(log) == decode_utf8(bytes@),
        tells_no_text(Event::Log(log), "_vector_table"@) ==> table_of(log) == "unknown_table"@,
{
    let path = "_vector_table"@;
    lemma_no_text(Event::Log(log), path);
    if holds(Event::Log(log), path, LogValue::Bytes(bytes)) {
        let k = choose|k: int| #[trigger]
            is_first(log.entries@, path, k) && log.entries@[k].value == LogValue::Bytes(bytes);
        first_entry_is_found(log.entries@, path, k);
    }
    first_entry_is_found(log.entries@, path, 0);
}

/// The first batch of a table fixes its schema, for this and all later batches and for
/// the creation of the table.
pub proof fn first_batch_fixes_the_schema(
    before: DeltaLakeWriter,
    after: DeltaLakeWriter,
    events: Seq<Event>,
)
    requires
        before.fixed() is None,
        events.len() > 0,
        events[0] is Log,
        after.learnt(before, events),
    ensures
        after.fixed() is Some,
        after.creation_schema() == after.fixed(),
        is_schema(after.fixed()->0, data_columns(before.cache(), events[0]->Log_0)),
{
}

/// A batch is made of events that tell where they come from, whatever else they hold, of
/// a table whose columns are texts, integers, doubles, truth values or points in time:
/// such columns always keep their type.
pub proof fn plain_tables_make_batches(
    r: Result<RecordBatch, BatchError>,
    fields: Seq<Field>,
    columns: Map<Seq<char>, ArrowType>,
    events: Seq<Event>,
    today: Seq<char>,
)
    requires
        is_schema(fields, columns),
        is_made(r, fields, columns_of(fields, events, today)),
        forall|name: Seq<char>| #[trigger]
            columns.dom().contains(name) ==> has_own_cells(columns[name]),
        forall|e: int, name: Seq<char>|
            0 <= e < events.len() && #[trigger] names_origin(name) ==> tells(
                #[trigger] events[e],
                name,
            ),
    ensures
        r is Ok,
{
    let made = columns_of(fields, events, today);
    assert forall|i: int| #![trigger fields[i]] 0 <= i < fields.len() implies has_cells_of(
        made[i],
        fields[i].data_type,
    ) && (fields[i].nullable || is_full(made[i])) by {
        tables_begin_with_these_fields(fields, columns, i);
        assert(made[i] == column_of(fields[i], events, today));
        columns_keep_their_type(fields[i], events, today);
        if i >= 6 {
            let data = fields.skip(6);
            let name = fields[i].name@;
            assert(data[i - 6] == fields[i]);
            lemma_one_place(data, field_place(data, name), i - 6);
            assert(field_types(data)[name] == fields[i].data_type);
            assert(has_own_cells(columns[name]));
        } else {
            lemma_origin_is_full(fields[i], events, today);
        }
    }
    batches_are_made_of_fitting_columns(r, fields, made);
}

/// Whether an event is a log event that holds a text under the path.
pub open spec fn tells(event: Event, path: Seq<char>) -> bool {
    event is Log && exists|bytes: Vec<u8>| #[trigger] holds(event, path, LogValue::Bytes(bytes))
}

proof fn lemma_origin_is_full(field: Field, events: Seq<Event>, today: Seq<char>)
    requires
        field.data_type == ArrowType::Utf8,
        names_origin(field.name@) || field.name@ == "date"@,
        forall|e: int, name: Seq<char>|
            0 <= e < events.len() && #[trigger] names_origin(name) ==> tells(
                #[trigger] events[e],
                name,
            ),
    ensures
        is_full(column_of(field, events, today)),
{
    let cells = column_of(field, events, today)->Text_0;
    assert forall|e: int| 0 <= e < cells.len() implies (#[trigger] cells[e]) is Some by {
        assert(names_origin("_vector_table"@));
        assert(tells(events[e], "_vector_table"@));
        if names_origin(field.name@) {
            assert(tells(events[e], field.name@));
            let bytes = choose|bytes: Vec<u8>| #[trigger]
                holds(events[e], field.name@, LogValue::Bytes(bytes));
            let log = events[e]->Log_0;
            let k = choose|k: int| #[trigger]
                is_first(log.entries@, field.name@, k) && log.entries@[k].value
                    == LogValue::Bytes(bytes);
            first_entry_is_found(log.entries@, field.name@, k);
        } else {
            every_log_event_has_a_date(events[e]->Log_0, today);
        }
    }
}

/// A name that is reserved is never that of a data field.
pub proof fn reserved_names_are_no_data_fields(
    cache: Map<Seq<char>, Map<Seq<char>, Seq<char>>>,
    log: LogEvent,
    fields: Seq<Field>,
    i: int,
)
    requires
        is_schema(fields, data_columns(cache, log)),
        6 <= i < fields.len(),
    ensures
        is_free_name(fields[i].name@),
{
    added_fields_are_data_fields(cache, log, fields, i);
    lemma_free_name(fields[i].name@);
}

proof fn lemma_described_is_there(columns: Seq<(String, LogValue)>, name: Seq<char>)
    requires
        described_types(columns).dom().contains(name),
    ensures
        exists|k: int|
            0 <= k < columns.len() && (#[trigger] columns[k]).0@ == name
                && columns[k].1 is Object,
    decreases columns.len(),
{
    let less = columns.drop_last();
    if described_types(less).dom().contains(name) {
        lemma_described_is_there(less, name);
        let k = choose|k: int|
            0 <= k < less.len() && (#[trigger] less[k]).0@ == name && less[k].1 is Object;
        assert(columns[k] == less[k]);
    } else {
        assert(columns[columns.len() - 1].0@ == name);
    }
}

/// A table that an event describes has no data fields but those that are described.
pub proof fn data_fields_are_described(
    cache: Map<Seq<char>, Map<Seq<char>, Seq<char>>>,
    log: LogEvent,
    fields: Seq<Field>,
    columns: Vec<(String, LogValue)>,
    i: int,
)
    requires
        is_schema(fields, data_columns(cache, log)),
        !cache.dom().contains(table_of(log)),
        holds(Event::Log(log), "_schema_metadata"@, LogValue::Object(columns)),
        6 <= i < fields.len(),
    ensures
        exists|k: int|
            0 <= k < columns@.len() && (#[trigger] columns@[k]).0@ == fields[i].name@
                && columns@[k].1 is Object,
{
    lemma_metadata(log, columns);
    tables_begin_with_these_fields(fields, data_columns(cache, log), i);
    lemma_described_is_there(columns@, fields[i].name@);
}

/// What the first event that describes a table says of its columns is remembered for the
/// table, and later events find it there.
pub proof fn descriptions_are_remembered(
    cache: Map<Seq<char>, Map<Seq<char>, Seq<char>>>,
    log: LogEvent,
    columns: Vec<(String, LogValue)>,
    k: int,
    name: Seq<char>,
    entries: Vec<(String, LogValue)>,
    m: int,
    bytes: Vec<u8>,
)
    requires
        !cache.dom().contains(table_of(log)),
        holds(Event::Log(log), "_schema_metadata"@, LogValue::Object(columns)),
        0 <= k < columns@.len(),
        columns@[k].0@ == name,
        forall|j: int| k < j < columns@.len() ==> (#[trigger] columns@[j]).0@ != name,
        columns@[k].1 == LogValue::Object(entries),
        0 <= m < entries@.len(),
        entries@[m].0@ == "mysql_type"@,
        forall|j: int| 0 <= j < m ==> (#[trigger] entries@[j]).0@ != "mysql_type"@,
        entries@[m].1 == LogValue::Bytes(bytes),
        valid_utf8(bytes@),
    ensures
        remembered(cache, log).dom().contains(table_of(log)),
        remembered(cache, log)[table_of(log)].dom().contains(name),
        remembered(cache, log)[table_of(log)][name] == decode_utf8(bytes@),
        forall|other: Seq<char>|
            other != table_of(log) ==> remembered(cache, log).dom().contains(other)
                == #[trigger] cache.dom().contains(other),
{
    lemma_metadata(log, columns);
    lemma_first_member(entries@, "mysql_type"@, m);
    lemma_last_described(columns@, k, name, decode_utf8(bytes@));
}

/// A writer keeps its settings, and learns nothing from events where its schema is fixed,
/// where there are none, or where the first is no log event.
pub proof fn writers_learn_once(
    before: DeltaLakeWriter,
    after: DeltaLakeWriter,
    events: Seq<Event>,
)
    ensures
        after.same_settings(before) ==> after.table_path == before.table_path && after.table_config
            == before.table_config && after.write_config == before.write_config
            && after.storage_options == before.storage_options,
        after.learnt(before, events) && (before.fixed() is Some || events.len() == 0
            || events[0] is Other) ==> after.fixed() == before.fixed() && after.creation_schema()
            == before.creation_schema() && after.cache() == before.cache(),
{
}

/// The type of a value is that of its kind, and both ways to ask for it agree.
pub proof fn values_have_the_type_of_their_kind(
    value: &LogValue,
    told: ArrowType,
    inferred: ArrowType,
)
    requires
        call_ensures(value_to_arrow_type, (value,), told),
        call_ensures(infer_arrow_type, (value,), inferred),
    ensures
        told == inferred,
        told is Int64 <==> *value is Integer,
        told is Float64 <==> *value is Float,
        told is Boolean <==> *value is Boolean,
        !(*value is Integer || *value is Float || *value is Boolean) ==> told is Utf8,
{
}

} // verus!
