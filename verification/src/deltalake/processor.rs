//! Which events go to which table, and by which writer they are written.
use vstd::prelude::*;
use vstd::string::*;
use vstd::utf8::{decode_utf8, valid_utf8};
use crate::deltalake::config::{options_held, DeltaTableConfig, WriteConfig};
use crate::deltalake::cells::{
    first_entry_is_found, holds, holds_nothing, is_first, lemma_no_text, tells_no_text,
};
use crate::deltalake::event::{Event, LogValue};
use crate::deltalake::writer::DeltaLakeWriter;
use crate::string_map::{copy_texts, StringMap};
use crate::text::{
    contains, has_part, has_prefix, parts_are_found, same, starts_with, texts,
};

verus! {

/// The table that an event goes to.
pub open spec fn destination(event: Event) -> Option<Seq<char>> {
    match event {
        Event::Other => None,
        Event::Log(log) => match log.text_at("_vector_table"@) {
            Some(name) => Some(name),
            None => match log.text_at("dest_table"@) {
                Some(name) => Some(name),
                None => log.text_at("table"@),
            },
        },
    }
}

/// The table that an event goes to.
pub fn table_for(event: &Event) -> (r: Option<String>)
    ensures
        match r {
            Some(name) => destination(*event) == Some(name@),
            None => destination(*event) is None,
        },
{
    match event {
        Event::Other => None,
        Event::Log(log) => match log.get_text("_vector_table") {
            Some(name) => Some(name),
            None => match log.get_text("dest_table") {
                Some(name) => Some(name),
                None => log.get_text("table"),
            },
        },
    }
}

/// The events of one table, by their places in a batch.
pub struct TableEvents {
    pub table: String,
    pub places: Vec<usize>,
}

/// The places before `upto` at which the events for a table stand, in order.
pub open spec fn places_of(events: Seq<Event>, table: Seq<char>, upto: int) -> Seq<int>
    decreases upto,
{
    if upto <= 0 {
        Seq::empty()
    } else {
        let earlier = places_of(events, table, upto - 1);
        if destination(events[upto - 1]) == Some(table) {
            earlier.push(upto - 1)
        } else {
            earlier
        }
    }
}

/// The tables of the events before `upto`, in the order of their first events.
pub open spec fn tables_of(events: Seq<Event>, upto: int) -> Seq<Seq<char>>
    decreases upto,
{
    if upto <= 0 {
        Seq::empty()
    } else {
        let earlier = tables_of(events, upto - 1);
        match destination(events[upto - 1]) {
            Some(table) => if earlier.contains(table) {
                earlier
            } else {
                earlier.push(table)
            },
            None => earlier,
        }
    }
}

/// Whether the groups hold, for each table, the events before `upto` that go to it.
pub open spec fn are_groups(groups: Seq<TableEvents>, events: Seq<Event>, upto: int) -> bool {
    &&& groups.len() == tables_of(events, upto).len()
    &&& forall|g: int|
        0 <= g < groups.len() ==> (#[trigger] groups[g]).table@ == tables_of(events, upto)[g]
            && groups[g].places@.map_values(|p: usize| p as int) == places_of(
            events,
            groups[g].table@,
            upto,
        )
}

proof fn lemma_tables_distinct(events: Seq<Event>, upto: int)
    ensures
        tables_of(events, upto).no_duplicates(),
    decreases upto,
{
    if upto > 0 {
        lemma_tables_distinct(events, upto - 1);
    }
}

proof fn lemma_no_places(events: Seq<Event>, table: Seq<char>, upto: int)
    requires
        !tables_of(events, upto).contains(table),
    ensures
        places_of(events, table, upto).len() == 0,
    decreases upto,
{
    if upto > 0 {
        let earlier = tables_of(events, upto - 1);
        let now = tables_of(events, upto);
        if earlier.contains(table) {
            let k = choose|k: int| 0 <= k < earlier.len() && earlier[k] == table;
            assert(now[k] == table);
        }
        if destination(events[upto - 1]) == Some(table) {
            assert(now[now.len() - 1] == table);
        }
        lemma_no_places(events, table, upto - 1);
    }
}

fn find_group(groups: &Vec<TableEvents>, table: &str) -> (r: Option<usize>)
    ensures
        match r {
            Some(g) => g < groups@.len() && groups@[g as int].table@ == table@,
            None => forall|g: int|
                0 <= g < groups@.len() ==> (#[trigger] groups@[g]).table@ != table@,
        },
{
    let mut g: usize = 0;
    while g < groups.len()
        invariant
            g <= groups@.len(),
            forall|k: int| 0 <= k < g ==> (#[trigger] groups@[k]).table@ != table@,
        decreases groups@.len() - g,
    {
        if same(groups[g].table.as_str(), table) {
            return Some(g);
        }
        g += 1;
    }
    None
}

/// Group events by table. Events that go to no table are left out.
pub fn group_events(events: &Vec<Event>) -> (r: Vec<TableEvents>)
    ensures
        are_groups(r@, events@, events@.len() as int),
{
    let mut groups: Vec<TableEvents> = Vec::new();
    let mut i: usize = 0;
    while i < events.len()
        invariant
            i <= events@.len(),
            are_groups(groups@, events@, i as int),
        decreases events@.len() - i,
    {
        let ghost had = groups@;
        let ghost tables = tables_of(events@, i as int);
        proof {
            lemma_tables_distinct(events@, i as int);
        }
        match table_for(&events[i]) {
            None => {
                proof {
                    assert forall|g: int| 0 <= g < had.len() implies places_of(
                        events@,
                        (#[trigger] had[g]).table@,
                        i + 1,
                    ) == places_of(events@, had[g].table@, i as int) by {}
                }
            },
            Some(table) => {
                match find_group(&groups, table.as_str()) {
                    Some(g) => {
                        assert(tables[g as int] == table@);
                        let mut places: Vec<usize> = Vec::new();
                        std::mem::swap(&mut places, &mut groups[g].places);
                        let ghost before = places@;
                        places.push(i);
                        let ghost after = places@;
                        groups[g].places = places;
                        proof {
                            assert(after.map_values(|p: usize| p as int) =~= before.map_values(
                                |p: usize| p as int,
                            ).push(i as int));
                            assert(groups@[g as int].table == had[g as int].table);
                            assert forall|k: int| 0 <= k < groups@.len() implies (
                            #[trigger] groups@[k]).table@ == tables_of(events@, i + 1)[k]
                                && groups@[k].places@.map_values(|p: usize| p as int) == places_of(
                                events@,
                                groups@[k].table@,
                                i + 1,
                            ) by {
                                assert(had[k].table@ == tables[k]);
                                if k != g {
                                    assert(groups@[k] == had[k]);
                                    assert(tables[k] != tables[g as int]);
                                }
                            }
                        }
                    },
                    None => {
                        assert(!tables.contains(table@)) by {
                            if tables.contains(table@) {
                                let k = choose|k: int| 0 <= k < tables.len() && tables[k] == table@;
                                assert(had[k].table@ == table@);
                            }
                        }
                        let mut places: Vec<usize> = Vec::new();
                        places.push(i);
                        let ghost after = places@;
                        let ghost name = table@;
                        groups.push(TableEvents { table, places });
                        proof {
                            lemma_no_places(events@, name, i as int);
                            assert(after.map_values(|p: usize| p as int) =~= places_of(
                                events@,
                                name,
                                i + 1,
                            ));
                            assert forall|k: int| 0 <= k < groups@.len() implies (
                            #[trigger] groups@[k]).table@ == tables_of(events@, i + 1)[k]
                                && groups@[k].places@.map_values(|p: usize| p as int) == places_of(
                                events@,
                                groups@[k].table@,
                                i + 1,
                            ) by {
                                if k < had.len() {
                                    assert(groups@[k] == had[k]);
                                    assert(had[k].table@ == tables[k]);
                                    assert(tables.contains(tables[k]));
                                }
                            }
                        }
                    },
                }
            },
        }
        i += 1;
    }
    groups
}

/// Whether a message tells that a table is damaged.
pub open spec fn tells_corruption(message: Seq<char>) -> bool {
    ||| has_part(message, "log segment"@)
    ||| has_part(message, "Invalid table version"@)
    ||| has_part(message, "not found"@)
    ||| has_part(message, "No such file or directory"@)
}

/// How a failed write is dealt with.
#[derive(Debug, PartialEq)]
pub enum WriteFailure {
    /// The table is damaged: the sink stops with this message
    Corruption(String),
    /// The write is reported with this message, and the sink goes on
    Reported(String),
}

/// How a failed write to a table is dealt with.
pub fn write_failure(table_name: &str, error_msg: &str) -> (r: WriteFailure)
    ensures
        match r {
            WriteFailure::Corruption(message) => tells_corruption(error_msg@) && message@
                == "Delta Lake corruption detected for table "@ + table_name@ + ": "@ + error_msg@,
            WriteFailure::Reported(message) => !tells_corruption(error_msg@) && message@
                == "Failed to write events to table "@ + table_name@ + ": "@ + error_msg@,
        },
{
    if contains(error_msg, "log segment") || contains(error_msg, "Invalid table version")
        || contains(error_msg, "not found") || contains(error_msg, "No such file or directory") {
        WriteFailure::Corruption(
            "Delta Lake corruption detected for table ".to_string().concat(table_name).concat(
                ": ",
            ).concat(error_msg),
        )
    } else {
        WriteFailure::Reported(
            "Failed to write events to table ".to_string().concat(table_name).concat(": ").concat(
                error_msg,
            ),
        )
    }
}

/// Delta Lake sink processor.
pub struct DeltaLakeSink {
    pub base_path: String,
    pub tables: Vec<DeltaTableConfig>,
    pub write_config: WriteConfig,
    pub storage_options: Option<StringMap<String>>,
    pub writers: StringMap<DeltaLakeWriter>,
}

/// The first of the configurations with the name.
pub open spec fn config_named(tables: Seq<DeltaTableConfig>, name: Seq<char>) -> Option<
    DeltaTableConfig,
>
    decreases tables.len(),
{
    if tables.len() == 0 {
        None
    } else if tables[0].name@ == name {
        Some(tables[0])
    } else {
        config_named(tables.skip(1), name)
    }
}

/// Whether `config` is the configuration of a table: the configured one, or else
/// one that is partitioned by date.
pub open spec fn is_table_config(
    config: DeltaTableConfig,
    tables: Seq<DeltaTableConfig>,
    name: Seq<char>,
) -> bool {
    match config_named(tables, name) {
        Some(found) => config.same_table(found),
        None => config.name@ == name && config.partitions() == Some(seq!["date"@])
            && config.schema_evolution == Some(true),
    }
}

/// What optional options hold.
pub open spec fn optional_options(options: Option<StringMap<String>>) -> Option<
    Map<Seq<char>, Seq<char>>,
> {
    match options {
        Some(o) => Some(options_held(o@)),
        None => None,
    }
}

impl DeltaLakeSink {
    /// Create a new Delta Lake sink.
    pub fn new(
        base_path: String,
        tables: Vec<DeltaTableConfig>,
        write_config: WriteConfig,
        storage_options: Option<StringMap<String>>,
    ) -> (r: Self)
        ensures
            r.base_path == base_path,
            r.tables == tables,
            r.write_config == write_config,
            r.storage_options == storage_options,
            r.writers.items().len() == 0,
    {
        DeltaLakeSink {
            base_path,
            tables,
            write_config,
            storage_options,
            writers: StringMap::new(),
        }
    }

    /// Where a table is, in a remote store: its name behind the base path. A local
    /// table is where its name joined to the base path leads.
    pub fn remote_table_path(&self, table_name: &str) -> (r: Option<String>)
        ensures
            match r {
                Some(path) => has_prefix(self.base_path@, "s3://"@) && path@ == self.base_path@
                    + "/"@ + table_name@,
                None => !has_prefix(self.base_path@, "s3://"@),
            },
    {
        if starts_with(self.base_path.as_str(), "s3://") {
            Some(self.base_path.clone().concat("/").concat(table_name))
        } else {
            None
        }
    }

    /// The configuration of a table.
    pub fn table_config(&self, table_name: &str) -> (r: DeltaTableConfig)
        ensures
            is_table_config(r, self.tables@, table_name@),
    {
        let ghost all = self.tables@;
        let mut i: usize = 0;
        assert(all.skip(0) =~= all);
        while i < self.tables.len()
            invariant
                all == self.tables@,
                i <= all.len(),
                config_named(all, table_name@) == config_named(all.skip(i as int), table_name@),
            decreases all.len() - i,
        {
            assert(all.skip(i as int)[0] == all[i as int]);
            assert(all.skip(i as int).skip(1) =~= all.skip(i + 1));
            if same(self.tables[i].name.as_str(), table_name) {
                return self.tables[i].clone();
            }
            i += 1;
        }
        let mut partition_by: Vec<String> = Vec::new();
        partition_by.push("date".to_string());
        assert(texts(partition_by@) =~= seq!["date"@]);
        DeltaTableConfig {
            name: table_name.to_string(),
            partition_by: Some(partition_by),
            schema_evolution: Some(true),
        }
    }

    /// Whether everything but the writers is the same.
    pub open spec fn same_settings(self, other: Self) -> bool {
        &&& self.base_path == other.base_path
        &&& self.tables == other.tables
        &&& self.write_config == other.write_config
        &&& self.storage_options == other.storage_options
    }

    /// Takes the writer of a table, or makes one where there is none, for a table at
    /// `table_path`.
    pub fn take_writer(&mut self, table_name: &str, table_path: String) -> (r: DeltaLakeWriter)
        ensures
            final(self).same_settings(*old(self)),
            final(self).writers@ == old(self).writers@.remove(table_name@),
            if old(self).writers@.dom().contains(table_name@) {
                r == old(self).writers@[table_name@]
            } else {
                &&& r.table_path == table_path
                &&& is_table_config(r.table_config, old(self).tables@, table_name@)
                &&& r.write_config == old(self).write_config
                &&& optional_options(r.storage_options) == optional_options(
                    old(self).storage_options,
                )
                &&& r.schema is None
                &&& r.fixed_arrow_schema is None
                &&& r.cache() == Map::<Seq<char>, Map<Seq<char>, Seq<char>>>::empty()
            },
    {
        match self.writers.remove(table_name) {
            Some(writer) => writer,
            None => {
                let storage_options = match &self.storage_options {
                    Some(options) => Some(copy_texts(options)),
                    None => None,
                };
                DeltaLakeWriter::new(
                    table_path,
                    self.table_config(table_name),
                    self.write_config.clone(),
                    storage_options,
                )
            },
        }
    }

    /// Puts the writer of a table back.
    pub fn put_writer(&mut self, table_name: &str, writer: DeltaLakeWriter)
        ensures
            final(self).same_settings(*old(self)),
            final(self).writers@ == old(self).writers@.insert(table_name@, writer),
    {
        self.writers.insert(table_name.to_string(), writer);
    }
}

/// Every event that goes to a table is in the group of that table, in order and
/// once: the places of a group rise, and are those of the table's events.
pub proof fn groups_keep_events_in_order(events: Seq<Event>, table: Seq<char>, upto: int)
    requires
        0 <= upto <= events.len(),
    ensures
        forall|a: int, b: int|
            0 <= a < b < places_of(events, table, upto).len() ==> (#[trigger] places_of(
                events,
                table,
                upto,
            )[a]) < (#[trigger] places_of(events, table, upto)[b]),
        forall|i: int|
            0 <= i < upto ==> ((#[trigger] destination(events[i])) == Some(table) <==> places_of(
                events,
                table,
                upto,
            ).contains(i)),
        forall|a: int|
            0 <= a < places_of(events, table, upto).len() ==> 0 <= #[trigger] places_of(
                events,
                table,
                upto,
            )[a] < upto,
    decreases upto,
{
    if upto > 0 {
        groups_keep_events_in_order(events, table, upto - 1);
        let earlier = places_of(events, table, upto - 1);
        let now = places_of(events, table, upto);
        assert forall|i: int| 0 <= i < upto implies ((#[trigger] destination(events[i])) == Some(
            table,
        ) <==> now.contains(i)) by {
            if i < upto - 1 {
                if earlier.contains(i) {
                    let k = choose|k: int| 0 <= k < earlier.len() && earlier[k] == i;
                    assert(now[k] == i);
                }
                if now.contains(i) {
                    let k = choose|k: int| 0 <= k < now.len() && now[k] == i;
                    assert(earlier[k] == i);
                }
            } else {
                if destination(events[i]) == Some(table) {
                    assert(now[now.len() - 1] == i);
                } else if now.contains(i) {
                    let k = choose|k: int| 0 <= k < now.len() && now[k] == i;
                    assert(earlier[k] == i);
                }
            }
        }
    }
}

/// Every table that an event goes to has exactly one group.
pub proof fn every_table_has_one_group(events: Seq<Event>, upto: int)
    requires
        0 <= upto <= events.len(),
    ensures
        tables_of(events, upto).no_duplicates(),
        forall|i: int|
            0 <= i < upto && (#[trigger] destination(events[i])) is Some ==> tables_of(
                events,
                upto,
            ).contains(destination(events[i])->0),
    decreases upto,
{
    if upto > 0 {
        every_table_has_one_group(events, upto - 1);
        let earlier = tables_of(events, upto - 1);
        let now = tables_of(events, upto);
        assert forall|i: int|
            0 <= i < upto && (#[trigger] destination(events[i])) is Some implies now.contains(
            destination(events[i])->0,
        ) by {
            let table = destination(events[i])->0;
            if earlier.contains(table) {
                let k = choose|k: int| 0 <= k < earlier.len() && earlier[k] == table;
                assert(now[k] == table);
            } else {
                assert(i == upto - 1);
                assert(now[now.len() - 1] == table);
            }
        }
    }
}

/// An event goes to the table that it names under `_vector_table`, else to that under
/// `dest_table`, else to that under `table`; without any of them it goes to none.
pub proof fn events_go_where_they_say(event: Event, bytes: Vec<u8>)
    requires
        valid_utf8(bytes@),
    ensures
        holds(event, "_vector_table"@, LogValue::Bytes(bytes)) ==> destination(event) == Some(
            decode_utf8(bytes@),
        ),
        tells_no_text(event, "_vector_table"@) && holds(
            event,
            "dest_table"@,
            LogValue::Bytes(bytes),
        ) ==> destination(event) == Some(decode_utf8(bytes@)),
        tells_no_text(event, "_vector_table"@) && tells_no_text(event, "dest_table"@) && holds(
            event,
            "table"@,
            LogValue::Bytes(bytes),
        ) ==> destination(event) == Some(decode_utf8(bytes@)),
        tells_no_text(event, "_vector_table"@) && tells_no_text(event, "dest_table"@)
            && tells_no_text(event, "table"@) ==> destination(event) is None,
        event is Other ==> destination(event) is None,
{
    lemma_no_text(event, "_vector_table"@);
    lemma_no_text(event, "dest_table"@);
    lemma_no_text(event, "table"@);
    if let Event::Log(log) = event {
        lemma_found(event, "_vector_table"@, bytes);
        lemma_found(event, "dest_table"@, bytes);
        lemma_found(event, "table"@, bytes);
    }
}

proof fn lemma_found(event: Event, path: Seq<char>, bytes: Vec<u8>)
    requires
        event is Log,
    ensures
        holds(event, path, LogValue::Bytes(bytes)) ==> event->Log_0.at(path) is Some
            && event->Log_0.at(path)->0.value == LogValue::Bytes(bytes),
        holds_nothing(event, path) ==> event->Log_0.at(path) is None,
{
    let log = event->Log_0;
    if holds(event, path, LogValue::Bytes(bytes)) {
        let k = choose|k: int| #[trigger]
            is_first(log.entries@, path, k) && log.entries@[k].value == LogValue::Bytes(bytes);
        first_entry_is_found(log.entries@, path, k);
    }
    first_entry_is_found(log.entries@, path, 0);
}

/// A message tells of a damaged table exactly if it speaks of a log segment, of an
/// invalid version, or of something that is not found or not there.
pub proof fn damage_is_told_by_these_words(
    start: Seq<char>,
    end: Seq<char>,
    message: Seq<char>,
)
    ensures
        tells_corruption(start + "log segment"@ + end),
        tells_corruption(start + "Invalid table version"@ + end),
        tells_corruption(start + "not found"@ + end),
        tells_corruption(start + "No such file or directory"@ + end),
        !has_part(message, "log segment"@) && !has_part(message, "Invalid table version"@)
            && !has_part(message, "not found"@) && !has_part(message, "No such file or directory"@)
            ==> !tells_corruption(message),
{
    parts_are_found(start, "log segment"@, end);
    parts_are_found(start, "Invalid table version"@, end);
    parts_are_found(start, "not found"@, end);
    parts_are_found(start, "No such file or directory"@, end);
}

/// A table has the first configuration of its name; one without any is partitioned by
/// date, and its schema may change.
pub proof fn tables_have_their_configuration(
    tables: Seq<DeltaTableConfig>,
    name: Seq<char>,
    k: int,
)
    ensures
        0 <= k < tables.len() && tables[k].name@ == name && (forall|j: int|
            0 <= j < k ==> (#[trigger] tables[j]).name@ != name) ==> config_named(tables, name)
            == Some(tables[k]),
        (forall|j: int| 0 <= j < tables.len() ==> (#[trigger] tables[j]).name@ != name)
            ==> config_named(tables, name) is None,
    decreases tables.len(),
{
    if tables.len() > 0 {
        let rest = tables.skip(1);
        tables_have_their_configuration(rest, name, k - 1);
        assert(forall|j: int| 0 <= j < rest.len() ==> #[trigger] rest[j] == tables[j + 1]);
        if 0 < k < tables.len() && (forall|j: int|
            0 <= j < k ==> (#[trigger] tables[j]).name@ != name) {
            assert(tables[0].name@ != name);
            assert forall|j: int| 0 <= j < k - 1 implies (#[trigger] rest[j]).name@ != name by {
                assert(tables[j + 1].name@ != name);
            }
        }
        if forall|j: int| 0 <= j < tables.len() ==> (#[trigger] tables[j]).name@ != name {
            assert(tables[0].name@ != name);
            assert forall|j: int| 0 <= j < rest.len() implies (#[trigger] rest[j]).name@
                != name by {
                assert(tables[j + 1].name@ != name);
            }
        }
    }
}

/// A table that is configured is written as it is configured, and any other is
/// partitioned by date.
pub proof fn tables_are_partitioned_as_configured(
    config: DeltaTableConfig,
    tables: Seq<DeltaTableConfig>,
    name: Seq<char>,
    k: int,
)
    requires
        is_table_config(config, tables, name),
    ensures
        0 <= k < tables.len() && tables[k].name@ == name && (forall|j: int|
            0 <= j < k ==> (#[trigger] tables[j]).name@ != name) ==> config.name@ == name
            && config.partitions() == tables[k].partitions() && config.schema_evolution
            == tables[k].schema_evolution,
        (forall|j: int| 0 <= j < tables.len() ==> (#[trigger] tables[j]).name@ != name)
            ==> config.name@ == name && config.partitions() == Some(seq!["date"@])
            && config.schema_evolution == Some(true),
{
    tables_have_their_configuration(tables, name, k);
}

/// Two events stand in the same group exactly if they go to the same table, and in a
/// group they stand in the order in which they came.
pub proof fn groups_are_of_one_table(
    groups: Seq<TableEvents>,
    events: Seq<Event>,
    g: int,
    a: int,
)
    requires
        are_groups(groups, events, events.len() as int),
        0 <= g < groups.len(),
        0 <= a < groups[g].places@.len(),
    ensures
        groups[g].places@[a] < events.len(),
        destination(events[groups[g].places@[a] as int]) == Some(groups[g].table@),
        a > 0 ==> groups[g].places@[a - 1] < groups[g].places@[a],
{
    let table = groups[g].table@;
    let n = events.len() as int;
    let places = places_of(events, table, n);
    groups_keep_events_in_order(events, table, n);
    assert(groups[g].places@.map_values(|p: usize| p as int) == places);
    assert(places[a] == groups[g].places@[a] as int);
    assert(places.contains(places[a]));
    if a > 0 {
        assert(places[a - 1] == groups[g].places@[a - 1] as int);
    }
}

/// Every event that goes to a table stands in the group of that table.
pub proof fn no_event_gets_lost(groups: Seq<TableEvents>, events: Seq<Event>, i: int) -> (r: (
    int,
    int,
))
    requires
        are_groups(groups, events, events.len() as int),
        0 <= i < events.len(),
        destination(events[i]) is Some,
    ensures
        0 <= r.0 < groups.len(),
        0 <= r.1 < groups[r.0].places@.len(),
        groups[r.0].table@ == destination(events[i])->0,
        groups[r.0].places@[r.1] == i,
{
    let n = events.len() as int;
    let table = destination(events[i])->0;
    every_table_has_one_group(events, n);
    groups_keep_events_in_order(events, table, n);
    let tables = tables_of(events, n);
    assert(tables.contains(table));
    let g = choose|g: int| 0 <= g < tables.len() && tables[g] == table;
    assert(groups[g].table@ == table);
    let places = places_of(events, table, n);
    assert(places.contains(i));
    let a = choose|a: int| 0 <= a < places.len() && places[a] == i;
    assert(groups[g].places@.map_values(|p: usize| p as int)[a] == places[a]);
    (g, a)
}

/// The groups stand in the order in which their tables were first gone to: more events
/// add tables behind those that are there, and change nothing before them.
pub proof fn groups_stand_in_order_of_arrival(events: Seq<Event>, upto: int, i: int)
    requires
        0 <= upto < events.len(),
    ensures
        tables_of(events, upto).len() <= tables_of(events, upto + 1).len(),
        0 <= i < tables_of(events, upto).len() ==> tables_of(events, upto + 1)[i] == tables_of(
            events,
            upto,
        )[i],
        destination(events[upto]) matches Some(table) ==> (tables_of(events, upto).contains(table)
            || tables_of(events, upto + 1) == tables_of(events, upto).push(table)),
{
}

/// A sink keeps its settings: the base path, the tables, the write configuration and the
/// storage options.
pub proof fn sinks_keep_their_settings(before: DeltaLakeSink, after: DeltaLakeSink)
    requires
        after.same_settings(before),
    ensures
        after.base_path == before.base_path,
        after.tables == before.tables,
        after.write_config == before.write_config,
        after.storage_options == before.storage_options,
{
}

/// A write that fails with a message about damage stops the sink, and any other failure
/// is reported; either way the table and the message are told.
pub proof fn failed_writes_are_told(table: &str, error: &str, r: WriteFailure)
    requires
        call_ensures(write_failure, (table, error), r),
    ensures
        r is Corruption <==> has_part(error@, "log segment"@) || has_part(
            error@,
            "Invalid table version"@,
        ) || has_part(error@, "not found"@) || has_part(error@, "No such file or directory"@),
        r matches WriteFailure::Corruption(message) ==> message@
            == "Delta Lake corruption detected for table "@ + table@ + ": "@ + error@,
        r matches WriteFailure::Reported(message) ==> message@
            == "Failed to write events to table "@ + table@ + ": "@ + error@,
{
}

/// A table in a remote store is found by its name behind the base path.
pub proof fn remote_tables_are_behind_the_base_path(
    sink: &DeltaLakeSink,
    table: &str,
    rest: Seq<char>,
    r: Option<String>,
)
    requires
        call_ensures(DeltaLakeSink::remote_table_path, (sink, table), r),
    ensures
        sink.base_path@ == "s3://"@ + rest ==> (r matches Some(path) && path@ == "s3://"@ + rest
            + "/"@ + table@),
        !has_prefix(sink.base_path@, "s3://"@) ==> r is None,
{
    parts_are_found(Seq::empty(), "s3://"@, rest);
}

/// Grouping loses no event, and puts each in the group of the table that it goes to.
pub proof fn grouped_events_are_all_events(
    events: &Vec<Event>,
    groups: Vec<TableEvents>,
    event: &Event,
    table: Option<String>,
    i: int,
)
    requires
        call_ensures(group_events, (events,), groups),
        call_ensures(table_for, (event,), table),
        0 <= i < events@.len(),
        *event == events@[i],
    ensures
        table matches Some(name) ==> exists|g: int, a: int|
            0 <= g < groups@.len() && 0 <= a < groups@[g].places@.len() && groups@[g].table@
                == name@ && #[trigger] groups@[g].places@[a] == i,
        table is None ==> forall|g: int, a: int|
            0 <= g < groups@.len() && 0 <= a < groups@[g].places@.len()
                ==> #[trigger] groups@[g].places@[a] != i,
{
    if let Some(name) = table {
        let (g, a) = no_event_gets_lost(groups@, events@, i);
        assert(groups@[g].places@[a] == i);
    } else {
        assert forall|g: int, a: int|
            0 <= g < groups@.len() && 0 <= a < groups@[g].places@.len() implies
            #[trigger] groups@[g].places@[a] != i by {
            groups_are_of_one_table(groups@, events@, g, a);
        }
    }
}

/// A writer that was put back is the one that is taken next for its table, and the
/// writers of other tables stay.
pub proof fn writers_are_kept_for_their_table(
    putting: &mut DeltaLakeSink,
    taking: &mut DeltaLakeSink,
    table: &str,
    writer: DeltaLakeWriter,
    path: String,
    taken: DeltaLakeWriter,
    other: Seq<char>,
)
    requires
        call_ensures(DeltaLakeSink::put_writer, (putting, table, writer), ()),
        *old(taking) == *final(putting),
        call_ensures(DeltaLakeSink::take_writer, (taking, table, path), taken),
        other != table@,
    ensures
        taken == writer,
        final(taking).writers@.dom().contains(other) == old(putting).writers@.dom().contains(other),
        !final(taking).writers@.dom().contains(table@),
        final(taking).base_path == old(putting).base_path,
{
}

/// The first writer of a table is made for its path, and has learnt nothing.
pub proof fn first_writers_have_learnt_nothing(
    sink: &mut DeltaLakeSink,
    table: &str,
    path: String,
    taken: DeltaLakeWriter,
)
    requires
        call_ensures(DeltaLakeSink::take_writer, (sink, table, path), taken),
        !old(sink).writers@.dom().contains(table@),
    ensures
        taken.table_path == path,
        taken.write_config == old(sink).write_config,
        taken.fixed() is None && taken.creation_schema() is None,
        taken.cache() == Map::<Seq<char>, Map<Seq<char>, Seq<char>>>::empty(),
        is_table_config(taken.table_config, old(sink).tables@, table@),
{
}

/// A new sink has the settings it was made with and no writers; a new writer likewise has
/// its settings, and has learnt nothing.
pub proof fn sinks_and_writers_keep_their_settings(
    path: String,
    tables: Vec<DeltaTableConfig>,
    table: DeltaTableConfig,
    write: WriteConfig,
    options: Option<StringMap<String>>,
    sink: DeltaLakeSink,
    writer: DeltaLakeWriter,
)
    requires
        call_ensures(DeltaLakeSink::new, (path, tables, write, options), sink),
        call_ensures(DeltaLakeWriter::new, (path, table, write, options), writer),
    ensures
        sink.base_path == path && writer.table_path == path,
        sink.tables == tables && writer.table_config == table,
        sink.write_config == write && writer.write_config == write,
        sink.storage_options == options && writer.storage_options == options,
        sink.writers.items() == Seq::<(Seq<char>, DeltaLakeWriter)>::empty(),
        writer.schema is None && writer.fixed_arrow_schema is None,
        writer.cache() == Map::<Seq<char>, Map<Seq<char>, Seq<char>>>::empty(),
{
}

} // verus!
