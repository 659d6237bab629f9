//! The steps by which a batch is written to a table, as each of them succeeds or
//! fails.
use vstd::prelude::*;
use vstd::string::*;
use crate::deltalake::schema::{
    arrow_field_to_delta_field, delta_type, ArrowType, DeltaType, Field, StructField,
};
use crate::deltalake::writer::DeltaLakeWriter;
use crate::text::{contains, has_part, has_prefix, parts_are_found, starts_with, texts};

verus! {

/// What is to be done next.
#[derive(Debug, PartialEq)]
pub enum WriteAction {
    /// Create the directory of the table
    CreateDirectory,
    /// Connect to the place of the table
    Connect,
    /// Load the table, to see whether it exists
    LoadTable,
    /// Look for the log directory of the table, to see whether it exists
    ProbeLogDirectory,
    /// Create the table
    CreateTable,
    /// Connect to the table, to write to it
    Reconnect,
    /// Write the batch
    WriteBatch,
    /// Nothing: the batch has been written
    Finish,
    /// Nothing: the batch cannot be written
    Fail(String),
}

/// What became of an action.
#[derive(Debug, PartialEq)]
pub enum WriteOutcome {
    /// It succeeded
    Done,
    /// It showed that there is no table
    Missing,
    /// It failed with this message
    Failed(String),
}

/// What an action is.
pub enum ActionView {
    CreateDirectory,
    Connect,
    LoadTable,
    ProbeLogDirectory,
    CreateTable,
    Reconnect,
    WriteBatch,
    Finish,
    Fail(Seq<char>),
}

/// What an outcome is.
pub enum OutcomeView {
    Done,
    Missing,
    Failed(Seq<char>),
}

impl View for WriteAction {
    type V = ActionView;

    open spec fn view(&self) -> ActionView {
        match self {
            WriteAction::CreateDirectory => ActionView::CreateDirectory,
            WriteAction::Connect => ActionView::Connect,
            WriteAction::LoadTable => ActionView::LoadTable,
            WriteAction::ProbeLogDirectory => ActionView::ProbeLogDirectory,
            WriteAction::CreateTable => ActionView::CreateTable,
            WriteAction::Reconnect => ActionView::Reconnect,
            WriteAction::WriteBatch => ActionView::WriteBatch,
            WriteAction::Finish => ActionView::Finish,
            WriteAction::Fail(message) => ActionView::Fail(message@),
        }
    }
}

impl View for WriteOutcome {
    type V = OutcomeView;

    open spec fn view(&self) -> OutcomeView {
        match self {
            WriteOutcome::Done => OutcomeView::Done,
            WriteOutcome::Missing => OutcomeView::Missing,
            WriteOutcome::Failed(message) => OutcomeView::Failed(message@),
        }
    }
}

/// Whether a message says that there is no table.
pub open spec fn tells_missing(message: Seq<char>) -> bool {
    has_part(message, "does not exist"@) || has_part(message, "not found"@)
}

/// What is done first: only a local table has a directory to be created.
pub open spec fn first_step(remote: bool) -> ActionView {
    if remote {
        ActionView::Connect
    } else {
        ActionView::CreateDirectory
    }
}

/// How a table that is missing is dealt with: it is created, where its schema is
/// known.
pub open spec fn creation_step(has_schema: bool) -> ActionView {
    if has_schema {
        ActionView::CreateTable
    } else {
        ActionView::Fail("Schema not available"@)
    }
}

/// What is done after an action, by its outcome.
pub open spec fn next_step(
    remote: bool,
    has_schema: bool,
    action: ActionView,
    outcome: OutcomeView,
) -> ActionView {
    match (action, outcome) {
        (ActionView::Finish, _) => action,
        (ActionView::Fail(_), _) => action,
        (_, OutcomeView::Missing) => creation_step(has_schema),
        (ActionView::LoadTable, OutcomeView::Failed(message)) => if tells_missing(message) {
            creation_step(has_schema)
        } else {
            ActionView::Fail(message)
        },
        (_, OutcomeView::Failed(message)) => ActionView::Fail(message),
        (ActionView::CreateDirectory, OutcomeView::Done) => ActionView::Connect,
        (ActionView::Connect, OutcomeView::Done) => if remote {
            ActionView::LoadTable
        } else {
            ActionView::ProbeLogDirectory
        },
        (ActionView::LoadTable, OutcomeView::Done) => ActionView::Reconnect,
        (ActionView::ProbeLogDirectory, OutcomeView::Done) => ActionView::Reconnect,
        (ActionView::CreateTable, OutcomeView::Done) => ActionView::Reconnect,
        (ActionView::Reconnect, OutcomeView::Done) => ActionView::WriteBatch,
        (ActionView::WriteBatch, OutcomeView::Done) => ActionView::Finish,
    }
}

/// The columns of a Delta Lake table for the fields of a schema.
pub open spec fn is_delta_schema(columns: Seq<StructField>, fields: Seq<Field>) -> bool {
    &&& columns.len() == fields.len()
    &&& forall|i: int|
        0 <= i < fields.len() ==> (#[trigger] columns[i]).name@ == fields[i].name@
            && columns[i].data_type == delta_type(fields[i].data_type) && columns[i].nullable
            == fields[i].nullable
}

impl DeltaLakeWriter {
    /// Whether the table is in a remote store.
    pub open spec fn is_remote(self) -> bool {
        has_prefix(self.table_path@, "s3://"@)
    }

    fn remote(&self) -> (r: bool)
        ensures
            r == self.is_remote(),
    {
        starts_with(self.table_path.as_str(), "s3://")
    }

    /// What is done first to write a batch.
    pub fn begin_write(&self) -> (r: WriteAction)
        ensures
            r@ == first_step(self.is_remote()),
    {
        if self.remote() {
            WriteAction::Connect
        } else {
            WriteAction::CreateDirectory
        }
    }

    fn create_or_fail(&self) -> (r: WriteAction)
        ensures
            r@ == creation_step(self.schema is Some),
    {
        if self.schema.is_some() {
            WriteAction::CreateTable
        } else {
            WriteAction::Fail("Schema not available".to_string())
        }
    }

    /// What is done next to write a batch, after `action` had this outcome.
    pub fn continue_write(&self, action: WriteAction, outcome: WriteOutcome) -> (r: WriteAction)
        requires
            outcome@ is Missing ==> action@ is ProbeLogDirectory,
        ensures
            r@ == next_step(self.is_remote(), self.schema is Some, action@, outcome@),
    {
        match action {
            WriteAction::Finish => {
                return WriteAction::Finish;
            },
            WriteAction::Fail(message) => {
                return WriteAction::Fail(message);
            },
            WriteAction::LoadTable => {
                return match outcome {
                    WriteOutcome::Done => WriteAction::Reconnect,
                    WriteOutcome::Missing => self.create_or_fail(),
                    WriteOutcome::Failed(message) => {
                        if contains(message.as_str(), "does not exist") || contains(
                            message.as_str(),
                            "not found",
                        ) {
                            self.create_or_fail()
                        } else {
                            WriteAction::Fail(message)
                        }
                    },
                };
            },
            _ => {},
        }
        match outcome {
            WriteOutcome::Failed(message) => WriteAction::Fail(message),
            WriteOutcome::Missing => self.create_or_fail(),
            WriteOutcome::Done => match action {
                WriteAction::CreateDirectory => WriteAction::Connect,
                WriteAction::Connect => if self.remote() {
                    WriteAction::LoadTable
                } else {
                    WriteAction::ProbeLogDirectory
                },
                WriteAction::Reconnect => WriteAction::WriteBatch,
                WriteAction::WriteBatch => WriteAction::Finish,
                _ => WriteAction::Reconnect,
            },
        }
    }

    /// The columns that the table is created with, where its schema is known.
    pub fn creation_columns(&self) -> (r: Option<Vec<StructField>>)
        ensures
            match r {
                Some(columns) => self.creation_schema() matches Some(fields) && is_delta_schema(
                    columns@,
                    fields,
                ),
                None => self.creation_schema() is None,
            },
    {
        match &self.schema {
            None => None,
            Some(fields) => {
                let mut columns: Vec<StructField> = Vec::new();
                let mut i: usize = 0;
                while i < fields.len()
                    invariant
                        i <= fields@.len(),
                        columns@.len() == i,
                        forall|k: int|
                            0 <= k < i ==> (#[trigger] columns@[k]).name@ == fields@[k].name@
                                && columns@[k].data_type == delta_type(fields@[k].data_type)
                                && columns@[k].nullable == fields@[k].nullable,
                    decreases fields@.len() - i,
                {
                    columns.push(arrow_field_to_delta_field(&fields[i]));
                    i += 1;
                }
                Some(columns)
            },
        }
    }

    /// The partition columns that the table is created with: those of its
    /// configuration, or none.
    pub fn creation_partitions(&self) -> (r: Vec<String>)
        ensures
            texts(r@) == match self.table_config.partitions() {
                Some(columns) => columns,
                None => Seq::empty(),
            },
    {
        let mut names: Vec<String> = Vec::new();
        match &self.table_config.partition_by {
            None => {
                assert(texts(names@) =~= Seq::empty());
            },
            Some(columns) => {
                let mut i: usize = 0;
                while i < columns.len()
                    invariant
                        i <= columns@.len(),
                        names@ == columns@.take(i as int),
                    decreases columns@.len() - i,
                {
                    names.push(columns[i].clone());
                    i += 1;
                    assert(names@ =~= columns@.take(i as int));
                }
                assert(columns@.take(i as int) =~= columns@);
            },
        }
        names
    }

    /// Whether the table exists, as far as its log directory tells: for a remote
    /// table it does not.
    pub fn table_exists(table_uri: &str, has_log_directory: bool) -> (r: bool)
        ensures
            r == (!has_prefix(table_uri@, "s3://"@) && has_log_directory),
    {
        !starts_with(table_uri, "s3://") && has_log_directory
    }
}

/// How many actions are left at most.
pub open spec fn steps_left(action: ActionView) -> nat {
    match action {
        ActionView::CreateDirectory => 6,
        ActionView::Connect => 5,
        ActionView::LoadTable => 4,
        ActionView::ProbeLogDirectory => 4,
        ActionView::CreateTable => 3,
        ActionView::Reconnect => 2,
        ActionView::WriteBatch => 1,
        ActionView::Finish => 0,
        ActionView::Fail(_) => 0,
    }
}

/// Writing a batch comes to an end, whatever the outcomes: every action is followed
/// by one with fewer steps left.
pub proof fn writing_ends(
    remote: bool,
    has_schema: bool,
    action: ActionView,
    outcome: OutcomeView,
)
    requires
        outcome is Missing ==> action is ProbeLogDirectory,
    ensures
        steps_left(action) == 0 <==> action is Finish || action is Fail,
        steps_left(action) > 0 ==> steps_left(next_step(remote, has_schema, action, outcome))
            < steps_left(action),
{
}

/// A batch is written only to a table that was found or has just been created, and
/// a table is created only where none was found.
pub proof fn batch_goes_to_existing_table(
    remote: bool,
    has_schema: bool,
    action: ActionView,
    outcome: OutcomeView,
)
    requires
        steps_left(action) > 0,
    ensures
        next_step(remote, has_schema, action, outcome) is WriteBatch ==> action is Reconnect
            && outcome is Done,
        next_step(remote, has_schema, action, outcome) is Reconnect ==> outcome is Done && (
        action is LoadTable || action is ProbeLogDirectory || action is CreateTable),
        next_step(remote, has_schema, action, outcome) is CreateTable ==> has_schema
            && outcome !is Done,
        next_step(remote, has_schema, action, outcome) is Finish ==> action is WriteBatch
            && outcome is Done,
{
}

/// A batch for a local table is written in these steps, where all goes well: the
/// directory is created, the table is connected to and found by its log, connected to
/// again and written to.
pub proof fn local_tables_are_written_in_these_steps(has_schema: bool)
    ensures
        first_step(false) == ActionView::CreateDirectory,
        next_step(false, has_schema, ActionView::CreateDirectory, OutcomeView::Done)
            == ActionView::Connect,
        next_step(false, has_schema, ActionView::Connect, OutcomeView::Done)
            == ActionView::ProbeLogDirectory,
        next_step(false, has_schema, ActionView::ProbeLogDirectory, OutcomeView::Done)
            == ActionView::Reconnect,
        next_step(false, has_schema, ActionView::Reconnect, OutcomeView::Done)
            == ActionView::WriteBatch,
        next_step(false, has_schema, ActionView::WriteBatch, OutcomeView::Done)
            == ActionView::Finish,
{
}

/// A batch for a remote table is written in these steps, where all goes well: no
/// directory is created, and the table is found by loading it.
pub proof fn remote_tables_are_written_in_these_steps(has_schema: bool)
    ensures
        first_step(true) == ActionView::Connect,
        next_step(true, has_schema, ActionView::Connect, OutcomeView::Done)
            == ActionView::LoadTable,
        next_step(true, has_schema, ActionView::LoadTable, OutcomeView::Done)
            == ActionView::Reconnect,
        next_step(true, has_schema, ActionView::Reconnect, OutcomeView::Done)
            == ActionView::WriteBatch,
        next_step(true, has_schema, ActionView::WriteBatch, OutcomeView::Done)
            == ActionView::Finish,
{
}

/// A table that is not there is created where its schema is known, and then written to;
/// whether it is there is told by its log directory, or by the message with which
/// loading it fails.
pub proof fn missing_tables_are_created(
    remote: bool,
    has_schema: bool,
    start: Seq<char>,
    end: Seq<char>,
)
    ensures
        has_schema ==> {
            &&& next_step(remote, true, ActionView::ProbeLogDirectory, OutcomeView::Missing)
                == ActionView::CreateTable
            &&& next_step(
                remote,
                true,
                ActionView::LoadTable,
                OutcomeView::Failed(start + "does not exist"@ + end),
            ) == ActionView::CreateTable
            &&& next_step(
                remote,
                true,
                ActionView::LoadTable,
                OutcomeView::Failed(start + "not found"@ + end),
            ) == ActionView::CreateTable
            &&& next_step(remote, true, ActionView::CreateTable, OutcomeView::Done)
                == ActionView::Reconnect
        },
        !has_schema ==> next_step(remote, false, ActionView::ProbeLogDirectory, OutcomeView::Missing)
            is Fail,
{
    parts_are_found(start, "does not exist"@, end);
    parts_are_found(start, "not found"@, end);
}

/// Every other failure ends the writing, with its own message.
pub proof fn failures_are_told(
    remote: bool,
    has_schema: bool,
    action: ActionView,
    message: Seq<char>,
)
    requires
        !(action is Finish),
        !(action is Fail),
        action is LoadTable ==> !has_part(message, "does not exist"@) && !has_part(
            message,
            "not found"@,
        ),
    ensures
        next_step(remote, has_schema, action, OutcomeView::Failed(message)) == ActionView::Fail(
            message,
        ),
{
}

/// A table is remote exactly if its path begins with `s3://`.
pub proof fn paths_tell_remote_tables(writer: DeltaLakeWriter, rest: Seq<char>)
    ensures
        writer.table_path@ == "s3://"@ + rest ==> writer.is_remote(),
        writer.is_remote() ==> writer.table_path@.len() >= 5 && writer.table_path@.take(5)
            == "s3://"@,
{
    reveal_strlit("s3://");
    parts_are_found(Seq::empty(), "s3://"@, rest);
    if writer.is_remote() {
        assert(writer.table_path@.subrange(0, 5) =~= writer.table_path@.take(5));
    }
}

/// A table is created with a column for each field of its schema, in order and of the
/// same name, and null where the field may be.
pub proof fn tables_are_created_with_their_fields(
    columns: Seq<StructField>,
    fields: Seq<Field>,
    i: int,
)
    requires
        is_delta_schema(columns, fields),
        0 <= i < fields.len(),
    ensures
        columns.len() == fields.len(),
        columns[i].name@ == fields[i].name@,
        columns[i].nullable == fields[i].nullable,
        fields[i].data_type == ArrowType::Utf8 ==> columns[i].data_type == DeltaType::Text,
        fields[i].data_type == ArrowType::Int64 ==> columns[i].data_type == DeltaType::Long,
        fields[i].data_type == ArrowType::Int32 ==> columns[i].data_type == DeltaType::Integer,
        fields[i].data_type == ArrowType::Float64 ==> columns[i].data_type == DeltaType::Double,
        fields[i].data_type == ArrowType::Boolean ==> columns[i].data_type == DeltaType::Boolean,
{
}

/// A local table exists where its log directory does; of a remote one nothing is known.
pub proof fn tables_exist_by_their_log(uri: &str, has_log: bool, r: bool, rest: Seq<char>)
    requires
        call_ensures(DeltaLakeWriter::table_exists, (uri, has_log), r),
    ensures
        uri@ == "s3://"@ + rest ==> !r,
        !has_prefix(uri@, "s3://"@) ==> r == has_log,
{
    parts_are_found(Seq::empty(), "s3://"@, rest);
}

/// A table is created with the columns of its schema, in their order, each as nullable as
/// its field, and is partitioned as configured.
pub proof fn tables_are_created_as_learnt(
    writer: &DeltaLakeWriter,
    fields: Vec<Field>,
    by: Vec<String>,
    columns: Option<Vec<StructField>>,
    partitions: Vec<String>,
    i: int,
)
    requires
        call_ensures(DeltaLakeWriter::creation_columns, (writer,), columns),
        call_ensures(DeltaLakeWriter::creation_partitions, (writer,), partitions),
    ensures
        writer.schema is None ==> columns is None,
        writer.schema == Some(fields) ==> (columns matches Some(made) && made@.len()
            == fields@.len()),
        writer.schema == Some(fields) && 0 <= i < fields@.len() ==> (columns matches Some(made)
            && made@[i].name@ == fields@[i].name@ && made@[i].nullable == fields@[i].nullable),
        writer.table_config.partition_by is None ==> partitions@.len() == 0,
        writer.table_config.partition_by == Some(by) ==> partitions@.len() == by@.len(),
        writer.table_config.partition_by == Some(by) && 0 <= i < by@.len() ==> partitions@[i]@
            == by@[i]@,
{
    assert(texts(partitions@).len() == partitions@.len());
    assert(texts(by@).len() == by@.len());
    if 0 <= i < by@.len() {
        assert(texts(by@)[i] == by@[i]@);
    }
    if 0 <= i < partitions@.len() {
        assert(texts(partitions@)[i] == partitions@[i]@);
    }
}

} // verus!
