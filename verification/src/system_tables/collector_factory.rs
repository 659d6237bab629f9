//! Which collectors there are, and how they are created.
use vstd::prelude::*;
use crate::system_tables::config::TableConfig;
use crate::system_tables::coprocessor::collector::CoprocessorCollector;
use crate::system_tables::data_collector::{
    configuration_error, CollectionError, CollectionErrorView, CollectionMethod, CollectorConfig,
};
use crate::system_tables::sql_collector::SqlCollector;
use crate::text::{has_part, has_prefix};

verus! {

/// A collector.
pub enum Collector {
    Sql(SqlCollector),
    Coprocessor(CoprocessorCollector),
}

impl Collector {
    /// The method of the collector.
    pub open spec fn method(self) -> CollectionMethod {
        match self {
            Collector::Sql(_) => CollectionMethod::Sql,
            Collector::Coprocessor(_) => CollectionMethod::Coprocessor,
        }
    }

    /// The configuration of the collector.
    pub open spec fn configuration(self) -> CollectorConfig {
        match self {
            Collector::Sql(c) => c.config,
            Collector::Coprocessor(c) => c.config,
        }
    }

    /// Whether the collector can handle the table: a SQL collector can handle any.
    pub open spec fn can_collect(self, table: TableConfig) -> bool {
        match self {
            Collector::Sql(_) => true,
            Collector::Coprocessor(_) => CoprocessorCollector::can_collect(table),
        }
    }

    /// Get the collection method this collector supports.
    pub fn collection_method(&self) -> (r: CollectionMethod)
        ensures
            r == self.method(),
    {
        match self {
            Collector::Sql(c) => c.collection_method(),
            Collector::Coprocessor(c) => c.collection_method(),
        }
    }

    /// Check if this collector can handle the given table.
    pub fn can_collect_table(&self, table: &TableConfig) -> (r: bool)
        ensures
            r == self.can_collect(*table),
    {
        match self {
            Collector::Sql(c) => c.can_collect_table(table),
            Collector::Coprocessor(c) => c.can_collect_table(table),
        }
    }
}

/// Why no collector is created for the method and the configuration.
pub open spec fn creation_fault(method: CollectionMethod, config: CollectorConfig) -> Option<
    Seq<char>,
> {
    match method {
        CollectionMethod::Sql => if config.config_type is Sql {
            None
        } else {
            Some("Invalid config type for SqlCollector"@)
        },
        CollectionMethod::Coprocessor => if config.config_type is Coprocessor {
            None
        } else {
            Some("Invalid config type for CoprocessorCollector"@)
        },
        CollectionMethod::HttpApi => Some("HTTP API collection method not implemented yet"@),
        CollectionMethod::CustomGrpc => Some("Custom gRPC collection method not implemented yet"@),
    }
}

/// The methods for which collectors can be created.
pub open spec fn supported() -> Seq<CollectionMethod> {
    seq![CollectionMethod::Sql, CollectionMethod::Coprocessor]
}

/// Creation of collectors.
pub struct CollectorFactory;

impl CollectorFactory {
    /// Create a collector instance based on method and config.
    pub fn create_collector(method: CollectionMethod, config: CollectorConfig) -> (r: Result<
        Collector,
        CollectionError,
    >)
        requires
            method is Coprocessor ==> config.has_status_port(),
        ensures
            match r {
                Ok(collector) => creation_fault(method, config) is None && collector.method()
                    == method && collector.configuration() == config && match collector {
                    Collector::Sql(c) => !c.connected,
                    Collector::Coprocessor(c) => c.made_for(config),
                },
                Err(e) => creation_fault(method, config) matches Some(message) && e@
                    == CollectionErrorView::ConfigurationError(message),
            },
    {
        match method {
            CollectionMethod::Sql => match SqlCollector::new(config) {
                Ok(collector) => Ok(Collector::Sql(collector)),
                Err(e) => Err(e),
            },
            CollectionMethod::Coprocessor => match CoprocessorCollector::new(config) {
                Ok(collector) => Ok(Collector::Coprocessor(collector)),
                Err(e) => Err(e),
            },
            CollectionMethod::HttpApi => Err(
                configuration_error("HTTP API collection method not implemented yet"),
            ),
            CollectionMethod::CustomGrpc => Err(
                configuration_error("Custom gRPC collection method not implemented yet"),
            ),
        }
    }

    /// Get all supported collection methods.
    pub fn supported_methods() -> (r: Vec<CollectionMethod>)
        ensures
            r@ == supported(),
    {
        let mut methods: Vec<CollectionMethod> = Vec::new();
        methods.push(CollectionMethod::Sql);
        methods.push(CollectionMethod::Coprocessor);
        assert(methods@ =~= supported());
        methods
    }

    /// Check if a method is supported.
    pub fn supports_method(method: &CollectionMethod) -> (r: bool)
        ensures
            r == supported().contains(*method),
    {
        let methods = Self::supported_methods();
        let mut i: usize = 0;
        while i < methods.len()
            invariant
                methods@ == supported(),
                i <= methods@.len(),
                forall|k: int| 0 <= k < i ==> methods@[k] != *method,
            decreases methods@.len() - i,
        {
            if methods[i] == *method {
                return true;
            }
            i += 1;
        }
        false
    }
}

/// A method is supported exactly if there is a configuration under which a
/// collector is created for it.
pub proof fn supported_methods_can_be_created(
    method: CollectionMethod,
    by_sql: CollectorConfig,
    by_coprocessor: CollectorConfig,
)
    requires
        by_sql.config_type is Sql,
        by_coprocessor.config_type is Coprocessor,
    ensures
        supported().contains(method) <==> (creation_fault(method, by_sql) is None
            || creation_fault(method, by_coprocessor) is None),
        !supported().contains(method) ==> (forall|config: CollectorConfig|
            creation_fault(method, config) is Some),
{
    assert(supported()[0] == CollectionMethod::Sql);
    assert(supported()[1] == CollectionMethod::Coprocessor);
}

/// A collector is created for the two methods that are there, each with a configuration
/// of its own kind, and for nothing else; these two are the supported ones.
pub proof fn two_methods_have_collectors(method: CollectionMethod, config: CollectorConfig)
    ensures
        creation_fault(method, config) is None <==> (method == CollectionMethod::Sql
            && config.config_type is Sql) || (method == CollectionMethod::Coprocessor
            && config.config_type is Coprocessor),
        supported().contains(method) <==> method == CollectionMethod::Sql || method
            == CollectionMethod::Coprocessor,
{
    assert(supported()[0] == CollectionMethod::Sql);
    assert(supported()[1] == CollectionMethod::Coprocessor);
}

/// A collector has the method of its kind, and the configuration that it was made with.
pub proof fn collectors_have_the_method_of_their_kind(sql: SqlCollector, cop: CoprocessorCollector)
    ensures
        Collector::Sql(sql).method() == CollectionMethod::Sql,
        Collector::Coprocessor(cop).method() == CollectionMethod::Coprocessor,
        Collector::Sql(sql).configuration() == sql.config,
        Collector::Coprocessor(cop).configuration() == cop.config,
{
}

/// A SQL collector reads every table; the coprocessor reads a table exactly if its name
/// begins with `CLUSTER_`, or tells of statement summaries or slow queries.
pub proof fn collectors_read_these_tables(
    sql: SqlCollector,
    cop: CoprocessorCollector,
    table: TableConfig,
)
    ensures
        Collector::Sql(sql).can_collect(table),
        Collector::Coprocessor(cop).can_collect(table) <==> has_prefix(
            table.source_table@,
            "CLUSTER_"@,
        ) || has_part(table.source_table@, "STATEMENTS_SUMMARY"@) || has_part(
            table.source_table@,
            "SLOW_QUERY"@,
        ),
{
}

/// Why a collector is not created is told: its configuration is of another kind, or
/// there are no collectors for its method.
pub proof fn refusals_are_told(method: CollectionMethod, config: CollectorConfig)
    requires
        creation_fault(method, config) is Some,
    ensures
        method == CollectionMethod::Sql ==> creation_fault(method, config)->0
            == "Invalid config type for SqlCollector"@,
        method == CollectionMethod::Coprocessor ==> creation_fault(method, config)->0
            == "Invalid config type for CoprocessorCollector"@,
        method == CollectionMethod::HttpApi ==> creation_fault(method, config)->0
            == "HTTP API collection method not implemented yet"@,
        method == CollectionMethod::CustomGrpc ==> creation_fault(method, config)->0
            == "Custom gRPC collection method not implemented yet"@,
{
}

} // verus!
