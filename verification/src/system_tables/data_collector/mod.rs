//! What every way of collecting table data has in common.
use vstd::prelude::*;
use vstd::string::*;
use crate::clock::Timestamp;
use crate::string_map::StringMap;
use crate::system_tables::config::{CollectionConfig, DatabaseConfig, TableConfig};
use crate::text::{lowercase, same, to_lowercase};
use crate::value::Value;

pub mod utils;

verus! {

/// Error types for data collection.
#[derive(Debug, PartialEq)]
pub enum CollectionError {
    ConnectionError(String),
    QueryError(String),
    ParseError(String),
    ConfigurationError(String),
    TimeoutError(String),
    AuthenticationError(String),
    NetworkError(String),
}

/// What a `CollectionError` holds.
pub enum CollectionErrorView {
    ConnectionError(Seq<char>),
    QueryError(Seq<char>),
    ParseError(Seq<char>),
    ConfigurationError(Seq<char>),
    TimeoutError(Seq<char>),
    AuthenticationError(Seq<char>),
    NetworkError(Seq<char>),
}

impl View for CollectionError {
    type V = CollectionErrorView;

    open spec fn view(&self) -> CollectionErrorView {
        match self {
            CollectionError::ConnectionError(m) => CollectionErrorView::ConnectionError(m@),
            CollectionError::QueryError(m) => CollectionErrorView::QueryError(m@),
            CollectionError::ParseError(m) => CollectionErrorView::ParseError(m@),
            CollectionError::ConfigurationError(m) => CollectionErrorView::ConfigurationError(m@),
            CollectionError::TimeoutError(m) => CollectionErrorView::TimeoutError(m@),
            CollectionError::AuthenticationError(m) => CollectionErrorView::AuthenticationError(m@),
            CollectionError::NetworkError(m) => CollectionErrorView::NetworkError(m@),
        }
    }
}

impl CollectionErrorView {
    /// The error as a message.
    pub open spec fn text(self) -> Seq<char> {
        match self {
            CollectionErrorView::ConnectionError(m) => "Connection error: "@ + m,
            CollectionErrorView::QueryError(m) => "Query error: "@ + m,
            CollectionErrorView::ParseError(m) => "Parse error: "@ + m,
            CollectionErrorView::ConfigurationError(m) => "Configuration error: "@ + m,
            CollectionErrorView::TimeoutError(m) => "Timeout error: "@ + m,
            CollectionErrorView::AuthenticationError(m) => "Authentication error: "@ + m,
            CollectionErrorView::NetworkError(m) => "Network error: "@ + m,
        }
    }
}

impl CollectionError {
    /// The error as a message.
    pub fn to_text(&self) -> (r: String)
        ensures
            r@ == self@.text(),
    {
        match self {
            CollectionError::ConnectionError(m) => "Connection error: ".to_string().concat(m.as_str()),
            CollectionError::QueryError(m) => "Query error: ".to_string().concat(m.as_str()),
            CollectionError::ParseError(m) => "Parse error: ".to_string().concat(m.as_str()),
            CollectionError::ConfigurationError(m) => "Configuration error: ".to_string().concat(
                m.as_str(),
            ),
            CollectionError::TimeoutError(m) => "Timeout error: ".to_string().concat(m.as_str()),
            CollectionError::AuthenticationError(m) => "Authentication error: ".to_string().concat(
                m.as_str(),
            ),
            CollectionError::NetworkError(m) => "Network error: ".to_string().concat(m.as_str()),
        }
    }
}

/// A `ParseError` with the message `m`.
pub fn parse_error(m: &str) -> (r: CollectionError)
    ensures
        r@ == CollectionErrorView::ParseError(m@),
{
    CollectionError::ParseError(m.to_string())
}

/// A `ConfigurationError` with the message `m`.
pub fn configuration_error(m: &str) -> (r: CollectionError)
    ensures
        r@ == CollectionErrorView::ConfigurationError(m@),
{
    CollectionError::ConfigurationError(m.to_string())
}

/// Collection method type.
#[derive(Debug, Clone, Copy, PartialEq, Eq, Hash, Structural)]
pub enum CollectionMethod {
    /// Traditional SQL-based collection via MySQL protocol
    Sql,
    /// gRPC coprocessor-based collection
    Coprocessor,
    /// HTTP API-based collection
    HttpApi,
    /// Custom gRPC service collection
    CustomGrpc,
}

/// The method that a name in lower case stands for.
pub open spec fn method_named(name: Seq<char>) -> Option<CollectionMethod> {
    if name == "sql"@ {
        Some(CollectionMethod::Sql)
    } else if name == "coprocessor"@ {
        Some(CollectionMethod::Coprocessor)
    } else if name == "http_api"@ || name == "http"@ {
        Some(CollectionMethod::HttpApi)
    } else if name == "custom_grpc"@ || name == "grpc"@ {
        Some(CollectionMethod::CustomGrpc)
    } else {
        None
    }
}

impl CollectionMethod {
    /// The name of the method.
    pub open spec fn name(self) -> Seq<char> {
        match self {
            CollectionMethod::Sql => "sql"@,
            CollectionMethod::Coprocessor => "coprocessor"@,
            CollectionMethod::HttpApi => "http_api"@,
            CollectionMethod::CustomGrpc => "custom_grpc"@,
        }
    }

    /// The name of the method.
    pub fn to_text(&self) -> (r: String)
        ensures
            r@ == self.name(),
    {
        match self {
            CollectionMethod::Sql => "sql".to_string(),
            CollectionMethod::Coprocessor => "coprocessor".to_string(),
            CollectionMethod::HttpApi => "http_api".to_string(),
            CollectionMethod::CustomGrpc => "custom_grpc".to_string(),
        }
    }

    /// The method that a name in lower case stands for.
    pub fn from_lowercase(name: &str) -> (r: Option<CollectionMethod>)
        ensures
            r == method_named(name@),
    {
        if same(name, "sql") {
            Some(CollectionMethod::Sql)
        } else if same(name, "coprocessor") {
            Some(CollectionMethod::Coprocessor)
        } else if same(name, "http_api") || same(name, "http") {
            Some(CollectionMethod::HttpApi)
        } else if same(name, "custom_grpc") || same(name, "grpc") {
            Some(CollectionMethod::CustomGrpc)
        } else {
            None
        }
    }

    /// The method that a name stands for, in upper or lower case.
    pub fn from_string(s: &str) -> (r: Result<Self, CollectionError>)
        ensures
            match r {
                Ok(m) => method_named(lowercase(s@)) == Some(m),
                Err(e) => method_named(lowercase(s@)) is None && e@
                    == CollectionErrorView::ConfigurationError(
                    "Unknown collection method: "@ + s@
                        + ". Supported: sql, coprocessor, http_api, custom_grpc"@,
                ),
            },
    {
        match CollectionMethod::from_lowercase(to_lowercase(s).as_str()) {
            Some(m) => Ok(m),
            None => Err(
                CollectionError::ConfigurationError(
                    "Unknown collection method: ".to_string().concat(s).concat(
                        ". Supported: sql, coprocessor, http_api, custom_grpc",
                    ),
                ),
            ),
        }
    }
}

/// Metadata about the collection process.
pub struct CollectionMetadata {
    /// Instance identifier
    pub instance: String,
    /// Table configuration
    pub table_config: TableConfig,
    /// Collection method used
    pub collection_method: CollectionMethod,
    /// Collection timestamp
    pub timestamp: Timestamp,
    /// Number of rows collected
    pub row_count: usize,
    /// Collection duration in milliseconds
    pub duration_ms: u64,
    /// Additional metadata
    pub extra: StringMap<Value>,
}

/// Result of a data collection operation.
pub struct CollectionResult {
    /// Collected data rows
    pub data: Vec<StringMap<Value>>,
    /// Collection metadata
    pub metadata: CollectionMetadata,
}

/// How a collector reaches its instance.
#[derive(Debug, PartialEq)]
pub enum CollectorConfigType {
    /// By a database connection
    Sql {
        /// Database configuration
        database_config: DatabaseConfig,
    },
    /// By the coprocessor interface
    Coprocessor {
        /// Host of the instance
        host: String,
        /// Database port of the instance
        port: u16,
    },
}

/// Configuration for collection process.
pub struct CollectorConfig {
    /// Instance identifier
    pub instance: String,
    /// How the instance is reached
    pub config_type: CollectorConfigType,
    /// Collection configuration
    pub collection_config: CollectionConfig,
    /// Tables to collect
    pub tables: Vec<TableConfig>,
}

impl CollectorConfig {
    /// Whether the status port of the instance, 6080 above its database port, is a
    /// port.
    pub open spec fn has_status_port(self) -> bool {
        match self.config_type {
            CollectorConfigType::Coprocessor { host, port } => port <= 59455,
            _ => true,
        }
    }
}

/// The name of a method, as it is written, stands for the method.
pub proof fn method_names_read_back(method: CollectionMethod)
    ensures
        method_named(lowercase(method.name())) == Some(method),
{
    reveal_strlit("sql");
    reveal_strlit("coprocessor");
    reveal_strlit("http_api");
    reveal_strlit("http");
    reveal_strlit("custom_grpc");
    reveal_strlit("grpc");
    let name = method.name();
    assert(vstd::utf8::is_ascii_chars(name));
    assert(lowercase(name) =~= name);
    assert("sql"@.len() == 3 && "coprocessor"@.len() == 11 && "http_api"@.len() == 8
        && "http"@.len() == 4 && "custom_grpc"@.len() == 11 && "grpc"@.len() == 4);
    assert("coprocessor"@[1] != "custom_grpc"@[1]);
}

/// Each method is meant by these names and by no other.
pub proof fn methods_have_these_names(name: Seq<char>)
    ensures
        method_named(name) == Some(CollectionMethod::Sql) <==> name == "sql"@,
        method_named(name) == Some(CollectionMethod::Coprocessor) <==> name == "coprocessor"@,
        method_named(name) == Some(CollectionMethod::HttpApi) <==> name == "http_api"@ || name
            == "http"@,
        method_named(name) == Some(CollectionMethod::CustomGrpc) <==> name == "custom_grpc"@ || name
            == "grpc"@,
{
    reveal_strlit("sql");
    reveal_strlit("coprocessor");
    reveal_strlit("http_api");
    reveal_strlit("http");
    reveal_strlit("custom_grpc");
    reveal_strlit("grpc");
    assert("sql"@.len() == 3 && "coprocessor"@.len() == 11 && "http_api"@.len() == 8
        && "http"@.len() == 4 && "custom_grpc"@.len() == 11 && "grpc"@.len() == 4);
    assert("coprocessor"@[1] != "custom_grpc"@[1]);
    assert("http"@[0] != "grpc"@[0]);
}

/// A message tells of which kind an error is, and ends with what it is about.
pub proof fn messages_tell_the_kind(m: Seq<char>)
    ensures
        CollectionErrorView::ConnectionError(m).text() == "Connection error: "@ + m,
        CollectionErrorView::QueryError(m).text() == "Query error: "@ + m,
        CollectionErrorView::ParseError(m).text() == "Parse error: "@ + m,
        CollectionErrorView::ConfigurationError(m).text() == "Configuration error: "@ + m,
        CollectionErrorView::TimeoutError(m).text() == "Timeout error: "@ + m,
        CollectionErrorView::AuthenticationError(m).text() == "Authentication error: "@ + m,
        CollectionErrorView::NetworkError(m).text() == "Network error: "@ + m,
{
}

/// A method is known by its name in upper or lower case, and an unknown one is told.
pub proof fn methods_are_known_in_any_case(s: &str, r: Result<CollectionMethod, CollectionError>)
    requires
        call_ensures(CollectionMethod::from_string, (s,), r),
    ensures
        lowercase(s@) == "sql"@ ==> r == Ok::<_, CollectionError>(CollectionMethod::Sql),
        lowercase(s@) == "coprocessor"@ ==> r == Ok::<_, CollectionError>(
            CollectionMethod::Coprocessor,
        ),
        lowercase(s@) == "http_api"@ || lowercase(s@) == "http"@ ==> r == Ok::<_, CollectionError>(
            CollectionMethod::HttpApi,
        ),
        lowercase(s@) == "custom_grpc"@ || lowercase(s@) == "grpc"@ ==> r == Ok::<
            _,
            CollectionError,
        >(CollectionMethod::CustomGrpc),
        r matches Err(e) ==> e@ == CollectionErrorView::ConfigurationError(
            "Unknown collection method: "@ + s@
                + ". Supported: sql, coprocessor, http_api, custom_grpc"@,
        ),
{
    methods_have_these_names(lowercase(s@));
}

} // verus!
