//! Configuration of the collection of system tables.
use vstd::prelude::*;
use vstd::string::*;
use crate::string_map::StringMap;
use crate::system_tables::data_collector::method_named;
use crate::text::{
    decimal, decimal_reads_back, has_part, integer_in, is_digit, lowercase,
    other_characters_write_no_integer, parse_integer, parts_are_found, same, to_lowercase,
};

verus! {

/// Environment variable names for database configuration.
pub struct DatabaseEnvVars;

impl DatabaseEnvVars {
    pub const USERNAME: &'static str = "TIDB_USERNAME";

    pub const PASSWORD: &'static str = "TIDB_PASSWORD";

    pub const HOST: &'static str = "TIDB_HOST";

    pub const PORT: &'static str = "TIDB_PORT";

    pub const DATABASE: &'static str = "TIDB_DATABASE";

    pub const MAX_CONNECTIONS: &'static str = "TIDB_MAX_CONNECTIONS";

    pub const CONNECT_TIMEOUT: &'static str = "TIDB_CONNECT_TIMEOUT";

    pub const TLS_CA_FILE: &'static str = "TIDB_TLS_CA_FILE";

    pub const TLS_CERT_FILE: &'static str = "TIDB_TLS_CERT_FILE";

    pub const TLS_KEY_FILE: &'static str = "TIDB_TLS_KEY_FILE";

    pub const TLS_VERIFY_CERTIFICATE: &'static str = "TIDB_TLS_VERIFY_CERTIFICATE";

    pub const TLS_VERIFY_HOSTNAME: &'static str = "TIDB_TLS_VERIFY_HOSTNAME";

    pub const PD_ADDRESS: &'static str = "PD_ADDRESS";

    pub const TIDB_GROUP: &'static str = "TIDB_GROUP";

    pub const LABEL_K8S_INSTANCE: &'static str = "LABEL_K8S_INSTANCE";

    pub const PD_TLS_CA_FILE: &'static str = "PD_TLS_CA_FILE";

    pub const PD_TLS_CERT_FILE: &'static str = "PD_TLS_CERT_FILE";

    pub const PD_TLS_KEY_FILE: &'static str = "PD_TLS_KEY_FILE";

    pub const PD_TLS_VERIFY_CERTIFICATE: &'static str = "PD_TLS_VERIFY_CERTIFICATE";

    pub const PD_TLS_VERIFY_HOSTNAME: &'static str = "PD_TLS_VERIFY_HOSTNAME";

    pub const SHORT_INTERVAL: &'static str = "SYSTEM_TABLES_SHORT_INTERVAL";

    pub const LONG_INTERVAL: &'static str = "SYSTEM_TABLES_LONG_INTERVAL";

    pub const RETENTION_DAYS: &'static str = "SYSTEM_TABLES_RETENTION_DAYS";

    pub const TOPOLOGY_FETCH_INTERVAL: &'static str = "TOPOLOGY_FETCH_INTERVAL_SECONDS";

    pub const COLLECTION_METHOD: &'static str = "SYSTEM_TABLES_COLLECTION_METHOD";
}

/// TLS files and checks for a connection.
#[derive(Debug, PartialEq)]
pub struct TlsConfig {
    /// File with the certificate authority
    pub ca_file: Option<String>,
    /// File with the client certificate
    pub crt_file: Option<String>,
    /// File with the client key
    pub key_file: Option<String>,
    /// Whether the certificate of the server is checked
    pub verify_certificate: Option<bool>,
    /// Whether the host name of the server is checked
    pub verify_hostname: Option<bool>,
}

impl Clone for TlsConfig {
    fn clone(&self) -> (r: Self)
        ensures
            r == *self,
    {
        TlsConfig {
            ca_file: copy_text(&self.ca_file),
            crt_file: copy_text(&self.crt_file),
            key_file: copy_text(&self.key_file),
            verify_certificate: self.verify_certificate,
            verify_hostname: self.verify_hostname,
        }
    }
}

/// A copy of an optional text.
pub fn copy_text(text: &Option<String>) -> (r: Option<String>)
    ensures
        r == *text,
{
    match text {
        Some(s) => Some(s.clone()),
        None => None,
    }
}

/// A copy of an optional TLS configuration.
pub fn copy_tls(tls: &Option<TlsConfig>) -> (r: Option<TlsConfig>)
    ensures
        r == *tls,
{
    match tls {
        Some(t) => Some(t.clone()),
        None => None,
    }
}

/// Database connection configuration.
#[derive(Debug, PartialEq)]
pub struct DatabaseConfig {
    pub username: String,
    pub password: String,
    pub host: String,
    pub port: u16,
    pub database: String,
    pub max_connections: Option<u32>,
    pub connect_timeout: Option<u64>,
    pub tls: Option<TlsConfig>,
}

impl Clone for DatabaseConfig {
    fn clone(&self) -> (r: Self)
        ensures
            r == *self,
    {
        DatabaseConfig {
            username: self.username.clone(),
            password: self.password.clone(),
            host: self.host.clone(),
            port: self.port,
            database: self.database.clone(),
            max_connections: self.max_connections,
            connect_timeout: self.connect_timeout,
            tls: copy_tls(&self.tls),
        }
    }
}

/// Collection interval configuration.
#[derive(Debug, Clone, Copy, PartialEq, Eq, Structural)]
pub struct CollectionConfig {
    /// Short interval for high-frequency tables (seconds)
    pub short_interval: u64,
    /// Long interval for low-frequency tables (seconds)
    pub long_interval: u64,
    /// Data retention days
    pub retention_days: u32,
}

/// Table configuration for data collection.
#[derive(Debug, PartialEq)]
pub struct TableConfig {
    /// Source schema name
    pub source_schema: String,
    /// Source table name
    pub source_table: String,
    /// Destination table name
    pub dest_table: String,
    /// Collection interval (short/long)
    pub collection_interval: String,
    /// Optional WHERE clause
    pub where_clause: Option<String>,
    /// Whether this table is enabled
    pub enabled: bool,
}

impl Clone for TableConfig {
    fn clone(&self) -> (r: Self)
        ensures
            r == *self,
    {
        TableConfig {
            source_schema: self.source_schema.clone(),
            source_table: self.source_table.clone(),
            dest_table: self.dest_table.clone(),
            collection_interval: self.collection_interval.clone(),
            where_clause: copy_text(&self.where_clause),
            enabled: self.enabled,
        }
    }
}

/// A copy of a list of table configurations.
pub fn copy_tables(tables: &Vec<TableConfig>) -> (r: Vec<TableConfig>)
    ensures
        r@ == tables@,
{
    let mut out: Vec<TableConfig> = Vec::new();
    let mut i: usize = 0;
    while i < tables.len()
        invariant
            i <= tables@.len(),
            out@ == tables@.take(i as int),
        decreases tables@.len() - i,
    {
        out.push(tables[i].clone());
        i += 1;
        assert(out@ =~= tables@.take(i as int));
    }
    assert(tables@.take(i as int) =~= tables@);
    out
}

/// Collection interval type.
#[derive(Debug, Clone, Copy, PartialEq, Eq, Structural)]
pub enum CollectionInterval {
    /// Use short interval
    Short,
    /// Use long interval
    Long,
    /// Custom interval in seconds
    Custom(u64),
}

/// The default topology fetch interval in seconds, by the bits of the double: 30.
pub fn default_topology_fetch_interval() -> (r: u64)
    ensures
        r == 0x403E_0000_0000_0000,
{
    0x403E_0000_0000_0000
}

/// The default collection method.
pub fn default_collection_method() -> (r: String)
    ensures
        r@ == "coprocessor"@,
{
    "coprocessor".to_string()
}

/// Configuration for the collection of system tables.
#[derive(Debug, PartialEq)]
pub struct SystemTablesConfig {
    /// PD address for legacy mode (to discover TiDB instances)
    pub pd_address: Option<String>,
    /// TiDB group name for nextgen mode
    pub tidb_group: Option<String>,
    /// Kubernetes instance label for nextgen mode
    pub label_k8s_instance: Option<String>,
    /// Database username (required for SQL collection method, optional for coprocessor)
    pub database_username: Option<String>,
    /// Database password (required for SQL collection method, optional for coprocessor)
    pub database_password: Option<String>,
    /// Database host (required for SQL collection method, optional for coprocessor)
    pub database_host: Option<String>,
    /// Database port (required for SQL collection method, optional for coprocessor)
    pub database_port: Option<u16>,
    /// Database name (required for SQL collection method, optional for coprocessor)
    pub database_name: Option<String>,
    /// Database max connections
    pub database_max_connections: Option<u32>,
    /// Database connect timeout
    pub database_connect_timeout: Option<u64>,
    /// Short interval for high-frequency tables (seconds)
    pub short_interval: u64,
    /// Long interval for low-frequency tables (seconds)
    pub long_interval: u64,
    /// Data retention days
    pub retention_days: u32,
    /// Tables to collect data from
    pub tables: Vec<TableConfig>,
    /// TLS configuration for PD/etcd connections
    pub pd_tls: Option<TlsConfig>,
    /// TLS configuration for database connections
    pub database_tls: Option<TlsConfig>,
    /// TiDB topology fetch interval in seconds, by the bits of the double
    pub topology_fetch_interval_seconds: u64,
    /// Collection method: "coprocessor" for gRPC coprocessor-based collection
    /// (default), "sql" for SQL-based collection
    pub collection_method: String,
}

/// The value of the environment variable `name`, where it is set, and else
/// `before`.
pub open spec fn text_override(
    env: Map<Seq<char>, String>,
    name: Seq<char>,
    before: Option<String>,
) -> Option<String> {
    if env.dom().contains(name) {
        Some(env[name])
    } else {
        before
    }
}

/// The integer from zero to `high` that the environment variable `name` writes,
/// where it is set and writes one.
pub open spec fn number_override(env: Map<Seq<char>, String>, name: Seq<char>, high: int) -> Option<
    int,
> {
    if env.dom().contains(name) {
        integer_in(env[name]@, false, 0, high)
    } else {
        None
    }
}

/// The truth value that the environment variable `name` writes, where it is set
/// and writes one.
pub open spec fn truth_override(env: Map<Seq<char>, String>, name: Seq<char>) -> Option<bool> {
    if env.dom().contains(name) && env[name]@ == "true"@ {
        Some(true)
    } else if env.dom().contains(name) && env[name]@ == "false"@ {
        Some(false)
    } else {
        None
    }
}

/// The TLS configuration that environment variables with these names give, where
/// one of the variables for files is set.
pub open spec fn tls_override(
    env: Map<Seq<char>, String>,
    ca_file: Seq<char>,
    crt_file: Seq<char>,
    key_file: Seq<char>,
    verify_certificate: Seq<char>,
    verify_hostname: Seq<char>,
) -> Option<TlsConfig> {
    if env.dom().contains(ca_file) || env.dom().contains(crt_file) || env.dom().contains(key_file) {
        Some(
            TlsConfig {
                ca_file: text_override(env, ca_file, None),
                crt_file: text_override(env, crt_file, None),
                key_file: text_override(env, key_file, None),
                verify_certificate: truth_override(env, verify_certificate),
                verify_hostname: truth_override(env, verify_hostname),
            },
        )
    } else {
        None
    }
}

/// The TLS configuration for database connections that the environment gives.
pub open spec fn database_tls_override(env: Map<Seq<char>, String>) -> Option<TlsConfig> {
    tls_override(
        env,
        DatabaseEnvVars::TLS_CA_FILE@,
        DatabaseEnvVars::TLS_CERT_FILE@,
        DatabaseEnvVars::TLS_KEY_FILE@,
        DatabaseEnvVars::TLS_VERIFY_CERTIFICATE@,
        DatabaseEnvVars::TLS_VERIFY_HOSTNAME@,
    )
}

/// The TLS configuration for PD/etcd connections that the environment gives.
pub open spec fn pd_tls_override(env: Map<Seq<char>, String>) -> Option<TlsConfig> {
    tls_override(
        env,
        DatabaseEnvVars::PD_TLS_CA_FILE@,
        DatabaseEnvVars::PD_TLS_CERT_FILE@,
        DatabaseEnvVars::PD_TLS_KEY_FILE@,
        DatabaseEnvVars::PD_TLS_VERIFY_CERTIFICATE@,
        DatabaseEnvVars::PD_TLS_VERIFY_HOSTNAME@,
    )
}

impl SystemTablesConfig {
    /// The configuration with what the environment overrides. `interval` holds the
    /// bits of the double that the variable for the topology fetch interval
    /// writes, where it is set and writes one.
    pub open spec fn merged(self, env: Map<Seq<char>, String>, interval: Option<u64>) -> Self {
        SystemTablesConfig {
            pd_address: text_override(env, DatabaseEnvVars::PD_ADDRESS@, self.pd_address),
            tidb_group: text_override(env, DatabaseEnvVars::TIDB_GROUP@, self.tidb_group),
            label_k8s_instance: text_override(
                env,
                DatabaseEnvVars::LABEL_K8S_INSTANCE@,
                self.label_k8s_instance,
            ),
            database_username: text_override(
                env,
                DatabaseEnvVars::USERNAME@,
                self.database_username,
            ),
            database_password: text_override(
                env,
                DatabaseEnvVars::PASSWORD@,
                self.database_password,
            ),
            database_host: text_override(env, DatabaseEnvVars::HOST@, self.database_host),
            database_port: match number_override(env, DatabaseEnvVars::PORT@, u16::MAX as int) {
                Some(n) => Some(n as u16),
                None => self.database_port,
            },
            database_name: text_override(env, DatabaseEnvVars::DATABASE@, self.database_name),
            database_max_connections: match number_override(
                env,
                DatabaseEnvVars::MAX_CONNECTIONS@,
                u32::MAX as int,
            ) {
                Some(n) => Some(n as u32),
                None => self.database_max_connections,
            },
            database_connect_timeout: match number_override(
                env,
                DatabaseEnvVars::CONNECT_TIMEOUT@,
                u64::MAX as int,
            ) {
                Some(n) => Some(n as u64),
                None => self.database_connect_timeout,
            },
            short_interval: match number_override(
                env,
                DatabaseEnvVars::SHORT_INTERVAL@,
                u64::MAX as int,
            ) {
                Some(n) => n as u64,
                None => self.short_interval,
            },
            long_interval: match number_override(
                env,
                DatabaseEnvVars::LONG_INTERVAL@,
                u64::MAX as int,
            ) {
                Some(n) => n as u64,
                None => self.long_interval,
            },
            retention_days: match number_override(
                env,
                DatabaseEnvVars::RETENTION_DAYS@,
                u32::MAX as int,
            ) {
                Some(n) => n as u32,
                None => self.retention_days,
            },
            tables: self.tables,
            pd_tls: match pd_tls_override(env) {
                Some(tls) => Some(tls),
                None => self.pd_tls,
            },
            database_tls: match database_tls_override(env) {
                Some(tls) => Some(tls),
                None => self.database_tls,
            },
            topology_fetch_interval_seconds: match interval {
                Some(bits) => bits,
                None => self.topology_fetch_interval_seconds,
            },
            collection_method: if env.dom().contains(DatabaseEnvVars::COLLECTION_METHOD@) {
                env[DatabaseEnvVars::COLLECTION_METHOD@]
            } else {
                self.collection_method
            },
        }
    }

    /// The first of the fields that collection by SQL needs and that is missing.
    pub open spec fn missing_field(self) -> Option<Seq<char>> {
        if self.database_username is None {
            Some("database_username"@)
        } else if self.database_password is None {
            Some("database_password"@)
        } else if self.database_host is None {
            Some("database_host"@)
        } else if self.database_port is None {
            Some("database_port"@)
        } else if self.database_name is None {
            Some("database_name"@)
        } else {
            None
        }
    }

    /// What is wrong with the configuration.
    pub open spec fn fault(self) -> Option<Seq<char>> {
        let method = lowercase(self.collection_method@);
        if method == "sql"@ {
            match self.missing_field() {
                Some(name) => Some(
                    "missing field `"@ + name
                        + "` in `sources.tidb_system_tables` (required for SQL collection method)"@,
                ),
                None => None,
            }
        } else if method == "coprocessor"@ || method == "http_api"@ || method == "custom_grpc"@ {
            None
        } else {
            Some(
                "unsupported collection method: "@ + self.collection_method@
                    + ". Supported methods: sql, coprocessor, http_api, custom_grpc"@,
            )
        }
    }
}

fn env_text(env: &StringMap<String>, name: &str) -> (r: Option<String>)
    ensures
        r == text_override(env@, name@, None),
{
    match env.get(name) {
        Some(s) => Some(s.clone()),
        None => None,
    }
}

fn env_text_or(env: &StringMap<String>, name: &str, before: &Option<String>) -> (r: Option<String>)
    ensures
        r == text_override(env@, name@, *before),
{
    match env.get(name) {
        Some(s) => Some(s.clone()),
        None => copy_text(before),
    }
}

fn env_number(env: &StringMap<String>, name: &str, high: u64) -> (r: Option<u64>)
    ensures
        match r {
            Some(n) => number_override(env@, name@, high as int) == Some(n as int),
            None => number_override(env@, name@, high as int) is None,
        },
{
    match env.get(name) {
        Some(s) => match parse_integer(s.as_str(), false, 0, high as i128) {
            Some(n) => Some(n as u64),
            None => None,
        },
        None => None,
    }
}

fn env_truth(env: &StringMap<String>, name: &str) -> (r: Option<bool>)
    ensures
        r == truth_override(env@, name@),
{
    match env.get(name) {
        Some(s) => if same(s.as_str(), "true") {
            Some(true)
        } else if same(s.as_str(), "false") {
            Some(false)
        } else {
            None
        },
        None => None,
    }
}

fn missing_field_message(name: &str) -> (r: String)
    ensures
        r@ == "missing field `"@ + name@
            + "` in `sources.tidb_system_tables` (required for SQL collection method)"@,
{
    "missing field `".to_string().concat(name).concat(
        "` in `sources.tidb_system_tables` (required for SQL collection method)",
    )
}

/// The text, or the empty text where there is none.
pub open spec fn text_or_nothing(text: Option<String>) -> Seq<char> {
    match text {
        Some(s) => s@,
        None => ""@,
    }
}

fn text_or_empty(text: &Option<String>) -> (r: String)
    ensures
        r@ == text_or_nothing(*text),
{
    match text {
        Some(s) => s.clone(),
        None => "".to_string(),
    }
}

/// What the controller of the collection is started with.
pub struct SourceSettings {
    pub pd_address: Option<String>,
    pub tidb_group: Option<String>,
    pub label_k8s_instance: Option<String>,
    pub topology_fetch_interval_seconds: u64,
    pub database_config: DatabaseConfig,
    pub collection_config: CollectionConfig,
    pub tables: Vec<TableConfig>,
    pub pd_tls: Option<TlsConfig>,
    pub collection_method: String,
}

impl SystemTablesConfig {
    /// Validate configuration based on collection method.
    pub fn validate(&self) -> (r: Result<(), String>)
        ensures
            match r {
                Ok(_) => self.fault() is None,
                Err(message) => self.fault() == Some(message@),
            },
    {
        let method = to_lowercase(self.collection_method.as_str());
        if same(method.as_str(), "sql") {
            if self.database_username.is_none() {
                return Err(missing_field_message("database_username"));
            }
            if self.database_password.is_none() {
                return Err(missing_field_message("database_password"));
            }
            if self.database_host.is_none() {
                return Err(missing_field_message("database_host"));
            }
            if self.database_port.is_none() {
                return Err(missing_field_message("database_port"));
            }
            if self.database_name.is_none() {
                return Err(missing_field_message("database_name"));
            }
            Ok(())
        } else if same(method.as_str(), "coprocessor") || same(method.as_str(), "http_api")
            || same(method.as_str(), "custom_grpc") {
            Ok(())
        } else {
            Err(
                "unsupported collection method: ".to_string().concat(
                    self.collection_method.as_str(),
                ).concat(". Supported methods: sql, coprocessor, http_api, custom_grpc"),
            )
        }
    }

    /// The TLS configuration that environment variables with these names give.
    pub fn build_tls_config_from_env(
        env: &StringMap<String>,
        ca_file_env: &str,
        cert_file_env: &str,
        key_file_env: &str,
        verify_cert_env: &str,
        verify_hostname_env: &str,
    ) -> (r: Option<TlsConfig>)
        ensures
            r == tls_override(
                env@,
                ca_file_env@,
                cert_file_env@,
                key_file_env@,
                verify_cert_env@,
                verify_hostname_env@,
            ),
    {
        let ca_file = env_text(env, ca_file_env);
        let crt_file = env_text(env, cert_file_env);
        let key_file = env_text(env, key_file_env);
        let verify_certificate = env_truth(env, verify_cert_env);
        let verify_hostname = env_truth(env, verify_hostname_env);
        if ca_file.is_some() || crt_file.is_some() || key_file.is_some() {
            Some(TlsConfig { ca_file, crt_file, key_file, verify_certificate, verify_hostname })
        } else {
            None
        }
    }

    /// Merge configuration with values from environment variables.
    /// Environment variables take precedence over configuration file values.
    pub fn merge_with_env(&mut self, env: &StringMap<String>, interval: Option<u64>)
        ensures
            *final(self) == old(self).merged(env@, interval),
    {
        self.pd_address = env_text_or(env, DatabaseEnvVars::PD_ADDRESS, &self.pd_address);
        self.tidb_group = env_text_or(env, DatabaseEnvVars::TIDB_GROUP, &self.tidb_group);
        self.label_k8s_instance =
        env_text_or(env, DatabaseEnvVars::LABEL_K8S_INSTANCE, &self.label_k8s_instance);
        self.database_username =
        env_text_or(env, DatabaseEnvVars::USERNAME, &self.database_username);
        self.database_password =
        env_text_or(env, DatabaseEnvVars::PASSWORD, &self.database_password);
        self.database_host = env_text_or(env, DatabaseEnvVars::HOST, &self.database_host);
        if let Some(port) = env_number(env, DatabaseEnvVars::PORT, 0xFFFF) {
            self.database_port = Some(port as u16);
        }
        self.database_name = env_text_or(env, DatabaseEnvVars::DATABASE, &self.database_name);
        if let Some(connections) = env_number(env, DatabaseEnvVars::MAX_CONNECTIONS, 0xFFFF_FFFF) {
            self.database_max_connections = Some(connections as u32);
        }
        if let Some(timeout) = env_number(env, DatabaseEnvVars::CONNECT_TIMEOUT, u64::MAX) {
            self.database_connect_timeout = Some(timeout);
        }
        if let Some(seconds) = env_number(env, DatabaseEnvVars::SHORT_INTERVAL, u64::MAX) {
            self.short_interval = seconds;
        }
        if let Some(seconds) = env_number(env, DatabaseEnvVars::LONG_INTERVAL, u64::MAX) {
            self.long_interval = seconds;
        }
        if let Some(days) = env_number(env, DatabaseEnvVars::RETENTION_DAYS, 0xFFFF_FFFF) {
            self.retention_days = days as u32;
        }
        if let Some(bits) = interval {
            self.topology_fetch_interval_seconds = bits;
        }
        if let Some(method) = env_text(env, DatabaseEnvVars::COLLECTION_METHOD) {
            self.collection_method = method;
        }
        if let Some(tls) = Self::build_tls_config_from_env(
            env,
            DatabaseEnvVars::TLS_CA_FILE,
            DatabaseEnvVars::TLS_CERT_FILE,
            DatabaseEnvVars::TLS_KEY_FILE,
            DatabaseEnvVars::TLS_VERIFY_CERTIFICATE,
            DatabaseEnvVars::TLS_VERIFY_HOSTNAME,
        ) {
            self.database_tls = Some(tls);
        }
        if let Some(tls) = Self::build_tls_config_from_env(
            env,
            DatabaseEnvVars::PD_TLS_CA_FILE,
            DatabaseEnvVars::PD_TLS_CERT_FILE,
            DatabaseEnvVars::PD_TLS_KEY_FILE,
            DatabaseEnvVars::PD_TLS_VERIFY_CERTIFICATE,
            DatabaseEnvVars::PD_TLS_VERIFY_HOSTNAME,
        ) {
            self.pd_tls = Some(tls);
        }
    }

    /// Whether `database` is the connection for this configuration: the configured
    /// one for collection by SQL, and one that is never used for the other
    /// methods.
    pub open spec fn connects_by(self, database: DatabaseConfig) -> bool {
        if lowercase(self.collection_method@) == "sql"@ {
            &&& database.username@ == text_or_nothing(self.database_username)
            &&& database.password@ == text_or_nothing(self.database_password)
            &&& database.host@ == text_or_nothing(self.database_host)
            &&& database.port == match self.database_port {
                Some(port) => port,
                None => 4000,
            }
            &&& database.database@ == text_or_nothing(self.database_name)
            &&& database.max_connections == self.database_max_connections
            &&& database.connect_timeout == self.database_connect_timeout
            &&& database.tls == self.database_tls
        } else {
            &&& database.username@ == "unused"@
            &&& database.password@ == "unused"@
            &&& database.host@ == "unused"@
            &&& database.port == 0
            &&& database.database@ == "unused"@
            &&& database.max_connections is None
            &&& database.connect_timeout is None
            &&& database.tls is None
        }
    }

    /// The connection for this configuration.
    pub fn database_config(&self) -> (r: DatabaseConfig)
        ensures
            self.connects_by(r),
    {
        if same(to_lowercase(self.collection_method.as_str()).as_str(), "sql") {
            DatabaseConfig {
                username: text_or_empty(&self.database_username),
                password: text_or_empty(&self.database_password),
                host: text_or_empty(&self.database_host),
                port: match self.database_port {
                    Some(port) => port,
                    None => 4000,
                },
                database: text_or_empty(&self.database_name),
                max_connections: self.database_max_connections,
                connect_timeout: self.database_connect_timeout,
                tls: copy_tls(&self.database_tls),
            }
        } else {
            DatabaseConfig {
                username: "unused".to_string(),
                password: "unused".to_string(),
                host: "unused".to_string(),
                port: 0,
                database: "unused".to_string(),
                max_connections: None,
                connect_timeout: None,
                tls: None,
            }
        }
    }

    /// Whether `settings` is what the controller is started with under this
    /// configuration.
    pub open spec fn starts_with(self, settings: SourceSettings) -> bool {
        &&& settings.pd_address == self.pd_address
        &&& settings.tidb_group == self.tidb_group
        &&& settings.label_k8s_instance == self.label_k8s_instance
        &&& settings.topology_fetch_interval_seconds == self.topology_fetch_interval_seconds
        &&& self.connects_by(settings.database_config)
        &&& settings.collection_config.short_interval == self.short_interval
        &&& settings.collection_config.long_interval == self.long_interval
        &&& settings.collection_config.retention_days == self.retention_days
        &&& settings.tables@ == self.tables@
        &&& settings.pd_tls == self.pd_tls
        &&& settings.collection_method == self.collection_method
    }

    /// What the controller is started with: the configuration with what the
    /// environment overrides, once it has been validated.
    pub fn build(&self, env: &StringMap<String>, interval: Option<u64>) -> (r: Result<
        SourceSettings,
        String,
    >)
        ensures
            match r {
                Ok(settings) => self.merged(env@, interval).fault() is None && self.merged(
                    env@,
                    interval,
                ).starts_with(settings),
                Err(message) => self.merged(env@, interval).fault() == Some(message@),
            },
    {
        let mut config = self.clone();
        let ghost copied = config;
        config.merge_with_env(env, interval);
        proof {
            assert(copied.merged(env@, interval).fault() == self.merged(env@, interval).fault());
        }
        match config.validate() {
            Err(message) => Err(message),
            Ok(_) => Ok(
                SourceSettings {
                    database_config: config.database_config(),
                    collection_config: CollectionConfig {
                        short_interval: config.short_interval,
                        long_interval: config.long_interval,
                        retention_days: config.retention_days,
                    },
                    pd_address: config.pd_address,
                    tidb_group: config.tidb_group,
                    label_k8s_instance: config.label_k8s_instance,
                    topology_fetch_interval_seconds: config.topology_fetch_interval_seconds,
                    tables: config.tables,
                    pd_tls: config.pd_tls,
                    collection_method: config.collection_method,
                },
            ),
        }
    }

    /// An example configuration.
    pub fn generate_config() -> (r: Self)
        ensures
            r.pd_address matches Some(s) && s@ == "127.0.0.1:2379"@,
            r.tidb_group is None,
            r.label_k8s_instance is None,
            r.database_username matches Some(s) && s@ == "root"@,
            r.database_password matches Some(s) && s@ == ""@,
            r.database_host matches Some(s) && s@ == "127.0.0.1"@,
            r.database_port == Some(4000u16),
            r.database_name matches Some(s) && s@ == "test"@,
            r.database_max_connections == Some(10u32),
            r.database_connect_timeout == Some(30u64),
            r.short_interval == 5,
            r.long_interval == 1800,
            r.retention_days == 7,
            r.tables@.len() == 1,
            r.tables@[0].source_schema@ == "information_schema"@,
            r.tables@[0].source_table@ == "PROCESSLIST"@,
            r.tables@[0].dest_table@ == "hist_processlist"@,
            r.tables@[0].collection_interval@ == "short"@,
            r.tables@[0].where_clause matches Some(s) && s@ == "command != 'Sleep'"@,
            r.tables@[0].enabled,
            r.pd_tls is None,
            r.database_tls is None,
            r.topology_fetch_interval_seconds == 0x403E_0000_0000_0000,
            r.collection_method@ == "coprocessor"@,
    {
        let mut tables: Vec<TableConfig> = Vec::new();
        tables.push(
            TableConfig {
                source_schema: "information_schema".to_string(),
                source_table: "PROCESSLIST".to_string(),
                dest_table: "hist_processlist".to_string(),
                collection_interval: "short".to_string(),
                where_clause: Some("command != 'Sleep'".to_string()),
                enabled: true,
            },
        );
        SystemTablesConfig {
            pd_address: Some("127.0.0.1:2379".to_string()),
            tidb_group: None,
            label_k8s_instance: None,
            database_username: Some("root".to_string()),
            database_password: Some("".to_string()),
            database_host: Some("127.0.0.1".to_string()),
            database_port: Some(4000),
            database_name: Some("test".to_string()),
            database_max_connections: Some(10),
            database_connect_timeout: Some(30),
            short_interval: 5,
            long_interval: 1800,
            retention_days: 7,
            tables,
            pd_tls: None,
            database_tls: None,
            topology_fetch_interval_seconds: default_topology_fetch_interval(),
            collection_method: default_collection_method(),
        }
    }
}

impl Clone for SystemTablesConfig {
    fn clone(&self) -> (r: Self)
        ensures
            r.tables@ == self.tables@,
            r == (SystemTablesConfig { tables: r.tables, ..*self }),
    {
        SystemTablesConfig {
            pd_address: copy_text(&self.pd_address),
            tidb_group: copy_text(&self.tidb_group),
            label_k8s_instance: copy_text(&self.label_k8s_instance),
            database_username: copy_text(&self.database_username),
            database_password: copy_text(&self.database_password),
            database_host: copy_text(&self.database_host),
            database_port: self.database_port,
            database_name: copy_text(&self.database_name),
            database_max_connections: self.database_max_connections,
            database_connect_timeout: self.database_connect_timeout,
            short_interval: self.short_interval,
            long_interval: self.long_interval,
            retention_days: self.retention_days,
            tables: copy_tables(&self.tables),
            pd_tls: copy_tls(&self.pd_tls),
            database_tls: copy_tls(&self.database_tls),
            topology_fetch_interval_seconds: self.topology_fetch_interval_seconds,
            collection_method: self.collection_method.clone(),
        }
    }
}

/// Merging the same environment a second time changes nothing.
pub proof fn merging_twice_is_merging_once(
    config: SystemTablesConfig,
    env: Map<Seq<char>, String>,
    interval: Option<u64>,
)
    ensures
        config.merged(env, interval).merged(env, interval) == config.merged(env, interval),
{
}

/// An environment without variables changes nothing.
pub proof fn empty_environment_keeps_configuration(config: SystemTablesConfig)
    ensures
        config.merged(Map::empty(), None) == config,
{
}

/// What the environment gives takes precedence over what is configured: where a
/// variable gives a value, two configurations agree on its field after the merge,
/// whatever they held.
pub proof fn environment_takes_precedence(
    one: SystemTablesConfig,
    other: SystemTablesConfig,
    env: Map<Seq<char>, String>,
    interval: Option<u64>,
)
    ensures
        env.dom().contains(DatabaseEnvVars::PD_ADDRESS@) ==> one.merged(env, interval).pd_address
            == Some(env[DatabaseEnvVars::PD_ADDRESS@]),
        env.dom().contains(DatabaseEnvVars::TIDB_GROUP@) ==> one.merged(env, interval).tidb_group
            == Some(env[DatabaseEnvVars::TIDB_GROUP@]),
        env.dom().contains(DatabaseEnvVars::LABEL_K8S_INSTANCE@) ==> one.merged(
            env,
            interval,
        ).label_k8s_instance == Some(env[DatabaseEnvVars::LABEL_K8S_INSTANCE@]),
        env.dom().contains(DatabaseEnvVars::USERNAME@) ==> one.merged(env, interval).database_username
            == Some(env[DatabaseEnvVars::USERNAME@]),
        env.dom().contains(DatabaseEnvVars::PASSWORD@) ==> one.merged(env, interval).database_password
            == Some(env[DatabaseEnvVars::PASSWORD@]),
        env.dom().contains(DatabaseEnvVars::HOST@) ==> one.merged(env, interval).database_host
            == Some(env[DatabaseEnvVars::HOST@]),
        env.dom().contains(DatabaseEnvVars::DATABASE@) ==> one.merged(env, interval).database_name
            == Some(env[DatabaseEnvVars::DATABASE@]),
        env.dom().contains(DatabaseEnvVars::COLLECTION_METHOD@) ==> one.merged(
            env,
            interval,
        ).collection_method == env[DatabaseEnvVars::COLLECTION_METHOD@],
        number_override(env, DatabaseEnvVars::PORT@, u16::MAX as int) is Some ==> one.merged(
            env,
            interval,
        ).database_port == other.merged(env, interval).database_port,
        number_override(env, DatabaseEnvVars::MAX_CONNECTIONS@, u32::MAX as int) is Some
            ==> one.merged(env, interval).database_max_connections == other.merged(
            env,
            interval,
        ).database_max_connections,
        number_override(env, DatabaseEnvVars::CONNECT_TIMEOUT@, u64::MAX as int) is Some
            ==> one.merged(env, interval).database_connect_timeout == other.merged(
            env,
            interval,
        ).database_connect_timeout,
        interval is Some ==> Some(one.merged(env, interval).topology_fetch_interval_seconds)
            == interval,
        number_override(env, DatabaseEnvVars::SHORT_INTERVAL@, u64::MAX as int) is Some
            ==> one.merged(env, interval).short_interval == other.merged(
            env,
            interval,
        ).short_interval,
        number_override(env, DatabaseEnvVars::LONG_INTERVAL@, u64::MAX as int) is Some
            ==> one.merged(env, interval).long_interval == other.merged(env, interval).long_interval,
        number_override(env, DatabaseEnvVars::RETENTION_DAYS@, u32::MAX as int) is Some
            ==> one.merged(env, interval).retention_days == other.merged(
            env,
            interval,
        ).retention_days,
        database_tls_override(env) is Some ==> one.merged(env, interval).database_tls
            == database_tls_override(env),
        pd_tls_override(env) is Some ==> one.merged(env, interval).pd_tls == pd_tls_override(env),
{
}

/// The collection method of a configuration without fault has a meaning.
pub proof fn faultless_method_is_known(config: SystemTablesConfig)
    requires
        config.fault() is None,
    ensures
        method_named(lowercase(config.collection_method@)) is Some,
{
}

/// Whether a variable of the environment is set.
pub open spec fn is_set(env: Map<Seq<char>, String>, name: Seq<char>) -> bool {
    env.dom().contains(name)
}

/// The variables of these names give these settings, as they are written; where one is
/// not set, what was configured stays.
pub proof fn texts_come_from_these_variables(
    config: SystemTablesConfig,
    env: Map<Seq<char>, String>,
    interval: Option<u64>,
)
    ensures
        ({
            let merged = config.merged(env, interval);
            &&& is_set(env, "PD_ADDRESS"@) ==> merged.pd_address == Some(env["PD_ADDRESS"@])
            &&& !is_set(env, "PD_ADDRESS"@) ==> merged.pd_address == config.pd_address
            &&& is_set(env, "TIDB_GROUP"@) ==> merged.tidb_group == Some(env["TIDB_GROUP"@])
            &&& !is_set(env, "TIDB_GROUP"@) ==> merged.tidb_group == config.tidb_group
            &&& is_set(env, "LABEL_K8S_INSTANCE"@) ==> merged.label_k8s_instance == Some(env["LABEL_K8S_INSTANCE"@])
            &&& !is_set(env, "LABEL_K8S_INSTANCE"@) ==> merged.label_k8s_instance == config.label_k8s_instance
            &&& is_set(env, "TIDB_USERNAME"@) ==> merged.database_username == Some(env["TIDB_USERNAME"@])
            &&& !is_set(env, "TIDB_USERNAME"@) ==> merged.database_username == config.database_username
            &&& is_set(env, "TIDB_PASSWORD"@) ==> merged.database_password == Some(env["TIDB_PASSWORD"@])
            &&& !is_set(env, "TIDB_PASSWORD"@) ==> merged.database_password == config.database_password
            &&& is_set(env, "TIDB_HOST"@) ==> merged.database_host == Some(env["TIDB_HOST"@])
            &&& !is_set(env, "TIDB_HOST"@) ==> merged.database_host == config.database_host
            &&& is_set(env, "TIDB_DATABASE"@) ==> merged.database_name == Some(env["TIDB_DATABASE"@])
            &&& !is_set(env, "TIDB_DATABASE"@) ==> merged.database_name == config.database_name
            &&& is_set(env, "SYSTEM_TABLES_COLLECTION_METHOD"@) ==> merged.collection_method
                == env["SYSTEM_TABLES_COLLECTION_METHOD"@]
            &&& !is_set(env, "SYSTEM_TABLES_COLLECTION_METHOD"@) ==> merged.collection_method
                == config.collection_method
            &&& interval is Some ==> merged.topology_fetch_interval_seconds == interval->0
            &&& interval is None ==> merged.topology_fetch_interval_seconds
                == config.topology_fetch_interval_seconds
            &&& merged.tables == config.tables
        }),
{
}

/// The variables of these names give these numbers, where they write one that fits;
/// where one is not set, or writes something else, what was configured stays.
pub proof fn numbers_come_from_these_variables(
    config: SystemTablesConfig,
    env: Map<Seq<char>, String>,
    interval: Option<u64>,
    name: Seq<char>,
    n: nat,
    i: int,
)
    ensures
        ({
            let merged = config.merged(env, interval);
            let writes = is_set(env, name) && env[name]@ == decimal(n);
            let spoiled = !is_set(env, name) || {
                let text = env[name]@;
                &&& 0 <= i < text.len()
                &&& !('0' <= text[i] <= '9')
                &&& i > 0 || text[i] != '+'
            };
            &&& name == "TIDB_PORT"@ && writes && n <= 65535 ==> merged.database_port == Some(n as u16)
            &&& name == "TIDB_PORT"@ && writes && n > 65535 ==> merged.database_port == config.database_port
            &&& name == "TIDB_PORT"@ && spoiled ==> merged.database_port == config.database_port
            &&& name == "TIDB_MAX_CONNECTIONS"@ && writes && n <= 0xFFFF_FFFF ==> merged.database_max_connections == Some(n as u32)
            &&& name == "TIDB_MAX_CONNECTIONS"@ && writes && n > 0xFFFF_FFFF ==> merged.database_max_connections == config.database_max_connections
            &&& name == "TIDB_MAX_CONNECTIONS"@ && spoiled ==> merged.database_max_connections == config.database_max_connections
            &&& name == "TIDB_CONNECT_TIMEOUT"@ && writes && n <= 0xFFFF_FFFF_FFFF_FFFF ==> merged.database_connect_timeout == Some(n as u64)
            &&& name == "TIDB_CONNECT_TIMEOUT"@ && writes && n > 0xFFFF_FFFF_FFFF_FFFF ==> merged.database_connect_timeout == config.database_connect_timeout
            &&& name == "TIDB_CONNECT_TIMEOUT"@ && spoiled ==> merged.database_connect_timeout == config.database_connect_timeout
            &&& name == "SYSTEM_TABLES_SHORT_INTERVAL"@ && writes && n <= 0xFFFF_FFFF_FFFF_FFFF ==> merged.short_interval == n as u64
            &&& name == "SYSTEM_TABLES_SHORT_INTERVAL"@ && writes && n > 0xFFFF_FFFF_FFFF_FFFF ==> merged.short_interval == config.short_interval
            &&& name == "SYSTEM_TABLES_SHORT_INTERVAL"@ && spoiled ==> merged.short_interval == config.short_interval
            &&& name == "SYSTEM_TABLES_LONG_INTERVAL"@ && writes && n <= 0xFFFF_FFFF_FFFF_FFFF ==> merged.long_interval == n as u64
            &&& name == "SYSTEM_TABLES_LONG_INTERVAL"@ && writes && n > 0xFFFF_FFFF_FFFF_FFFF ==> merged.long_interval == config.long_interval
            &&& name == "SYSTEM_TABLES_LONG_INTERVAL"@ && spoiled ==> merged.long_interval == config.long_interval
            &&& name == "SYSTEM_TABLES_RETENTION_DAYS"@ && writes && n <= 0xFFFF_FFFF ==> merged.retention_days == n as u32
            &&& name == "SYSTEM_TABLES_RETENTION_DAYS"@ && writes && n > 0xFFFF_FFFF ==> merged.retention_days == config.retention_days
            &&& name == "SYSTEM_TABLES_RETENTION_DAYS"@ && spoiled ==> merged.retention_days == config.retention_days
        }),
{
    decimal_reads_back(n);
    assert(is_digit(decimal(n)[0]));
    if is_set(env, name) {
        let text = env[name]@;
        if 0 <= i < text.len() && !('0' <= text[i] <= '9') && (i > 0 || text[i] != '+') {
            lemma_no_number(text, 65535, i);
            lemma_no_number(text, 0xFFFF_FFFF, i);
            lemma_no_number(text, 0xFFFF_FFFF_FFFF_FFFF, i);
        }
    }
}

proof fn lemma_no_number(text: Seq<char>, high: int, i: int)
    requires
        0 <= i < text.len(),
        !('0' <= text[i] <= '9'),
        i > 0 || text[i] != '+',
    ensures
        integer_in(text, false, 0, high) is None,
{
    if i > 0 {
        other_characters_write_no_integer(text, false, 0, high, i);
    } else {
        assert(!is_digit(text[0]));
    }
}

/// Whether a TLS setting is what these variables give: the three files, and the two
/// truth values where a variable says `true` or `false`.
pub open spec fn is_tls_of(
    tls: TlsConfig,
    env: Map<Seq<char>, String>,
    ca: Seq<char>,
    cert: Seq<char>,
    key: Seq<char>,
    certificate: Seq<char>,
    hostname: Seq<char>,
) -> bool {
    &&& tls.ca_file == if is_set(env, ca) {
        Some(env[ca])
    } else {
        None
    }
    &&& tls.crt_file == if is_set(env, cert) {
        Some(env[cert])
    } else {
        None
    }
    &&& tls.key_file == if is_set(env, key) {
        Some(env[key])
    } else {
        None
    }
    &&& is_set(env, certificate) && env[certificate]@ == "true"@ ==> tls.verify_certificate == Some(
        true,
    )
    &&& is_set(env, certificate) && env[certificate]@ == "false"@ ==> tls.verify_certificate
        == Some(false)
    &&& !is_set(env, certificate) || (env[certificate]@ != "true"@ && env[certificate]@
        != "false"@) ==> tls.verify_certificate is None
    &&& is_set(env, hostname) && env[hostname]@ == "true"@ ==> tls.verify_hostname == Some(true)
    &&& is_set(env, hostname) && env[hostname]@ == "false"@ ==> tls.verify_hostname == Some(false)
    &&& !is_set(env, hostname) || (env[hostname]@ != "true"@ && env[hostname]@ != "false"@)
        ==> tls.verify_hostname is None
}

/// The TLS settings come from the variables of these names, for the database and for the
/// discovery of the cluster each from their own, where one of the files is given; else
/// what was configured stays.
pub proof fn tls_comes_from_these_variables(
    config: SystemTablesConfig,
    env: Map<Seq<char>, String>,
    interval: Option<u64>,
)
    ensures
        ({
            let merged = config.merged(env, interval);
            let database = is_set(env, "TIDB_TLS_CA_FILE"@) || is_set(env, "TIDB_TLS_CERT_FILE"@)
                || is_set(env, "TIDB_TLS_KEY_FILE"@);
            let discovery = is_set(env, "PD_TLS_CA_FILE"@) || is_set(env, "PD_TLS_CERT_FILE"@)
                || is_set(env, "PD_TLS_KEY_FILE"@);
            &&& !database ==> merged.database_tls == config.database_tls
            &&& database ==> (merged.database_tls matches Some(tls) && is_tls_of(
                tls,
                env,
                "TIDB_TLS_CA_FILE"@,
                "TIDB_TLS_CERT_FILE"@,
                "TIDB_TLS_KEY_FILE"@,
                "TIDB_TLS_VERIFY_CERTIFICATE"@,
                "TIDB_TLS_VERIFY_HOSTNAME"@,
            ))
            &&& !discovery ==> merged.pd_tls == config.pd_tls
            &&& discovery ==> (merged.pd_tls matches Some(tls) && is_tls_of(
                tls,
                env,
                "PD_TLS_CA_FILE"@,
                "PD_TLS_CERT_FILE"@,
                "PD_TLS_KEY_FILE"@,
                "PD_TLS_VERIFY_CERTIFICATE"@,
                "PD_TLS_VERIFY_HOSTNAME"@,
            ))
        }),
{
    reveal_strlit("true");
    reveal_strlit("false");
    assert("true"@.len() == 4 && "false"@.len() == 5);
}

/// A configuration is accepted exactly with a method that is known, in upper or lower
/// case, and, for collection by SQL, with a user, a password, a host, a port and a
/// database.
pub proof fn complete_configurations_are_accepted(config: SystemTablesConfig)
    ensures
        config.fault() is None <==> {
            let method = lowercase(config.collection_method@);
            ||| method == "coprocessor"@ || method == "http_api"@ || method == "custom_grpc"@
            ||| method == "sql"@ && config.database_username is Some
                && config.database_password is Some && config.database_host is Some
                && config.database_port is Some && config.database_name is Some
        },
{
    reveal_strlit("sql");
    reveal_strlit("coprocessor");
    reveal_strlit("http_api");
    reveal_strlit("custom_grpc");
    assert("sql"@.len() == 3 && "coprocessor"@.len() == 11 && "http_api"@.len() == 8
        && "custom_grpc"@.len() == 11);
}

/// A refused configuration is told what it lacks: the first of the settings that
/// collection by SQL needs, or else the method that is not known.
pub proof fn faults_are_named(config: SystemTablesConfig)
    requires
        config.fault() is Some,
    ensures
        ({
            let fault = config.fault()->0;
            let sql = lowercase(config.collection_method@) == "sql"@;
            &&& sql && config.database_username is None ==> has_part(fault, "database_username"@)
            &&& sql && config.database_username is Some && config.database_password is None
                ==> has_part(fault, "database_password"@)
            &&& sql && config.database_username is Some && config.database_password is Some
                && config.database_host is None ==> has_part(fault, "database_host"@)
            &&& sql && config.database_username is Some && config.database_password is Some
                && config.database_host is Some && config.database_port is None ==> has_part(
                fault,
                "database_port"@,
            )
            &&& sql && config.database_username is Some && config.database_password is Some
                && config.database_host is Some && config.database_port is Some ==> has_part(
                fault,
                "database_name"@,
            )
            &&& !sql ==> has_part(fault, config.collection_method@)
        }),
{
    let fault = config.fault()->0;
    if lowercase(config.collection_method@) == "sql"@ {
        let name = config.missing_field()->0;
        parts_are_found(
            "missing field `"@,
            name,
            "` in `sources.tidb_system_tables` (required for SQL collection method)"@,
        );
    } else {
        parts_are_found(
            "unsupported collection method: "@,
            config.collection_method@,
            ". Supported methods: sql, coprocessor, http_api, custom_grpc"@,
        );
    }
}

/// The database is reached as it is configured for collection by SQL, at the port 4000
/// where none is given, and not at all for the other methods.
pub proof fn databases_are_reached_as_configured(
    config: SystemTablesConfig,
    database: DatabaseConfig,
)
    requires
        config.connects_by(database),
    ensures
        lowercase(config.collection_method@) == "sql"@ ==> {
            &&& config.database_username matches Some(s) ==> database.username@ == s@
            &&& config.database_password matches Some(s) ==> database.password@ == s@
            &&& config.database_host matches Some(s) ==> database.host@ == s@
            &&& config.database_port matches Some(port) ==> database.port == port
            &&& config.database_port is None ==> database.port == 4000
            &&& config.database_name matches Some(s) ==> database.database@ == s@
            &&& database.max_connections == config.database_max_connections
            &&& database.connect_timeout == config.database_connect_timeout
            &&& database.tls == config.database_tls
        },
        lowercase(config.collection_method@) != "sql"@ ==> database.username@ == "unused"@
            && database.password@ == "unused"@ && database.host@ == "unused"@ && database.port == 0
            && database.database@ == "unused"@ && database.tls is None,
{
}

/// The controller is started with what is configured.
pub proof fn settings_are_those_configured(config: SystemTablesConfig, settings: SourceSettings)
    requires
        config.starts_with(settings),
    ensures
        settings.pd_address == config.pd_address,
        settings.pd_tls == config.pd_tls,
        settings.tidb_group == config.tidb_group,
        settings.label_k8s_instance == config.label_k8s_instance,
        settings.topology_fetch_interval_seconds == config.topology_fetch_interval_seconds,
        settings.collection_config.short_interval == config.short_interval,
        settings.collection_config.long_interval == config.long_interval,
        settings.collection_config.retention_days == config.retention_days,
        settings.tables@ == config.tables@,
        settings.collection_method == config.collection_method,
        config.connects_by(settings.database_config),
{
}

/// A configuration is validated: it is accepted exactly if it is complete.
pub proof fn incomplete_configurations_are_refused(
    config: &SystemTablesConfig,
    r: Result<(), String>,
)
    requires
        call_ensures(SystemTablesConfig::validate, (config,), r),
    ensures
        r is Ok <==> {
            let method = lowercase(config.collection_method@);
            ||| method == "coprocessor"@ || method == "http_api"@ || method == "custom_grpc"@
            ||| method == "sql"@ && config.database_username is Some
                && config.database_password is Some && config.database_host is Some
                && config.database_port is Some && config.database_name is Some
        },
{
    complete_configurations_are_accepted(*config);
}

/// Merging the environment into a configuration sets what the environment gives, and
/// leaves all else.
pub proof fn merged_variables_are_set(
    config: &mut SystemTablesConfig,
    env: &StringMap<String>,
    interval: Option<u64>,
)
    requires
        call_ensures(SystemTablesConfig::merge_with_env, (config, env, interval), ()),
    ensures
        is_set(env@, "TIDB_HOST"@) ==> final(config).database_host == Some(env@["TIDB_HOST"@]),
        !is_set(env@, "TIDB_HOST"@) ==> final(config).database_host == old(config).database_host,
        is_set(env@, "TIDB_USERNAME"@) ==> final(config).database_username == Some(
            env@["TIDB_USERNAME"@],
        ),
        is_set(env@, "PD_ADDRESS"@) ==> final(config).pd_address == Some(env@["PD_ADDRESS"@]),
        !is_set(env@, "PD_ADDRESS"@) ==> final(config).pd_address == old(config).pd_address,
        final(config).tables == old(config).tables,
        *final(config) == old(config).merged(env@, interval),
{
    texts_come_from_these_variables(*old(config), env@, interval);
}

} // verus!
