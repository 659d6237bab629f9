//! Configuration of the writing to Delta Lake.
use vstd::prelude::*;
use vstd::string::*;
use crate::string_map::{copy_texts, StringMap};
use crate::text::texts;

verus! {

/// Delta table configuration.
#[derive(Debug, PartialEq)]
pub struct DeltaTableConfig {
    /// Table name
    pub name: String,
    /// Partition columns
    pub partition_by: Option<Vec<String>>,
    /// Enable schema evolution
    pub schema_evolution: Option<bool>,
}

impl Clone for DeltaTableConfig {
    fn clone(&self) -> (r: Self)
        ensures
            r.same_table(*self),
    {
        let partition_by = match &self.partition_by {
            None => None,
            Some(columns) => {
                let mut names: Vec<String> = Vec::new();
                let mut i: usize = 0;
                while i < columns.len()
                    invariant
                        i <= columns@.len(),
                        names@ == columns@.take(i as int),
                    decreases columns@.len() - i,
                {
                    names.push(columns[i].clone());
                    i += 1;
                    assert(names@ =~= columns@.take(i as int));
                }
                assert(columns@.take(i as int) =~= columns@);
                Some(names)
            },
        };
        DeltaTableConfig {
            name: self.name.clone(),
            partition_by,
            schema_evolution: self.schema_evolution,
        }
    }
}

impl DeltaTableConfig {
    /// The partition columns by name.
    pub open spec fn partitions(self) -> Option<Seq<Seq<char>>> {
        match self.partition_by {
            Some(columns) => Some(texts(columns@)),
            None => None,
        }
    }

    /// Whether the two configurations hold the same.
    pub open spec fn same_table(self, other: Self) -> bool {
        &&& self.name@ == other.name@
        &&& self.partitions() == other.partitions()
        &&& self.schema_evolution == other.schema_evolution
    }
}

/// Write configuration.
#[derive(Debug, PartialEq)]
pub struct WriteConfig {
    /// Batch size for writing
    pub batch_size: usize,
    /// Write timeout in seconds
    pub timeout_secs: u64,
    /// Compression format
    pub compression: String,
}

impl Clone for WriteConfig {
    fn clone(&self) -> (r: Self)
        ensures
            r == *self,
    {
        WriteConfig {
            batch_size: self.batch_size,
            timeout_secs: self.timeout_secs,
            compression: self.compression.clone(),
        }
    }
}

/// Compression format.
#[derive(Debug, Clone, Copy, PartialEq, Eq, Structural)]
pub enum CompressionFormat {
    /// Snappy compression
    Snappy,
    /// Gzip compression
    Gzip,
    /// No compression
    Uncompressed,
}

/// The default number of events in a batch.
pub fn default_batch_size() -> (r: usize)
    ensures
        r == 1000,
{
    1000
}

/// The default write timeout in seconds.
pub fn default_timeout_secs() -> (r: u64)
    ensures
        r == 30,
{
    30
}

/// The default compression format.
pub fn default_compression() -> (r: String)
    ensures
        r@ == "snappy"@,
{
    "snappy".to_string()
}

/// The default addressing style: none is set.
pub fn default_force_path_style() -> (r: Option<bool>)
    ensures
        r is None,
{
    None
}

/// A region or an endpoint of a store.
#[derive(Debug, PartialEq)]
pub struct RegionOrEndpoint {
    pub region: Option<String>,
    pub endpoint: Option<String>,
}

/// How access to a store is authorized.
#[allow(inconsistent_fields)]
#[derive(Debug, PartialEq)]
pub enum AwsAuthentication {
    /// By a role that is assumed
    Role {
        assume_role: String,
        external_id: Option<String>,
    },
    /// By a key, and a role that is assumed with it
    AccessKey {
        access_key_id: String,
        secret_access_key: String,
        session_token: Option<String>,
        assume_role: Option<String>,
    },
    /// By a profile of a credentials file
    File {
        credentials_file: String,
        profile: String,
    },
    /// By what the environment gives
    Default,
}

/// Configuration of the writing to Delta Lake.
pub struct DeltaLakeConfig {
    /// Base path for Delta Lake tables
    pub base_path: String,
    /// Batch size for writing
    pub batch_size: usize,
    /// Write timeout in seconds
    pub timeout_secs: u64,
    /// Compression format
    pub compression: String,
    /// Storage options for cloud storage
    pub storage_options: Option<StringMap<String>>,
    /// S3 bucket name for remote storage
    pub bucket: Option<String>,
    /// AWS region or endpoint
    pub region: Option<RegionOrEndpoint>,
    /// AWS authentication
    pub auth: AwsAuthentication,
    /// Specifies which addressing style to use
    pub force_path_style: Option<bool>,
}

/// What a map of options holds.
pub open spec fn options_held(options: Map<Seq<char>, String>) -> Map<Seq<char>, Seq<char>> {
    options.map_values(|v: String| v@)
}

/// `options` with the value under the name, where there is one.
pub open spec fn with_option(
    options: Map<Seq<char>, Seq<char>>,
    name: Seq<char>,
    value: Option<Seq<char>>,
) -> Map<Seq<char>, Seq<char>> {
    match value {
        Some(v) => options.insert(name, v),
        None => options,
    }
}

/// What an optional text holds.
pub open spec fn held(text: Option<String>) -> Option<Seq<char>> {
    match text {
        Some(s) => Some(s@),
        None => None,
    }
}

/// The value of an environment variable, where it is set.
pub open spec fn variable(env: Map<Seq<char>, String>, name: Seq<char>) -> Option<Seq<char>> {
    if env.dom().contains(name) {
        Some(env[name]@)
    } else {
        None
    }
}

/// The options for the place of the tables.
pub open spec fn with_place(
    options: Map<Seq<char>, Seq<char>>,
    region: Option<RegionOrEndpoint>,
    force_path_style: Option<bool>,
) -> Map<Seq<char>, Seq<char>> {
    let allowed = options.insert("AWS_STORAGE_ALLOW_HTTP"@, "true"@);
    let placed = match region {
        Some(r) => with_option(
            with_option(allowed, "AWS_REGION"@, held(r.region)),
            "AWS_ENDPOINT_URL"@,
            held(r.endpoint),
        ),
        None => allowed,
    };
    match force_path_style {
        Some(true) => placed.insert("AWS_S3_ADDRESSING_STYLE"@, "path"@),
        Some(false) => placed.insert("AWS_S3_ADDRESSING_STYLE"@, "virtual"@),
        None => placed,
    }
}

/// The options for a role that is assumed.
pub open spec fn with_role(
    options: Map<Seq<char>, Seq<char>>,
    role: Option<Seq<char>>,
) -> Map<Seq<char>, Seq<char>> {
    match role {
        Some(arn) => options.insert("AWS_IAM_ROLE_ARN"@, arn).insert(
            "AWS_IAM_ROLE_SESSION_NAME"@,
            "vector-deltalake"@,
        ),
        None => options,
    }
}

/// The options for the authorization. By default it is taken from the environment,
/// and from a credentials file where there is one.
pub open spec fn with_authorization(
    options: Map<Seq<char>, Seq<char>>,
    auth: AwsAuthentication,
    env: Map<Seq<char>, String>,
    credentials_file: Option<Seq<char>>,
) -> Map<Seq<char>, Seq<char>> {
    match auth {
        AwsAuthentication::Role { assume_role, external_id } => with_option(
            with_role(options, Some(assume_role@)),
            "AWS_IAM_ROLE_EXTERNAL_ID"@,
            held(external_id),
        ),
        AwsAuthentication::AccessKey {
            access_key_id,
            secret_access_key,
            session_token,
            assume_role,
        } => with_role(
            with_option(
                options.insert("AWS_ACCESS_KEY_ID"@, access_key_id@).insert(
                    "AWS_SECRET_ACCESS_KEY"@,
                    secret_access_key@,
                ),
                "AWS_SESSION_TOKEN"@,
                held(session_token),
            ),
            held(assume_role),
        ),
        AwsAuthentication::File { credentials_file, profile } => options.insert(
            "AWS_PROFILE"@,
            profile@,
        ).insert("AWS_SHARED_CREDENTIALS_FILE"@, credentials_file@),
        AwsAuthentication::Default => {
            let keyed = with_option(
                with_option(
                    options,
                    "AWS_ACCESS_KEY_ID"@,
                    variable(env, "AWS_ACCESS_KEY_ID"@),
                ),
                "AWS_SECRET_ACCESS_KEY"@,
                variable(env, "AWS_SECRET_ACCESS_KEY"@),
            );
            with_option(
                with_option(
                    with_option(
                        keyed,
                        "AWS_SESSION_TOKEN"@,
                        variable(env, "AWS_SESSION_TOKEN"@),
                    ),
                    "AWS_PROFILE"@,
                    variable(env, "AWS_PROFILE"@),
                ),
                "AWS_SHARED_CREDENTIALS_FILE"@,
                credentials_file,
            )
        },
    }
}

/// The options for a store.
pub open spec fn store_options(
    options: Map<Seq<char>, Seq<char>>,
    config: DeltaLakeConfig,
    env: Map<Seq<char>, String>,
    credentials_file: Option<Seq<char>>,
) -> Map<Seq<char>, Seq<char>> {
    with_authorization(
        with_place(options, config.region, config.force_path_style),
        config.auth,
        env,
        credentials_file,
    )
}

fn set_option(options: &mut StringMap<String>, name: &str, value: &str)
    ensures
        options_held(final(options)@) == options_held(old(options)@).insert(name@, value@),
{
    options.insert(name.to_string(), value.to_string());
    assert(options_held(options@) =~= options_held(old(options)@).insert(name@, value@));
}

fn set_option_if(options: &mut StringMap<String>, name: &str, value: &Option<String>)
    ensures
        options_held(final(options)@) == with_option(
            options_held(old(options)@),
            name@,
            held(*value),
        ),
{
    if let Some(v) = value {
        set_option(options, name, v.as_str());
    }
}

fn set_role_if(options: &mut StringMap<String>, role: &Option<String>)
    ensures
        options_held(final(options)@) == with_role(options_held(old(options)@), held(*role)),
{
    if let Some(arn) = role {
        set_option(options, "AWS_IAM_ROLE_ARN", arn.as_str());
        set_option(options, "AWS_IAM_ROLE_SESSION_NAME", "vector-deltalake");
    }
}

fn set_from_environment(options: &mut StringMap<String>, env: &StringMap<String>, name: &str)
    ensures
        options_held(final(options)@) == with_option(
            options_held(old(options)@),
            name@,
            variable(env@, name@),
        ),
{
    if let Some(v) = env.get(name) {
        set_option(options, name, v.as_str());
    }
}

/// Where credentials are kept by default, for a user with a home directory.
pub fn default_credentials_file(env: &StringMap<String>) -> (r: Option<String>)
    ensures
        match r {
            Some(path) => env@.dom().contains("HOME"@) && path@ == env@["HOME"@]@
                + "/.aws/credentials"@,
            None => !env@.dom().contains("HOME"@),
        },
{
    match env.get("HOME") {
        Some(home) => Some(home.clone().concat("/.aws/credentials")),
        None => None,
    }
}

/// How the health of the sink is checked.
#[derive(Debug, Clone, Copy, PartialEq, Eq, Structural)]
pub enum HealthcheckKind {
    /// Not at all: the store is reached for the first time by a write
    Skip,
    /// By a file in the base directory
    LocalDirectory,
}

impl DeltaLakeConfig {
    /// The write configuration.
    pub fn write_config(&self) -> (r: WriteConfig)
        ensures
            r.batch_size == self.batch_size,
            r.timeout_secs == self.timeout_secs,
            r.compression@ == self.compression@,
    {
        WriteConfig {
            batch_size: self.batch_size,
            timeout_secs: self.timeout_secs,
            compression: self.compression.clone(),
        }
    }

    /// Adds the options for a store. `credentials_file` is the default credentials
    /// file, where it exists.
    pub fn apply_s3_storage_options(
        &self,
        storage_options: &mut StringMap<String>,
        env: &StringMap<String>,
        credentials_file: &Option<String>,
    )
        ensures
            options_held(final(storage_options)@) == store_options(
                options_held(old(storage_options)@),
                *self,
                env@,
                held(*credentials_file),
            ),
    {
        set_option(storage_options, "AWS_STORAGE_ALLOW_HTTP", "true");
        if let Some(region) = &self.region {
            set_option_if(storage_options, "AWS_REGION", &region.region);
            set_option_if(storage_options, "AWS_ENDPOINT_URL", &region.endpoint);
        }
        if let Some(force_path_style) = self.force_path_style {
            if force_path_style {
                set_option(storage_options, "AWS_S3_ADDRESSING_STYLE", "path");
            } else {
                set_option(storage_options, "AWS_S3_ADDRESSING_STYLE", "virtual");
            }
        }
        match &self.auth {
            AwsAuthentication::Role { assume_role, external_id } => {
                set_option(storage_options, "AWS_IAM_ROLE_ARN", assume_role.as_str());
                set_option(storage_options, "AWS_IAM_ROLE_SESSION_NAME", "vector-deltalake");
                set_option_if(storage_options, "AWS_IAM_ROLE_EXTERNAL_ID", external_id);
            },
            AwsAuthentication::AccessKey {
                access_key_id,
                secret_access_key,
                session_token,
                assume_role,
            } => {
                set_option(storage_options, "AWS_ACCESS_KEY_ID", access_key_id.as_str());
                set_option(storage_options, "AWS_SECRET_ACCESS_KEY", secret_access_key.as_str());
                set_option_if(storage_options, "AWS_SESSION_TOKEN", session_token);
                set_role_if(storage_options, assume_role);
            },
            AwsAuthentication::File { credentials_file, profile } => {
                set_option(storage_options, "AWS_PROFILE", profile.as_str());
                set_option(
                    storage_options,
                    "AWS_SHARED_CREDENTIALS_FILE",
                    credentials_file.as_str(),
                );
            },
            AwsAuthentication::Default => {
                set_from_environment(storage_options, env, "AWS_ACCESS_KEY_ID");
                set_from_environment(storage_options, env, "AWS_SECRET_ACCESS_KEY");
                set_from_environment(storage_options, env, "AWS_SESSION_TOKEN");
                set_from_environment(storage_options, env, "AWS_PROFILE");
                set_option_if(storage_options, "AWS_SHARED_CREDENTIALS_FILE", credentials_file);
            },
        }
    }

    /// The storage options that the sink is made with: the configured ones, and
    /// those for the store where there is one.
    pub fn sink_storage_options(
        &self,
        has_service: bool,
        env: &StringMap<String>,
        credentials_file: &Option<String>,
    ) -> (r: StringMap<String>)
        ensures
            ({
                let configured = match self.storage_options {
                    Some(options) => options_held(options@),
                    None => Map::empty(),
                };
                options_held(r@) == if has_service {
                    store_options(configured, *self, env@, held(*credentials_file))
                } else {
                    configured
                }
            }),
    {
        let mut options = match &self.storage_options {
            Some(options) => copy_texts(options),
            None => StringMap::new(),
        };
        proof {
            if self.storage_options is None {
                assert(options_held(options@) =~= Map::empty());
            }
        }
        if has_service {
            self.apply_s3_storage_options(&mut options, env, credentials_file);
        }
        options
    }

    /// The region and the addressing style by which the store is reached.
    pub fn service_settings(&self) -> (r: (RegionOrEndpoint, bool))
        ensures
            match self.region {
                Some(region) => r.0 == region,
                None => r.0.region matches Some(name) && name@ == "us-east-1"@
                    && r.0.endpoint is None,
            },
            r.1 == match self.force_path_style {
                Some(b) => b,
                None => true,
            },
    {
        let region = match &self.region {
            Some(region) => RegionOrEndpoint {
                region: match &region.region {
                    Some(s) => Some(s.clone()),
                    None => None,
                },
                endpoint: match &region.endpoint {
                    Some(s) => Some(s.clone()),
                    None => None,
                },
            },
            None => RegionOrEndpoint { region: Some("us-east-1".to_string()), endpoint: None },
        };
        let path_style = match self.force_path_style {
            Some(b) => b,
            None => true,
        };
        (region, path_style)
    }

    /// Whether a store is used at all.
    pub fn uses_store(&self) -> (r: bool)
        ensures
            r == self.bucket is Some,
    {
        self.bucket.is_some()
    }

    /// How the health of the sink is checked.
    pub fn build_healthcheck(&self, has_service: bool) -> (r: HealthcheckKind)
        ensures
            r == if self.bucket is Some && has_service {
                HealthcheckKind::Skip
            } else {
                HealthcheckKind::LocalDirectory
            },
    {
        if self.bucket.is_some() && has_service {
            HealthcheckKind::Skip
        } else {
            HealthcheckKind::LocalDirectory
        }
    }

    /// An example configuration.
    pub fn generate_config() -> (r: Self)
        ensures
            r.base_path@ == "./delta-tables"@,
            r.batch_size == 1000,
            r.timeout_secs == 30,
            r.compression@ == "snappy"@,
            r.storage_options is None,
            r.bucket is None,
            r.region is None,
            r.auth is Default,
            r.force_path_style is None,
    {
        DeltaLakeConfig {
            base_path: "./delta-tables".to_string(),
            batch_size: default_batch_size(),
            timeout_secs: default_timeout_secs(),
            compression: default_compression(),
            storage_options: None,
            bucket: None,
            region: None,
            auth: AwsAuthentication::Default,
            force_path_style: default_force_path_style(),
        }
    }
}

/// The names of the options that are set for a store.
pub open spec fn store_option_names() -> Set<Seq<char>> {
    set![
        "AWS_STORAGE_ALLOW_HTTP"@,
        "AWS_REGION"@,
        "AWS_ENDPOINT_URL"@,
        "AWS_S3_ADDRESSING_STYLE"@,
        "AWS_IAM_ROLE_ARN"@,
        "AWS_IAM_ROLE_SESSION_NAME"@,
        "AWS_IAM_ROLE_EXTERNAL_ID"@,
        "AWS_ACCESS_KEY_ID"@,
        "AWS_SECRET_ACCESS_KEY"@,
        "AWS_SESSION_TOKEN"@,
        "AWS_PROFILE"@,
        "AWS_SHARED_CREDENTIALS_FILE"@,
    ]
}

/// Options that are not about the store are kept as they were configured.
pub proof fn other_options_are_kept(
    options: Map<Seq<char>, Seq<char>>,
    config: DeltaLakeConfig,
    env: Map<Seq<char>, String>,
    credentials_file: Option<Seq<char>>,
    name: Seq<char>,
)
    requires
        !store_option_names().contains(name),
    ensures
        ({
            let after = store_options(options, config, env, credentials_file);
            &&& after.dom().contains(name) == options.dom().contains(name)
            &&& options.dom().contains(name) ==> after[name] == options[name]
        }),
{
}

/// Setting the options for a store a second time changes nothing.
pub proof fn store_options_are_set_once(
    options: Map<Seq<char>, Seq<char>>,
    config: DeltaLakeConfig,
    env: Map<Seq<char>, String>,
    credentials_file: Option<Seq<char>>,
)
    ensures
        ({
            let once = store_options(options, config, env, credentials_file);
            store_options(once, config, env, credentials_file) == once
        }),
{
    let once = store_options(options, config, env, credentials_file);
    assert(store_options(once, config, env, credentials_file) =~= once);
}

/// The names of the options differ from each other.
proof fn lemma_option_names_differ()
    ensures
        forall|i: int, j: int|
            0 <= i < j < 12 ==> (#[trigger] option_names()[i]) != (#[trigger] option_names()[j]),
{
    reveal_strlit("AWS_STORAGE_ALLOW_HTTP");
    reveal_strlit("AWS_REGION");
    reveal_strlit("AWS_ENDPOINT_URL");
    reveal_strlit("AWS_S3_ADDRESSING_STYLE");
    reveal_strlit("AWS_IAM_ROLE_ARN");
    reveal_strlit("AWS_IAM_ROLE_SESSION_NAME");
    reveal_strlit("AWS_IAM_ROLE_EXTERNAL_ID");
    reveal_strlit("AWS_ACCESS_KEY_ID");
    reveal_strlit("AWS_SECRET_ACCESS_KEY");
    reveal_strlit("AWS_SESSION_TOKEN");
    reveal_strlit("AWS_PROFILE");
    reveal_strlit("AWS_SHARED_CREDENTIALS_FILE");
    assert("AWS_STORAGE_ALLOW_HTTP"@.len() == 22);
    assert("AWS_REGION"@.len() == 10);
    assert("AWS_ENDPOINT_URL"@.len() == 16);
    assert("AWS_S3_ADDRESSING_STYLE"@.len() == 23);
    assert("AWS_IAM_ROLE_ARN"@.len() == 16);
    assert("AWS_IAM_ROLE_SESSION_NAME"@.len() == 25);
    assert("AWS_IAM_ROLE_EXTERNAL_ID"@.len() == 24);
    assert("AWS_ACCESS_KEY_ID"@.len() == 17);
    assert("AWS_SECRET_ACCESS_KEY"@.len() == 21);
    assert("AWS_SESSION_TOKEN"@.len() == 17);
    assert("AWS_PROFILE"@.len() == 11);
    assert("AWS_SHARED_CREDENTIALS_FILE"@.len() == 27);
    assert("AWS_ENDPOINT_URL"@[4] != "AWS_IAM_ROLE_ARN"@[4]);
    assert("AWS_ACCESS_KEY_ID"@[4] != "AWS_SESSION_TOKEN"@[4]);
    let names = option_names();
    assert forall|i: int, j: int| 0 <= i < j < 12 implies (#[trigger] names[i]) != (
    #[trigger] names[j]) by {
        assert(i == 0 || i == 1 || i == 2 || i == 3 || i == 4 || i == 5 || i == 6 || i == 7 || i == 8
            || i == 9 || i == 10 || i == 11);
        assert(j == 0 || j == 1 || j == 2 || j == 3 || j == 4 || j == 5 || j == 6 || j == 7 || j == 8
            || j == 9 || j == 10 || j == 11);
    }
}

/// The names of the options for a store, in a row.
pub open spec fn option_names() -> Seq<Seq<char>> {
    seq![
        "AWS_STORAGE_ALLOW_HTTP"@,
        "AWS_REGION"@,
        "AWS_ENDPOINT_URL"@,
        "AWS_S3_ADDRESSING_STYLE"@,
        "AWS_IAM_ROLE_ARN"@,
        "AWS_IAM_ROLE_SESSION_NAME"@,
        "AWS_IAM_ROLE_EXTERNAL_ID"@,
        "AWS_ACCESS_KEY_ID"@,
        "AWS_SECRET_ACCESS_KEY"@,
        "AWS_SESSION_TOKEN"@,
        "AWS_PROFILE"@,
        "AWS_SHARED_CREDENTIALS_FILE"@,
    ]
}

/// Whether an option has a value.
pub open spec fn is_option(
    options: Map<Seq<char>, Seq<char>>,
    name: Seq<char>,
    value: Seq<char>,
) -> bool {
    options.dom().contains(name) && options[name] == value
}

/// Whether an option is what it was before.
pub open spec fn option_stays(
    before: Map<Seq<char>, Seq<char>>,
    after: Map<Seq<char>, Seq<char>>,
    name: Seq<char>,
) -> bool {
    &&& before.dom().contains(name) == after.dom().contains(name)
    &&& before.dom().contains(name) ==> before[name] == after[name]
}

/// A store is reached without encryption where it has to be, in the region and at the
/// endpoint that are configured, and with buckets in the path or in the name of the host
/// as it is configured.
pub proof fn stores_are_reached_as_configured(
    options: Map<Seq<char>, Seq<char>>,
    config: DeltaLakeConfig,
    env: Map<Seq<char>, String>,
    credentials_file: Option<Seq<char>>,
)
    ensures
        ({
            let after = store_options(options, config, env, credentials_file);
            &&& is_option(after, "AWS_STORAGE_ALLOW_HTTP"@, "true"@)
            &&& config.region matches Some(r) ==> (r.region matches Some(s) ==> is_option(
                after,
                "AWS_REGION"@,
                s@,
            ))
            &&& config.region matches Some(r) ==> (r.endpoint matches Some(s) ==> is_option(
                after,
                "AWS_ENDPOINT_URL"@,
                s@,
            ))
            &&& config.region is None ==> option_stays(options, after, "AWS_REGION"@)
                && option_stays(options, after, "AWS_ENDPOINT_URL"@)
            &&& config.force_path_style == Some(true) ==> is_option(
                after,
                "AWS_S3_ADDRESSING_STYLE"@,
                "path"@,
            )
            &&& config.force_path_style == Some(false) ==> is_option(
                after,
                "AWS_S3_ADDRESSING_STYLE"@,
                "virtual"@,
            )
            &&& config.force_path_style is None ==> option_stays(
                options,
                after,
                "AWS_S3_ADDRESSING_STYLE"@,
            )
        }),
{
    lemma_option_names_differ();
    let names = option_names();
    assert(names[0] == "AWS_STORAGE_ALLOW_HTTP"@);
    assert(names[1] == "AWS_REGION"@);
    assert(names[2] == "AWS_ENDPOINT_URL"@);
    assert(names[3] == "AWS_S3_ADDRESSING_STYLE"@);
    assert(names[4] == "AWS_IAM_ROLE_ARN"@);
    assert(names[5] == "AWS_IAM_ROLE_SESSION_NAME"@);
    assert(names[6] == "AWS_IAM_ROLE_EXTERNAL_ID"@);
    assert(names[7] == "AWS_ACCESS_KEY_ID"@);
    assert(names[8] == "AWS_SECRET_ACCESS_KEY"@);
    assert(names[9] == "AWS_SESSION_TOKEN"@);
    assert(names[10] == "AWS_PROFILE"@);
    assert(names[11] == "AWS_SHARED_CREDENTIALS_FILE"@);
}

/// Access is authorized as it is configured: by the role, by the key and its secret, by
/// the profile of a file, or by what the environment gives under the same names.
pub proof fn access_is_authorized_as_configured(
    options: Map<Seq<char>, Seq<char>>,
    config: DeltaLakeConfig,
    env: Map<Seq<char>, String>,
    credentials_file: Option<Seq<char>>,
)
    ensures
        ({
            let after = store_options(options, config, env, credentials_file);
            match config.auth {
                AwsAuthentication::Role { assume_role, external_id } => {
                    &&& is_option(after, "AWS_IAM_ROLE_ARN"@, assume_role@)
                    &&& is_option(after, "AWS_IAM_ROLE_SESSION_NAME"@, "vector-deltalake"@)
                    &&& external_id matches Some(id) ==> is_option(
                        after,
                        "AWS_IAM_ROLE_EXTERNAL_ID"@,
                        id@,
                    )
                    &&& option_stays(options, after, "AWS_ACCESS_KEY_ID"@)
                    &&& option_stays(options, after, "AWS_SECRET_ACCESS_KEY"@)
                },
                AwsAuthentication::AccessKey {
                    access_key_id,
                    secret_access_key,
                    session_token,
                    assume_role,
                } => {
                    &&& is_option(after, "AWS_ACCESS_KEY_ID"@, access_key_id@)
                    &&& is_option(after, "AWS_SECRET_ACCESS_KEY"@, secret_access_key@)
                    &&& session_token matches Some(token) ==> is_option(
                        after,
                        "AWS_SESSION_TOKEN"@,
                        token@,
                    )
                    &&& assume_role matches Some(arn) ==> is_option(
                        after,
                        "AWS_IAM_ROLE_ARN"@,
                        arn@,
                    ) && is_option(after, "AWS_IAM_ROLE_SESSION_NAME"@, "vector-deltalake"@)
                    &&& assume_role is None ==> option_stays(options, after, "AWS_IAM_ROLE_ARN"@)
                },
                AwsAuthentication::File { credentials_file, profile } => {
                    &&& is_option(after, "AWS_PROFILE"@, profile@)
                    &&& is_option(after, "AWS_SHARED_CREDENTIALS_FILE"@, credentials_file@)
                    &&& option_stays(options, after, "AWS_ACCESS_KEY_ID"@)
                },
                AwsAuthentication::Default => {
                    &&& forall|name: Seq<char>| #[trigger]
                        env.dom().contains(name) && (name == "AWS_ACCESS_KEY_ID"@ || name
                            == "AWS_SECRET_ACCESS_KEY"@ || name == "AWS_SESSION_TOKEN"@ || name
                            == "AWS_PROFILE"@) ==> is_option(after, name, env[name]@)
                    &&& !env.dom().contains("AWS_ACCESS_KEY_ID"@) ==> option_stays(
                        options,
                        after,
                        "AWS_ACCESS_KEY_ID"@,
                    )
                    &&& !env.dom().contains("AWS_SECRET_ACCESS_KEY"@) ==> option_stays(
                        options,
                        after,
                        "AWS_SECRET_ACCESS_KEY"@,
                    )
                    &&& credentials_file matches Some(path) ==> is_option(
                        after,
                        "AWS_SHARED_CREDENTIALS_FILE"@,
                        path,
                    )
                },
            }
        }),
{
    lemma_option_names_differ();
    let names = option_names();
    assert(names[0] == "AWS_STORAGE_ALLOW_HTTP"@);
    assert(names[1] == "AWS_REGION"@);
    assert(names[2] == "AWS_ENDPOINT_URL"@);
    assert(names[3] == "AWS_S3_ADDRESSING_STYLE"@);
    assert(names[4] == "AWS_IAM_ROLE_ARN"@);
    assert(names[5] == "AWS_IAM_ROLE_SESSION_NAME"@);
    assert(names[6] == "AWS_IAM_ROLE_EXTERNAL_ID"@);
    assert(names[7] == "AWS_ACCESS_KEY_ID"@);
    assert(names[8] == "AWS_SECRET_ACCESS_KEY"@);
    assert(names[9] == "AWS_SESSION_TOKEN"@);
    assert(names[10] == "AWS_PROFILE"@);
    assert(names[11] == "AWS_SHARED_CREDENTIALS_FILE"@);
}

/// A table is partitioned by the columns that its configuration lists, in their order.
pub proof fn partitions_are_those_listed(config: DeltaTableConfig, i: int)
    ensures
        config.partition_by is None <==> config.partitions() is None,
        config.partition_by matches Some(columns) ==> (config.partitions() matches Some(names)
            && names.len() == columns@.len() && (0 <= i < columns@.len() ==> names[i]
            == columns@[i]@)),
{
}

/// A store without a configured region is in `us-east-1`, and has its buckets in the
/// path, unless the configuration says otherwise.
pub proof fn services_have_defaults(config: &DeltaLakeConfig, r: (RegionOrEndpoint, bool))
    requires
        call_ensures(DeltaLakeConfig::service_settings, (config,), r),
    ensures
        config.region matches Some(region) ==> r.0 == region,
        config.region is None ==> (r.0.region matches Some(name) && name@ == "us-east-1"@)
            && r.0.endpoint is None,
        config.force_path_style matches Some(b) ==> r.1 == b,
        config.force_path_style is None ==> r.1,
{
}

/// A sink with a store is not checked before its first write; any other is checked by
/// its directory.
pub proof fn only_local_sinks_are_checked(
    config: &DeltaLakeConfig,
    has_service: bool,
    kind: HealthcheckKind,
    uses: bool,
)
    requires
        call_ensures(DeltaLakeConfig::build_healthcheck, (config, has_service), kind),
        call_ensures(DeltaLakeConfig::uses_store, (config,), uses),
    ensures
        uses <==> config.bucket is Some,
        kind == HealthcheckKind::Skip <==> uses && has_service,
{
}

/// By default a batch has a thousand events, a write takes thirty seconds at most, and
/// files are compressed by Snappy. Credentials are in the home directory.
pub proof fn these_are_the_defaults(
    size: usize,
    seconds: u64,
    compression: String,
    env: &StringMap<String>,
    file: Option<String>,
)
    requires
        call_ensures(default_batch_size, (), size),
        call_ensures(default_timeout_secs, (), seconds),
        call_ensures(default_compression, (), compression),
        call_ensures(default_credentials_file, (env,), file),
    ensures
        size == 1000,
        seconds == 30,
        compression@ == "snappy"@,
        env@.dom().contains("HOME"@) ==> (file matches Some(path) && path@ == env@["HOME"@]@
            + "/.aws/credentials"@),
        !env@.dom().contains("HOME"@) ==> file is None,
{
}

/// Setting the options for a store sets the region, the endpoint and the key that are
/// configured.
pub proof fn options_are_set_for_the_store(
    config: &DeltaLakeConfig,
    options: &mut StringMap<String>,
    env: &StringMap<String>,
    file: &Option<String>,
    region: RegionOrEndpoint,
    s: String,
)
    requires
        call_ensures(
            DeltaLakeConfig::apply_s3_storage_options,
            (config, options, env, file),
            (),
        ),
        config.region == Some(region),
    ensures
        is_option(options_held(final(options)@), "AWS_STORAGE_ALLOW_HTTP"@, "true"@),
        region.region == Some(s) ==> is_option(options_held(final(options)@), "AWS_REGION"@, s@),
        region.endpoint == Some(s) ==> is_option(
            options_held(final(options)@),
            "AWS_ENDPOINT_URL"@,
            s@,
        ),
{
    stores_are_reached_as_configured(options_held(old(options)@), *config, env@, held(*file));
}

} // verus!
