//! Which collectors run, as instances come and go.
//!
//! The controller decides which collectors are to be started and stopped. They
//! are started and stopped elsewhere.
use vstd::prelude::*;
use vstd::string::*;
use crate::string_map::{dropped, stored, StringMap};
use crate::system_tables::collector_factory::{supported, Collector, CollectorFactory};
use crate::system_tables::config::{
    copy_tables, copy_text, copy_tls, CollectionConfig, DatabaseConfig, SourceSettings,
    TableConfig, TlsConfig,
};
use crate::system_tables::data_collector::utils::{
    create_event_from_result, custom_interval_is_exact, event_fields, fields_view,
    interval_seconds, parse_collection_interval,
};
use crate::system_tables::data_collector::{
    method_named, CollectionErrorView, CollectionMethod, CollectionResult, CollectorConfig,
    CollectorConfigType,
};
use crate::text::{
    append_decimal, decimal, decimal_reads_back, has_part, has_prefix, has_suffix, is_digit,
    lowercase, parts_are_found, same, starts_with, texts,
};
use crate::value::{Number, Value, ValueView};

verus! {

/// What an instance of the cluster is.
#[derive(Debug, Clone, Copy, PartialEq, Eq, Structural)]
pub enum InstanceType {
    PD,
    TiDB,
    TiKV,
    TiFlash,
    TiProxy,
    /// An instance of another kind
    Other,
}

/// An instance of the cluster.
#[derive(Debug, PartialEq)]
pub struct Component {
    pub instance_type: InstanceType,
    pub host: String,
    pub primary_port: u16,
}

impl Clone for Component {
    fn clone(&self) -> (r: Self)
        ensures
            r == *self,
    {
        Component {
            instance_type: self.instance_type,
            host: self.host.clone(),
            primary_port: self.primary_port,
        }
    }
}

impl Component {
    /// The address of the instance.
    pub open spec fn address(self) -> Seq<char> {
        self.host@ + ":"@ + decimal(self.primary_port as nat)
    }

    /// The address of the instance.
    pub fn address_text(&self) -> (r: String)
        ensures
            r@ == self.address(),
    {
        let mut text = self.host.clone().concat(":");
        append_decimal(&mut text, self.primary_port as u64);
        text
    }
}

/// Task information for a running collector.
#[derive(Debug, Clone, Copy, PartialEq, Eq, Structural)]
pub struct CollectorTask {
    pub collector_type: CollectionMethod,
    pub table_count: usize,
}

/// By which instances the cluster is discovered.
pub struct TopologySettings {
    pub pd_address: String,
    pub pd_tls: Option<TlsConfig>,
    pub tidb_group: Option<String>,
    pub label_k8s_instance: Option<String>,
}

/// Main controller of the collectors.
pub struct Controller {
    pub tidb_components: Vec<Component>,
    pub running_collectors: StringMap<CollectorTask>,
    pub database_config: DatabaseConfig,
    pub collection_config: CollectionConfig,
    pub tables: Vec<TableConfig>,
    pub collection_method: CollectionMethod,
}

/// Why the controller cannot be created.
pub open spec fn settings_fault(settings: SourceSettings, nextgen: bool) -> Option<Seq<char>> {
    if method_named(lowercase(settings.collection_method@)) is None {
        Some(
            "Invalid collection method: "@ + CollectionErrorView::ConfigurationError(
                "Unknown collection method: "@ + settings.collection_method@
                    + ". Supported: sql, coprocessor, http_api, custom_grpc"@,
            ).text(),
        )
    } else if nextgen && settings.tidb_group is None && settings.label_k8s_instance is None {
        Some("In nextgen mode, either tidb_group or label_k8s_instance must be specified"@)
    } else if !nextgen && settings.pd_address is None {
        Some("In legacy mode, pd_address must be specified"@)
    } else {
        None
    }
}

impl TopologySettings {
    /// Whether the cluster is discovered as `settings` asks for: without an address
    /// and without TLS in nextgen mode.
    pub open spec fn follows(self, settings: SourceSettings, nextgen: bool) -> bool {
        &&& self.tidb_group == settings.tidb_group
        &&& self.label_k8s_instance == settings.label_k8s_instance
        &&& if nextgen {
            self.pd_address@ == ""@ && self.pd_tls is None
        } else {
            Some(self.pd_address) == settings.pd_address && self.pd_tls == settings.pd_tls
        }
    }
}

/// Whether a table is about the whole cluster.
pub open spec fn is_cluster_table(table: TableConfig) -> bool {
    has_prefix(table.source_table@, "CLUSTER_"@)
}

/// Those of the tables that are about the whole cluster.
pub open spec fn cluster_tables(tables: Seq<TableConfig>) -> Seq<TableConfig> {
    tables.filter(|t: TableConfig| is_cluster_table(t))
}

/// Those of the tables that are about one instance.
pub open spec fn instance_tables(tables: Seq<TableConfig>) -> Seq<TableConfig> {
    tables.filter(|t: TableConfig| !is_cluster_table(t))
}

/// The key of the collector on the instance with this address for the tables about
/// the whole cluster.
pub open spec fn cluster_key(address: Seq<char>) -> Seq<char> {
    address + "_cluster"@
}

/// The key of the collector on the instance with this address for the other
/// tables.
pub open spec fn instance_key(address: Seq<char>) -> Seq<char> {
    address + "_instance"@
}

/// Whether the key is that of a collector on the instance with this address.
pub open spec fn belongs_to(key: Seq<char>, address: Seq<char>) -> bool {
    key == cluster_key(address) || key == instance_key(address)
}

/// Whether a collector for the tables about the whole cluster runs on one of the
/// instances.
pub open spec fn cluster_is_collected(
    running: Set<Seq<char>>,
    components: Seq<Component>,
) -> bool {
    exists|i: int|
        0 <= i < components.len() && running.contains(cluster_key((#[trigger] components[i]).address()))
}

/// A collector that has to run: on which instance, and whether it is for the
/// tables about the whole cluster.
pub struct Duty {
    pub component: Component,
    pub cluster: bool,
}

impl Duty {
    /// The key of the collector.
    pub open spec fn key(self) -> Seq<char> {
        if self.cluster {
            cluster_key(self.component.address())
        } else {
            instance_key(self.component.address())
        }
    }

    /// The key of the collector.
    fn key_text(&self) -> (r: String)
        ensures
            r@ == self.key(),
    {
        if self.cluster {
            self.component.address_text().concat("_cluster")
        } else {
            self.component.address_text().concat("_instance")
        }
    }
}

/// The collectors that have to run: one on the first instance for the tables about
/// the whole cluster, where one is needed, and one on each instance for the other
/// tables, where there are such tables.
pub open spec fn duties(
    components: Seq<Component>,
    needs_cluster_collector: bool,
    has_instance_tables: bool,
) -> Seq<Duty> {
    let first = if needs_cluster_collector && components.len() > 0 {
        seq![Duty { component: components[0], cluster: true }]
    } else {
        Seq::empty()
    };
    let each = if has_instance_tables {
        components.map_values(|c: Component| Duty { component: c, cluster: false })
    } else {
        Seq::empty()
    };
    first + each
}

/// A change of the running collectors that has begun.
pub struct Update {
    pub components: Vec<Component>,
    pub cluster_tables: Vec<TableConfig>,
    pub instance_tables: Vec<TableConfig>,
    /// Whether one of the instances already has a collector for the tables about the
    /// whole cluster.
    pub cluster_collected: bool,
    /// How many of the collectors that have to run have been dealt with.
    pub next: usize,
}

impl Update {
    /// Whether a collector has to be started for the tables about the whole cluster:
    /// there are such tables, and none runs on an instance that is there.
    pub open spec fn needs_cluster_collector(self) -> bool {
        self.cluster_tables@.len() > 0 && !self.cluster_collected
    }

    /// The collectors that have to run, but for one that the tables about the whole
    /// cluster already have.
    pub open spec fn plan(self) -> Seq<Duty> {
        duties(
            self.components@,
            self.needs_cluster_collector(),
            self.instance_tables@.len() > 0,
        )
    }

    /// The tables of a collector.
    pub open spec fn tables_of(self, duty: Duty) -> Seq<TableConfig> {
        if duty.cluster {
            self.cluster_tables@
        } else {
            self.instance_tables@
        }
    }

    fn duty_at(&self, i: usize) -> (r: Option<Duty>)
        ensures
            match r {
                Some(duty) => i < self.plan().len() && duty == self.plan()[i as int],
                None => i >= self.plan().len(),
            },
    {
        let first: bool = self.cluster_tables.len() > 0 && !self.cluster_collected
            && self.components.len() > 0;
        if first && i == 0 {
            return Some(Duty { component: self.components[0].clone(), cluster: true });
        }
        let at: usize = if first { i - 1 } else { i };
        if self.instance_tables.len() > 0 && at < self.components.len() {
            Some(Duty { component: self.components[at].clone(), cluster: false })
        } else {
            None
        }
    }
}

/// A collector that is to be started.
pub struct StartRequest {
    pub key: String,
    pub method: CollectionMethod,
    pub config: CollectorConfig,
}

/// Those of the tables that are about the whole cluster, or those that are not.
fn select_tables(tables: &Vec<TableConfig>, cluster: bool) -> (r: Vec<TableConfig>)
    ensures
        cluster ==> r@ == cluster_tables(tables@),
        !cluster ==> r@ == instance_tables(tables@),
{
    let mut out: Vec<TableConfig> = Vec::new();
    let mut i: usize = 0;
    proof {
        reveal(Seq::filter);
    }
    while i < tables.len()
        invariant
            i <= tables@.len(),
            cluster ==> out@ == cluster_tables(tables@.take(i as int)),
            !cluster ==> out@ == instance_tables(tables@.take(i as int)),
        decreases tables@.len() - i,
    {
        proof {
            reveal(Seq::filter);
            assert(tables@.take(i + 1).drop_last() =~= tables@.take(i as int));
        }
        if starts_with(tables[i].source_table.as_str(), "CLUSTER_") == cluster {
            out.push(tables[i].clone());
        }
        i += 1;
    }
    assert(tables@.take(i as int) =~= tables@);
    out
}

/// Whether a running collector is stopped when the instances change: it belongs to
/// an instance that is gone.
pub open spec fn is_orphan(key: Seq<char>, before: Seq<Component>, after: Seq<Component>) -> bool {
    exists|i: int|
        0 <= i < before.len() && is_gone(#[trigger] before[i], after) && belongs_to(
            key,
            before[i].address(),
        )
}

/// The keys of the running collectors on the instance with this address.
pub open spec fn keys_on(running: Set<Seq<char>>, address: Seq<char>) -> Seq<Seq<char>> {
    let cluster = if running.contains(cluster_key(address)) {
        seq![cluster_key(address)]
    } else {
        Seq::empty()
    };
    if running.contains(instance_key(address)) {
        cluster.push(instance_key(address))
    } else {
        cluster
    }
}

/// Whether no instance has the address of the component.
pub open spec fn is_gone(component: Component, after: Seq<Component>) -> bool {
    forall|j: int| 0 <= j < after.len() ==> (#[trigger] after[j]).address() != component.address()
}

/// How many of the tasks have the type, and how many tables they have.
pub open spec fn tasks_of(tasks: Seq<(Seq<char>, CollectorTask)>, method: CollectionMethod) -> (
    int,
    int,
)
    decreases tasks.len(),
{
    if tasks.len() == 0 {
        (0, 0)
    } else {
        let (count, tables) = tasks_of(tasks.drop_last(), method);
        let last = tasks.last().1;
        if last.collector_type == method {
            (count + 1, tables + last.table_count)
        } else {
            (count, tables)
        }
    }
}

/// An entry of a statistic for a type, where there are collectors of the type.
pub open spec fn type_entry(
    tasks: Seq<(Seq<char>, CollectorTask)>,
    method: CollectionMethod,
    by_tables: bool,
) -> Seq<(Seq<char>, ValueView)> {
    let (count, tables) = tasks_of(tasks, method);
    if count == 0 {
        Seq::empty()
    } else {
        seq![
            (
                method.name(),
                ValueView::Number(
                    Number::PosInt(
                        (if by_tables {
                            tables
                        } else {
                            count
                        }) as u64,
                    ),
                ),
            ),
        ]
    }
}

/// A statistic by type: the number of collectors, or that of their tables.
pub open spec fn type_statistic(
    tasks: Seq<(Seq<char>, CollectorTask)>,
    by_tables: bool,
) -> Seq<(Seq<char>, ValueView)> {
    type_entry(tasks, CollectionMethod::Sql, by_tables) + type_entry(
        tasks,
        CollectionMethod::Coprocessor,
        by_tables,
    ) + type_entry(tasks, CollectionMethod::HttpApi, by_tables) + type_entry(
        tasks,
        CollectionMethod::CustomGrpc,
        by_tables,
    )
}

impl Controller {
    /// Create a new controller, and how the cluster is discovered. `nextgen` tells
    /// whether the cluster is discovered by Kubernetes labels.
    pub fn new(settings: SourceSettings, nextgen: bool) -> (r: Result<
        (Controller, TopologySettings),
        String,
    >)
        ensures
            match r {
                Ok((controller, topology)) => {
                    &&& settings_fault(settings, nextgen) is None
                    &&& topology.follows(settings, nextgen)
                    &&& controller.tidb_components@.len() == 0
                    &&& controller.running_collectors@ == Map::<Seq<char>, CollectorTask>::empty()
                    &&& controller.running_collectors.items().len() == 0
                    &&& controller.database_config == settings.database_config
                    &&& controller.collection_config == settings.collection_config
                    &&& controller.tables == settings.tables
                    &&& Some(controller.collection_method) == method_named(
                        lowercase(settings.collection_method@),
                    )
                },
                Err(message) => settings_fault(settings, nextgen) == Some(message@),
            },
    {
        let collection_method = match CollectionMethod::from_string(
            settings.collection_method.as_str(),
        ) {
            Ok(method) => method,
            Err(e) => {
                return Err(
                    "Invalid collection method: ".to_string().concat(e.to_text().as_str()),
                );
            },
        };
        let topology = if nextgen {
            if settings.tidb_group.is_none() && settings.label_k8s_instance.is_none() {
                return Err(
                    "In nextgen mode, either tidb_group or label_k8s_instance must be specified".to_string(),
                );
            }
            TopologySettings {
                pd_address: "".to_string(),
                pd_tls: None,
                tidb_group: copy_text(&settings.tidb_group),
                label_k8s_instance: copy_text(&settings.label_k8s_instance),
            }
        } else {
            match &settings.pd_address {
                None => {
                    return Err("In legacy mode, pd_address must be specified".to_string());
                },
                Some(address) => TopologySettings {
                    pd_address: address.clone(),
                    pd_tls: copy_tls(&settings.pd_tls),
                    tidb_group: copy_text(&settings.tidb_group),
                    label_k8s_instance: copy_text(&settings.label_k8s_instance),
                },
            }
        };
        Ok(
            (
                Controller {
                    tidb_components: Vec::new(),
                    running_collectors: StringMap::new(),
                    database_config: settings.database_config,
                    collection_config: settings.collection_config,
                    tables: settings.tables,
                    collection_method,
                },
                topology,
            ),
        )
    }

    /// The TiDB instances among the instances of the cluster.
    pub fn tidb_instances(components: Vec<Component>) -> (r: Vec<Component>)
        ensures
            r@ == components@.filter(|c: Component| c.instance_type == InstanceType::TiDB),
    {
        let mut out: Vec<Component> = Vec::new();
        let mut i: usize = 0;
        let ghost is_tidb = |c: Component| c.instance_type == InstanceType::TiDB;
        proof {
            reveal(Seq::filter);
        }
        while i < components.len()
            invariant
                i <= components@.len(),
                is_tidb == (|c: Component| c.instance_type == InstanceType::TiDB),
                out@ == components@.take(i as int).filter(is_tidb),
            decreases components@.len() - i,
        {
            proof {
                reveal(Seq::filter);
                assert(components@.take(i + 1).drop_last() =~= components@.take(i as int));
            }
            if components[i].instance_type == InstanceType::TiDB {
                out.push(components[i].clone());
            }
            i += 1;
        }
        assert(components@.take(i as int) =~= components@);
        out
    }

    /// Whether a collector for the tables about the whole cluster runs on one of the
    /// instances.
    fn collects_cluster(&self, components: &Vec<Component>) -> (r: bool)
        ensures
            r == cluster_is_collected(self.running_collectors@.dom(), components@),
    {
        let mut i: usize = 0;
        while i < components.len()
            invariant
                i <= components@.len(),
                forall|k: int|
                    0 <= k < i ==> !self.running_collectors@.dom().contains(
                        cluster_key((#[trigger] components@[k]).address()),
                    ),
            decreases components@.len() - i,
        {
            let key = components[i].address_text().concat("_cluster");
            if self.running_collectors.contains_key(key.as_str()) {
                assert(key@ == cluster_key(components@[i as int].address()));
                return true;
            }
            i += 1;
        }
        false
    }

    /// Begins a change to the instances `new_components`.
    pub fn begin_update(&self, new_components: Vec<Component>) -> (r: Update)
        ensures
            r.components == new_components,
            r.cluster_tables@ == cluster_tables(self.tables@),
            r.instance_tables@ == instance_tables(self.tables@),
            r.cluster_collected == cluster_is_collected(
                self.running_collectors@.dom(),
                new_components@,
            ),
            r.next == 0,
    {
        let cluster_collected = self.collects_cluster(&new_components);
        Update {
            components: new_components,
            cluster_tables: select_tables(&self.tables, true),
            instance_tables: select_tables(&self.tables, false),
            cluster_collected,
            next: 0,
        }
    }

    /// Whether `config` is the configuration of a collector on the instance for
    /// these tables.
    pub open spec fn configures(
        self,
        config: CollectorConfig,
        component: Component,
        tables: Seq<TableConfig>,
    ) -> bool {
        &&& config.instance@ == component.address()
        &&& config.collection_config == self.collection_config
        &&& config.tables@ == tables
        &&& match config.config_type {
            CollectorConfigType::Coprocessor { host, port } => self.collection_method
                == CollectionMethod::Coprocessor && host == component.host && port
                == component.primary_port,
            CollectorConfigType::Sql { database_config } => self.collection_method
                != CollectionMethod::Coprocessor && database_config == (DatabaseConfig {
                host: component.host,
                port: component.primary_port,
                ..self.database_config
            }),
        }
    }

    fn collector_config(&self, component: &Component, tables: &Vec<TableConfig>) -> (r:
        CollectorConfig)
        ensures
            self.configures(r, *component, tables@),
    {
        let config_type = match self.collection_method {
            CollectionMethod::Coprocessor => CollectorConfigType::Coprocessor {
                host: component.host.clone(),
                port: component.primary_port,
            },
            _ => {
                let mut database_config = self.database_config.clone();
                database_config.host = component.host.clone();
                database_config.port = component.primary_port;
                CollectorConfigType::Sql { database_config }
            },
        };
        CollectorConfig {
            instance: component.address_text(),
            config_type,
            collection_config: self.collection_config,
            tables: copy_tables(tables),
        }
    }

    /// The next collector that has to be started: the next of those that have to
    /// run that does not run yet.
    pub fn next_start(&self, update: &mut Update) -> (r: Option<StartRequest>)
        requires
            old(update).components@.len() < usize::MAX,
        ensures
            final(update).components == old(update).components,
            final(update).cluster_tables == old(update).cluster_tables,
            final(update).instance_tables == old(update).instance_tables,
            final(update).cluster_collected == old(update).cluster_collected,
            match r {
                Some(start) => {
                    let plan = old(update).plan();
                    let i = final(update).next - 1;
                    &&& old(update).next <= i < plan.len()
                    &&& forall|k: int|
                        old(update).next <= k < i ==> self.running_collectors@.dom().contains(
                            (#[trigger] plan[k]).key(),
                        )
                    &&& !self.running_collectors@.dom().contains(plan[i].key())
                    &&& start.key@ == plan[i].key()
                    &&& start.method == self.collection_method
                    &&& self.configures(
                        start.config,
                        plan[i].component,
                        old(update).tables_of(plan[i]),
                    )
                },
                None => final(update).next == old(update).next && forall|k: int|
                    old(update).next <= k < old(update).plan().len()
                        ==> self.running_collectors@.dom().contains(
                        (#[trigger] old(update).plan()[k]).key(),
                    ),
            },
    {
        let ghost plan = update.plan();
        let mut i: usize = update.next;
        loop
            invariant
                update == old(update),
                old(update).components@.len() < usize::MAX,
                plan == old(update).plan(),
                old(update).next <= i,
                i <= plan.len() || i == old(update).next,
                forall|k: int|
                    old(update).next <= k < i ==> self.running_collectors@.dom().contains(
                        (#[trigger] plan[k]).key(),
                    ),
            decreases (if i < plan.len() { plan.len() - i } else { 0 }),
        {
            match update.duty_at(i) {
                None => {
                    return None;
                },
                Some(duty) => {
                    let key = duty.key_text();
                    if !self.running_collectors.contains_key(key.as_str()) {
                        let config = if duty.cluster {
                            self.collector_config(&duty.component, &update.cluster_tables)
                        } else {
                            self.collector_config(&duty.component, &update.instance_tables)
                        };
                        update.next = i + 1;
                        return Some(
                            StartRequest { key, method: self.collection_method, config },
                        );
                    }
                    i += 1;
                },
            }
        }
    }
}

impl Controller {
    /// Notes that the collector with this key runs, with so many tables.
    pub fn started(&mut self, key: String, table_count: usize)
        ensures
            final(self).running_collectors@ == old(self).running_collectors@.insert(
                key@,
                CollectorTask { collector_type: old(self).collection_method, table_count },
            ),
            final(self).running_collectors.items() == stored(
                old(self).running_collectors.items(),
                key@,
                CollectorTask { collector_type: old(self).collection_method, table_count },
            ),
            final(self).same_settings(*old(self)),
            final(self).tidb_components == old(self).tidb_components,
    {
        let task = CollectorTask { collector_type: self.collection_method, table_count };
        self.running_collectors.insert(key, task);
    }

    /// Whether everything but the instances and the running collectors is the same.
    pub open spec fn same_settings(self, other: Self) -> bool {
        &&& self.database_config == other.database_config
        &&& self.collection_config == other.collection_config
        &&& self.tables == other.tables
        &&& self.collection_method == other.collection_method
    }

    /// Stop a collector by its key.
    pub fn stop_collector(&mut self, collector_key: &str) -> (r: Option<CollectorTask>)
        ensures
            match r {
                Some(task) => old(self).running_collectors@.dom().contains(collector_key@) && task
                    == old(self).running_collectors@[collector_key@],
                None => !old(self).running_collectors@.dom().contains(collector_key@),
            },
            final(self).running_collectors@ == old(self).running_collectors@.remove(collector_key@),
            final(self).running_collectors.items() == dropped(
                old(self).running_collectors.items(),
                collector_key@,
            ),
            final(self).same_settings(*old(self)),
            final(self).tidb_components == old(self).tidb_components,
    {
        self.running_collectors.remove(collector_key)
    }

    /// Stop all collectors for a specific instance, by its address. Gives the keys of
    /// the stopped collectors.
    pub fn stop_collector_by_instance(&mut self, instance: &str) -> (stopped: Vec<String>)
        ensures
            texts(stopped@) == keys_on(old(self).running_collectors@.dom(), instance@),
            final(self).running_collectors@ == old(self).running_collectors@.remove(
                cluster_key(instance@),
            ).remove(instance_key(instance@)),
            final(self).same_settings(*old(self)),
            final(self).tidb_components == old(self).tidb_components,
    {
        let mut stopped: Vec<String> = Vec::new();
        proof {
            lemma_keys_differ(instance@, instance@);
        }
        let first = instance.to_string().concat("_cluster");
        if self.stop_collector(first.as_str()).is_some() {
            stopped.push(first);
        }
        let second = instance.to_string().concat("_instance");
        if self.stop_collector(second.as_str()).is_some() {
            stopped.push(second);
        }
        assert(texts(stopped@) =~= keys_on(old(self).running_collectors@.dom(), instance@));
        stopped
    }
}

/// A key tells for which tables its collector is.
proof fn lemma_keys_differ(address: Seq<char>, other: Seq<char>)
    ensures
        cluster_key(address) != instance_key(other),
        cluster_key(address) == cluster_key(other) ==> address == other,
        instance_key(address) == instance_key(other) ==> address == other,
{
    reveal_strlit("_cluster");
    reveal_strlit("_instance");
    let a = cluster_key(address);
    let b = instance_key(other);
    assert(a[a.len() - 1] == 'r');
    assert(b[b.len() - 1] == 'e');
    assert(cluster_key(address).take(address.len() as int) =~= address);
    assert(cluster_key(other).take(other.len() as int) =~= other);
    assert(instance_key(address).take(address.len() as int) =~= address);
    assert(instance_key(other).take(other.len() as int) =~= other);
}

/// No two instances share a key.
proof fn lemma_key_has_one_address(key: Seq<char>, address: Seq<char>, other: Seq<char>)
    requires
        belongs_to(key, address),
        belongs_to(key, other),
    ensures
        address == other,
{
    lemma_keys_differ(address, other);
    lemma_keys_differ(other, address);
}

proof fn lemma_keys_on(running: Set<Seq<char>>, address: Seq<char>)
    ensures
        keys_on(running, address).no_duplicates(),
        forall|key: Seq<char>| #[trigger]
            keys_on(running, address).contains(key) <==> running.contains(key) && belongs_to(
                key,
                address,
            ),
{
    lemma_keys_differ(address, address);
    let keys = keys_on(running, address);
    assert forall|key: Seq<char>| running.contains(key) && belongs_to(key, address) implies
        #[trigger] keys.contains(key) by {
        if key == cluster_key(address) {
            assert(keys[0] == key);
        } else {
            assert(keys[keys.len() - 1] == key);
        }
    }
}

proof fn lemma_joined_contains(one: Seq<Seq<char>>, other: Seq<Seq<char>>, key: Seq<char>)
    ensures
        (one + other).contains(key) <==> one.contains(key) || other.contains(key),
{
    let joined = one + other;
    if one.contains(key) {
        let i = choose|i: int| 0 <= i < one.len() && one[i] == key;
        assert(joined[i] == key);
    }
    if other.contains(key) {
        let i = choose|i: int| 0 <= i < other.len() && other[i] == key;
        assert(joined[one.len() + i] == key);
    }
    if joined.contains(key) {
        let i = choose|i: int| 0 <= i < joined.len() && joined[i] == key;
        if i < one.len() {
            assert(one[i] == key);
        } else {
            assert(other[i - one.len()] == key);
        }
    }
}

fn address_in(components: &Vec<Component>, address: &str) -> (r: bool)
    ensures
        r == exists|j: int|
            0 <= j < components@.len() && (#[trigger] components@[j]).address() == address@,
{
    let mut i: usize = 0;
    while i < components.len()
        invariant
            i <= components@.len(),
            forall|j: int| 0 <= j < i ==> (#[trigger] components@[j]).address() != address@,
        decreases components@.len() - i,
    {
        if same(components[i].address_text().as_str(), address) {
            return true;
        }
        i += 1;
    }
    false
}

proof fn lemma_orphan_step(key: Seq<char>, before: Seq<Component>, after: Seq<Component>, i: int)
    requires
        0 <= i < before.len(),
    ensures
        is_orphan(key, before.take(i + 1), after) <==> is_orphan(key, before.take(i), after) || (
        is_gone(before[i], after) && belongs_to(key, before[i].address())),
{
    let longer = before.take(i + 1);
    let shorter = before.take(i);
    if is_orphan(key, longer, after) {
        let k = choose|k: int|
            0 <= k < longer.len() && is_gone(#[trigger] longer[k], after) && belongs_to(
                key,
                longer[k].address(),
            );
        if k < i {
            assert(shorter[k] == longer[k]);
        }
    }
    if is_orphan(key, shorter, after) {
        let k = choose|k: int|
            0 <= k < shorter.len() && is_gone(#[trigger] shorter[k], after) && belongs_to(
                key,
                shorter[k].address(),
            );
        assert(longer[k] == shorter[k]);
    }
    assert(longer[i] == before[i]);
}

impl Controller {
    /// Ends a change: stops the collectors of the instances that are gone, and takes
    /// over the new instances. Gives the keys of the stopped collectors.
    pub fn finish_update(&mut self, update: Update) -> (stopped: Vec<String>)
        ensures
            forall|key: Seq<char>| #[trigger]
                final(self).running_collectors@.dom().contains(key) <==> old(
                    self,
                ).running_collectors@.dom().contains(key) && !is_orphan(
                    key,
                    old(self).tidb_components@,
                    update.components@,
                ),
            forall|key: Seq<char>| #[trigger]
                final(self).running_collectors@.dom().contains(key)
                    ==> final(self).running_collectors@[key] == old(self).running_collectors@[key],
            forall|key: Seq<char>| #[trigger]
                texts(stopped@).contains(key) <==> old(self).running_collectors@.dom().contains(key)
                    && is_orphan(key, old(self).tidb_components@, update.components@),
            texts(stopped@).no_duplicates(),
            final(self).tidb_components == update.components,
            final(self).same_settings(*old(self)),
    {
        let mut stopped: Vec<String> = Vec::new();
        let ghost before = self.tidb_components@;
        let ghost after = update.components@;
        let mut i: usize = 0;
        assert(texts(stopped@) =~= Seq::empty());
        while i < self.tidb_components.len()
            invariant
                before == old(self).tidb_components@,
                after == update.components@,
                self.tidb_components == old(self).tidb_components,
                i <= before.len(),
                self.same_settings(*old(self)),
                forall|key: Seq<char>| #[trigger]
                    self.running_collectors@.dom().contains(key) <==> old(
                        self,
                    ).running_collectors@.dom().contains(key) && !is_orphan(
                        key,
                        before.take(i as int),
                        after,
                    ),
                forall|key: Seq<char>| #[trigger]
                    self.running_collectors@.dom().contains(key) ==> self.running_collectors@[key]
                        == old(self).running_collectors@[key],
                forall|key: Seq<char>| #[trigger]
                    texts(stopped@).contains(key) <==> old(
                        self,
                    ).running_collectors@.dom().contains(key) && is_orphan(
                        key,
                        before.take(i as int),
                        after,
                    ),
                texts(stopped@).no_duplicates(),
            decreases before.len() - i,
        {
            let address = self.tidb_components[i].address_text();
            proof {
                assert forall|key: Seq<char>| #[trigger]
                    is_orphan(key, before.take(i + 1), after) <==> is_orphan(
                        key,
                        before.take(i as int),
                        after,
                    ) || (is_gone(before[i as int], after) && belongs_to(
                        key,
                        before[i as int].address(),
                    )) by {
                    lemma_orphan_step(key, before, after, i as int);
                }
            }
            if !address_in(&update.components, address.as_str()) {
                let ghost running = self.running_collectors@.dom();
                let ghost was = texts(stopped@);
                let mut more = self.stop_collector_by_instance(address.as_str());
                let ghost added = texts(more@);
                stopped.append(&mut more);
                proof {
                    lemma_keys_on(running, address@);
                    assert(texts(stopped@) =~= was + added);
                    assert forall|key: Seq<char>| #[trigger]
                        texts(stopped@).contains(key) <==> was.contains(key) || added.contains(
                            key,
                        ) by {
                        lemma_joined_contains(was, added, key);
                    }
                    assert forall|a: int, b: int| 0 <= a < was.len() && 0 <= b < added.len() implies
                        #[trigger] was[a] != #[trigger] added[b] by {
                        assert(was.contains(was[a]));
                        assert(added.contains(added[b]));
                    }
                }
            }
            i += 1;
        }
        assert(before.take(i as int) =~= before);
        self.tidb_components = update.components;
        stopped
    }

    /// Shutdown all collectors. Gives their keys.
    pub fn shutdown_all_collectors(&mut self) -> (stopped: Vec<String>)
        ensures
            texts(stopped@) == old(self).running_collectors.items().map_values(
                |e: (Seq<char>, CollectorTask)| e.0,
            ),
            final(self).running_collectors@ == Map::<Seq<char>, CollectorTask>::empty(),
            final(self).running_collectors.items().len() == 0,
            final(self).same_settings(*old(self)),
            final(self).tidb_components == old(self).tidb_components,
    {
        let ghost keys = self.running_collectors.items().map_values(
            |e: (Seq<char>, CollectorTask)| e.0,
        );
        let mut stopped: Vec<String> = Vec::new();
        let mut i: usize = 0;
        assert(texts(stopped@) =~= keys.take(0));
        while i < self.running_collectors.len()
            invariant
                *self == *old(self),
                keys == self.running_collectors.items().map_values(
                    |e: (Seq<char>, CollectorTask)| e.0,
                ),
                i <= keys.len(),
                texts(stopped@) == keys.take(i as int),
            decreases keys.len() - i,
        {
            let ghost was = texts(stopped@);
            let key = self.running_collectors.key_at(i).clone();
            let ghost name = key@;
            stopped.push(key);
            assert(texts(stopped@) =~= was.push(name));
            assert(keys.take(i + 1) =~= keys.take(i as int).push(name));
            i += 1;
        }
        assert(keys.take(i as int) =~= keys);
        self.running_collectors = StringMap::new();
        stopped
    }

    /// The number of running collectors of a type, and that of their tables.
    fn count_tasks(&self, method: CollectionMethod) -> (r: (u64, u64))
        requires
            tasks_of(self.running_collectors.items(), method).1 <= u64::MAX,
        ensures
            (r.0 as int, r.1 as int) == tasks_of(self.running_collectors.items(), method),
    {
        let ghost items = self.running_collectors.items();
        let mut count: u64 = 0;
        let mut tables: u64 = 0;
        let mut i: usize = 0;
        while i < self.running_collectors.len()
            invariant
                items == self.running_collectors.items(),
                i <= items.len(),
                count <= i,
                (count as int, tables as int) == tasks_of(items.take(i as int), method),
                tasks_of(items, method).1 <= u64::MAX,
            decreases items.len() - i,
        {
            let task = *self.running_collectors.value_at(i);
            proof {
                assert(items.take(i + 1).drop_last() =~= items.take(i as int));
                lemma_tasks_grow(items, method, i + 1);
            }
            if task.collector_type == method {
                count += 1;
                tables += task.table_count as u64;
            }
            i += 1;
        }
        assert(items.take(i as int) =~= items);
        (count, tables)
    }

    fn type_document(&self, by_tables: bool) -> (r: Value)
        requires
            self.tables_are_countable(),
        ensures
            r@ == ValueView::Object(type_statistic(self.running_collectors.items(), by_tables)),
    {
        let ghost items = self.running_collectors.items();
        let mut entries: Vec<(String, Value)> = Vec::new();
        assert(fields_view(entries@) =~= Seq::empty());
        self.push_type_entry(&mut entries, CollectionMethod::Sql, by_tables);
        self.push_type_entry(&mut entries, CollectionMethod::Coprocessor, by_tables);
        self.push_type_entry(&mut entries, CollectionMethod::HttpApi, by_tables);
        self.push_type_entry(&mut entries, CollectionMethod::CustomGrpc, by_tables);
        assert(fields_view(entries@) =~= type_statistic(items, by_tables));
        let ghost pairs = entries@;
        let r = Value::Object(entries);
        proof {
            reveal_with_fuel(Value::model, 2);
            assert(r@->Object_0 =~= fields_view(pairs));
        }
        r
    }

    fn push_type_entry(
        &self,
        entries: &mut Vec<(String, Value)>,
        method: CollectionMethod,
        by_tables: bool,
    )
        requires
            self.tables_are_countable(),
        ensures
            fields_view(final(entries)@) == fields_view(old(entries)@) + type_entry(
                self.running_collectors.items(),
                method,
                by_tables,
            ),
    {
        let (count, tables) = self.count_tasks(method);
        if count > 0 {
            let n: u64 = if by_tables { tables } else { count };
            entries.push((method.to_text(), Value::Number(Number::PosInt(n))));
        }
        assert(fields_view(entries@) =~= fields_view(old(entries)@) + type_entry(
            self.running_collectors.items(),
            method,
            by_tables,
        ));
    }

    /// Whether the number of tables of all collectors of a type is a number of 64
    /// bits.
    pub open spec fn tables_are_countable(self) -> bool {
        forall|method: CollectionMethod|
            (#[trigger] tasks_of(self.running_collectors.items(), method)).1 <= u64::MAX
    }

    /// Get statistics about running collectors.
    pub fn get_collector_statistics(&self) -> (r: StringMap<Value>)
        requires
            self.tables_are_countable(),
        ensures
            r@.dom() == set![
                "total_collectors"@,
                "collector_types"@,
                "tables_by_type"@,
                "supported_methods"@,
            ],
            r@["total_collectors"@]@ == ValueView::Number(
                Number::PosInt(self.running_collectors.items().len() as u64),
            ),
            r@["collector_types"@]@ == ValueView::Object(
                type_statistic(self.running_collectors.items(), false),
            ),
            r@["tables_by_type"@]@ == ValueView::Object(
                type_statistic(self.running_collectors.items(), true),
            ),
            r@["supported_methods"@]@ == ValueView::Array(
                supported().map_values(|m: CollectionMethod| ValueView::Text(m.name())),
            ),
    {
        let mut stats: StringMap<Value> = StringMap::new();
        stats.insert(
            "total_collectors".to_string(),
            Value::Number(Number::PosInt(self.running_collectors.len() as u64)),
        );
        stats.insert("collector_types".to_string(), self.type_document(false));
        stats.insert("tables_by_type".to_string(), self.type_document(true));
        let methods = CollectorFactory::supported_methods();
        let mut names: Vec<Value> = Vec::new();
        let mut i: usize = 0;
        while i < methods.len()
            invariant
                methods@ == supported(),
                i <= methods@.len(),
                names@.len() == i,
                forall|k: int|
                    0 <= k < i ==> (#[trigger] names@[k])@ == ValueView::Text(methods@[k].name()),
            decreases methods@.len() - i,
        {
            names.push(Value::Text(methods[i].to_text()));
            i += 1;
        }
        let list = Value::Array(names);
        proof {
            reveal_with_fuel(Value::model, 2);
            assert(list@->Array_0 =~= supported().map_values(
                |m: CollectionMethod| ValueView::Text(m.name()),
            ));
            reveal_strlit("total_collectors");
            reveal_strlit("collector_types");
            reveal_strlit("tables_by_type");
            reveal_strlit("supported_methods");
            assert("total_collectors"@.len() == 16);
            assert("collector_types"@.len() == 15);
            assert("tables_by_type"@.len() == 14);
            assert("supported_methods"@.len() == 17);
        }
        stats.insert("supported_methods".to_string(), list);
        assert(stats@.dom() =~= set![
            "total_collectors"@,
            "collector_types"@,
            "tables_by_type"@,
            "supported_methods"@,
        ]);
        stats
    }
}

proof fn lemma_tasks_grow(items: Seq<(Seq<char>, CollectorTask)>, method: CollectionMethod, n: int)
    requires
        0 <= n <= items.len(),
    ensures
        tasks_of(items.take(n), method).1 <= tasks_of(items, method).1,
    decreases items.len() - n,
{
    if n == items.len() {
        assert(items.take(n) =~= items);
    } else {
        lemma_tasks_grow(items, method, n + 1);
        assert(items.take(n + 1).drop_last() =~= items.take(n));
    }
}

/// How often, in seconds, a collector with these tables collects: as the first of
/// them asks for.
pub open spec fn task_seconds(tables: Seq<TableConfig>) -> u64 {
    interval_seconds(
        tables[0].collection_interval@,
        CollectionConfig { short_interval: 5, long_interval: 1800, retention_days: 7 },
    )
}

/// How often, in seconds, a collector with these tables collects.
pub fn task_interval(tables: &Vec<TableConfig>) -> (r: u64)
    requires
        tables@.len() > 0,
    ensures
        r == task_seconds(tables@),
{
    parse_collection_interval(
        tables[0].collection_interval.as_str(),
        &CollectionConfig { short_interval: 5, long_interval: 1800, retention_days: 7 },
    )
}

/// Whether a collector collects from the table in each round.
pub fn is_collected(collector: &Collector, table: &TableConfig) -> (r: bool)
    ensures
        r == (table.enabled && collector.can_collect(*table)),
{
    table.enabled && collector.can_collect_table(table)
}

/// From which of the tables a collector collects in each round.
pub fn collected_tables(collector: &Collector, tables: &Vec<TableConfig>) -> (r: Vec<bool>)
    ensures
        r@ == tables@.map_values(|t: TableConfig| t.enabled && collector.can_collect(t)),
{
    let mut out: Vec<bool> = Vec::new();
    let mut i: usize = 0;
    while i < tables.len()
        invariant
            i <= tables@.len(),
            out@.len() == i,
            forall|k: int|
                0 <= k < i ==> #[trigger] out@[k] == (tables@[k].enabled && collector.can_collect(
                    tables@[k],
                )),
        decreases tables@.len() - i,
    {
        out.push(is_collected(collector, &tables[i]));
        i += 1;
    }
    assert(out@ =~= tables@.map_values(|t: TableConfig| t.enabled && collector.can_collect(t)));
    out
}

/// What a collector does next in a round.
#[derive(Debug, Clone, Copy, PartialEq, Eq, Structural)]
pub enum RoundAction {
    /// It collects from the table at this place
    Collect(usize),
    /// It checks its health, which ends the round
    CheckHealth,
}

/// The rest of a round, from the table at `from` on: it collects from each of the
/// collected tables in order, whatever comes of it, and then checks its health.
pub open spec fn round(collected: Seq<bool>, from: int) -> Seq<RoundAction>
    decreases collected.len() - from,
{
    if from >= collected.len() {
        seq![RoundAction::CheckHealth]
    } else if collected[from] {
        seq![RoundAction::Collect(from as usize)] + round(collected, from + 1)
    } else {
        round(collected, from + 1)
    }
}

/// The next collected table from `from` on.
pub fn next_collected(collected: &Vec<bool>, from: usize) -> (r: Option<usize>)
    ensures
        match r {
            Some(i) => from <= i < collected@.len() && collected@[i as int] && forall|k: int|
                from <= k < i ==> !(#[trigger] collected@[k]),
            None => forall|k: int| from <= k < collected@.len() ==> !(#[trigger] collected@[k]),
        },
{
    let mut i: usize = from;
    while i < collected.len()
        invariant
            from <= i,
            i <= collected@.len() || i == from,
            forall|k: int| from <= k < i ==> !(#[trigger] collected@[k]),
        decreases (if i < collected@.len() { collected@.len() - i } else { 0 }),
    {
        if collected[i] {
            return Some(i);
        }
        i += 1;
    }
    None
}

/// What a collector does next in a round, when it has dealt with the tables before
/// `from`.
pub fn next_action(collected: &Vec<bool>, from: usize) -> (r: RoundAction)
    ensures
        match r {
            RoundAction::Collect(i) => from <= i < collected@.len() && round(
                collected@,
                from as int,
            ) == seq![r] + round(collected@, i + 1),
            RoundAction::CheckHealth => round(collected@, from as int) == seq![r],
        },
{
    match next_collected(collected, from) {
        Some(i) => {
            proof {
                lemma_round_skips(collected@, from as int, i as int);
            }
            RoundAction::Collect(i)
        },
        None => {
            proof {
                if from < collected@.len() {
                    lemma_round_skips(collected@, from as int, collected@.len() as int);
                }
            }
            RoundAction::CheckHealth
        },
    }
}

/// Tables that are not collected are no part of a round.
proof fn lemma_round_skips(collected: Seq<bool>, from: int, to: int)
    requires
        0 <= from <= to <= collected.len(),
        forall|k: int| from <= k < to ==> !(#[trigger] collected[k]),
    ensures
        round(collected, from) == round(collected, to),
    decreases to - from,
{
    if from < to {
        lemma_round_skips(collected, from + 1, to);
    }
}

/// A round collects once from each collected table and from no other, in the order of
/// the tables, and checks the health once, at its end.
pub proof fn rounds_collect_each_table_once(collected: Seq<bool>, from: int)
    requires
        collected.len() <= usize::MAX,
        0 <= from <= collected.len(),
    ensures
        round(collected, from).len() > 0,
        round(collected, from).last() == RoundAction::CheckHealth,
        forall|i: int|
            0 <= i < round(collected, from).len() - 1 ==> ((#[trigger] round(collected, from)[i])
                matches RoundAction::Collect(place) && from <= place < collected.len()
                && collected[place as int]),
        forall|i: int, j: int|
            0 <= i < j < round(collected, from).len() - 1 ==> (#[trigger] round(
                collected,
                from,
            )[i])->Collect_0 < (#[trigger] round(collected, from)[j])->Collect_0,
        forall|place: int|
            from <= place < collected.len() && #[trigger] collected[place] ==> round(
                collected,
                from,
            ).contains(RoundAction::Collect(place as usize)),
    decreases collected.len() - from,
{
    if from < collected.len() {
        rounds_collect_each_table_once(collected, from + 1);
        let rest = round(collected, from + 1);
        let all = round(collected, from);
        if collected[from] {
            assert(all.len() == rest.len() + 1);
            assert(all.last() == rest.last());
            assert forall|i: int| 0 < i < all.len() implies #[trigger] all[i] == rest[i - 1] by {}
            assert forall|place: int|
                from <= place < collected.len() && #[trigger] collected[place] implies all.contains(
                RoundAction::Collect(place as usize),
            ) by {
                if place == from {
                    assert(all[0] == RoundAction::Collect(place as usize));
                } else {
                    assert(rest.contains(RoundAction::Collect(place as usize)));
                    let k = choose|k: int|
                        0 <= k < rest.len() && rest[k] == RoundAction::Collect(place as usize);
                    assert(all[k + 1] == rest[k]);
                }
            }
        }
    }
}

/// The events for the rows of a result, each by its fields.
pub fn result_events(result: &CollectionResult) -> (r: Vec<Vec<(String, Value)>>)
    requires
        result.metadata.timestamp.wf(),
    ensures
        r@.len() == result.data@.len(),
        forall|i: int|
            0 <= i < r@.len() ==> fields_view((#[trigger] r@[i])@) == event_fields(
                *result,
                result.data@[i].items(),
            ),
{
    let mut out: Vec<Vec<(String, Value)>> = Vec::new();
    let mut i: usize = 0;
    while i < result.data.len()
        invariant
            result.metadata.timestamp.wf(),
            i <= result.data@.len(),
            out@.len() == i,
            forall|k: int|
                0 <= k < i ==> fields_view((#[trigger] out@[k])@) == event_fields(
                    *result,
                    result.data@[k].items(),
                ),
        decreases result.data@.len() - i,
    {
        out.push(create_event_from_result(result, &result.data[i]));
        i += 1;
    }
    out
}

/// Every table is collected either once for the cluster or once on each instance:
/// the two kinds of tables make up all tables.
pub proof fn tables_are_of_one_kind(tables: Seq<TableConfig>)
    ensures
        cluster_tables(tables).len() + instance_tables(tables).len() == tables.len(),
        forall|i: int|
            0 <= i < tables.len() ==> (is_cluster_table(#[trigger] tables[i])
                ==> cluster_tables(tables).contains(tables[i])) && (!is_cluster_table(tables[i])
                ==> instance_tables(tables).contains(tables[i])),
    decreases tables.len(),
{
    reveal(Seq::filter);
    broadcast use vstd::seq_lib::group_filter_ensures;
    if tables.len() > 0 {
        tables_are_of_one_kind(tables.drop_last());
    }
}

/// An update sees to one collector at most for the tables about the whole cluster,
/// on the first instance, and to one on each instance for the other tables.
pub proof fn cluster_tables_are_collected_once(update: Update)
    ensures
        forall|i: int|
            0 < i < update.plan().len() ==> !(#[trigger] update.plan()[i]).cluster,
        update.needs_cluster_collector() && update.components@.len() > 0 ==> update.plan()[0] == (
        Duty { component: update.components@[0], cluster: true }),
        !update.needs_cluster_collector() ==> forall|i: int|
            0 <= i < update.plan().len() ==> !(#[trigger] update.plan()[i]).cluster,
        forall|i: int|
            0 <= i < update.components@.len() && update.instance_tables@.len() > 0
                ==> update.plan().contains(
                Duty { component: #[trigger] update.components@[i], cluster: false },
            ),
{
    let plan = update.plan();
    let components = update.components@;
    let first: int = if update.needs_cluster_collector() && components.len() > 0 { 1 } else { 0 };
    assert forall|i: int|
        0 <= i < components.len() && update.instance_tables@.len() > 0 implies plan.contains(
        Duty { component: #[trigger] components[i], cluster: false },
    ) by {
        assert(plan[first + i] == (Duty { component: components[i], cluster: false }));
    }
}

/// Whether the key is that of a collector for the tables about the whole cluster.
pub open spec fn is_cluster_key(key: Seq<char>) -> bool {
    has_suffix(key, "_cluster"@)
}

/// Whether at most one collector for the tables about the whole cluster runs.
pub open spec fn one_at_most(running: Set<Seq<char>>) -> bool {
    forall|a: Seq<char>, b: Seq<char>| #[trigger]
        running.contains(a) && #[trigger] running.contains(b) && is_cluster_key(a)
            && is_cluster_key(b) ==> a == b
}

/// Whether every running collector is on one of the instances.
pub open spec fn all_belong(running: Set<Seq<char>>, components: Seq<Component>) -> bool {
    forall|key: Seq<char>| #[trigger]
        running.contains(key) ==> exists|i: int|
            0 <= i < components.len() && belongs_to(key, (#[trigger] components[i]).address())
}

/// Whether the collectors `now` are those that ran `before`, and some of the plan.
pub open spec fn started_from(
    before: Set<Seq<char>>,
    now: Set<Seq<char>>,
    plan: Seq<Duty>,
) -> bool {
    &&& forall|key: Seq<char>| #[trigger] before.contains(key) ==> now.contains(key)
    &&& forall|key: Seq<char>| #[trigger]
        now.contains(key) ==> before.contains(key) || exists|i: int|
            0 <= i < plan.len() && (#[trigger] plan[i]).key() == key
}

/// With a collector of the plan that is started, the collectors are still those that
/// ran before, and some of the plan.
pub proof fn starts_follow_the_plan(
    before: Set<Seq<char>>,
    now: Set<Seq<char>>,
    plan: Seq<Duty>,
    i: int,
)
    requires
        started_from(before, now, plan),
        0 <= i < plan.len(),
    ensures
        started_from(before, now.insert(plan[i].key()), plan),
{
    let later = now.insert(plan[i].key());
    assert forall|key: Seq<char>| #[trigger] later.contains(key) implies before.contains(key)
        || exists|k: int| 0 <= k < plan.len() && (#[trigger] plan[k]).key() == key by {
        if key != plan[i].key() {
            assert(now.contains(key));
        }
    }
}

proof fn lemma_cluster_key(key: Seq<char>, address: Seq<char>)
    requires
        belongs_to(key, address),
    ensures
        is_cluster_key(key) <==> key == cluster_key(address),
{
    reveal_strlit("_cluster");
    reveal_strlit("_instance");
    if key == cluster_key(address) {
        assert(key.subrange(key.len() - 8, key.len() as int) =~= "_cluster"@);
    } else {
        assert(key.last() == 'e');
        if is_cluster_key(key) {
            assert(key.subrange(key.len() - 8, key.len() as int)[7] == 'r');
        }
    }
}

proof fn lemma_duty(update: Update, i: int) -> (place: int)
    requires
        0 <= i < update.plan().len(),
    ensures
        0 <= place < update.components@.len(),
        update.plan()[i].component == update.components@[place],
        belongs_to(update.plan()[i].key(), update.components@[place].address()),
        is_cluster_key(update.plan()[i].key()) <==> update.plan()[i].cluster,
        update.plan()[i].cluster ==> i == 0 && update.needs_cluster_collector(),
{
    let first: int = if update.needs_cluster_collector() && update.components@.len() > 0 {
        1
    } else {
        0
    };
    let place = if i < first { 0 } else { i - first };
    let duty = update.plan()[i];
    assert(duty.component == update.components@[place]);
    lemma_cluster_key(duty.key(), duty.component.address());
    lemma_keys_differ(duty.component.address(), duty.component.address());
    place
}

/// A collector on an instance that is there is not stopped.
proof fn lemma_kept(key: Seq<char>, before: Seq<Component>, after: Seq<Component>, i: int)
    requires
        0 <= i < after.len(),
        belongs_to(key, after[i].address()),
    ensures
        !is_orphan(key, before, after),
{
    if is_orphan(key, before, after) {
        let k = choose|k: int|
            0 <= k < before.len() && is_gone(#[trigger] before[k], after) && belongs_to(
                key,
                before[k].address(),
            );
        lemma_key_has_one_address(key, before[k].address(), after[i].address());
    }
}

/// After an update, whichever of its collectors were started, every running collector
/// is on an instance that is there.
pub proof fn updates_leave_no_strays(
    before: Set<Seq<char>>,
    instances: Seq<Component>,
    update: Update,
    now: Set<Seq<char>>,
    after: Set<Seq<char>>,
)
    requires
        all_belong(before, instances),
        started_from(before, now, update.plan()),
        forall|key: Seq<char>| #[trigger]
            after.contains(key) <==> now.contains(key) && !is_orphan(
                key,
                instances,
                update.components@,
            ),
    ensures
        all_belong(after, update.components@),
{
    let components = update.components@;
    assert forall|key: Seq<char>| #[trigger] after.contains(key) implies exists|i: int|
        0 <= i < components.len() && belongs_to(key, (#[trigger] components[i]).address()) by {
        assert(now.contains(key));
        if before.contains(key) {
            let k = choose|k: int|
                0 <= k < instances.len() && belongs_to(key, (#[trigger] instances[k]).address());
            assert(!is_gone(instances[k], components));
            let j = choose|j: int|
                0 <= j < components.len() && (#[trigger] components[j]).address()
                    == instances[k].address();
            assert(belongs_to(key, components[j].address()));
        } else {
            let i = choose|i: int|
                0 <= i < update.plan().len() && (#[trigger] update.plan()[i]).key() == key;
            let place = lemma_duty(update, i);
            assert(belongs_to(key, components[place].address()));
        }
    }
}

/// After an update, whichever of its collectors were started, at most one collector
/// runs for the tables about the whole cluster, on whatever instance, and in whatever
/// order the instances came. One does run where there are such tables and instances
/// and every collector of the plan was started.
pub proof fn one_cluster_collector_runs(
    before: Set<Seq<char>>,
    instances: Seq<Component>,
    update: Update,
    now: Set<Seq<char>>,
    after: Set<Seq<char>>,
)
    requires
        all_belong(before, instances),
        one_at_most(before),
        update.cluster_collected == cluster_is_collected(before, update.components@),
        started_from(before, now, update.plan()),
        forall|key: Seq<char>| #[trigger]
            after.contains(key) <==> now.contains(key) && !is_orphan(
                key,
                instances,
                update.components@,
            ),
    ensures
        one_at_most(after),
        update.cluster_tables@.len() > 0 && update.components@.len() > 0 && (forall|i: int|
            0 <= i < update.plan().len() ==> now.contains((#[trigger] update.plan()[i]).key()))
            ==> exists|key: Seq<char>| #[trigger] after.contains(key) && is_cluster_key(key),
{
    let components = update.components@;
    let plan = update.plan();
    updates_leave_no_strays(before, instances, update, now, after);
    assert forall|a: Seq<char>, b: Seq<char>| #[trigger]
        after.contains(a) && #[trigger] after.contains(b) && is_cluster_key(a) && is_cluster_key(
            b,
        ) implies a == b by {
        assert(now.contains(a) && now.contains(b));
        lemma_cluster_origin(before, update, now, after, a);
        lemma_cluster_origin(before, update, now, after, b);
    }
    if update.cluster_tables@.len() > 0 && components.len() > 0 && (forall|i: int|
        0 <= i < plan.len() ==> now.contains((#[trigger] plan[i]).key())) {
        let i = if update.cluster_collected {
            choose|i: int|
                0 <= i < components.len() && before.contains(
                    cluster_key((#[trigger] components[i]).address()),
                )
        } else {
            assert(plan[0].key() == cluster_key(components[0].address()));
            0
        };
        let key = cluster_key(components[i].address());
        assert(now.contains(key));
        lemma_kept(key, instances, components, i);
        lemma_cluster_key(key, components[i].address());
        assert(after.contains(key));
    }
}

/// A collector for the tables about the whole cluster that runs after an update ran
/// before, where the cluster was collected, and is that of the plan, where it was not.
proof fn lemma_cluster_origin(
    before: Set<Seq<char>>,
    update: Update,
    now: Set<Seq<char>>,
    after: Set<Seq<char>>,
    key: Seq<char>,
)
    requires
        update.cluster_collected == cluster_is_collected(before, update.components@),
        started_from(before, now, update.plan()),
        all_belong(after, update.components@),
        after.contains(key),
        now.contains(key),
        is_cluster_key(key),
    ensures
        update.cluster_collected ==> before.contains(key),
        !update.cluster_collected ==> update.plan().len() > 0 && key == update.plan()[0].key(),
{
    let components = update.components@;
    let j = choose|j: int|
        0 <= j < components.len() && belongs_to(key, (#[trigger] components[j]).address());
    lemma_cluster_key(key, components[j].address());
    if before.contains(key) {
        assert(before.contains(cluster_key(components[j].address())));
        assert(cluster_is_collected(before, components));
    } else {
        let i = choose|i: int|
            0 <= i < update.plan().len() && (#[trigger] update.plan()[i]).key() == key;
        let place = lemma_duty(update, i);
    }
}

/// Two instances with the same address have the same host and the same port.
pub proof fn addresses_tell_instances_apart(one: Component, other: Component)
    requires
        one.address() == other.address(),
    ensures
        one.host@ == other.host@,
        one.primary_port == other.primary_port,
{
    let a = decimal(one.primary_port as nat);
    let b = decimal(other.primary_port as nat);
    let whole = one.address();
    decimal_reads_back(one.primary_port as nat);
    decimal_reads_back(other.primary_port as nat);
    reveal_strlit(":");
    assert(whole[one.host@.len() as int] == ':');
    assert(whole[other.host@.len() as int] == ':');
    assert forall|i: int| 0 <= i < a.len() implies whole[one.host@.len() + 1 + i]
        == #[trigger] a[i] by {}
    assert forall|i: int| 0 <= i < b.len() implies whole[other.host@.len() + 1 + i]
        == #[trigger] b[i] by {}
    assert(whole.len() == one.host@.len() + 1 + a.len());
    assert(whole.len() == other.host@.len() + 1 + b.len());
    if one.host@.len() < other.host@.len() {
        let i = other.host@.len() - one.host@.len() - 1;
        assert(0 <= i < a.len());
        assert(a[i] == ':' && is_digit(a[i]));
    } else if other.host@.len() < one.host@.len() {
        let i = one.host@.len() - other.host@.len() - 1;
        assert(0 <= i < b.len());
        assert(b[i] == ':' && is_digit(b[i]));
    }
    assert(a =~= b);
    assert(one.host@ =~= whole.take(one.host@.len() as int));
    assert(other.host@ =~= whole.take(one.host@.len() as int));
}

/// Collectors with the same key are for the same kind of tables on the same
/// instance.
pub proof fn keys_tell_collectors_apart(one: Duty, other: Duty)
    requires
        one.key() == other.key(),
    ensures
        one.cluster == other.cluster,
        one.component.host@ == other.component.host@,
        one.component.primary_port == other.component.primary_port,
{
    lemma_keys_differ(one.component.address(), other.component.address());
    lemma_keys_differ(other.component.address(), one.component.address());
    addresses_tell_instances_apart(one.component, other.component);
}

/// A collector is stopped exactly if its instance was there and is gone.
pub proof fn collectors_stop_with_their_instance(
    duty: Duty,
    before: Seq<Component>,
    after: Seq<Component>,
)
    ensures
        is_orphan(duty.key(), before, after) <==> is_gone(duty.component, after) && exists|i: int|
            0 <= i < before.len() && (#[trigger] before[i]).address() == duty.component.address(),
{
    let key = duty.key();
    let address = duty.component.address();
    if is_orphan(key, before, after) {
        let i = choose|i: int|
            0 <= i < before.len() && is_gone(#[trigger] before[i], after) && belongs_to(
                key,
                before[i].address(),
            );
        lemma_key_has_one_address(key, before[i].address(), address);
        assert(before[i].address() == address);
    }
    if is_gone(duty.component, after) && exists|i: int|
        0 <= i < before.len() && (#[trigger] before[i]).address() == address {
        let i = choose|i: int| 0 <= i < before.len() && (#[trigger] before[i]).address() == address;
        assert(is_gone(before[i], after));
    }
}

/// The collectors of an instance that is gone are stopped, both for the cluster and
/// for the instance.
pub proof fn gone_instance_keeps_no_collector(
    duty: Duty,
    before: Seq<Component>,
    after: Seq<Component>,
)
    requires
        before.contains(duty.component),
        is_gone(duty.component, after),
    ensures
        is_orphan(duty.key(), before, after),
{
    let i = choose|i: int| 0 <= i < before.len() && before[i] == duty.component;
    assert(is_gone(before[i], after));
}

/// Every running collector is counted in the statistics under one type.
pub proof fn types_count_all_collectors(tasks: Seq<(Seq<char>, CollectorTask)>)
    ensures
        tasks_of(tasks, CollectionMethod::Sql).0 + tasks_of(tasks, CollectionMethod::Coprocessor).0
            + tasks_of(tasks, CollectionMethod::HttpApi).0 + tasks_of(
            tasks,
            CollectionMethod::CustomGrpc,
        ).0 == tasks.len(),
    decreases tasks.len(),
{
    if tasks.len() > 0 {
        types_count_all_collectors(tasks.drop_last());
    }
}

/// Whether the name of a table begins with the eight characters of `CLUSTER_`.
pub open spec fn begins_with_cluster(table: TableConfig) -> bool {
    table.source_table@.len() >= 8 && table.source_table@.take(8) == "CLUSTER_"@
}

/// The beginning of its name decides for which collector a table is: a table whose name
/// begins with `CLUSTER_` is for the one collector of the cluster and for no other, and
/// every other table is for the collectors of the instances and not for that of the
/// cluster.
pub proof fn names_decide_on_the_collector(tables: Seq<TableConfig>, i: int)
    requires
        0 <= i < tables.len(),
    ensures
        cluster_tables(tables).contains(tables[i]) <==> begins_with_cluster(tables[i]),
        instance_tables(tables).contains(tables[i]) <==> !begins_with_cluster(tables[i]),
{
    broadcast use vstd::seq_lib::group_filter_ensures;
    reveal_strlit("CLUSTER_");
    let name = tables[i].source_table@;
    if name.len() >= 8 {
        assert(name.subrange(0, 8) =~= name.take(8));
    }
    tables_are_of_one_kind(tables);
    if is_cluster_table(tables[i]) {
        assert(!instance_tables(tables).contains(tables[i]));
    } else {
        assert(!cluster_tables(tables).contains(tables[i]));
    }
}

proof fn lemma_selected(tables: Seq<TableConfig>, pred: spec_fn(TableConfig) -> bool, i: int)
    requires
        0 <= i < tables.filter(pred).len(),
    ensures
        tables.contains(tables.filter(pred)[i]),
    decreases tables.len(),
{
    reveal(Seq::filter);
    let less = tables.drop_last();
    if i < less.filter(pred).len() {
        lemma_selected(less, pred, i);
        let k = choose|k: int| 0 <= k < less.len() && less[k] == less.filter(pred)[i];
        assert(tables[k] == tables.filter(pred)[i]);
    } else {
        assert(tables[tables.len() - 1] == tables.filter(pred)[i]);
    }
}

/// No table gets lost or is made up when the tables are divided.
pub proof fn divided_tables_are_the_tables(tables: Seq<TableConfig>, table: TableConfig)
    ensures
        tables.contains(table) <==> cluster_tables(tables).contains(table) || instance_tables(
            tables,
        ).contains(table),
{
    broadcast use vstd::seq_lib::group_filter_ensures;
    tables_are_of_one_kind(tables);
    if tables.contains(table) {
        let i = choose|i: int| 0 <= i < tables.len() && tables[i] == table;
        assert(tables[i] == table);
    }
    if cluster_tables(tables).contains(table) {
        let i = choose|i: int|
            0 <= i < cluster_tables(tables).len() && cluster_tables(tables)[i] == table;
        lemma_selected(tables, |t: TableConfig| is_cluster_table(t), i);
    }
    if instance_tables(tables).contains(table) {
        let i = choose|i: int|
            0 <= i < instance_tables(tables).len() && instance_tables(tables)[i] == table;
        lemma_selected(tables, |t: TableConfig| !is_cluster_table(t), i);
    }
}

/// An update starts one collector at most that has a table whose name begins with
/// `CLUSTER_`, however many instances there are: on the first of them, where none has
/// such a collector. Every other table has a collector on each instance.
pub proof fn each_table_has_its_collectors(update: Update, tables: Seq<TableConfig>, i: int)
    requires
        update.cluster_tables@ == cluster_tables(tables),
        update.instance_tables@ == instance_tables(tables),
        0 <= i < tables.len(),
    ensures
        begins_with_cluster(tables[i]) ==> forall|a: int, b: int|
            0 <= a < update.plan().len() && 0 <= b < update.plan().len() && update.tables_of(
                #[trigger] update.plan()[a],
            ).contains(tables[i]) && update.tables_of(#[trigger] update.plan()[b]).contains(
                tables[i],
            ) ==> a == b,
        begins_with_cluster(tables[i]) && !update.cluster_collected && update.components@.len() > 0
            ==> update.plan().len() > 0 && update.plan()[0].component == update.components@[0]
            && update.tables_of(update.plan()[0]).contains(tables[i]),
        begins_with_cluster(tables[i]) && update.cluster_collected ==> forall|a: int|
            0 <= a < update.plan().len() ==> !update.tables_of(
                #[trigger] update.plan()[a],
            ).contains(tables[i]),
        !begins_with_cluster(tables[i]) ==> forall|c: int|
            0 <= c < update.components@.len() ==> exists|a: int|
                0 <= a < update.plan().len() && (#[trigger] update.plan()[a]).component
                    == #[trigger] update.components@[c] && update.tables_of(
                    update.plan()[a],
                ).contains(tables[i]),
        !begins_with_cluster(tables[i]) ==> forall|a: int|
            0 <= a < update.plan().len() && (#[trigger] update.plan()[a]).cluster
                ==> !update.tables_of(update.plan()[a]).contains(tables[i]),
{
    names_decide_on_the_collector(tables, i);
    cluster_tables_are_collected_once(update);
    let plan = update.plan();
    let components = update.components@;
    if begins_with_cluster(tables[i]) {
        assert(update.cluster_tables@.len() > 0);
        assert forall|a: int|
            0 <= a < plan.len() && update.tables_of(#[trigger] plan[a]).contains(
                tables[i],
            ) implies a == 0 by {}
    } else {
        assert(update.instance_tables@.len() > 0);
        assert forall|c: int| 0 <= c < components.len() implies exists|a: int|
            0 <= a < plan.len() && (#[trigger] plan[a]).component == #[trigger] components[c]
                && update.tables_of(plan[a]).contains(tables[i]) by {
            let duty = Duty { component: components[c], cluster: false };
            assert(plan.contains(duty));
            let a = choose|a: int| 0 <= a < plan.len() && plan[a] == duty;
            assert(plan[a].component == components[c]);
        }
    }
}

/// A collector is known by the host and the port of its instance and by its kind.
pub proof fn keys_are_written_so(duty: Duty)
    ensures
        duty.cluster ==> duty.key() == duty.component.host@ + ":"@ + decimal(
            duty.component.primary_port as nat,
        ) + "_cluster"@,
        !duty.cluster ==> duty.key() == duty.component.host@ + ":"@ + decimal(
            duty.component.primary_port as nat,
        ) + "_instance"@,
{
}

/// A collector is stopped exactly if the host and the port of its instance were among
/// those before and are not among those after.
pub proof fn collectors_stop_with_host_and_port(
    duty: Duty,
    before: Seq<Component>,
    after: Seq<Component>,
)
    ensures
        is_orphan(duty.key(), before, after) <==> {
            &&& exists|i: int|
                0 <= i < before.len() && (#[trigger] before[i]).host@ == duty.component.host@
                    && before[i].primary_port == duty.component.primary_port
            &&& forall|j: int|
                0 <= j < after.len() ==> (#[trigger] after[j]).host@ != duty.component.host@
                    || after[j].primary_port != duty.component.primary_port
        },
{
    collectors_stop_with_their_instance(duty, before, after);
    assert forall|c: Component| #[trigger]
        c.address() == duty.component.address() <==> c.host@ == duty.component.host@
            && c.primary_port == duty.component.primary_port by {
        if c.address() == duty.component.address() {
            addresses_tell_instances_apart(c, duty.component);
        }
    }
    if exists|i: int|
        0 <= i < before.len() && (#[trigger] before[i]).host@ == duty.component.host@
            && before[i].primary_port == duty.component.primary_port {
        let i = choose|i: int|
            0 <= i < before.len() && (#[trigger] before[i]).host@ == duty.component.host@
                && before[i].primary_port == duty.component.primary_port;
        assert(before[i].address() == duty.component.address());
    }
    if is_gone(duty.component, after) {
        assert forall|j: int| 0 <= j < after.len() implies (#[trigger] after[j]).host@
            != duty.component.host@ || after[j].primary_port != duty.component.primary_port by {
            assert(after[j].address() != duty.component.address());
        }
    } else {
        let j = choose|j: int|
            0 <= j < after.len() && (#[trigger] after[j]).address() == duty.component.address();
        assert(after[j].host@ == duty.component.host@);
    }
}

/// Stopping by an address stops the two collectors that an instance with that address
/// can have, where they run, and no other.
pub proof fn both_collectors_of_an_instance_stop(
    running: Set<Seq<char>>,
    address: Seq<char>,
    key: Seq<char>,
)
    ensures
        keys_on(running, address).contains(key) <==> running.contains(key) && (key == address
            + "_cluster"@ || key == address + "_instance"@),
        keys_on(running, address).no_duplicates(),
{
    lemma_keys_on(running, address);
}

/// A collector reaches the instance that it is for: by the host and the port of the
/// instance, and by SQL as the user and with the password, the database, the limits and
/// the TLS settings that are configured. It has all the tables that it is for.
pub proof fn collectors_reach_their_instance(
    controller: Controller,
    config: CollectorConfig,
    component: Component,
    tables: Seq<TableConfig>,
)
    requires
        controller.configures(config, component, tables),
    ensures
        config.instance@ == component.host@ + ":"@ + decimal(component.primary_port as nat),
        config.tables@ == tables,
        config.collection_config == controller.collection_config,
        controller.collection_method == CollectionMethod::Coprocessor
            ==> config.config_type is Coprocessor,
        controller.collection_method != CollectionMethod::Coprocessor ==> config.config_type is Sql,
        config.config_type matches CollectorConfigType::Coprocessor { host, port } ==> host
            == component.host && port == component.primary_port,
        config.config_type matches CollectorConfigType::Sql { database_config } ==> {
            &&& database_config.host == component.host
            &&& database_config.port == component.primary_port
            &&& database_config.username == controller.database_config.username
            &&& database_config.password == controller.database_config.password
            &&& database_config.database == controller.database_config.database
            &&& database_config.max_connections == controller.database_config.max_connections
            &&& database_config.connect_timeout == controller.database_config.connect_timeout
            &&& database_config.tls == controller.database_config.tls
        },
{
}

/// One more collector counts once, for its own type, with its tables.
pub proof fn collectors_are_counted_by_type(
    tasks: Seq<(Seq<char>, CollectorTask)>,
    key: Seq<char>,
    task: CollectorTask,
    method: CollectionMethod,
)
    ensures
        task.collector_type == method ==> tasks_of(tasks.push((key, task)), method) == (
            tasks_of(tasks, method).0 + 1,
            tasks_of(tasks, method).1 + task.table_count,
        ),
        task.collector_type != method ==> tasks_of(tasks.push((key, task)), method) == tasks_of(
            tasks,
            method,
        ),
        tasks.len() == 0 ==> tasks_of(tasks, method) == (0int, 0int),
{
    assert(tasks.push((key, task)).drop_last() =~= tasks);
}

/// A statistic names each type that has collectors, and no other, with the number of
/// its collectors or of their tables.
pub proof fn statistics_name_the_types(
    tasks: Seq<(Seq<char>, CollectorTask)>,
    by_tables: bool,
    method: CollectionMethod,
    name: Seq<char>,
)
    requires
        match method {
            CollectionMethod::Sql => name == "sql"@,
            CollectionMethod::Coprocessor => name == "coprocessor"@,
            CollectionMethod::HttpApi => name == "http_api"@,
            CollectionMethod::CustomGrpc => name == "custom_grpc"@,
        },
    ensures
        tasks_of(tasks, method).0 > 0 ==> type_statistic(tasks, by_tables).contains(
            (
                name,
                ValueView::Number(
                    Number::PosInt(
                        if by_tables {
                            tasks_of(tasks, method).1 as u64
                        } else {
                            tasks_of(tasks, method).0 as u64
                        },
                    ),
                ),
            ),
        ),
        tasks_of(tasks, method).0 == 0 ==> forall|k: int|
            0 <= k < type_statistic(tasks, by_tables).len() ==> (#[trigger] type_statistic(
                tasks,
                by_tables,
            )[k]).0 != name,
{
    reveal_strlit("sql");
    reveal_strlit("coprocessor");
    reveal_strlit("http_api");
    reveal_strlit("custom_grpc");
    assert("sql"@.len() == 3 && "coprocessor"@.len() == 11 && "http_api"@.len() == 8
        && "custom_grpc"@.len() == 11);
    assert("coprocessor"@[1] != "custom_grpc"@[1]);
    let a = type_entry(tasks, CollectionMethod::Sql, by_tables);
    let b = type_entry(tasks, CollectionMethod::Coprocessor, by_tables);
    let c = type_entry(tasks, CollectionMethod::HttpApi, by_tables);
    let d = type_entry(tasks, CollectionMethod::CustomGrpc, by_tables);
    let all = type_statistic(tasks, by_tables);
    assert(all == a + b + c + d);
    if tasks_of(tasks, method).0 > 0 {
        let (place, entry) = match method {
            CollectionMethod::Sql => (0int, a[0]),
            CollectionMethod::Coprocessor => (a.len() as int, b[0]),
            CollectionMethod::HttpApi => (a.len() + b.len() as int, c[0]),
            CollectionMethod::CustomGrpc => (a.len() + b.len() + c.len() as int, d[0]),
        };
        assert(all[place] == entry);
    }
    assert(forall|k: int|
        0 <= k < all.len() ==> a.contains(#[trigger] all[k]) || b.contains(all[k]) || c.contains(
            all[k],
        ) || d.contains(all[k])) by {
        assert forall|k: int| 0 <= k < all.len() implies a.contains(#[trigger] all[k])
            || b.contains(all[k]) || c.contains(all[k]) || d.contains(all[k]) by {
            if k < a.len() {
                assert(a[k] == all[k]);
            } else if k < a.len() + b.len() {
                assert(b[k - a.len()] == all[k]);
            } else if k < a.len() + b.len() + c.len() {
                assert(c[k - a.len() - b.len()] == all[k]);
            } else {
                assert(d[k - a.len() - b.len() - c.len()] == all[k]);
            }
        }
    }
}

/// A collector whose first table asks for the short interval collects every five
/// seconds, one whose first table asks for the long interval every half hour, and one
/// whose first table asks for a number of seconds as often as that.
pub proof fn collectors_keep_their_interval(tables: Seq<TableConfig>, n: u64)
    requires
        tables.len() > 0,
    ensures
        tables[0].collection_interval@ == "short"@ ==> task_seconds(tables) == 5,
        tables[0].collection_interval@ == "long"@ ==> task_seconds(tables) == 1800,
        tables[0].collection_interval@ == "custom="@ + decimal(n as nat) ==> task_seconds(tables)
            == n,
        tables[0].collection_interval@ != "long"@ && !has_prefix(
            tables[0].collection_interval@,
            "custom="@,
        ) ==> task_seconds(tables) == 5,
{
    custom_interval_is_exact(
        n,
        CollectionConfig { short_interval: 5, long_interval: 1800, retention_days: 7 },
    );
    reveal_strlit("short");
    reveal_strlit("long");
    assert("short"@.len() == 5 && "long"@.len() == 4);
}

/// A controller is created exactly for a method that is known and with what the cluster
/// is discovered by: an address, or else, by Kubernetes labels, a group or a label.
pub proof fn controllers_need_what_they_discover_by(settings: SourceSettings, nextgen: bool)
    ensures
        settings_fault(settings, nextgen) is None <==> {
            let method = lowercase(settings.collection_method@);
            &&& method == "sql"@ || method == "coprocessor"@ || method == "http_api"@ || method
                == "http"@ || method == "custom_grpc"@ || method == "grpc"@
            &&& nextgen ==> settings.tidb_group is Some || settings.label_k8s_instance is Some
            &&& !nextgen ==> settings.pd_address is Some
        },
{
}

/// The cluster is discovered by the group and the label that are configured, and by the
/// address and with the TLS settings that are configured, where it is discovered by an
/// address.
pub proof fn clusters_are_discovered_as_configured(
    topology: TopologySettings,
    settings: SourceSettings,
    nextgen: bool,
)
    requires
        topology.follows(settings, nextgen),
    ensures
        topology.tidb_group == settings.tidb_group,
        topology.label_k8s_instance == settings.label_k8s_instance,
        nextgen ==> topology.pd_address@ == ""@ && topology.pd_tls is None,
        !nextgen ==> settings.pd_address == Some(topology.pd_address) && topology.pd_tls
            == settings.pd_tls,
{
}

/// A controller that is not created is told why: its method is not known, or what the
/// cluster is discovered by is missing.
pub proof fn missing_settings_are_told(settings: SourceSettings, nextgen: bool)
    requires
        settings_fault(settings, nextgen) is Some,
    ensures
        ({
            let fault = settings_fault(settings, nextgen)->0;
            let method = lowercase(settings.collection_method@);
            let known = method == "sql"@ || method == "coprocessor"@ || method == "http_api"@
                || method == "http"@ || method == "custom_grpc"@ || method == "grpc"@;
            &&& !known ==> has_part(fault, "Unknown collection method: "@ + settings.collection_method@)
            &&& known && nextgen ==> fault
                == "In nextgen mode, either tidb_group or label_k8s_instance must be specified"@
            &&& known && !nextgen ==> fault == "In legacy mode, pd_address must be specified"@
        }),
{
    let fault = settings_fault(settings, nextgen)->0;
    if method_named(lowercase(settings.collection_method@)) is None {
        let part = "Unknown collection method: "@ + settings.collection_method@;
        let end = ". Supported: sql, coprocessor, http_api, custom_grpc"@;
        let start = "Invalid collection method: "@ + "Configuration error: "@;
        parts_are_found(start, part, end);
        assert(start + part + end =~= fault);
    }
}

/// A controller keeps its settings: the database, the intervals, the tables and the
/// method.
pub proof fn controllers_keep_their_settings(before: Controller, after: Controller)
    requires
        after.same_settings(before),
    ensures
        after.database_config == before.database_config,
        after.collection_config == before.collection_config,
        after.tables == before.tables,
        after.collection_method == before.collection_method,
{
}

/// An update that begins divides the tables by the beginning of their names: one whose
/// name begins with `CLUSTER_` is among those of the cluster and not among those of the
/// instances, and every other table is among those of the instances only.
pub proof fn updates_divide_the_tables(
    controller: &Controller,
    components: Vec<Component>,
    update: Update,
    i: int,
)
    requires
        call_ensures(Controller::begin_update, (controller, components), update),
        0 <= i < controller.tables@.len(),
    ensures
        update.components == components,
        update.next == 0,
        update.cluster_tables@.contains(controller.tables@[i]) <==> begins_with_cluster(
            controller.tables@[i],
        ),
        update.instance_tables@.contains(controller.tables@[i]) <==> !begins_with_cluster(
            controller.tables@[i],
        ),
        begins_with_cluster(controller.tables@[i]) ==> forall|a: int, b: int|
            0 <= a < update.plan().len() && 0 <= b < update.plan().len() && update.tables_of(
                #[trigger] update.plan()[a],
            ).contains(controller.tables@[i]) && update.tables_of(
                #[trigger] update.plan()[b],
            ).contains(controller.tables@[i]) ==> a == b,
{
    names_decide_on_the_collector(controller.tables@, i);
    each_table_has_its_collectors(update, controller.tables@, i);
}

/// A table is collected from exactly if it is enabled and the collector can read it: any
/// table by SQL, and by the coprocessor those that it can read.
pub proof fn enabled_tables_are_collected(
    collector: &Collector,
    table: &TableConfig,
    tables: &Vec<TableConfig>,
    one: bool,
    all: Vec<bool>,
    i: int,
)
    requires
        call_ensures(is_collected, (collector, table), one),
        call_ensures(collected_tables, (collector, tables), all),
    ensures
        one <==> table.enabled && (collector is Sql || has_prefix(table.source_table@, "CLUSTER_"@)
            || has_part(table.source_table@, "STATEMENTS_SUMMARY"@) || has_part(
            table.source_table@,
            "SLOW_QUERY"@,
        )),
        all@.len() == tables@.len(),
        0 <= i < tables@.len() && *table == tables@[i] ==> all@[i] == one,
{
}

/// Of the instances of a cluster the TiDB instances are collected from, all of them and
/// no others.
pub proof fn tidb_instances_are_collected_from(
    components: Vec<Component>,
    found: Vec<Component>,
    i: int,
)
    requires
        call_ensures(Controller::tidb_instances, (components,), found),
    ensures
        0 <= i < components@.len() && components@[i].instance_type == InstanceType::TiDB
            ==> found@.contains(components@[i]),
        0 <= i < found@.len() ==> found@[i].instance_type == InstanceType::TiDB,
{
    broadcast use vstd::seq_lib::group_filter_ensures;
    let pred = |c: Component| c.instance_type == InstanceType::TiDB;
    if 0 <= i < found@.len() {
        assert(pred(components@.filter(pred)[i]));
    }
    if 0 <= i < components@.len() && components@[i].instance_type == InstanceType::TiDB {
        assert(pred(components@[i]));
        assert(components@.filter(pred).contains(components@[i]));
    }
}

/// A collector that was started runs with its tables, by the method of the controller,
/// until it is stopped; starting and stopping it touches no other.
pub proof fn started_collectors_run_until_stopped(
    starting: &mut Controller,
    stopping: &mut Controller,
    key: String,
    tables: usize,
    name: &str,
    task: Option<CollectorTask>,
    other: Seq<char>,
)
    requires
        call_ensures(Controller::started, (starting, key, tables), ()),
        *old(stopping) == *final(starting),
        name@ == key@,
        call_ensures(Controller::stop_collector, (stopping, name), task),
        other != key@,
    ensures
        final(starting).running_collectors@.dom().contains(key@),
        task matches Some(t) && t.table_count == tables,
        task matches Some(t) && t.collector_type == old(starting).collection_method,
        !final(stopping).running_collectors@.dom().contains(key@),
        final(stopping).running_collectors@.dom().contains(other)
            == old(starting).running_collectors@.dom().contains(other),
        final(stopping).tidb_components == old(starting).tidb_components,
{
}

/// Stopping by an instance stops its two collectors and no other.
pub proof fn stopped_instances_have_no_collectors(
    controller: &mut Controller,
    instance: &str,
    stopped: Vec<String>,
    other: Seq<char>,
)
    requires
        call_ensures(Controller::stop_collector_by_instance, (controller, instance), stopped),
        other != instance@ + "_cluster"@,
        other != instance@ + "_instance"@,
    ensures
        !final(controller).running_collectors@.dom().contains(instance@ + "_cluster"@),
        !final(controller).running_collectors@.dom().contains(instance@ + "_instance"@),
        final(controller).running_collectors@.dom().contains(other)
            == old(controller).running_collectors@.dom().contains(other),
        texts(stopped@).contains(instance@ + "_cluster"@)
            == old(controller).running_collectors@.dom().contains(instance@ + "_cluster"@),
        texts(stopped@).contains(instance@ + "_instance"@)
            == old(controller).running_collectors@.dom().contains(instance@ + "_instance"@),
{
    lemma_keys_on(old(controller).running_collectors@.dom(), instance@);
    lemma_keys_differ(instance@, instance@);
}

/// When the instances have changed, a collector still runs exactly if it ran and its host
/// and port are not among those that are gone; the new instances are taken over.
pub proof fn changes_stop_collectors_of_gone_instances(
    controller: &mut Controller,
    update: Update,
    stopped: Vec<String>,
    duty: Duty,
)
    requires
        call_ensures(Controller::finish_update, (controller, update), stopped),
        old(controller).running_collectors@.dom().contains(duty.key()),
    ensures
        final(controller).tidb_components == update.components,
        !final(controller).running_collectors@.dom().contains(duty.key()) <==> {
            &&& exists|i: int|
                0 <= i < old(controller).tidb_components@.len()
                    && (#[trigger] old(controller).tidb_components@[i]).host@
                    == duty.component.host@ && old(controller).tidb_components@[i].primary_port
                    == duty.component.primary_port
            &&& forall|j: int|
                0 <= j < update.components@.len() ==> (#[trigger] update.components@[j]).host@
                    != duty.component.host@ || update.components@[j].primary_port
                    != duty.component.primary_port
        },
        texts(stopped@).contains(duty.key())
            <==> !final(controller).running_collectors@.dom().contains(duty.key()),
{
    collectors_stop_with_host_and_port(
        duty,
        old(controller).tidb_components@,
        update.components@,
    );
}

/// After a shutdown no collector runs.
pub proof fn nothing_runs_after_a_shutdown(
    controller: &mut Controller,
    stopped: Vec<String>,
    key: Seq<char>,
)
    requires
        call_ensures(Controller::shutdown_all_collectors, (controller,), stopped),
    ensures
        !final(controller).running_collectors@.dom().contains(key),
        stopped@.len() == old(controller).running_collectors.items().len(),
{
    assert(texts(stopped@).len() == stopped@.len());
}

} // verus!
