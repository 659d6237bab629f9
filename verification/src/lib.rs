//! The decisions of a TiDB telemetry pipeline: what to collect from the system
//! tables of a cluster, how to read what comes back, and how to lay it out in
//! Delta Lake tables.
pub mod bytes;
pub mod clock;
pub mod deltalake;
pub mod mocked_topsql;
pub mod random;
pub mod string_map;
pub mod system_tables;
pub mod text;
pub mod value;
