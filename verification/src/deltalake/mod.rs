//! Writing of events to Delta Lake tables.
pub mod batch;
pub mod cells;
pub mod column;
pub mod config;
pub mod event;
pub mod schema;
pub mod writer;
pub mod steps;
pub mod processor;
