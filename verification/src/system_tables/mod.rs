//! Collection of the system tables of a cluster.
pub mod config;
pub mod data_collector;
pub mod coprocessor;
pub mod sql_collector;
pub mod collector_factory;
pub mod controller;
