//! Collection through the coprocessor interface of the cluster.
pub mod packed_time;
pub mod codec;
pub mod columns;
pub mod rows;
pub mod request;
pub mod collector;
pub mod encoding;
pub mod read_back;
