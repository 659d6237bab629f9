//! A source of mocked statistics about statements and regions.
pub mod controller;
pub mod events;
pub mod samples;
