//! The records the service stores and exchanges.

pub mod models;
pub mod responses;
