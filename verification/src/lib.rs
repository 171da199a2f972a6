//! Bitcoin address indexer: the verified core of a service that follows the
//! Bitcoin chain, records the outputs paid to tracked addresses, and answers
//! balance and history requests for registered users.

pub mod hexcodec;
pub mod merkle;
pub mod header;
pub mod numparse;
pub mod db;
pub mod tracking;
pub mod p2p;
pub mod peer_message;
pub mod indexer;
pub mod handling;
pub mod auth;
pub mod config;
pub mod models;
