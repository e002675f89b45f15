//! Decision logic of a rendezvous server for remote-desktop peers: address
//! handling, registration checks, punch-hole routing, rate limiting and the
//! administration commands. The network, the database and message encoding
//! stay with the caller, which hands the decisions plain values.
#![allow(non_camel_case_types)]

pub mod addr;
pub mod blocker;
pub mod command;
pub mod common;
pub mod database;
pub mod datatime_util;
pub mod keys;
pub mod online;
pub mod report;
pub mod rendezvous;
pub mod sync_db;
pub mod table;
pub mod text;

pub use addr::try_into_v4;
