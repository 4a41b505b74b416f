//! Replication core of a shared todo list.
//!
//! The list lives in a causally ordered change log; a materialized view of
//! it serves every read. User intents are turned into structural
//! operations, recorded in the log as one change each, and exchanged with
//! peers as complete histories.

pub mod backend;
pub mod error;
pub mod filter;
pub mod history;
pub mod intents;
pub mod items;
pub mod laws;
pub mod log;
pub mod model;
pub mod ops;
pub mod path;
pub mod store;
pub mod value;
pub mod view;
