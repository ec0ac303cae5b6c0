//! Local warehouse for a remote project-management service: the rules of its
//! synchronisation engine, and the pure helpers around them.
//!
//! Nothing here performs I/O. Every remote call, database write and clock read
//! belongs to the caller, which hands plain values to the functions below and
//! carries out the requests they return.

pub mod date;
pub mod date_util;
pub mod error;
pub mod llm;
pub mod metrics;
pub mod monitor;
pub mod query;
pub mod search;
pub mod storage;
pub mod sync;
pub mod text;
pub mod url;
