//! Telemetry ingest core.
//!
//! One client event goes through three verified stages:
//! - fact extraction (`facts`): total functions from raw fields to device,
//!   identity, session, network, event and geo records, with deterministic
//!   identity keys;
//! - rule scoring (`score`): condition trees over a JSON-like fact bag
//!   (`json`, `decimal`), giving a total and the matched rules in order;
//! - the graph upsert (`graph`, `ingest`): the flat parameter set of one
//!   merge statement, a model of what that statement does to the store, and
//!   the begin / run / commit protocol as a state machine.
//!
//! Talking to the store and to the network is left to the caller, which
//! follows the state machine.

pub mod decimal;
pub mod facts;
pub mod graph;
pub mod ingest;
pub mod json;
pub mod score;
pub mod text;
