//! A Redis-wire-compatible in-memory key/value and list store, built as a
//! verified library: the RESP codec, the typed command model, the sharded
//! storage engine with TTL and blocking-pop protocols, and the connection
//! session logic all carry machine-checked contracts.

pub mod command;
pub mod laws;
pub mod network;
pub mod numbers;
pub mod storage;
pub mod protocol;
pub mod startup_arguments;
pub mod utils;
