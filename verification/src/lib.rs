//! Proof-carrying runtime for local-first systems: three verdicts, content-addressed
//! atoms with epistemic heat, hash-chained transcripts, and federated pointers.

pub mod ids;
pub mod text;
pub mod decision;
pub mod keyed_map;
pub mod storage;
pub mod worker;
pub mod transcript;
pub mod session;
pub mod runtime;
pub mod federation;
pub mod manager;
pub mod manager_app;
pub mod sovereign_demo;
