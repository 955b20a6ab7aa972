//! The manager application's logic: a queue of cases, typed witnesses, heat controls,
//! replay, and a two-node federation.

pub mod app_state;
pub mod case_service;
pub mod commands;
pub mod demo_domain;
pub mod federation_service;
pub mod heat_service;
pub mod replay_service;
pub mod witness_service;
