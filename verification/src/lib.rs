//! Verified core of a vehicle component manager.
//!
//! The crate holds the rules by which one updatable component of a vehicle
//! computer is flashed, trialled, committed, rolled back, disabled, observed and
//! diagnosed. Everything here is plain computation on plain values; files,
//! sockets, clocks and hardware belong to the program that calls the crate.

pub mod app_install_router;
pub mod backend;
pub mod bank_provider;
pub mod bank_seed;
pub mod bank_spec;
pub mod banks;
pub mod component_adapter;
pub mod dispatcher;
pub mod error;
pub mod firmware;
pub mod hashing;
pub mod idmap;
pub mod install_router_diag;
pub mod json;
pub mod lifecycle;
pub mod logs;
pub mod manifest_provider;
pub mod outside;
pub mod partition_bank_provider;
pub mod paths;
pub mod text;
