//! The engine of one component: its updates, its identity, its health.
//!
//! The engine decides; it does not act. Whatever it needs done in the world (a
//! bank wiped, a record written, a guest restarted) it asks for by returning an
//! action, and it goes on when it is told what came of it.

pub mod activation;
pub mod admin;
pub mod admission;
pub mod book;
pub mod data;
pub mod describe;
pub mod dids;
pub mod finalize;
pub mod guest;
pub mod install;
pub mod operations;
pub mod packages;
pub mod parameters;
pub mod reconcile;
pub mod setup;
pub mod upload;
