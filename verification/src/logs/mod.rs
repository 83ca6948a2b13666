//! Diagnostic logs: host files, dump directories and the agent inside a guest.


pub mod agent;
pub mod cursor;
pub mod dumps;
pub mod entry;
pub mod ids;
pub mod files;
pub mod following;
pub mod lines;
pub mod listing;
pub mod lookup;
pub mod order;
pub mod paging;
