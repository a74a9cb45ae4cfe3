//! Verified core of a background folder synchronisation daemon: path safety,
//! block-level delta planning, debounced work queues, worker state machines and
//! the tray status model.

pub mod config;
pub mod ancestry;
pub mod archive;
pub mod context;
pub mod copy;
pub mod delta;
pub mod engine;
pub mod error;
pub mod full_scan;
pub mod keyed;
pub mod mock;
pub mod path_safety;
pub mod queue;
pub mod reachability;
pub mod reparse;
pub mod runner;
pub mod scan;
pub mod state;
pub mod store;
pub mod text;
pub mod traits;
pub mod transfer;
pub mod tray;
pub mod types;
