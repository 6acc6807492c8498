//! The catalog: what it is made of, and how user objects get into it.
pub mod cells;
pub mod defs;
pub mod entries;
pub mod histories;
pub mod laws;
pub mod merge;
pub mod operations;
pub mod registration;
pub mod registry;
pub mod row;
pub mod rows;
pub mod snapshots;
pub mod source;
pub mod types;
pub mod unregister;
