//! Checkpoint stores.
pub mod laws;
pub mod memory;
pub mod postgres;
pub mod rows;
pub mod sqlite;
