//! The agent-state store: its migration catalog and skew, where it lives,
//! how `SQLite` failures are classified, and the records written to it.
pub mod migrate;
pub mod root;
pub mod error;
pub mod records;
pub mod commands;
