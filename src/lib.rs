//! Streaming, chunked backup of relational tables to columnar files.
//!
//! The library holds the decisions of the backup: how source columns map to
//! columnar types, how cells are decoded into typed columns, how columns are
//! grouped into batches, how a table scan is cut into chunks, how the writer
//! reacts to each message, and how the outcomes of many tables are combined.
//! The program around it performs the database reads and the file writes.
pub mod backups;
pub mod batch;
pub mod calendar;
pub mod columns;
pub mod config;
pub mod decimal;
pub mod error;
pub mod pipeline;
pub mod schema;
pub mod value;


pub use backups::{BatchBackup, TableBackup};
pub use config::Config;
