//! What is written to the databases of an aspect, and what is read from them.
pub mod batches;
pub mod captures;
pub mod correlations;
pub mod dictionaries;
pub mod events;
pub mod kept;
pub mod measurements;
pub mod metadata;
pub mod observations;
pub mod occurrences;
pub mod patterns;
pub mod reader;
pub mod readings;
pub mod tables;
pub mod whole;
