//! What the statements mean that go to the databases.
pub mod batches;
pub mod catalog;
pub mod correlations;
pub mod dictionaries;
pub mod events;
pub mod measurements;
pub mod metadata;
pub mod observations;
pub mod patterns;
pub mod pipeline;
pub mod queue_batches;
pub mod queue_events;
pub mod queue_patterns;
pub mod readings;
