pub mod analysis;
pub mod aspect;
pub mod backup;
pub mod batch;
pub mod batches;
pub mod cache;
pub mod catalog;
pub mod columns;
pub mod compression;
pub mod correlation;
pub mod dataset;
pub mod decimal;
pub mod dictionary;
pub mod error;
pub mod event;
pub mod ids;
pub mod laws;
pub mod measurement;
pub mod names;
pub mod paths;
pub mod pattern;
pub mod pipeline;
pub mod queue;
pub mod registry;
pub mod resolution;
pub mod sql;
pub mod stats;
pub mod store;
pub mod table;
pub mod text;
pub mod time;
pub mod transaction;
pub mod variability;
