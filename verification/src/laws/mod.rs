//! What holds of operations as a whole, told by their inputs and their results.
pub mod analysis;
pub mod batches;
pub mod bulks;
pub mod caches;
pub mod compression;
pub mod dictionaries;
pub mod lists;
pub mod orders;
pub mod queues;
pub mod ratios;
pub mod readings;
pub mod rows;
pub mod series;
pub mod shapes;
pub mod statements;
pub mod stored;
pub mod tables;
pub mod transactions;
pub mod writings;
