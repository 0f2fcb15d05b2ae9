//! The indexer side: the commands the database sends it over a pipe, their
//! framing, the nearest-neighbour measures, and its k-d tree.

pub mod kd_model;
pub mod protocol;
pub mod select;
pub mod thread;
