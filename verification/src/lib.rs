//! A small vector database: storage engines, vector indexes (flat and
//! k-d tree), the indexer's k-d tree and the pipe protocol that feeds it,
//! record keys, the console's menus, and the state machine behind the
//! terminal front end.

pub mod api;
pub mod cli;
pub mod index;
pub mod indexer;
pub mod keys;
pub mod storage;
pub mod strings;
pub mod tui;
pub mod types;
