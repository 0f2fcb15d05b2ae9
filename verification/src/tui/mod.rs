//! The state machine behind the terminal front end: pages, modal dialogs,
//! the database manager and the key handling that ties them together.

pub mod app;
pub mod database;
pub mod events;
pub mod modal;
pub mod nav;
pub mod state;
