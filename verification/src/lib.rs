//! A history of shell command executions: which command ran, where, when,
//! for how long and with what exit status.
//!
//! - [`model`] defines the history as a mathematical value and every
//!   operation on it; [`laws`] proves what holds of those operations.
//! - [`store`] holds the history in memory and is verified against the model.
//! - [`session`] is the course of one invocation, statement by statement,
//!   apart from the engine that runs the statements.
//! - [`sqlite`] runs a session against an SQLite database.
//! - [`rows`] and [`text`] hold the rows and how they are written out.

pub mod error;
pub mod laws;
pub mod model;
pub mod rows;
pub mod session;
pub mod sqlite;
pub mod store;
pub mod text;
