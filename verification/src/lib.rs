//! The command layer of a small English–Chinese flashcard store.
//!
//! The store is a database with two tables, `words` and `settings`. The
//! library never touches it. A command in [`commands`] says which
//! [`statement`] to send, the caller sends it, and the command is told
//! what came back and [`decode`]s it. [`model`] says what the statements
//! mean, [`store`] is a store held in memory that behaves so, and [`laws`]
//! holds what follows for the commands. Rows are JSON values; what is
//! assumed of them is in [`json`], and nothing else is assumed.

pub mod commands;
pub mod decode;
pub mod failure;
pub mod json;
pub mod laws;
pub mod model;
pub mod order;
pub mod schema;
pub mod statement;
pub mod store;
pub mod table;
pub mod words;
