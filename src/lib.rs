//! Locating, classifying and reading browser cookie databases, and the
//! navigation state that a terminal viewer of their contents runs on.
pub mod cursor;
pub mod db;
pub mod detect;
pub mod laws;
pub mod loader;
pub mod schema;
pub mod search;
pub mod sqlite;
pub mod state;
pub mod text;
pub mod types;
