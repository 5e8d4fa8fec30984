//! A personal budget-tracking core: users, per-user stores of spending
//! categories and records, validation, and the query semantics over them.
pub mod auth;
pub mod categories;
pub mod config;
pub mod constants;
pub mod errors;
pub mod laws;
pub mod models;
pub mod records;
pub mod store;
pub mod text;
pub mod utils;
pub mod wrappers;
