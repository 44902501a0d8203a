//! The in-memory stores.

pub mod error;
pub mod laws;
pub mod members;
pub mod model;
pub mod store;
pub mod users;
