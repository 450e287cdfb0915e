//! User preferences.

pub mod model;
pub mod store;
