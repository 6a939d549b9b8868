//! The shapes of requests and responses, and how they map to the domain.

pub mod error;
pub mod recipe;
pub mod user;
