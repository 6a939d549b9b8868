//! Recipe management: the domain model, a recipe book that keeps recipes,
//! their steps and their ingredient lines consistent, the statements by which
//! a store is written, and the services that let users in and let only a
//! recipe's author change it.

pub mod adapters;
pub mod domain;
pub mod port;
pub mod service;
pub mod store;
pub mod text;
