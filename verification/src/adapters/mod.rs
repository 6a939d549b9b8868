//! What stands between the services and the outside.

pub mod http;
