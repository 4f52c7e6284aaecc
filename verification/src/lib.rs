//! Configuration, request validation and response decisions of a small
//! newsletter subscription service, with their contracts proved by Verus.

pub mod decimal;
pub mod secret;
pub mod config;
pub mod errors;
pub mod handlers;
pub mod models;
