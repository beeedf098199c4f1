//! A verified model of a minimal REST service for a single `User` resource:
//! a route table, five stateless handlers, a JSON codec for the `User`
//! payload, and a metrics accumulator with a text exposition snapshot.
pub mod handlers;
pub mod json;
pub mod metrics;
pub mod numfmt;
pub mod router;
pub mod service;
pub mod user;
