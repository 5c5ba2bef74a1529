//! An in-memory registry of port records (named maritime/logistics locations)
//! together with the request-admission logic that guards access to it: a hard
//! cap on concurrently in-flight requests, load shedding, a per-request
//! timeout, and the translation of admission failures into HTTP responses.
//!
//! The registry supports bulk upsert and full listing; handler cores produce
//! the response values that an HTTP layer serialises and sends.

pub mod admission;
pub mod handler;
pub mod laws;
pub mod model;
pub mod registry;
pub mod response;
