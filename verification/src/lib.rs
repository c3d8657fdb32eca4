//! Verified core of a small currency-pair quote service.
//!
//! - [`record`]: the quote record and its view.
//! - [`database`]: the in-memory store, keyed by identifier, and how it is
//!   written out and restored.
//! - [`api`]: what each of the five request handlers does to the store and
//!   answers.
//! - [`cors`]: which origins may make cross-origin requests.
//! - [`laws`]: what holds of the store and the handlers taken together.
//!
//! The service around it (the network, the lock, the file and the JSON text)
//! is not part of this library.

pub mod api;
pub mod cors;
pub mod database;
pub mod laws;
pub mod record;
