//! A minimal authenticated land-title record store.
//!
//! The crate has two parts: a command codec, which parses raw byte buffers
//! into typed commands and serialises records into their persisted byte
//! layout, and an authority engine, which checks a caller's signature and
//! ownership against a storage slot and computes the new slot contents.

pub mod codec;
pub mod engine;
pub mod error;
