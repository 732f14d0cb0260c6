//! A key/value store of hashes with write-through persistence, and the
//! request/response protocol that serves it.
//!
//! The store keeps its entries in the order of the durable file, so that the
//! file's contents are a function of the store. Every mutation yields the
//! write that brings the file up to date: an append for a new key, a full
//! rewrite for a changed one.

pub mod codec;
pub mod durable;
pub mod protocol;
pub mod store;
