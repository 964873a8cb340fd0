//! A bounded, recency-evicting key/value store together with the thin
//! expiring-entry layer that its consumers use: form definitions and the
//! payloads submitted against them are held in independent cache instances,
//! each bounded by a fixed capacity, evicting the least-recently-accessed
//! entry under capacity pressure.

pub mod cache;
pub mod digits;
pub mod form;
pub mod service;
