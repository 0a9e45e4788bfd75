//! Local persistence and licensing core for a point-of-sale application.
//!
//! The store keeps products, categories, orders (with their line items),
//! tables and users, addressed by 64-bit ids, plus at most one license
//! record.  Every write is an insert-or-replace by primary key, deletes of
//! missing ids are no-ops, and the whole store can be exported to and
//! restored from a snapshot.  The license module derives a live status
//! (activated / valid / days remaining) from the stored record and a clock
//! value supplied by the caller.

pub mod database;
pub mod fingerprint;
pub mod kv;
pub mod license;
pub mod models;
pub mod pinned_ids;
pub mod screenshot;

