//! Provenance: the store of what each unit produced, and what that store allows.

pub mod inspect;
pub mod job;
pub mod lock;
pub mod open;
pub mod ownership;
pub mod reconcile;
pub mod require;
pub mod store;
pub mod units;
