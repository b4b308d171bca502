//! An event-sourced engine for a multi-tenant double-entry ledger.

pub mod accounts;
pub mod amounts;
pub mod commands;
pub mod credentials;
pub mod entry;
pub mod errors;
pub mod event;
pub mod gate;
pub mod ids;
pub mod journal;
pub mod laws;
pub mod permissions;
pub mod return_types;
pub mod sessions;
pub mod store;
pub mod user;
