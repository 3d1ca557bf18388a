//! A per-owner vault ledger with a hibernation/revival mechanism.
//!
//! Vaults hold a balance and a last-activity timestamp. An inactive vault can
//! be hibernated: its state is emitted as a compact commitment event and the
//! active record is removed. A hibernated state can later be revived by
//! presenting a proof against the root commitment published by the registry
//! authority.

pub mod laws;
pub mod ledger;
pub mod types;
