//! Keeps a Galera node's cluster address in step with the hosts that a
//! domain name resolves to.
//!
//! The library holds the rules: how a membership snapshot is built from
//! resolved addresses, when a snapshot is pushed to the store, how the
//! applied state moves, and how long to wait for the store. Resolution,
//! the store connection and the clock belong to the caller.

pub mod membership;
pub mod reconcile;
pub mod store;
pub mod config;
pub mod discovery;
