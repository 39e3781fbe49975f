//! Accounting core of a fungible-token ledger kept in a cosmwasm key-value store: the byte
//! encodings of its records, the namespaced views of the store, the operations with their
//! authorization and range checks, and the laws that every reachable state obeys.
pub mod codec;
pub mod store;
pub mod state;
pub mod ledger;
pub mod msg;
pub mod laws;
