//! In-memory account-state cache and pending-operation coordination for an
//! account-based ledger node: an account cache with lease-style eviction, a
//! FIFO waiter registry for pending transactions, and a two-phase blob
//! settlement queue, together with the data model they operate on.
//!
//! Each coordinator owns its state exclusively; callers drive it by feeding
//! events to a `step` function, and the coordinator answers with the outbound
//! messages to deliver to peer actors. The surrounding channel plumbing lives
//! outside this crate.

pub mod address;
pub mod addr_map;
pub mod u256;
pub mod hashing;
pub mod account;
pub mod transaction;
pub mod actor_types;
pub mod messages;
pub mod cache;
