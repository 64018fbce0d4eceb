//! Ledger core of a peer-to-peer file-storage network.
//!
//! A requester publishes a storage job; peers compete to host the file, and
//! the winner of a deterministic sortition records the assignment on an
//! append-only, hash-linked chain. Storers later prove possession of the file
//! by digesting a challenged byte range.
//!
//! Every function of this crate carries a contract that Verus proves, apart
//! from a small set of wrappers around outside crates whose contracts are
//! taken on trust; each of those says so in its documentation.

pub mod encoding;
pub mod utils;
pub mod identity;
pub mod transaction;
pub mod block;
pub mod storage_index;
pub mod blockchain;
pub mod randomized_election;
pub mod post;
pub mod node;
pub mod peers;
pub mod data;
pub mod signed_data;
pub mod mempool;
pub mod command;
pub mod dispatch;
