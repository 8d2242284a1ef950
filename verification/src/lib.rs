//! A deterministic block-replay engine for a slotted, proof-of-stake
//! chain: it advances a chain state slot by slot, applies an ordered list
//! of signed blocks to it, resolves the state root needed for each
//! advancement from the cheapest available source, and verifies the
//! signature and Merkle inclusion proof of every embedded deposit.
//!
//! The transition rules, the root resolution and their laws are stated as
//! specifications and proved; the SHA-256 and BLS primitives are called
//! through narrow trusted declarations over the `ethereum_hashing` and
//! `blst` crates.

pub mod block;
pub mod bytes;
pub mod bls;
pub mod config;
pub mod deposit;
pub mod errors;
pub mod hashing;
pub mod hooks;
pub mod laws;
pub mod merkle;
pub mod replay;
pub mod resolver;
pub mod roots;
pub mod state;
pub mod transition;
