//! Accounting and eligibility core of a token sale: allow-list membership
//! proofs over a Merkle root, and a deposit ledger that enforces per-wallet
//! caps with overflow-checked running totals under a freeze switch.
pub mod error;
pub mod hashing;
pub mod merkle_proof;
pub mod state;
pub mod trim;
pub mod sstars_ido_contract;
pub mod whitelist;
