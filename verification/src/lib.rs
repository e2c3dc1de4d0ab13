//! An in-memory, append-only ledger: pending transfers are sealed into blocks,
//! each block commits to its transfers through a Merkle root and to its
//! predecessor through a hash link, and every block header carries a
//! proof-of-work nonce.

pub mod canonical;
pub mod chain;
pub mod digest;
pub mod merkle;
pub mod pow;
pub mod record;
