//! A single-process ledger that admits blocks of account transactions behind a
//! proof-of-work gate, with every state transition stated and proved.

use vstd::prelude::*;

pub mod account;
pub mod bits;
pub mod block;
pub mod blockchain;
pub mod chain;
mod clock;
mod crypto;
pub mod digest;
pub mod ledger;
pub mod text;
pub mod transaction;
pub mod utils;

pub use account::{Account, AccountType, Balance, PublicKeyBytes, SignatureBytes};
pub use block::Block;
pub use blockchain::{
    BlockError, Blockchain, ChainError, Difficulty, EXPECTED_INTERVAL, MAX_TARGET,
};
pub use chain::Chain;
pub use ledger::Ledger;
pub use transaction::{Transaction, TransactionData, TxError};

verus! {

/// A content hash: lowercase hexadecimal text.
pub type Hash = String;

/// A compact proof-of-work value: exponent byte, then a three-byte coefficient.
pub type Bits = i32;

/// The unique key of an account.
pub type AccountId = String;

/// A proof-of-work target, written in hexadecimal.
pub type Target = String;

/// Seconds since the Unix epoch.
pub type Timestamp = u64;

} // verus!
