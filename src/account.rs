//! Accounts and their kinds.

use vstd::prelude::*;

verus! {

/// An amount of currency.
pub type Balance = u128;

/// The bytes of an ed25519 verification key.
pub type PublicKeyBytes = [u8; 32];

/// The bytes of an ed25519 signature.
pub type SignatureBytes = [u8; 64];

/// Who holds an account.
#[derive(Debug, Clone, Copy, PartialEq, Eq, Structural)]
pub enum AccountType {
    User,
    Contract,
}

/// An account: its kind, its balance and the key that authorises its transfers.
#[derive(Debug, Clone, Copy)]
pub struct Account {
    pub account_type: AccountType,
    pub balance: Balance,
    pub public_key: PublicKeyBytes,
}

impl Account {
    /// A new account with a zero balance.
    pub fn new(account_type: AccountType, public_key: PublicKeyBytes) -> (r: Self)
        ensures
            r == (Account { account_type, balance: 0, public_key }),
    {
        Account { account_type, balance: 0, public_key }
    }
}

} // verus!
