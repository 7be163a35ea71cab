//! Transactions: their content hash, their signature and the state transition
//! that each one makes on a ledger.

use vstd::prelude::*;
use vstd::string::*;
use vstd::utf8::encode_utf8;

use ed25519_dalek::Keypair;

use crate::account::{Account, AccountType, Balance, PublicKeyBytes, SignatureBytes};
use crate::crypto::{ed25519_sign, ed25519_verify, signature_accepted};
use crate::digest::{
    be_bytes, content_hash, hash_bytes, opt_text_field, opt_view, push_be, push_bytes,
    push_opt_text, push_text, text_field,
};
use crate::ledger::{Ledger, LedgerMap};
use crate::{AccountId, Timestamp};

verus! {

/// What a transaction does.
#[derive(Debug)]
pub enum TransactionData {
    /// Opens a user account under an id, with a verification key.
    CreateAccount(AccountId, PublicKeyBytes),
    /// Credits the initial supply to an account; allowed in the first block only.
    MintInitialSupply { to: AccountId, amount: Balance },
    /// Moves an amount from the sender to another account.
    Transfer { to: AccountId, amount: Balance },
}

/// Why a transaction was refused.
#[derive(Debug, PartialEq, Eq)]
pub enum TxError {
    /// An account with this id exists already.
    AccountExists(AccountId),
    /// The account to mint to does not exist.
    UnknownAccount,
    /// Minting outside the first block.
    NotGenesisMint,
    /// A transfer without a sender id.
    InvalidSenderId,
    /// A transfer from an account to itself.
    SelfTransfer,
    /// The sender's account does not exist.
    UnknownSender,
    /// The receiver's account does not exist.
    UnknownReceiver,
    /// The sender's balance is below the amount.
    InsufficientFunds,
    /// The signature does not check against the sender's key.
    InvalidSignature,
    /// The new balance would not fit.
    AmountOverflow,
}

/// A transaction: a payload, an optional sender and an optional signature.
#[derive(Debug)]
pub struct Transaction {
    nonce: u128,
    timestamp: Timestamp,
    from: Option<AccountId>,
    data: TransactionData,
    signature: Option<SignatureBytes>,
}

/// What a transaction holds, with texts and bytes as sequences.
pub struct TransactionView {
    pub nonce: u128,
    pub timestamp: Timestamp,
    pub from: Option<Seq<char>>,
    pub data: TransactionData,
    pub signature: Option<Seq<u8>>,
}

impl View for Transaction {
    type V = TransactionView;

    closed spec fn view(&self) -> TransactionView {
        TransactionView {
            nonce: self.nonce,
            timestamp: self.timestamp,
            from: opt_view(self.from),
            data: self.data,
            signature: match self.signature {
                None => None,
                Some(s) => Some(s@),
            },
        }
    }
}

/// The encoding of a payload: a tag byte, the account id, then the key or the
/// amount.
pub open spec fn payload_field(d: TransactionData) -> Seq<u8> {
    match d {
        TransactionData::CreateAccount(id, key) => seq![0u8] + text_field(id@) + key@,
        TransactionData::MintInitialSupply { to, amount } => seq![1u8] + text_field(to@)
            + be_bytes(amount as nat, 16),
        TransactionData::Transfer { to, amount } => seq![2u8] + text_field(to@) + be_bytes(
            amount as nat,
            16,
        ),
    }
}

/// The bytes that a transaction's content hash covers: nonce, timestamp, sender
/// and payload.
pub open spec fn tx_message(t: TransactionView) -> Seq<u8> {
    be_bytes(t.nonce as nat, 16) + be_bytes(t.timestamp as nat, 8) + opt_text_field(t.from)
        + payload_field(t.data)
}

/// A transaction's content hash.
pub open spec fn tx_hash(t: TransactionView) -> Seq<char> {
    content_hash(tx_message(t))
}

/// The transaction carries a signature of its content hash under `key`.
pub open spec fn signed_by(t: TransactionView, key: Seq<u8>) -> bool {
    match t.signature {
        Some(sig) => signature_accepted(key, encode_utf8(tx_hash(t)), sig),
        None => false,
    }
}

/// `a` with another balance.
pub open spec fn with_balance(a: Account, balance: int) -> Account {
    Account { account_type: a.account_type, balance: balance as u128, public_key: a.public_key }
}

/// The ledger after the transaction, or the reason it is refused. The checks
/// of a transfer come in this order: sender id, self transfer, sender,
/// receiver, funds, signature, overflow.
pub open spec fn tx_outcome(t: TransactionView, m: LedgerMap, is_genesis: bool) -> Result<
    LedgerMap,
    TxError,
> {
    match t.data {
        TransactionData::CreateAccount(id, key) => {
            if m.contains_key(id@) {
                Err(TxError::AccountExists(id))
            } else {
                Ok(
                    m.insert(
                        id@,
                        Account { account_type: AccountType::User, balance: 0, public_key: key },
                    ),
                )
            }
        },
        TransactionData::MintInitialSupply { to, amount } => {
            if !is_genesis {
                Err(TxError::NotGenesisMint)
            } else if !m.contains_key(to@) {
                Err(TxError::UnknownAccount)
            } else if m[to@].balance + amount > u128::MAX {
                Err(TxError::AmountOverflow)
            } else {
                Ok(m.insert(to@, with_balance(m[to@], m[to@].balance + amount)))
            }
        },
        TransactionData::Transfer { to, amount } => {
            match t.from {
                None => Err(TxError::InvalidSenderId),
                Some(from) => {
                    if from == to@ {
                        Err(TxError::SelfTransfer)
                    } else if !m.contains_key(from) {
                        Err(TxError::UnknownSender)
                    } else if !m.contains_key(to@) {
                        Err(TxError::UnknownReceiver)
                    } else if m[from].balance < amount {
                        Err(TxError::InsufficientFunds)
                    } else if !signed_by(t, m[from].public_key@) {
                        Err(TxError::InvalidSignature)
                    } else if m[to@].balance + amount > u128::MAX {
                        Err(TxError::AmountOverflow)
                    } else {
                        Ok(
                            m.insert(from, with_balance(m[from], m[from].balance - amount)).insert(
                                to@,
                                with_balance(m[to@], m[to@].balance + amount),
                            ),
                        )
                    }
                },
            }
        },
    }
}

/// The text of a transaction error.
pub open spec fn tx_error_text(e: TxError) -> Seq<char> {
    match e {
        TxError::AccountExists(id) => "AccountId already exist: "@ + id@,
        TxError::UnknownAccount => "Invalid account."@,
        TxError::NotGenesisMint => "Initial supply can be minted only in genesis block."@,
        TxError::InvalidSenderId => "Invalid sender account id."@,
        TxError::SelfTransfer => "Transfer to yourself."@,
        TxError::UnknownSender => "Invalid sender account."@,
        TxError::UnknownReceiver => "Invalid receiver account."@,
        TxError::InsufficientFunds => "Sender doesn't have enough currency."@,
        TxError::InvalidSignature => "Signature invalid."@,
        TxError::AmountOverflow => "Transfer amount overflow."@,
    }
}

impl TxError {
    /// The error as text.
    pub fn message(&self) -> (r: String)
        ensures
            r@ == tx_error_text(*self),
    {
        match self {
            TxError::AccountExists(id) => {
                let mut s = "AccountId already exist: ".to_owned();
                s.append(id.as_str());
                s
            },
            TxError::UnknownAccount => "Invalid account.".to_owned(),
            TxError::NotGenesisMint => "Initial supply can be minted only in genesis block.".to_owned(),
            TxError::InvalidSenderId => "Invalid sender account id.".to_owned(),
            TxError::SelfTransfer => "Transfer to yourself.".to_owned(),
            TxError::UnknownSender => "Invalid sender account.".to_owned(),
            TxError::UnknownReceiver => "Invalid receiver account.".to_owned(),
            TxError::InsufficientFunds => "Sender doesn't have enough currency.".to_owned(),
            TxError::InvalidSignature => "Signature invalid.".to_owned(),
            TxError::AmountOverflow => "Transfer amount overflow.".to_owned(),
        }
    }
}

impl Clone for TransactionData {
    fn clone(&self) -> (r: Self)
        ensures
            r == *self,
    {
        match self {
            TransactionData::CreateAccount(id, key) => TransactionData::CreateAccount(
                id.clone(),
                *key,
            ),
            TransactionData::MintInitialSupply { to, amount } => {
                TransactionData::MintInitialSupply { to: to.clone(), amount: *amount }
            },
            TransactionData::Transfer { to, amount } => {
                TransactionData::Transfer { to: to.clone(), amount: *amount }
            },
        }
    }
}

impl Clone for Transaction {
    fn clone(&self) -> (r: Self)
        ensures
            r == *self,
    {
        let from = match &self.from {
            None => None,
            Some(f) => Some(f.clone()),
        };
        Transaction {
            nonce: self.nonce,
            timestamp: self.timestamp,
            from,
            data: self.data.clone(),
            signature: self.signature,
        }
    }
}

impl Transaction {
    /// An unsigned transaction with nonce and timestamp zero.
    pub fn new(data: TransactionData, from: Option<AccountId>) -> (r: Self)
        ensures
            r@ == (TransactionView {
                nonce: 0,
                timestamp: 0,
                from: opt_view(from),
                data,
                signature: None,
            }),
    {
        Transaction { nonce: 0, timestamp: 0, from, data, signature: None }
    }

    /// The payload.
    pub fn data(&self) -> (r: &TransactionData)
        ensures
            *r == self@.data,
    {
        &self.data
    }

    /// The sender's id, if any.
    pub fn sender(&self) -> (r: Option<AccountId>)
        ensures
            opt_view(r) == self@.from,
    {
        match &self.from {
            None => None,
            Some(f) => Some(f.clone()),
        }
    }

    /// The attached signature, if any.
    pub fn signature(&self) -> (r: Option<SignatureBytes>)
        ensures
            match r {
                None => self@.signature is None,
                Some(s) => self@.signature == Some(s@),
            },
    {
        self.signature
    }

    /// The bytes that the content hash covers.
    pub fn message(&self) -> (r: Vec<u8>)
        ensures
            r@ == tx_message(self@),
    {
        let mut out: Vec<u8> = Vec::new();
        push_be(&mut out, self.nonce, 16);
        push_be(&mut out, self.timestamp as u128, 8);
        push_opt_text(&mut out, &self.from);
        match &self.data {
            TransactionData::CreateAccount(id, key) => {
                out.push(0u8);
                push_text(&mut out, id.as_str());
                push_bytes(&mut out, key);
            },
            TransactionData::MintInitialSupply { to, amount } => {
                out.push(1u8);
                push_text(&mut out, to.as_str());
                push_be(&mut out, *amount, 16);
            },
            TransactionData::Transfer { to, amount } => {
                out.push(2u8);
                push_text(&mut out, to.as_str());
                push_be(&mut out, *amount, 16);
            },
        }
        assert(out@ =~= tx_message(self@));
        out
    }

    /// The content hash.
    pub fn hash(&self) -> (r: String)
        ensures
            r@ == tx_hash(self@),
            r@.len() == 64,
    {
        let m = self.message();
        hash_bytes(m.as_slice())
    }

    /// Whether the transaction is signed with the key of `sender`.
    pub fn verify(&self, sender: &Account) -> (r: bool)
        ensures
            r == signed_by(self@, sender.public_key@),
    {
        match &self.signature {
            None => false,
            Some(sig) => {
                let h = self.hash();
                ed25519_verify(&sender.public_key, h.as_str().as_bytes(), sig)
            },
        }
    }

    /// Attaches a signature.
    pub fn set_sign(&mut self, signature: SignatureBytes)
        ensures
            final(self)@ == (TransactionView { signature: Some(signature@), ..old(self)@ }),
    {
        self.signature = Some(signature);
    }

    /// Signs the content hash with `keypair` and attaches the signature.
    pub fn sign(&mut self, keypair: &Keypair)
        ensures
            final(self)@.signature is Some,
            final(self)@ == (TransactionView { signature: final(self)@.signature, ..old(self)@ }),
    {
        let h = self.hash();
        let sig = ed25519_sign(keypair, h.as_str().as_bytes());
        self.set_sign(sig);
    }

    /// Applies the transaction to `ledger`. On success the ledger is the one
    /// that `tx_outcome` gives; on failure it is unchanged.
    pub fn execute(&self, ledger: &mut Ledger, is_genesis: bool) -> (r: Result<(), TxError>)
        requires
            old(ledger).wf(),
        ensures
            final(ledger).wf(),
            match tx_outcome(self@, old(ledger)@, is_genesis) {
                Ok(m) => r is Ok && final(ledger)@ == m,
                Err(e) => r == Err::<(), TxError>(e) && final(ledger)@ == old(ledger)@,
            },
    {
        match &self.data {
            TransactionData::CreateAccount(id, key) => {
                ledger.create_account(id.clone(), AccountType::User, *key)
            },
            TransactionData::MintInitialSupply { to, amount } => {
                if !is_genesis {
                    return Err(TxError::NotGenesisMint);
                }
                let account = match ledger.get_account(to.as_str()) {
                    None => {
                        return Err(TxError::UnknownAccount);
                    },
                    Some(a) => a,
                };
                let balance = match account.balance.checked_add(*amount) {
                    None => {
                        return Err(TxError::AmountOverflow);
                    },
                    Some(b) => b,
                };
                ledger.set_account(
                    to,
                    Account {
                        account_type: account.account_type,
                        balance,
                        public_key: account.public_key,
                    },
                );
                Ok(())
            },
            TransactionData::Transfer { to, amount } => {
                let from = match &self.from {
                    None => {
                        return Err(TxError::InvalidSenderId);
                    },
                    Some(f) => f,
                };
                if from.eq(to) {
                    return Err(TxError::SelfTransfer);
                }
                let sender = match ledger.get_account(from.as_str()) {
                    None => {
                        return Err(TxError::UnknownSender);
                    },
                    Some(a) => a,
                };
                let receiver = match ledger.get_account(to.as_str()) {
                    None => {
                        return Err(TxError::UnknownReceiver);
                    },
                    Some(a) => a,
                };
                if sender.balance < *amount {
                    return Err(TxError::InsufficientFunds);
                }
                if !self.verify(&sender) {
                    return Err(TxError::InvalidSignature);
                }
                let balance = match receiver.balance.checked_add(*amount) {
                    None => {
                        return Err(TxError::AmountOverflow);
                    },
                    Some(b) => b,
                };
                ledger.set_account(
                    from,
                    Account {
                        account_type: sender.account_type,
                        balance: sender.balance - *amount,
                        public_key: sender.public_key,
                    },
                );
                ledger.set_account(
                    to,
                    Account {
                        account_type: receiver.account_type,
                        balance,
                        public_key: receiver.public_key,
                    },
                );
                Ok(())
            },
        }
    }
}

} // verus!
