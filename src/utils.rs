//! Helpers for building transactions and blocks.

use vstd::prelude::*;

use ed25519_dalek::Keypair;

use crate::account::{Balance, PublicKeyBytes};
use crate::block::{is_sealed, Block};
use crate::blockchain::{append_outcome, last_hash, BlockError, Blockchain};
use crate::crypto::{generate_keypair, keypair_public_key};
use crate::digest::{be_bytes, content_hash, hash_bytes, push_be};
use crate::transaction::{Transaction, TransactionData, TransactionView};
use crate::AccountId;

pub use crate::bits::get_bits_from_hash;
pub use crate::clock::get_timestamp;

verus! {

/// The account id drawn from a seed: the content hash of its sixteen bytes.
pub fn account_id_from_seed(seed: u128) -> (r: AccountId)
    ensures
        r@ == content_hash(be_bytes(seed as nat, 16)),
{
    let mut bytes: Vec<u8> = Vec::new();
    push_be(&mut bytes, seed, 16);
    hash_bytes(bytes.as_slice())
}

/// A random account id.
pub fn generate_account_id() -> (r: AccountId)
    ensures
        exists|seed: u128| r@ == content_hash(be_bytes(seed as nat, 16)),
{
    let seed: u128 = rand::random();
    account_id_from_seed(seed)
}

/// A fresh key pair and the transaction that opens `account_id` with its
/// public key.
pub fn create_account_tx(account_id: AccountId) -> (r: (Keypair, Transaction))
    ensures
        exists|key: PublicKeyBytes|
            r.1@ == (TransactionView {
                nonce: 0,
                timestamp: 0,
                from: None,
                data: TransactionData::CreateAccount(account_id, key),
                signature: None,
            }),
{
    let keypair = generate_keypair();
    let key = keypair_public_key(&keypair);
    let tx = Transaction::new(TransactionData::CreateAccount(account_id, key), None);
    (keypair, tx)
}

/// The transaction that mints `amount` to `account_id`.
pub fn mint_initial_supply(account_id: AccountId, amount: Balance) -> (r: Transaction)
    ensures
        r@ == (TransactionView {
            nonce: 0,
            timestamp: 0,
            from: None,
            data: TransactionData::MintInitialSupply { to: account_id, amount },
            signature: None,
        }),
{
    Transaction::new(TransactionData::MintInitialSupply { to: account_id, amount }, None)
}

/// The unsigned transaction that moves `amount` from `from` to `to`.
pub fn create_transfer_tx(from: AccountId, to: AccountId, amount: Balance) -> (r: Transaction)
    ensures
        r@ == (TransactionView {
            nonce: 0,
            timestamp: 0,
            from: Some(from@),
            data: TransactionData::Transfer { to, amount },
            signature: None,
        }),
{
    Transaction::new(TransactionData::Transfer { to, amount }, Some(from))
}

/// Builds a block on the newest one with the given nonce and transactions,
/// and submits it.
pub fn append_block_with_tx(bc: &mut Blockchain, nonce: u128, transactions: Vec<Transaction>) -> (r:
    Result<(), BlockError>)
    requires
        old(bc).wf(),
    ensures
        final(bc).wf(),
        exists|b: Block, now: u64|
            b@.prev_hash == last_hash(old(bc)@) && b@.nonce == nonce && b@.transactions
                == transactions@ && is_sealed(b@) && (final(bc)@, r) == append_outcome(
                old(bc)@,
                b,
                now,
            ),
{
    let mut block = Block::new(bc.get_last_block_hash());
    block.set_nonce(nonce);
    let n = transactions.len();
    let mut i: usize = 0;
    while i < n
        invariant
            n == transactions@.len(),
            i <= n,
            block@.prev_hash == last_hash(bc@),
            block@.nonce == nonce,
            block@.transactions == transactions@.subrange(0, i as int),
            is_sealed(block@),
        decreases n - i,
    {
        block.add_transaction(transactions[i].clone());
        i = i + 1;
        assert(block@.transactions =~= transactions@.subrange(0, i as int));
    }
    assert(transactions@.subrange(0, n as int) =~= transactions@);
    bc.append_block(block)
}

/// Builds a block on the newest one that opens a random account, with the
/// given nonce, and submits it. On acceptance, returns a copy of the block.
pub fn append_block(bc: &mut Blockchain, nonce: u128) -> (r: Result<Block, BlockError>)
    requires
        old(bc).wf(),
    ensures
        final(bc).wf(),
        exists|b: Block, now: u64|
            b@.prev_hash == last_hash(old(bc)@) && b@.nonce == nonce && b@.transactions.len() == 1
                && b@.transactions[0]@.data is CreateAccount && is_sealed(b@) && (
            final(bc)@,
            match r {
                Ok(_) => Ok(()),
                Err(e) => Err(e),
            },
        ) == append_outcome(old(bc)@, b, now) && (r is Ok ==> r->Ok_0@ == b@),
{
    let mut block = Block::new(bc.get_last_block_hash());
    let (_keypair, tx) = create_account_tx(generate_account_id());
    block.set_nonce(nonce);
    block.add_transaction(tx);
    let copy = block.clone();
    match bc.append_block(block) {
        Ok(()) => Ok(copy),
        Err(e) => Err(e),
    }
}

} // verus!
