//! Blocks: an ordered list of transactions, a proof-of-work nonce, and a
//! self-hash that every mutation recomputes.

use vstd::prelude::*;
use vstd::utf8::encode_utf8;

use crate::bits::{compact_of, hex_value, is_target_text, meets_target, parse_target};
use crate::clock::get_timestamp;
use crate::digest::{
    be_bytes, content_hash, hash_bytes, opt_text_field, opt_view, push_be, push_bytes,
    push_opt_text,
};
use crate::transaction::{tx_hash, Transaction};
use crate::{Bits, Target, Timestamp};

verus! {

/// A block. Its stored hash is recomputed after each change made through its
/// methods, so `verify` fails only after the contents were changed in place.
#[derive(Debug)]
pub struct Block {
    nonce: u128,
    timestamp: Timestamp,
    hash: Option<String>,
    prev_hash: Option<String>,
    transactions: Vec<Transaction>,
}

/// What a block holds, with texts as sequences.
pub struct BlockView {
    pub nonce: u128,
    pub timestamp: Timestamp,
    pub hash: Option<Seq<char>>,
    pub prev_hash: Option<Seq<char>>,
    pub transactions: Seq<Transaction>,
}

impl View for Block {
    type V = BlockView;

    closed spec fn view(&self) -> BlockView {
        BlockView {
            nonce: self.nonce,
            timestamp: self.timestamp,
            hash: opt_view(self.hash),
            prev_hash: opt_view(self.prev_hash),
            transactions: self.transactions@,
        }
    }
}

/// The content hashes of the transactions, as text bytes, in order.
pub open spec fn tx_hashes_field(txs: Seq<Transaction>) -> Seq<u8>
    decreases txs.len(),
{
    if txs.len() == 0 {
        Seq::empty()
    } else {
        tx_hashes_field(txs.drop_last()) + encode_utf8(tx_hash(txs.last()@))
    }
}

/// The bytes that a block's hash covers: the previous hash, the nonce, then
/// the hash of each transaction.
pub open spec fn block_message(b: BlockView) -> Seq<u8> {
    opt_text_field(b.prev_hash) + be_bytes(b.nonce as nat, 16) + tx_hashes_field(b.transactions)
}

/// A block's hash, recomputed from its contents.
pub open spec fn block_hash(b: BlockView) -> Seq<char> {
    content_hash(block_message(b))
}

/// The hash that the block would have with nonce `n`.
pub open spec fn hash_at_nonce(b: BlockView, n: u128) -> Seq<char> {
    block_hash(BlockView { nonce: n, ..b })
}

/// The stored hash is the hash of the current contents.
pub open spec fn is_sealed(b: BlockView) -> bool {
    b.hash == Some(block_hash(b))
}

/// The stored hash meets the target.
pub open spec fn stored_hash_meets(b: BlockView, target: int) -> bool {
    match b.hash {
        Some(h) => meets_target(h, target),
        None => false,
    }
}

impl Clone for Block {
    fn clone(&self) -> (r: Self)
        ensures
            r@ == self@,
    {
        let mut transactions: Vec<Transaction> = Vec::new();
        let n = self.transactions.len();
        let mut i: usize = 0;
        while i < n
            invariant
                n == self.transactions@.len(),
                i <= n,
                transactions@ == self.transactions@.subrange(0, i as int),
            decreases n - i,
        {
            transactions.push(self.transactions[i].clone());
            i = i + 1;
            assert(transactions@ =~= self.transactions@.subrange(0, i as int));
        }
        assert(transactions@ =~= self.transactions@);
        Block {
            nonce: self.nonce,
            timestamp: self.timestamp,
            hash: match &self.hash {
                None => None,
                Some(h) => Some(h.clone()),
            },
            prev_hash: match &self.prev_hash {
                None => None,
                Some(h) => Some(h.clone()),
            },
            transactions,
        }
    }
}

impl Block {
    /// An empty block after `prev_hash`, stamped with `timestamp`, nonce zero,
    /// its hash computed.
    pub fn new_at(prev_hash: Option<String>, timestamp: Timestamp) -> (r: Self)
        ensures
            r@.prev_hash == opt_view(prev_hash),
            r@.timestamp == timestamp,
            r@.nonce == 0,
            r@.transactions == Seq::<Transaction>::empty(),
            is_sealed(r@),
    {
        let mut block = Block { nonce: 0, timestamp, hash: None, prev_hash, transactions: Vec::new() };
        block.update_hash();
        block
    }

    /// An empty block after `prev_hash`, stamped with the current time (see
    /// `new_at`).
    pub fn new(prev_hash: Option<String>) -> (r: Self)
        ensures
            r@.prev_hash == opt_view(prev_hash),
            r@.nonce == 0,
            r@.transactions == Seq::<Transaction>::empty(),
            is_sealed(r@),
    {
        Block::new_at(prev_hash, get_timestamp())
    }

    /// The content hashes of the transactions, as text bytes, in order.
    fn tx_hashes(&self) -> (r: Vec<u8>)
        ensures
            r@ == tx_hashes_field(self@.transactions),
    {
        let mut out: Vec<u8> = Vec::new();
        let n = self.transactions.len();
        let mut i: usize = 0;
        while i < n
            invariant
                n == self.transactions@.len(),
                i <= n,
                out@ == tx_hashes_field(self.transactions@.subrange(0, i as int)),
            decreases n - i,
        {
            let h = self.transactions[i].hash();
            push_bytes(&mut out, h.as_str().as_bytes());
            assert(self.transactions@.subrange(0, i + 1).drop_last() =~= self.transactions@.subrange(
                0,
                i as int,
            ));
            i = i + 1;
        }
        assert(self.transactions@.subrange(0, n as int) =~= self.transactions@);
        out
    }

    /// The hash of the current contents, given the transactions' part.
    fn hash_with(&self, tail: &Vec<u8>) -> (r: String)
        requires
            tail@ == tx_hashes_field(self@.transactions),
        ensures
            r@ == block_hash(self@),
            r@.len() == 64,
    {
        let mut out: Vec<u8> = Vec::new();
        push_opt_text(&mut out, &self.prev_hash);
        push_be(&mut out, self.nonce, 16);
        push_bytes(&mut out, tail.as_slice());
        assert(out@ =~= block_message(self@));
        hash_bytes(out.as_slice())
    }

    /// The bytes that the hash covers.
    pub fn message(&self) -> (r: Vec<u8>)
        ensures
            r@ == block_message(self@),
    {
        let mut out: Vec<u8> = Vec::new();
        push_opt_text(&mut out, &self.prev_hash);
        push_be(&mut out, self.nonce, 16);
        let tail = self.tx_hashes();
        push_bytes(&mut out, tail.as_slice());
        assert(out@ =~= block_message(self@));
        out
    }

    /// The hash of the current contents.
    pub fn hash(&self) -> (r: String)
        ensures
            r@ == block_hash(self@),
            r@.len() == 64,
    {
        let tail = self.tx_hashes();
        self.hash_with(&tail)
    }

    fn update_hash(&mut self)
        ensures
            final(self)@ == (BlockView { hash: Some(block_hash(old(self)@)), ..old(self)@ }),
    {
        self.hash = Some(self.hash());
    }

    /// Sets the proof-of-work nonce and recomputes the hash.
    pub fn set_nonce(&mut self, nonce: u128)
        ensures
            final(self)@.nonce == nonce,
            final(self)@.timestamp == old(self)@.timestamp,
            final(self)@.prev_hash == old(self)@.prev_hash,
            final(self)@.transactions == old(self)@.transactions,
            is_sealed(final(self)@),
    {
        self.nonce = nonce;
        self.update_hash();
    }

    /// Appends a transaction and recomputes the hash.
    pub fn add_transaction(&mut self, transaction: Transaction)
        ensures
            final(self)@.nonce == old(self)@.nonce,
            final(self)@.timestamp == old(self)@.timestamp,
            final(self)@.prev_hash == old(self)@.prev_hash,
            final(self)@.transactions == old(self)@.transactions.push(transaction),
            is_sealed(final(self)@),
    {
        self.transactions.push(transaction);
        self.update_hash();
    }

    /// Whether the stored hash is the hash of the current contents.
    pub fn verify(&self) -> (r: bool)
        ensures
            r == is_sealed(self@),
    {
        match &self.hash {
            None => false,
            Some(h) => {
                let fresh = self.hash();
                h.eq(&fresh)
            },
        }
    }

    /// The stored hash.
    pub fn stored_hash(&self) -> (r: &Option<String>)
        ensures
            opt_view(*r) == self@.hash,
    {
        &self.hash
    }

    /// The hash of the previous block, if any.
    pub fn prev_hash(&self) -> (r: &Option<String>)
        ensures
            opt_view(*r) == self@.prev_hash,
    {
        &self.prev_hash
    }

    /// The proof-of-work nonce.
    pub fn nonce(&self) -> (r: u128)
        ensures
            r == self@.nonce,
    {
        self.nonce
    }

    /// When the block was made.
    pub fn timestamp(&self) -> (r: Timestamp)
        ensures
            r == self@.timestamp,
    {
        self.timestamp
    }

    /// The transactions, in order.
    pub fn transactions(&self) -> (r: &Vec<Transaction>)
        ensures
            r@ == self@.transactions,
    {
        &self.transactions
    }

    /// In-place access to a transaction. The hash is not recomputed: a change
    /// made here is what `verify` detects.
    pub fn transaction_mut(&mut self, index: usize) -> (r: &mut Transaction)
        requires
            index < old(self)@.transactions.len(),
        ensures
            *r == old(self)@.transactions[index as int],
            final(self)@ == (BlockView {
                transactions: old(self)@.transactions.update(index as int, *final(r)),
                ..old(self)@
            }),
    {
        &mut self.transactions[index]
    }

    /// Whether the stored hash meets `target`.
    pub fn meets(&self, target: Bits) -> (r: bool)
        ensures
            r == stored_hash_meets(self@, target as int),
    {
        match &self.hash {
            None => false,
            Some(h) => match compact_of(h.as_str()) {
                None => false,
                Some(v) => v < target,
            },
        }
    }

    /// One mining step: `true` if the stored hash meets `target`; otherwise
    /// the nonce goes up by one (unless it is at its maximum) and `false`.
    pub fn mine_step(&mut self, target: Bits) -> (r: bool)
        ensures
            r == stored_hash_meets(old(self)@, target as int),
            r || old(self)@.nonce == u128::MAX ==> final(self)@ == old(self)@,
            !r && old(self)@.nonce < u128::MAX ==> final(self)@.nonce == old(self)@.nonce + 1
                && is_sealed(final(self)@),
            final(self)@.timestamp == old(self)@.timestamp,
            final(self)@.prev_hash == old(self)@.prev_hash,
            final(self)@.transactions == old(self)@.transactions,
    {
        if self.meets(target) {
            return true;
        }
        if self.nonce < u128::MAX {
            self.set_nonce(self.nonce + 1);
        }
        false
    }

    /// Raises the nonce one at a time until the stored hash meets `target`
    /// (hexadecimal), or the nonce reaches its maximum. Every nonce passed over
    /// fails the target, so a block that already meets it keeps its nonce.
    pub fn mine(&mut self, target: Target)
        requires
            is_target_text(target@),
        ensures
            stored_hash_meets(final(self)@, hex_value(target@)) || final(self)@.nonce == u128::MAX,
            final(self)@.nonce >= old(self)@.nonce,
            final(self)@.timestamp == old(self)@.timestamp,
            final(self)@.prev_hash == old(self)@.prev_hash,
            final(self)@.transactions == old(self)@.transactions,
            is_sealed(old(self)@) ==> is_sealed(final(self)@),
            is_sealed(old(self)@) ==> forall|n: u128|
                old(self)@.nonce <= n < final(self)@.nonce ==> !meets_target(
                    #[trigger] hash_at_nonce(old(self)@, n),
                    hex_value(target@),
                ),
    {
        let t = match parse_target(target.as_str()) {
            Some(t) => t,
            None => 0,
        };
        let tail = self.tx_hashes();
        while !self.meets(t) && self.nonce < u128::MAX
            invariant
                t as int == hex_value(target@),
                tail@ == tx_hashes_field(self@.transactions),
                self@.timestamp == old(self)@.timestamp,
                self@.prev_hash == old(self)@.prev_hash,
                self@.transactions == old(self)@.transactions,
                is_sealed(old(self)@) ==> is_sealed(self@),
                self@.nonce >= old(self)@.nonce,
                is_sealed(old(self)@) ==> forall|n: u128|
                    old(self)@.nonce <= n < self@.nonce ==> !meets_target(
                        #[trigger] hash_at_nonce(old(self)@, n),
                        t as int,
                    ),
            decreases u128::MAX - self@.nonce,
        {
            let ghost current = self@;
            proof {
                if is_sealed(old(self)@) {
                    assert(block_message(current) == block_message(
                        BlockView { nonce: current.nonce, ..old(self)@ },
                    ));
                    assert(current.hash == Some(hash_at_nonce(old(self)@, current.nonce)));
                }
            }
            self.nonce = self.nonce + 1;
            self.hash = Some(self.hash_with(&tail));
        }
    }
}

} // verus!
