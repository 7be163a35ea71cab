//! The orchestrator: the chain of accepted blocks, the ledger, and the
//! difficulty engine that gates each block behind proof of work.

use vstd::prelude::*;
use vstd::string::*;

use crate::account::{Account, AccountType, PublicKeyBytes};
use crate::bits::{lower_hex, meets_target, target_text};
use crate::block::{block_hash, is_sealed, Block};
use crate::chain::Chain;
use crate::clock::get_timestamp;
use crate::digest::opt_view;
use crate::ledger::{apply_txs, Ledger, LedgerMap};
use crate::text::{decimal, decimal_text};
use crate::transaction::{tx_error_text, tx_outcome, Transaction, TxError};
use crate::{AccountId, Bits, Target, Timestamp};

verus! {

/// The easiest target that retargeting may reach.
pub const MAX_TARGET: Bits = 0x1effffff;

/// The time, in seconds, that the retarget rule expects.
pub const EXPECTED_INTERVAL: u64 = 2016 * 10 * 60;

/// The retarget multiplier, as the ratio `numerator / denominator`.
#[derive(Debug, Clone, Copy, PartialEq, Eq, Structural)]
pub struct Difficulty {
    pub numerator: u64,
    pub denominator: u64,
}

/// Why a block was refused.
#[derive(Debug, PartialEq, Eq)]
pub enum BlockError {
    /// The stored hash is not the hash of the contents.
    InvalidHash,
    /// The block holds no transaction.
    EmptyBlock,
    /// A transaction was refused; the ledger is as it was.
    Transaction(TxError),
    /// The hash does not meet the freshly retargeted target.
    HashAboveTarget,
}

/// The first fault that `validate` finds, with the position of the block
/// (counting from 1 at the first block).
#[derive(Debug, Clone, Copy, PartialEq, Eq, Structural)]
pub enum ChainError {
    /// The block's stored hash is not the hash of its contents.
    InvalidHash(usize),
    /// A block after the first has no previous hash.
    MissingPrevHash(usize),
    /// The first block has a previous hash.
    GenesisPrevHash,
    /// The block's previous hash is not the stored hash of the block before it.
    HashMismatch(usize),
}

/// The text of a block error.
pub open spec fn block_error_text(e: BlockError) -> Seq<char> {
    match e {
        BlockError::InvalidHash => "Block has invalid hash"@,
        BlockError::EmptyBlock => "Block has 0 transactions."@,
        BlockError::Transaction(t) => "Error during tx execution: "@ + tx_error_text(t),
        BlockError::HashAboveTarget => "Hash greater than target"@,
    }
}

impl BlockError {
    /// The error as text.
    pub fn message(&self) -> (r: String)
        ensures
            r@ == block_error_text(*self),
    {
        match self {
            BlockError::InvalidHash => "Block has invalid hash".to_owned(),
            BlockError::EmptyBlock => "Block has 0 transactions.".to_owned(),
            BlockError::Transaction(t) => {
                let mut s = "Error during tx execution: ".to_owned();
                s.append(t.message().as_str());
                s
            },
            BlockError::HashAboveTarget => "Hash greater than target".to_owned(),
        }
    }
}

/// The text of a chain fault.
pub open spec fn chain_error_text(e: ChainError) -> Seq<char> {
    match e {
        ChainError::InvalidHash(n) => "Block "@ + decimal(n as nat) + " has invalid hash"@,
        ChainError::MissingPrevHash(n) => "Block "@ + decimal(n as nat) + " doesn't have prev_hash"@,
        ChainError::GenesisPrevHash => "Genesis block shouldn't have prev_hash"@,
        ChainError::HashMismatch(n) => "Block "@ + decimal(n as nat) + " prev_hash doesn't match Block "@
            + decimal(if n > 0 {
            (n - 1) as nat
        } else {
            0
        }) + " hash"@,
    }
}

impl ChainError {
    /// The fault as text.
    pub fn message(&self) -> (r: String)
        ensures
            r@ == chain_error_text(*self),
    {
        match self {
            ChainError::InvalidHash(n) => {
                let mut s = "Block ".to_owned();
                s.append(decimal_text(*n).as_str());
                s.append(" has invalid hash");
                s
            },
            ChainError::MissingPrevHash(n) => {
                let mut s = "Block ".to_owned();
                s.append(decimal_text(*n).as_str());
                s.append(" doesn't have prev_hash");
                s
            },
            ChainError::GenesisPrevHash => "Genesis block shouldn't have prev_hash".to_owned(),
            ChainError::HashMismatch(n) => {
                let mut s = "Block ".to_owned();
                s.append(decimal_text(*n).as_str());
                s.append(" prev_hash doesn't match Block ");
                let before = if *n > 0 {
                    *n - 1
                } else {
                    0
                };
                s.append(decimal_text(before).as_str());
                s.append(" hash");
                s
            },
        }
    }
}

/// The chain, the ledger and the proof-of-work state.
pub struct Blockchain {
    blocks: Chain<Block>,
    accounts: Ledger,
    target: Bits,
    difficulty: Difficulty,
    first_block_timestamp: Timestamp,
    last_block_timestamp: Timestamp,
}

/// What a blockchain holds.
pub struct BlockchainView {
    pub blocks: Seq<Block>,
    pub accounts: LedgerMap,
    pub target: Bits,
    pub difficulty: Difficulty,
    pub first_block_timestamp: Timestamp,
    pub last_block_timestamp: Timestamp,
}

impl View for Blockchain {
    type V = BlockchainView;

    closed spec fn view(&self) -> BlockchainView {
        BlockchainView {
            blocks: self.blocks@,
            accounts: self.accounts@,
            target: self.target,
            difficulty: self.difficulty,
            first_block_timestamp: self.first_block_timestamp,
            last_block_timestamp: self.last_block_timestamp,
        }
    }
}

/// The hash of the newest block, recomputed; none for an empty chain.
pub open spec fn last_hash(s: BlockchainView) -> Option<Seq<char>> {
    if s.blocks.len() == 0 {
        None
    } else {
        Some(block_hash(s.blocks.last()@))
    }
}

/// The multiplier for the time from the first to the last block; a clock that
/// went backwards counts as no time.
pub open spec fn difficulty_of(first: Timestamp, last: Timestamp) -> Difficulty {
    Difficulty {
        numerator: if last >= first {
            (last - first) as u64
        } else {
            0
        },
        denominator: EXPECTED_INTERVAL,
    }
}

/// The target times the multiplier, rounded down, and at most `MAX_TARGET`.
pub open spec fn retarget(target: Bits, d: Difficulty) -> Bits {
    let t = (target as int) * (d.numerator as int) / (d.denominator as int);
    if t > MAX_TARGET {
        MAX_TARGET
    } else {
        t as Bits
    }
}

/// The state after `append_block_at(b, now)` on `s`, and its result.
pub open spec fn append_outcome(s: BlockchainView, b: Block, now: Timestamp) -> (
    BlockchainView,
    Result<(), BlockError>,
) {
    if !is_sealed(b@) {
        (s, Err(BlockError::InvalidHash))
    } else if b@.transactions.len() == 0 {
        (s, Err(BlockError::EmptyBlock))
    } else {
        let is_genesis = s.blocks.len() == 0;
        match apply_txs(s.accounts, b@.transactions, is_genesis) {
            Err(e) => (s, Err(BlockError::Transaction(e))),
            Ok(accounts) => {
                if is_genesis {
                    (
                        BlockchainView {
                            blocks: s.blocks.push(b),
                            accounts,
                            first_block_timestamp: now,
                            last_block_timestamp: now,
                            ..s
                        },
                        Ok(()),
                    )
                } else {
                    let difficulty = difficulty_of(s.first_block_timestamp, s.last_block_timestamp);
                    let target = retarget(s.target, difficulty);
                    let gated = BlockchainView { difficulty, target, ..s };
                    if meets_target(block_hash(b@), target as int) {
                        (
                            BlockchainView {
                                blocks: s.blocks.push(b),
                                accounts,
                                last_block_timestamp: now,
                                ..gated
                            },
                            Ok(()),
                        )
                    } else {
                        (gated, Err(BlockError::HashAboveTarget))
                    }
                }
            },
        }
    }
}

/// The fault of the block at index `i`, if any: its hash, its previous hash,
/// and the link from the block after it.
pub open spec fn block_fault(blocks: Seq<Block>, i: int) -> Option<ChainError> {
    let b = blocks[i]@;
    if !is_sealed(b) {
        Some(ChainError::InvalidHash((i + 1) as usize))
    } else if i != 0 && b.prev_hash is None {
        Some(ChainError::MissingPrevHash((i + 1) as usize))
    } else if i == 0 && b.prev_hash is Some {
        Some(ChainError::GenesisPrevHash)
    } else if i + 1 < blocks.len() && blocks[i + 1]@.prev_hash is Some && blocks[i
        + 1]@.prev_hash != b.hash {
        Some(ChainError::HashMismatch((i + 2) as usize))
    } else {
        None
    }
}

/// The first fault among the blocks below index `n`, looking from the newest.
pub open spec fn first_fault(blocks: Seq<Block>, n: int) -> Option<ChainError>
    decreases n,
{
    if n <= 0 {
        None
    } else {
        match block_fault(blocks, n - 1) {
            Some(e) => Some(e),
            None => first_fault(blocks, n - 1),
        }
    }
}

/// What `validate` returns.
pub open spec fn validation(blocks: Seq<Block>) -> Result<(), ChainError> {
    match first_fault(blocks, blocks.len() as int) {
        Some(e) => Err(e),
        None => Ok(()),
    }
}

impl Blockchain {
    /// The ledger is well formed and the target lies in `0..=MAX_TARGET`.
    pub closed spec fn wf(&self) -> bool {
        &&& self.accounts.wf()
        &&& 0 <= self.target <= MAX_TARGET
        &&& self.difficulty.denominator > 0
    }

    /// An empty chain with the easiest target and a multiplier of one.
    pub fn new() -> (r: Self)
        ensures
            r.wf(),
            r@.blocks == Seq::<Block>::empty(),
            r@.accounts == LedgerMap::empty(),
            r@.target == MAX_TARGET,
            r@.difficulty == (Difficulty { numerator: 1, denominator: 1 }),
            r@.first_block_timestamp == 0,
            r@.last_block_timestamp == 0,
    {
        Blockchain {
            blocks: Chain::new(),
            accounts: Ledger::new(),
            target: MAX_TARGET,
            difficulty: Difficulty { numerator: 1, denominator: 1 },
            first_block_timestamp: 0,
            last_block_timestamp: 0,
        }
    }

    /// The number of blocks.
    pub fn len(&self) -> (r: usize)
        ensures
            r == self@.blocks.len(),
    {
        self.blocks.len()
    }

    /// The current target, in lowercase hexadecimal.
    pub fn target(&self) -> (r: Target)
        requires
            self.wf(),
        ensures
            r@ == lower_hex(self@.target as nat),
    {
        target_text(self.target)
    }

    /// The current target.
    pub fn target_bits(&self) -> (r: Bits)
        ensures
            r == self@.target,
    {
        self.target
    }

    /// The current retarget multiplier.
    pub fn difficulty(&self) -> (r: Difficulty)
        ensures
            r == self@.difficulty,
    {
        self.difficulty
    }

    /// The ledger.
    pub fn ledger(&self) -> (r: &Ledger)
        requires
            self.wf(),
        ensures
            r.wf(),
            r@ == self@.accounts,
    {
        &self.accounts
    }

    /// Opens an account directly in the ledger, unless the id is taken.
    pub fn create_account(
        &mut self,
        account_id: AccountId,
        account_type: AccountType,
        public_key: PublicKeyBytes,
    ) -> (r: Result<(), TxError>)
        requires
            old(self).wf(),
        ensures
            final(self).wf(),
            old(self)@.accounts.contains_key(account_id@) ==> r == Err::<(), TxError>(
                TxError::AccountExists(account_id),
            ) && final(self)@ == old(self)@,
            !old(self)@.accounts.contains_key(account_id@) ==> r is Ok && final(self)@ == (
            BlockchainView {
                accounts: old(self)@.accounts.insert(
                    account_id@,
                    Account { account_type, balance: 0, public_key },
                ),
                ..old(self)@
            }),
    {
        self.accounts.create_account(account_id, account_type, public_key)
    }

    /// The account with this id, if any.
    pub fn get_account_by_id(&self, account_id: AccountId) -> (r: Option<Account>)
        requires
            self.wf(),
        ensures
            r == (if self@.accounts.contains_key(account_id@) {
                Some(self@.accounts[account_id@])
            } else {
                None::<Account>
            }),
    {
        self.accounts.get_account(account_id.as_str())
    }

    /// The block at `index`, counting from 0 at the first block.
    pub fn block(&self, index: usize) -> (r: &Block)
        requires
            index < self@.blocks.len(),
        ensures
            *r == self@.blocks[index as int],
    {
        self.blocks.get(index)
    }

    /// In-place access to a committed block. Nothing is recomputed: a change
    /// made here is what `validate` detects.
    pub fn block_mut(&mut self, index: usize) -> (r: &mut Block)
        requires
            old(self).wf(),
            index < old(self)@.blocks.len(),
        ensures
            final(self).wf(),
            *r == old(self)@.blocks[index as int],
            final(self)@ == (BlockchainView {
                blocks: old(self)@.blocks.update(index as int, *final(r)),
                ..old(self)@
            }),
    {
        self.blocks.get_mut(index)
    }

    /// Sets the multiplier from the time between the first and the last block
    /// and the expected interval.
    pub fn update_difficulty(&mut self)
        requires
            old(self).wf(),
        ensures
            final(self).wf(),
            final(self)@ == (BlockchainView {
                difficulty: difficulty_of(
                    old(self)@.first_block_timestamp,
                    old(self)@.last_block_timestamp,
                ),
                ..old(self)@
            }),
    {
        let elapsed = if self.last_block_timestamp >= self.first_block_timestamp {
            self.last_block_timestamp - self.first_block_timestamp
        } else {
            0
        };
        self.difficulty = Difficulty { numerator: elapsed, denominator: EXPECTED_INTERVAL };
    }

    /// Multiplies the target by the multiplier, up to `MAX_TARGET`.
    pub fn update_target(&mut self)
        requires
            old(self).wf(),
        ensures
            final(self).wf(),
            final(self)@ == (BlockchainView {
                target: retarget(old(self)@.target, old(self)@.difficulty),
                ..old(self)@
            }),
    {
        let ghost num = self.difficulty.numerator as int;
        assert((self.target as int) * num <= (MAX_TARGET as int) * 0x1_0000_0000_0000_0000)
            by (nonlinear_arith)
            requires
                0 <= self.target <= MAX_TARGET,
                0 <= num < 0x1_0000_0000_0000_0000,
        ;
        let product = (self.target as u128) * (self.difficulty.numerator as u128);
        let t = product / (self.difficulty.denominator as u128);
        self.target = if t > MAX_TARGET as u128 {
            MAX_TARGET
        } else {
            t as Bits
        };
    }

    /// The hash of the newest block, recomputed, or `None` for an empty chain.
    pub fn get_last_block_hash(&self) -> (r: Option<String>)
        ensures
            opt_view(r) == last_hash(self@),
    {
        match self.blocks.head() {
            None => None,
            Some(b) => Some(b.hash()),
        }
    }

    /// Submits a block, made at time `now`: its hash must be current, it must
    /// hold transactions, each must apply in order, and after the first block
    /// its hash must meet the freshly retargeted target. A refused block
    /// leaves the ledger as it was.
    pub fn append_block_at(&mut self, block: Block, now: Timestamp) -> (r: Result<(), BlockError>)
        requires
            old(self).wf(),
        ensures
            final(self).wf(),
            (final(self)@, r) == append_outcome(old(self)@, block, now),
            r is Err ==> final(self)@.accounts == old(self)@.accounts && final(self)@.blocks
                == old(self)@.blocks,
    {
        if !block.verify() {
            return Err(BlockError::InvalidHash);
        }
        let is_genesis = self.blocks.len() == 0;
        if block.transactions().len() == 0 {
            return Err(BlockError::EmptyBlock);
        }
        let next = match self.accounts.apply_transactions(block.transactions(), is_genesis) {
            Err(e) => {
                return Err(BlockError::Transaction(e));
            },
            Ok(l) => l,
        };
        if !is_genesis {
            self.update_difficulty();
            self.update_target();
            if !block.meets(self.target) {
                return Err(BlockError::HashAboveTarget);
            }
        }
        if is_genesis {
            self.first_block_timestamp = now;
        }
        self.last_block_timestamp = now;
        self.accounts = next;
        self.blocks.append(block);
        Ok(())
    }

    /// Submits a block, stamped with the current time (see `append_block_at`).
    pub fn append_block(&mut self, block: Block) -> (r: Result<(), BlockError>)
        requires
            old(self).wf(),
        ensures
            final(self).wf(),
            exists|now: Timestamp| (final(self)@, r) == append_outcome(old(self)@, block, now),
            r is Err ==> final(self)@.accounts == old(self)@.accounts && final(self)@.blocks
                == old(self)@.blocks,
    {
        let now = get_timestamp();
        self.append_block_at(block, now)
    }

    /// Audits the chain from the newest block to the first and reports the
    /// first fault found.
    pub fn validate(&self) -> (r: Result<(), ChainError>)
        ensures
            r == validation(self@.blocks),
    {
        let ghost blocks = self@.blocks;
        let len = self.blocks.len();
        let mut i = len;
        while i > 0
            invariant
                blocks == self@.blocks,
                len == blocks.len(),
                i <= len,
                first_fault(blocks, len as int) == first_fault(blocks, i as int),
            decreases i,
        {
            let idx = i - 1;
            let b = self.blocks.get(idx);
            if !b.verify() {
                return Err(ChainError::InvalidHash(i));
            }
            if idx != 0 && b.prev_hash().is_none() {
                return Err(ChainError::MissingPrevHash(i));
            }
            if idx == 0 && b.prev_hash().is_some() {
                return Err(ChainError::GenesisPrevHash);
            }
            if idx + 1 < len {
                let newer = self.blocks.get(idx + 1);
                if let Some(p) = newer.prev_hash() {
                    let linked = match b.stored_hash() {
                        Some(h) => p.eq(h),
                        None => false,
                    };
                    if !linked {
                        return Err(ChainError::HashMismatch(i + 1));
                    }
                }
            }
            i = idx;
        }
        Ok(())
    }
}

proof fn lemma_no_fault(blocks: Seq<Block>, n: int)
    requires
        0 <= n <= blocks.len(),
    ensures
        first_fault(blocks, n) is None <==> forall|i: int| 0 <= i < n ==> #[trigger] block_fault(
            blocks,
            i,
        ) is None,
    decreases n,
{
    if n > 0 {
        lemma_no_fault(blocks, n - 1);
    }
}

proof fn lemma_applied_each(m: LedgerMap, txs: Seq<Transaction>, is_genesis: bool, i: int)
    requires
        apply_txs(m, txs, is_genesis) is Ok,
        0 <= i < txs.len(),
    ensures
        exists|m2: LedgerMap| #[trigger] tx_outcome(txs[i]@, m2, is_genesis) is Ok,
    decreases txs.len(),
{
    let prefix = txs.drop_last();
    if apply_txs(m, prefix, is_genesis) is Err {
        assert(apply_txs(m, txs, is_genesis) is Err);
    }
    if i == txs.len() - 1 {
        let m2 = apply_txs(m, prefix, is_genesis)->Ok_0;
        assert(tx_outcome(txs[i]@, m2, is_genesis) is Ok);
    } else {
        lemma_applied_each(m, prefix, is_genesis, i);
        assert(prefix[i] == txs[i]);
    }
}

/// An empty chain validates.
pub proof fn lemma_empty_chain_valid()
    ensures
        validation(Seq::<Block>::empty()) is Ok,
{
}

/// Appending keeps a valid chain valid: if the chain validates, a block whose
/// previous hash is that of the newest block (none for the first block) is
/// accepted, then the longer chain validates too. With `new` starting from an
/// empty chain, a chain built only by accepted, linked appends always
/// validates.
pub proof fn lemma_append_keeps_chain_valid(s: BlockchainView, b: Block, now: Timestamp)
    requires
        validation(s.blocks) is Ok,
        append_outcome(s, b, now).1 is Ok,
        b@.prev_hash == last_hash(s),
    ensures
        validation(append_outcome(s, b, now).0.blocks) is Ok,
{
    let old_blocks = s.blocks;
    let blocks = append_outcome(s, b, now).0.blocks;
    let n = old_blocks.len() as int;
    assert(blocks == old_blocks.push(b));
    lemma_no_fault(old_blocks, n);
    assert forall|i: int| 0 <= i < n + 1 implies #[trigger] block_fault(blocks, i) is None by {
        if i < n {
            assert(block_fault(old_blocks, i) is None);
            assert(blocks[i] == old_blocks[i]);
            if i + 1 < n {
                assert(blocks[i + 1] == old_blocks[i + 1]);
            }
        }
    }
    lemma_no_fault(blocks, n + 1);
}

/// Minting belongs to the first block alone: outside it a mint transaction is
/// refused with `NotGenesisMint` on any ledger, and a later block that holds
/// one is refused, leaving the ledger as it was.
pub proof fn lemma_mint_only_in_genesis(s: BlockchainView, b: Block, now: Timestamp, i: int)
    requires
        s.blocks.len() > 0,
        0 <= i < b@.transactions.len(),
        b@.transactions[i]@.data is MintInitialSupply,
    ensures
        forall|m: LedgerMap|
            #[trigger] tx_outcome(b@.transactions[i]@, m, false) == Err::<LedgerMap, TxError>(
                TxError::NotGenesisMint,
            ),
        append_outcome(s, b, now).1 is Err,
        append_outcome(s, b, now).0.accounts == s.accounts,
{
    let txs = b@.transactions;
    if is_sealed(b@) && txs.len() > 0 && apply_txs(s.accounts, txs, false) is Ok {
        lemma_applied_each(s.accounts, txs, false, i);
    }
}

/// `states` is a run of submissions from an empty chain: `blocks[i]`, made at
/// `times[i]`, was submitted in `states[i]` and led to `states[i + 1]`, and
/// every block that was accepted had been built on the newest block's hash.
pub open spec fn built_by_appends(
    states: Seq<BlockchainView>,
    blocks: Seq<Block>,
    times: Seq<Timestamp>,
) -> bool {
    &&& states.len() == blocks.len() + 1
    &&& times.len() == blocks.len()
    &&& states[0].blocks.len() == 0
    &&& forall|i: int|
        0 <= i < blocks.len() ==> (#[trigger] append_outcome(states[i], blocks[i], times[i])).0
            == states[i + 1]
    &&& forall|i: int|
        0 <= i < blocks.len() && (#[trigger] append_outcome(states[i], blocks[i], times[i])).1 is Ok
            ==> blocks[i]@.prev_hash == last_hash(states[i])
}

proof fn lemma_run_prefix_valid(
    states: Seq<BlockchainView>,
    blocks: Seq<Block>,
    times: Seq<Timestamp>,
    k: int,
)
    requires
        built_by_appends(states, blocks, times),
        0 <= k <= blocks.len(),
    ensures
        validation(states[k].blocks) is Ok,
    decreases k,
{
    if k == 0 {
        assert(states[0].blocks =~= Seq::<Block>::empty());
        lemma_empty_chain_valid();
    } else {
        lemma_run_prefix_valid(states, blocks, times, k - 1);
        let o = append_outcome(states[k - 1], blocks[k - 1], times[k - 1]);
        assert(o.0 == states[k]);
        if o.1 is Ok {
            lemma_append_keeps_chain_valid(states[k - 1], blocks[k - 1], times[k - 1]);
        } else {
            assert(o.0.blocks == states[k - 1].blocks);
        }
    }
}

/// A chain built from `new` by submissions, refused ones included, in which
/// each accepted block was built on the newest block's hash, validates.
pub proof fn lemma_built_chain_valid(
    states: Seq<BlockchainView>,
    blocks: Seq<Block>,
    times: Seq<Timestamp>,
)
    requires
        built_by_appends(states, blocks, times),
    ensures
        validation(states.last().blocks) is Ok,
{
    lemma_run_prefix_valid(states, blocks, times, blocks.len() as int);
}

} // verus!
