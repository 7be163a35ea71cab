//! The account ledger: a map from account id to account, and the atomic
//! application of a block's transactions to it.

use vstd::hash_map::StringHashMap;
use vstd::prelude::*;

use crate::account::{Account, AccountType, PublicKeyBytes};
use crate::transaction::{tx_outcome, Transaction, TxError};
use crate::AccountId;

verus! {

/// What a ledger holds: each account id with its account.
pub type LedgerMap = Map<Seq<char>, Account>;

/// The ledger after the transactions in order, or the first refusal.
pub open spec fn apply_txs(m: LedgerMap, txs: Seq<Transaction>, is_genesis: bool) -> Result<
    LedgerMap,
    TxError,
>
    decreases txs.len(),
{
    if txs.len() == 0 {
        Ok(m)
    } else {
        match apply_txs(m, txs.drop_last(), is_genesis) {
            Ok(m2) => tx_outcome(txs.last()@, m2, is_genesis),
            Err(e) => Err(e),
        }
    }
}

/// The accounts, keyed by id. Accounts are never removed.
pub struct Ledger {
    accounts: StringHashMap<Account>,
    ids: Vec<String>,
}

impl View for Ledger {
    type V = LedgerMap;

    closed spec fn view(&self) -> LedgerMap {
        self.accounts@
    }
}

proof fn lemma_apply_err_extends(
    m: LedgerMap,
    txs: Seq<Transaction>,
    k: int,
    is_genesis: bool,
    e: TxError,
)
    requires
        0 <= k <= txs.len(),
        apply_txs(m, txs.subrange(0, k), is_genesis) == Err::<LedgerMap, TxError>(e),
    ensures
        apply_txs(m, txs, is_genesis) == Err::<LedgerMap, TxError>(e),
    decreases txs.len() - k,
{
    if k < txs.len() {
        assert(txs.subrange(0, k + 1).drop_last() =~= txs.subrange(0, k));
        lemma_apply_err_extends(m, txs, k + 1, is_genesis, e);
    } else {
        assert(txs.subrange(0, k) =~= txs);
    }
}

impl Ledger {
    /// Every listed id has an account, and every account is listed.
    pub closed spec fn wf(&self) -> bool {
        &&& forall|i: int|
            0 <= i < self.ids@.len() ==> self.accounts@.contains_key(#[trigger] self.ids@[i]@)
        &&& forall|k: Seq<char>|
            self.accounts@.contains_key(k) ==> exists|i: int|
                0 <= i < self.ids@.len() && #[trigger] self.ids@[i]@ == k
    }

    /// An empty ledger.
    pub fn new() -> (r: Self)
        ensures
            r.wf(),
            r@ == LedgerMap::empty(),
    {
        Ledger { accounts: StringHashMap::new(), ids: Vec::new() }
    }

    /// Opens an account with a zero balance, unless the id is taken.
    pub fn create_account(
        &mut self,
        account_id: AccountId,
        account_type: AccountType,
        public_key: PublicKeyBytes,
    ) -> (r: Result<(), TxError>)
        requires
            old(self).wf(),
        ensures
            final(self).wf(),
            old(self)@.contains_key(account_id@) ==> r == Err::<(), TxError>(
                TxError::AccountExists(account_id),
            ) && final(self)@ == old(self)@,
            !old(self)@.contains_key(account_id@) ==> r is Ok && final(self)@ == old(self)@.insert(
                account_id@,
                Account { account_type, balance: 0, public_key },
            ),
    {
        if self.accounts.contains_key(account_id.as_str()) {
            return Err(TxError::AccountExists(account_id));
        }
        let ghost before = self.ids@;
        self.accounts.insert(account_id.clone(), Account::new(account_type, public_key));
        self.ids.push(account_id);
        assert forall|k: Seq<char>| self.accounts@.contains_key(k) implies exists|i: int|
            0 <= i < self.ids@.len() && #[trigger] self.ids@[i]@ == k by {
            if k != self.ids@[self.ids@.len() - 1]@ {
                let i = choose|i: int| 0 <= i < before.len() && #[trigger] before[i]@ == k;
                assert(self.ids@[i] == before[i]);
            }
        }
        Ok(())
    }

    /// Whether an account with this id exists.
    pub fn contains(&self, account_id: &str) -> (r: bool)
        ensures
            r == self@.contains_key(account_id@),
    {
        self.accounts.contains_key(account_id)
    }

    /// The account with this id, if any.
    pub fn get_account(&self, account_id: &str) -> (r: Option<Account>)
        ensures
            r == (if self@.contains_key(account_id@) {
                Some(self@[account_id@])
            } else {
                None::<Account>
            }),
    {
        match self.accounts.get(account_id) {
            None => None,
            Some(a) => Some(*a),
        }
    }

    /// Replaces the account stored under an existing id.
    pub(crate) fn set_account(&mut self, account_id: &String, account: Account)
        requires
            old(self).wf(),
            old(self)@.contains_key(account_id@),
        ensures
            final(self).wf(),
            final(self)@ == old(self)@.insert(account_id@, account),
    {
        let ghost before = self.accounts@;
        self.accounts.insert(account_id.clone(), account);
        assert forall|k: Seq<char>| self.accounts@.contains_key(k) implies exists|i: int|
            0 <= i < self.ids@.len() && #[trigger] self.ids@[i]@ == k by {
            assert(before.contains_key(k));
            let i = choose|i: int| 0 <= i < old(self).ids@.len() && #[trigger] old(self).ids@[i]@ == k;
            assert(self.ids@[i] == old(self).ids@[i]);
        }
    }

    /// A copy of the ledger.
    pub fn snapshot(&self) -> (r: Ledger)
        requires
            self.wf(),
        ensures
            r.wf(),
            r@ == self@,
    {
        let mut copy = Ledger::new();
        let n = self.ids.len();
        let mut i: usize = 0;
        while i < n
            invariant
                n == self.ids@.len(),
                i <= n,
                self.wf(),
                copy.wf(),
                forall|k: Seq<char>|
                    #[trigger] copy@.contains_key(k) ==> self@.contains_key(k) && copy@[k] == self@[k],
                forall|q: int| 0 <= q < i ==> copy@.contains_key(#[trigger] self.ids@[q]@),
            decreases n - i,
        {
            let id = &self.ids[i];
            assert(self@.contains_key(id@));
            let a = match self.accounts.get(id.as_str()) {
                None => Account::new(AccountType::User, [0u8; 32]),
                Some(a) => *a,
            };
            assert(a == self@[id@]);
            if !copy.accounts.contains_key(id.as_str()) {
                let ghost before = copy.ids@;
                let ghost before_map = copy@;
                copy.accounts.insert(id.clone(), a);
                copy.ids.push(id.clone());
                assert(copy@ == before_map.insert(id@, a));
                assert forall|k: Seq<char>| copy@.contains_key(k) implies self@.contains_key(k)
                    && copy@[k] == self@[k] by {
                    if k != id@ {
                        assert(before_map.contains_key(k));
                    }
                }
                assert forall|k: Seq<char>| copy.accounts@.contains_key(k) implies exists|j: int|
                    0 <= j < copy.ids@.len() && #[trigger] copy.ids@[j]@ == k by {
                    if k != copy.ids@[copy.ids@.len() - 1]@ {
                        let j = choose|j: int| 0 <= j < before.len() && #[trigger] before[j]@ == k;
                        assert(copy.ids@[j] == before[j]);
                    }
                }
            }
            i = i + 1;
        }
        assert forall|k: Seq<char>| self@.contains_key(k) implies copy@.contains_key(k) by {
            let q = choose|q: int| 0 <= q < self.ids@.len() && #[trigger] self.ids@[q]@ == k;
        }
        assert(copy@ =~= self@);
        copy
    }

    /// The ledger after all of `transactions`, in order, or the first refusal.
    /// `self` is never changed: a refused block leaves no trace.
    pub fn apply_transactions(&self, transactions: &Vec<Transaction>, is_genesis: bool) -> (r:
        Result<Ledger, TxError>)
        requires
            self.wf(),
        ensures
            match apply_txs(self@, transactions@, is_genesis) {
                Ok(m) => r is Ok && r->Ok_0.wf() && r->Ok_0@ == m,
                Err(e) => r == Err::<Ledger, TxError>(e),
            },
    {
        let mut work = self.snapshot();
        let n = transactions.len();
        assert(transactions@.subrange(0, 0) =~= Seq::<Transaction>::empty());
        for i in 0..n
            invariant
                n == transactions@.len(),
                work.wf(),
                apply_txs(self@, transactions@.subrange(0, i as int), is_genesis) == Ok::<
                    LedgerMap,
                    TxError,
                >(work@),
        {
            assert(transactions@.subrange(0, i + 1).drop_last() =~= transactions@.subrange(
                0,
                i as int,
            ));
            match transactions[i].execute(&mut work, is_genesis) {
                Err(e) => {
                    proof {
                        lemma_apply_err_extends(self@, transactions@, i + 1, is_genesis, e);
                    }
                    return Err(e);
                },
                Ok(()) => {},
            }
        }
        assert(transactions@.subrange(0, n as int) =~= transactions@);
        Ok(work)
    }
}

/// No balance is ever negative: a balance is an unsigned amount, and every
/// debit is checked against it before it is made.
pub proof fn lemma_balances_non_negative(m: LedgerMap)
    ensures
        forall|k: Seq<char>| #[trigger] m.contains_key(k) ==> m[k].balance >= 0,
{
}

} // verus!
