//! A frozen ledger snapshot: its clock, its accounts, an optional index of
//! accounts by owning program, and the two ways of enumerating the accounts
//! of one program.

use crate::pubkey::Pubkey;
use crate::stake::Clock;
use vstd::prelude::*;

verus! {

/// An account as the ledger holds it.
#[derive(Clone, Debug)]
pub struct Account {
    pub lamports: u64,
    pub owner: Pubkey,
    pub data: Vec<u8>,
}

/// What an account holds, as plain values.
pub ghost struct AccountView {
    pub lamports: u64,
    pub owner: Seq<u8>,
    pub data: Seq<u8>,
}

impl View for Account {
    type V = AccountView;

    open spec fn view(&self) -> AccountView {
        AccountView { lamports: self.lamports, owner: self.owner@, data: self.data@ }
    }
}

/// Why an enumeration of accounts could not complete.
#[derive(Clone, Debug)]
pub enum ScanError {
    /// The snapshot's slot was removed while it was being scanned.
    SlotRemoved { slot: u64, bank_id: u64 },
}

pub type ScanResult<T> = Result<T, ScanError>;

/// Identifier and account pairs, as plain values.
pub open spec fn store_view(accounts: Seq<(Pubkey, Account)>) -> Seq<(Seq<u8>, AccountView)> {
    accounts.map_values(|e: (Pubkey, Account)| (e.0@, e.1@))
}

/// No identifier occurs twice.
pub open spec fn keys_unique(s: Seq<(Seq<u8>, AccountView)>) -> bool {
    forall|i: int, j: int| 0 <= i < s.len() && 0 <= j < s.len() && i != j ==> s[i].0 != s[j].0
}

/// The sum of all balances.
pub open spec fn total_lamports(s: Seq<(Seq<u8>, AccountView)>) -> nat
    decreases s.len(),
{
    if s.len() == 0 {
        0
    } else {
        total_lamports(s.drop_last()) + s.last().1.lamports as nat
    }
}

/// The balance held under identifier `k`: zero where no account has it.
pub open spec fn balance_in(s: Seq<(Seq<u8>, AccountView)>, k: Seq<u8>) -> nat
    decreases s.len(),
{
    if s.len() == 0 {
        0
    } else {
        balance_in(s.drop_last(), k) + if s.last().0 == k {
            s.last().1.lamports as nat
        } else {
            0
        }
    }
}

/// The account stored under identifier `k`.
pub open spec fn lookup(s: Seq<(Seq<u8>, AccountView)>, k: Seq<u8>) -> Option<AccountView>
    decreases s.len(),
{
    if s.len() == 0 {
        None
    } else if s.last().0 == k {
        Some(s.last().1)
    } else {
        lookup(s.drop_last(), k)
    }
}

/// Index entries as (owning program, account identifier) pairs.
pub open spec fn index_view(index: Seq<(Pubkey, Pubkey)>) -> Seq<(Seq<u8>, Seq<u8>)> {
    index.map_values(|e: (Pubkey, Pubkey)| (e.0@, e.1@))
}

/// Every account is listed in the index under its owner. The index may list
/// more: stale entries of accounts that have since changed owner.
pub open spec fn index_complete(
    s: Seq<(Seq<u8>, AccountView)>,
    index: Seq<(Seq<u8>, Seq<u8>)>,
) -> bool {
    forall|i: int| 0 <= i < s.len() ==> index.contains(((#[trigger] s[i]).1.owner, s[i].0))
}

/// What an enumeration of the accounts owned by `program` yields: each yielded
/// pair whose owner is `program` is stored, and each stored account owned by
/// `program` is yielded. Pairs with another owner may be yielded as well.
pub open spec fn yields_program_accounts(
    s: Seq<(Seq<u8>, AccountView)>,
    yielded: Seq<(Seq<u8>, AccountView)>,
    program: Seq<u8>,
) -> bool {
    &&& forall|j: int|
        0 <= j < yielded.len() && (#[trigger] yielded[j]).1.owner == program ==> s.contains(
            yielded[j],
        )
    &&& forall|i: int| 0 <= i < s.len() && (#[trigger] s[i]).1.owner == program ==> yielded.contains(s[i])
}

/// A balance is part of the total.
pub proof fn lemma_balance_le_total(s: Seq<(Seq<u8>, AccountView)>, k: Seq<u8>)
    ensures
        balance_in(s, k) <= total_lamports(s),
    decreases s.len(),
{
    if s.len() > 0 {
        lemma_balance_le_total(s.drop_last(), k);
    }
}

/// The total of a prefix is at most the total.
pub proof fn lemma_total_prefix(s: Seq<(Seq<u8>, AccountView)>, n: int)
    requires
        0 <= n <= s.len(),
    ensures
        total_lamports(s.take(n)) <= total_lamports(s),
    decreases s.len(),
{
    if n < s.len() {
        assert(s.drop_last().take(n) =~= s.take(n));
        lemma_total_prefix(s.drop_last(), n);
    } else {
        assert(s.take(n) =~= s);
    }
}

/// In a store with unique identifiers, the account found under a stored
/// identifier is the stored one.
pub proof fn lemma_lookup_unique(s: Seq<(Seq<u8>, AccountView)>, i: int)
    requires
        keys_unique(s),
        0 <= i < s.len(),
    ensures
        lookup(s, s[i].0) == Some(s[i].1),
    decreases s.len(),
{
    if i < s.len() - 1 {
        let t = s.drop_last();
        assert(t[i] == s[i]);
        assert(keys_unique(t)) by {
            assert forall|a: int, b: int| 0 <= a < t.len() && 0 <= b < t.len() && a != b implies t[a].0 != t[b].0 by {
                assert(t[a] == s[a] && t[b] == s[b]);
            }
        }
        assert(s.last() == s[s.len() - 1]);
        lemma_lookup_unique(t, i);
    }
}

/// What is found is stored.
pub proof fn lemma_lookup_stored(s: Seq<(Seq<u8>, AccountView)>, k: Seq<u8>)
    requires
        lookup(s, k).is_some(),
    ensures
        s.contains((k, lookup(s, k).unwrap())),
    decreases s.len(),
{
    if s.last().0 == k {
        assert(s[s.len() - 1] == (k, lookup(s, k).unwrap()));
    } else {
        lemma_lookup_stored(s.drop_last(), k);
        let j = choose|j: int| 0 <= j < s.drop_last().len() && s.drop_last()[j] == (k, lookup(s, k).unwrap());
        assert(s[j] == s.drop_last()[j]);
    }
}

/// A snapshot of the ledger, frozen for the duration of a computation.
pub struct Bank {
    pub slot: u64,
    pub bank_id: u64,
    pub clock: Clock,
    pub accounts: Vec<(Pubkey, Account)>,
    /// (owning program, account identifier) entries, where the store keeps
    /// such an index.
    pub program_id_index: Option<Vec<(Pubkey, Pubkey)>>,
    /// Set once the slot has been removed: scans then fail.
    pub removed: bool,
}

impl Bank {
    pub open spec fn store(&self) -> Seq<(Seq<u8>, AccountView)> {
        store_view(self.accounts@)
    }

    /// Identifiers are unique, the total supply fits in a `u64`, and an index,
    /// where there is one, lists every account under its owner.
    pub open spec fn wf(&self) -> bool {
        &&& keys_unique(self.store())
        &&& total_lamports(self.store()) <= u64::MAX
        &&& match self.program_id_index {
            Some(index) => index_complete(self.store(), index_view(index@)),
            None => true,
        }
    }

    pub fn clock(&self) -> (r: Clock)
        ensures
            r == self.clock,
    {
        self.clock
    }

    pub fn epoch(&self) -> (r: u64)
        ensures
            r == self.clock.epoch,
    {
        self.clock.epoch
    }

    /// Whether the store keeps an index of accounts by owning program.
    pub fn has_program_id_index(&self) -> (r: bool)
        ensures
            r == self.program_id_index.is_some(),
    {
        self.program_id_index.is_some()
    }
    /// The balance of the account under `key`, zero where there is none.
    pub fn get_balance(&self, key: &Pubkey) -> (r: u64)
        requires
            self.wf(),
        ensures
            r == balance_in(self.store(), key@),
    {
        let ghost s = self.store();
        let mut sum: u64 = 0;
        let mut i: usize = 0;
        while i < self.accounts.len()
            invariant
                s == self.store(),
                total_lamports(s) <= u64::MAX,
                i <= s.len(),
                sum == balance_in(s.take(i as int), key@),
            decreases s.len() - i,
        {
            let ghost t = s.take(i + 1);
            proof {
                assert(t.drop_last() =~= s.take(i as int));
                lemma_balance_le_total(t, key@);
                lemma_total_prefix(s, i + 1);
            }
            if self.accounts[i].0.same_key(key) {
                sum = sum + self.accounts[i].1.lamports;
            }
            i = i + 1;
        }
        assert(s.take(s.len() as int) =~= s);
        sum
    }

    /// The account under `key`.
    pub fn get_account(&self, key: &Pubkey) -> (r: Option<Account>)
        ensures
            match r {
                Some(a) => lookup(self.store(), key@) == Some(a@),
                None => lookup(self.store(), key@) is None,
            },
    {
        let ghost s = self.store();
        let mut i: usize = self.accounts.len();
        assert(s.take(s.len() as int) =~= s);
        while i > 0
            invariant
                s == self.store(),
                i <= s.len(),
                lookup(s, key@) == lookup(s.take(i as int), key@),
            decreases i,
        {
            assert(s.take(i as int).drop_last() =~= s.take(i - 1));
            if self.accounts[i - 1].0.same_key(key) {
                return Some(self.accounts[i - 1].1.duplicate());
            }
            i = i - 1;
        }
        None
    }

    /// Every account owned by `program_id`, by a scan of the whole store.
    pub fn get_program_accounts(&self, program_id: &Pubkey) -> (r: ScanResult<Vec<(Pubkey, Account)>>)
        ensures
            self.removed ==> r == Err::<Vec<(Pubkey, Account)>, ScanError>(ScanError::SlotRemoved { slot: self.slot, bank_id: self.bank_id }),
            !self.removed ==> (r matches Ok(v) && store_view(v@) == self.store().filter(
                |e: (Seq<u8>, AccountView)| e.1.owner == program_id@,
            ) && yields_program_accounts(self.store(), store_view(v@), program_id@)),
    {
        if self.removed {
            return Err(ScanError::SlotRemoved { slot: self.slot, bank_id: self.bank_id });
        }
        let ghost s = self.store();
        let ghost pred = |e: (Seq<u8>, AccountView)| e.1.owner == program_id@;
        let mut v: Vec<(Pubkey, Account)> = Vec::new();
        let mut i: usize = 0;
        while i < self.accounts.len()
            invariant
                s == self.store(),
                pred == (|e: (Seq<u8>, AccountView)| e.1.owner == program_id@),
                i <= s.len(),
                store_view(v@) == s.take(i as int).filter(pred),
            decreases s.len() - i,
        {
            proof {
                assert(s.take(i + 1) =~= s.take(i as int).push(s[i as int]));
                s.take(i as int).lemma_filter_push(s[i as int], pred);
            }
            if self.accounts[i].1.owner.same_key(program_id) {
                let a = self.accounts[i].1.duplicate();
                let ghost before = v@;
                v.push((self.accounts[i].0, a));
                assert(store_view(v@) =~= store_view(before).push(s[i as int]));
            }
            i = i + 1;
        }
        assert(s.take(s.len() as int) =~= s);
        proof {
            let yielded = store_view(v@);
            assert forall|j: int| 0 <= j < yielded.len() && (#[trigger] yielded[j]).1.owner == program_id@ implies s.contains(yielded[j]) by {
                assert(yielded.contains(yielded[j]));
                s.lemma_filter_contains_rev(pred, yielded[j]);
            }
            assert forall|i: int| 0 <= i < s.len() && (#[trigger] s[i]).1.owner == program_id@ implies yielded.contains(s[i]) by {
                s.lemma_filter_contains(pred, i);
            }
        }
        Ok(v)
    }

    /// The accounts listed in the index under `program_id`, each as the store
    /// holds it now. Stale entries may yield accounts with another owner.
    pub fn get_filtered_indexed_accounts(&self, program_id: &Pubkey) -> (r: ScanResult<Vec<(Pubkey, Account)>>)
        requires
            self.wf(),
            self.program_id_index.is_some(),
        ensures
            self.removed ==> r == Err::<Vec<(Pubkey, Account)>, ScanError>(ScanError::SlotRemoved { slot: self.slot, bank_id: self.bank_id }),
            !self.removed ==> (r matches Ok(v) && {
                let index = index_view(self.program_id_index.unwrap()@);
                let yielded = store_view(v@);
                &&& forall|j: int| 0 <= j < yielded.len() ==> index.contains((program_id@, (#[trigger] yielded[j]).0))
                    && lookup(self.store(), yielded[j].0) == Some(yielded[j].1)
                &&& forall|q: int| 0 <= q < index.len() && (#[trigger] index[q]).0 == program_id@
                    && lookup(self.store(), index[q].1) is Some ==> yielded.contains((index[q].1, lookup(self.store(), index[q].1).unwrap()))
                &&& yields_program_accounts(self.store(), yielded, program_id@)
            }),
    {
        if self.removed {
            return Err(ScanError::SlotRemoved { slot: self.slot, bank_id: self.bank_id });
        }
        let ghost s = self.store();
        let index = match &self.program_id_index {
            Some(index) => index,
            None => return Ok(Vec::new()),
        };
        let ghost iv = index_view(index@);
        let mut v: Vec<(Pubkey, Account)> = Vec::new();
        let mut pos: usize = 0;
        while pos < index.len()
            invariant
                s == self.store(),
                iv == index_view(index@),
                pos <= iv.len(),
                forall|j: int| 0 <= j < store_view(v@).len() ==> iv.contains((program_id@, (#[trigger] store_view(v@)[j]).0))
                    && lookup(s, store_view(v@)[j].0) == Some(store_view(v@)[j].1),
                forall|q: int| 0 <= q < pos && (#[trigger] iv[q]).0 == program_id@
                    && lookup(s, iv[q].1) is Some ==> store_view(v@).contains((iv[q].1, lookup(s, iv[q].1).unwrap())),
            decreases iv.len() - pos,
        {
            let entry = index[pos];
            if entry.0.same_key(program_id) {
                match self.get_account(&entry.1) {
                    Some(a) => {
                        let ghost before = store_view(v@);
                        v.push((entry.1, a));
                        proof {
                            assert(store_view(v@) =~= before.push((iv[pos as int].1, lookup(s, iv[pos as int].1).unwrap())));
                            assert(iv[pos as int] == (program_id@, entry.1@));
                            assert forall|q: int| 0 <= q < pos + 1 && (#[trigger] iv[q]).0 == program_id@
                                && lookup(s, iv[q].1) is Some implies store_view(v@).contains((iv[q].1, lookup(s, iv[q].1).unwrap())) by {
                                if q < pos {
                                    let j = choose|j: int| 0 <= j < before.len() && before[j] == (iv[q].1, lookup(s, iv[q].1).unwrap());
                                    assert(store_view(v@)[j] == before[j]);
                                } else {
                                    assert(store_view(v@)[before.len() as int] == (iv[q].1, lookup(s, iv[q].1).unwrap()));
                                }
                            }
                        }
                    },
                    None => {},
                }
            }
            pos = pos + 1;
        }
        proof {
            let yielded = store_view(v@);
            assert forall|j: int| 0 <= j < yielded.len() && (#[trigger] yielded[j]).1.owner == program_id@ implies s.contains(yielded[j]) by {
                lemma_lookup_stored(s, yielded[j].0);
            }
            assert forall|i: int| 0 <= i < s.len() && (#[trigger] s[i]).1.owner == program_id@ implies yielded.contains(s[i]) by {
                lemma_lookup_unique(s, i);
                let q = choose|q: int| 0 <= q < iv.len() && iv[q] == (s[i].1.owner, s[i].0);
                assert(iv[q].0 == program_id@);
            }
        }
        Ok(v)
    }
}

impl Account {
    /// A copy of the account.
    pub fn duplicate(&self) -> (r: Account)
        ensures
            r@ == self@,
    {
        let mut data: Vec<u8> = Vec::new();
        let mut i: usize = 0;
        while i < self.data.len()
            invariant
                i <= self.data@.len(),
                data@ == self.data@.take(i as int),
            decreases self.data@.len() - i,
        {
            data.push(self.data[i]);
            i = i + 1;
            assert(data@ =~= self.data@.take(i as int));
        }
        assert(self.data@.take(self.data@.len() as int) =~= self.data@);
        Account { lamports: self.lamports, owner: self.owner, data }
    }
}

} // verus!
