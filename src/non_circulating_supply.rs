//! The non-circulating supply: the fixed lists of excluded identifiers, the
//! classification of stake accounts, and the sum of the balances excluded.

use crate::bank::{
    balance_in, keys_unique, store_view, total_lamports, yields_program_accounts, AccountView,
    Bank, ScanError, ScanResult,
};
use crate::pubkey::{insert_key, key_views, Pubkey};
use crate::stake::{
    decoded_state, lockup_in_force, meta_of, stake_program_id, stake_program_key, Clock, StakeState,
};
use vstd::prelude::*;

verus! {

/// Identifiers that never count as circulating.
pub open spec fn non_circulating_keys() -> Seq<Seq<u8>> {
    seq![
        // 11111111111111111111111111111112
        seq![
            0u8, 0, 0, 0, 0, 0, 0, 0, 0, 0, 0, 0, 0, 0, 0, 0,
            0, 0, 0, 0, 0, 0, 0, 0, 0, 0, 0, 0, 0, 0, 0, 1,
        ],
    ]
}

/// Accounts that never count as circulating.
pub fn non_circulating_accounts() -> (r: Vec<Pubkey>)
    ensures
        key_views(r@) == non_circulating_keys(),
{
    let r = vec![
        Pubkey::new_from_array([
            0, 0, 0, 0, 0, 0, 0, 0, 0, 0, 0, 0, 0, 0, 0, 0,
            0, 0, 0, 0, 0, 0, 0, 0, 0, 0, 0, 0, 0, 0, 0, 1,
        ]),
    ];
    assert(key_views(r@) =~= non_circulating_keys());
    r
}

/// Withdraw authorities whose stake accounts never count as circulating.
pub open spec fn withdraw_authority_keys() -> Seq<Seq<u8>> {
    seq![
        // 8CUUMKYNGxdgYio5CLHRHyzMEhhVRMcqefgE6dLqnVRK
        seq![
            106u8, 242, 66, 115, 104, 25, 140, 105, 24, 63, 56, 148, 239, 188, 40, 155,
            125, 192, 124, 54, 60, 84, 101, 209, 255, 29, 24, 127, 157, 182, 84, 218,
        ],
        // 3FFaheyqtyAXZSYxDzsr5CVKvJuvZD1WE1VEsBtDbRqB
        seq![
            33u8, 93, 253, 245, 113, 197, 243, 124, 192, 139, 238, 96, 4, 215, 57, 130,
            29, 3, 199, 132, 228, 70, 15, 140, 151, 119, 65, 80, 156, 234, 115, 186,
        ],
        // FdGYQdiRky8NZzN9wZtczTBcWLYYRXrJ3LMDhqDPn5rM
        seq![
            217u8, 78, 25, 83, 202, 63, 253, 127, 49, 109, 223, 225, 140, 108, 21, 164,
            173, 116, 217, 39, 28, 200, 142, 173, 108, 127, 36, 87, 166, 194, 43, 166,
        ],
        // 4e6KwQpyzGQPfgVr5Jn3g5jLjbXB4pKPa2jRLohEb1QA
        seq![
            54u8, 19, 146, 204, 68, 102, 105, 177, 200, 171, 227, 198, 9, 134, 199, 143,
            252, 130, 85, 61, 215, 204, 169, 179, 174, 123, 102, 180, 130, 88, 184, 95,
        ],
        // FjiEiVKyMGzSLpqoB27QypukUfyWHrwzPcGNtopzZVdh
        seq![
            218u8, 244, 163, 29, 255, 94, 196, 69, 117, 37, 4, 50, 225, 148, 69, 200,
            143, 124, 119, 118, 202, 192, 237, 141, 209, 165, 101, 66, 10, 199, 188, 48,
        ],
        // DwbVjia1mYeSGoJipzhaf4L5hfer2DJ1Ys681VzQm5YY
        seq![
            192u8, 72, 156, 102, 205, 120, 119, 223, 175, 208, 252, 141, 239, 105, 185, 179,
            250, 110, 121, 234, 72, 38, 173, 165, 24, 132, 94, 39, 249, 42, 175, 165,
        ],
        // GeMGyvsTEsANVvcT5cme65Xq5MVU8fVVzMQ13KAZFNS2
        seq![
            232u8, 112, 184, 46, 158, 74, 223, 92, 3, 164, 60, 2, 204, 161, 213, 0,
            10, 178, 99, 176, 83, 215, 2, 176, 41, 213, 213, 71, 112, 126, 63, 239,
        ],
        // Bj3aQ2oFnZYfNR1njzRjmWizzuhvfcYLckh76cqsbuBM
        seq![
            159u8, 90, 44, 252, 70, 34, 123, 16, 180, 3, 187, 180, 224, 63, 62, 37,
            116, 47, 15, 200, 142, 139, 158, 237, 190, 72, 254, 79, 71, 227, 123, 88,
        ],
        // 4ZJhPQAgUseCsWhKvJLTmmRRUV74fdoTpQLNfKoekbPY
        seq![
            52u8, 217, 167, 236, 174, 9, 113, 154, 64, 195, 78, 109, 213, 143, 189, 248,
            17, 163, 151, 126, 190, 27, 1, 32, 51, 59, 218, 116, 56, 48, 37, 43,
        ],
        // HXdYQ5gixrY2H6Y9gqsD8kPM2JQKSaRiohDQtLbZkRWE
        seq![
            245u8, 147, 187, 134, 162, 171, 83, 15, 82, 226, 140, 57, 75, 226, 29, 213,
            170, 228, 134, 36, 48, 91, 27, 29, 67, 184, 204, 25, 160, 173, 37, 55,
        ],
    ]
}

/// Withdraw authorities whose stake accounts never count as circulating.
pub fn withdraw_authority() -> (r: Vec<Pubkey>)
    ensures
        key_views(r@) == withdraw_authority_keys(),
{
    let r = vec![
        // 8CUUMKYNGxdgYio5CLHRHyzMEhhVRMcqefgE6dLqnVRK
        Pubkey::new_from_array([
            106, 242, 66, 115, 104, 25, 140, 105, 24, 63, 56, 148, 239, 188, 40, 155,
            125, 192, 124, 54, 60, 84, 101, 209, 255, 29, 24, 127, 157, 182, 84, 218,
        ]),
        // 3FFaheyqtyAXZSYxDzsr5CVKvJuvZD1WE1VEsBtDbRqB
        Pubkey::new_from_array([
            33, 93, 253, 245, 113, 197, 243, 124, 192, 139, 238, 96, 4, 215, 57, 130,
            29, 3, 199, 132, 228, 70, 15, 140, 151, 119, 65, 80, 156, 234, 115, 186,
        ]),
        // FdGYQdiRky8NZzN9wZtczTBcWLYYRXrJ3LMDhqDPn5rM
        Pubkey::new_from_array([
            217, 78, 25, 83, 202, 63, 253, 127, 49, 109, 223, 225, 140, 108, 21, 164,
            173, 116, 217, 39, 28, 200, 142, 173, 108, 127, 36, 87, 166, 194, 43, 166,
        ]),
        // 4e6KwQpyzGQPfgVr5Jn3g5jLjbXB4pKPa2jRLohEb1QA
        Pubkey::new_from_array([
            54, 19, 146, 204, 68, 102, 105, 177, 200, 171, 227, 198, 9, 134, 199, 143,
            252, 130, 85, 61, 215, 204, 169, 179, 174, 123, 102, 180, 130, 88, 184, 95,
        ]),
        // FjiEiVKyMGzSLpqoB27QypukUfyWHrwzPcGNtopzZVdh
        Pubkey::new_from_array([
            218, 244, 163, 29, 255, 94, 196, 69, 117, 37, 4, 50, 225, 148, 69, 200,
            143, 124, 119, 118, 202, 192, 237, 141, 209, 165, 101, 66, 10, 199, 188, 48,
        ]),
        // DwbVjia1mYeSGoJipzhaf4L5hfer2DJ1Ys681VzQm5YY
        Pubkey::new_from_array([
            192, 72, 156, 102, 205, 120, 119, 223, 175, 208, 252, 141, 239, 105, 185, 179,
            250, 110, 121, 234, 72, 38, 173, 165, 24, 132, 94, 39, 249, 42, 175, 165,
        ]),
        // GeMGyvsTEsANVvcT5cme65Xq5MVU8fVVzMQ13KAZFNS2
        Pubkey::new_from_array([
            232, 112, 184, 46, 158, 74, 223, 92, 3, 164, 60, 2, 204, 161, 213, 0,
            10, 178, 99, 176, 83, 215, 2, 176, 41, 213, 213, 71, 112, 126, 63, 239,
        ]),
        // Bj3aQ2oFnZYfNR1njzRjmWizzuhvfcYLckh76cqsbuBM
        Pubkey::new_from_array([
            159, 90, 44, 252, 70, 34, 123, 16, 180, 3, 187, 180, 224, 63, 62, 37,
            116, 47, 15, 200, 142, 139, 158, 237, 190, 72, 254, 79, 71, 227, 123, 88,
        ]),
        // 4ZJhPQAgUseCsWhKvJLTmmRRUV74fdoTpQLNfKoekbPY
        Pubkey::new_from_array([
            52, 217, 167, 236, 174, 9, 113, 154, 64, 195, 78, 109, 213, 143, 189, 248,
            17, 163, 151, 126, 190, 27, 1, 32, 51, 59, 218, 116, 56, 48, 37, 43,
        ]),
        // HXdYQ5gixrY2H6Y9gqsD8kPM2JQKSaRiohDQtLbZkRWE
        Pubkey::new_from_array([
            245, 147, 187, 134, 162, 171, 83, 15, 82, 226, 140, 57, 75, 226, 29, 213,
            170, 228, 134, 36, 48, 91, 27, 29, 67, 184, 204, 25, 160, 173, 37, 55,
        ]),
    ];
    assert(key_views(r@) =~= withdraw_authority_keys());
    r
}

/// The reported figure: the excluded balance and the excluded identifiers.
#[derive(Clone, Debug)]
pub struct NonCirculatingSupply {
    pub lamports: u64,
    pub accounts: Vec<Pubkey>,
}

/// A stake state excludes its account when its lockup is in force, with no
/// custodian signing, or its withdraw authority is in `restricted`. Only
/// initialized and delegated accounts can be excluded.
pub open spec fn stake_excluded(state: StakeState, clock: Clock, restricted: Seq<Seq<u8>>) -> bool {
    match meta_of(state) {
        Some(meta) => lockup_in_force(meta.lockup, clock) || restricted.contains(
            meta.authorized.withdrawer@,
        ),
        None => false,
    }
}

/// An account that counts as non-circulating on its own: owned by the stake
/// program, and with data whose decoded state is excluded. Data that does not
/// decode reads as an uninitialized account.
pub open spec fn excluded_stake_account(account: AccountView, clock: Clock) -> bool {
    account.owner == stake_program_key() && stake_excluded(
        decoded_state(account.data),
        clock,
        withdraw_authority_keys(),
    )
}

/// The identifiers of the excluded stake accounts among `s`.
pub open spec fn excluded_stake_keys(s: Seq<(Seq<u8>, AccountView)>, clock: Clock) -> Set<Seq<u8>> {
    Set::new(
        |k: Seq<u8>|
            exists|i: int| 0 <= i < s.len() && (#[trigger] s[i]).0 == k && excluded_stake_account(s[i].1, clock),
    )
}

/// The identifiers that do not circulate in `bank`: the fixed list and the
/// excluded stake accounts.
pub open spec fn non_circulating_set(bank: Bank) -> Set<Seq<u8>> {
    non_circulating_keys().to_set().union(excluded_stake_keys(bank.store(), bank.clock))
}

/// The sum of the balances stored under the identifiers in `keys`.
pub open spec fn lamports_in(s: Seq<(Seq<u8>, AccountView)>, keys: Set<Seq<u8>>) -> nat
    decreases s.len(),
{
    if s.len() == 0 {
        0
    } else {
        lamports_in(s.drop_last(), keys) + if keys.contains(s.last().0) {
            s.last().1.lamports as nat
        } else {
            0
        }
    }
}

/// The sum of the balances of each identifier in `keys`, in turn.
pub open spec fn balances_sum(s: Seq<(Seq<u8>, AccountView)>, keys: Seq<Seq<u8>>) -> nat
    decreases keys.len(),
{
    if keys.len() == 0 {
        0
    } else {
        balances_sum(s, keys.drop_last()) + balance_in(s, keys.last())
    }
}

/// `report` is the non-circulating supply of `bank`: each excluded identifier
/// once, and the sum of their balances in `bank`.
pub open spec fn supply_of(bank: Bank, report: NonCirculatingSupply) -> bool {
    &&& key_views(report.accounts@).no_duplicates()
    &&& key_views(report.accounts@).to_set() == non_circulating_set(bank)
    &&& report.lamports == lamports_in(bank.store(), non_circulating_set(bank))
}

proof fn lemma_lamports_in_le_total(s: Seq<(Seq<u8>, AccountView)>, keys: Set<Seq<u8>>)
    ensures
        lamports_in(s, keys) <= total_lamports(s),
    decreases s.len(),
{
    if s.len() > 0 {
        lemma_lamports_in_le_total(s.drop_last(), keys);
    }
}

proof fn lemma_lamports_in_insert(s: Seq<(Seq<u8>, AccountView)>, keys: Set<Seq<u8>>, k: Seq<u8>)
    requires
        !keys.contains(k),
    ensures
        lamports_in(s, keys.insert(k)) == lamports_in(s, keys) + balance_in(s, k),
    decreases s.len(),
{
    if s.len() > 0 {
        lemma_lamports_in_insert(s.drop_last(), keys, k);
    }
}

proof fn lemma_balances_sum(s: Seq<(Seq<u8>, AccountView)>, keys: Seq<Seq<u8>>)
    requires
        keys.no_duplicates(),
    ensures
        balances_sum(s, keys) == lamports_in(s, keys.to_set()),
    decreases keys.len(),
{
    if keys.len() == 0 {
        assert(keys.to_set() =~= Set::empty());
        lemma_lamports_in_empty(s);
    } else {
        let init = keys.drop_last();
        assert(init.no_duplicates()) by {
            assert forall|a: int, b: int| 0 <= a < init.len() && 0 <= b < init.len() && a != b implies init[a] != init[b] by {
                assert(init[a] == keys[a] && init[b] == keys[b]);
            }
        }
        lemma_balances_sum(s, init);
        assert(init.push(keys.last()) =~= keys);
        init.lemma_push_to_set_commute(keys.last());
        assert(!init.to_set().contains(keys.last())) by {
            if init.contains(keys.last()) {
                let j = choose|j: int| 0 <= j < init.len() && init[j] == keys.last();
                assert(keys[j] == keys[keys.len() - 1]);
            }
        }
        lemma_lamports_in_insert(s, init.to_set(), keys.last());
    }
}

proof fn lemma_lamports_in_empty(s: Seq<(Seq<u8>, AccountView)>)
    ensures
        lamports_in(s, Set::empty()) == 0,
    decreases s.len(),
{
    if s.len() > 0 {
        lemma_lamports_in_empty(s.drop_last());
    }
}

/// Whether a decoded stake state excludes its account.
pub fn is_excluded_stake(state: &StakeState, clock: &Clock, withdraw_authority_list: &Vec<Pubkey>) -> (r: bool)
    ensures
        r == stake_excluded(*state, *clock, key_views(withdraw_authority_list@)),
{
    match state.meta() {
        Some(meta) => meta.lockup.is_in_force(clock) || crate::pubkey::contains_key(
            withdraw_authority_list,
            &meta.authorized.withdrawer,
        ),
        None => false,
    }
}

/// The non-circulating supply of `bank`: the fixed list together with every
/// stake account whose lockup is in force or whose withdraw authority is
/// restricted, and the sum of their current balances. Fails only when the
/// enumeration of stake accounts fails.
pub fn calculate_non_circulating_supply(bank: &Bank) -> (r: ScanResult<NonCirculatingSupply>)
    requires
        bank.wf(),
    ensures
        bank.removed ==> r == Err::<NonCirculatingSupply, ScanError>(
            ScanError::SlotRemoved { slot: bank.slot, bank_id: bank.bank_id },
        ),
        !bank.removed ==> (r matches Ok(report) && supply_of(*bank, report)),
{
    let mut set: Vec<Pubkey> = Vec::new();
    let statics = non_circulating_accounts();
    let mut i: usize = 0;
    while i < statics.len()
        invariant
            i <= statics@.len(),
            key_views(statics@) == non_circulating_keys(),
            key_views(set@).no_duplicates(),
            key_views(set@).to_set() == non_circulating_keys().take(i as int).to_set(),
        decreases statics@.len() - i,
    {
        insert_key(&mut set, statics[i]);
        proof {
            assert(non_circulating_keys().take(i + 1) =~= non_circulating_keys().take(i as int).push(statics@[i as int]@));
            non_circulating_keys().take(i as int).lemma_push_to_set_commute(statics@[i as int]@);
        }
        i = i + 1;
    }
    assert(non_circulating_keys().take(i as int) =~= non_circulating_keys());
    let withdraw_authority_list = withdraw_authority();
    let clock = bank.clock();
    let stake_id = stake_program_id();
    let stake_accounts = if bank.has_program_id_index() {
        match bank.get_filtered_indexed_accounts(&stake_id) {
            Ok(v) => v,
            Err(e) => return Err(e),
        }
    } else {
        match bank.get_program_accounts(&stake_id) {
            Ok(v) => v,
            Err(e) => return Err(e),
        }
    };
    let ghost s = bank.store();
    let ghost yielded = store_view(stake_accounts@);
    assert(yields_program_accounts(s, yielded, stake_program_key()));
    let mut j: usize = 0;
    while j < stake_accounts.len()
        invariant
            j <= yielded.len(),
            yielded == store_view(stake_accounts@),
            clock == bank.clock,
            stake_id@ == stake_program_key(),
            key_views(withdraw_authority_list@) == withdraw_authority_keys(),
            key_views(set@).no_duplicates(),
            key_views(set@).to_set() == non_circulating_keys().to_set().union(
                excluded_stake_keys(yielded.take(j as int), clock),
            ),
        decreases yielded.len() - j,
    {
        let ghost before = key_views(set@).to_set();
        let (pubkey, account) = &stake_accounts[j];
        let ghost e = yielded[j as int];
        // The index may list accounts that have since changed owner.
        if account.owner.same_key(&stake_id) {
            let state = StakeState::from_data(&account.data);
            if is_excluded_stake(&state, &clock, &withdraw_authority_list) {
                insert_key(&mut set, *pubkey);
            }
        }
        proof {
            let prev = yielded.take(j as int);
            let next = yielded.take(j + 1);
            assert(next =~= prev.push(e));
            assert(next[j as int] == e);
            if excluded_stake_account(e.1, clock) {
                assert(excluded_stake_keys(next, clock) =~= excluded_stake_keys(prev, clock).insert(e.0)) by {
                    assert forall|k: Seq<u8>| #[trigger] excluded_stake_keys(next, clock).contains(k) implies excluded_stake_keys(prev, clock).insert(e.0).contains(k) by {
                        let a = choose|a: int| 0 <= a < next.len() && (#[trigger] next[a]).0 == k && excluded_stake_account(next[a].1, clock);
                        if a < j {
                            assert(prev[a] == next[a]);
                        }
                    }
                    assert forall|k: Seq<u8>| #[trigger] excluded_stake_keys(prev, clock).contains(k) implies excluded_stake_keys(next, clock).contains(k) by {
                        let a = choose|a: int| 0 <= a < prev.len() && (#[trigger] prev[a]).0 == k && excluded_stake_account(prev[a].1, clock);
                        assert(next[a] == prev[a]);
                    }
                }
                assert(key_views(set@).to_set() =~= non_circulating_keys().to_set().union(excluded_stake_keys(next, clock)));
            } else {
                assert(excluded_stake_keys(next, clock) =~= excluded_stake_keys(prev, clock)) by {
                    assert forall|k: Seq<u8>| #[trigger] excluded_stake_keys(next, clock).contains(k) implies excluded_stake_keys(prev, clock).contains(k) by {
                        let a = choose|a: int| 0 <= a < next.len() && (#[trigger] next[a]).0 == k && excluded_stake_account(next[a].1, clock);
                        assert(a < j);
                        assert(prev[a] == next[a]);
                    }
                    assert forall|k: Seq<u8>| #[trigger] excluded_stake_keys(prev, clock).contains(k) implies excluded_stake_keys(next, clock).contains(k) by {
                        let a = choose|a: int| 0 <= a < prev.len() && (#[trigger] prev[a]).0 == k && excluded_stake_account(prev[a].1, clock);
                        assert(next[a] == prev[a]);
                    }
                }
            }
        }
        j = j + 1;
    }
    proof {
        assert(yielded.take(j as int) =~= yielded);
        assert(excluded_stake_keys(yielded, clock) =~= excluded_stake_keys(s, clock)) by {
            assert forall|k: Seq<u8>| #[trigger] excluded_stake_keys(yielded, clock).contains(k) implies excluded_stake_keys(s, clock).contains(k) by {
                let a = choose|a: int| 0 <= a < yielded.len() && (#[trigger] yielded[a]).0 == k && excluded_stake_account(yielded[a].1, clock);
                assert(s.contains(yielded[a]));
                let b = choose|b: int| 0 <= b < s.len() && s[b] == yielded[a];
                assert(s[b].0 == k);
            }
            assert forall|k: Seq<u8>| #[trigger] excluded_stake_keys(s, clock).contains(k) implies excluded_stake_keys(yielded, clock).contains(k) by {
                let a = choose|a: int| 0 <= a < s.len() && (#[trigger] s[a]).0 == k && excluded_stake_account(s[a].1, clock);
                assert(yielded.contains(s[a]));
                let b = choose|b: int| 0 <= b < yielded.len() && yielded[b] == s[a];
                assert(yielded[b].0 == k);
            }
        }
    }
    let ghost keys = key_views(set@);
    let mut lamports: u64 = 0;
    let mut m: usize = 0;
    while m < set.len()
        invariant
            m <= keys.len(),
            keys == key_views(set@),
            keys.no_duplicates(),
            s == bank.store(),
            total_lamports(s) <= u64::MAX,
            bank.wf(),
            lamports == balances_sum(s, keys.take(m as int)),
        decreases keys.len() - m,
    {
        let balance = bank.get_balance(&set[m]);
        proof {
            let next = keys.take(m + 1);
            assert(next.drop_last() =~= keys.take(m as int));
            assert(next.no_duplicates()) by {
                assert forall|a: int, b: int| 0 <= a < next.len() && 0 <= b < next.len() && a != b implies next[a] != next[b] by {
                    assert(next[a] == keys[a] && next[b] == keys[b]);
                }
            }
            lemma_balances_sum(s, next);
            lemma_lamports_in_le_total(s, next.to_set());
        }
        lamports = lamports + balance;
        m = m + 1;
    }
    proof {
        assert(keys.take(m as int) =~= keys);
        lemma_balances_sum(s, keys);
    }
    Ok(NonCirculatingSupply { lamports, accounts: set })
}

/// Every identifier of the fixed list is reported, whatever its balance and
/// whatever the state of the ledger.
pub proof fn lemma_static_inclusion(bank: Bank)
    ensures
        forall|k: Seq<u8>| non_circulating_keys().contains(k) ==> #[trigger] non_circulating_set(bank).contains(k),
{
}

proof fn lemma_unique_excluded(s: Seq<(Seq<u8>, AccountView)>, clock: Clock, i: int)
    requires
        keys_unique(s),
        0 <= i < s.len(),
        !excluded_stake_account(s[i].1, clock),
    ensures
        !excluded_stake_keys(s, clock).contains(s[i].0),
{
    if excluded_stake_keys(s, clock).contains(s[i].0) {
        let a = choose|a: int| 0 <= a < s.len() && (#[trigger] s[a]).0 == s[i].0 && excluded_stake_account(s[a].1, clock);
        assert(a == i);
    }
}

/// A stake account whose lockup ends at epoch `E` is reported while the clock
/// is before `E`. On the same accounts with the clock at or past `E`, and
/// past the lockup's unlock time, it is no longer reported, unless its
/// withdraw authority is restricted or it is on the fixed list.
pub proof fn lemma_lockup_expiry(before: Bank, after: Bank, i: int)
    requires
        before.wf(),
        after.store() == before.store(),
        0 <= i < before.store().len(),
        before.store()[i].1.owner == stake_program_key(),
        meta_of(decoded_state(before.store()[i].1.data)) is Some,
    ensures
        ({
            let meta = meta_of(decoded_state(before.store()[i].1.data)).unwrap();
            let key = before.store()[i].0;
            &&& before.clock.epoch < meta.lockup.epoch ==> non_circulating_set(before).contains(key)
            &&& after.clock.epoch >= meta.lockup.epoch
                && meta.lockup.unix_timestamp <= after.clock.unix_timestamp
                && !withdraw_authority_keys().contains(meta.authorized.withdrawer@)
                && !non_circulating_keys().contains(key) ==> !non_circulating_set(after).contains(key)
        }),
{
    let s = before.store();
    let meta = meta_of(decoded_state(s[i].1.data)).unwrap();
    if before.clock.epoch < meta.lockup.epoch {
        assert(excluded_stake_keys(s, before.clock).contains(s[i].0));
    }
    if after.clock.epoch >= meta.lockup.epoch && meta.lockup.unix_timestamp <= after.clock.unix_timestamp
        && !withdraw_authority_keys().contains(meta.authorized.withdrawer@) {
        lemma_unique_excluded(s, after.clock, i);
    }
}

/// A stake account whose withdraw authority is restricted is reported at
/// every clock, before and after its lockup ends.
pub proof fn lemma_restricted_withdraw_authority(bank: Bank, i: int)
    requires
        0 <= i < bank.store().len(),
        bank.store()[i].1.owner == stake_program_key(),
        meta_of(decoded_state(bank.store()[i].1.data)) is Some,
        withdraw_authority_keys().contains(
            meta_of(decoded_state(bank.store()[i].1.data)).unwrap().authorized.withdrawer@,
        ),
    ensures
        non_circulating_set(bank).contains(bank.store()[i].0),
{
    assert(excluded_stake_keys(bank.store(), bank.clock).contains(bank.store()[i].0));
}

/// Two snapshots that differ only in balances report the same identifiers,
/// and each reports the balances it holds itself.
pub proof fn lemma_balance_freshness(
    first: Bank,
    second: Bank,
    first_report: NonCirculatingSupply,
    second_report: NonCirculatingSupply,
)
    requires
        first.clock == second.clock,
        first.store().len() == second.store().len(),
        forall|i: int|
            0 <= i < first.store().len() ==> (#[trigger] first.store()[i]).0 == second.store()[i].0
                && first.store()[i].1.owner == second.store()[i].1.owner
                && first.store()[i].1.data == second.store()[i].1.data,
        supply_of(first, first_report),
        supply_of(second, second_report),
    ensures
        key_views(first_report.accounts@).to_set() == key_views(second_report.accounts@).to_set(),
        first_report.lamports == lamports_in(first.store(), non_circulating_set(first)),
        second_report.lamports == lamports_in(second.store(), non_circulating_set(first)),
{
    let (s1, s2) = (first.store(), second.store());
    assert(excluded_stake_keys(s1, first.clock) =~= excluded_stake_keys(s2, second.clock)) by {
        assert forall|k: Seq<u8>| #[trigger] excluded_stake_keys(s1, first.clock).contains(k) implies excluded_stake_keys(s2, second.clock).contains(k) by {
            let a = choose|a: int| 0 <= a < s1.len() && (#[trigger] s1[a]).0 == k && excluded_stake_account(s1[a].1, first.clock);
            assert(s2[a].0 == k && excluded_stake_account(s2[a].1, second.clock));
        }
        assert forall|k: Seq<u8>| #[trigger] excluded_stake_keys(s2, second.clock).contains(k) implies excluded_stake_keys(s1, first.clock).contains(k) by {
            let a = choose|a: int| 0 <= a < s2.len() && (#[trigger] s2[a]).0 == k && excluded_stake_account(s2[a].1, second.clock);
            assert(s1[a] == first.store()[a]);
            assert(s1[a].0 == k && excluded_stake_account(s1[a].1, first.clock));
        }
    }
}

/// A stake account whose data decodes to no stake state is not reported,
/// unless it is on the fixed list.
pub proof fn lemma_undecodable_excluded(bank: Bank, i: int)
    requires
        bank.wf(),
        0 <= i < bank.store().len(),
        crate::stake::stake_state_of(bank.store()[i].1.data) is None,
        !non_circulating_keys().contains(bank.store()[i].0),
    ensures
        !non_circulating_set(bank).contains(bank.store()[i].0),
{
    lemma_unique_excluded(bank.store(), bank.clock, i);
}

/// Two reports of one snapshot agree: the same identifiers, as many of them,
/// and the same sum.
pub proof fn lemma_same_snapshot_same_report(
    bank: Bank,
    first: NonCirculatingSupply,
    second: NonCirculatingSupply,
)
    requires
        supply_of(bank, first),
        supply_of(bank, second),
    ensures
        key_views(first.accounts@).to_set() == key_views(second.accounts@).to_set(),
        first.accounts@.len() == second.accounts@.len(),
        first.lamports == second.lamports,
{
    key_views(first.accounts@).unique_seq_to_set();
    key_views(second.accounts@).unique_seq_to_set();
}

} // verus!
