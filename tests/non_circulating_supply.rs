use non_circulating_supply::{
    calculate_non_circulating_supply, is_excluded_stake, non_circulating_accounts,
    withdraw_authority, Account, Bank, Clock, Lockup, Pubkey, ScanError, StakeState,
};
use solana_stake_interface::state::{
    Authorized as StakeAuthorized, Lockup as StakeLockup, Meta as StakeMeta, Stake,
    StakeStateV2,
};
use solana_stake_interface::stake_flags::StakeFlags;
use std::str::FromStr;

fn key(n: u8, m: u8) -> Pubkey {
    let mut bytes = [0u8; 32];
    bytes[0] = 200;
    bytes[1] = n;
    bytes[2] = m;
    Pubkey::new_from_array(bytes)
}

fn outside_key(k: &Pubkey) -> solana_pubkey::Pubkey {
    solana_pubkey::Pubkey::new_from_array(k.bytes)
}

fn stake_program() -> Pubkey {
    Pubkey::new_from_array(solana_stake_interface::program::id().to_bytes())
}

fn plain_account(lamports: u64) -> Account {
    Account { lamports, owner: Pubkey::new_from_array([0u8; 32]), data: vec![] }
}

fn encode(state: &StakeStateV2) -> Vec<u8> {
    let mut data = bincode::serialize(state).unwrap();
    data.resize(StakeStateV2::size_of(), 0);
    data
}

fn stake_account(lamports: u64, state: &StakeStateV2) -> Account {
    Account { lamports, owner: stake_program(), data: encode(state) }
}

fn locked_meta(owner: &Pubkey, epoch: u64) -> StakeMeta {
    StakeMeta {
        authorized: StakeAuthorized::auto(&outside_key(owner)),
        lockup: StakeLockup { epoch, ..StakeLockup::default() },
        ..StakeMeta::default()
    }
}

fn bank_with(accounts: Vec<(Pubkey, Account)>, epoch: u64) -> Bank {
    Bank {
        slot: 1,
        bank_id: 1,
        clock: Clock { epoch, unix_timestamp: 0 },
        accounts,
        program_id_index: None,
        removed: false,
    }
}

fn full_index(bank: &Bank) -> Vec<(Pubkey, Pubkey)> {
    bank.accounts.iter().map(|(k, a)| (a.owner, *k)).collect()
}

fn reported(report: &non_circulating_supply::NonCirculatingSupply, k: &Pubkey) -> bool {
    report.accounts.iter().any(|a| a.bytes == k.bytes)
}

#[test]
fn test_calculate_non_circulating_supply() {
    let mut accounts: Vec<(Pubkey, Account)> = Vec::new();
    let balance = 10;
    let num_genesis_accounts = 10;
    for i in 0..num_genesis_accounts {
        accounts.push((key(1, i as u8), plain_account(balance)));
    }
    let non_circulating_accounts = non_circulating_accounts();
    let num_non_circulating_accounts = non_circulating_accounts.len() as u64;
    for k in non_circulating_accounts.clone() {
        accounts.push((k, plain_account(balance)));
    }
    let num_stake_accounts = 3;
    for i in 0..num_stake_accounts {
        let pubkey = key(2, i as u8);
        let meta = locked_meta(&pubkey, 1);
        accounts.push((pubkey, stake_account(balance, &StakeStateV2::Initialized(meta))));
    }
    let mut bank = bank_with(accounts, 0);

    let non_circulating_supply = calculate_non_circulating_supply(&bank).unwrap();
    assert_eq!(
        non_circulating_supply.lamports,
        (num_non_circulating_accounts + num_stake_accounts) * balance
    );
    assert_eq!(
        non_circulating_supply.accounts.len(),
        num_non_circulating_accounts as usize + num_stake_accounts as usize
    );

    let new_balance = 11;
    for (k, a) in bank.accounts.iter_mut() {
        if non_circulating_accounts.iter().any(|n| n.bytes == k.bytes) {
            a.lamports = new_balance;
        }
    }
    let non_circulating_supply = calculate_non_circulating_supply(&bank).unwrap();
    assert_eq!(
        non_circulating_supply.lamports,
        (num_non_circulating_accounts * new_balance) + (num_stake_accounts * balance)
    );
    assert_eq!(
        non_circulating_supply.accounts.len(),
        num_non_circulating_accounts as usize + num_stake_accounts as usize
    );

    // One epoch later the stakes unlock.
    bank.clock.epoch = 1;
    let non_circulating_supply = calculate_non_circulating_supply(&bank).unwrap();
    assert_eq!(non_circulating_supply.lamports, num_non_circulating_accounts * new_balance);
    assert_eq!(non_circulating_supply.accounts.len(), num_non_circulating_accounts as usize);
}

#[test]
fn fixed_lists_match_their_base58_names() {
    let statics = non_circulating_accounts();
    assert_eq!(statics.len(), 1);
    let expected = solana_pubkey::Pubkey::from_str("11111111111111111111111111111112").unwrap();
    assert_eq!(statics[0].bytes, expected.to_bytes());

    let names = [
        "8CUUMKYNGxdgYio5CLHRHyzMEhhVRMcqefgE6dLqnVRK",
        "3FFaheyqtyAXZSYxDzsr5CVKvJuvZD1WE1VEsBtDbRqB",
        "FdGYQdiRky8NZzN9wZtczTBcWLYYRXrJ3LMDhqDPn5rM",
        "4e6KwQpyzGQPfgVr5Jn3g5jLjbXB4pKPa2jRLohEb1QA",
        "FjiEiVKyMGzSLpqoB27QypukUfyWHrwzPcGNtopzZVdh",
        "DwbVjia1mYeSGoJipzhaf4L5hfer2DJ1Ys681VzQm5YY",
        "GeMGyvsTEsANVvcT5cme65Xq5MVU8fVVzMQ13KAZFNS2",
        "Bj3aQ2oFnZYfNR1njzRjmWizzuhvfcYLckh76cqsbuBM",
        "4ZJhPQAgUseCsWhKvJLTmmRRUV74fdoTpQLNfKoekbPY",
        "HXdYQ5gixrY2H6Y9gqsD8kPM2JQKSaRiohDQtLbZkRWE",
    ];
    let authorities = withdraw_authority();
    assert_eq!(authorities.len(), names.len());
    for (k, name) in authorities.iter().zip(names.iter()) {
        assert_eq!(k.bytes, solana_pubkey::Pubkey::from_str(name).unwrap().to_bytes());
    }
}

#[test]
fn static_account_reported_without_balance() {
    let bank = bank_with(vec![(key(1, 0), plain_account(5))], 0);
    let report = calculate_non_circulating_supply(&bank).unwrap();
    assert_eq!(report.lamports, 0);
    assert_eq!(report.accounts.len(), 1);
    assert_eq!(report.accounts[0].bytes, non_circulating_accounts()[0].bytes);
}

#[test]
fn static_account_at_zero_balance_is_reported() {
    let statics = non_circulating_accounts();
    let bank = bank_with(vec![(statics[0], plain_account(0))], 0);
    let report = calculate_non_circulating_supply(&bank).unwrap();
    assert_eq!(report.lamports, 0);
    assert!(reported(&report, &statics[0]));
}

#[test]
fn lockup_expiry_removes_the_account() {
    let k = key(2, 0);
    let account = stake_account(7, &StakeStateV2::Initialized(locked_meta(&k, 5)));
    let mut bank = bank_with(vec![(k, account)], 4);
    let report = calculate_non_circulating_supply(&bank).unwrap();
    assert!(reported(&report, &k));
    assert_eq!(report.lamports, 7);
    bank.clock.epoch = 5;
    let report = calculate_non_circulating_supply(&bank).unwrap();
    assert!(!reported(&report, &k));
    assert_eq!(report.lamports, 0);
}

#[test]
fn lockup_by_unix_timestamp_is_in_force() {
    let k = key(2, 1);
    let mut meta = locked_meta(&k, 0);
    meta.lockup.unix_timestamp = 1_000;
    let account = stake_account(3, &StakeStateV2::Initialized(meta));
    let mut bank = bank_with(vec![(k, account)], 10);
    bank.clock.unix_timestamp = 999;
    assert!(reported(&calculate_non_circulating_supply(&bank).unwrap(), &k));
    bank.clock.unix_timestamp = 1_000;
    assert!(!reported(&calculate_non_circulating_supply(&bank).unwrap(), &k));
}

#[test]
fn custodian_does_not_lift_the_lockup() {
    let k = key(2, 2);
    let mut meta = locked_meta(&k, 3);
    meta.lockup.custodian = outside_key(&k);
    let account = stake_account(4, &StakeStateV2::Initialized(meta));
    let bank = bank_with(vec![(k, account)], 0);
    assert!(reported(&calculate_non_circulating_supply(&bank).unwrap(), &k));
}

#[test]
fn restricted_withdraw_authority_after_lockup() {
    let k = key(2, 3);
    let authority = withdraw_authority()[3];
    let mut meta = locked_meta(&k, 0);
    meta.authorized.withdrawer = outside_key(&authority);
    let account = stake_account(9, &StakeStateV2::Initialized(meta));
    let bank = bank_with(vec![(k, account)], 100);
    let report = calculate_non_circulating_supply(&bank).unwrap();
    assert!(reported(&report, &k));
    assert_eq!(report.lamports, 9);
}

#[test]
fn delegated_account_is_classified_by_its_meta() {
    let k = key(2, 4);
    let state = StakeStateV2::Stake(locked_meta(&k, 2), Stake::default(), StakeFlags::empty());
    let bank = bank_with(vec![(k, stake_account(6, &state))], 1);
    assert!(reported(&calculate_non_circulating_supply(&bank).unwrap(), &k));
    let bank = bank_with(vec![(k, stake_account(6, &state))], 2);
    assert!(!reported(&calculate_non_circulating_supply(&bank).unwrap(), &k));
}

#[test]
fn uninitialized_and_rewards_pool_are_never_reported() {
    let a = key(2, 5);
    let b = key(2, 6);
    let bank = bank_with(
        vec![
            (a, stake_account(1, &StakeStateV2::Uninitialized)),
            (b, stake_account(1, &StakeStateV2::RewardsPool)),
        ],
        0,
    );
    let report = calculate_non_circulating_supply(&bank).unwrap();
    assert_eq!(report.accounts.len(), 1);
    assert_eq!(report.lamports, 0);
}

#[test]
fn undecodable_stake_account_is_skipped() {
    let bad = key(2, 7);
    let good = key(2, 8);
    let bank = bank_with(
        vec![
            (bad, Account { lamports: 50, owner: stake_program(), data: vec![9, 9, 9] }),
            (good, stake_account(5, &StakeStateV2::Initialized(locked_meta(&good, 1)))),
        ],
        0,
    );
    let report = calculate_non_circulating_supply(&bank).unwrap();
    assert!(!reported(&report, &bad));
    assert!(reported(&report, &good));
    assert_eq!(report.lamports, 5);
}

#[test]
fn locked_state_under_another_owner_is_ignored() {
    let k = key(2, 9);
    let mut account = stake_account(8, &StakeStateV2::Initialized(locked_meta(&k, 9)));
    account.owner = key(3, 0);
    let bank = bank_with(vec![(k, account)], 0);
    assert!(!reported(&calculate_non_circulating_supply(&bank).unwrap(), &k));
}

#[test]
fn indexed_enumeration_skips_stale_entries() {
    let locked = key(2, 10);
    let reinitialized = key(2, 11);
    let mut bank = bank_with(
        vec![
            (locked, stake_account(4, &StakeStateV2::Initialized(locked_meta(&locked, 3)))),
            (reinitialized, plain_account(0)),
        ],
        0,
    );
    let scanned = calculate_non_circulating_supply(&bank).unwrap();
    let mut index = full_index(&bank);
    // An entry left behind from when the account belonged to the stake program.
    index.push((stake_program(), reinitialized));
    // An entry for an account that is gone.
    index.push((stake_program(), key(9, 9)));
    bank.program_id_index = Some(index);
    let indexed = calculate_non_circulating_supply(&bank).unwrap();
    assert_eq!(indexed.lamports, scanned.lamports);
    assert_eq!(indexed.lamports, 4);
    assert_eq!(indexed.accounts.len(), 2);
    assert!(reported(&indexed, &locked));
    assert!(!reported(&indexed, &reinitialized));
}

#[test]
fn removed_slot_fails_the_scan() {
    let mut bank = bank_with(vec![(key(1, 1), plain_account(1))], 0);
    bank.slot = 42;
    bank.bank_id = 7;
    bank.removed = true;
    let result = calculate_non_circulating_supply(&bank);
    assert!(matches!(result, Err(ScanError::SlotRemoved { slot: 42, bank_id: 7 })));
    bank.program_id_index = Some(full_index(&bank));
    let result = calculate_non_circulating_supply(&bank);
    assert!(matches!(result, Err(ScanError::SlotRemoved { slot: 42, bank_id: 7 })));
}

#[test]
fn same_snapshot_gives_the_same_report() {
    let k = key(2, 12);
    let statics = non_circulating_accounts();
    let bank = bank_with(
        vec![
            (statics[0], plain_account(20)),
            (k, stake_account(4, &StakeStateV2::Initialized(locked_meta(&k, 3)))),
            (key(1, 3), plain_account(30)),
        ],
        0,
    );
    let first = calculate_non_circulating_supply(&bank).unwrap();
    let second = calculate_non_circulating_supply(&bank).unwrap();
    assert_eq!(first.lamports, 24);
    assert_eq!(first.lamports, second.lamports);
    let a: Vec<[u8; 32]> = first.accounts.iter().map(|k| k.bytes).collect();
    let b: Vec<[u8; 32]> = second.accounts.iter().map(|k| k.bytes).collect();
    assert_eq!(a, b);
}

#[test]
fn balance_change_keeps_membership() {
    let k = key(2, 13);
    let mut bank = bank_with(
        vec![(k, stake_account(4, &StakeStateV2::Initialized(locked_meta(&k, 3))))],
        0,
    );
    let before = calculate_non_circulating_supply(&bank).unwrap();
    bank.accounts[0].1.lamports = 40;
    let after = calculate_non_circulating_supply(&bank).unwrap();
    assert_eq!(before.lamports, 4);
    assert_eq!(after.lamports, 40);
    assert_eq!(before.accounts.len(), after.accounts.len());
    assert!(reported(&after, &k));
}

#[test]
fn balance_lookup_is_zero_for_absent_accounts() {
    let bank = bank_with(vec![(key(1, 4), plain_account(12))], 0);
    assert_eq!(bank.get_balance(&key(1, 4)), 12);
    assert_eq!(bank.get_balance(&key(1, 5)), 0);
}

#[test]
fn decoding_reads_the_meta() {
    let k = key(2, 14);
    let data = encode(&StakeStateV2::Initialized(locked_meta(&k, 6)));
    match StakeState::from_data(&data) {
        StakeState::Initialized(meta) => {
            assert_eq!(meta.lockup.epoch, 6);
            assert_eq!(meta.authorized.withdrawer.bytes, k.bytes);
            assert_eq!(meta.authorized.staker.bytes, k.bytes);
        }
        other => panic!("unexpected state {:?}", other),
    }
    assert!(matches!(StakeState::from_data(&vec![1, 2]), StakeState::Uninitialized));
}

#[test]
fn lockup_in_force_follows_epoch_and_time() {
    let custodian = key(4, 0);
    let lockup = Lockup { unix_timestamp: 100, epoch: 5, custodian };
    assert!(lockup.is_in_force(&Clock { epoch: 4, unix_timestamp: 200 }));
    assert!(lockup.is_in_force(&Clock { epoch: 9, unix_timestamp: 99 }));
    assert!(!lockup.is_in_force(&Clock { epoch: 5, unix_timestamp: 100 }));
}

#[test]
fn exclusion_rule_on_decoded_states() {
    let k = key(2, 15);
    let list = withdraw_authority();
    let clock = Clock { epoch: 3, unix_timestamp: 0 };
    let data = encode(&StakeStateV2::Initialized(locked_meta(&k, 4)));
    assert!(is_excluded_stake(&StakeState::from_data(&data), &clock, &list));
    let data = encode(&StakeStateV2::Initialized(locked_meta(&k, 3)));
    assert!(!is_excluded_stake(&StakeState::from_data(&data), &clock, &list));
    assert!(!is_excluded_stake(&StakeState::RewardsPool, &clock, &list));
}
