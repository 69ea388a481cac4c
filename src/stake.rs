//! The parts of a stake account's state that decide whether its balance
//! circulates, and the clock that lockups are measured against.

use crate::pubkey::Pubkey;
use solana_stake_interface::state::{Meta as StakeMeta, StakeStateV2};
use solana_stake_program::stake_state;
use vstd::prelude::*;

verus! {

/// The ledger's clock at the time of a computation.
#[derive(Clone, Copy, Debug)]
pub struct Clock {
    pub epoch: u64,
    pub unix_timestamp: i64,
}

/// A restriction on withdrawals until a time or an epoch is reached.
#[derive(Clone, Copy, Debug)]
pub struct Lockup {
    pub unix_timestamp: i64,
    pub epoch: u64,
    pub custodian: Pubkey,
}

/// The identities allowed to stake and to withdraw.
#[derive(Clone, Copy, Debug)]
pub struct Authorized {
    pub staker: Pubkey,
    pub withdrawer: Pubkey,
}

/// Authorization and lockup metadata of an initialized stake account.
#[derive(Clone, Copy, Debug)]
pub struct Meta {
    pub rent_exempt_reserve: u64,
    pub authorized: Authorized,
    pub lockup: Lockup,
}

/// The state of a stake account, reduced to what classification reads: a
/// delegated account keeps its metadata, its delegation is left out.
#[derive(Clone, Copy, Debug)]
pub enum StakeState {
    Uninitialized,
    Initialized(Meta),
    Stake(Meta),
    RewardsPool,
}

/// A lockup is in force, with no custodian signing, while its unlock time or
/// its unlock epoch lies ahead of the clock.
pub open spec fn lockup_in_force(lockup: Lockup, clock: Clock) -> bool {
    lockup.unix_timestamp > clock.unix_timestamp || lockup.epoch > clock.epoch
}

/// The metadata of an initialized or delegated account.
pub open spec fn meta_of(state: StakeState) -> Option<Meta> {
    match state {
        StakeState::Initialized(meta) => Some(meta),
        StakeState::Stake(meta) => Some(meta),
        _ => None,
    }
}

/// The stake state that account data decodes to, or `None` where it does not
/// decode.
pub uninterp spec fn stake_state_of(data: Seq<u8>) -> Option<StakeState>;

/// Decoding with failure read as an uninitialized account.
pub open spec fn decoded_state(data: Seq<u8>) -> StakeState {
    match stake_state_of(data) {
        Some(state) => state,
        None => StakeState::Uninitialized,
    }
}

impl Meta {
    /// Metadata from its fields, identifiers given as raw bytes.
    pub fn new(
        rent_exempt_reserve: u64,
        staker: [u8; 32],
        withdrawer: [u8; 32],
        unix_timestamp: i64,
        epoch: u64,
        custodian: [u8; 32],
    ) -> (r: Meta)
        ensures
            r.rent_exempt_reserve == rent_exempt_reserve,
            r.authorized.staker@ == staker@,
            r.authorized.withdrawer@ == withdrawer@,
            r.lockup.unix_timestamp == unix_timestamp,
            r.lockup.epoch == epoch,
            r.lockup.custodian@ == custodian@,
    {
        Meta {
            rent_exempt_reserve,
            authorized: Authorized {
                staker: Pubkey::new_from_array(staker),
                withdrawer: Pubkey::new_from_array(withdrawer),
            },
            lockup: Lockup {
                unix_timestamp,
                epoch,
                custodian: Pubkey::new_from_array(custodian),
            },
        }
    }
}

/// The identifier of the stake program, `Stake11111111111111111111111111111111111111`.
pub open spec fn stake_program_key() -> Seq<u8> {
    seq![
        6u8, 161, 216, 23, 145, 55, 84, 42, 152, 52, 55, 189, 254, 42, 122, 178,
        85, 127, 83, 92, 138, 120, 114, 43, 104, 164, 157, 192, 0, 0, 0, 0,
    ]
}

/// Relies on solana_stake_interface's `program::id`: the stake program's
/// identifier.
#[verifier::external_body]
pub(crate) fn stake_program_id() -> (r: Pubkey)
    ensures
        r@ == stake_program_key(),
{
    Pubkey::new_from_array(solana_stake_interface::program::id().to_bytes())
}

/// Relies on solana_stake_interface's `Lockup::is_in_force`, called with no
/// custodian: true while the unlock time or the unlock epoch is ahead of the clock.
#[verifier::external_body]
fn lockup_is_in_force(lockup: &Lockup, clock: &Clock) -> (r: bool)
    ensures
        r == lockup_in_force(*lockup, *clock),
{
    let lockup = solana_stake_interface::state::Lockup {
        unix_timestamp: lockup.unix_timestamp,
        epoch: lockup.epoch,
        custodian: solana_pubkey::Pubkey::new_from_array(lockup.custodian.bytes),
    };
    let clock = solana_clock::Clock {
        epoch: clock.epoch,
        unix_timestamp: clock.unix_timestamp,
        ..Default::default()
    };
    lockup.is_in_force(&clock, None)
}

/// Relies on solana_stake_program's `stake_state::from`: the stake state that
/// an account's data decodes to, `None` where it does not decode. The result
/// depends on the data alone.
#[verifier::external_body]
fn decode_stake_state(data: &Vec<u8>) -> (r: Option<StakeState>)
    ensures
        r == stake_state_of(data@),
{
    let owner = solana_stake_interface::program::id();
    let account = solana_account::Account { lamports: 0, data: data.clone(), owner, executable: false, rent_epoch: 0 };
    let meta = |m: StakeMeta| Meta::new(m.rent_exempt_reserve, m.authorized.staker.to_bytes(), m.authorized.withdrawer.to_bytes(), m.lockup.unix_timestamp, m.lockup.epoch, m.lockup.custodian.to_bytes());
    stake_state::from(&account).map(|s| match s {
        StakeStateV2::Uninitialized => StakeState::Uninitialized,
        StakeStateV2::Initialized(m) => StakeState::Initialized(meta(m)),
        StakeStateV2::Stake(m, _, _) => StakeState::Stake(meta(m)),
        StakeStateV2::RewardsPool => StakeState::RewardsPool,
    })
}

impl Lockup {
    /// Whether the lockup is in force at `clock`, with no custodian signing.
    pub fn is_in_force(&self, clock: &Clock) -> (r: bool)
        ensures
            r == lockup_in_force(*self, *clock),
    {
        lockup_is_in_force(self, clock)
    }
}

impl StakeState {
    /// Decodes account data; data that holds no stake state reads as
    /// `Uninitialized`.
    pub fn from_data(data: &Vec<u8>) -> (r: StakeState)
        ensures
            r == decoded_state(data@),
    {
        match decode_stake_state(data) {
            Some(state) => state,
            None => StakeState::Uninitialized,
        }
    }

    /// The metadata of an initialized or delegated account, `None` otherwise.
    pub fn meta(&self) -> (r: Option<Meta>)
        ensures
            r == meta_of(*self),
    {
        match self {
            StakeState::Initialized(meta) => Some(*meta),
            StakeState::Stake(meta) => Some(*meta),
            _ => None,
        }
    }
}

} // verus!
