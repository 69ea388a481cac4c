//! Non-circulating supply of a ledger snapshot: the accounts that are locked
//! or administratively restricted, and the sum of their current balances.

pub mod bank;
pub mod non_circulating_supply;
pub mod pubkey;
pub mod stake;

pub use bank::{Account, Bank, ScanError, ScanResult};
pub use non_circulating_supply::{
    calculate_non_circulating_supply, is_excluded_stake, non_circulating_accounts,
    withdraw_authority, NonCirculatingSupply,
};
pub use pubkey::Pubkey;
pub use stake::{Authorized, Clock, Lockup, Meta, StakeState};
