//! A two-party, staked rock-paper-scissors game: challenges move from open to
//! accepted to finished, each player commits to a hashed move, and a reveal
//! settles the stakes through an escrow ledger.
use vstd::prelude::*;

pub mod challenge;
pub mod ledger;
pub mod pallet;
pub mod play;

pub use challenge::{AcceptedChallenge, ChallengeState, FinishedChallenge, OpenChallenge};
pub use ledger::{AccountData, Balances, EscrowLedger, LedgerError};
pub use pallet::{Error, Event, Pallet};
pub use play::{ChallengePlay, PlayResult};

verus! {

/// Identifier of a challenge, allocated from a counter that starts at zero.
pub type ChallengeId = u64;

/// An account of the ledger.
pub type AccountId = u64;

/// An amount of funds.
pub type Balance = u64;

/// The eight-byte digest that commits a player to a move.
pub type ChallengePlayHash = [u8; 8];

} // verus!
