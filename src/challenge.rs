//! The three shapes of a challenge record.
use vstd::prelude::*;

use crate::{AccountId, Balance};

verus! {

/// A challenge waiting for a rival.
#[derive(Debug, Clone, Copy, PartialEq, Eq, Structural)]
pub struct OpenChallenge {
    pub challenger: AccountId,
    pub bet_amount: Balance,
}

/// A challenge between two players, waiting for their moves and the reveal.
#[derive(Debug, Clone, Copy, PartialEq, Eq, Structural)]
pub struct AcceptedChallenge {
    pub challenger: AccountId,
    pub rival: AccountId,
    pub bet_amount: Balance,
}

/// A settled challenge; `winner` is `None` after a draw.
#[derive(Debug, Clone, Copy, PartialEq, Eq, Structural)]
pub struct FinishedChallenge {
    pub challenger: AccountId,
    pub rival: AccountId,
    pub bet_amount: Balance,
    pub winner: Option<AccountId>,
}

/// The state of a challenge: exactly one of the three shapes.
#[derive(Debug, Clone, Copy, PartialEq, Eq, Structural)]
pub enum ChallengeState {
    Open(OpenChallenge),
    Accepted(AcceptedChallenge),
    Finished(FinishedChallenge),
}

impl AcceptedChallenge {
    /// Whether `player` is one of the two participants.
    pub open spec fn has_player(self, player: AccountId) -> bool {
        self.challenger == player || self.rival == player
    }

    /// The counter-party of `player`, if `player` takes part.
    pub open spec fn rival_of(self, player: AccountId) -> Option<AccountId> {
        if self.challenger == player {
            Some(self.rival)
        } else if self.rival == player {
            Some(self.challenger)
        } else {
            None
        }
    }

    /// The challenge `open_challenge` once `rival` has entered it.
    pub fn from_open(open_challenge: OpenChallenge, rival: AccountId) -> (r: Self)
        ensures
            r == (AcceptedChallenge {
                challenger: open_challenge.challenger,
                rival,
                bet_amount: open_challenge.bet_amount,
            }),
    {
        AcceptedChallenge {
            challenger: open_challenge.challenger,
            rival,
            bet_amount: open_challenge.bet_amount,
        }
    }

    pub fn contains_player(&self, player: &AccountId) -> (r: bool)
        ensures
            r == self.has_player(*player),
    {
        self.challenger == *player || self.rival == *player
    }

    pub fn get_rival(&self, player: &AccountId) -> (r: Option<AccountId>)
        ensures
            r == self.rival_of(*player),
    {
        if self.challenger == *player {
            Some(self.rival)
        } else if self.rival == *player {
            Some(self.challenger)
        } else {
            None
        }
    }
}

impl FinishedChallenge {
    /// The challenge `accepted_challenge` once settled with `winner`.
    pub fn from_accepted(accepted_challenge: AcceptedChallenge, winner: Option<AccountId>) -> (r:
        Self)
        ensures
            r == (FinishedChallenge {
                challenger: accepted_challenge.challenger,
                rival: accepted_challenge.rival,
                bet_amount: accepted_challenge.bet_amount,
                winner,
            }),
    {
        FinishedChallenge {
            challenger: accepted_challenge.challenger,
            rival: accepted_challenge.rival,
            bet_amount: accepted_challenge.bet_amount,
            winner,
        }
    }
}

} // verus!
