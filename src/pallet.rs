//! The challenge state machine: the registry of challenges, the store of
//! committed moves, the event log, and the four operations that drive a
//! challenge from open to finished.
use vstd::prelude::*;

use std::collections::BTreeMap;

use crate::challenge::{AcceptedChallenge, ChallengeState, FinishedChallenge, OpenChallenge};
use crate::ledger::{min_nat, others_unchanged, EscrowLedger, LedgerError};
use crate::play::{commitment_of, play_outcome, verifies, ChallengePlay, PlayResult};
use crate::{AccountId, Balance, ChallengeId, ChallengePlayHash};

verus! {

/// What a successful operation reports, in the order it happened.
#[derive(Debug, Clone, Copy, PartialEq, Eq, Structural)]
pub enum Event {
    /// A challenge was created: its id, its creator and its stake.
    ChallengeCreated(ChallengeId, AccountId, Balance),
    /// An account entered a challenge: the challenge's id and the account.
    EnteredChallenge(ChallengeId, AccountId),
    /// An account committed its move: the challenge's id and the account.
    PlayedInChallenge(ChallengeId, AccountId),
    /// Both players of the challenge have committed their moves.
    ChallengeReadyForReveal(ChallengeId),
    /// A challenge was settled: its winner, or `None` after a draw.
    ChallengeFinished(Option<AccountId>),
}

/// Why an operation was refused. A refused operation changes nothing.
#[derive(Debug, Clone, Copy, PartialEq, Eq, Structural)]
pub enum Error {
    /// The stake is below the minimum.
    InsufficientBetAmount,
    /// No challenge has the given id.
    ChallengeNotFound,
    /// The challenge is not open, so it cannot be entered.
    ChallengeNotOpen,
    /// An account cannot enter the challenge it created.
    CannotChallengeOneself,
    /// The account takes no part in the challenge, or has already played in it.
    CannotPlayInNonParticipatingChallenge,
    /// The challenge is not accepted, so moves cannot be played or revealed.
    ChallengeStateForbidsPlay,
    /// Not both players have committed a move yet.
    ChallengeStateForbidsResolution,
    /// The ledger refused an operation.
    InvalidState,
    /// The account takes no part in the challenge it tried to reveal.
    CannotRevealNonParticipatingChallenge,
    /// A revealed move and secret do not reproduce the stored commitment.
    InvalidHandHash,
}

impl From<LedgerError> for Error {
    fn from(e: LedgerError) -> (r: Error)
        ensures
            r == Error::InvalidState,
    {
        Error::InvalidState
    }
}

impl vstd::std_specs::convert::FromSpecImpl<LedgerError> for Error {
    open spec fn obeys_from_spec() -> bool {
        true
    }

    open spec fn from_spec(e: LedgerError) -> Error {
        Error::InvalidState
    }
}

/// The abstract state of the game.
pub struct PalletState {
    /// The smallest stake a challenge may be created with.
    pub min_bet_amount: Balance,
    /// The id the next challenge will get.
    pub next_challenge_id: ChallengeId,
    /// Every challenge ever created, by id.
    pub challenges: Map<ChallengeId, ChallengeState>,
    /// The committed move of each player, by challenge and player.
    pub plays: Map<(ChallengeId, AccountId), Seq<u8>>,
    /// Everything reported so far, oldest first.
    pub events: Seq<Event>,
}

/// The player of `c` that is not `player`.
pub open spec fn counterpart(c: AcceptedChallenge, player: AccountId) -> AccountId {
    if c.challenger == player {
        c.rival
    } else {
        c.challenger
    }
}

impl PalletState {
    /// The invariant of the game's state.
    pub open spec fn valid(self) -> bool {
        &&& forall|id: ChallengeId| #[trigger]
            self.challenges.contains_key(id) ==> id < self.next_challenge_id
        &&& forall|id: ChallengeId| #[trigger]
            self.challenges.contains_key(id) ==> match self.challenges[id] {
                ChallengeState::Open(o) => o.bet_amount >= self.min_bet_amount,
                ChallengeState::Accepted(a) => a.challenger != a.rival,
                ChallengeState::Finished(f) => f.challenger != f.rival && (f.winner matches Some(
                    w,
                ) ==> w == f.challenger || w == f.rival),
            }
        &&& forall|id: ChallengeId, who: AccountId| #[trigger]
            self.plays.contains_key((id, who)) ==> self.challenges.contains_key(id) && match self.challenges[id] {
                ChallengeState::Open(_) => false,
                ChallengeState::Accepted(a) => a.has_player(who),
                ChallengeState::Finished(f) => f.challenger == who || f.rival == who,
            }
    }

    /// What `create_challenge(challenger, bet_amount)` returns.
    pub open spec fn create_result(self, bet_amount: Balance) -> Result<(), Error> {
        if bet_amount < self.min_bet_amount {
            Err(Error::InsufficientBetAmount)
        } else {
            Ok(())
        }
    }

    /// The state after a successful `create_challenge(challenger, bet_amount)`.
    pub open spec fn after_create(self, challenger: AccountId, bet_amount: Balance) -> PalletState {
        let id = self.next_challenge_id;
        PalletState {
            next_challenge_id: (id + 1) as ChallengeId,
            challenges: self.challenges.insert(
                id,
                ChallengeState::Open(OpenChallenge { challenger, bet_amount }),
            ),
            events: self.events.push(Event::ChallengeCreated(id, challenger, bet_amount)),
            ..self
        }
    }

    /// What `enter_challenge(rival, id)` returns.
    pub open spec fn enter_result(self, rival: AccountId, id: ChallengeId) -> Result<(), Error> {
        if !self.challenges.contains_key(id) {
            Err(Error::ChallengeNotFound)
        } else {
            match self.challenges[id] {
                ChallengeState::Open(o) => if o.challenger == rival {
                    Err(Error::CannotChallengeOneself)
                } else {
                    Ok(())
                },
                _ => Err(Error::ChallengeNotOpen),
            }
        }
    }

    /// The state after a successful `enter_challenge(rival, id)`.
    pub open spec fn after_enter(self, rival: AccountId, id: ChallengeId) -> PalletState
        recommends
            self.challenges.contains_key(id),
            self.challenges[id] is Open,
    {
        let o = self.challenges[id]->Open_0;
        PalletState {
            challenges: self.challenges.insert(
                id,
                ChallengeState::Accepted(
                    AcceptedChallenge { challenger: o.challenger, rival, bet_amount: o.bet_amount },
                ),
            ),
            events: self.events.push(Event::EnteredChallenge(id, rival)),
            ..self
        }
    }

    /// Whether `player` may commit a move in challenge `id`; if so, the
    /// accepted challenge.
    pub open spec fn play_check(self, player: AccountId, id: ChallengeId) -> Result<
        AcceptedChallenge,
        Error,
    > {
        if !self.challenges.contains_key(id) {
            Err(Error::ChallengeNotFound)
        } else {
            match self.challenges[id] {
                ChallengeState::Accepted(a) => if !a.has_player(player) || self.plays.contains_key(
                    (id, player),
                ) {
                    Err(Error::CannotPlayInNonParticipatingChallenge)
                } else {
                    Ok(a)
                },
                _ => Err(Error::ChallengeStateForbidsPlay),
            }
        }
    }

    /// The state after `player` committed `hash` in the accepted challenge `id`.
    pub open spec fn after_play(self, player: AccountId, id: ChallengeId, hash: Seq<u8>) -> PalletState
        recommends
            self.challenges.contains_key(id),
            self.challenges[id] is Accepted,
    {
        let a = self.challenges[id]->Accepted_0;
        let plays = self.plays.insert((id, player), hash);
        let events = self.events.push(Event::PlayedInChallenge(id, player));
        PalletState {
            plays,
            events: if plays.contains_key((id, a.challenger)) && plays.contains_key((id, a.rival)) {
                events.push(Event::ChallengeReadyForReveal(id))
            } else {
                events
            },
            ..self
        }
    }

    /// Whether `player`'s reveal of challenge `id` is accepted; if so, the
    /// finished challenge it settles into.
    pub open spec fn reveal_check(
        self,
        player: AccountId,
        origin_hand: ChallengePlay,
        origin_secret: u64,
        rival_hand: ChallengePlay,
        rival_secret: u64,
        id: ChallengeId,
    ) -> Result<FinishedChallenge, Error> {
        if !self.challenges.contains_key(id) {
            Err(Error::ChallengeNotFound)
        } else {
            match self.challenges[id] {
                ChallengeState::Accepted(a) => {
                    let rival = counterpart(a, player);
                    if !a.has_player(player) {
                        Err(Error::CannotRevealNonParticipatingChallenge)
                    } else if !self.plays.contains_key((id, player)) {
                        Err(Error::ChallengeStateForbidsResolution)
                    } else if !verifies(origin_hand, origin_secret, self.plays[(id, player)]) {
                        Err(Error::InvalidHandHash)
                    } else if !self.plays.contains_key((id, rival)) {
                        Err(Error::ChallengeStateForbidsResolution)
                    } else if !verifies(rival_hand, rival_secret, self.plays[(id, rival)]) {
                        Err(Error::InvalidHandHash)
                    } else {
                        let winner = match play_outcome(origin_hand, rival_hand) {
                            PlayResult::Win => Some(player),
                            PlayResult::Lose => Some(rival),
                            PlayResult::Draw => None,
                        };
                        Ok(
                            FinishedChallenge {
                                challenger: a.challenger,
                                rival: a.rival,
                                bet_amount: a.bet_amount,
                                winner,
                            },
                        )
                    }
                },
                _ => Err(Error::ChallengeStateForbidsPlay),
            }
        }
    }

    /// The state after challenge `id` settled into `finished`.
    pub open spec fn after_reveal(self, id: ChallengeId, finished: FinishedChallenge) -> PalletState {
        PalletState {
            challenges: self.challenges.insert(id, ChallengeState::Finished(finished)),
            events: self.events.push(Event::ChallengeFinished(finished.winner)),
            ..self
        }
    }
}

/// The player of `f` that did not win it.
pub open spec fn loser_of(f: FinishedChallenge) -> AccountId {
    if f.winner == Some(f.challenger) {
        f.rival
    } else {
        f.challenger
    }
}

/// `post` is `pre` after the stakes of a decisive challenge were settled:
/// `stake` of the loser's locked funds went to the winner, whose locked funds,
/// up to twice the stake, then became free.
pub open spec fn settled_decisive<L: EscrowLedger>(
    pre: L,
    post: L,
    winner: AccountId,
    loser: AccountId,
    stake: nat,
) -> bool {
    let moved = min_nat(2 * stake, pre.reserved_balance(winner) + stake);
    &&& pre.reserved_balance(loser) >= stake
    &&& post.reserved_balance(loser) == pre.reserved_balance(loser) - stake
    &&& post.free_balance(loser) == pre.free_balance(loser)
    &&& post.free_balance(winner) == pre.free_balance(winner) + moved
    &&& post.reserved_balance(winner) == pre.reserved_balance(winner) + stake - moved
    &&& others_unchanged(pre, post, winner, loser)
}

/// `post` is `pre` after the stakes of a drawn challenge were handed back:
/// each player's locked funds, up to the stake, became free.
pub open spec fn settled_draw<L: EscrowLedger>(
    pre: L,
    post: L,
    a: AccountId,
    b: AccountId,
    stake: nat,
) -> bool {
    let moved_a = min_nat(stake, pre.reserved_balance(a));
    let moved_b = min_nat(stake, pre.reserved_balance(b));
    &&& post.free_balance(a) == pre.free_balance(a) + moved_a
    &&& post.reserved_balance(a) == pre.reserved_balance(a) - moved_a
    &&& post.free_balance(b) == pre.free_balance(b) + moved_b
    &&& post.reserved_balance(b) == pre.reserved_balance(b) - moved_b
    &&& others_unchanged(pre, post, a, b)
}

/// `post` is `pre` after the stakes of `finished` were settled.
pub open spec fn settled<L: EscrowLedger>(pre: L, post: L, finished: FinishedChallenge) -> bool {
    match finished.winner {
        Some(w) => settled_decisive(pre, post, w, loser_of(finished), finished.bet_amount as nat),
        None => settled_draw(pre, post, finished.challenger, finished.rival, finished.bet_amount as nat),
    }
}

/// The game: its challenges, the committed moves and the events it reported.
pub struct Pallet {
    min_bet_amount: Balance,
    next_bet_id: ChallengeId,
    challenges: BTreeMap<ChallengeId, ChallengeState>,
    plays: BTreeMap<(ChallengeId, AccountId), ChallengePlayHash>,
    events: Vec<Event>,
}

impl View for Pallet {
    type V = PalletState;

    closed spec fn view(&self) -> PalletState {
        PalletState {
            min_bet_amount: self.min_bet_amount,
            next_challenge_id: self.next_bet_id,
            challenges: self.challenges@,
            plays: self.plays@.map_values(|h: ChallengePlayHash| h@),
            events: self.events@,
        }
    }
}

impl Pallet {
    /// A game with no challenge yet, whose stakes must be at least `min_bet_amount`.
    pub fn new(min_bet_amount: Balance) -> (r: Self)
        ensures
            r@.valid(),
            r@ == (PalletState {
                min_bet_amount,
                next_challenge_id: 0,
                challenges: Map::empty(),
                plays: Map::empty(),
                events: Seq::empty(),
            }),
    {
        let r = Pallet {
            min_bet_amount,
            next_bet_id: 0,
            challenges: BTreeMap::new(),
            plays: BTreeMap::new(),
            events: Vec::new(),
        };
        assert(r@.plays =~= Map::empty());
        r
    }

    fn deposit_event(&mut self, event: Event)
        ensures
            final(self)@ == (PalletState { events: old(self)@.events.push(event), ..old(self)@ }),
    {
        self.events.push(event);
    }

    /// Creates an open challenge of `challenger` with stake `bet_amount`,
    /// under the next id.
    pub fn create_challenge(&mut self, challenger: AccountId, bet_amount: Balance) -> (r: Result<
        (),
        Error,
    >)
        requires
            old(self)@.valid(),
            old(self)@.next_challenge_id < u64::MAX,
        ensures
            final(self)@.valid(),
            r == old(self)@.create_result(bet_amount),
            r is Ok ==> final(self)@ == old(self)@.after_create(challenger, bet_amount),
            r is Err ==> final(self)@ == old(self)@,
    {
        if bet_amount < self.min_bet_amount {
            return Err(Error::InsufficientBetAmount);
        }
        let challenge_id = self.next_bet_id;
        let challenge_state = ChallengeState::Open(OpenChallenge { challenger, bet_amount });
        self.next_bet_id = challenge_id + 1;
        self.challenges.insert(challenge_id, challenge_state);
        self.deposit_event(Event::ChallengeCreated(challenge_id, challenger, bet_amount));
        proof {
            let pre = old(self)@;
            let post = self@;
            assert(post == pre.after_create(challenger, bet_amount));
            assert forall|id: ChallengeId, who: AccountId| #[trigger]
                post.plays.contains_key((id, who)) implies post.challenges.contains_key(id)
                && post.challenges[id] == pre.challenges[id] by {
                assert(pre.challenges.contains_key(id));
            }
        }
        Ok(())
    }

    /// `rival` enters the open challenge `challenge_id`, which becomes accepted.
    pub fn enter_challenge(&mut self, rival: AccountId, challenge_id: ChallengeId) -> (r: Result<
        (),
        Error,
    >)
        requires
            old(self)@.valid(),
        ensures
            final(self)@.valid(),
            r == old(self)@.enter_result(rival, challenge_id),
            r is Ok ==> final(self)@ == old(self)@.after_enter(rival, challenge_id),
            r is Err ==> final(self)@ == old(self)@,
    {
        let challenge_state = match self.challenges.get(&challenge_id) {
            Some(state) => *state,
            None => return Err(Error::ChallengeNotFound),
        };
        match challenge_state {
            ChallengeState::Open(open_state) => {
                if open_state.challenger == rival {
                    return Err(Error::CannotChallengeOneself);
                }
                self.challenges.insert(
                    challenge_id,
                    ChallengeState::Accepted(AcceptedChallenge::from_open(open_state, rival)),
                );
                self.deposit_event(Event::EnteredChallenge(challenge_id, rival));
                proof {
                    let pre = old(self)@;
                    let post = self@;
                    assert(post == pre.after_enter(rival, challenge_id));
                    assert forall|id: ChallengeId, who: AccountId| #[trigger]
                        post.plays.contains_key((id, who)) implies post.challenges.contains_key(id)
                        && post.challenges[id] == pre.challenges[id] by {
                        assert(pre.challenges.contains_key(id));
                    }
                }
                Ok(())
            },
            _ => Err(Error::ChallengeNotOpen),
        }
    }

    /// `player` commits to `challenge_play` under `challenger_secret` in the
    /// accepted challenge `challenge_id`, locking the stake on `ledger`.
    pub fn play_challenge<L: EscrowLedger>(
        &mut self,
        ledger: &mut L,
        player: AccountId,
        challenge_id: ChallengeId,
        challenge_play: ChallengePlay,
        challenger_secret: u64,
    ) -> (r: Result<(), Error>)
        requires
            old(self)@.valid(),
            old(ledger).inv(),
        ensures
            final(self)@.valid(),
            final(ledger).inv(),
            match old(self)@.play_check(player, challenge_id) {
                Err(e) => {
                    &&& r == Err::<(), Error>(e)
                    &&& final(self)@ == old(self)@
                    &&& *final(ledger) == *old(ledger)
                },
                Ok(a) => {
                    ||| {
                        &&& r is Ok
                        &&& final(self)@ == old(self)@.after_play(
                            player,
                            challenge_id,
                            commitment_of(challenge_play, challenger_secret),
                        )
                        &&& crate::ledger::locked(
                            *old(ledger),
                            *final(ledger),
                            player,
                            a.bet_amount as nat,
                        )
                    }
                    ||| {
                        &&& r == Err::<(), Error>(Error::InvalidState)
                        &&& final(self)@ == old(self)@
                        &&& *final(ledger) == *old(ledger)
                    }
                },
            },
            old(self)@.play_check(player, challenge_id) matches Ok(a) ==> (r is Ok <==> old(
                ledger,
            ).can_lock(player, a.bet_amount as nat)),
            old(self)@.play_check(player, challenge_id) matches Ok(a) && old(ledger).free_balance(
                player,
            ) < a.bet_amount ==> r == Err::<(), Error>(Error::InvalidState),
    {
        let challenge = match self.challenges.get(&challenge_id) {
            Some(state) => *state,
            None => return Err(Error::ChallengeNotFound),
        };
        if let ChallengeState::Accepted(challenge_state) = challenge {
            if !challenge_state.contains_player(&player) {
                return Err(Error::CannotPlayInNonParticipatingChallenge);
            }
            if self.plays.contains_key(&(challenge_id, player)) {
                return Err(Error::CannotPlayInNonParticipatingChallenge);
            }
            match ledger.lock(player, challenge_state.bet_amount) {
                Ok(()) => {},
                Err(e) => return Err(Error::from(e)),
            }
            let play_hash = challenge_play.generate_hash(challenger_secret);
            self.plays.insert((challenge_id, player), play_hash);
            self.deposit_event(Event::PlayedInChallenge(challenge_id, player));
            if self.plays.contains_key(&(challenge_id, challenge_state.challenger))
                && self.plays.contains_key(&(challenge_id, challenge_state.rival)) {
                self.deposit_event(Event::ChallengeReadyForReveal(challenge_id));
            }
            proof {
                let pre = old(self)@;
                let post = self@;
                assert(post.plays =~= pre.plays.insert(
                    (challenge_id, player),
                    commitment_of(challenge_play, challenger_secret),
                ));
                assert(post == pre.after_play(
                    player,
                    challenge_id,
                    commitment_of(challenge_play, challenger_secret),
                ));
            }
            Ok(())
        } else {
            Err(Error::ChallengeStateForbidsPlay)
        }
    }

    /// The id the next challenge will get.
    pub fn next_challenge_id(&self) -> (r: ChallengeId)
        ensures
            r == self@.next_challenge_id,
    {
        self.next_bet_id
    }

    /// The smallest stake a challenge may be created with.
    pub fn min_bet_amount(&self) -> (r: Balance)
        ensures
            r == self@.min_bet_amount,
    {
        self.min_bet_amount
    }

    /// The challenge with id `challenge_id`, if there is one.
    pub fn challenge_store(&self, challenge_id: ChallengeId) -> (r: Option<ChallengeState>)
        ensures
            r == (if self@.challenges.contains_key(challenge_id) {
                Some(self@.challenges[challenge_id])
            } else {
                None
            }),
    {
        match self.challenges.get(&challenge_id) {
            Some(state) => Some(*state),
            None => None,
        }
    }

    /// The commitment of `player` in challenge `challenge_id`, if it played.
    pub fn challenge_plays_store(&self, challenge_id: ChallengeId, player: AccountId) -> (r: Option<
        ChallengePlayHash,
    >)
        ensures
            match r {
                Some(hash) => self@.plays.contains_key((challenge_id, player))
                    && self@.plays[(challenge_id, player)] == hash@,
                None => !self@.plays.contains_key((challenge_id, player)),
            },
    {
        match self.plays.get(&(challenge_id, player)) {
            Some(hash) => Some(*hash),
            None => None,
        }
    }

    /// Everything reported so far, oldest first.
    pub fn events(&self) -> (r: &Vec<Event>)
        ensures
            r@ == self@.events,
    {
        &self.events
    }

    fn get_player_hand_hash(
        &self,
        challenge_id: ChallengeId,
        player_id: AccountId,
        on_error: Error,
    ) -> (r: Result<ChallengePlayHash, Error>)
        ensures
            match r {
                Ok(hash) => self@.plays.contains_key((challenge_id, player_id))
                    && self@.plays[(challenge_id, player_id)] == hash@,
                Err(e) => !self@.plays.contains_key((challenge_id, player_id)) && e == on_error,
            },
    {
        match self.plays.get(&(challenge_id, player_id)) {
            Some(hash) => Ok(*hash),
            None => Err(on_error),
        }
    }

    /// `player` reveals both moves of the accepted challenge `challenge_id`:
    /// `origin_hand` under `origin_secret` is its own, `rival_hand` under
    /// `rival_secret` the other player's. When both reproduce the stored
    /// commitments, the stakes are settled on `ledger` and the challenge
    /// finishes.
    pub fn reveal_challenge_results<L: EscrowLedger>(
        &mut self,
        ledger: &mut L,
        player: AccountId,
        origin_hand: ChallengePlay,
        origin_secret: u64,
        rival_hand: ChallengePlay,
        rival_secret: u64,
        challenge_id: ChallengeId,
    ) -> (r: Result<(), Error>)
        requires
            old(self)@.valid(),
            old(ledger).inv(),
        ensures
            final(self)@.valid(),
            final(ledger).inv(),
            match old(self)@.reveal_check(
                player,
                origin_hand,
                origin_secret,
                rival_hand,
                rival_secret,
                challenge_id,
            ) {
                Err(e) => {
                    &&& r == Err::<(), Error>(e)
                    &&& final(self)@ == old(self)@
                    &&& *final(ledger) == *old(ledger)
                },
                Ok(f) => {
                    ||| {
                        &&& r is Ok
                        &&& final(self)@ == old(self)@.after_reveal(challenge_id, f)
                        &&& settled(*old(ledger), *final(ledger), f)
                    }
                    ||| {
                        &&& f.winner is Some
                        &&& r == Err::<(), Error>(Error::InvalidState)
                        &&& final(self)@ == old(self)@
                        &&& *final(ledger) == *old(ledger)
                    }
                },
            },
            old(self)@.reveal_check(
                player,
                origin_hand,
                origin_secret,
                rival_hand,
                rival_secret,
                challenge_id,
            ) matches Ok(f) ==> (r is Ok <==> (f.winner matches Some(w) ==> old(
                ledger,
            ).can_transfer_locked(loser_of(f), w, f.bet_amount as nat))),
            old(self)@.reveal_check(
                player,
                origin_hand,
                origin_secret,
                rival_hand,
                rival_secret,
                challenge_id,
            ) matches Ok(f) && f.winner is Some && old(ledger).reserved_balance(loser_of(f))
                < f.bet_amount ==> r == Err::<(), Error>(Error::InvalidState),
    {
        let challenge = match self.challenges.get(&challenge_id) {
            Some(state) => *state,
            None => return Err(Error::ChallengeNotFound),
        };
        let challenge_state = match challenge {
            ChallengeState::Accepted(accepted) => accepted,
            _ => return Err(Error::ChallengeStateForbidsPlay),
        };
        if !challenge_state.contains_player(&player) {
            return Err(Error::CannotRevealNonParticipatingChallenge);
        }
        let player_hand_hash = match self.get_player_hand_hash(
            challenge_id,
            player,
            Error::ChallengeStateForbidsResolution,
        ) {
            Ok(hash) => hash,
            Err(e) => return Err(e),
        };
        if !origin_hand.compare_hash_with(origin_secret, player_hand_hash) {
            return Err(Error::InvalidHandHash);
        }
        let rival_player = match challenge_state.get_rival(&player) {
            Some(rival) => rival,
            None => return Err(Error::InvalidState),
        };
        let rival_hand_hash = match self.get_player_hand_hash(
            challenge_id,
            rival_player,
            Error::ChallengeStateForbidsResolution,
        ) {
            Ok(hash) => hash,
            Err(e) => return Err(e),
        };
        if !rival_hand.compare_hash_with(rival_secret, rival_hand_hash) {
            return Err(Error::InvalidHandHash);
        }
        let stake = challenge_state.bet_amount;
        let winner = match origin_hand.beats(&rival_hand) {
            PlayResult::Win => Some(player),
            PlayResult::Lose => Some(rival_player),
            PlayResult::Draw => None,
        };
        let ghost before = *ledger;
        match winner {
            Some(winner_id) => {
                let loser_id = if winner_id == player {
                    rival_player
                } else {
                    player
                };
                match ledger.transfer_locked(loser_id, winner_id, stake) {
                    Ok(()) => {},
                    Err(e) => return Err(Error::from(e)),
                }
                let ghost transferred = *ledger;
                // The winner's locked funds now hold both stakes; they are
                // freed one stake at a time, so that no sum can overflow.
                ledger.release(winner_id, stake);
                let ghost half = *ledger;
                ledger.release(winner_id, stake);
                proof {
                    let end = *ledger;
                    assert forall|x: AccountId| x != winner_id && x != loser_id implies {
                        &&& #[trigger] end.free_balance(x) == before.free_balance(x)
                        &&& end.reserved_balance(x) == before.reserved_balance(x)
                    } by {
                        assert(end.free_balance(x) == half.free_balance(x));
                        assert(half.free_balance(x) == transferred.free_balance(x));
                        assert(transferred.free_balance(x) == before.free_balance(x));
                    }
                    assert(end.free_balance(loser_id) == half.free_balance(loser_id));
                    assert(half.free_balance(loser_id) == transferred.free_balance(loser_id));
                    assert(settled_decisive(before, end, winner_id, loser_id, stake as nat));
                }
            },
            None => {
                ledger.release(player, stake);
                let ghost half = *ledger;
                ledger.release(rival_player, stake);
                proof {
                    let end = *ledger;
                    assert forall|x: AccountId| x != player && x != rival_player implies {
                        &&& #[trigger] end.free_balance(x) == before.free_balance(x)
                        &&& end.reserved_balance(x) == before.reserved_balance(x)
                    } by {
                        assert(end.free_balance(x) == half.free_balance(x));
                        assert(half.free_balance(x) == before.free_balance(x));
                    }
                    assert(half.free_balance(rival_player) == before.free_balance(rival_player));
                    assert(end.free_balance(player) == half.free_balance(player));
                    assert(settled_draw(before, end, player, rival_player, stake as nat));
                }
            },
        }
        let finished = FinishedChallenge::from_accepted(challenge_state, winner);
        self.challenges.insert(challenge_id, ChallengeState::Finished(finished));
        self.deposit_event(Event::ChallengeFinished(winner));
        proof {
            let pre = old(self)@;
            let post = self@;
            assert(post == pre.after_reveal(challenge_id, finished));
            assert forall|id: ChallengeId, who: AccountId| #[trigger]
                post.plays.contains_key((id, who)) implies post.challenges.contains_key(id)
                && match post.challenges[id] {
                ChallengeState::Open(_) => false,
                ChallengeState::Accepted(a) => a.has_player(who),
                ChallengeState::Finished(f) => f.challenger == who || f.rival == who,
            } by {
                assert(pre.challenges.contains_key(id));
            }
        }
        Ok(())
    }
}

/// Every challenge of `pre` that is no longer open is still in `post`, and
/// still not open.
pub open spec fn never_reopens(pre: PalletState, post: PalletState) -> bool {
    forall|id: ChallengeId|
        pre.challenges.contains_key(id) && !(pre.challenges[id] is Open) ==> {
            &&& #[trigger] post.challenges.contains_key(id)
            &&& !(post.challenges[id] is Open)
        }
}

/// No operation turns a challenge that has left the open state back into an
/// open one: creation takes a fresh id, and the other operations only move a
/// challenge forward.
pub proof fn lemma_never_reopens(
    s: PalletState,
    account: AccountId,
    bet_amount: Balance,
    id: ChallengeId,
    hash: Seq<u8>,
    finished: FinishedChallenge,
)
    requires
        s.valid(),
    ensures
        never_reopens(s, s.after_create(account, bet_amount)),
        s.enter_result(account, id) is Ok ==> never_reopens(s, s.after_enter(account, id)),
        never_reopens(s, s.after_play(account, id, hash)),
        never_reopens(s, s.after_reveal(id, finished)),
{
}

/// A challenge that stays out of the open state across two runs of operations
/// stays out of it across both.
pub proof fn lemma_never_reopens_chain(a: PalletState, b: PalletState, c: PalletState)
    requires
        never_reopens(a, b),
        never_reopens(b, c),
    ensures
        never_reopens(a, c),
{
}

/// Once a challenge has been entered, every later attempt to enter it fails
/// with `ChallengeNotOpen`, whoever makes it.
pub proof fn lemma_single_acceptance(
    s: PalletState,
    rival: AccountId,
    id: ChallengeId,
    later: PalletState,
    other: AccountId,
)
    requires
        s.enter_result(rival, id) is Ok,
        never_reopens(s.after_enter(rival, id), later),
    ensures
        s.after_enter(rival, id).enter_result(other, id) == Err::<(), Error>(Error::ChallengeNotOpen),
        later.enter_result(other, id) == Err::<(), Error>(Error::ChallengeNotOpen),
{
    let entered = s.after_enter(rival, id);
    assert(entered.challenges.contains_key(id) && entered.challenges[id] is Accepted);
}

/// The creator of a challenge cannot enter it.
pub proof fn lemma_no_self_challenge(s: PalletState, challenger: AccountId, bet_amount: Balance)
    requires
        s.create_result(bet_amount) is Ok,
    ensures
        s.after_create(challenger, bet_amount).enter_result(challenger, s.next_challenge_id)
            == Err::<(), Error>(Error::CannotChallengeOneself),
{
}

/// Settlement conserves funds. When both players locked the stake and the
/// challenge settled, a decisive outcome leaves the winner with exactly one
/// stake more free funds than before the locks and the loser with exactly one
/// stake less; a draw leaves both free balances as they were. Either way both
/// locks are gone and no other account is touched.
pub proof fn lemma_settlement_conservation<L: EscrowLedger>(
    start: L,
    one_locked: L,
    both_locked: L,
    end: L,
    first: AccountId,
    second: AccountId,
    finished: FinishedChallenge,
)
    requires
        finished.challenger != finished.rival,
        finished.winner matches Some(w) ==> w == finished.challenger || w == finished.rival,
        (first == finished.challenger && second == finished.rival) || (first == finished.rival
            && second == finished.challenger),
        crate::ledger::locked(start, one_locked, first, finished.bet_amount as nat),
        crate::ledger::locked(one_locked, both_locked, second, finished.bet_amount as nat),
        settled(both_locked, end, finished),
    ensures
        match finished.winner {
            Some(w) => {
                &&& end.free_balance(w) == start.free_balance(w) + finished.bet_amount
                &&& end.free_balance(loser_of(finished)) == start.free_balance(loser_of(finished))
                    - finished.bet_amount
            },
            None => {
                &&& end.free_balance(finished.challenger) == start.free_balance(finished.challenger)
                &&& end.free_balance(finished.rival) == start.free_balance(finished.rival)
            },
        },
        end.reserved_balance(finished.challenger) == start.reserved_balance(finished.challenger),
        end.reserved_balance(finished.rival) == start.reserved_balance(finished.rival),
        others_unchanged(start, end, finished.challenger, finished.rival),
{
    let a = finished.challenger;
    let b = finished.rival;
    assert(one_locked.free_balance(second) == start.free_balance(second));
    assert(one_locked.reserved_balance(second) == start.reserved_balance(second));
    assert forall|x: AccountId| x != a && x != b implies {
        &&& #[trigger] end.free_balance(x) == start.free_balance(x)
        &&& end.reserved_balance(x) == start.reserved_balance(x)
    } by {
        assert(end.free_balance(x) == both_locked.free_balance(x));
        assert(both_locked.free_balance(x) == one_locked.free_balance(x));
        assert(one_locked.free_balance(x) == start.free_balance(x));
    }
    assert(both_locked.free_balance(first) == one_locked.free_balance(first));
}

} // verus!