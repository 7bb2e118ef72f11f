//! Moves, their commitments, and the rule that decides a round.
use vstd::prelude::*;

use crate::ChallengePlayHash;

verus! {

/// The eight-byte XX hash (seed 0) of `data`.
pub uninterp spec fn twox_64_of(data: Seq<u8>) -> Seq<u8>;

/// Relies on `sp_io::hashing::twox_64`: the 64-bit XX hash of the bytes, which
/// depends on the bytes alone.
#[verifier::external_body]
fn twox_64(data: &[u8]) -> (r: ChallengePlayHash)
    ensures
        r@ == twox_64_of(data@),
{
    sp_io::hashing::twox_64(data)
}

/// A move of the game.
#[derive(Debug, Clone, Copy, PartialEq, Eq, Structural)]
pub enum ChallengePlay {
    Rock,
    Paper,
    Scissors,
}

/// The result of one move against another, from the first move's side.
#[derive(Debug, Clone, Copy, PartialEq, Eq, Structural)]
pub enum PlayResult {
    Win,
    Lose,
    Draw,
}

/// Rock beats scissors, scissors beat paper, paper beats rock.
pub open spec fn defeats(a: ChallengePlay, b: ChallengePlay) -> bool {
    ||| (a is Rock && b is Scissors)
    ||| (a is Scissors && b is Paper)
    ||| (a is Paper && b is Rock)
}

/// The result of `a` against `b`: equal moves draw.
pub open spec fn play_outcome(a: ChallengePlay, b: ChallengePlay) -> PlayResult {
    if a == b {
        PlayResult::Draw
    } else if defeats(a, b) {
        PlayResult::Win
    } else {
        PlayResult::Lose
    }
}

impl PlayResult {
    /// The same result seen from the other side.
    pub open spec fn reversed(self) -> PlayResult {
        match self {
            PlayResult::Win => PlayResult::Lose,
            PlayResult::Lose => PlayResult::Win,
            PlayResult::Draw => PlayResult::Draw,
        }
    }
}

impl ChallengePlay {
    /// Plays `self` against `other`.
    pub fn beats(&self, other: &ChallengePlay) -> (r: PlayResult)
        ensures
            r == play_outcome(*self, *other),
    {
        match self {
            ChallengePlay::Rock => match other {
                ChallengePlay::Rock => PlayResult::Draw,
                ChallengePlay::Paper => PlayResult::Lose,
                ChallengePlay::Scissors => PlayResult::Win,
            },
            ChallengePlay::Paper => match other {
                ChallengePlay::Rock => PlayResult::Win,
                ChallengePlay::Paper => PlayResult::Draw,
                ChallengePlay::Scissors => PlayResult::Lose,
            },
            ChallengePlay::Scissors => match other {
                ChallengePlay::Rock => PlayResult::Lose,
                ChallengePlay::Paper => PlayResult::Win,
                ChallengePlay::Scissors => PlayResult::Draw,
            },
        }
    }
}

/// The byte that stands for a move in its commitment.
pub open spec fn play_tag(p: ChallengePlay) -> u8 {
    match p {
        ChallengePlay::Rock => 1,
        ChallengePlay::Paper => 2,
        ChallengePlay::Scissors => 3,
    }
}

/// The eight bytes of `x`, least significant first.
pub open spec fn le_bytes(x: u64) -> Seq<u8> {
    Seq::new(8, |i: int| (x >> ((8 * i) as u64)) as u8)
}

/// What is hashed to commit to `p` with `secret`: the move's byte, then the
/// secret's bytes.
pub open spec fn commitment_preimage(p: ChallengePlay, secret: u64) -> Seq<u8> {
    seq![play_tag(p)] + le_bytes(secret)
}

/// The commitment to move `p` under `secret`.
pub open spec fn commitment_of(p: ChallengePlay, secret: u64) -> Seq<u8> {
    twox_64_of(commitment_preimage(p, secret))
}

/// Whether `(p, secret)` reproduces the commitment `hash`.
pub open spec fn verifies(p: ChallengePlay, secret: u64, hash: Seq<u8>) -> bool {
    commitment_of(p, secret) == hash
}

/// Whether two digests hold the same bytes.
fn hashes_equal(a: &ChallengePlayHash, b: &ChallengePlayHash) -> (r: bool)
    ensures
        r == (a@ == b@),
{
    let mut i: usize = 0;
    while i < 8
        invariant
            i <= 8,
            forall|j: int| 0 <= j < i ==> a@[j] == b@[j],
        decreases 8 - i,
    {
        if a[i] != b[i] {
            assert(a@[i as int] != b@[i as int]);
            return false;
        }
        i = i + 1;
    }
    assert(a@ =~= b@);
    true
}

impl ChallengePlay {
    fn as_bytes(&self) -> (r: [u8; 1])
        ensures
            r@ == seq![play_tag(*self)],
    {
        let r = match self {
            ChallengePlay::Rock => [1u8],
            ChallengePlay::Paper => [2u8],
            ChallengePlay::Scissors => [3u8],
        };
        assert(r@ =~= seq![play_tag(*self)]);
        r
    }

    /// The commitment to this move under `secret`.
    pub fn generate_hash(&self, secret: u64) -> (r: ChallengePlayHash)
        ensures
            r@ == commitment_of(*self, secret),
    {
        let mut bytes: Vec<u8> = Vec::new();
        let tag = self.as_bytes();
        bytes.push(tag[0]);
        let mut i: u64 = 0;
        while i < 8
            invariant
                i <= 8,
                bytes@ == seq![play_tag(*self)] + le_bytes(secret).take(i as int),
            decreases 8 - i,
        {
            #[verifier::truncate]
            let byte = (secret >> (8 * i)) as u8;
            bytes.push(byte);
            assert(le_bytes(secret).take(i + 1) =~= le_bytes(secret).take(i as int).push(byte));
            i = i + 1;
        }
        assert(le_bytes(secret).take(8) =~= le_bytes(secret));
        twox_64(bytes.as_slice())
    }

    /// Whether this move under `secret` reproduces `other_hash`.
    pub fn compare_hash_with(&self, secret: u64, other_hash: ChallengePlayHash) -> (r: bool)
        ensures
            r == verifies(*self, secret, other_hash@),
    {
        let own = self.generate_hash(secret);
        hashes_equal(&own, &other_hash)
    }
}

/// A move under a secret always reproduces its own commitment.
pub proof fn lemma_commitment_verifies(p: ChallengePlay, secret: u64)
    ensures
        verifies(p, secret, commitment_of(p, secret)),
{
}

/// Two different (move, secret) pairs are never hashed from the same bytes:
/// a commitment can only be reproduced by another pair through a collision
/// of the hash itself.
pub proof fn lemma_preimage_injective(p1: ChallengePlay, k1: u64, p2: ChallengePlay, k2: u64)
    requires
        p1 != p2 || k1 != k2,
    ensures
        commitment_preimage(p1, k1) != commitment_preimage(p2, k2),
{
    if commitment_preimage(p1, k1) == commitment_preimage(p2, k2) {
        let a = commitment_preimage(p1, k1);
        let b = commitment_preimage(p2, k2);
        assert(a[0] == play_tag(p1) && b[0] == play_tag(p2));
        assert(p1 == p2);
        let x = le_bytes(k1);
        let y = le_bytes(k2);
        assert forall|i: int| 0 <= i < 8 implies x[i] == y[i] by {
            assert(a[i + 1] == x[i] && b[i + 1] == y[i]);
        }
        assert(x[0] == y[0] && x[1] == y[1] && x[2] == y[2] && x[3] == y[3]);
        assert(x[4] == y[4] && x[5] == y[5] && x[6] == y[6] && x[7] == y[7]);
        assert(k1 == k2) by (bit_vector)
            requires
                (k1 >> 0u64) as u8 == (k2 >> 0u64) as u8,
                (k1 >> 8u64) as u8 == (k2 >> 8u64) as u8,
                (k1 >> 16u64) as u8 == (k2 >> 16u64) as u8,
                (k1 >> 24u64) as u8 == (k2 >> 24u64) as u8,
                (k1 >> 32u64) as u8 == (k2 >> 32u64) as u8,
                (k1 >> 40u64) as u8 == (k2 >> 40u64) as u8,
                (k1 >> 48u64) as u8 == (k2 >> 48u64) as u8,
                (k1 >> 56u64) as u8 == (k2 >> 56u64) as u8,
        ;
    }
}

/// Swapping the two moves swaps winner and loser: one side's win is the
/// other side's loss, and a draw stays a draw.
pub proof fn lemma_outcome_symmetry(a: ChallengePlay, b: ChallengePlay)
    ensures
        play_outcome(b, a) == play_outcome(a, b).reversed(),
{
}

} // verus!
