use pallet_rps::{
    AcceptedChallenge, AccountData, Balances, ChallengePlay, ChallengeState, Error,
    FinishedChallenge, OpenChallenge, Pallet,
};

const ALICE: u64 = 1;
const BOB: u64 = 2;
const CHARLIE: u64 = 3;

const ENDOWED_ACCOUNTS: [u64; 3] = [ALICE, BOB, CHARLIE];
const ENDOWMENT_AMOUNT: u64 = 1_000_000;

const MIN_BET_AMOUNT: u64 = 100;
const BET_AMOUNT: u64 = 1_000;

struct TestExt {
    rps: Pallet,
    balances: Balances,
}

fn new_test_ext(endowed_accounts: &[u64], endowment_amount: u64) -> TestExt {
    let mut balances = Balances::new();
    for account in endowed_accounts {
        balances.set_free_balance(*account, endowment_amount);
    }
    TestExt { rps: Pallet::new(MIN_BET_AMOUNT), balances }
}

/// Everything an operation could change, to check that a refused one did not.
fn snapshot(ext: &TestExt, challenge_id: u64) -> (u64, Option<ChallengeState>, usize, Vec<AccountData>) {
    (
        ext.rps.next_challenge_id(),
        ext.rps.challenge_store(challenge_id),
        ext.rps.events().len(),
        ENDOWED_ACCOUNTS.iter().map(|a| ext.balances.account_data(*a)).collect(),
    )
}

fn create_challenge(ext: &mut TestExt, challenger: u64) -> u64 {
    assert_eq!(ext.rps.create_challenge(challenger, BET_AMOUNT), Ok(()));

    let challenge = ChallengeState::Open(OpenChallenge { challenger, bet_amount: BET_AMOUNT });

    let challenge_id = ext.rps.next_challenge_id() - 1;

    assert_eq!(ext.rps.challenge_store(challenge_id), Some(challenge));

    challenge_id
}

fn create_accepted_challenge(ext: &mut TestExt, challenger: u64, rival: u64) -> u64 {
    let challenge_id = create_challenge(ext, challenger);

    assert_eq!(ext.rps.enter_challenge(rival, challenge_id), Ok(()));

    let challenge =
        ChallengeState::Accepted(AcceptedChallenge { challenger, bet_amount: 1000, rival });

    assert_eq!(ext.rps.challenge_store(challenge_id), Some(challenge));

    challenge_id
}

fn create_played_challenge(
    ext: &mut TestExt,
    challenger: u64,
    rival: u64,
    challenger_play: (ChallengePlay, u64),
    rival_play: (ChallengePlay, u64),
) -> u64 {
    let challenge_id = create_accepted_challenge(ext, challenger, rival);

    let challenger_hash = challenger_play.0.generate_hash(challenger_play.1);

    assert_eq!(
        ext.rps.play_challenge(
            &mut ext.balances,
            challenger,
            challenge_id,
            challenger_play.0,
            challenger_play.1
        ),
        Ok(())
    );

    assert_eq!(ext.rps.challenge_plays_store(challenge_id, challenger), Some(challenger_hash));

    let account_state_after_play =
        AccountData { free: ENDOWMENT_AMOUNT - BET_AMOUNT, reserved: BET_AMOUNT };

    assert_eq!(ext.balances.account_data(challenger), account_state_after_play);

    let rival_hash = rival_play.0.generate_hash(rival_play.1);

    assert_eq!(
        ext.rps.play_challenge(&mut ext.balances, rival, challenge_id, rival_play.0, rival_play.1),
        Ok(())
    );

    assert_eq!(ext.rps.challenge_plays_store(challenge_id, rival), Some(rival_hash));
    assert_eq!(ext.balances.account_data(rival), account_state_after_play);

    challenge_id
}

#[test]
fn should_create_challenge() {
    let mut ext = new_test_ext(&[], ENDOWMENT_AMOUNT);
    let challenge_creator = ALICE;

    assert_eq!(ext.rps.create_challenge(challenge_creator, BET_AMOUNT), Ok(()));
    assert_eq!(ext.rps.next_challenge_id(), 1_u64);

    let challenge = ChallengeState::Open(OpenChallenge { challenger: ALICE, bet_amount: 1000 });
    assert_eq!(ext.rps.challenge_store(0_u64), Some(challenge));
}

#[test]
fn should_fail_to_create_challenge_with_insufficient_bet_amount() {
    let mut ext = new_test_ext(&[], ENDOWMENT_AMOUNT);
    let challenge_creator = ALICE;
    let before = snapshot(&ext, 0);

    assert_eq!(ext.rps.create_challenge(challenge_creator, 0), Err(Error::InsufficientBetAmount));
    assert_eq!(snapshot(&ext, 0), before);
}

#[test]
fn should_enter_challenge() {
    let mut ext = new_test_ext(&[], ENDOWMENT_AMOUNT);
    let challenge_id = create_challenge(&mut ext, ALICE);

    assert_eq!(ext.rps.enter_challenge(BOB, challenge_id), Ok(()));

    let challenge = ChallengeState::Accepted(AcceptedChallenge {
        challenger: ALICE,
        bet_amount: BET_AMOUNT,
        rival: BOB,
    });

    assert_eq!(ext.rps.challenge_store(challenge_id), Some(challenge));
}

#[test]
fn should_fail_to_enter_challenge_created_by_oneself() {
    let mut ext = new_test_ext(&[], ENDOWMENT_AMOUNT);
    let challenge_id = create_challenge(&mut ext, ALICE);
    let before = snapshot(&ext, challenge_id);

    assert_eq!(ext.rps.enter_challenge(ALICE, challenge_id), Err(Error::CannotChallengeOneself));
    assert_eq!(snapshot(&ext, challenge_id), before);
}

#[test]
fn should_fail_to_enter_non_existent_challenge() {
    let mut ext = new_test_ext(&[], ENDOWMENT_AMOUNT);
    let challenge_id = create_challenge(&mut ext, ALICE);
    let before = snapshot(&ext, challenge_id);

    assert_eq!(ext.rps.enter_challenge(BOB, challenge_id + 10), Err(Error::ChallengeNotFound));
    assert_eq!(snapshot(&ext, challenge_id), before);
}

#[test]
fn should_fail_to_enter_non_open_challenge() {
    let mut ext = new_test_ext(&[], ENDOWMENT_AMOUNT);
    let challenge_id = create_challenge(&mut ext, ALICE);

    assert_eq!(ext.rps.enter_challenge(BOB, challenge_id), Ok(()));

    let challenge = ChallengeState::Accepted(AcceptedChallenge {
        challenger: ALICE,
        bet_amount: BET_AMOUNT,
        rival: BOB,
    });
    assert_eq!(ext.rps.challenge_store(challenge_id), Some(challenge));

    let before = snapshot(&ext, challenge_id);
    assert_eq!(ext.rps.enter_challenge(CHARLIE, challenge_id), Err(Error::ChallengeNotOpen));
    assert_eq!(snapshot(&ext, challenge_id), before);
}

#[test]
fn should_play_challenge() {
    let mut ext = new_test_ext(&ENDOWED_ACCOUNTS, ENDOWMENT_AMOUNT);
    let challenger = ALICE;
    let rival = BOB;

    let challenge_id = create_accepted_challenge(&mut ext, challenger, rival);

    let challenger_play = ChallengePlay::Paper;
    let challenger_secret = 319_u64;
    let challenger_hash = challenger_play.generate_hash(challenger_secret);

    assert_eq!(
        ext.rps.play_challenge(
            &mut ext.balances,
            challenger,
            challenge_id,
            challenger_play,
            challenger_secret
        ),
        Ok(())
    );

    assert_eq!(ext.rps.challenge_plays_store(challenge_id, challenger), Some(challenger_hash));

    let account_state_after_play =
        AccountData { free: ENDOWMENT_AMOUNT - BET_AMOUNT, reserved: BET_AMOUNT };

    assert_eq!(ext.balances.account_data(challenger), account_state_after_play);

    let rival_play = ChallengePlay::Scissors;
    let rival_secret = 37515_u64;
    let rival_hash = rival_play.generate_hash(rival_secret);

    assert_eq!(
        ext.rps.play_challenge(&mut ext.balances, rival, challenge_id, rival_play, rival_secret),
        Ok(())
    );

    assert_eq!(ext.rps.challenge_plays_store(challenge_id, rival), Some(rival_hash));
    assert_eq!(ext.balances.account_data(rival), account_state_after_play);
}

#[test]
fn should_fail_to_play_in_nonexistent_challenge() {
    let mut ext = new_test_ext(&ENDOWED_ACCOUNTS, ENDOWMENT_AMOUNT);
    let challenge_id = create_accepted_challenge(&mut ext, ALICE, BOB);

    let challenger_play = ChallengePlay::Scissors;
    let challenger_secret = 9921_u64;
    let before = snapshot(&ext, challenge_id);

    assert_eq!(
        ext.rps.play_challenge(
            &mut ext.balances,
            BOB,
            challenge_id + 10,
            challenger_play,
            challenger_secret
        ),
        Err(Error::ChallengeNotFound)
    );
    assert_eq!(snapshot(&ext, challenge_id), before);
}

#[test]
fn should_fall_to_play_twice_in_the_same_challenge() {
    let mut ext = new_test_ext(&ENDOWED_ACCOUNTS, ENDOWMENT_AMOUNT);
    let challenge_id = create_accepted_challenge(&mut ext, ALICE, BOB);

    let challenger_play = ChallengePlay::Scissors;
    let challenger_secret = 9921_u64;

    assert_eq!(
        ext.rps.play_challenge(
            &mut ext.balances,
            BOB,
            challenge_id,
            challenger_play,
            challenger_secret
        ),
        Ok(())
    );

    // A second commit is reported under the same kind as a non-participant's.
    let before = snapshot(&ext, challenge_id);
    assert_eq!(
        ext.rps.play_challenge(
            &mut ext.balances,
            BOB,
            challenge_id,
            challenger_play,
            challenger_secret
        ),
        Err(Error::CannotPlayInNonParticipatingChallenge)
    );
    assert_eq!(snapshot(&ext, challenge_id), before);
}

#[test]
fn should_fail_to_play_in_non_accepted_challenge() {
    let mut ext = new_test_ext(&ENDOWED_ACCOUNTS, ENDOWMENT_AMOUNT);
    let challenge_id = create_challenge(&mut ext, ALICE);

    let challenger_play = ChallengePlay::Rock;
    let challenger_secret = 15235_u64;
    let before = snapshot(&ext, challenge_id);

    assert_eq!(
        ext.rps.play_challenge(
            &mut ext.balances,
            BOB,
            challenge_id,
            challenger_play,
            challenger_secret
        ),
        Err(Error::ChallengeStateForbidsPlay)
    );
    assert_eq!(snapshot(&ext, challenge_id), before);
}

#[test]
fn should_fail_to_play_in_non_participating_challenge() {
    let mut ext = new_test_ext(&ENDOWED_ACCOUNTS, ENDOWMENT_AMOUNT);
    let challenge_id = create_accepted_challenge(&mut ext, ALICE, BOB);

    let challenger_play = ChallengePlay::Paper;
    let challenger_secret = 98571_u64;
    let before = snapshot(&ext, challenge_id);

    assert_eq!(
        ext.rps.play_challenge(
            &mut ext.balances,
            CHARLIE,
            challenge_id,
            challenger_play,
            challenger_secret
        ),
        Err(Error::CannotPlayInNonParticipatingChallenge)
    );
    assert_eq!(snapshot(&ext, challenge_id), before);
}

#[test]
fn should_resolve_challenge_with_winner() {
    let mut ext = new_test_ext(&ENDOWED_ACCOUNTS, ENDOWMENT_AMOUNT);
    let challenger = ALICE;
    let challenger_play = (ChallengePlay::Scissors, 57832_u64);

    let rival = BOB;
    let rival_play = (ChallengePlay::Rock, 481_u64);

    let challenge_id =
        create_played_challenge(&mut ext, challenger, rival, challenger_play, rival_play);

    assert_eq!(
        ext.rps.reveal_challenge_results(
            &mut ext.balances,
            challenger,
            challenger_play.0,
            challenger_play.1,
            rival_play.0,
            rival_play.1,
            challenge_id
        ),
        Ok(())
    );

    let challenge = ChallengeState::Finished(FinishedChallenge {
        challenger,
        bet_amount: BET_AMOUNT,
        rival,
        winner: Some(rival),
    });

    assert_eq!(ext.rps.challenge_store(challenge_id), Some(challenge));

    let winner_account_state_after_reveal =
        AccountData { free: ENDOWMENT_AMOUNT + BET_AMOUNT, reserved: 0 };

    assert_eq!(ext.balances.account_data(rival), winner_account_state_after_reveal);

    let loser_account_state_after_reveal =
        AccountData { free: ENDOWMENT_AMOUNT - BET_AMOUNT, reserved: 0 };

    assert_eq!(ext.balances.account_data(challenger), loser_account_state_after_reveal);
}

#[test]
fn should_resolve_challenge_with_no_winner() {
    let mut ext = new_test_ext(&ENDOWED_ACCOUNTS, ENDOWMENT_AMOUNT);
    let challenger = ALICE;
    let challenger_play = (ChallengePlay::Rock, 57832_u64);

    let rival = BOB;
    let rival_play = (ChallengePlay::Rock, 481_u64);

    let challenge_id =
        create_played_challenge(&mut ext, challenger, rival, challenger_play, rival_play);

    assert_eq!(
        ext.rps.reveal_challenge_results(
            &mut ext.balances,
            challenger,
            challenger_play.0,
            challenger_play.1,
            rival_play.0,
            rival_play.1,
            challenge_id
        ),
        Ok(())
    );

    let challenge = ChallengeState::Finished(FinishedChallenge {
        challenger,
        bet_amount: BET_AMOUNT,
        rival,
        winner: None,
    });

    assert_eq!(ext.rps.challenge_store(challenge_id), Some(challenge));

    let account_state_after_draw = AccountData { free: ENDOWMENT_AMOUNT, reserved: 0 };

    assert_eq!(ext.balances.account_data(rival), account_state_after_draw);
    assert_eq!(ext.balances.account_data(challenger), account_state_after_draw);
}

#[test]
fn should_fail_to_resolve_nonexistent_challenge() {
    let mut ext = new_test_ext(&ENDOWED_ACCOUNTS, ENDOWMENT_AMOUNT);
    let challenger = ALICE;
    let challenger_play = (ChallengePlay::Scissors, 57832_u64);

    let rival = BOB;
    let rival_play = (ChallengePlay::Rock, 481_u64);

    let challenge_id =
        create_played_challenge(&mut ext, challenger, rival, challenger_play, rival_play);
    let before = snapshot(&ext, challenge_id);

    assert_eq!(
        ext.rps.reveal_challenge_results(
            &mut ext.balances,
            challenger,
            challenger_play.0,
            challenger_play.1,
            rival_play.0,
            rival_play.1,
            challenge_id + 10
        ),
        Err(Error::ChallengeNotFound)
    );
    assert_eq!(snapshot(&ext, challenge_id), before);
}

#[test]
fn should_fail_to_resolve_non_participating_challenge() {
    let mut ext = new_test_ext(&ENDOWED_ACCOUNTS, ENDOWMENT_AMOUNT);
    let challenger = ALICE;
    let challenger_play = (ChallengePlay::Scissors, 57832_u64);

    let rival = BOB;
    let rival_play = (ChallengePlay::Rock, 481_u64);

    let challenge_id =
        create_played_challenge(&mut ext, challenger, rival, challenger_play, rival_play);
    let before = snapshot(&ext, challenge_id);

    assert_eq!(
        ext.rps.reveal_challenge_results(
            &mut ext.balances,
            CHARLIE,
            challenger_play.0,
            challenger_play.1,
            rival_play.0,
            rival_play.1,
            challenge_id
        ),
        Err(Error::CannotRevealNonParticipatingChallenge)
    );
    assert_eq!(snapshot(&ext, challenge_id), before);
}

#[test]
fn should_fail_to_revolve_non_fully_played_challenge() {
    let mut ext = new_test_ext(&ENDOWED_ACCOUNTS, ENDOWMENT_AMOUNT);
    let challenger = ALICE;
    let challenger_play = (ChallengePlay::Scissors, 57832_u64);

    let rival = BOB;

    let challenge_id = create_accepted_challenge(&mut ext, challenger, rival);

    assert_eq!(
        ext.rps.play_challenge(
            &mut ext.balances,
            challenger,
            challenge_id,
            challenger_play.0,
            challenger_play.1
        ),
        Ok(())
    );

    let before = snapshot(&ext, challenge_id);
    assert_eq!(
        ext.rps.reveal_challenge_results(
            &mut ext.balances,
            challenger,
            challenger_play.0,
            challenger_play.1,
            challenger_play.0,
            challenger_play.1,
            challenge_id
        ),
        Err(Error::ChallengeStateForbidsResolution)
    );
    assert_eq!(snapshot(&ext, challenge_id), before);
}

#[test]
fn should_fail_to_resolve_non_accepted_challenge() {
    let mut ext = new_test_ext(&ENDOWED_ACCOUNTS, ENDOWMENT_AMOUNT);
    let challenger = ALICE;
    let challenger_play = (ChallengePlay::Scissors, 57832_u64);

    let challenge_id = create_challenge(&mut ext, challenger);
    let before = snapshot(&ext, challenge_id);

    assert_eq!(
        ext.rps.reveal_challenge_results(
            &mut ext.balances,
            challenger,
            challenger_play.0,
            challenger_play.1,
            challenger_play.0,
            challenger_play.1,
            challenge_id
        ),
        Err(Error::ChallengeStateForbidsPlay)
    );
    assert_eq!(snapshot(&ext, challenge_id), before);
}

#[test]
fn should_fail_to_resolve_with_incorrect_secret() {
    let mut ext = new_test_ext(&ENDOWED_ACCOUNTS, ENDOWMENT_AMOUNT);
    let challenger = ALICE;
    let challenger_play = (ChallengePlay::Scissors, 57832_u64);

    let rival = BOB;
    let rival_play = (ChallengePlay::Rock, 481_u64);

    let challenge_id =
        create_played_challenge(&mut ext, challenger, rival, challenger_play, rival_play);
    let before = snapshot(&ext, challenge_id);

    assert_eq!(
        ext.rps.reveal_challenge_results(
            &mut ext.balances,
            challenger,
            challenger_play.0,
            challenger_play.1,
            rival_play.0,
            rival_play.1 + 12,
            challenge_id
        ),
        Err(Error::InvalidHandHash)
    );
    assert_eq!(snapshot(&ext, challenge_id), before);
}
