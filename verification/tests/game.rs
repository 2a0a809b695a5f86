//! End-to-end game tests: the full wagered match, withdrawal, timeouts,
//! and one test per refusal the actions can answer with.

use battleship::game::attack_cell;
use battleship::game::claim_victory;
use battleship::game::join_game;
use battleship::game::new_game;
use battleship::game::query_active_games;
use battleship::game::query_game_state;
use battleship::game::query_list_games;
use battleship::game::submit_setup;
use battleship::game::Coin;
use battleship::game::GameError;
use battleship::game::GameLedger;
use battleship::notify::NotificationState;
use base64::Engine;

fn fleet() -> Vec<u8> {
    vec![
        0, 0, 0, 0, 0, 2, 2, 2, 2, 2, 0, 0, 0, 0, 0, 0, 0, 0, 0, 3, 0, 0, 0, 0, 0, 0, 0, 0, 0, 3,
        0, 0, 0, 0, 0, 0, 0, 0, 0, 3, 0, 0, 0, 0, 0, 0, 0, 0, 0, 3, 4, 4, 4, 0, 0, 0, 0, 0, 0, 0,
        0, 0, 0, 0, 0, 0, 0, 0, 0, 0, 0, 0, 5, 0, 0, 0, 0, 0, 0, 0, 0, 0, 5, 0, 0, 0, 0, 0, 0, 0,
        0, 0, 5, 0, 0, 0, 0, 0, 6, 6,
    ]
}

/// The 17 occupied cells of `fleet`, carrier first.
fn fleet_ship_cells() -> Vec<u8> {
    vec![5, 6, 7, 8, 9, 19, 29, 39, 49, 50, 51, 52, 72, 82, 92, 98, 99]
}

fn uscrt(amount: u128) -> Vec<Coin> {
    vec![Coin { denom: "uscrt".to_string(), amount }]
}

fn fresh() -> (GameLedger, NotificationState) {
    (GameLedger::new(), NotificationState::new(vec![42u8; 32]))
}

/// Create a listed game and hand back its id. `coin_flip` 0 makes the
/// initiator move first.
fn create(
    ledger: &mut GameLedger,
    token: &str,
    owner: &str,
    funds: &Vec<Coin>,
    coin_flip: u8,
) -> String {
    let game = new_game(
        ledger,
        1000,
        token.to_string(),
        owner.to_string(),
        "a friendly match".to_string(),
        funds,
        coin_flip,
        &vec![7u8; 32],
    )
    .expect("create failed");
    game.game_id
}

/// Create, join and set both boards up; initiator moves first.
fn started_game(
    ledger: &mut GameLedger,
    notify: &mut NotificationState,
    wager: u128,
) -> String {
    let funds = if wager == 0 { Vec::new() } else { uscrt(wager) };
    let gid = create(ledger, "token 1", "alice", &funds, 0);
    join_game(
        ledger,
        notify,
        1001,
        50,
        &"bob".to_string(),
        "token 2".to_string(),
        "bob".to_string(),
        gid.clone(),
        &funds,
    )
    .expect("join failed");
    submit_setup(
        ledger,
        notify,
        1002,
        51,
        &"alice".to_string(),
        "token 1".to_string(),
        gid.clone(),
        fleet(),
    )
    .expect("initiator setup failed");
    submit_setup(
        ledger,
        notify,
        1003,
        52,
        &"bob".to_string(),
        "token 2".to_string(),
        gid.clone(),
        fleet(),
    )
    .expect("joiner setup failed");
    gid
}

#[test]
fn full_wagered_match_pays_the_winner() {
    let (mut ledger, mut notify) = fresh();
    let gid = started_game(&mut ledger, &mut notify, 1000000);

    let ships = fleet_ship_cells();
    let mut now = 1004u64;
    let mut seen_ids: Vec<Vec<u8>> = Vec::new();
    // the initiator hunts the fleet; the joiner shoots the top-left corner
    let empties: Vec<u8> = vec![0, 1, 2, 3, 4, 10, 11, 12, 13, 14, 20, 21, 22, 23, 24, 25];
    for i in 0..17 {
        let out = attack_cell(
            &mut ledger,
            &mut notify,
            now,
            60,
            &"alice".to_string(),
            "token 1".to_string(),
            gid.clone(),
            ships[i],
        )
        .expect("initiator attack failed");
        now += 1;
        seen_ids.push(out.notification.0.clone());
        if i < 16 {
            // turn alternation: the opponent is up, never the attacker
            assert_eq!(out.turn, 5, "turn must pass to the joiner");
            assert!(out.payout.is_none());
            let back = attack_cell(
                &mut ledger,
                &mut notify,
                now,
                60,
                &"bob".to_string(),
                "token 2".to_string(),
                gid.clone(),
                empties[i],
            )
            .expect("joiner attack failed");
            now += 1;
            seen_ids.push(back.notification.0.clone());
            assert_eq!(back.turn, 4, "turn must pass back to the initiator");
        } else {
            // win detection exactness: terminal exactly on the 17th hit
            assert_eq!(out.turn, 6, "seventeenth hit must end the game");
            let payout = out.payout.expect("winner must be paid");
            assert_eq!(payout.denom, "uscrt");
            assert_eq!(payout.amount, 2 * 1000000 - 1000000);
            // with the whole fleet sunk, every ship lies revealed
            assert_eq!(out.away[5], 2 + 128);
            assert_eq!(out.away[19], 3 + 128);
            assert_eq!(out.away[50], 4 + 128);
            assert_eq!(out.away[72], 5 + 128);
            assert_eq!(out.away[98], 6 + 128);
            assert_eq!(out.away[99], 6 + 128);
        }
    }

    // every push of the whole match bore a fresh notification id
    for i in 0..seen_ids.len() {
        for j in (i + 1)..seen_ids.len() {
            assert_ne!(seen_ids[i], seen_ids[j], "notification ids must never repeat");
        }
    }

    // the game has moved from listed to finished and off both seats' lists
    assert!(query_list_games(&ledger, None, None).is_empty());
    assert!(query_active_games(&ledger, &"token 1".to_string()).is_empty());
    assert!(query_active_games(&ledger, &"token 2".to_string()).is_empty());
    let state = query_game_state(&ledger, "token 1".to_string(), gid).expect("state query");
    assert_eq!(state.turn, 6);
}

#[test]
fn not_terminal_at_sixteen_hits() {
    let (mut ledger, mut notify) = fresh();
    let gid = started_game(&mut ledger, &mut notify, 0);
    let ships = fleet_ship_cells();
    let mut now = 1004u64;
    for i in 0..16 {
        let out = attack_cell(
            &mut ledger,
            &mut notify,
            now,
            60,
            &"alice".to_string(),
            "token 1".to_string(),
            gid.clone(),
            ships[i],
        )
        .expect("attack failed");
        now += 1;
        assert_eq!(out.turn, 5, "sixteen hits must not end the game");
        attack_cell(
            &mut ledger,
            &mut notify,
            now,
            60,
            &"bob".to_string(),
            "token 2".to_string(),
            gid.clone(),
            (i as u8) + 20,
        )
        .expect("joiner attack failed");
        now += 1;
    }
}

#[test]
fn double_attack_rejected_and_harmless() {
    let (mut ledger, mut notify) = fresh();
    let gid = started_game(&mut ledger, &mut notify, 0);
    attack_cell(
        &mut ledger,
        &mut notify,
        1004,
        60,
        &"alice".to_string(),
        "token 1".to_string(),
        gid.clone(),
        5,
    )
    .expect("first attack");
    attack_cell(
        &mut ledger,
        &mut notify,
        1005,
        60,
        &"bob".to_string(),
        "token 2".to_string(),
        gid.clone(),
        0,
    )
    .expect("joiner attack");
    let before = query_game_state(&ledger, "token 1".to_string(), gid.clone()).expect("state");
    // a hit shows only the generic hit flag; the miss against us is marked
    assert_eq!(before.away[5], 0x80);
    assert_eq!(before.home[0], 1);
    let err = attack_cell(
        &mut ledger,
        &mut notify,
        1006,
        60,
        &"alice".to_string(),
        "token 1".to_string(),
        gid.clone(),
        5,
    )
    .expect_err("second attack on the same cell must fail");
    assert_eq!(err, GameError::CellAlreadyAttacked);
    let after = query_game_state(&ledger, "token 1".to_string(), gid).expect("state");
    assert_eq!(before.away, after.away);
    assert_eq!(before.home, after.home);
    assert_eq!(before.turn, after.turn);
}

#[test]
fn withdrawal_before_join_returns_wager() {
    let (mut ledger, mut notify) = fresh();
    let gid = create(&mut ledger, "token 1", "alice", &Vec::new(), 0);
    let out = claim_victory(
        &mut ledger,
        &mut notify,
        1001,
        50,
        &"alice".to_string(),
        "token 1".to_string(),
        gid.clone(),
    )
    .expect("withdrawal failed");
    assert_eq!(out.payout.amount, 0);
    assert!(out.notification.is_none());
    assert!(query_active_games(&ledger, &"token 1".to_string()).is_empty());
    let state = query_game_state(&ledger, "token 1".to_string(), gid).expect("finished state");
    assert_eq!(state.turn, 6);
}

#[test]
fn claim_before_timeout_rejected() {
    let (mut ledger, mut notify) = fresh();
    let gid = started_game(&mut ledger, &mut notify, 1000000);
    // last move at 1003; joiner is on the hook only after 45 seconds
    let err = claim_victory(
        &mut ledger,
        &mut notify,
        1003 + 44,
        60,
        &"bob".to_string(),
        "token 2".to_string(),
        gid.clone(),
    )
    .expect_err("too early");
    assert_eq!(err, GameError::CannotClaimYet);
}

#[test]
fn claim_after_timeout_pays_full_pot() {
    let (mut ledger, mut notify) = fresh();
    let gid = started_game(&mut ledger, &mut notify, 1000000);
    // it is the initiator's turn; the joiner may claim once 45 s lapse
    let out = claim_victory(
        &mut ledger,
        &mut notify,
        1003 + 45,
        60,
        &"bob".to_string(),
        "token 2".to_string(),
        gid.clone(),
    )
    .expect("timeout claim failed");
    assert_eq!(out.payout.amount, 2 * 1000000);
    assert!(out.notification.is_some());
    let state = query_game_state(&ledger, "token 2".to_string(), gid).expect("state");
    assert_eq!(state.turn, 7);
}

#[test]
fn claim_on_own_turn_rejected() {
    let (mut ledger, mut notify) = fresh();
    let gid = started_game(&mut ledger, &mut notify, 0);
    // it is the initiator's turn, so the initiator cannot claim, ever
    let err = claim_victory(
        &mut ledger,
        &mut notify,
        100000,
        60,
        &"alice".to_string(),
        "token 1".to_string(),
        gid,
    )
    .expect_err("claim on own turn");
    assert_eq!(err, GameError::CannotClaimYet);
}

#[test]
fn oversized_setup_rejected_without_effect() {
    let (mut ledger, mut notify) = fresh();
    let gid = create(&mut ledger, "token 1", "alice", &Vec::new(), 0);
    join_game(
        &mut ledger,
        &mut notify,
        1001,
        50,
        &"bob".to_string(),
        "token 2".to_string(),
        "bob".to_string(),
        gid.clone(),
        &Vec::new(),
    )
    .expect("join");
    let mut bad = fleet();
    bad[97] = 6; // 18 occupied cells
    let err = submit_setup(
        &mut ledger,
        &mut notify,
        1002,
        51,
        &"alice".to_string(),
        "token 1".to_string(),
        gid.clone(),
        bad,
    )
    .expect_err("invalid setup");
    assert_eq!(err, GameError::InvalidSetup);
    let state = query_game_state(&ledger, "token 1".to_string(), gid).expect("state");
    assert_eq!(state.turn, 1, "state must still await both setups");
    assert_eq!(state.home, vec![0u8; 100]);
}

#[test]
fn second_join_rejected() {
    let (mut ledger, mut notify) = fresh();
    let gid = create(&mut ledger, "token 1", "alice", &Vec::new(), 0);
    join_game(
        &mut ledger,
        &mut notify,
        1001,
        50,
        &"bob".to_string(),
        "token 2".to_string(),
        "bob".to_string(),
        gid.clone(),
        &Vec::new(),
    )
    .expect("first join");
    let err = join_game(
        &mut ledger,
        &mut notify,
        1002,
        51,
        &"carol".to_string(),
        "token 3".to_string(),
        "carol".to_string(),
        gid,
        &Vec::new(),
    )
    .expect_err("second join");
    assert_eq!(err, GameError::AlreadyJoined);
}

#[test]
fn create_rejects_bad_funds() {
    let (mut ledger, _notify) = fresh();
    let foreign = vec![Coin { denom: "uatom".to_string(), amount: 1000000 }];
    let err = new_game(
        &mut ledger,
        1000,
        "token 1".to_string(),
        "alice".to_string(),
        "game".to_string(),
        &foreign,
        0,
        &vec![7u8; 32],
    )
    .expect_err("foreign denom");
    assert_eq!(err, GameError::InvalidFunds);

    let odd = uscrt(1234);
    let err = new_game(
        &mut ledger,
        1000,
        "token 1".to_string(),
        "alice".to_string(),
        "game".to_string(),
        &odd,
        0,
        &vec![7u8; 32],
    )
    .expect_err("odd wager");
    assert_eq!(err, GameError::InvalidWager);

    let two = vec![
        Coin { denom: "uscrt".to_string(), amount: 1 },
        Coin { denom: "uscrt".to_string(), amount: 2 },
    ];
    let err = new_game(
        &mut ledger,
        1000,
        "token 1".to_string(),
        "alice".to_string(),
        "game".to_string(),
        &two,
        0,
        &vec![7u8; 32],
    )
    .expect_err("two coins");
    assert_eq!(err, GameError::InvalidFunds);
}

#[test]
fn join_rejects_wrong_wager_self_play_and_unknown_game() {
    let (mut ledger, mut notify) = fresh();
    let gid = create(&mut ledger, "token 1", "alice", &uscrt(1000000), 0);

    let err = join_game(
        &mut ledger,
        &mut notify,
        1001,
        50,
        &"bob".to_string(),
        "token 2".to_string(),
        "bob".to_string(),
        gid.clone(),
        &uscrt(2000000),
    )
    .expect_err("wager mismatch");
    assert_eq!(err, GameError::WrongWager);

    let err = join_game(
        &mut ledger,
        &mut notify,
        1001,
        50,
        &"bob".to_string(),
        "token 2".to_string(),
        "bob".to_string(),
        gid.clone(),
        &Vec::new(),
    )
    .expect_err("no funds for a wagered game");
    assert_eq!(err, GameError::WrongWager);

    let err = join_game(
        &mut ledger,
        &mut notify,
        1001,
        50,
        &"alice".to_string(),
        "token 1".to_string(),
        "alice".to_string(),
        gid.clone(),
        &uscrt(1000000),
    )
    .expect_err("self play");
    assert_eq!(err, GameError::SelfPlay);

    let err = join_game(
        &mut ledger,
        &mut notify,
        1001,
        50,
        &"bob".to_string(),
        "token 2".to_string(),
        "bob".to_string(),
        "no such id".to_string(),
        &uscrt(1000000),
    )
    .expect_err("unknown game");
    assert_eq!(err, GameError::NoSuchGame);
}

#[test]
fn attack_rejections() {
    let (mut ledger, mut notify) = fresh();
    let gid = started_game(&mut ledger, &mut notify, 0);

    let err = attack_cell(
        &mut ledger,
        &mut notify,
        1004,
        60,
        &"bob".to_string(),
        "token 2".to_string(),
        gid.clone(),
        5,
    )
    .expect_err("not the joiner's turn");
    assert_eq!(err, GameError::NotYourTurn);

    let err = attack_cell(
        &mut ledger,
        &mut notify,
        1004,
        60,
        &"alice".to_string(),
        "token 1".to_string(),
        gid.clone(),
        100,
    )
    .expect_err("cell off the board");
    assert_eq!(err, GameError::CellOutOfBounds);

    let err = attack_cell(
        &mut ledger,
        &mut notify,
        1004,
        60,
        &"mallory".to_string(),
        "token 9".to_string(),
        gid.clone(),
        5,
    )
    .expect_err("stranger's token");
    assert_eq!(err, GameError::Unauthorized);

    let err = attack_cell(
        &mut ledger,
        &mut notify,
        1004,
        60,
        &"alice".to_string(),
        "token 1".to_string(),
        "no such id".to_string(),
        5,
    )
    .expect_err("unknown game");
    assert_eq!(err, GameError::NoSuchGame);
}

#[test]
fn resubmitted_setup_rejected() {
    let (mut ledger, mut notify) = fresh();
    let gid = started_game(&mut ledger, &mut notify, 0);
    let err = submit_setup(
        &mut ledger,
        &mut notify,
        1004,
        60,
        &"alice".to_string(),
        "token 1".to_string(),
        gid,
        fleet(),
    )
    .expect_err("setup already recorded");
    assert_eq!(err, GameError::AlreadySetUp);
}

#[test]
fn join_after_start_rejected() {
    let (mut ledger, mut notify) = fresh();
    let gid = started_game(&mut ledger, &mut notify, 0);
    let err = join_game(
        &mut ledger,
        &mut notify,
        1004,
        60,
        &"carol".to_string(),
        "token 3".to_string(),
        "carol".to_string(),
        gid,
        &Vec::new(),
    )
    .expect_err("game already under way");
    assert_eq!(err, GameError::AlreadyJoined);
}

#[test]
fn lobby_lists_open_games_with_wagers() {
    let (mut ledger, _notify) = fresh();
    let a = create(&mut ledger, "token 1", "alice", &uscrt(1000000), 0);
    let games = query_list_games(&ledger, None, None);
    assert_eq!(games.len(), 1);
    assert_eq!(games[0].game_id, a);
    assert_eq!(games[0].wager.amount, 1000000);
    assert_eq!(games[0].wager.denom, "uscrt");
    assert_eq!(games[0].title, "a friendly match");
    // an out-of-range page is empty
    assert!(query_list_games(&ledger, Some(1), Some(20)).is_empty());
    // the listing is on the creator's active list
    let active = query_active_games(&ledger, &"token 1".to_string());
    assert_eq!(active, vec![a]);
}

#[test]
fn game_id_is_base64_of_the_entropy() {
    let (mut ledger, _notify) = fresh();
    let entropy = vec![7u8; 32];
    let game = new_game(
        &mut ledger,
        1000,
        "token 1".to_string(),
        "alice".to_string(),
        "game".to_string(),
        &Vec::new(),
        0,
        &entropy,
    )
    .expect("create");
    let expected = base64::engine::general_purpose::STANDARD.encode(&entropy);
    assert_eq!(game.game_id, expected);
    assert_eq!(game.game_id.len(), 44);
}

#[test]
fn coin_flip_decides_first_mover() {
    // bit 1 clear: the initiator goes first
    let (mut ledger, mut notify) = fresh();
    let gid = started_game(&mut ledger, &mut notify, 0);
    let state = query_game_state(&ledger, "token 1".to_string(), gid).expect("state");
    assert_eq!(state.turn, 4);

    // bit 1 set: the joiner goes first
    let (mut ledger2, mut notify2) = fresh();
    let gid2 = create(&mut ledger2, "token 1", "alice", &Vec::new(), 2);
    join_game(
        &mut ledger2,
        &mut notify2,
        1001,
        50,
        &"bob".to_string(),
        "token 2".to_string(),
        "bob".to_string(),
        gid2.clone(),
        &Vec::new(),
    )
    .expect("join");
    submit_setup(
        &mut ledger2,
        &mut notify2,
        1002,
        51,
        &"alice".to_string(),
        "token 1".to_string(),
        gid2.clone(),
        fleet(),
    )
    .expect("setup 1");
    submit_setup(
        &mut ledger2,
        &mut notify2,
        1003,
        52,
        &"bob".to_string(),
        "token 2".to_string(),
        gid2.clone(),
        fleet(),
    )
    .expect("setup 2");
    let state2 = query_game_state(&ledger2, "token 2".to_string(), gid2).expect("state");
    assert_eq!(state2.turn, 5);
}

#[test]
fn sinking_a_ship_reveals_it() {
    let (mut ledger, mut notify) = fresh();
    let gid = started_game(&mut ledger, &mut notify, 0);
    // first destroyer cell: a hit, but the ship stays anonymous
    let out = attack_cell(
        &mut ledger,
        &mut notify,
        1004,
        60,
        &"alice".to_string(),
        "token 1".to_string(),
        gid.clone(),
        98,
    )
    .expect("first destroyer hit");
    assert_eq!(out.away[98], 0x80);
    attack_cell(
        &mut ledger,
        &mut notify,
        1005,
        60,
        &"bob".to_string(),
        "token 2".to_string(),
        gid.clone(),
        0,
    )
    .expect("joiner move");
    // second destroyer cell: the ship is sunk and both cells reveal it
    let out = attack_cell(
        &mut ledger,
        &mut notify,
        1006,
        60,
        &"alice".to_string(),
        "token 1".to_string(),
        gid.clone(),
        99,
    )
    .expect("sinking hit");
    assert_eq!(out.away[98], 6 + 128, "a sunk destroyer shows its marker");
    assert_eq!(out.away[99], 6 + 128, "a sunk destroyer shows its marker");
    // nothing else was revealed, and the game goes on
    assert_eq!(out.turn, 5);
    for j in 0..98 {
        assert!(out.away[j] == 0);
    }
    let state = query_game_state(&ledger, "token 1".to_string(), gid).expect("state");
    assert_eq!(state.away[98], 6 + 128);
    assert_eq!(state.away[99], 6 + 128);
}
