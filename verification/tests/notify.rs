//! Notification side-channel tests: seeds, counters, ids and the
//! encrypted payloads, checked against the underlying crypto crates.

use battleship::game::join_game;
use battleship::game::new_game;
use battleship::game::Coin;
use battleship::notify::encrypt_notification_data;
use battleship::notify::get_count;
use battleship::notify::get_seed;
use battleship::notify::increment_count;
use battleship::notify::notification_id;
use battleship::notify::query_channel_info;
use battleship::notify::query_list_channels;
use battleship::notify::update_seed;
use battleship::notify::zero_pad;
use battleship::notify::Channel;
use battleship::notify::NotificationState;
use battleship::notify::NotifyError;
use chacha20poly1305::aead::Aead;
use chacha20poly1305::aead::Payload;
use chacha20poly1305::KeyInit;
use hmac::Mac;
use sha2::Digest;

fn state() -> NotificationState {
    NotificationState::new(vec![42u8; 32])
}

#[test]
fn zero_pad_fills_to_block() {
    let mut v: Vec<u8> = vec![1, 2, 3];
    zero_pad(&mut v, 8);
    assert_eq!(v, vec![1, 2, 3, 0, 0, 0, 0, 0]);
    let mut v: Vec<u8> = vec![1, 2, 3, 4, 5, 6, 7, 8];
    zero_pad(&mut v, 8);
    assert_eq!(v, vec![1, 2, 3, 4, 5, 6, 7, 8]);
    let mut v: Vec<u8> = Vec::new();
    zero_pad(&mut v, 8);
    assert!(v.is_empty());
}

#[test]
fn derived_seed_matches_hkdf() {
    let s = state();
    let addr = "alice".to_string();
    let seed = get_seed(&s, &addr);
    let hk = hkdf::Hkdf::<sha2::Sha256>::new(None, &[42u8; 32]);
    let mut expected = [0u8; 32];
    hk.expand(b"alice", &mut expected).unwrap();
    assert_eq!(seed, expected.to_vec());
}

#[test]
fn notification_id_matches_hmac() {
    let s = state();
    let addr = "alice".to_string();
    let channel = "game_updated".to_string();
    let id = notification_id(&s, &addr, &channel);
    let seed = get_seed(&s, &addr);
    let mut mac = <hmac::Hmac<sha2::Sha256> as Mac>::new_from_slice(&seed).unwrap();
    mac.update(b"game_updated:0");
    let expected = mac.finalize().into_bytes().to_vec();
    assert_eq!(id, expected);
}

#[test]
fn ids_rotate_with_the_counter() {
    let mut s = state();
    let addr = "alice".to_string();
    let channel = "game_updated".to_string();
    let first = notification_id(&s, &addr, &channel);
    assert_eq!(increment_count(&mut s, &channel, &addr), 1);
    let second = notification_id(&s, &addr, &channel);
    assert_eq!(increment_count(&mut s, &channel, &addr), 2);
    let third = notification_id(&s, &addr, &channel);
    assert_ne!(first, second);
    assert_ne!(second, third);
    assert_ne!(first, third);
    assert_eq!(get_count(&s, &channel, &addr), 2);
    // counters are independent per channel and per address
    assert_eq!(get_count(&s, &"other".to_string(), &addr), 0);
    assert_eq!(get_count(&s, &channel, &"bob".to_string()), 0);
}

#[test]
fn payload_decrypts_under_the_recipient_seed() {
    let mut s = state();
    let addr = "alice".to_string();
    let channel = "game_updated".to_string();
    let plaintext: Vec<u8> = b"a short message".to_vec();
    let sealed = encrypt_notification_data(&s, 123, &"bob".to_string(), &addr, &channel, plaintext.clone());
    assert_eq!(sealed.len(), 256 + 16);

    let seed = get_seed(&s, &addr);
    let hash = sha2::Sha256::digest(b"game_updated");
    let mut nonce = [0u8; 12];
    nonce.copy_from_slice(&hash[..12]); // counter 0 leaves the hash as-is
    let cipher = chacha20poly1305::ChaCha20Poly1305::new(
        chacha20poly1305::Key::from_slice(&seed),
    );
    let opened = cipher
        .decrypt(
            chacha20poly1305::Nonce::from_slice(&nonce),
            Payload { msg: &sealed, aad: b"123:bob" },
        )
        .expect("authenticated decryption must succeed");
    let mut padded = plaintext;
    zero_pad(&mut padded, 256);
    assert_eq!(opened, padded);

    // after an increment the nonce moves on: the old nonce no longer opens
    // a fresh payload
    increment_count(&mut s, &channel, &addr);
    let sealed2 =
        encrypt_notification_data(&s, 123, &"bob".to_string(), &addr, &channel, b"x".to_vec());
    assert!(cipher
        .decrypt(
            chacha20poly1305::Nonce::from_slice(&nonce),
            Payload { msg: &sealed2, aad: b"123:bob" },
        )
        .is_err());
}

#[test]
fn join_notifies_the_initiator() {
    let mut ledger = battleship::game::GameLedger::new();
    let mut notify = state();
    let game = new_game(
        &mut ledger,
        1000,
        "token 1".to_string(),
        "alice".to_string(),
        "game".to_string(),
        &Vec::<Coin>::new(),
        0,
        &vec![7u8; 32],
    )
    .expect("create");
    let expected_id = notification_id(&notify, &"alice".to_string(), &"game_updated".to_string());
    let (id, payload) = join_game(
        &mut ledger,
        &mut notify,
        1001,
        50,
        &"bob".to_string(),
        "token 2".to_string(),
        "bob".to_string(),
        game.game_id.clone(),
        &Vec::new(),
    )
    .expect("join");
    assert_eq!(id, expected_id);
    assert_eq!(payload.len(), 256 + 16);
    // the initiator's counter advanced exactly once
    assert_eq!(get_count(&notify, &"game_updated".to_string(), &"alice".to_string()), 1);
    assert_eq!(get_count(&notify, &"game_updated".to_string(), &"bob".to_string()), 0);

    // the payload opens under the initiator's seed and holds the game id,
    // an empty board placeholder and the new turn state
    let seed = get_seed(&notify, &"alice".to_string());
    let hash = sha2::Sha256::digest(b"game_updated");
    let cipher = chacha20poly1305::ChaCha20Poly1305::new(
        chacha20poly1305::Key::from_slice(&seed),
    );
    let opened = cipher
        .decrypt(
            chacha20poly1305::Nonce::from_slice(&hash[..12]),
            Payload { msg: &payload, aad: b"50:bob" },
        )
        .expect("decryption");
    let mut expected =
        minicbor_ser::to_vec(&(&game.game_id, &vec![0u8; 100], 1u8)).expect("cbor");
    zero_pad(&mut expected, 256);
    assert_eq!(opened, expected);
}

#[test]
fn seed_rotation_checks_the_document() {
    let mut s = state();
    let sender = "alice".to_string();
    let me = "contract".to_string();
    let sig = vec![9u8; 64];
    let old_seed = get_seed(&s, &sender);

    let err = update_seed(&mut s, &sender, &me, &me, &old_seed, &sender, false, &sig)
        .expect_err("unverified signature");
    assert_eq!(err, NotifyError::InvalidSignature);

    let err = update_seed(&mut s, &sender, &me, &me, &old_seed, &"eve".to_string(), true, &sig)
        .expect_err("foreign signer");
    assert_eq!(err, NotifyError::WrongSigner);

    let err = update_seed(&mut s, &sender, &me, &"other".to_string(), &old_seed, &sender, true, &sig)
        .expect_err("wrong contract");
    assert_eq!(err, NotifyError::WrongContract);

    let err = update_seed(&mut s, &sender, &me, &me, &vec![0u8; 32], &sender, true, &sig)
        .expect_err("stale previous seed");
    assert_eq!(err, NotifyError::WrongPreviousSeed);

    let new_seed = update_seed(&mut s, &sender, &me, &me, &old_seed, &sender, true, &sig)
        .expect("rotation");
    assert_eq!(new_seed, sha2::Sha256::digest(&sig).to_vec());
    assert_eq!(get_seed(&s, &sender), new_seed);
    // the prior seed is the anti-replay token: it no longer matches
    let err = update_seed(&mut s, &sender, &me, &me, &old_seed, &sender, true, &sig)
        .expect_err("replayed document");
    assert_eq!(err, NotifyError::WrongPreviousSeed);
}

#[test]
fn channels_store_and_report() {
    let mut s = state();
    Channel { id: "game_updated".to_string(), schema: Some("game_updated=[game_id:text,home:[100 uint],turn:uint]".to_string()) }
        .store(&mut s);
    Channel { id: "game_listed".to_string(), schema: None }.store(&mut s);
    let channels = query_list_channels(&s);
    assert_eq!(channels, vec!["game_updated".to_string(), "game_listed".to_string()]);

    let infos = query_channel_info(
        &s,
        vec!["game_updated".to_string(), "game_listed".to_string()],
        &"alice".to_string(),
    );
    assert_eq!(infos.len(), 2);
    assert_eq!(infos[0].channel, "game_updated");
    assert_eq!(infos[0].counter, 0);
    assert_eq!(infos[0].seed, get_seed(&s, &"alice".to_string()));
    assert_eq!(
        infos[0].next_id,
        notification_id(&s, &"alice".to_string(), &"game_updated".to_string())
    );
    assert!(infos[0].cddl.is_some());
    assert!(infos[1].cddl.is_none());

    // storing a channel again without a schema clears the schema
    Channel { id: "game_updated".to_string(), schema: None }.store(&mut s);
    let infos = query_channel_info(&s, vec!["game_updated".to_string()], &"alice".to_string());
    assert!(infos[0].cddl.is_none());
    let channels = query_list_channels(&s);
    assert_eq!(channels.len(), 2);
}
