use society_crypto::party::User;
use society_crypto::society::{
    encrypt_to_society, mpc_decrypt, setup, Actor, DecryptionMeeting, MasterKeyMaterial, MpcError,
    MpcNetwork,
};

fn dealt_actors(n: usize, t: usize) -> (MasterKeyMaterial, Vec<Actor>) {
    let (keys, shares) = setup(n, t).unwrap();
    let actors = shares.into_iter().map(Actor::from_share).collect();
    (keys, actors)
}

#[test]
fn setup_rejects_bad_thresholds() {
    assert!(matches!(setup(3, 0), Err(MpcError::InvalidThreshold)));
    assert!(matches!(setup(3, 3), Err(MpcError::InvalidThreshold)));
    assert!(matches!(setup(3, 7), Err(MpcError::InvalidThreshold)));
    assert!(matches!(setup(0, 0), Err(MpcError::InvalidThreshold)));
    assert!(matches!(setup(1, 0), Err(MpcError::InvalidThreshold)));
    assert!(matches!(MpcNetwork::new(2, 2), Err(MpcError::InvalidThreshold)));
}

#[test]
fn setup_deals_one_share_per_actor() {
    let (keys, shares) = setup(5, 2).unwrap();
    assert_eq!(keys.threshold, 2);
    assert_eq!(keys.party_count, 5);
    assert_eq!(keys.public_key.len(), 48);
    assert_eq!(shares.len(), 5);
    for (i, share) in shares.iter().enumerate() {
        assert_eq!(share.actor_id, i);
        assert_eq!(share.public_share.len(), 48);
        assert_eq!(share.secret_share.len(), 32);
    }
    assert_ne!(shares[0].public_share, shares[1].public_share);
}

#[test]
fn scenario_two_of_three_decrypt() {
    let (keys, mut actors) = dealt_actors(3, 1);
    let ciphertext = encrypt_to_society(&keys.public_key, b"hello").unwrap();
    assert_ne!(ciphertext, b"hello".to_vec());
    for actor in actors.iter_mut() {
        actor.receive(ciphertext.clone());
    }

    let mut meeting = DecryptionMeeting::new(&keys);
    assert_eq!(meeting.accept_decryption_share(&mut actors[0]), Ok(()));
    assert_eq!(meeting.accept_decryption_share(&mut actors[1]), Ok(()));
    assert!(!actors[0].has_pending());
    assert!(!actors[1].has_pending());
    assert_eq!(meeting.share_count(), 2);
    assert_eq!(meeting.decrypt_message(), Ok(b"hello".to_vec()));

    let mut lone = DecryptionMeeting::new(&keys);
    assert_eq!(lone.accept_decryption_share(&mut actors[2]), Ok(()));
    assert_eq!(lone.share_count(), 1);
    assert_eq!(lone.decrypt_message(), Err(MpcError::InsufficientShares));
}

#[test]
fn any_quorum_decrypts() {
    let (keys, mut actors) = dealt_actors(5, 2);
    let message = b"any three of five".to_vec();
    let ciphertext = encrypt_to_society(&keys.public_key, &message).unwrap();
    let quorums: [[usize; 3]; 4] = [[0, 1, 2], [2, 3, 4], [0, 2, 4], [4, 1, 3]];
    for quorum in quorums.iter() {
        let mut meeting = DecryptionMeeting::new(&keys);
        for &id in quorum.iter() {
            actors[id].receive(ciphertext.clone());
            assert_eq!(meeting.accept_decryption_share(&mut actors[id]), Ok(()));
        }
        assert_eq!(meeting.decrypt_message(), Ok(message.clone()));
    }
    let mut meeting = DecryptionMeeting::new(&keys);
    for id in [1usize, 3] {
        actors[id].receive(ciphertext.clone());
        assert_eq!(meeting.accept_decryption_share(&mut actors[id]), Ok(()));
    }
    assert_eq!(meeting.decrypt_message(), Err(MpcError::InsufficientShares));
}

#[test]
fn fresh_meeting_has_insufficient_shares() {
    let (keys, _actors) = dealt_actors(3, 1);
    let meeting = DecryptionMeeting::new(&keys);
    assert_eq!(meeting.share_count(), 0);
    assert_eq!(meeting.decrypt_message(), Err(MpcError::InsufficientShares));
}

#[test]
fn resubmission_replaces_instead_of_counting_twice() {
    let (keys, mut actors) = dealt_actors(3, 1);
    let ciphertext = encrypt_to_society(&keys.public_key, b"once").unwrap();
    let mut meeting = DecryptionMeeting::new(&keys);
    actors[0].receive(ciphertext.clone());
    assert_eq!(meeting.accept_decryption_share(&mut actors[0]), Ok(()));
    actors[0].receive(ciphertext.clone());
    assert_eq!(meeting.accept_decryption_share(&mut actors[0]), Ok(()));
    assert_eq!(meeting.share_count(), 1);
    assert_eq!(meeting.decrypt_message(), Err(MpcError::InsufficientShares));
}

#[test]
fn scenario_failing_share_is_not_counted() {
    let (keys, shares) = setup(3, 1).unwrap();
    let ciphertext = encrypt_to_society(&keys.public_key, b"x").unwrap();
    let mut honest = Actor::new(0, shares[0].public_share.clone(), shares[0].secret_share.clone());
    // well-formed, but its secret share does not match its public share
    let mut forger = Actor::new(1, shares[1].public_share.clone(), shares[2].secret_share.clone());
    honest.receive(ciphertext.clone());
    forger.receive(ciphertext.clone());
    let mut meeting = DecryptionMeeting::new(&keys);
    assert_eq!(meeting.accept_decryption_share(&mut honest), Ok(()));
    assert_eq!(meeting.accept_decryption_share(&mut forger), Err(MpcError::ShareRejected));
    assert_eq!(meeting.share_count(), 1);
    assert!(!forger.has_pending());
}

#[test]
fn share_for_other_ciphertext_is_rejected() {
    let (keys, mut actors) = dealt_actors(3, 1);
    let first = encrypt_to_society(&keys.public_key, b"first").unwrap();
    let second = encrypt_to_society(&keys.public_key, b"second").unwrap();
    let mut meeting = DecryptionMeeting::new(&keys);
    actors[0].receive(first.clone());
    actors[1].receive(second);
    actors[2].receive(first);
    assert_eq!(meeting.accept_decryption_share(&mut actors[0]), Ok(()));
    assert_eq!(meeting.accept_decryption_share(&mut actors[1]), Err(MpcError::ShareRejected));
    assert_eq!(meeting.share_count(), 1);
    assert_eq!(meeting.accept_decryption_share(&mut actors[2]), Ok(()));
    assert_eq!(meeting.decrypt_message(), Ok(b"first".to_vec()));
}

#[test]
fn malformed_ciphertext_gives_share_computation_error() {
    let (keys, mut actors) = dealt_actors(3, 1);
    assert!(matches!(
        actors[0].compute_share(&vec![1, 2, 3]),
        Err(MpcError::ShareComputationError)
    ));
    let mut meeting = DecryptionMeeting::new(&keys);
    actors[0].receive(vec![0u8; 10]);
    assert_eq!(
        meeting.accept_decryption_share(&mut actors[0]),
        Err(MpcError::ShareComputationError)
    );
    assert_eq!(meeting.share_count(), 0);
}

#[test]
fn shares_are_deterministic() {
    let (keys, actors) = dealt_actors(3, 1);
    let ciphertext = encrypt_to_society(&keys.public_key, b"same share").unwrap();
    let a = actors[1].compute_share(&ciphertext).unwrap();
    let b = actors[1].compute_share(&ciphertext).unwrap();
    assert_eq!(a.actor_id, 1);
    assert_eq!(a.share, b.share);
    assert_eq!(a.share.len(), 48);
    let other = actors[2].compute_share(&ciphertext).unwrap();
    assert_ne!(a.share, other.share);
}

#[test]
fn broken_key_set_gives_combination_error() {
    let (mut keys, mut actors) = dealt_actors(3, 1);
    let ciphertext = encrypt_to_society(&keys.public_key, b"y").unwrap();
    keys.public_key_set = vec![1, 2, 3];
    let mut meeting = DecryptionMeeting::new(&keys);
    for id in 0..2 {
        actors[id].receive(ciphertext.clone());
        assert_eq!(meeting.accept_decryption_share(&mut actors[id]), Ok(()));
    }
    assert_eq!(meeting.decrypt_message(), Err(MpcError::CombinationError));
}

#[test]
fn invalid_public_key_is_refused() {
    assert_eq!(encrypt_to_society(&[0u8; 3], b"m"), Err(MpcError::InvalidPublicKey));
    assert_eq!(encrypt_to_society(&[0xffu8; 48], b"m"), Err(MpcError::InvalidPublicKey));
}

#[test]
fn network_round_trips_any_payload() {
    let mut network = MpcNetwork::new(3, 1).unwrap();
    let public_key = network.publish_public_key();
    assert_eq!(public_key, network.publish_public_key());
    assert_eq!(network.keys().threshold, 1);
    let payloads: [&[u8]; 4] = [b"", b"hello", &[0u8, 255, 7], &[42u8; 1000]];
    for payload in payloads.iter() {
        let ciphertext = encrypt_to_society(&public_key, payload).unwrap();
        assert_eq!(network.mpc_decrypt(ciphertext), Ok(payload.to_vec()));
    }
    let ciphertext = encrypt_to_society(&public_key, b"free function").unwrap();
    assert_eq!(mpc_decrypt(&mut network, ciphertext), Ok(b"free function".to_vec()));
}

#[test]
fn network_with_larger_threshold() {
    let mut network = MpcNetwork::new(7, 4).unwrap();
    let ciphertext = encrypt_to_society(&network.publish_public_key(), b"five of seven").unwrap();
    assert_eq!(network.mpc_decrypt(ciphertext), Ok(b"five of seven".to_vec()));
}

#[test]
fn network_rejects_foreign_ciphertext() {
    let mut network = MpcNetwork::new(3, 1).unwrap();
    assert_eq!(network.mpc_decrypt(vec![1, 2, 3]), Err(MpcError::InsufficientShares));
}

#[test]
fn network_sends_result_to_one_user() {
    let network = MpcNetwork::new(3, 1).unwrap();
    let alice = User::new("alice");
    let eve = User::new("eve");
    let blob = network.ecdh_encrypt(b"4", alice.ecdh_pubkey());
    assert_ne!(blob, b"4".to_vec());
    assert_eq!(alice.decrypt_ecdh_message(&blob, network.ecdh_pub_key()), Ok(b"4".to_vec()));
    assert!(eve.decrypt_ecdh_message(&blob, network.ecdh_pub_key()).is_err());
}

#[test]
fn meeting_from_network() {
    let mut network = MpcNetwork::new(3, 1).unwrap();
    let meeting = network.start_decryption_meeting();
    assert_eq!(meeting.share_count(), 0);
    network.send_message(2, vec![9, 9]);
    assert_eq!(meeting.decrypt_message(), Err(MpcError::InsufficientShares));
}
