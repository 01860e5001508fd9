use society_crypto::add;
use society_crypto::channel::{
    compute_shared_secret, decrypt, encrypt, generate_ecdh_keys, ChannelError, KEY_LEN, NONCE_LEN,
};
use society_crypto::party::User;

#[test]
fn it_works() {
    let result = add(2, 2);
    assert_eq!(result, 4);
}

#[test]
fn add_large_values() {
    assert_eq!(add(u64::MAX - 5, 5), u64::MAX);
    assert_eq!(add(0, 0), 0);
}

#[test]
fn shared_secrets_agree_and_messages_round_trip() {
    let (alice_sk, alice_pk) = generate_ecdh_keys();
    let (bob_sk, bob_pk) = generate_ecdh_keys();
    let alice_secret = compute_shared_secret(&alice_sk, &bob_pk);
    let bob_secret = compute_shared_secret(&bob_sk, &alice_pk);
    assert_eq!(alice_secret.len(), KEY_LEN);
    assert_eq!(alice_secret, bob_secret);

    let blob = encrypt(b"secret-message", &alice_secret);
    let opened = decrypt(&blob, &bob_secret).unwrap();
    assert_eq!(opened, b"secret-message".to_vec());
}

#[test]
fn different_pairs_have_different_secrets() {
    let (alice_sk, _alice_pk) = generate_ecdh_keys();
    let (_bob_sk, bob_pk) = generate_ecdh_keys();
    let (_carol_sk, carol_pk) = generate_ecdh_keys();
    let with_bob = compute_shared_secret(&alice_sk, &bob_pk);
    let with_carol = compute_shared_secret(&alice_sk, &carol_pk);
    assert_ne!(with_bob, with_carol);
}

#[test]
fn blob_is_nonce_then_sealed_text() {
    let key = vec![7u8; KEY_LEN];
    let message = b"payload bytes".to_vec();
    let blob = encrypt(&message, &key);
    // 12-byte nonce, the ciphertext, and a 16-byte tag
    assert_eq!(blob.len(), NONCE_LEN + message.len() + 16);
    assert_ne!(&blob[NONCE_LEN..NONCE_LEN + message.len()], message.as_slice());
}

#[test]
fn fresh_nonce_for_every_message() {
    let key = vec![3u8; KEY_LEN];
    let first = encrypt(b"same", &key);
    let second = encrypt(b"same", &key);
    assert_ne!(first[..NONCE_LEN], second[..NONCE_LEN]);
    assert_ne!(first, second);
    assert_eq!(decrypt(&first, &key).unwrap(), b"same".to_vec());
    assert_eq!(decrypt(&second, &key).unwrap(), b"same".to_vec());
}

#[test]
fn empty_message_round_trips() {
    let key = vec![9u8; KEY_LEN];
    let blob = encrypt(b"", &key);
    assert_eq!(blob.len(), NONCE_LEN + 16);
    assert_eq!(decrypt(&blob, &key).unwrap(), Vec::<u8>::new());
}

#[test]
fn wrong_key_is_rejected() {
    let key = vec![1u8; KEY_LEN];
    let mut other = key.clone();
    other[31] ^= 1;
    let blob = encrypt(b"for one key only", &key);
    assert_eq!(decrypt(&blob, &other), Err(ChannelError::AuthenticationFailure));
}

#[test]
fn any_flipped_byte_is_rejected() {
    let key = vec![5u8; KEY_LEN];
    let blob = encrypt(b"integrity", &key);
    for i in 0..blob.len() {
        let mut tampered = blob.clone();
        tampered[i] ^= 0x80;
        assert_eq!(
            decrypt(&tampered, &key),
            Err(ChannelError::AuthenticationFailure),
            "flip at byte {}",
            i
        );
    }
}

#[test]
fn truncated_blob_is_rejected() {
    let key = vec![5u8; KEY_LEN];
    assert_eq!(decrypt(&[], &key), Err(ChannelError::AuthenticationFailure));
    assert_eq!(decrypt(&[0u8; NONCE_LEN - 1], &key), Err(ChannelError::AuthenticationFailure));
    assert_eq!(decrypt(&[0u8; NONCE_LEN], &key), Err(ChannelError::AuthenticationFailure));
    let blob = encrypt(b"cut short", &key);
    assert_eq!(
        decrypt(&blob[..blob.len() - 1], &key),
        Err(ChannelError::AuthenticationFailure)
    );
}

#[test]
fn users_exchange_messages() {
    let alice = User::new("alice");
    let bob = User::new("bob");
    assert_eq!(alice.name(), "alice");
    let (sender_sk, sender_pk) = generate_ecdh_keys();
    let key = compute_shared_secret(&sender_sk, alice.ecdh_pubkey());
    let blob = encrypt(b"4", &key);
    assert_eq!(alice.decrypt_ecdh_message(&blob, &sender_pk), Ok(b"4".to_vec()));
    assert_eq!(
        bob.decrypt_ecdh_message(&blob, &sender_pk),
        Err(ChannelError::AuthenticationFailure)
    );
}
