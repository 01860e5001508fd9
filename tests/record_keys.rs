use society_crypto::record_keys::{
    form_avs_public_key, form_encrypted_fhe_key, form_position_key, get_peer_id_from_position_key,
    is_avs_public_key, is_encrypted_fhe_key, is_position_key,
};

#[test]
fn keys_are_kind_underscore_peer() {
    assert_eq!(form_position_key("12D3KooW"), "POSITION_12D3KooW");
    assert_eq!(form_avs_public_key("peer"), "AVS_PUBLIC_KEY_peer");
    assert_eq!(form_encrypted_fhe_key("peer"), "ENCRYPTED_FHE_KEY_peer");
    assert_eq!(form_position_key(""), "POSITION_");
}

#[test]
fn record_kinds_are_recognised() {
    assert!(is_position_key("POSITION_abc"));
    assert!(is_position_key("POSITION_"));
    assert!(is_position_key("xPOSITION_abc"));
    assert!(!is_position_key("POSITION"));
    assert!(!is_position_key("POSITIONabc"));
    assert!(!is_position_key(""));
    assert!(is_avs_public_key("AVS_PUBLIC_KEY_abc"));
    assert!(!is_avs_public_key("POSITION_abc"));
    assert!(is_encrypted_fhe_key("ENCRYPTED_FHE_KEY_abc"));
    assert!(!is_encrypted_fhe_key("AVS_PUBLIC_KEY_abc"));
    assert!(!is_position_key("ENCRYPTED_FHE_KEY_abc"));
}

#[test]
fn peer_id_is_second_segment() {
    assert_eq!(get_peer_id_from_position_key("POSITION_12D3KooW"), "12D3KooW");
    assert_eq!(get_peer_id_from_position_key("POSITION_"), "");
    assert_eq!(get_peer_id_from_position_key("POSITION_a_b"), "a");
    assert_eq!(get_peer_id_from_position_key("_peer"), "peer");
    let key = form_position_key("Qm42");
    assert_eq!(get_peer_id_from_position_key(&key), "Qm42");
}
