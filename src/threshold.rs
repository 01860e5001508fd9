//! The threshold public-key scheme (BLS12-381 threshold encryption), seen
//! from this library as a capability on byte strings: key generation and
//! dealing, encryption under the master key, computing and verifying a
//! decryption share, and combining shares.
//!
//! Every value handed between the library and the scheme is a byte string:
//! secret key shares are 32 big-endian bytes, public keys, public key shares
//! and decryption shares are 48-byte compressed points, a public key set is
//! its commitment's serialisation, and a ciphertext is its bincode encoding.

use vstd::prelude::*;
use std::collections::BTreeMap;
use blsttc::{
    Ciphertext, DecryptionShare, PublicKey, PublicKeySet, PublicKeyShare, SecretKeySet, SecretKeyShare,
};

verus! {

/// Length of a serialised secret key share.
pub const SECRET_SHARE_LEN: usize = 32;

/// Length of a serialised public key, public key share or decryption share.
pub const POINT_LEN: usize = 48;

/// The master public key of the public key set `key_set`; `None` when it
/// does not decode.
pub uninterp spec fn key_set_master(key_set: Seq<u8>) -> Option<Seq<u8>>;

/// The public key share `i` of the public key set `key_set`; `None` when it
/// does not decode.
pub uninterp spec fn key_set_share(key_set: Seq<u8>, i: usize) -> Option<Seq<u8>>;

/// The threshold of the public key set `key_set`: any `threshold + 1` shares
/// decrypt.
pub uninterp spec fn key_set_threshold(key_set: Seq<u8>) -> nat;

/// Any more than `threshold` decryption shares of `ciphertext`, each verified
/// against the matching public key share of a key set whose master key is
/// `public_key`, combine to `message`.
pub open spec fn quorum_opens(public_key: Seq<u8>, ciphertext: Seq<u8>, message: Seq<u8>) -> bool {
    forall|key_set: Seq<u8>, shares: Map<usize, Seq<u8>>|
        {
            &&& key_set.len() >= POINT_LEN
            &&& key_set_master(key_set) == Some(public_key)
            &&& shares.dom().finite()
            &&& shares.len() > key_set_threshold(key_set)
            &&& forall|i: usize| #[trigger]
                shares.contains_key(i) ==> (key_set_share(key_set, i) matches Some(p)
                    && share_verifies(p, shares[i], ciphertext))
        } ==> #[trigger] combined_plaintext(key_set, shares, ciphertext) == Some(message)
}

/// Whether `bytes` is a 48-byte compressed BLS12-381 G1 point that decodes
/// as a public key.
pub uninterp spec fn point_decodes(bytes: Seq<u8>) -> bool;

/// The public key share (48 bytes) of the secret key share `secret_share`;
/// `None` when `secret_share` does not decode.
pub uninterp spec fn public_share_of(secret_share: Seq<u8>) -> Option<Seq<u8>>;

/// Every well-formed secret key share can compute a decryption share of
/// `ciphertext`: it decodes and passes its own validity check.
pub open spec fn shares_computable(ciphertext: Seq<u8>) -> bool {
    forall|s: Seq<u8>| #[trigger]
        public_share_of(s) is Some ==> decryption_share_of(s, ciphertext) is Some
}

/// The decryption share that the secret key share `secret_share` computes for
/// `ciphertext`; `None` when either is malformed or the ciphertext fails its
/// validity check.
pub uninterp spec fn decryption_share_of(secret_share: Seq<u8>, ciphertext: Seq<u8>) -> Option<
    Seq<u8>,
>;

/// Whether `share` is a valid decryption share of `ciphertext` for the
/// holder of the public key share `public_share`.
pub uninterp spec fn share_verifies(public_share: Seq<u8>, share: Seq<u8>, ciphertext: Seq<u8>) -> bool;

/// The plaintext that the public key set `key_set` reconstructs from the
/// decryption shares `shares` (keyed by actor index) of `ciphertext`; `None`
/// when an input is malformed or there are too few shares.
pub uninterp spec fn combined_plaintext(
    key_set: Seq<u8>,
    shares: Map<usize, Seq<u8>>,
    ciphertext: Seq<u8>,
) -> Option<Seq<u8>>;

/// A dealt key set and the secret shares dealt from it, in order.
pub(crate) struct DealtKeys {
    pub(crate) key_set: Vec<u8>,
    pub(crate) secret_shares: Vec<Vec<u8>>,
}

/// Relies on blsttc's `SecretKeySet::random` (thread generator), with
/// `SecretKeySet::public_keys` and `SecretKeySet::secret_key_share`: a random
/// polynomial `f` of degree `threshold` (`threshold + 1` coefficients, none
/// trimmed). The key set is its commitment, `threshold + 1` points of 48
/// bytes that decode again, with degree `threshold` and master key `g * f(0)`.
/// Secret share `i` is `f(i + 1)`, 32 bytes that decode again, and its public
/// share `g * f(i + 1)` is the key set's share `i`, its commitment evaluated
/// at `i + 1`.
#[verifier::external_body]
pub(crate) fn deal_key_set(n: usize, threshold: usize) -> (r: DealtKeys)
    requires
        0 < threshold < n,
    ensures
        r.key_set@.len() >= POINT_LEN,
        key_set_threshold(r.key_set@) == threshold,
        key_set_master(r.key_set@) is Some,
        r.secret_shares@.len() == n,
        forall|i: int|
            0 <= i < n ==> (#[trigger] r.secret_shares@[i])@.len() == SECRET_SHARE_LEN
                && public_share_of(r.secret_shares@[i]@) is Some && key_set_share(
                r.key_set@,
                i as usize,
            ) == public_share_of(r.secret_shares@[i]@),
{
    let secret_set = SecretKeySet::random(threshold, &mut rand::thread_rng());
    let key_set = secret_set.public_keys().to_bytes();
    let secret_shares = (0..n).map(|i| secret_set.secret_key_share(i).to_bytes().to_vec()).collect();
    DealtKeys { key_set, secret_shares }
}

/// Relies on blsttc's `PublicKeySet::public_key`, after
/// `PublicKeySet::from_bytes`: the master key, a compressed point of 48
/// bytes, which `PublicKey::from_bytes` decodes again. A key set of no point
/// at all would make `public_key` index an empty commitment.
#[verifier::external_body]
pub(crate) fn master_key_of(key_set: &Vec<u8>) -> (r: Option<Vec<u8>>)
    requires
        key_set@.len() >= POINT_LEN,
    ensures
        match r {
            Some(p) => key_set_master(key_set@) == Some(p@),
            None => key_set_master(key_set@) is None,
        },
        r matches Some(p) ==> p@.len() == POINT_LEN && point_decodes(p@),
{
    let set = PublicKeySet::from_bytes(key_set.clone()).ok()?;
    Some(set.public_key().to_bytes().to_vec())
}

/// Relies on blsttc's `SecretKeyShare::public_key_share`. A decryption share
/// that the secret share computes (`u * sk` for a ciphertext that passed its
/// check `e(g, w) == e(u, H)`) always verifies against this public share
/// (`e(u * sk, H) == e(g * sk, w)`).
#[verifier::external_body]
pub(crate) fn public_share_from_secret(secret_share: &Vec<u8>) -> (r: Option<Vec<u8>>)
    ensures
        match r {
            Some(p) => public_share_of(secret_share@) == Some(p@),
            None => public_share_of(secret_share@) is None,
        },
        r matches Some(p) ==> p@.len() == POINT_LEN,
        r matches Some(p) ==> forall|ct: Seq<u8>|
            #[trigger] decryption_share_of(secret_share@, ct) matches Some(d) ==> share_verifies(
                p@,
                d,
                ct,
            ),
{
    let bytes: [u8; 32] = secret_share.as_slice().try_into().ok()?;
    let share = SecretKeyShare::from_bytes(bytes).ok()?;
    Some(share.public_key_share().to_bytes().to_vec())
}

/// Relies on blsttc's `PublicKey::from_bytes` and `PublicKey::encrypt` (OS
/// generator); `None` exactly when the key does not decode. An encrypted
/// ciphertext passes its validity check (`e(g, r * H) == e(r * g, H)`) and
/// its bincode encoding decodes again, so every well-formed secret share
/// computes a decryption share of it. Threshold decryption recovers the
/// message: a share that verifies against public key share `i` is
/// `u * f(i + 1)`, and interpolating `threshold + 1` of them gives
/// `u * f(0) = r * public_key`, whose hash unmasks the message (the
/// `SecretKeySet` documentation: any `threshold + 1` shares decrypt).
#[verifier::external_body]
pub(crate) fn encrypt_under(public_key: &[u8], message: &[u8]) -> (r: Option<Vec<u8>>)
    ensures
        r is Some <==> point_decodes(public_key@),
        r matches Some(ct) ==> shares_computable(ct@),
        r matches Some(ct) ==> quorum_opens(public_key@, ct@, message@),
{
    let bytes: [u8; 48] = public_key.try_into().ok()?;
    let key = PublicKey::from_bytes(bytes).ok()?;
    bincode::serialize(&key.encrypt(message)).ok()
}

/// Relies on blsttc's `SecretKeyShare::decrypt_share`.
#[verifier::external_body]
pub(crate) fn decrypt_share(secret_share: &Vec<u8>, ciphertext: &Vec<u8>) -> (r: Option<Vec<u8>>)
    ensures
        match r {
            Some(s) => decryption_share_of(secret_share@, ciphertext@) == Some(s@),
            None => decryption_share_of(secret_share@, ciphertext@) is None,
        },
{
    let bytes: [u8; 32] = secret_share.as_slice().try_into().ok()?;
    let share = SecretKeyShare::from_bytes(bytes).ok()?;
    let ct: Ciphertext = bincode::deserialize(ciphertext).ok()?;
    share.decrypt_share(&ct).map(|d| d.to_bytes().to_vec())
}

/// Relies on blsttc's `PublicKeyShare::verify_decryption_share`; `false` when
/// an input does not decode.
#[verifier::external_body]
pub(crate) fn verify_share(public_share: &Vec<u8>, share: &Vec<u8>, ciphertext: &Vec<u8>) -> (r:
    bool)
    ensures
        r == share_verifies(public_share@, share@, ciphertext@),
{
    let decoded = (
        public_share.as_slice().try_into().ok().and_then(|b| PublicKeyShare::from_bytes(b).ok()),
        share.as_slice().try_into().ok().and_then(|b| DecryptionShare::from_bytes(b).ok()),
        bincode::deserialize::<Ciphertext>(ciphertext).ok(),
    );
    match decoded {
        (Some(pk), Some(d), Some(ct)) => pk.verify_decryption_share(&d, &ct),
        _ => false,
    }
}

/// Relies on blsttc's `PublicKeySet::decrypt`, which interpolates the first
/// `threshold + 1` shares in key order. A key set that decodes to no point at
/// all has no degree, and `decrypt` panics on it: at least one point's worth
/// of bytes is required. Interpolation fails only on too few shares or on a
/// repeated index (`i + 1` as a field element, distinct for distinct `usize`
/// keys), so a decodable key set, a decodable ciphertext and more than
/// `threshold` decodable shares always combine; a share that verifies
/// against some public share decodes, as does its ciphertext.
#[verifier::external_body]
pub(crate) fn combine_shares(
    key_set: &Vec<u8>,
    shares: &BTreeMap<usize, Vec<u8>>,
    ciphertext: &Vec<u8>,
) -> (r: Option<Vec<u8>>)
    requires
        key_set@.len() >= POINT_LEN,
    ensures
        match r {
            Some(p) => combined_plaintext(key_set@, shares@.map_values(|v: Vec<u8>| v@), ciphertext@)
                == Some(p@),
            None => combined_plaintext(
                key_set@,
                shares@.map_values(|v: Vec<u8>| v@),
                ciphertext@,
            ) is None,
        },
        ({
            &&& key_set_master(key_set@) is Some
            &&& shares@.len() > key_set_threshold(key_set@)
            &&& forall|i: usize| #[trigger]
                shares@.contains_key(i) ==> exists|p: Seq<u8>|
                    share_verifies(p, shares@[i]@, ciphertext@)
        }) ==> r is Some,
{
    let set = PublicKeySet::from_bytes(key_set.clone()).ok()?;
    let ct: Ciphertext = bincode::deserialize(ciphertext).ok()?;
    let mut decoded: BTreeMap<usize, DecryptionShare> = BTreeMap::new();
    for (i, b) in shares.iter() {
        let bytes: [u8; 48] = b.as_slice().try_into().ok()?;
        decoded.insert(*i, DecryptionShare::from_bytes(bytes).ok()?);
    }
    set.decrypt(&decoded, &ct).ok()
}

} // verus!
