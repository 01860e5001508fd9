//! Authenticated point-to-point channel: an elliptic-curve Diffie-Hellman
//! agreement gives two parties a shared 32-byte secret, used directly as the
//! key of a ChaCha20-Poly1305 AEAD cipher.
//!
//! Wire format of a sealed message: `[12-byte nonce][AEAD ciphertext and tag]`.
//! No key-derivation step is applied to the raw agreement output.

use vstd::prelude::*;
use chacha20poly1305::aead::generic_array::GenericArray;
use chacha20poly1305::aead::{Aead, AeadCore, KeyInit};
use chacha20poly1305::ChaCha20Poly1305;
use rand_core::OsRng;

verus! {

/// Length of the nonce that prefixes every sealed message.
pub const NONCE_LEN: usize = 12;

/// Length of a channel key (a raw Diffie-Hellman agreement output).
pub const KEY_LEN: usize = 32;

/// Length of the authentication tag that follows the ciphertext.
pub const TAG_LEN: usize = 16;

/// Plaintexts of this many bytes or more would overflow the cipher's block
/// counter (`u32::MAX` blocks of 64 bytes).
pub const MAX_PLAINTEXT_LEN: u64 = 274877906880;

/// Failure of the channel layer.
#[derive(Debug, Clone, Copy, PartialEq, Eq, Structural)]
pub enum ChannelError {
    /// The blob was truncated, tampered with, or sealed under another key.
    AuthenticationFailure,
}

/// The SEC1 encoding of the public point of the secp256k1 secret scalar
/// `secret`, or `None` when `secret` does not decode to a nonzero scalar.
pub uninterp spec fn ecdh_public_of(secret: Seq<u8>) -> Option<Seq<u8>>;

/// The raw Diffie-Hellman agreement (x-coordinate of the shared point) of a
/// secret scalar and a SEC1-encoded public point.
pub uninterp spec fn ecdh_agreement(secret: Seq<u8>, public: Seq<u8>) -> Seq<u8>;

/// A party's secp256k1 secret scalar. It never leaves this value.
pub struct EcdhSecretKey {
    scalar: Vec<u8>,
}

/// A party's secp256k1 public key, as a SEC1 point encoding.
pub struct EcdhPublicKey {
    sec1: Vec<u8>,
}

impl View for EcdhSecretKey {
    type V = Seq<u8>;

    closed spec fn view(&self) -> Seq<u8> {
        self.scalar@
    }
}

impl View for EcdhPublicKey {
    type V = Seq<u8>;

    closed spec fn view(&self) -> Seq<u8> {
        self.sec1@
    }
}

impl EcdhSecretKey {
    /// The scalar is a valid secret key.
    #[verifier::type_invariant]
    spec fn decodes(&self) -> bool {
        ecdh_public_of(self.scalar@) is Some
    }
}

impl EcdhPublicKey {
    /// The encoding is the public point of some valid secret key.
    #[verifier::type_invariant]
    spec fn is_public_point(&self) -> bool {
        exists|s: Seq<u8>| ecdh_public_of(s) == Some(self.sec1@)
    }

    /// The SEC1 encoding, for handing to a transport or a key directory.
    pub fn to_bytes(&self) -> (r: Vec<u8>)
        ensures
            r@ == self@,
    {
        self.sec1.clone()
    }
}

/// Relies on k256's `SecretKey::random` (OS generator) and `SecretKey::to_bytes`:
/// a random nonzero scalar, 32 big-endian bytes, which decodes again.
#[verifier::external_body]
fn random_secret_scalar() -> (r: Vec<u8>)
    ensures
        r@.len() == KEY_LEN,
        ecdh_public_of(r@) is Some,
{
    k256::SecretKey::random(&mut OsRng).to_bytes().to_vec()
}

/// Relies on k256's `SecretKey::public_key`, after `SecretKey::from_slice`
/// and before `PublicKey::to_sec1_bytes`.
#[verifier::external_body]
fn public_point_of(secret: &Vec<u8>) -> (r: Option<Vec<u8>>)
    ensures
        match r {
            Some(p) => ecdh_public_of(secret@) == Some(p@),
            None => ecdh_public_of(secret@) is None,
        },
{
    k256::SecretKey::from_slice(secret).ok().map(|k| k.public_key().to_sec1_bytes().to_vec())
}

/// Relies on k256's `ecdh::diffie_hellman`: the raw agreement bytes are one
/// secp256k1 field element, 32 bytes (the x-coordinate of `secret * public`).
/// Both keys decode, as required. The agreement is symmetric: with
/// `public = other * G`, the holder of `other` computes the same bytes from
/// our public point, as `x(other * secret * G) == x(secret * other * G)`.
#[verifier::external_body]
fn agreement_bytes(secret: &Vec<u8>, public: &Vec<u8>) -> (r: Vec<u8>)
    requires
        ecdh_public_of(secret@) is Some,
        exists|s: Seq<u8>| ecdh_public_of(s) == Some(public@),
    ensures
        r@ == ecdh_agreement(secret@, public@),
        r@.len() == KEY_LEN,
        forall|other: Seq<u8>, mine: Seq<u8>|
            ecdh_public_of(other) == Some(public@) && ecdh_public_of(secret@) == Some(mine)
                ==> #[trigger] ecdh_agreement(other, mine) == r@,
{
    let sk = k256::SecretKey::from_slice(secret).unwrap();
    let pk = k256::PublicKey::from_sec1_bytes(public).unwrap();
    k256::ecdh::diffie_hellman(sk.to_nonzero_scalar(), pk.as_affine()).raw_secret_bytes().to_vec()
}

/// The ChaCha20-Poly1305 sealing of `plaintext` under `key` and `nonce`
/// (ciphertext followed by the 16-byte tag), with empty associated data.
pub uninterp spec fn aead_sealed(key: Seq<u8>, nonce: Seq<u8>, plaintext: Seq<u8>) -> Seq<u8>;

/// The ChaCha20-Poly1305 opening of `ciphertext` under `key` and `nonce`:
/// `None` when the tag does not verify.
pub uninterp spec fn aead_opened(key: Seq<u8>, nonce: Seq<u8>, ciphertext: Seq<u8>) -> Option<
    Seq<u8>,
>;

/// What opening a channel blob under `key` yields: the nonce prefix is split
/// off and the remainder is opened; a blob shorter than a nonce never opens.
pub open spec fn channel_open(blob: Seq<u8>, key: Seq<u8>) -> Option<Seq<u8>> {
    if blob.len() < NONCE_LEN {
        None
    } else {
        aead_opened(key, blob.take(NONCE_LEN as int), blob.skip(NONCE_LEN as int))
    }
}

/// Relies on `AeadCore::generate_nonce` of ChaCha20-Poly1305 with the OS
/// generator: a fresh random 12-byte nonce.
#[verifier::external_body]
fn fresh_nonce() -> (r: Vec<u8>)
    ensures
        r@.len() == NONCE_LEN,
{
    ChaCha20Poly1305::generate_nonce(&mut OsRng).to_vec()
}

/// Relies on `Aead::encrypt` of ChaCha20-Poly1305: it fails only when the
/// plaintext exceeds the block counter, appends a 16-byte tag, and what it seals under a key and a
/// nonce opens under the same key and nonce to the same plaintext.
#[verifier::external_body]
fn aead_seal(key: &[u8], nonce: &[u8], plaintext: &[u8]) -> (r: Option<Vec<u8>>)
    requires
        key@.len() == KEY_LEN,
        nonce@.len() == NONCE_LEN,
    ensures
        plaintext@.len() < MAX_PLAINTEXT_LEN ==> r is Some,
        r matches Some(c) ==> c@.len() == plaintext@.len() + TAG_LEN,
        r matches Some(c) ==> (c@ == aead_sealed(key@, nonce@, plaintext@) && aead_opened(
            key@,
            nonce@,
            c@,
        ) == Some(plaintext@)),
{
    let cipher = ChaCha20Poly1305::new(GenericArray::from_slice(key));
    cipher.encrypt(GenericArray::from_slice(nonce), plaintext).ok()
}

/// Relies on `Aead::decrypt` of ChaCha20-Poly1305: the plaintext, or an error
/// when the tag does not verify or the input is shorter than a tag.
#[verifier::external_body]
fn aead_open(key: &[u8], nonce: &[u8], ciphertext: &[u8]) -> (r: Option<Vec<u8>>)
    requires
        key@.len() == KEY_LEN,
        nonce@.len() == NONCE_LEN,
    ensures
        match r {
            Some(p) => aead_opened(key@, nonce@, ciphertext@) == Some(p@),
            None => aead_opened(key@, nonce@, ciphertext@) is None,
        },
        ciphertext@.len() < TAG_LEN ==> r is None,
{
    let cipher = ChaCha20Poly1305::new(GenericArray::from_slice(key));
    cipher.decrypt(GenericArray::from_slice(nonce), ciphertext).ok()
}

/// Generates a fresh secp256k1 key pair for one party of the channel; the
/// public key is the public point of the secret key.
pub fn generate_ecdh_keys() -> (r: (EcdhSecretKey, EcdhPublicKey))
    ensures
        ecdh_public_of(r.0@) == Some(r.1@),
{
    let scalar = random_secret_scalar();
    let sec1 = match public_point_of(&scalar) {
        Some(p) => p,
        None => {
            assert(false);
            Vec::new()
        },
    };
    (EcdhSecretKey { scalar }, EcdhPublicKey { sec1 })
}

/// The Diffie-Hellman agreement between our secret key and the other party's
/// public key, used directly as a channel key.
pub fn compute_shared_secret(ecdh_private_key: &EcdhSecretKey, public_key: &EcdhPublicKey) -> (r:
    Vec<u8>)
    ensures
        r@ == ecdh_agreement(ecdh_private_key@, public_key@),
        r@.len() == KEY_LEN,
        forall|other: Seq<u8>, mine: Seq<u8>|
            ecdh_public_of(other) == Some(public_key@) && ecdh_public_of(ecdh_private_key@) == Some(
                mine,
            ) ==> #[trigger] ecdh_agreement(other, mine) == r@,
{
    proof {
        use_type_invariant(ecdh_private_key);
        use_type_invariant(public_key);
    }
    agreement_bytes(&ecdh_private_key.scalar, &public_key.sec1)
}

/// Seals `cleartext` under `shared_secret` with a fresh random nonce and
/// returns `nonce || sealed`. The result opens under the same key to exactly
/// `cleartext`.
pub fn encrypt(cleartext: &[u8], shared_secret: &[u8]) -> (r: Vec<u8>)
    requires
        shared_secret@.len() == KEY_LEN,
        cleartext@.len() < MAX_PLAINTEXT_LEN,
    ensures
        r@.len() == NONCE_LEN + cleartext@.len() + TAG_LEN,
        r@.skip(NONCE_LEN as int) == aead_sealed(
            shared_secret@,
            r@.take(NONCE_LEN as int),
            cleartext@,
        ),
        channel_open(r@, shared_secret@) == Some(cleartext@),
{
    let nonce = fresh_nonce();
    let sealed = match aead_seal(shared_secret, nonce.as_slice(), cleartext) {
        Some(c) => c,
        None => {
            assert(false);
            Vec::new()
        },
    };
    let mut obsf: Vec<u8> = Vec::new();
    obsf.extend_from_slice(nonce.as_slice());
    obsf.extend_from_slice(sealed.as_slice());
    assert(obsf@.take(NONCE_LEN as int) =~= nonce@);
    assert(obsf@.skip(NONCE_LEN as int) =~= sealed@);
    obsf
}

/// Splits the nonce prefix off `obsf` and opens the remainder under
/// `shared_secret`. Fails with `AuthenticationFailure`, and returns no
/// plaintext at all, when the blob is shorter than a nonce or its tag does
/// not verify.
pub fn decrypt(obsf: &[u8], shared_secret: &[u8]) -> (r: Result<Vec<u8>, ChannelError>)
    requires
        shared_secret@.len() == KEY_LEN,
    ensures
        match channel_open(obsf@, shared_secret@) {
            Some(p) => r matches Ok(v) && v@ == p,
            None => r == Err::<Vec<u8>, ChannelError>(ChannelError::AuthenticationFailure),
        },
        obsf@.len() < NONCE_LEN + TAG_LEN ==> r == Err::<Vec<u8>, ChannelError>(
            ChannelError::AuthenticationFailure,
        ),
{
    if obsf.len() < NONCE_LEN {
        return Err(ChannelError::AuthenticationFailure);
    }
    let (nonce, ciphertext) = obsf.split_at(NONCE_LEN);
    assert(nonce@ =~= obsf@.take(NONCE_LEN as int));
    assert(ciphertext@ =~= obsf@.skip(NONCE_LEN as int));
    match aead_open(shared_secret, nonce, ciphertext) {
        Some(plaintext) => Ok(plaintext),
        None => Err(ChannelError::AuthenticationFailure),
    }
}

} // verus!
