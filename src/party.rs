//! A requester outside the society: it holds an ECDH key pair so that the
//! society can return results to it, and to nobody else, over a channel.

use vstd::prelude::*;
use crate::channel::{
    channel_open, compute_shared_secret, decrypt, ecdh_agreement, ecdh_public_of,
    generate_ecdh_keys, ChannelError, EcdhPublicKey, EcdhSecretKey,
};

verus! {

/// A named party with its own ECDH key pair.
pub struct User {
    name: String,
    ecdh_pubkey: EcdhPublicKey,
    ecdh_skey: EcdhSecretKey,
}

impl User {
    /// This party's name.
    pub closed spec fn name_view(&self) -> Seq<char> {
        self.name@
    }

    pub fn name(&self) -> (r: &str)
        ensures
            r@ == self.name_view(),
    {
        self.name.as_str()
    }

    /// The secret half of this party's ECDH key pair.
    pub closed spec fn ecdh_secret(&self) -> Seq<u8> {
        self.ecdh_skey@
    }

    /// The public half of this party's ECDH key pair.
    pub closed spec fn ecdh_public(&self) -> EcdhPublicKey {
        self.ecdh_pubkey
    }

    /// A party named `name` with a fresh key pair.
    pub fn new(name: &str) -> (r: User)
        ensures
            r.name_view() == name@,
            ecdh_public_of(r.ecdh_secret()) == Some(r.ecdh_public()@),
    {
        let (sk, pk) = generate_ecdh_keys();
        User { name: name.to_owned(), ecdh_pubkey: pk, ecdh_skey: sk }
    }

    /// This party's public key, for senders to agree a channel key.
    pub fn ecdh_pubkey(&self) -> (r: &EcdhPublicKey)
        ensures
            r == self.ecdh_public(),
    {
        &self.ecdh_pubkey
    }

    /// Opens a message sealed for this party by the holder of `pubkey`.
    pub fn decrypt_ecdh_message(&self, msg: &[u8], pubkey: &EcdhPublicKey) -> (r: Result<
        Vec<u8>,
        ChannelError,
    >)
        ensures
            match channel_open(msg@, ecdh_agreement(self.ecdh_secret(), pubkey@)) {
                Some(p) => r matches Ok(v) && v@ == p,
                None => r == Err::<Vec<u8>, ChannelError>(ChannelError::AuthenticationFailure),
            },
    {
        let shared_secret = compute_shared_secret(&self.ecdh_skey, pubkey);
        decrypt(msg, shared_secret.as_slice())
    }
}

} // verus!
