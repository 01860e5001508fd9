//! The society: a trusted dealer splits a master secret into `n` shares of
//! which any `t + 1` can decrypt; actors hold one share each; a decryption
//! meeting collects verified decryption shares bound to one ciphertext and
//! combines them once a quorum is reached.

use vstd::prelude::*;
use std::collections::BTreeMap;
use crate::channel::{
    channel_open, ecdh_public_of, compute_shared_secret, ecdh_agreement, encrypt, generate_ecdh_keys,
    aead_sealed, EcdhPublicKey, EcdhSecretKey, MAX_PLAINTEXT_LEN, NONCE_LEN, TAG_LEN,
};
use crate::threshold::{
    combine_shares, combined_plaintext, decrypt_share, decryption_share_of, encrypt_under,
    deal_key_set, key_set_master, key_set_share, key_set_threshold, master_key_of, quorum_opens,
    public_share_from_secret, public_share_of, share_verifies, shares_computable, verify_share,
    point_decodes, POINT_LEN,
};

verus! {

broadcast use vstd::std_specs::btree::group_btree_axioms;

/// Failures of the threshold layer.
#[derive(Debug, Clone, Copy, PartialEq, Eq, Structural)]
pub enum MpcError {
    /// The threshold is zero or not below the number of parties.
    InvalidThreshold,
    /// A published public key does not decode.
    InvalidPublicKey,
    /// The secret share or the ciphertext is malformed.
    ShareComputationError,
    /// The share failed verification, or was computed for a ciphertext other
    /// than the one the meeting is bound to.
    ShareRejected,
    /// Fewer than `t + 1` valid shares were collected.
    InsufficientShares,
    /// Verified shares did not combine.
    CombinationError,
}

/// The public half of a society's keys, fixed at setup.
pub struct MasterKeyMaterial {
    /// The master public key that clients encrypt under.
    pub public_key: Vec<u8>,
    /// The public key set: the master key and every public key share.
    pub public_key_set: Vec<u8>,
    /// Up to this many holders may be corrupt or absent.
    pub threshold: usize,
    /// The number of shares.
    pub party_count: usize,
}

impl MasterKeyMaterial {
    /// `0 < t < n`.
    pub open spec fn wf(&self) -> bool {
        0 < self.threshold < self.party_count
    }
}

/// One actor's share of the society key, as issued by the dealer.
pub struct Share {
    pub actor_id: usize,
    pub public_share: Vec<u8>,
    pub secret_share: Vec<u8>,
}

/// An actor's contribution to a decryption.
pub struct DecryptionShare {
    pub actor_id: usize,
    pub share: Vec<u8>,
}

/// A public key share and a secret key share that belong together: the
/// public share is the one the secret share derives, and every decryption
/// share the secret share computes verifies against it.
pub open spec fn shares_match(public_share: Seq<u8>, secret_share: Seq<u8>) -> bool {
    &&& public_share_of(secret_share) == Some(public_share)
    &&& forall|ct: Seq<u8>| #[trigger]
        decryption_share_of(secret_share, ct) matches Some(d) ==> share_verifies(public_share, d, ct)
}

/// The public key material is consistent: `0 < t < n`, and the key set
/// holds at least one point, has threshold `t` and master key `public_key`,
/// which decodes.
pub open spec fn keys_fit(keys: MasterKeyMaterial) -> bool {
    &&& keys.wf()
    &&& keys.public_key_set@.len() >= POINT_LEN
    &&& key_set_master(keys.public_key_set@) == Some(keys.public_key@)
    &&& key_set_threshold(keys.public_key_set@) == keys.threshold
    &&& point_decodes(keys.public_key@)
}

/// Share `id` of the key set, with a secret share that belongs to it.
pub open spec fn share_fits(keys: MasterKeyMaterial, id: usize, public_share: Seq<u8>, secret_share: Seq<u8>) -> bool {
    &&& key_set_share(keys.public_key_set@, id) == Some(public_share)
    &&& shares_match(public_share, secret_share)
}

/// Generates a society key pair and splits its secret into `n` shares that
/// tolerate up to `t` corrupt or absent holders: share `i` is the key set's
/// share `i`, so any `t + 1` of them decrypt. Succeeds exactly when
/// `0 < t < n`, and fails with `InvalidThreshold` otherwise.
pub fn setup(n: usize, t: usize) -> (r: Result<(MasterKeyMaterial, Vec<Share>), MpcError>)
    ensures
        r is Ok <==> 0 < t < n,
        r is Err ==> r == Err::<(MasterKeyMaterial, Vec<Share>), MpcError>(
            MpcError::InvalidThreshold,
        ),
        r matches Ok((keys, shares)) ==> {
            &&& keys_fit(keys)
            &&& keys.threshold == t
            &&& keys.party_count == n
            &&& shares@.len() == n
            &&& forall|i: int| 0 <= i < n ==> #[trigger] shares@[i].actor_id == i
            &&& forall|i: int|
                0 <= i < n ==> share_fits(
                    keys,
                    i as usize,
                    #[trigger] shares@[i].public_share@,
                    shares@[i].secret_share@,
                )
        },
{
    if t == 0 || t >= n {
        return Err(MpcError::InvalidThreshold);
    }
    let dealt = deal_key_set(n, t);
    let key_set = dealt.key_set;
    let secret_shares = dealt.secret_shares;
    let public_key = match master_key_of(&key_set) {
        Some(p) => p,
        None => {
            assert(false);
            Vec::new()
        },
    };
    let keys = MasterKeyMaterial { public_key, public_key_set: key_set, threshold: t, party_count: n };
    let mut shares: Vec<Share> = Vec::new();
    let mut id: usize = 0;
    while id < n
        invariant
            keys_fit(keys),
            keys.threshold == t,
            keys.party_count == n,
            secret_shares@.len() == n,
            forall|i: int|
                0 <= i < n ==> public_share_of((#[trigger] secret_shares@[i])@) is Some
                    && key_set_share(keys.public_key_set@, i as usize) == public_share_of(
                    secret_shares@[i]@,
                ),
            id <= n,
            shares@.len() == id,
            forall|i: int| 0 <= i < id ==> #[trigger] shares@[i].actor_id == i,
            forall|i: int|
                0 <= i < id ==> share_fits(
                    keys,
                    i as usize,
                    #[trigger] shares@[i].public_share@,
                    shares@[i].secret_share@,
                ),
        decreases n - id,
    {
        let secret_share = secret_shares[id].clone();
        assert(secret_share@ =~= secret_shares@[id as int]@);
        let public_share = match public_share_from_secret(&secret_share) {
            Some(p) => p,
            None => {
                assert(false);
                Vec::new()
            },
        };
        let share = Share { actor_id: id, public_share, secret_share };
        shares.push(share);
        id = id + 1;
    }
    Ok((keys, shares))
}

/// `ct` is an encryption of `message` under the master key `public_key`:
/// every well-formed secret share computes a decryption share of it, and any
/// quorum of verified shares of a key set with that master key combines to
/// `message`.
pub open spec fn encrypts(public_key: Seq<u8>, ct: Seq<u8>, message: Seq<u8>) -> bool {
    shares_computable(ct) && quorum_opens(public_key, ct, message)
}

/// Encrypts `message` under a society's published master key. Fails with
/// `InvalidPublicKey` exactly when the key does not decode. Every
/// well-formed secret key share can compute a decryption share of the
/// ciphertext returned.
pub fn encrypt_to_society(public_key: &[u8], message: &[u8]) -> (r: Result<Vec<u8>, MpcError>)
    ensures
        r is Ok <==> point_decodes(public_key@),
        r matches Ok(ct) ==> encrypts(public_key@, ct@, message@),
        r is Err ==> r == Err::<Vec<u8>, MpcError>(MpcError::InvalidPublicKey),
{
    match encrypt_under(public_key, message) {
        Some(ciphertext) => Ok(ciphertext),
        None => Err(MpcError::InvalidPublicKey),
    }
}

/// What is known of an actor.
pub struct ActorView {
    pub id: usize,
    pub public_share: Seq<u8>,
    pub secret_share: Seq<u8>,
    pub inbox: Option<Seq<u8>>,
}

/// A share holder with a single-slot inbox for a ciphertext awaiting
/// decryption.
pub struct Actor {
    id: usize,
    pk_share: Vec<u8>,
    sk_share: Vec<u8>,
    msg_inbox: Option<Vec<u8>>,
}

impl View for Actor {
    type V = ActorView;

    closed spec fn view(&self) -> ActorView {
        ActorView {
            id: self.id,
            public_share: self.pk_share@,
            secret_share: self.sk_share@,
            inbox: match self.msg_inbox {
                Some(c) => Some(c@),
                None => None,
            },
        }
    }
}

/// The same actor with its inbox set to `inbox`.
pub open spec fn with_inbox(a: ActorView, inbox: Option<Seq<u8>>) -> ActorView {
    ActorView { inbox, ..a }
}

impl Actor {
    /// An actor holding the given shares, with an empty inbox.
    pub fn new(id: usize, pk_share: Vec<u8>, sk_share: Vec<u8>) -> (r: Actor)
        ensures
            r@ == (ActorView {
                id,
                public_share: pk_share@,
                secret_share: sk_share@,
                inbox: None,
            }),
    {
        Actor { id, pk_share, sk_share, msg_inbox: None }
    }

    /// An actor holding a share issued by the dealer.
    pub fn from_share(share: Share) -> (r: Actor)
        ensures
            r@ == (ActorView {
                id: share.actor_id,
                public_share: share.public_share@,
                secret_share: share.secret_share@,
                inbox: None,
            }),
    {
        Actor::new(share.actor_id, share.public_share, share.secret_share)
    }

    pub fn id(&self) -> (r: usize)
        ensures
            r == self@.id,
    {
        self.id
    }

    pub fn public_share(&self) -> (r: &Vec<u8>)
        ensures
            r@ == self@.public_share,
    {
        &self.pk_share
    }

    /// Whether a ciphertext awaits decryption.
    pub fn has_pending(&self) -> (r: bool)
        ensures
            r == self@.inbox is Some,
    {
        self.msg_inbox.is_some()
    }

    /// Delivers a ciphertext, replacing any pending one.
    pub fn receive(&mut self, ciphertext: Vec<u8>)
        ensures
            final(self)@ == with_inbox(old(self)@, Some(ciphertext@)),
    {
        self.msg_inbox = Some(ciphertext);
    }

    /// This actor's decryption share of `ciphertext`; fails with
    /// `ShareComputationError` when the secret share or the ciphertext is
    /// malformed.
    pub fn compute_share(&self, ciphertext: &Vec<u8>) -> (r: Result<DecryptionShare, MpcError>)
        ensures
            match decryption_share_of(self@.secret_share, ciphertext@) {
                Some(s) => r matches Ok(d) && d.actor_id == self@.id && d.share@ == s,
                None => r matches Err(e) && e == MpcError::ShareComputationError,
            },
    {
        match decrypt_share(&self.sk_share, ciphertext) {
            Some(share) => Ok(DecryptionShare { actor_id: self.id, share }),
            None => Err(MpcError::ShareComputationError),
        }
    }
}

/// What is known of a decryption meeting.
pub struct MeetingView {
    pub key_set: Seq<u8>,
    pub threshold: nat,
    pub bound: Option<Seq<u8>>,
    pub shares: Map<usize, Seq<u8>>,
}

/// The share that an actor contributes to a meeting bound to `bound`: none
/// when its pending ciphertext differs from the bound one, when no share can
/// be computed, or when the computed share fails verification against the
/// actor's public share.
pub open spec fn admitted_share(bound: Option<Seq<u8>>, actor: ActorView) -> Option<Seq<u8>> {
    match actor.inbox {
        None => None,
        Some(ct) => if bound matches Some(b) && b != ct {
            None
        } else {
            match decryption_share_of(actor.secret_share, ct) {
                Some(s) => if share_verifies(actor.public_share, s, ct) {
                    Some(s)
                } else {
                    None
                },
                None => None,
            }
        },
    }
}

/// What `accept_decryption_share` reports for an actor with a pending
/// ciphertext.
pub open spec fn accept_result(bound: Option<Seq<u8>>, actor: ActorView) -> Result<(), MpcError> {
    let ct = actor.inbox.unwrap();
    if bound matches Some(b) && b != ct {
        Err(MpcError::ShareRejected)
    } else {
        match decryption_share_of(actor.secret_share, ct) {
            Some(s) => if share_verifies(actor.public_share, s, ct) {
                Ok(())
            } else {
                Err(MpcError::ShareRejected)
            },
            None => Err(MpcError::ShareComputationError),
        }
    }
}

/// The meeting after an actor with a pending ciphertext attends it: the
/// first ciphertext binds the meeting, and an admitted share replaces any
/// earlier share of the same actor.
pub open spec fn after_accept(m: MeetingView, actor: ActorView) -> MeetingView {
    MeetingView {
        bound: if m.bound is None {
            actor.inbox
        } else {
            m.bound
        },
        shares: match admitted_share(m.bound, actor) {
            Some(s) => m.shares.insert(actor.id, s),
            None => m.shares,
        },
        ..m
    }
}

/// The key set decodes, holds at least one point and has the given
/// threshold: verified shares of it always combine.
pub open spec fn key_set_consistent(key_set: Seq<u8>, threshold: nat) -> bool {
    &&& key_set.len() >= POINT_LEN
    &&& key_set_master(key_set) is Some
    &&& key_set_threshold(key_set) == threshold
}

/// What `decrypt_message` returns: `InsufficientShares` below a quorum of
/// `t + 1` shares, otherwise the combination of the collected shares
/// (`CombinationError` when the key set is too short to hold a point).
pub open spec fn decrypt_outcome(m: MeetingView) -> Result<Seq<u8>, MpcError> {
    if m.shares.len() < m.threshold + 1 {
        Err(MpcError::InsufficientShares)
    } else if m.key_set.len() < POINT_LEN {
        Err(MpcError::CombinationError)
    } else {
        match combined_plaintext(m.key_set, m.shares, m.bound.unwrap()) {
            Some(p) => Ok(p),
            None => Err(MpcError::CombinationError),
        }
    }
}

/// Whether two byte strings are equal.
fn bytes_equal(a: &Vec<u8>, b: &Vec<u8>) -> (r: bool)
    ensures
        r == (a@ == b@),
{
    if a.len() != b.len() {
        return false;
    }
    let mut i: usize = 0;
    while i < a.len()
        invariant
            a@.len() == b@.len(),
            i <= a@.len(),
            forall|j: int| 0 <= j < i ==> a@[j] == b@[j],
        decreases a@.len() - i,
    {
        if a[i] != b[i] {
            return false;
        }
        i = i + 1;
    }
    assert(a@ =~= b@);
    true
}

/// A fresh meeting for the given key set and threshold.
pub open spec fn fresh_meeting(key_set: Seq<u8>, threshold: nat) -> MeetingView {
    MeetingView { key_set, threshold, bound: None, shares: Map::empty() }
}

/// The shares map is finite, a meeting holds shares only once it is bound,
/// and each collected share verified, for the bound ciphertext, against the
/// public share recorded for its actor.
pub open spec fn meeting_wf(m: MeetingView, verified_with: Map<usize, Seq<u8>>) -> bool {
    &&& m.shares.dom() == verified_with.dom()
    &&& m.shares.dom().finite()
    &&& (m.bound is None ==> m.shares.is_empty())
    &&& forall|id: usize| #[trigger]
        m.shares.contains_key(id) ==> share_verifies(
            verified_with[id],
            m.shares[id],
            m.bound.unwrap(),
        )
}

/// A one-request aggregator of verified decryption shares.
pub struct DecryptionMeeting {
    pk_set: Vec<u8>,
    threshold: usize,
    ciphertext: Option<Vec<u8>>,
    dec_shares: BTreeMap<usize, Vec<u8>>,
    /// The public share that each collected share was verified against.
    verified_with: Ghost<Map<usize, Seq<u8>>>,
}

impl View for DecryptionMeeting {
    type V = MeetingView;

    closed spec fn view(&self) -> MeetingView {
        MeetingView {
            key_set: self.pk_set@,
            threshold: self.threshold as nat,
            bound: match self.ciphertext {
                Some(c) => Some(c@),
                None => None,
            },
            shares: self.dec_shares@.map_values(|v: Vec<u8>| v@),
        }
    }
}

impl DecryptionMeeting {
    /// The public share that each collected share was verified against.
    pub closed spec fn verified_with(&self) -> Map<usize, Seq<u8>> {
        self.verified_with@
    }

    /// Every collected share was verified against its actor's public share
    /// and the bound ciphertext, so the share count is a trustworthy quorum.
    pub open spec fn wf(&self) -> bool {
        meeting_wf(self@, self.verified_with())
    }

    /// A fresh meeting of the society with the given keys.
    pub fn new(keys: &MasterKeyMaterial) -> (r: DecryptionMeeting)
        ensures
            r.wf(),
            r@ == fresh_meeting(keys.public_key_set@, keys.threshold as nat),
            r.verified_with() == Map::<usize, Seq<u8>>::empty(),
            keys_fit(*keys) ==> key_set_consistent(r@.key_set, r@.threshold),
    {
        let r = DecryptionMeeting {
            pk_set: keys.public_key_set.clone(),
            threshold: keys.threshold,
            ciphertext: None,
            dec_shares: BTreeMap::new(),
            verified_with: Ghost(Map::empty()),
        };
        assert(r@.shares =~= Map::empty());
        r
    }

    /// The number of shares collected so far.
    pub fn share_count(&self) -> (r: usize)
        requires
            self.wf(),
        ensures
            r == self@.shares.len(),
    {
        proof {
            assert(self@.shares.dom() =~= self.dec_shares@.dom());
        }
        self.dec_shares.len()
    }

    /// Takes the actor's pending ciphertext (clearing its inbox), binds the
    /// meeting to it if it is the first, and admits the actor's share if the
    /// ciphertext matches the bound one and the share verifies.
    pub fn accept_decryption_share(&mut self, actor: &mut Actor) -> (r: Result<(), MpcError>)
        requires
            old(self).wf(),
            old(actor)@.inbox is Some,
        ensures
            final(self).wf(),
            final(self)@ == after_accept(old(self)@, old(actor)@),
            final(self).verified_with() == match admitted_share(old(self)@.bound, old(actor)@) {
                Some(_) => old(self).verified_with().insert(old(actor)@.id, old(actor)@.public_share),
                None => old(self).verified_with(),
            },
            r == accept_result(old(self)@.bound, old(actor)@),
            final(actor)@ == with_inbox(old(actor)@, None),
    {
        let ghost m0 = self@;
        let ghost a0 = actor@;
        let ciphertext = match actor.msg_inbox.take() {
            Some(c) => c,
            None => {
                assert(false);
                Vec::new()
            },
        };
        assert(actor@ == with_inbox(a0, None));
        let same = match &self.ciphertext {
            Some(bound) => bytes_equal(bound, &ciphertext),
            None => true,
        };
        if !same {
            return Err(MpcError::ShareRejected);
        }
        if self.ciphertext.is_none() {
            self.ciphertext = Some(ciphertext.clone());
        }
        match decrypt_share(&actor.sk_share, &ciphertext) {
            Some(share) => {
                if verify_share(&actor.pk_share, &share, &ciphertext) {
                    self.dec_shares.insert(actor.id, share);
                    proof {
                        self.verified_with@ = self.verified_with@.insert(actor.id, actor.pk_share@);
                        assert(self@.shares =~= m0.shares.insert(a0.id, share@));
                    }
                    Ok(())
                } else {
                    Err(MpcError::ShareRejected)
                }
            },
            None => Err(MpcError::ShareComputationError),
        }
    }

    /// Combines the collected shares: `InsufficientShares` below a quorum of
    /// `t + 1`, otherwise the combined plaintext; verified shares of a
    /// consistent key set never give `CombinationError`.
    pub fn decrypt_message(&self) -> (r: Result<Vec<u8>, MpcError>)
        requires
            self.wf(),
        ensures
            match decrypt_outcome(self@) {
                Ok(p) => r matches Ok(v) && v@ == p,
                Err(e) => r == Err::<Vec<u8>, MpcError>(e),
            },
            key_set_consistent(self@.key_set, self@.threshold) ==> r != Err::<Vec<u8>, MpcError>(
                MpcError::CombinationError,
            ),
    {
        let count = self.share_count();
        if count <= self.threshold {
            return Err(MpcError::InsufficientShares);
        }
        proof {
            if self.ciphertext is None {
                assert(self@.shares.dom() =~= Set::empty());
            }
        }
        let ciphertext = match &self.ciphertext {
            Some(c) => c,
            None => {
                assert(false);
                return Err(MpcError::InsufficientShares);
            },
        };
        if self.pk_set.len() < POINT_LEN {
            return Err(MpcError::CombinationError);
        }
        proof {
            assert(self@.shares.dom() =~= self.dec_shares@.dom());
            assert(self.dec_shares@.len() == self@.shares.len());
            assert forall|i: usize| #[trigger] self.dec_shares@.contains_key(i) implies exists|
                p: Seq<u8>,
            | share_verifies(p, self.dec_shares@[i]@, ciphertext@) by {
                assert(self@.shares.contains_key(i));
                assert(share_verifies(self.verified_with@[i], self.dec_shares@[i]@, ciphertext@));
            }
        }
        match combine_shares(&self.pk_set, &self.dec_shares, ciphertext) {
            Some(plaintext) => Ok(plaintext),
            None => Err(MpcError::CombinationError),
        }
    }
}

/// A meeting after the given actors, each with a pending ciphertext, have
/// attended it in order.
pub open spec fn fed(m: MeetingView, actors: Seq<ActorView>) -> MeetingView
    decreases actors.len(),
{
    if actors.len() == 0 {
        m
    } else {
        after_accept(fed(m, actors.drop_last()), actors.last())
    }
}

/// Only actors that attended hold a share in the meeting.
proof fn lemma_fed_shares_from_attendees(m: MeetingView, actors: Seq<ActorView>, ids: Set<usize>)
    requires
        m.shares.dom().subset_of(ids),
        forall|i: int| 0 <= i < actors.len() ==> ids.contains(#[trigger] actors[i].id),
    ensures
        fed(m, actors).shares.dom().subset_of(ids),
        fed(m, actors).threshold == m.threshold,
        fed(m, actors).key_set == m.key_set,
    decreases actors.len(),
{
    if actors.len() > 0 {
        let rest = actors.drop_last();
        assert forall|i: int| 0 <= i < rest.len() implies ids.contains(#[trigger] rest[i].id) by {
            assert(rest[i] == actors[i]);
        }
        lemma_fed_shares_from_attendees(m, rest, ids);
        assert(ids.contains(actors[actors.len() - 1].id));
    }
}

/// Any set of at most `t` actors cannot decrypt: whatever shares they
/// submit to a fresh meeting, in any order and any number of times,
/// `decrypt_message` fails with `InsufficientShares`.
pub proof fn lemma_minority_cannot_decrypt(
    key_set: Seq<u8>,
    t: nat,
    actors: Seq<ActorView>,
    ids: Set<usize>,
)
    requires
        ids.finite(),
        ids.len() <= t,
        forall|i: int| 0 <= i < actors.len() ==> ids.contains(#[trigger] actors[i].id),
    ensures
        decrypt_outcome(fed(fresh_meeting(key_set, t), actors)) == Err::<Seq<u8>, MpcError>(
            MpcError::InsufficientShares,
        ),
{
    let m = fresh_meeting(key_set, t);
    assert(m.shares.dom() =~= Set::empty());
    lemma_fed_shares_from_attendees(m, actors, ids);
    let end = fed(m, actors);
    vstd::set_lib::lemma_len_subset(end.shares.dom(), ids);
}

/// The ids of the actors whose share the meeting admitted while they
/// attended it in order.
pub open spec fn admitted_ids(m: MeetingView, actors: Seq<ActorView>) -> Set<usize>
    decreases actors.len(),
{
    if actors.len() == 0 {
        Set::empty()
    } else {
        let earlier = admitted_ids(m, actors.drop_last());
        if admitted_share(fed(m, actors.drop_last()).bound, actors.last()) is Some {
            earlier.insert(actors.last().id)
        } else {
            earlier
        }
    }
}

/// Exactly the admitted actors hold a share in the meeting.
proof fn lemma_shares_are_admitted(m: MeetingView, actors: Seq<ActorView>)
    requires
        m.shares.dom() == Set::<usize>::empty(),
    ensures
        fed(m, actors).shares.dom() == admitted_ids(m, actors),
        admitted_ids(m, actors).finite(),
        fed(m, actors).threshold == m.threshold,
    decreases actors.len(),
{
    if actors.len() > 0 {
        lemma_shares_are_admitted(m, actors.drop_last());
        assert(fed(m, actors).shares.dom() =~= admitted_ids(m, actors));
    }
}

/// Rejected shares never count toward the quorum: whatever actors attend a
/// fresh meeting, and however many of their shares are rejected (failing
/// verification, or computed for a ciphertext other than the bound one), if
/// at most `t` distinct actors had a share admitted, `decrypt_message` fails
/// with `InsufficientShares`.
pub proof fn lemma_rejected_shares_never_count(key_set: Seq<u8>, t: nat, actors: Seq<ActorView>)
    requires
        admitted_ids(fresh_meeting(key_set, t), actors).len() <= t,
    ensures
        decrypt_outcome(fed(fresh_meeting(key_set, t), actors)) == Err::<Seq<u8>, MpcError>(
            MpcError::InsufficientShares,
        ),
{
    let m = fresh_meeting(key_set, t);
    assert(m.shares.dom() =~= Set::<usize>::empty());
    lemma_shares_are_admitted(m, actors);
    assert(fed(m, actors).shares.len() == admitted_ids(m, actors).len());
}

/// A share that fails verification against the actor's public share (as
/// one computed with a mismatched secret share does), or one for a
/// ciphertext other than the meeting's bound ciphertext, is rejected with
/// `ShareRejected` and never counted toward the quorum.
pub proof fn lemma_rejected_share_not_counted(m: MeetingView, actor: ActorView)
    requires
        actor.inbox is Some,
        (m.bound matches Some(b) && b != actor.inbox.unwrap()) || (decryption_share_of(
            actor.secret_share,
            actor.inbox.unwrap(),
        ) matches Some(s) && !share_verifies(actor.public_share, s, actor.inbox.unwrap())),
    ensures
        after_accept(m, actor).shares == m.shares,
        accept_result(m.bound, actor) == Err::<(), MpcError>(MpcError::ShareRejected),
{
}

/// Whether two views describe the same share holder.
pub open spec fn same_holder(a: ActorView, b: ActorView) -> bool {
    &&& a.id == b.id
    &&& a.public_share == b.public_share
    &&& a.secret_share == b.secret_share
}

/// The shares that a coordinator collects for `ct` when it has delivered `ct`
/// to every actor and admits them in order, stopping once `need` shares are
/// in.
pub open spec fn quorum_collected(actors: Seq<ActorView>, ct: Seq<u8>, need: nat) -> Map<
    usize,
    Seq<u8>,
>
    decreases actors.len(),
{
    if actors.len() == 0 {
        Map::empty()
    } else {
        let prev = quorum_collected(actors.drop_last(), ct, need);
        if prev.len() >= need {
            prev
        } else {
            match admitted_share(Some(ct), with_inbox(actors.last(), Some(ct))) {
                Some(s) => prev.insert(actors.last().id, s),
                None => prev,
            }
        }
    }
}

/// How many actors, in order, the coordinator admits before `need` shares
/// are in (all of them if that never happens).
pub open spec fn quorum_attended(actors: Seq<ActorView>, ct: Seq<u8>, need: nat) -> nat
    decreases actors.len(),
{
    if actors.len() == 0 {
        0
    } else if quorum_collected(actors.drop_last(), ct, need).len() >= need {
        quorum_attended(actors.drop_last(), ct, need)
    } else {
        actors.len()
    }
}

/// The actors after a quorum decryption of `ct`: those admitted have had
/// their inbox consumed, the others still hold `ct`; shares are untouched.
pub open spec fn after_quorum_round(
    before: Seq<ActorView>,
    after: Seq<ActorView>,
    ct: Seq<u8>,
    need: nat,
) -> bool {
    &&& after.len() == before.len()
    &&& forall|j: int|
        0 <= j < before.len() ==> #[trigger] after[j] == with_inbox(
            before[j],
            if j < quorum_attended(before, ct, need) {
                None
            } else {
                Some(ct)
            },
        )
}

/// Once a quorum is in, the actors after it change nothing.
proof fn lemma_quorum_settles(actors: Seq<ActorView>, ct: Seq<u8>, need: nat, i: int)
    requires
        0 <= i <= actors.len(),
        quorum_collected(actors.take(i), ct, need).len() >= need,
    ensures
        quorum_collected(actors, ct, need) == quorum_collected(actors.take(i), ct, need),
        quorum_attended(actors, ct, need) == quorum_attended(actors.take(i), ct, need),
    decreases actors.len() - i,
{
    if i < actors.len() {
        let next = actors.take(i + 1);
        assert(next.drop_last() =~= actors.take(i));
        lemma_quorum_settles(actors, ct, need, i + 1);
    } else {
        assert(actors.take(i) =~= actors);
    }
}

/// A society's actors fit its key material: the keys are consistent, there
/// is one actor per share, and actor `i` has id `i` and holds the key set's
/// share `i` with a secret share that belongs to it.
pub open spec fn society_wf(keys: MasterKeyMaterial, actors: Seq<ActorView>) -> bool {
    &&& keys_fit(keys)
    &&& actors.len() == keys.party_count
    &&& forall|i: int| 0 <= i < actors.len() ==> (#[trigger] actors[i]).id == i
    &&& forall|i: int|
        0 <= i < actors.len() ==> share_fits(
            keys,
            i as usize,
            (#[trigger] actors[i]).public_share,
            actors[i].secret_share,
        )
}

/// Any `t + 1` distinct actors' shares decrypt: a meeting bound to an
/// encryption of `message` under the society's master key, holding at least
/// `t + 1` shares each verified against the public share of the actor whose
/// id keys it, returns `message`.
pub proof fn lemma_quorum_decrypts(
    keys: MasterKeyMaterial,
    actors: Seq<ActorView>,
    m: MeetingView,
    ct: Seq<u8>,
    message: Seq<u8>,
)
    requires
        society_wf(keys, actors),
        encrypts(keys.public_key@, ct, message),
        m.key_set == keys.public_key_set@,
        m.threshold == keys.threshold,
        m.bound == Some(ct),
        m.shares.dom().finite(),
        m.shares.len() >= keys.threshold + 1,
        forall|id: usize| #[trigger]
            m.shares.contains_key(id) ==> id < actors.len() && share_verifies(
                actors[id as int].public_share,
                m.shares[id],
                ct,
            ),
    ensures
        decrypt_outcome(m) == Ok::<Seq<u8>, MpcError>(message),
{
    assert forall|i: usize| #[trigger] m.shares.contains_key(i) implies (key_set_share(
        m.key_set,
        i,
    ) matches Some(p) && share_verifies(p, m.shares[i], ct)) by {
        assert(actors[i as int].id == i);
        assert(share_fits(keys, i, actors[i as int].public_share, actors[i as int].secret_share));
    }
    assert(combined_plaintext(m.key_set, m.shares, ct) == Some(message));
}

/// When every actor holds matching shares and every well-formed secret share
/// can compute a decryption share of `ct`, every actor is admitted: the
/// coordinator collects `need` shares, or all of them if there are fewer.
proof fn lemma_honest_quorum(actors: Seq<ActorView>, ct: Seq<u8>, need: nat)
    requires
        forall|i: int| 0 <= i < actors.len() ==> (#[trigger] actors[i]).id == i,
        forall|i: int|
            0 <= i < actors.len() ==> shares_match(
                (#[trigger] actors[i]).public_share,
                actors[i].secret_share,
            ),
        shares_computable(ct),
    ensures
        quorum_collected(actors, ct, need).dom().finite(),
        forall|k: usize| #[trigger]
            quorum_collected(actors, ct, need).contains_key(k) ==> k < actors.len()
                && share_verifies(
                actors[k as int].public_share,
                quorum_collected(actors, ct, need)[k],
                ct,
            ),
        quorum_collected(actors, ct, need).len() == if actors.len() < need {
            actors.len()
        } else {
            need
        },
    decreases actors.len(),
{
    if actors.len() > 0 {
        let rest = actors.drop_last();
        assert forall|i: int| 0 <= i < rest.len() implies (#[trigger] rest[i]).id == i
            && shares_match(rest[i].public_share, rest[i].secret_share) by {
            assert(rest[i] == actors[i]);
        }
        lemma_honest_quorum(rest, ct, need);
        let prev = quorum_collected(rest, ct, need);
        if prev.len() < need {
            let a = actors.last();
            assert(a == actors[actors.len() - 1]);
            assert(shares_match(a.public_share, a.secret_share));
            assert(public_share_of(a.secret_share) is Some);
            assert(decryption_share_of(a.secret_share, ct) is Some);
            assert(!prev.contains_key(a.id));
        }
        assert forall|k: usize| #[trigger] prev.contains_key(k) implies rest[k as int]
            == actors[k as int] by {}
    }
}

/// The key dealer together with the society it set up: the actors, the
/// public key material, and an ECDH key pair for returning results over a
/// secure channel. The payloads it decrypts are opaque bytes; any key of the
/// computation engine that consumes them is held by that engine, not here.
pub struct MpcNetwork {
    actors: Vec<Actor>,
    keys: MasterKeyMaterial,
    ecdh_pub_key: EcdhPublicKey,
    ecdh_skey: EcdhSecretKey,
}

impl MpcNetwork {
    /// The actors, in id order.
    pub closed spec fn actor_views(&self) -> Seq<ActorView> {
        self.actors@.map_values(|a: Actor| a@)
    }

    /// The society's public key material.
    pub closed spec fn key_material(&self) -> MasterKeyMaterial {
        self.keys
    }

    /// The secret half of the society's ECDH key pair.
    pub closed spec fn ecdh_secret(&self) -> Seq<u8> {
        self.ecdh_skey@
    }

    /// The public half of the society's ECDH key pair.
    pub closed spec fn ecdh_public(&self) -> EcdhPublicKey {
        self.ecdh_pub_key
    }

    /// The society's ECDH public key, for requesters to agree a channel key.
    pub fn ecdh_pub_key(&self) -> (r: &EcdhPublicKey)
        ensures
            r == self.ecdh_public(),
    {
        &self.ecdh_pub_key
    }

    /// The actors fit the key material (see `society_wf`), and the ECDH
    /// public key is the public point of the ECDH secret key.
    pub open spec fn wf(&self) -> bool {
        &&& society_wf(self.key_material(), self.actor_views())
        &&& ecdh_public_of(self.ecdh_secret()) == Some(self.ecdh_public()@)
    }

    /// Sets up a society of `n_actors` actors of which more than `threshold`
    /// must cooperate to decrypt. Fails with `InvalidThreshold` unless
    /// `0 < threshold < n_actors`.
    pub fn new(n_actors: usize, threshold: usize) -> (r: Result<MpcNetwork, MpcError>)
        ensures
            r is Ok <==> 0 < threshold < n_actors,
            r is Err ==> r == Err::<MpcNetwork, MpcError>(MpcError::InvalidThreshold),
            r matches Ok(net) ==> {
                &&& net.wf()
                &&& point_decodes(net.key_material().public_key@)
                &&& net.key_material().threshold == threshold
                &&& net.key_material().party_count == n_actors
                &&& net.actor_views().len() == n_actors
                &&& forall|i: int| 0 <= i < n_actors ==> (#[trigger] net.actor_views()[i]).id == i
                &&& forall|i: int| 0 <= i < n_actors ==> #[trigger] net.actor_views()[i].inbox is None
                &&& ecdh_public_of(net.ecdh_secret()) == Some(net.ecdh_public()@)
            },
    {
        let (keys, shares) = match setup(n_actors, threshold) {
            Ok(dealt) => dealt,
            Err(e) => return Err(e),
        };
        let mut actors: Vec<Actor> = Vec::new();
        let mut i: usize = 0;
        while i < shares.len()
            invariant
                shares@.len() == n_actors,
                forall|j: int| 0 <= j < n_actors ==> #[trigger] shares@[j].actor_id == j,
                i <= n_actors,
                actors@.len() == i,
                forall|j: int|
                    0 <= j < n_actors ==> share_fits(
                        keys,
                        j as usize,
                        #[trigger] shares@[j].public_share@,
                        shares@[j].secret_share@,
                    ),
                forall|j: int|
                    0 <= j < i ==> (#[trigger] actors@[j]@).id == j && actors@[j]@.inbox is None
                        && share_fits(
                        keys,
                        j as usize,
                        actors@[j]@.public_share,
                        actors@[j]@.secret_share,
                    ),
            decreases n_actors - i,
        {
            let share = &shares[i];
            let public_share = share.public_share.clone();
            let secret_share = share.secret_share.clone();
            assert(public_share@ =~= share.public_share@);
            assert(secret_share@ =~= share.secret_share@);
            actors.push(Actor::new(share.actor_id, public_share, secret_share));
            i = i + 1;
        }
        let (ecdh_skey, ecdh_pub_key) = generate_ecdh_keys();
        let net = MpcNetwork { actors, keys, ecdh_pub_key, ecdh_skey };
        assert(forall|j: int| 0 <= j < n_actors ==> #[trigger] net.actor_views()[j] == net.actors@[j]@);
        Ok(net)
    }

    /// The master public key, for publication; no side effects.
    pub fn publish_public_key(&self) -> (r: Vec<u8>)
        ensures
            r@ == self.key_material().public_key@,
    {
        self.keys.public_key.clone()
    }

    /// The society's public key material.
    pub fn keys(&self) -> (r: &MasterKeyMaterial)
        ensures
            r == self.key_material(),
    {
        &self.keys
    }

    /// Delivers a ciphertext to actor `id`, replacing any pending one.
    pub fn send_message(&mut self, id: usize, enc_msg: Vec<u8>)
        requires
            old(self).wf(),
            id < old(self).key_material().party_count,
        ensures
            final(self).wf(),
            final(self).key_material() == old(self).key_material(),
            final(self).ecdh_secret() == old(self).ecdh_secret(),
            final(self).ecdh_public() == old(self).ecdh_public(),
            final(self).actor_views() == old(self).actor_views().update(
                id as int,
                with_inbox(old(self).actor_views()[id as int], Some(enc_msg@)),
            ),
    {
        self.actors[id].receive(enc_msg);
        assert(self.actor_views() =~= old(self).actor_views().update(
            id as int,
            with_inbox(old(self).actor_views()[id as int], Some(enc_msg@)),
        ));
    }

    /// A fresh meeting of this society.
    pub fn start_decryption_meeting(&self) -> (r: DecryptionMeeting)
        ensures
            r.wf(),
            r@ == fresh_meeting(
                self.key_material().public_key_set@,
                self.key_material().threshold as nat,
            ),
    {
        DecryptionMeeting::new(&self.keys)
    }

    /// Decrypts `ciphertext` with a quorum of the society; see the free
    /// function `mpc_decrypt`.
    pub fn mpc_decrypt(&mut self, ciphertext: Vec<u8>) -> (r: Result<Vec<u8>, MpcError>)
        requires
            old(self).wf(),
        ensures
            final(self).wf(),
            final(self).key_material() == old(self).key_material(),
            quorum_decrypt_outcome(old(self), ciphertext@, r),
        final(self).ecdh_secret() == old(self).ecdh_secret(),
        final(self).ecdh_public() == old(self).ecdh_public(),
        after_quorum_round(
            old(self).actor_views(),
            final(self).actor_views(),
            ciphertext@,
            old(self).key_material().threshold as nat + 1,
        ),
        forall|message: Seq<u8>| #[trigger]
            encrypts(old(self).key_material().public_key@, ciphertext@, message) ==> (r matches Ok(
                v,
            ) && v@ == message),
        shares_computable(ciphertext@) ==> r != Err::<Vec<u8>, MpcError>(
            MpcError::InsufficientShares,
        ),
    {
        mpc_decrypt(self, ciphertext)
    }

    /// Seals `msg` for the holder of `target_public_key`, under the
    /// Diffie-Hellman agreement of the society's ECDH key and theirs.
    pub fn ecdh_encrypt(&self, msg: &[u8], target_public_key: &EcdhPublicKey) -> (r: Vec<u8>)
        requires
            self.wf(),
            msg@.len() < MAX_PLAINTEXT_LEN,
        ensures
            forall|other: Seq<u8>| #[trigger]
                ecdh_public_of(other) == Some(target_public_key@) ==> channel_open(
                    r@,
                    ecdh_agreement(other, self.ecdh_public()@),
                ) == Some(msg@),
            r@.len() == NONCE_LEN + msg@.len() + TAG_LEN,
            r@.skip(NONCE_LEN as int) == aead_sealed(
                ecdh_agreement(self.ecdh_secret(), target_public_key@),
                r@.take(NONCE_LEN as int),
                msg@,
            ),
            channel_open(r@, ecdh_agreement(self.ecdh_secret(), target_public_key@)) == Some(msg@),
    {
        let shared_secret_key = compute_shared_secret(&self.ecdh_skey, target_public_key);
        encrypt(msg, shared_secret_key.as_slice())
    }
}

/// What a quorum decryption of `ct` by `society` returns: `InsufficientShares`
/// when fewer than `t + 1` actors contribute a valid share, otherwise the
/// outcome of a meeting bound to `ct` holding the shares collected.
pub open spec fn quorum_decrypt_outcome(
    society: &MpcNetwork,
    ct: Seq<u8>,
    r: Result<Vec<u8>, MpcError>,
) -> bool {
    let keys = society.key_material();
    let m = MeetingView {
        key_set: keys.public_key_set@,
        threshold: keys.threshold as nat,
        bound: Some(ct),
        shares: quorum_collected(society.actor_views(), ct, keys.threshold as nat + 1),
    };
    match decrypt_outcome(m) {
        Ok(p) => r matches Ok(v) && v@ == p,
        Err(e) => r == Err::<Vec<u8>, MpcError>(e),
    }
}

/// Delivers `ciphertext` to every actor, opens one meeting, admits actors in
/// id order until `t + 1` valid shares are in, and combines them. The actors
/// admitted have their inbox consumed; the others keep the ciphertext. For an
/// encryption of `message` under the society's master key the result is
/// exactly `message`.
pub fn mpc_decrypt(society: &mut MpcNetwork, ciphertext: Vec<u8>) -> (r: Result<Vec<u8>, MpcError>)
    requires
        old(society).wf(),
    ensures
        final(society).wf(),
        final(society).key_material() == old(society).key_material(),
        quorum_decrypt_outcome(old(society), ciphertext@, r),
        final(society).ecdh_secret() == old(society).ecdh_secret(),
        final(society).ecdh_public() == old(society).ecdh_public(),
        after_quorum_round(
            old(society).actor_views(),
            final(society).actor_views(),
            ciphertext@,
            old(society).key_material().threshold as nat + 1,
        ),
        forall|message: Seq<u8>| #[trigger]
            encrypts(old(society).key_material().public_key@, ciphertext@, message) ==> (r matches Ok(
                v,
            ) && v@ == message),
        shares_computable(ciphertext@) ==> r != Err::<Vec<u8>, MpcError>(
            MpcError::InsufficientShares,
        ),
{
    let ghost before = society.actor_views();
    let ghost ct = ciphertext@;
    let n = society.actors.len();
    let mut i: usize = 0;
    while i < n
        invariant
            society.wf(),
            society.key_material() == old(society).key_material(),
            society.ecdh_secret() == old(society).ecdh_secret(),
            society.ecdh_public() == old(society).ecdh_public(),
            before == old(society).actor_views(),
            n == before.len(),
            ct == ciphertext@,
            i <= n,
            society.actor_views().len() == n,
            forall|j: int| 0 <= j < i ==> #[trigger] society.actor_views()[j] == with_inbox(before[j], Some(ct)),
            forall|j: int| i <= j < n ==> #[trigger] society.actor_views()[j] == before[j],
        decreases n - i,
    {
        let copy = ciphertext.clone();
        assert(copy@ =~= ciphertext@);
        let ghost prev = society.actor_views();
        assert(prev[i as int] == before[i as int]);
        society.send_message(i, copy);
        assert(forall|j: int| 0 <= j < n && j != i ==> #[trigger] society.actor_views()[j] == prev[j]);
        assert(society.actor_views()[i as int] == with_inbox(before[i as int], Some(ct)));
        i = i + 1;
    }
    let need = society.keys.threshold + 1;
    let mut meeting = society.start_decryption_meeting();
    let mut i: usize = 0;
    while i < n && meeting.share_count() < need
        invariant
            society.wf(),
            society.key_material() == old(society).key_material(),
            society.ecdh_secret() == old(society).ecdh_secret(),
            society.ecdh_public() == old(society).ecdh_public(),
            before == old(society).actor_views(),
            n == before.len(),
            ct == ciphertext@,
            need == society.key_material().threshold + 1,
            0 <= i <= n,
            society.actor_views().len() == n,
            forall|j: int| 0 <= j < i ==> #[trigger] society.actor_views()[j] == with_inbox(before[j], None),
            forall|j: int| i <= j < n ==> #[trigger] society.actor_views()[j] == with_inbox(before[j], Some(ct)),
            i > 0 ==> quorum_collected(before.take(i - 1), ct, need as nat).len() < need,
            meeting.wf(),
            meeting@.key_set == society.key_material().public_key_set@,
            meeting@.threshold == society.key_material().threshold,
            i == 0 ==> meeting@ == fresh_meeting(meeting@.key_set, meeting@.threshold),
            i > 0 ==> meeting@.bound == Some(ct),
            meeting@.shares == quorum_collected(before.take(i as int), ct, need as nat),
        decreases n - i,
    {
        let ghost old_views = society.actor_views();
        assert(society.actors@[i as int]@ == old_views[i as int]);
        let _ = meeting.accept_decryption_share(&mut society.actors[i]);
        proof {
            assert(forall|j: int| 0 <= j < n && j != i ==> #[trigger] society.actor_views()[j] == old_views[j]);
            assert(before.take(i + 1).drop_last() =~= before.take(i as int));
            assert(before.take(i + 1).last() == before[i as int]);
        }
        i = i + 1;
    }
    proof {
        if i > 0 {
            assert(before.take(i as int).drop_last() =~= before.take(i - 1));
        }
        assert(quorum_attended(before.take(i as int), ct, need as nat) == i);
        if i == n {
            assert(before.take(n as int) =~= before);
        } else {
            lemma_quorum_settles(before, ct, need as nat, i as int);
        }
        if shares_computable(ct) {
            lemma_honest_quorum(before, ct, need as nat);
            let keys = society.key_material();
            let got = quorum_collected(before, ct, need as nat);
            let mv = MeetingView {
                key_set: keys.public_key_set@,
                threshold: keys.threshold as nat,
                bound: Some(ct),
                shares: got,
            };
            assert forall|message: Seq<u8>| #[trigger]
                encrypts(keys.public_key@, ct, message) implies decrypt_outcome(mv) == Ok::<
                Seq<u8>,
                MpcError,
            >(message) by {
                lemma_quorum_decrypts(keys, before, mv, ct, message);
            }
        }
    }
    meeting.decrypt_message()
}

} // verus!
