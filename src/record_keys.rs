//! Names of the records that peers publish in the shared key-value store: a
//! record kind, an underscore, and the peer id.

use vstd::prelude::*;

verus! {

/// `pat` occurs in `s` starting at index `i`.
pub open spec fn occurs_at(s: Seq<char>, pat: Seq<char>, i: int) -> bool {
    &&& 0 <= i
    &&& i + pat.len() <= s.len()
    &&& s.subrange(i, i + pat.len()) == pat
}

/// `pat` occurs somewhere in `s`.
pub open spec fn occurs_in(s: Seq<char>, pat: Seq<char>) -> bool {
    exists|i: int| occurs_at(s, pat, i)
}

/// Whether `pat` occurs in `s`.
fn occurs(s: &str, pat: &str) -> (r: bool)
    ensures
        r == occurs_in(s@, pat@),
{
    let n = s.unicode_len();
    let m = pat.unicode_len();
    if m > n {
        return false;
    }
    if m == 0 {
        assert(s@.subrange(0, 0) =~= pat@);
        assert(occurs_at(s@, pat@, 0));
        return true;
    }
    let mut i: usize = 0;
    while i <= n - m
        invariant
            n == s@.len(),
            m == pat@.len(),
            0 < m <= n,
            i <= n - m + 1,
            forall|k: int| 0 <= k < i ==> !occurs_at(s@, pat@, k),
        decreases n - m + 1 - i,
    {
        let mut j: usize = 0;
        let mut matched = true;
        while j < m && matched
            invariant
                n == s@.len(),
                m == pat@.len(),
                i + m <= n,
                j <= m,
                matched ==> forall|l: int| 0 <= l < j ==> s@[i + l] == pat@[l],
                !matched ==> !occurs_at(s@, pat@, i as int),
            decreases m - j + (if matched { 1int } else { 0int }),
        {
            if s.get_char(i + j) != pat.get_char(j) {
                matched = false;
                assert(s@.subrange(i as int, i + m)[j as int] != pat@[j as int]);
            } else {
                j = j + 1;
            }
        }
        if matched {
            assert(s@.subrange(i as int, i + m) =~= pat@);
            assert(occurs_at(s@, pat@, i as int));
            return true;
        }
        i = i + 1;
    }
    assert forall|k: int| !occurs_at(s@, pat@, k) by {
        if 0 <= k < i {
        }
    }
    false
}

/// The key of a peer's position record.
pub fn form_position_key(peer_id: &str) -> (r: String)
    ensures
        r@ == "POSITION_"@ + peer_id@,
{
    String::from_str("POSITION_").concat(peer_id)
}

/// The key of a peer's published public key.
pub fn form_avs_public_key(peer_id: &str) -> (r: String)
    ensures
        r@ == "AVS_PUBLIC_KEY_"@ + peer_id@,
{
    String::from_str("AVS_PUBLIC_KEY_").concat(peer_id)
}

/// The key of a peer's encrypted decryption key.
pub fn form_encrypted_fhe_key(peer_id: &str) -> (r: String)
    ensures
        r@ == "ENCRYPTED_FHE_KEY_"@ + peer_id@,
{
    String::from_str("ENCRYPTED_FHE_KEY_").concat(peer_id)
}

/// Whether `key` names a position record.
pub fn is_position_key(key: &str) -> (r: bool)
    ensures
        r == occurs_in(key@, "POSITION_"@),
{
    occurs(key, "POSITION_")
}

/// Whether `key` names a published public key.
pub fn is_avs_public_key(key: &str) -> (r: bool)
    ensures
        r == occurs_in(key@, "AVS_PUBLIC_KEY_"@),
{
    occurs(key, "AVS_PUBLIC_KEY_")
}

/// Whether `key` names an encrypted decryption key.
pub fn is_encrypted_fhe_key(key: &str) -> (r: bool)
    ensures
        r == occurs_in(key@, "ENCRYPTED_FHE_KEY_"@),
{
    occurs(key, "ENCRYPTED_FHE_KEY_")
}

/// `key[p]` is its first underscore and `q` is the index of the next one, or
/// the end of `key`.
pub open spec fn peer_id_span(key: Seq<char>, p: int, q: int) -> bool {
    &&& 0 <= p < q <= key.len()
    &&& key[p] == '_'
    &&& forall|j: int| 0 <= j < p ==> key[j] != '_'
    &&& (q == key.len() || key[q] == '_')
    &&& forall|j: int| p < j < q ==> key[j] != '_'
}

/// The peer id in a record key: the text between the first underscore and
/// the next one (or the end).
pub fn get_peer_id_from_position_key(key: &str) -> (r: String)
    requires
        exists|i: int| 0 <= i < key@.len() && key@[i] == '_',
    ensures
        exists|p: int, q: int| #[trigger]
            peer_id_span(key@, p, q) && r@ == key@.subrange(p + 1, q),
{
    let n = key.unicode_len();
    let mut p: usize = 0;
    while key.get_char(p) != '_'
        invariant
            n == key@.len(),
            p < n,
            exists|i: int| p <= i < n && key@[i] == '_',
            forall|j: int| 0 <= j < p ==> key@[j] != '_',
        decreases n - p,
    {
        p = p + 1;
    }
    let mut q: usize = p + 1;
    while q < n && key.get_char(q) != '_'
        invariant
            n == key@.len(),
            p < q <= n,
            forall|j: int| p < j < q ==> key@[j] != '_',
        decreases n - q,
    {
        q = q + 1;
    }
    let r = key.substring_char(p + 1, q).to_owned();
    assert(peer_id_span(key@, p as int, q as int));
    r
}

} // verus!
