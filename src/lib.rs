//! Threshold decryption for a society of key-share holders, and an
//! authenticated point-to-point channel built on elliptic-curve
//! Diffie-Hellman.

use vstd::prelude::*;

pub mod channel;
pub mod threshold;
pub mod society;
pub mod party;
pub mod record_keys;

verus! {

/// Sum of two unsigned integers.
pub fn add(left: u64, right: u64) -> (r: u64)
    requires
        left + right <= u64::MAX,
    ensures
        r == left + right,
{
    left + right
}

} // verus!
