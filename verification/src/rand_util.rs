//! Random identifier strings for freshly provisioned wallets.

use vstd::prelude::*;
use rand::RngExt;

verus! {

/// An ASCII letter or digit.
pub open spec fn is_alnum(c: char) -> bool {
    ('a' as u32 <= c as u32 && c as u32 <= 'z' as u32) || ('A' as u32 <= c as u32 && c as u32
        <= 'Z' as u32) || ('0' as u32 <= c as u32 && c as u32 <= '9' as u32)
}

/// Relies on rand's `Alphanumeric` distribution: every sampled byte is an
/// ASCII letter or digit, and taking `len` draws from its endless sample
/// iterator yields exactly `len` of them.
#[verifier::external_body]
pub fn rand_string(len: usize) -> (r: String)
    ensures
        r@.len() == len as nat,
        forall|i: int| 0 <= i < r@.len() ==> is_alnum(#[trigger] r@[i]),
{
    rand::rng().sample_iter(rand::distr::Alphanumeric).take(len).map(char::from).collect()
}

} // verus!
