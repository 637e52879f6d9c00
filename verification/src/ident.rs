//! Random identifiers for clients.
use vstd::prelude::*;
use rand::Rng;

verus! {

/// An ASCII letter or digit.
pub open spec fn is_alphanumeric(c: char) -> bool {
    ('a' <= c && c <= 'z') || ('A' <= c && c <= 'Z') || ('0' <= c && c <= '9')
}

/// Draws `len` characters with rand's `thread_rng().sample_iter(&Alphanumeric)`.
/// rand documents `Alphanumeric` as sampling ASCII letters and digits
/// (`A-Z`, `a-z`, `0-9`), and `take(len)` on its endless iterator yields exactly
/// `len` of them; which characters come out is left open.
#[verifier::external_body]
pub(crate) fn random_alphanumeric(len: usize) -> (s: String)
    ensures
        s@.len() == len,
        forall|i: int| 0 <= i < s@.len() ==> is_alphanumeric(#[trigger] s@[i]),
{
    rand::thread_rng().sample_iter(&rand::distributions::Alphanumeric).take(len).map(char::from).collect()
}

} // verus!
