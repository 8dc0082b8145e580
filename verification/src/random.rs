//! The one source of chance: a fair coin.

use vstd::prelude::*;

verus! {

/// Tosses a coin with `rand::random::<bool>()`, which samples the thread's
/// generator. Nothing is claimed of the outcome: it may be either value, and
/// two tosses need not agree.
#[verifier::external_body]
pub(crate) fn toss_coin() -> (heads: bool) {
    rand::random::<bool>()
}

} // verus!
