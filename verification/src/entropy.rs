//! The source of chance.

use vstd::prelude::*;

verus! {

/// Calls `rand::random::<usize>()`, which draws from the thread-local
/// generator. Nothing is claimed of the number drawn: callers must be right
/// for every `usize`.
#[verifier::external_body]
pub(crate) fn random_usize() -> usize {
    rand::random::<usize>()
}

} // verus!
