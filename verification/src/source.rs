//! Where the characters of a secret come from.
//!
//! The draws are made by the `rand` crate: `Alphanumeric` sampled from a
//! `StdRng`. Nothing about that generator is proved here; the two functions
//! of this file state what the rest of the library takes on trust.

use rand::distributions::{Alphanumeric, Distribution};
use rand::rngs::StdRng;
use rand::SeedableRng;
use vstd::prelude::*;

verus! {

/// `b` is an ASCII letter or digit.
pub open spec fn is_alphanumeric(b: u8) -> bool {
    ||| 65 <= b <= 90
    ||| 97 <= b <= 122
    ||| 48 <= b <= 57
}

/// The byte that `Alphanumeric` yields at place `index` (from 0) when it is
/// sampled again and again from `StdRng::seed_from_u64(seed)`. The stream is
/// that of the version of `rand` that the library is built with: another
/// version may come with another generator.
pub uninterp spec fn seeded_alphanumeric(seed: u64, index: nat) -> u8;

/// The first `count` bytes of the seeded stream.
pub open spec fn seeded_stream(seed: u64, count: nat) -> Seq<u8> {
    Seq::new(count, |i: int| seeded_alphanumeric(seed, i as nat))
}

/// Builds `StdRng::seed_from_u64(seed)`, hands it to
/// `Alphanumeric.sample_iter` and takes the first `count` bytes.
///
/// Trusted: the generator is a function of the seed alone, so the byte at
/// each place is the same in every call, whatever `count` is; and
/// `Alphanumeric` yields ASCII letters and digits only.
#[verifier::external_body]
pub(crate) fn seeded_draws(seed: u64, count: usize) -> (draws: Vec<u8>)
    requires
        count <= isize::MAX,
    ensures
        draws@.len() == count,
        forall|i: int| 0 <= i < count ==> #[trigger] draws@[i] == seeded_alphanumeric(seed, i as nat),
        forall|i: int| 0 <= i < count ==> is_alphanumeric(#[trigger] draws@[i]),
{
    Alphanumeric.sample_iter(StdRng::seed_from_u64(seed)).take(count).collect()
}

/// Builds `StdRng::from_entropy()`, hands it to `Alphanumeric.sample_iter`
/// and takes the first `count` bytes.
///
/// Trusted: `count` bytes come back, ASCII letters and digits only. Which
/// ones is left open: they differ from call to call. `from_entropy` panics
/// where the operating system has no entropy to offer.
#[verifier::external_body]
pub(crate) fn entropy_draws(count: usize) -> (draws: Vec<u8>)
    requires
        count <= isize::MAX,
    ensures
        draws@.len() == count,
        forall|i: int| 0 <= i < count ==> is_alphanumeric(#[trigger] draws@[i]),
{
    Alphanumeric.sample_iter(StdRng::from_entropy()).take(count).collect()
}

} // verus!
