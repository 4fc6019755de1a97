//! Uniform random sampling for particle spawning, backed by the process
//! random number generator.

use vstd::prelude::*;

verus! {

/// Relies on rand::random_range: a uniformly distributed sample below `n`
/// from the thread-local generator. It panics only on an empty range, which
/// the precondition excludes; nothing more than the bound can be promised
/// of a random result.
#[verifier::external_body]
fn sample_below(n: u64) -> (r: u64)
    requires
        n > 0,
    ensures
        r < n,
{
    rand::random_range(0..n)
}

/// A sample in the inclusive range `lo..=hi`.
pub fn sample_in_range(lo: i64, hi: i64) -> (r: i64)
    requires
        lo <= hi,
        hi - lo < 0x7fff_ffff_ffff_ffff,
    ensures
        lo <= r <= hi,
{
    if lo == hi {
        lo
    } else {
        let span = (hi - lo) as u64 + 1;
        let d = sample_below(span);
        lo + (d as i64)
    }
}

} // verus!
