use vstd::prelude::*;

verus! {

/// Relies on `rand::random_range` over a half-open range of `i64`: a value
/// drawn from the thread-local generator with `lo <= r < hi` (it panics on an
/// empty range, which `requires` rules out).
#[verifier::external_body]
pub(crate) fn random_between(lo: i64, hi: i64) -> (r: i64)
    requires
        lo < hi,
    ensures
        lo <= r < hi,
{
    rand::random_range(lo..hi)
}

} // verus!
