//! Draws from the thread-local random source.

use vstd::prelude::*;
use rand::Rng;
use chrono::Datelike;

verus! {

/// Relies on `rand::thread_rng` and `Rng::gen_range`: a value drawn from
/// `lo..=hi`, which is non-empty (an empty range panics).
#[verifier::external_body]
pub(crate) fn random_between(lo: u64, hi: u64) -> (r: u64)
    requires
        lo <= hi,
    ensures
        lo <= r <= hi,
{
    rand::thread_rng().gen_range(lo..=hi)
}

/// Relies on `chrono::Local::now` with `Datelike::year` and `Datelike::month`:
/// today's year and month on the local clock. chrono documents months as
/// `1..=12` and keeps years within its `MIN_YEAR..=MAX_YEAR`.
#[verifier::external_body]
pub(crate) fn current_year_month() -> (r: (i32, u32))
    ensures
        -262143 <= r.0 <= 262142,
        1 <= r.1 <= 12,
{
    let now = chrono::Local::now();
    (now.year(), now.month())
}

} // verus!
