//! Moments and lengths of time, as plain numbers of nanoseconds.

use vstd::prelude::*;

verus! {

/// A moment: nanoseconds since the Unix epoch.
pub type Stamp = u128;

/// A length of time in nanoseconds.
pub type Nanos = u128;

/// One second in nanoseconds.
pub const SECOND: u128 = 1_000_000_000;

/// `later.duration_since(earlier).ok()`: the time from `earlier` to `later`, if `later` is
/// not before it.
pub open spec fn since_spec(later: Stamp, earlier: Stamp) -> Option<Nanos> {
    if later >= earlier {
        Some((later - earlier) as Nanos)
    } else {
        None
    }
}

/// The time from `earlier` to `later`, or `None` when `later` is before `earlier`.
pub fn since(later: Stamp, earlier: Stamp) -> (r: Option<Nanos>)
    ensures
        r == since_spec(later, earlier),
{
    if later >= earlier {
        Some(later - earlier)
    } else {
        None
    }
}

/// `Duration::from_secs`.
pub fn from_secs(secs: u64) -> (r: Nanos)
    ensures
        r == secs * SECOND,
{
    assert(secs * SECOND <= u64::MAX * SECOND) by (nonlinear_arith)
        requires
            secs <= u64::MAX,
    ;
    (secs as u128) * SECOND
}

} // verus!
