//! Points in time and spans of time, in whole nanoseconds.

use vstd::prelude::*;

verus! {

/// Nanoseconds in one second.
pub const NANOS_PER_SEC: u128 = 1_000_000_000;

/// Nanoseconds in one microsecond.
pub const NANOS_PER_MICRO: u128 = 1_000;

/// The longest span that the host's clock represents: `u64::MAX` seconds and
/// 999,999,999 nanoseconds.
pub const MAX_NANOS: u128 = 18_446_744_073_709_551_615_999_999_999;

/// A span of time.
#[derive(Clone, Copy, Debug, PartialEq, Eq, Structural)]
pub struct Duration {
    /// Its length in nanoseconds.
    pub nanos: u128,
}

impl Duration {
    /// The span of `secs` seconds.
    pub fn from_secs(secs: u64) -> (d: Self)
        ensures
            d.nanos == secs * NANOS_PER_SEC,
    {
        Duration { nanos: secs as u128 * NANOS_PER_SEC }
    }

    /// Its length in nanoseconds.
    pub fn as_nanos(&self) -> (n: u128)
        ensures
            n == self.nanos,
    {
        self.nanos
    }

    /// Twice the span.
    pub fn double(&self) -> (d: Self)
        requires
            self.nanos * 2 <= MAX_NANOS,
        ensures
            d.nanos == self.nanos * 2,
    {
        Duration { nanos: self.nanos * 2 }
    }

    /// Whether this span is longer than `other`.
    pub fn longer_than(&self, other: Duration) -> (b: bool)
        ensures
            b == (self.nanos > other.nanos),
    {
        self.nanos > other.nanos
    }
}

/// A point in time, counted from an origin that the host fixes once.
#[derive(Clone, Copy, Debug, PartialEq, Eq, Structural)]
pub struct Instant {
    /// Nanoseconds since the origin.
    pub nanos: u128,
}

impl Instant {
    /// Nanoseconds from `earlier` to this point, or zero where this point is not the
    /// later of the two.
    pub open spec fn since(self, earlier: Instant) -> nat {
        if self.nanos > earlier.nanos {
            (self.nanos - earlier.nanos) as nat
        } else {
            0
        }
    }

    /// The time since `earlier`, or the zero span where `earlier` is not earlier.
    pub fn saturating_duration_since(&self, earlier: Instant) -> (d: Duration)
        ensures
            d.nanos == self.since(earlier),
    {
        Duration { nanos: self.nanos.saturating_sub(earlier.nanos) }
    }

    /// Whether this point is not after `other`.
    pub fn not_after(&self, other: Instant) -> (b: bool)
        ensures
            b == (self.nanos <= other.nanos),
    {
        self.nanos <= other.nanos
    }
}

/// The time since an earlier point, added to that point, is the later point; since a later
/// point it is nothing. One point is not after another exactly where no time has passed since
/// that other.
pub proof fn spans_lead_from_point_to_point(
    point: Instant,
    earlier: Instant,
    span: Duration,
    not_after: bool,
)
    requires
        call_ensures(Instant::saturating_duration_since, (&point, earlier), span),
        call_ensures(Instant::not_after, (&point, earlier), not_after),
    ensures
        earlier.nanos <= point.nanos ==> earlier.nanos + span.nanos == point.nanos,
        earlier.nanos > point.nanos ==> span.nanos == 0,
        not_after <==> span.nanos == 0,
{
}

/// The double of a span is the span and the span again, in nanoseconds; it is longer than the
/// span unless the span is nothing. A span of seconds holds a billion nanoseconds for each.
pub proof fn spans_are_counted_in_nanoseconds(
    span: Duration,
    twice: Duration,
    nanos: u128,
    nanos_twice: u128,
    longer: bool,
    secs: u64,
    of_secs: Duration,
)
    requires
        call_ensures(Duration::double, (&span,), twice),
        call_ensures(Duration::as_nanos, (&span,), nanos),
        call_ensures(Duration::as_nanos, (&twice,), nanos_twice),
        call_ensures(Duration::longer_than, (&twice, span), longer),
        call_ensures(Duration::from_secs, (secs,), of_secs),
    ensures
        nanos == span.nanos,
        nanos_twice == nanos + nanos,
        longer <==> nanos > 0,
        of_secs.nanos == secs * 1_000_000_000,
{
}

} // verus!
