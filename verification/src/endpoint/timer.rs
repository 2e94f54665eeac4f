//! The time until an endpoint's next timeout, as its user sees it.

use vstd::prelude::*;

use crate::time::{Duration, NANOS_PER_MICRO, NANOS_PER_SEC};

verus! {

/// A span of whole seconds and the microseconds beyond them.
#[derive(Clone, Copy, Debug, PartialEq, Eq, Structural)]
pub struct TimeoutDelta {
    pub seconds: i32,
    pub microseconds: i32,
}

/// The number that the low 32 bits of `n` stand for in two's complement.
pub open spec fn low_i32(n: nat) -> int {
    let low = n % 0x1_0000_0000;
    if low < 0x8000_0000 {
        low as int
    } else {
        low - 0x1_0000_0000
    }
}

/// The time until the next timeout: zero where none is due. Of the seconds the low 32
/// bits count.
pub fn timeout_delta(timeout: Option<Duration>) -> (delta: TimeoutDelta)
    ensures
        match timeout {
            Some(time) => {
                &&& delta.seconds == low_i32(time.nanos as nat / NANOS_PER_SEC as nat)
                &&& delta.microseconds == time.nanos % NANOS_PER_SEC / NANOS_PER_MICRO
            },
            None => delta.seconds == 0 && delta.microseconds == 0,
        },
{
    match timeout {
        Some(time) => {
            let seconds: u128 = time.as_nanos() / NANOS_PER_SEC;
            let microseconds: u128 = time.as_nanos() % NANOS_PER_SEC / NANOS_PER_MICRO;
            let low: u32 = (seconds % 0x1_0000_0000) as u32;
            assert((low as i32) == if low < 0x8000_0000u32 {
                low as int
            } else {
                low - 0x1_0000_0000
            }) by (bit_vector);
            TimeoutDelta { seconds: low as i32, microseconds: microseconds as i32 }
        },
        None => TimeoutDelta { seconds: 0, microseconds: 0 },
    }
}

/// A timeout of less than 2^31 seconds is given to the microsecond, rounded down.
pub proof fn timeout_delta_is_exact(time: Duration)
    requires
        time.nanos < 0x8000_0000 * NANOS_PER_SEC,
    ensures
        ({
            let micros = low_i32(time.nanos as nat / NANOS_PER_SEC as nat) * 1_000_000
                + time.nanos % NANOS_PER_SEC / NANOS_PER_MICRO;
            micros * NANOS_PER_MICRO <= time.nanos < (micros + 1) * NANOS_PER_MICRO
        }),
{
}

/// The time until a timeout is given in microseconds of less than a second and in seconds, of
/// which whole multiples of 2^32 are left out. Where it is less than 2^31 seconds nothing is left
/// out, and the two together are the time, rounded down to the microsecond. Without a timeout
/// both are zero.
pub proof fn timeout_is_given_to_the_microsecond(timeout: Option<Duration>, delta: TimeoutDelta)
    requires
        call_ensures(timeout_delta, (timeout,), delta),
    ensures
        timeout is None ==> delta.seconds == 0 && delta.microseconds == 0,
        timeout matches Some(time) ==> {
            let micros = delta.seconds * 1_000_000 + delta.microseconds;
            &&& 0 <= delta.microseconds < 1_000_000
            &&& (time.nanos / 1_000_000_000 - delta.seconds) % 0x1_0000_0000 == 0
            &&& (time.nanos / 1_000) % 1_000_000 == delta.microseconds
            &&& time.nanos < 0x8000_0000 * 1_000_000_000 ==> micros * 1_000 <= time.nanos < micros
                * 1_000 + 1_000
        },
{
    if let Some(time) = timeout {
        let n = time.nanos as int;
        let seconds = n / 1_000_000_000;
        let rest = n % 1_000_000_000;
        assert(n == seconds * 1_000_000_000 + rest);
        assert(n / 1_000 == seconds * 1_000_000 + rest / 1_000);
        assert((seconds * 1_000_000 + rest / 1_000) % 1_000_000 == rest / 1_000);
    }
}

} // verus!
