//! The minimum round-trip time over a sliding window of samples.

use std::collections::VecDeque;

use vstd::prelude::*;

use crate::time::{Duration, Instant};

verus! {

/// What a [`MinRttFilter`] holds: its samples, oldest first, each a round-trip
/// time in nanoseconds and the moment it was taken, and the length of its window.
#[verifier::ext_equal]
pub struct MinRttState {
    pub samples: Seq<(u128, Instant)>,
    pub window: Duration,
}

impl MinRttState {
    /// Whether the sample is older at `now` than the window is long.
    pub open spec fn stale(sample: (u128, Instant), now: Instant, window: Duration) -> bool {
        now.since(sample.1) > window.nanos
    }

    /// The samples from the first one on that is not stale.
    pub open spec fn fresh_suffix(
        samples: Seq<(u128, Instant)>,
        now: Instant,
        window: Duration,
    ) -> Seq<(u128, Instant)>
        decreases samples.len(),
    {
        if samples.len() > 0 && Self::stale(samples[0], now, window) {
            Self::fresh_suffix(samples.subrange(1, samples.len() as int), now, window)
        } else {
            samples
        }
    }

    /// The filter once a sample taken at `now` is in it: the sample stands last, and
    /// the stale samples at the front are gone.
    pub open spec fn updated(self, rtt: u128, now: Instant) -> MinRttState {
        MinRttState {
            samples: Self::fresh_suffix(self.samples.push((rtt, now)), now, self.window),
            window: self.window,
        }
    }

    /// Whether `rtt` is the least round-trip time among the samples.
    pub open spec fn is_min(samples: Seq<(u128, Instant)>, rtt: u128) -> bool {
        &&& exists|i: int| 0 <= i < samples.len() && (#[trigger] samples[i]).0 == rtt
        &&& forall|i: int| 0 <= i < samples.len() ==> rtt <= (#[trigger] samples[i]).0
    }

    /// The least round-trip time among the samples, where there is a sample.
    pub open spec fn min_rtt(self) -> Option<u128> {
        if self.samples.len() > 0 {
            Some(choose|rtt: u128| Self::is_min(self.samples, rtt))
        } else {
            None
        }
    }

    /// Whether no sample was taken before the one in front of it.
    pub open spec fn in_order(self) -> bool {
        forall|i: int, j: int|
            0 <= i <= j < self.samples.len() ==> (#[trigger] self.samples[i]).1.nanos <= (
            #[trigger] self.samples[j]).1.nanos
    }
}

/// Keeps the round-trip samples of a sliding window of time and gives the least.
#[derive(Debug)]
pub struct MinRttFilter {
    min_rtt_queue: VecDeque<(u128, Instant)>,
    window: Duration,
}

impl View for MinRttFilter {
    type V = MinRttState;

    closed spec fn view(&self) -> MinRttState {
        MinRttState { samples: self.min_rtt_queue@, window: self.window }
    }
}

impl MinRttFilter {
    /// A filter without samples, with a window of one second.
    pub fn new() -> (filter: Self)
        ensures
            filter@.samples == Seq::<(u128, Instant)>::empty(),
            filter@.window.nanos == 1_000_000_000,
    {
        Self { min_rtt_queue: VecDeque::new(), window: Duration::from_secs(1) }
    }

    /// Adds a sample taken at `now`, then drops the samples at the front that are
    /// older than the window.
    pub fn update(&mut self, rtt: u128, now: Instant)
        ensures
            final(self)@ == old(self)@.updated(rtt, now),
    {
        let ghost pushed = self.min_rtt_queue@.push((rtt, now));
        let ghost window = self.window;
        self.min_rtt_queue.push_back((rtt, now));
        while self.min_rtt_queue.len() > 0
            invariant
                self.window == window,
                MinRttState::fresh_suffix(self.min_rtt_queue@, now, window)
                    == MinRttState::fresh_suffix(pushed, now, window),
            ensures
                self.min_rtt_queue@ == MinRttState::fresh_suffix(pushed, now, window),
            decreases self.min_rtt_queue@.len(),
        {
            let time = self.min_rtt_queue[0].1;
            if now.saturating_duration_since(time).longer_than(self.window) {
                let _ = self.min_rtt_queue.pop_front();
            } else {
                break;
            }
        }
    }

    /// The least round-trip time among the samples; `None` where there are none.
    pub fn get_min_rtt(&self) -> (min: Option<u128>)
        ensures
            min == self@.min_rtt(),
            min is Some <==> self@.samples.len() > 0,
            min matches Some(rtt) ==> MinRttState::is_min(self@.samples, rtt),
    {
        let len = self.min_rtt_queue.len();
        if len == 0 {
            return None;
        }
        let mut min: u128 = self.min_rtt_queue[0].0;
        for i in 1..len
            invariant
                len == self.min_rtt_queue@.len(),
                1 <= i <= len,
                exists|k: int|
                    0 <= k < i && (#[trigger] self.min_rtt_queue@[k]).0 == min,
                forall|k: int| 0 <= k < i ==> min <= (#[trigger] self.min_rtt_queue@[k]).0,
        {
            let rtt = self.min_rtt_queue[i].0;
            if rtt < min {
                min = rtt;
            }
        }
        proof {
            assert(MinRttState::is_min(self@.samples, min));
            min_rtt_is_unique(self@.samples, min, self@.min_rtt()->0);
        }
        Some(min)
    }

    /// Sets the length of the window. The samples stay until the next update.
    pub fn set_window(&mut self, window: Duration)
        ensures
            final(self)@ == (MinRttState { window, ..old(self)@ }),
    {
        self.window = window;
    }
}

/// A set of samples has at most one least round-trip time.
pub proof fn min_rtt_is_unique(samples: Seq<(u128, Instant)>, a: u128, b: u128)
    requires
        MinRttState::is_min(samples, a),
        MinRttState::is_min(samples, b),
    ensures
        a == b,
{
}

/// What is left of the samples is a suffix of them: every sample that went was
/// stale, and the first that stays, if one does, is not.
pub proof fn fresh_suffix_cuts_stale_prefix(
    samples: Seq<(u128, Instant)>,
    now: Instant,
    window: Duration,
)
    ensures
        ({
            let fresh = MinRttState::fresh_suffix(samples, now, window);
            let cut = samples.len() - fresh.len();
            &&& cut >= 0
            &&& fresh == samples.subrange(cut, samples.len() as int)
            &&& forall|i: int|
                0 <= i < cut ==> MinRttState::stale(#[trigger] samples[i], now, window)
            &&& fresh.len() > 0 ==> !MinRttState::stale(fresh[0], now, window)
        }),
    decreases samples.len(),
{
    let fresh = MinRttState::fresh_suffix(samples, now, window);
    if samples.len() > 0 && MinRttState::stale(samples[0], now, window) {
        let rest = samples.subrange(1, samples.len() as int);
        fresh_suffix_cuts_stale_prefix(rest, now, window);
        let cut = samples.len() - fresh.len();
        assert forall|i: int| 0 <= i < cut implies MinRttState::stale(
            #[trigger] samples[i],
            now,
            window,
        ) by {
            if i > 0 {
                assert(rest[i - 1] == samples[i]);
            }
        }
    }
}

/// The sample of an update is in the filter afterwards, as the last one; so there is
/// a least round-trip time, and it is no more than that of the sample.
pub proof fn update_keeps_newest(state: MinRttState, rtt: u128, now: Instant)
    ensures
        state.updated(rtt, now).samples.len() > 0,
        state.updated(rtt, now).samples.last() == (rtt, now),
        state.updated(rtt, now).min_rtt() is Some,
        MinRttState::is_min(
            state.updated(rtt, now).samples,
            state.updated(rtt, now).min_rtt()->0,
        ),
        state.updated(rtt, now).min_rtt()->0 <= rtt,
{
    let pushed = state.samples.push((rtt, now));
    fresh_suffix_cuts_stale_prefix(pushed, now, state.window);
    let after = state.updated(rtt, now).samples;
    if after.len() == 0 {
        assert(MinRttState::stale(pushed[pushed.len() - 1], now, state.window));
    }
    least_exists(after);
    assert(after[after.len() - 1] == (rtt, now));
}

/// Samples have a least round-trip time as soon as there is one.
proof fn least_exists(samples: Seq<(u128, Instant)>)
    requires
        samples.len() > 0,
    ensures
        exists|rtt: u128| MinRttState::is_min(samples, rtt),
    decreases samples.len(),
{
    let last = samples.last().0;
    if samples.len() == 1 {
        assert(samples[0].0 == last);
        assert(MinRttState::is_min(samples, last));
    } else {
        let front = samples.drop_last();
        least_exists(front);
        let least = choose|rtt: u128| MinRttState::is_min(front, rtt);
        let at = choose|i: int| 0 <= i < front.len() && (#[trigger] front[i]).0 == least;
        assert(samples[at].0 == least);
        let rtt = if last < least { last } else { least };
        assert forall|i: int| 0 <= i < samples.len() implies rtt <= (#[trigger] samples[i]).0 by {
            if i < front.len() {
                assert(front[i] == samples[i]);
            }
        }
        assert(samples[samples.len() - 1].0 == last);
        assert(MinRttState::is_min(samples, rtt));
    }
}

/// Where time does not run backwards, an update keeps the samples in order, and what
/// it keeps of them are exactly those that are not older than the window.
pub proof fn update_keeps_exactly_the_fresh(state: MinRttState, rtt: u128, now: Instant)
    requires
        state.in_order(),
        forall|i: int|
            0 <= i < state.samples.len() ==> (#[trigger] state.samples[i]).1.nanos <= now.nanos,
    ensures
        state.updated(rtt, now).in_order(),
        ({
            let pushed = state.samples.push((rtt, now));
            let kept = state.updated(rtt, now).samples;
            let cut = pushed.len() - kept.len();
            &&& cut >= 0
            &&& kept == pushed.subrange(cut, pushed.len() as int)
            &&& forall|i: int|
                0 <= i < pushed.len() ==> (i >= cut <==> !MinRttState::stale(
                    #[trigger] pushed[i],
                    now,
                    state.window,
                ))
        }),
{
    let pushed = state.samples.push((rtt, now));
    fresh_suffix_cuts_stale_prefix(pushed, now, state.window);
    let kept = state.updated(rtt, now).samples;
    let cut = pushed.len() - kept.len();
    assert forall|i: int, j: int| 0 <= i <= j < pushed.len() implies (
    #[trigger] pushed[i]).1.nanos <= (#[trigger] pushed[j]).1.nanos by {
        if j < state.samples.len() {
            assert(pushed[i] == state.samples[i]);
            assert(pushed[j] == state.samples[j]);
        } else if i < state.samples.len() {
            assert(pushed[i] == state.samples[i]);
        }
    }
    assert forall|i: int| 0 <= i < pushed.len() implies (i >= cut <==> !MinRttState::stale(
        #[trigger] pushed[i],
        now,
        state.window,
    )) by {
        if i >= cut {
            assert(kept[0] == pushed[cut]);
            assert(pushed[cut].1.nanos <= pushed[i].1.nanos);
        }
    }
    assert forall|i: int, j: int| 0 <= i <= j < kept.len() implies (
    #[trigger] kept[i]).1.nanos <= (#[trigger] kept[j]).1.nanos by {
        assert(kept[i] == pushed[cut + i]);
        assert(kept[j] == pushed[cut + j]);
    }
}

/// An update puts its sample last and takes samples away at the front alone: those in front of
/// the first one that is not older than the window. The window stays.
pub proof fn update_drops_the_old_in_front(filter: &mut MinRttFilter, rtt: u128, now: Instant)
    requires
        call_ensures(MinRttFilter::update, (filter, rtt, now), ()),
    ensures
        ({
            let all = old(filter)@.samples + seq![(rtt, now)];
            let kept = final(filter)@.samples;
            let cut = all.len() - kept.len();
            let window = old(filter)@.window.nanos;
            &&& final(filter)@.window == old(filter)@.window
            &&& kept.len() > 0
            &&& kept.last() == (rtt, now)
            &&& cut >= 0
            &&& kept == all.subrange(cut, all.len() as int)
            &&& forall|i: int| 0 <= i < cut ==> now.nanos - (#[trigger] all[i]).1.nanos > window
            &&& now.nanos - kept[0].1.nanos <= window
        }),
{
    let pushed = old(filter)@.samples.push((rtt, now));
    let window = old(filter)@.window;
    update_keeps_newest(old(filter)@, rtt, now);
    fresh_suffix_cuts_stale_prefix(pushed, now, window);
    let all = old(filter)@.samples + seq![(rtt, now)];
    assert(all =~= pushed);
    let cut = all.len() - final(filter)@.samples.len();
    assert forall|i: int| 0 <= i < cut implies now.nanos - (#[trigger] all[i]).1.nanos
        > window.nanos by {
        assert(MinRttState::stale(pushed[i], now, window));
    }
}

/// Where time does not run backwards, an update leaves exactly the samples, its own among them,
/// that are not older than the window.
pub proof fn update_leaves_the_window(filter: &mut MinRttFilter, rtt: u128, now: Instant)
    requires
        call_ensures(MinRttFilter::update, (filter, rtt, now), ()),
        old(filter)@.in_order(),
        forall|i: int|
            0 <= i < old(filter)@.samples.len() ==> (#[trigger] old(filter)@.samples[i]).1.nanos
                <= now.nanos,
    ensures
        ({
            let all = old(filter)@.samples + seq![(rtt, now)];
            let kept = final(filter)@.samples;
            let cut = all.len() - kept.len();
            &&& cut >= 0
            &&& kept == all.subrange(cut, all.len() as int)
            &&& forall|i: int|
                0 <= i < all.len() ==> (i >= cut <==> now.nanos - (#[trigger] all[i]).1.nanos
                    <= old(filter)@.window.nanos)
        }),
{
    let pushed = old(filter)@.samples.push((rtt, now));
    update_keeps_exactly_the_fresh(old(filter)@, rtt, now);
    let all = old(filter)@.samples + seq![(rtt, now)];
    assert(all =~= pushed);
}

/// The least round-trip time is that of one of the samples, and no more than that of any; there
/// is one exactly where there are samples.
pub proof fn least_is_among_the_samples(filter: MinRttFilter, min: Option<u128>)
    requires
        call_ensures(MinRttFilter::get_min_rtt, (&filter,), min),
    ensures
        min is None <==> filter@.samples.len() == 0,
        min matches Some(rtt) ==> {
            &&& exists|i: int|
                0 <= i < filter@.samples.len() && (#[trigger] filter@.samples[i]).0 == rtt
            &&& forall|i: int|
                0 <= i < filter@.samples.len() ==> rtt <= (#[trigger] filter@.samples[i]).0
        },
{
}

/// A new filter has no samples. Setting the window sets it to what is asked and leaves the
/// samples, so that the least round-trip time stays what it was.
pub proof fn window_leaves_the_samples(
    fresh: MinRttFilter,
    none: Option<u128>,
    filter: &mut MinRttFilter,
    window: Duration,
    before: Option<u128>,
    after: Option<u128>,
)
    requires
        call_ensures(MinRttFilter::new, (), fresh),
        call_ensures(MinRttFilter::get_min_rtt, (&fresh,), none),
        call_ensures(MinRttFilter::get_min_rtt, (old(filter),), before),
        call_ensures(MinRttFilter::set_window, (filter, window), ()),
        call_ensures(MinRttFilter::get_min_rtt, (final(filter),), after),
    ensures
        none is None,
        fresh@.window.nanos == 1_000_000_000,
        final(filter)@.window == window,
        final(filter)@.samples == old(filter)@.samples,
        after == before,
{
}

} // verus!
