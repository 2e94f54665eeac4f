//! What an `SQP` controller makes of acknowledgements and estimates over a history of events:
//! what it holds of them is told by the events themselves.

use vstd::prelude::*;

use super::history::SqpEvent;
use super::min_rtt::MinRttState;
use super::sqp::{SQPConfig, SqpState};
use super::types::{RttEstimator, SentPacket};
use crate::time::{Duration, Instant};

verus! {

/// A packet that was acknowledged, and when.
pub struct FrameAck {
    pub packet: SentPacket,
    pub time: Instant,
}

/// The sum of the sizes of the acknowledged packets.
pub open spec fn acked_sum(acks: Seq<FrameAck>) -> nat
    decreases acks.len(),
{
    if acks.len() == 0 {
        0
    } else {
        acked_sum(acks.drop_last()) + acks.last().packet.sent_size as nat
    }
}

/// The acknowledgements `acks` of the current frame of a state, and that of `packet` at `now`
/// where the packet counts: a frame is queued, and its first packet was sent, and not after
/// this one.
pub open spec fn acks_with(
    state: SqpState,
    acks: Seq<FrameAck>,
    packet: SentPacket,
    now: Instant,
) -> Seq<FrameAck> {
    if state.frames.len() > 0 && state.first_sent is Some && state.first_sent->0.nanos
        <= packet.time_sent.nanos {
        acks.push(FrameAck { packet, time: now })
    } else {
        acks
    }
}

/// The acknowledgements that count for the current frame: of those that came since it became
/// the current one, those of packets not sent before it began.
pub open spec fn frame_acks(start: SqpState, events: Seq<SqpEvent>) -> Seq<FrameAck>
    decreases events.len(),
{
    if events.len() == 0 {
        Seq::empty()
    } else {
        let front = events.drop_last();
        let before = frame_acks(start, front);
        if start.samples(events).len() > start.samples(front).len() {
            Seq::empty()
        } else {
            match events.last() {
                SqpEvent::Acked(packet, now, _) => acks_with(
                    start.run(front),
                    before,
                    packet,
                    now,
                ),
                _ => before,
            }
        }
    }
}

/// Whether no packet that is acknowledged is empty.
pub open spec fn no_acked_packet_is_empty(events: Seq<SqpEvent>) -> bool {
    forall|i: int|
        #![trigger events[i]]
        0 <= i < events.len() && events[i] is Acked ==> events[i].acked_len() > 0
}

/// The bytes of the current frame that are held as acknowledged are the sizes of the packets
/// that were acknowledged since it became the current one and were not sent before it began,
/// added up to at most `u64::MAX`, whatever else happened in between.
pub proof fn acked_bytes_add_up(config: SQPConfig, events: Seq<SqpEvent>)
    ensures
        ({
            let sum = acked_sum(frame_acks(SqpState::initial(config), events));
            let held = SqpState::initial(config).run(events).acked_bytes;
            held == if sum > u64::MAX {
                u64::MAX as nat
            } else {
                sum
            }
        }),
    decreases events.len(),
{
    let start = SqpState::initial(config);
    if events.len() > 0 {
        let front = events.drop_last();
        acked_bytes_add_up(config, front);
        if let SqpEvent::Acked(packet, now, rtt) = events.last() {
            let acks = frame_acks(start, front);
            let more = acks.push(FrameAck { packet, time: now });
            assert(more.drop_last() =~= acks);
            assert(acked_sum(more) == acked_sum(acks) + packet.sent_size as nat);
        }
    }
}

/// A frame gives its sample at the first acknowledgement at which the packets acknowledged
/// since it became the current one, and not sent before it began, reach its size in all.
pub proof fn sample_comes_when_the_acks_reach_the_size(
    config: SQPConfig,
    events: Seq<SqpEvent>,
    packet: SentPacket,
    now: Instant,
    rtt: RttEstimator,
)
    ensures
        ({
            let start = SqpState::initial(config);
            let state = start.run(events);
            let acks = acks_with(state, frame_acks(start, events), packet, now);
            state.sample(packet, now, rtt) is Some <==> state.frames.len() > 0 && acked_sum(acks)
                >= state.frames[0]
        }),
{
    let start = SqpState::initial(config);
    acked_bytes_add_up(config, events);
    let acks = frame_acks(start, events);
    let more = acks.push(FrameAck { packet, time: now });
    assert(more.drop_last() =~= acks);
    assert(acked_sum(more) == acked_sum(acks) + packet.sent_size as nat);
}

/// Where no acknowledged packet is empty, the first acknowledgement time held of the current
/// frame is that of the earliest acknowledgement that counts for it; there is none before.
pub proof fn first_ack_is_the_earliest(config: SQPConfig, events: Seq<SqpEvent>)
    requires
        no_acked_packet_is_empty(events),
    ensures
        ({
            let start = SqpState::initial(config);
            let acks = frame_acks(start, events);
            start.run(events).first_acked == if acks.len() > 0 {
                Some(acks[0].time)
            } else {
                None
            }
        }),
    decreases events.len(),
{
    let start = SqpState::initial(config);
    if events.len() > 0 {
        let front = events.drop_last();
        assert(no_acked_packet_is_empty(front)) by {
            assert forall|i: int| #![trigger front[i]] 0 <= i < front.len()
                && front[i] is Acked implies front[i].acked_len() > 0 by {
                assert(front[i] == events[i]);
            }
        }
        first_ack_is_the_earliest(config, front);
        acked_bytes_add_up(config, front);
        acks_have_bytes(config, front);
        assert(events[events.len() - 1] is Acked ==> events[events.len() - 1].acked_len() > 0);
    }
}

/// Acknowledgements of packets that are not empty have bytes.
proof fn acks_have_bytes(config: SQPConfig, events: Seq<SqpEvent>)
    requires
        no_acked_packet_is_empty(events),
    ensures
        ({
            let acks = frame_acks(SqpState::initial(config), events);
            acks.len() > 0 ==> acked_sum(acks) > 0
        }),
    decreases events.len(),
{
    let start = SqpState::initial(config);
    if events.len() > 0 {
        let front = events.drop_last();
        assert(no_acked_packet_is_empty(front)) by {
            assert forall|i: int| #![trigger front[i]] 0 <= i < front.len()
                && front[i] is Acked implies front[i].acked_len() > 0 by {
                assert(front[i] == events[i]);
            }
        }
        acks_have_bytes(config, front);
        assert(events[events.len() - 1] is Acked ==> events[events.len() - 1].acked_len() > 0);
        if let SqpEvent::Acked(packet, now, rtt) = events.last() {
            let acks = frame_acks(start, front);
            let more = acks.push(FrameAck { packet, time: now });
            assert(more.drop_last() =~= acks);
            assert(acked_sum(more) == acked_sum(acks) + packet.sent_size as nat);
        }
    }
}

/// Where no acknowledged packet is empty, the sample of a frame gives the time from the earliest
/// acknowledgement that counts for the frame to the one that completes it.
pub proof fn ack_span_starts_at_the_earliest_ack(
    config: SQPConfig,
    events: Seq<SqpEvent>,
    packet: SentPacket,
    now: Instant,
    rtt: RttEstimator,
)
    requires
        SqpState::initial(config).all_ready(events),
        no_acked_packet_is_empty(events),
        packet.sent_size > 0,
        SqpState::initial(config).run(events).ack_ready(packet, rtt),
    ensures
        ({
            let start = SqpState::initial(config);
            let state = start.run(events);
            let acks = acks_with(state, frame_acks(start, events), packet, now);
            state.sample(packet, now, rtt) matches Some(sample) ==> {
                &&& acks.len() > 0
                &&& now.nanos >= acks[0].time.nanos ==> sample.since_first_acked == now.nanos
                    - acks[0].time.nanos
                &&& now.nanos < acks[0].time.nanos ==> sample.since_first_acked == 0
            }
        }),
{
    let start = SqpState::initial(config);
    first_ack_is_the_earliest(config, events);
    acked_bytes_add_up(config, events);
    acks_have_bytes(config, events);
    super::history::histories_are_well_formed(config, events);
}

/// Once a frame has a first acknowledgement time, no event changes it until the frame leaves the
/// queue, where no acknowledged packet is empty.
pub proof fn first_ack_stays_until_the_frame_leaves(
    config: SQPConfig,
    events: Seq<SqpEvent>,
    event: SqpEvent,
)
    requires
        no_acked_packet_is_empty(events),
        SqpState::initial(config).run(events).first_acked is Some,
        SqpState::initial(config).samples(events.push(event)).len() == SqpState::initial(
            config,
        ).samples(events).len(),
    ensures
        SqpState::initial(config).run(events.push(event)).first_acked == SqpState::initial(
            config,
        ).run(events).first_acked,
{
    let start = SqpState::initial(config);
    assert(events.push(event).drop_last() =~= events);
    first_ack_is_the_earliest(config, events);
    acked_bytes_add_up(config, events);
    acks_have_bytes(config, events);
}

/// When the acknowledgements came to their first bytes: the time of the first one that has any,
/// or of the last one where none has.
pub open spec fn first_bytes(acks: Seq<FrameAck>) -> Option<Instant>
    decreases acks.len(),
{
    if acks.len() == 0 {
        None
    } else if acked_sum(acks.drop_last()) == 0 {
        Some(acks.last().time)
    } else {
        first_bytes(acks.drop_last())
    }
}

/// The first acknowledgement time held of the current frame, empty packets or not, is that at
/// which the acknowledgements that count for it came to their first bytes.
pub proof fn first_ack_is_of_the_first_bytes(config: SQPConfig, events: Seq<SqpEvent>)
    ensures
        SqpState::initial(config).run(events).first_acked == first_bytes(
            frame_acks(SqpState::initial(config), events),
        ),
    decreases events.len(),
{
    let start = SqpState::initial(config);
    if events.len() > 0 {
        let front = events.drop_last();
        first_ack_is_of_the_first_bytes(config, front);
        acked_bytes_add_up(config, front);
        if let SqpEvent::Acked(packet, now, rtt) = events.last() {
            let acks = frame_acks(start, front);
            assert(acks.push(FrameAck { packet, time: now }).drop_last() =~= acks);
        }
    }
}

/// The sample of a frame gives the time from when the acknowledgements that count for it came to
/// their first bytes, the one that completes it among them.
pub proof fn ack_span_starts_with_the_first_bytes(
    config: SQPConfig,
    events: Seq<SqpEvent>,
    packet: SentPacket,
    now: Instant,
    rtt: RttEstimator,
)
    requires
        SqpState::initial(config).all_ready(events),
        SqpState::initial(config).run(events).ack_ready(packet, rtt),
    ensures
        ({
            let start = SqpState::initial(config);
            let state = start.run(events);
            let first = first_bytes(acks_with(state, frame_acks(start, events), packet, now));
            state.sample(packet, now, rtt) matches Some(sample) ==> {
                &&& first is Some
                &&& now.nanos >= first->0.nanos ==> sample.since_first_acked == now.nanos
                    - first->0.nanos
                &&& now.nanos < first->0.nanos ==> sample.since_first_acked == 0
            }
        }),
{
    let start = SqpState::initial(config);
    first_ack_is_of_the_first_bytes(config, events);
    acked_bytes_add_up(config, events);
    super::history::histories_are_well_formed(config, events);
    let acks = frame_acks(start, events);
    assert(acks.push(FrameAck { packet, time: now }).drop_last() =~= acks);
}

/// When the last acknowledgement came.
pub open spec fn last_ack(events: Seq<SqpEvent>) -> Option<Instant>
    decreases events.len(),
{
    if events.len() == 0 {
        None
    } else {
        match events.last() {
            SqpEvent::Acked(_, now, _) => Some(now),
            _ => last_ack(events.drop_last()),
        }
    }
}

/// The controller holds the time of the last acknowledgement.
pub proof fn last_ack_is_held(config: SQPConfig, events: Seq<SqpEvent>)
    ensures
        SqpState::initial(config).run(events).last_acked == last_ack(events),
    decreases events.len(),
{
    if events.len() > 0 {
        last_ack_is_held(config, events.drop_last());
    }
}

/// The last estimate other than zero that was handed in, and the rate that came with it.
pub open spec fn last_estimate(events: Seq<SqpEvent>) -> Option<(u64, u64)>
    decreases events.len(),
{
    if events.len() == 0 {
        None
    } else {
        match events.last() {
            SqpEvent::Estimate(estimate, rate) if estimate != 0 => Some((estimate, rate)),
            _ => last_estimate(events.drop_last()),
        }
    }
}

/// The bandwidth estimate and the pacing rate are those of the last estimate other than zero,
/// whatever they were before. Until there is one, the rate is the initial one and the estimate
/// half of it, rounded down.
pub proof fn last_estimate_counts(config: SQPConfig, events: Seq<SqpEvent>)
    ensures
        ({
            let state = SqpState::initial(config).run(events);
            match last_estimate(events) {
                Some((estimate, rate)) => state.bandwidth_estimate == estimate
                    && state.pacing_rate == rate,
                None => {
                    &&& state.pacing_rate == config.init_pacing_rate
                    &&& state.bandwidth_estimate * 2 <= config.init_pacing_rate
                        <= state.bandwidth_estimate * 2 + 1
                },
            }
        }),
    decreases events.len(),
{
    if events.len() > 0 {
        last_estimate_counts(config, events.drop_last());
    }
}

/// The bytes in flight as the events tell them: a sending or a loss says how many there are, and
/// an acknowledgement takes the size of its packet off, down to zero.
pub open spec fn in_flight(events: Seq<SqpEvent>) -> int
    decreases events.len(),
{
    if events.len() == 0 {
        0
    } else {
        let before = in_flight(events.drop_last());
        match events.last() {
            SqpEvent::Sent(_, reported) => reported as int,
            SqpEvent::Lost(_, reported) => reported as int,
            SqpEvent::Acked(packet, _, _) => if packet.sent_size <= before {
                before - packet.sent_size
            } else {
                0
            },
            SqpEvent::Frame(_) | SqpEvent::Estimate(_, _) => before,
        }
    }
}

/// The counters hold the bytes in flight as the events tell them, and nothing in slow start.
pub proof fn bytes_in_flight_follow_the_events(config: SQPConfig, events: Seq<SqpEvent>)
    ensures
        ({
            let stats = SqpState::initial(config).run(events).stats;
            &&& stats.bytes_in_flight == in_flight(events)
            &&& stats.bytes_acked_in_slow_start == 0
            &&& stats.bytes_lost_in_slow_start == 0
        }),
    decreases events.len(),
{
    if events.len() > 0 {
        bytes_in_flight_follow_the_events(config, events.drop_last());
    }
}

/// An acknowledgement leaves the window of the round-trip filter at twice the smoothed
/// round-trip time that it came with; no other event changes the filter.
pub proof fn window_is_twice_the_smoothed_round_trip(state: SqpState, event: SqpEvent)
    requires
        state.ready(event),
    ensures
        event matches SqpEvent::Acked(_, _, rtt) ==> state.step(event).min_rtt.window.nanos
            == rtt.smoothed.nanos + rtt.smoothed.nanos,
        !(event is Acked) ==> state.step(event).min_rtt == state.min_rtt,
{
}

/// An acknowledgement puts its latest round-trip time last into the filter, and takes those away
/// in front of the first that is not older than twice the smoothed round-trip time. A sample
/// gives the least of what is then in the filter.
pub proof fn acknowledgement_drops_the_old_in_front(
    state: SqpState,
    packet: SentPacket,
    now: Instant,
    rtt: RttEstimator,
)
    requires
        state.ack_ready(packet, rtt),
    ensures
        ({
            let all = state.min_rtt.samples + seq![(rtt.latest.nanos, now)];
            let kept = state.step(SqpEvent::Acked(packet, now, rtt)).min_rtt.samples;
            let cut = all.len() - kept.len();
            &&& 0 <= cut < all.len()
            &&& kept == all.subrange(cut, all.len() as int)
            &&& forall|i: int|
                0 <= i < cut ==> now.nanos - (#[trigger] all[i]).1.nanos > 2 * rtt.smoothed.nanos
            &&& now.nanos - all[cut].1.nanos <= 2 * rtt.smoothed.nanos
            &&& state.sample(packet, now, rtt) matches Some(sample) ==> {
                &&& exists|i: int|
                    cut <= i < all.len() && (#[trigger] all[i]).0 == sample.min_rtt
                &&& forall|i: int|
                    cut <= i < all.len() ==> sample.min_rtt <= (#[trigger] all[i]).0
            }
        }),
{
    let window = Duration { nanos: (rtt.smoothed.nanos * 2) as u128 };
    let widened = MinRttState { samples: state.min_rtt.samples, window };
    let pushed = widened.samples.push((rtt.latest.nanos, now));
    super::min_rtt::update_keeps_newest(widened, rtt.latest.nanos, now);
    super::min_rtt::fresh_suffix_cuts_stale_prefix(pushed, now, window);
    let all = state.min_rtt.samples + seq![(rtt.latest.nanos, now)];
    assert(all =~= pushed);
    let kept = state.step(SqpEvent::Acked(packet, now, rtt)).min_rtt.samples;
    let cut = all.len() - kept.len();
    assert(kept[0] == all[cut]);
    assert forall|i: int| 0 <= i < cut implies now.nanos - (#[trigger] all[i]).1.nanos > 2
        * rtt.smoothed.nanos by {
        assert(MinRttState::stale(pushed[i], now, window));
    }
    if let Some(sample) = state.sample(packet, now, rtt) {
        let k = choose|k: int| 0 <= k < kept.len() && (#[trigger] kept[k]).0 == sample.min_rtt;
        assert(kept[k] == all[cut + k]);
        assert forall|i: int| cut <= i < all.len() implies sample.min_rtt <= (
        #[trigger] all[i]).0 by {
            assert(kept[i - cut] == all[i]);
        }
    }
}

/// The latest round-trip times that came with the acknowledgements, each with when it came, in
/// order.
pub open spec fn round_trips(events: Seq<SqpEvent>) -> Seq<(u128, Instant)>
    decreases events.len(),
{
    if events.len() == 0 {
        Seq::empty()
    } else {
        match events.last() {
            SqpEvent::Acked(_, now, rtt) => round_trips(events.drop_last()).push(
                (rtt.latest.nanos, now),
            ),
            _ => round_trips(events.drop_last()),
        }
    }
}

/// Whether every acknowledgement came with the same smoothed round-trip time.
pub open spec fn smoothed_is(events: Seq<SqpEvent>, smoothed: Duration) -> bool {
    forall|i: int|
        #![trigger events[i]]
        0 <= i < events.len() ==> (events[i] matches SqpEvent::Acked(_, _, rtt) ==> rtt.smoothed
            == smoothed)
}

/// Where acknowledgements come in the order of time and the smoothed round-trip time stays the
/// same, the filter holds the round-trip times of exactly those acknowledgements that came no
/// more than two smoothed round-trip times before the last one, in order.
pub proof fn filter_holds_the_last_two_round_trips(
    config: SQPConfig,
    events: Seq<SqpEvent>,
    smoothed: Duration,
)
    requires
        SqpState::initial(config).all_ready(events),
        SqpState::initial(config).acks_in_time(events),
        smoothed_is(events, smoothed),
    ensures
        ({
            let all = round_trips(events);
            let held = SqpState::initial(config).run(events).min_rtt.samples;
            let cut = all.len() - held.len();
            &&& last_ack(events) is None <==> all.len() == 0
            &&& cut >= 0
            &&& held == all.subrange(cut, all.len() as int)
            &&& forall|i: int|
                #![trigger all[i]]
                0 <= i < all.len() ==> {
                    &&& all[i].1.nanos <= last_ack(events)->0.nanos
                    &&& i >= cut <==> last_ack(events)->0.nanos - all[i].1.nanos <= 2
                        * smoothed.nanos
                }
        }),
    decreases events.len(),
{
    let start = SqpState::initial(config);
    let all = round_trips(events);
    let held = start.run(events).min_rtt.samples;
    if events.len() == 0 {
        assert(held =~= all.subrange(0, 0));
    } else {
        let front = events.drop_last();
        assert(smoothed_is(front, smoothed)) by {
            assert forall|i: int| #![trigger front[i]] 0 <= i < front.len() implies (
            front[i] matches SqpEvent::Acked(_, _, rtt) ==> rtt.smoothed == smoothed) by {
                assert(front[i] == events[i]);
            }
        }
        filter_holds_the_last_two_round_trips(config, front, smoothed);
        super::history::filter_holds_only_fresh_samples(config, front);
        last_ack_is_held(config, front);
        assert(events[events.len() - 1] == events.last());
        if let SqpEvent::Acked(packet, now, rtt) = events.last() {
            let before = start.run(front);
            let earlier = round_trips(front);
            let first = earlier.len() - before.min_rtt.samples.len();
            let pushed = before.min_rtt.samples.push((rtt.latest.nanos, now));
            assert(pushed =~= all.subrange(first, all.len() as int));
            let widened = MinRttState {
                samples: before.min_rtt.samples,
                window: Duration { nanos: (rtt.smoothed.nanos * 2) as u128 },
            };
            assert(widened.in_order()) by {
                assert(before.min_rtt.in_order());
            }
            assert forall|i: int| 0 <= i < widened.samples.len() implies (
            #[trigger] widened.samples[i]).1.nanos <= now.nanos by {
                assert(before.min_rtt.samples[i].1.nanos <= before.last_acked->0.nanos);
            }
            super::min_rtt::update_keeps_exactly_the_fresh(widened, rtt.latest.nanos, now);
            let dropped = pushed.len() - held.len();
            let cut = all.len() - held.len();
            assert(cut == first + dropped);
            assert(held =~= all.subrange(cut, all.len() as int));
            assert forall|i: int| #![trigger all[i]] 0 <= i < all.len() implies {
                &&& all[i].1.nanos <= now.nanos
                &&& i >= cut <==> now.nanos - all[i].1.nanos <= 2 * smoothed.nanos
            } by {
                if i < earlier.len() {
                    assert(all[i] == earlier[i]);
                }
                if i >= first {
                    assert(pushed[i - first] == all[i]);
                }
            }
        }
    }
}

/// Where acknowledgements come in the order of time and the smoothed round-trip time stays the
/// same, the round-trip time of a sample is the least of those of the acknowledgements of the
/// last two smoothed round-trip times, the one that gives the sample among them.
pub proof fn sample_has_the_least_recent_round_trip(
    config: SQPConfig,
    events: Seq<SqpEvent>,
    packet: SentPacket,
    now: Instant,
    rtt: RttEstimator,
)
    requires
        SqpState::initial(config).all_ready(events.push(SqpEvent::Acked(packet, now, rtt))),
        SqpState::initial(config).acks_in_time(events.push(SqpEvent::Acked(packet, now, rtt))),
        smoothed_is(events.push(SqpEvent::Acked(packet, now, rtt)), rtt.smoothed),
    ensures
        ({
            let all = round_trips(events).push((rtt.latest.nanos, now));
            let recent = |i: int|
                0 <= i < all.len() && now.nanos - all[i].1.nanos <= 2 * rtt.smoothed.nanos;
            SqpState::initial(config).run(events).sample(packet, now, rtt) matches Some(sample) ==> {
                &&& exists|i: int| recent(i) && (#[trigger] all[i]).0 == sample.min_rtt
                &&& forall|i: int| recent(i) ==> sample.min_rtt <= (#[trigger] all[i]).0
            }
        }),
{
    let start = SqpState::initial(config);
    let event = SqpEvent::Acked(packet, now, rtt);
    let longer = events.push(event);
    assert(longer.drop_last() =~= events);
    filter_holds_the_last_two_round_trips(config, longer, rtt.smoothed);
    let all = round_trips(events).push((rtt.latest.nanos, now));
    assert(round_trips(longer) == all);
    let state = start.run(events);
    let widened = MinRttState {
        samples: state.min_rtt.samples,
        window: Duration { nanos: (rtt.smoothed.nanos * 2) as u128 },
    };
    super::min_rtt::update_keeps_newest(widened, rtt.latest.nanos, now);
    let held = start.run(longer).min_rtt.samples;
    let cut = all.len() - held.len();
    if let Some(sample) = state.sample(packet, now, rtt) {
        assert(MinRttState::is_min(held, sample.min_rtt));
        let k = choose|k: int| 0 <= k < held.len() && (#[trigger] held[k]).0 == sample.min_rtt;
        assert(held[k] == all[cut + k]);
        assert forall|i: int|
            0 <= i < all.len() && now.nanos - all[i].1.nanos <= 2
                * rtt.smoothed.nanos implies sample.min_rtt <= (#[trigger] all[i]).0 by {
            assert(held[i - cut] == all[i]);
        }
    }
}

/// A sample repeats the settings that the controller was built with, and the bandwidth estimate
/// of the last estimate other than zero where there is one.
pub proof fn sample_repeats_settings_and_estimate(
    config: SQPConfig,
    events: Seq<SqpEvent>,
    packet: SentPacket,
    now: Instant,
    rtt: RttEstimator,
)
    ensures
        SqpState::initial(config).run(events).sample(packet, now, rtt) matches Some(sample) ==> {
            &&& sample.config == config
            &&& sample.bandwidth_estimate == SqpState::initial(config).run(
                events,
            ).bandwidth_estimate
            &&& last_estimate(events) matches Some((estimate, _)) ==> sample.bandwidth_estimate
                == estimate
        },
{
    super::history::settings_never_change(config, events);
    last_estimate_counts(config, events);
}

/// Whether a packet was sent while the current frame was queued in front.
pub open spec fn taken_up(start: SqpState, events: Seq<SqpEvent>) -> bool
    decreases events.len(),
{
    if events.len() == 0 {
        false
    } else {
        let front = events.drop_last();
        if start.samples(events).len() > start.samples(front).len() {
            false
        } else {
            match events.last() {
                SqpEvent::Sent(_, _) => start.run(front).frames.len() > 0,
                _ => taken_up(start, front),
            }
        }
    }
}

/// The controller holds when the current frame began exactly once a packet is sent while the
/// frame is in front; acknowledgements before that do not count for it.
pub proof fn frame_is_taken_up_by_the_next_packet(config: SQPConfig, events: Seq<SqpEvent>)
    requires
        SqpState::initial(config).all_ready(events),
    ensures
        SqpState::initial(config).run(events).first_sent is Some <==> taken_up(
            SqpState::initial(config),
            events,
        ),
    decreases events.len(),
{
    if events.len() > 0 {
        frame_is_taken_up_by_the_next_packet(config, events.drop_last());
        super::history::histories_are_well_formed(config, events.drop_last());
    }
}

/// The bytes that the events sent of the `j`-th frame announced: of each packet, those beyond
/// what was then unsent of the frames in front of it, as far as the frame goes.
pub open spec fn sent_of(start: SqpState, events: Seq<SqpEvent>, j: int) -> int
    decreases events.len(),
{
    if events.len() == 0 {
        0
    } else {
        let front = events.drop_last();
        let before = start.run(front);
        let i = j - start.samples(front).len();
        sent_of(start, front, j) + match events.last() {
            SqpEvent::Sent(packet, _) => if 0 <= i < before.frames.len() {
                before.taken(packet.sent_size as int, i)
            } else {
                0
            },
            _ => 0,
        }
    }
}

/// What is unsent of a queued frame is its size less what was sent of it, whatever frames left
/// the queue in between.
pub proof fn frame_bytes_add_up(config: SQPConfig, events: Seq<SqpEvent>)
    requires
        SqpState::initial(config).all_ready(events),
    ensures
        ({
            let start = SqpState::initial(config);
            let state = start.run(events);
            let left = start.samples(events).len();
            &&& forall|i: int|
                #![trigger state.unsent(i)]
                0 <= i < state.frames.len() ==> state.unsent(i) == state.frames[i] - sent_of(
                    start,
                    events,
                    left + i,
                )
            &&& forall|j: int|
                #![trigger sent_of(start, events, j)]
                j >= left + state.frames.len() ==> sent_of(start, events, j) == 0
        }),
    decreases events.len(),
{
    let start = SqpState::initial(config);
    let state = start.run(events);
    let left = start.samples(events).len();
    if events.len() > 0 {
        let front = events.drop_last();
        frame_bytes_add_up(config, front);
        super::history::histories_are_well_formed(config, front);
        let before = start.run(front);
        let gone = start.samples(front).len();
        assert forall|i: int| #![trigger state.unsent(i)] 0 <= i
            < state.frames.len() implies state.unsent(i) == state.frames[i] - sent_of(
            start,
            events,
            left + i,
        ) by {
            match events.last() {
                SqpEvent::Sent(packet, bytes_in_flight) => {
                    super::frame_starts::packet_begins_the_frames_it_reaches(
                        before,
                        packet,
                        bytes_in_flight,
                    );
                    assert(before.unsent(i) == before.frames[i] - sent_of(start, front, gone + i));
                },
                SqpEvent::Acked(packet, now, rtt) => {
                    if before.completes_frame(packet) {
                        assert(before.first_sent is Some);
                        assert(before.unsent(i + 1) == before.frames[i + 1] - sent_of(
                            start,
                            front,
                            gone + i + 1,
                        ));
                    } else {
                        assert(before.unsent(i) == before.frames[i] - sent_of(
                            start,
                            front,
                            gone + i,
                        ));
                    }
                },
                _ => {
                    if i < before.frames.len() {
                        assert(before.unsent(i) == before.frames[i] - sent_of(
                            start,
                            front,
                            gone + i,
                        ));
                    } else {
                        assert(sent_of(start, front, gone + i) == 0);
                    }
                },
            }
        }
        assert forall|j: int| #![trigger sent_of(start, events, j)] j >= left
            + state.frames.len() implies sent_of(start, events, j) == 0 by {
            assert(sent_of(start, front, j) == 0);
        }
    }
}

} // verus!
