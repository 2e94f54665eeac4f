//! What holds of an `SQP` controller over any history of events.

use vstd::prelude::*;

use super::controller::ControllerModel;
use super::min_rtt::MinRttState;
use super::sqp::{BandwidthSample, SQPConfig, SqpState, SQP};
use super::types::{RttEstimator, SentPacket};
use crate::time::{Duration, Instant};

verus! {

/// Something that happens to an `SQP` controller.
pub enum SqpEvent {
    /// A packet is sent; with the bytes then in flight.
    Sent(SentPacket, u64),
    /// A packet is acknowledged.
    Acked(SentPacket, Instant, RttEstimator),
    /// Bytes are lost; with the bytes then in flight.
    Lost(u64, u64),
    /// A frame is announced.
    Frame(usize),
    /// A bandwidth estimate and a pacing rate are computed.
    Estimate(u64, u64),
}

impl SqpEvent {
    /// The bytes that the event sends.
    pub open spec fn sent_len(self) -> nat {
        match self {
            SqpEvent::Sent(packet, _) => packet.sent_size as nat,
            _ => 0,
        }
    }

    /// The bytes that the event acknowledges.
    pub open spec fn acked_len(self) -> nat {
        match self {
            SqpEvent::Acked(packet, _, _) => packet.sent_size as nat,
            _ => 0,
        }
    }

    /// The bytes that the event loses.
    pub open spec fn lost_len(self) -> nat {
        match self {
            SqpEvent::Lost(lost_bytes, _) => lost_bytes as nat,
            _ => 0,
        }
    }

    /// Whether an acknowledgement does not come before the packet was sent.
    pub open spec fn causal(self) -> bool {
        match self {
            SqpEvent::Acked(packet, now, _) => packet.time_sent.nanos <= now.nanos,
            _ => true,
        }
    }
}

impl SqpState {
    /// The state once the event has happened.
    pub open spec fn step(self, event: SqpEvent) -> SqpState {
        match event {
            SqpEvent::Sent(packet, bytes_in_flight) => self.after_sent(packet, bytes_in_flight),
            SqpEvent::Acked(packet, now, rtt) => self.after_ack(packet, now, rtt),
            SqpEvent::Lost(lost_bytes, bytes_in_flight) => self.after_loss(
                lost_bytes,
                bytes_in_flight,
            ),
            SqpEvent::Frame(size) => self.after_frame(size),
            SqpEvent::Estimate(estimate, rate) => self.after_estimate(estimate, rate),
        }
    }

    /// The state once the events have happened, in order.
    pub open spec fn run(self, events: Seq<SqpEvent>) -> SqpState
        decreases events.len(),
    {
        if events.len() == 0 {
            self
        } else {
            self.run(events.drop_last()).step(events.last())
        }
    }

    /// Whether the event can be taken: an acknowledgement for which the controller is
    /// ready, or any other event.
    pub open spec fn ready(self, event: SqpEvent) -> bool {
        match event {
            SqpEvent::Acked(packet, _, rtt) => self.ack_ready(packet, rtt),
            _ => true,
        }
    }

    /// Whether each of the events can be taken when it comes.
    pub open spec fn all_ready(self, events: Seq<SqpEvent>) -> bool
        decreases events.len(),
    {
        events.len() > 0 ==> self.all_ready(events.drop_last()) && self.run(
            events.drop_last(),
        ).ready(events.last())
    }

    /// Whether no acknowledgement comes before the one that came last.
    pub open spec fn acks_in_time(self, events: Seq<SqpEvent>) -> bool
        decreases events.len(),
    {
        events.len() > 0 ==> {
            &&& self.acks_in_time(events.drop_last())
            &&& events.last() matches SqpEvent::Acked(_, now, _) ==> (self.run(
                events.drop_last(),
            ).last_acked matches Some(last) ==> last.nanos <= now.nanos)
        }
    }

    /// The samples that the events give, in order.
    pub open spec fn samples(self, events: Seq<SqpEvent>) -> Seq<BandwidthSample>
        decreases events.len(),
    {
        if events.len() == 0 {
            Seq::empty()
        } else {
            let before = self.samples(events.drop_last());
            match events.last() {
                SqpEvent::Acked(packet, now, rtt) => match self.run(events.drop_last()).sample(
                    packet,
                    now,
                    rtt,
                ) {
                    Some(sample) => before.push(sample),
                    None => before,
                },
                _ => before,
            }
        }
    }
}

/// The sizes of the frames that the events announce, in order.
pub open spec fn announced(events: Seq<SqpEvent>) -> Seq<u64>
    decreases events.len(),
{
    if events.len() == 0 {
        Seq::empty()
    } else {
        let before = announced(events.drop_last());
        match events.last() {
            SqpEvent::Frame(size) => before.push(size as u64),
            _ => before,
        }
    }
}

/// The sum of `len` over the events.
pub open spec fn total(events: Seq<SqpEvent>, len: spec_fn(SqpEvent) -> nat) -> nat
    decreases events.len(),
{
    if events.len() == 0 {
        0
    } else {
        total(events.drop_last(), len) + len(events.last())
    }
}

/// A sum as a counter holds it: at most `u64::MAX`.
pub open spec fn counted(sum: nat) -> u64 {
    if sum > u64::MAX {
        u64::MAX
    } else {
        sum as u64
    }
}

/// Frames are measured in the order in which they were announced, each once: the sizes
/// of the frames that gave a sample, followed by those that are still queued, are the
/// sizes that were announced.
pub proof fn frames_are_measured_in_order(config: SQPConfig, events: Seq<SqpEvent>)
    ensures
        SqpState::initial(config).samples(events).map_values(
            |sample: BandwidthSample| sample.frame_size,
        ) + SqpState::initial(config).run(events).frames == announced(events),
    decreases events.len(),
{
    let start = SqpState::initial(config);
    let size = |sample: BandwidthSample| sample.frame_size;
    if events.len() == 0 {
        assert(start.samples(events).map_values(size) + start.run(events).frames =~= announced(
            events,
        ));
    } else {
        let front = events.drop_last();
        frames_are_measured_in_order(config, front);
        let before = start.run(front);
        let sizes = start.samples(front).map_values(size);
        assert(sizes + before.frames == announced(front));
        match events.last() {
            SqpEvent::Acked(packet, now, rtt) => {
                match before.sample(packet, now, rtt) {
                    Some(sample) => {
                        assert(start.samples(front).push(sample).map_values(size) =~= sizes.push(
                            sample.frame_size,
                        ));
                        assert(sizes.push(before.frames[0]) + before.frames.subrange(
                            1,
                            before.frames.len() as int,
                        ) =~= sizes + before.frames);
                    },
                    None => {},
                }
            },
            SqpEvent::Frame(len) => {
                assert(sizes + before.frames.push(len as u64) =~= (sizes + before.frames).push(
                    len as u64,
                ));
            },
            _ => {},
        }
    }
}

/// The counters hold the bytes that were sent, acknowledged and lost in all, up to the
/// greatest number that they can hold.
pub proof fn counters_add_up(config: SQPConfig, events: Seq<SqpEvent>)
    ensures
        ({
            let stats = SqpState::initial(config).run(events).stats;
            &&& stats.bytes_sent_in_total == counted(total(events, |e: SqpEvent| e.sent_len()))
            &&& stats.bytes_acked_in_total == counted(total(events, |e: SqpEvent| e.acked_len()))
            &&& stats.bytes_lost_in_total == counted(total(events, |e: SqpEvent| e.lost_len()))
        }),
    decreases events.len(),
{
    if events.len() > 0 {
        counters_add_up(config, events.drop_last());
    }
}

/// Every state that a controller gets into is well-formed: no frame is acknowledged
/// beyond its size, none before it began, and nothing is counted in slow start.
pub proof fn histories_are_well_formed(config: SQPConfig, events: Seq<SqpEvent>)
    requires
        SqpState::initial(config).all_ready(events),
    ensures
        SqpState::initial(config).run(events).wf(),
    decreases events.len(),
{
    if events.len() > 0 {
        histories_are_well_formed(config, events.drop_last());
        if let SqpEvent::Sent(packet, bytes_in_flight) = events.last() {
            sending_is_well_formed(
                SqpState::initial(config).run(events.drop_last()),
                packet,
                bytes_in_flight,
            );
        }
    }
}

/// A packet that is sent leaves a well-formed state well-formed.
proof fn sending_is_well_formed(state: SqpState, packet: SentPacket, bytes_in_flight: u64)
    requires
        state.wf(),
    ensures
        state.after_sent(packet, bytes_in_flight).wf(),
{
    let current = state.promoted();
    let begun = if current.next_in_turn() {
        current.with_next_begun(packet.time_sent)
    } else {
        current
    };
    if begun.first_sent is Some {
        super::sqp::pouring_is_well_formed(
            begun.frames,
            begun.early_starts,
            begun.sent_bytes,
            packet.time_sent,
            packet.sent_size as int,
        );
    }
}

/// The bandwidth estimate never falls to zero where the initial pacing rate is at
/// least two bytes per second.
pub proof fn estimate_stays_positive(config: SQPConfig, events: Seq<SqpEvent>)
    requires
        config.init_pacing_rate >= 2,
    ensures
        SqpState::initial(config).run(events).bandwidth_estimate > 0,
    decreases events.len(),
{
    if events.len() > 0 {
        estimate_stays_positive(config, events.drop_last());
    }
}

/// The settings stay what they were at the start.
pub proof fn settings_never_change(config: SQPConfig, events: Seq<SqpEvent>)
    ensures
        SqpState::initial(config).run(events).config == config,
    decreases events.len(),
{
    if events.len() > 0 {
        settings_never_change(config, events.drop_last());
    }
}

/// Where acknowledgements come in the order of time, the round-trip filter holds its
/// samples in that order, none of them taken after the last acknowledgement, and none
/// that is older at the last acknowledgement than the window.
pub proof fn filter_holds_only_fresh_samples(config: SQPConfig, events: Seq<SqpEvent>)
    requires
        SqpState::initial(config).acks_in_time(events),
    ensures
        ({
            let state = SqpState::initial(config).run(events);
            let filter = state.min_rtt;
            &&& filter.in_order()
            &&& filter.samples.len() > 0 <==> state.last_acked is Some
            &&& forall|i: int|
                #![trigger filter.samples[i]]
                0 <= i < filter.samples.len() ==> {
                    &&& filter.samples[i].1.nanos <= state.last_acked->0.nanos
                    &&& !MinRttState::stale(
                        filter.samples[i],
                        state.last_acked->0,
                        filter.window,
                    )
                }
        }),
    decreases events.len(),
{
    let start = SqpState::initial(config);
    if events.len() > 0 {
        let front = events.drop_last();
        filter_holds_only_fresh_samples(config, front);
        if let SqpEvent::Acked(packet, now, rtt) = events.last() {
            let before = start.run(front);
            let widened = MinRttState {
                samples: before.min_rtt.samples,
                window: Duration { nanos: (rtt.smoothed.nanos * 2) as u128 },
            };
            assert(widened.in_order()) by {
                assert(before.min_rtt.in_order());
            }
            assert forall|i: int| 0 <= i < widened.samples.len() implies (
            #[trigger] widened.samples[i]).1.nanos <= now.nanos by {
                assert(before.min_rtt.samples[i].1.nanos <= before.last_acked->0.nanos);
            }
            super::min_rtt::update_keeps_newest(widened, rtt.latest.nanos, now);
            super::min_rtt::update_keeps_exactly_the_fresh(widened, rtt.latest.nanos, now);
            let pushed = widened.samples.push((rtt.latest.nanos, now));
            let kept = start.run(events).min_rtt.samples;
            let cut = pushed.len() - kept.len();
            assert forall|i: int| #![trigger kept[i]] 0 <= i < kept.len() implies {
                &&& kept[i].1.nanos <= now.nanos
                &&& !MinRttState::stale(kept[i], now, widened.window)
            } by {
                assert(kept[i] == pushed[cut + i]);
            }
        }
    }
}

/// The bandwidth estimate and the pacing rate change only when an estimate is
/// computed.
pub proof fn only_estimates_change_the_pace(state: SqpState, event: SqpEvent)
    requires
        !(event is Estimate),
    ensures
        state.step(event).bandwidth_estimate == state.bandwidth_estimate,
        state.step(event).pacing_rate == state.pacing_rate,
{
}

/// Where no packet is acknowledged before it was sent, the acknowledgements of a frame
/// span no more time than passed since its first packet was sent.
pub proof fn ack_span_is_within_send_span(config: SQPConfig, events: Seq<SqpEvent>)
    requires
        SqpState::initial(config).all_ready(events),
        forall|i: int| 0 <= i < events.len() ==> (#[trigger] events[i]).causal(),
    ensures
        forall|i: int|
            #![trigger SqpState::initial(config).samples(events)[i]]
            0 <= i < SqpState::initial(config).samples(events).len() ==> SqpState::initial(
                config,
            ).samples(events)[i].since_first_acked <= SqpState::initial(config).samples(
                events,
            )[i].since_first_sent,
    decreases events.len(),
{
    let start = SqpState::initial(config);
    if events.len() > 0 {
        let front = events.drop_last();
        assert forall|i: int| 0 <= i < front.len() implies (#[trigger] front[i]).causal() by {
            assert(front[i] == events[i]);
        }
        ack_span_is_within_send_span(config, front);
        first_ack_follows_first_send(config, front);
        histories_are_well_formed(config, front);
        assert(events[events.len() - 1].causal());
        let all = start.samples(events);
        assert forall|i: int| 0 <= i < all.len() implies (#[trigger] all[i]).since_first_acked
            <= all[i].since_first_sent by {
            if i < start.samples(front).len() {
                assert(all[i] == start.samples(front)[i]);
            } else {
                let before = start.run(front);
                if let SqpEvent::Acked(packet, now, rtt) = events.last() {
                    assert(before.completes_frame(packet));
                    assert(before.first_sent is Some);
                    assert(before.first_acked_with(packet, now) is Some);
                    assert(all[i] == before.sample(packet, now, rtt)->0);
                }
            }
        }
    }
}

/// The first acknowledgement of a frame does not come before its first packet was sent.
proof fn first_ack_follows_first_send(config: SQPConfig, events: Seq<SqpEvent>)
    requires
        SqpState::initial(config).all_ready(events),
        forall|i: int| 0 <= i < events.len() ==> (#[trigger] events[i]).causal(),
    ensures
        ({
            let state = SqpState::initial(config).run(events);
            state.first_acked is Some ==> state.first_sent is Some
                && state.first_sent->0.nanos <= state.first_acked->0.nanos
        }),
    decreases events.len(),
{
    if events.len() > 0 {
        let front = events.drop_last();
        assert forall|i: int| 0 <= i < front.len() implies (#[trigger] front[i]).causal() by {
            assert(front[i] == events[i]);
        }
        first_ack_follows_first_send(config, front);
        assert(events[events.len() - 1].causal());
    }
}

/// A sample comes exactly when the current frame is complete. It is of that frame,
/// which leaves the queue, and its round-trip time is no more than the latest.
pub proof fn sample_measures_the_current_frame(
    state: SqpState,
    packet: SentPacket,
    now: Instant,
    rtt: RttEstimator,
)
    ensures
        state.sample(packet, now, rtt) is Some <==> state.after_ack(packet, now, rtt).frames
            != state.frames,
        state.sample(packet, now, rtt) matches Some(sample) ==> {
            &&& state.frames.len() > 0
            &&& sample.frame_size == state.frames[0]
            &&& state.frames == seq![sample.frame_size] + state.after_ack(packet, now, rtt).frames
            &&& sample.min_rtt <= rtt.latest.nanos
        },
{
    super::min_rtt::update_keeps_newest(
        MinRttState {
            samples: state.min_rtt.samples,
            window: Duration { nanos: (rtt.smoothed.nanos * 2) as u128 },
        },
        rtt.latest.nanos,
        now,
    );
    if state.completes_frame(packet) {
        let after = state.after_ack(packet, now, rtt).frames;
        assert(after.len() == state.frames.len() - 1);
        assert(state.frames =~= seq![state.frames[0]] + after);
    }
}

/// The window of an `SQP` controller is always the one it started with, which is also
/// the least; its pacing rate is also its least pacing rate; and it is never in slow
/// start nor in recovery.
pub proof fn pacing_alone_limits_sending(sqp: SQP, sent_time: Instant)
    ensures
        sqp.window() == sqp.first_window() == sqp.least_window(),
        sqp.pace() == sqp.least_pace(),
        sqp.pace() is Some,
        !sqp.slow_start(),
        !sqp.recovering(sent_time),
{
}

} // verus!
