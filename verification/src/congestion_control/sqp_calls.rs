//! What the calls of an `SQP` controller do, told by what goes in and what comes out.

use vstd::prelude::*;

use super::controller::{CongestionController, DefaultController};
use super::history::SqpEvent;
use super::sqp::{BandwidthSample, SQPConfig, SQP};
use super::types::{CongestionStats, RecoveryConfig, RttEstimator, SentPacket};
use crate::time::Instant;

verus! {

/// Sending a packet is the event of it, and leaves the packet as it is.
pub proof fn sending_is_one_event(
    sqp: &mut SQP,
    now: Instant,
    packet: &mut SentPacket,
    bytes_in_flight: u64,
)
    requires
        call_ensures(
            <SQP as CongestionController>::on_sent,
            (sqp, now, packet, bytes_in_flight),
            (),
        ),
    ensures
        final(sqp)@ == old(sqp)@.step(SqpEvent::Sent(*old(packet), bytes_in_flight)),
        *final(packet) == *old(packet),
{
}

/// Acknowledging a packet is the event of it, and leaves the packet as it is. A sample is handed
/// out exactly where the frame in front leaves the queue.
pub proof fn acknowledging_is_one_event(
    sqp: &mut SQP,
    packet: &mut SentPacket,
    now: Instant,
    app_limited: bool,
    rtt: RttEstimator,
    bytes_in_flight: u64,
    action: Option<BandwidthSample>,
)
    requires
        call_ensures(
            <SQP as CongestionController>::on_ack,
            (sqp, packet, now, app_limited, &rtt, bytes_in_flight),
            action,
        ),
    ensures
        final(sqp)@ == old(sqp)@.step(SqpEvent::Acked(*old(packet), now, rtt)),
        *final(packet) == *old(packet),
        action == old(sqp)@.sample(*old(packet), now, rtt),
        match action {
            Some(sample) => old(sqp)@.frames == seq![sample.frame_size] + final(sqp)@.frames,
            None => old(sqp)@.frames == final(sqp)@.frames,
        },
{
    super::history::sample_measures_the_current_frame(old(sqp)@, *old(packet), now, rtt);
}

/// An acknowledgement leaves the window of the round-trip filter at twice the smoothed
/// round-trip time that it came with, and the latest round-trip time as the newest sample.
pub proof fn acknowledging_sets_the_window(
    sqp: &mut SQP,
    packet: &mut SentPacket,
    now: Instant,
    app_limited: bool,
    rtt: RttEstimator,
    bytes_in_flight: u64,
    action: Option<BandwidthSample>,
)
    requires
        old(sqp)@.ack_ready(*old(packet), rtt),
        call_ensures(
            <SQP as CongestionController>::on_ack,
            (sqp, packet, now, app_limited, &rtt, bytes_in_flight),
            action,
        ),
    ensures
        final(sqp)@.min_rtt.window.nanos == rtt.smoothed.nanos + rtt.smoothed.nanos,
        final(sqp)@.min_rtt.samples.len() > 0,
        final(sqp)@.min_rtt.samples.last() == (rtt.latest.nanos, now),
{
    super::ack_history::window_is_twice_the_smoothed_round_trip(
        old(sqp)@,
        SqpEvent::Acked(*old(packet), now, rtt),
    );
    let widened = super::min_rtt::MinRttState {
        samples: old(sqp)@.min_rtt.samples,
        window: final(sqp)@.min_rtt.window,
    };
    super::min_rtt::update_keeps_newest(widened, rtt.latest.nanos, now);
}

/// Losing bytes is the event of it.
pub proof fn losing_is_one_event(
    sqp: &mut SQP,
    now: Instant,
    packet: SentPacket,
    is_persistent_congestion: bool,
    lost_bytes: u64,
    bytes_in_flight: u64,
)
    requires
        call_ensures(
            <SQP as CongestionController>::on_congestion_event,
            (sqp, now, &packet, is_persistent_congestion, lost_bytes, bytes_in_flight),
            (),
        ),
    ensures
        final(sqp)@ == old(sqp)@.step(SqpEvent::Lost(lost_bytes, bytes_in_flight)),
{
}

/// The start and the end of a batch of acknowledgements change nothing.
pub proof fn batches_change_nothing(sqp: &mut SQP, now: Instant, bytes_in_flight: u64)
    requires
        call_ensures(<SQP as CongestionController>::begin_ack, (sqp, now, bytes_in_flight), ())
            || call_ensures(<SQP as CongestionController>::end_ack, (sqp,), ()),
    ensures
        final(sqp)@ == old(sqp)@,
{
}

/// Announcing a frame is the event of it: the frame is queued last, behind those that wait.
pub proof fn announcing_is_one_event(sqp: &mut SQP, size: usize)
    requires
        call_ensures(SQP::set_sqp_frame_size, (sqp, size), ()),
    ensures
        final(sqp)@ == old(sqp)@.step(SqpEvent::Frame(size)),
        final(sqp)@.frames == old(sqp)@.frames + seq![size as u64],
{
}

/// Handing in an estimate is the event of it. After any estimate other than zero the bandwidth
/// estimate is that number and the pacing rate the one that came with it, whatever they were
/// before, and that is what the controller answers; an estimate of zero leaves both.
pub proof fn estimates_take_effect(
    sqp: &mut SQP,
    estimate: u64,
    rate: u64,
    told: Option<u64>,
    pace: Option<u64>,
    least_pace: Option<u64>,
)
    requires
        call_ensures(SQP::set_bandwidth_estimate, (sqp, estimate, rate), ()),
        call_ensures(SQP::get_sqp_bandwidth_estimate, (final(sqp),), told),
        call_ensures(<SQP as CongestionController>::pacing_rate, (final(sqp),), pace),
        call_ensures(<SQP as CongestionController>::min_pacing_rate, (final(sqp),), least_pace),
    ensures
        final(sqp)@ == old(sqp)@.step(SqpEvent::Estimate(estimate, rate)),
        estimate != 0 ==> told == Some(estimate) && pace == Some(rate),
        estimate == 0 ==> told == Some(old(sqp)@.bandwidth_estimate) && pace == Some(
            old(sqp)@.pacing_rate,
        ),
        least_pace == pace,
{
}

/// A controller paces at its initial rate and takes half of it, rounded down, for the bandwidth.
/// It has no frames and no samples, and its counters are at zero.
pub proof fn controllers_start_at_their_initial_rate(
    config: SQPConfig,
    sqp: SQP,
    told: Option<u64>,
    pace: Option<u64>,
    stats: &CongestionStats,
)
    requires
        call_ensures(SQP::new, (config,), sqp),
        call_ensures(SQP::get_sqp_bandwidth_estimate, (&sqp,), told),
        call_ensures(<SQP as CongestionController>::pacing_rate, (&sqp,), pace),
        call_ensures(<SQP as CongestionController>::stats, (&sqp,), stats),
    ensures
        sqp@ == super::sqp::SqpState::initial(config),
        sqp@.config == config,
        pace == Some(config.init_pacing_rate),
        told is Some,
        told->0 * 2 == config.init_pacing_rate || told->0 * 2 + 1 == config.init_pacing_rate,
        sqp@.frames.len() == 0,
        sqp@.min_rtt.samples.len() == 0,
        stats.bytes_in_flight == 0,
        stats.bytes_sent_in_total == 0,
        stats.bytes_acked_in_total == 0,
        stats.bytes_lost_in_total == 0,
        stats.bytes_acked_in_slow_start == 0,
        stats.bytes_lost_in_slow_start == 0,
{
}

/// The controller that is built by default is the one that the default settings build, however
/// they are asked for: it paces at two million bytes per second.
pub proof fn default_controller_has_default_settings(
    built: SQP,
    config: SQPConfig,
    by_default: SQPConfig,
    sqp: SQP,
)
    requires
        call_ensures(<SQP as DefaultController>::with_default_config, (), built),
        call_ensures(SQPConfig::new, (), config),
        call_ensures(<SQPConfig as Default>::default, (), by_default),
        call_ensures(SQP::new, (config,), sqp),
    ensures
        built@ == sqp@,
        by_default == config,
        built@.pacing_rate == 2_000_000,
        built@.bandwidth_estimate == 1_000_000,
        config.frame_interval == 30,
        config.param_delta == 320_000,
{
}

/// The settings that are taken from those of loss recovery are those that they hold, each under
/// its own name; and setting the frames per second leaves the others.
pub proof fn settings_are_taken_as_they_are(
    conf: RecoveryConfig,
    config: SQPConfig,
    other: &mut SQPConfig,
    interval: u64,
)
    requires
        call_ensures(SQPConfig::from, (&conf,), config),
        call_ensures(SQPConfig::set_frame_interval, (other, interval), ()),
    ensures
        config.init_pacing_rate == conf.sqp_init_pacing_rate,
        config.frame_interval == conf.sqp_frame_interval,
        config.param_m == conf.sqp_param_m,
        config.param_t == conf.sqp_param_t,
        config.param_delta == conf.sqp_param_delta,
        config.param_r == conf.sqp_param_r,
        final(other).frame_interval == interval,
        final(other).init_pacing_rate == old(other).init_pacing_rate,
        final(other).param_m == old(other).param_m,
        final(other).param_t == old(other).param_t,
        final(other).param_delta == old(other).param_delta,
        final(other).param_r == old(other).param_r,
{
}

/// Whether an acknowledgement can be taken depends on two things alone: twice the smoothed
/// round-trip time is a span that the clock represents, and where the frame in front is empty,
/// a packet was sent for it, and not after the acknowledged one.
pub proof fn acknowledgements_can_be_taken(
    sqp: SQP,
    packet: SentPacket,
    rtt: RttEstimator,
    ready: bool,
)
    requires
        call_ensures(SQP::is_ack_ready, (&sqp, &packet, &rtt), ready),
    ensures
        ready <==> {
            &&& rtt.smoothed.nanos + rtt.smoothed.nanos
                <= 18_446_744_073_709_551_615 * 1_000_000_000 + 999_999_999
            &&& sqp@.frames.len() > 0 && sqp@.frames[0] == 0 ==> sqp@.first_sent is Some
                && sqp@.first_sent->0.nanos <= packet.time_sent.nanos
        },
{
}

/// What an `SQP` controller answers depends on its pacing rate and its counters alone: its
/// windows are ten million bytes, it is never in slow start or in recovery, its least pacing
/// rate is its pacing rate, and the counters it shows are those it keeps.
pub proof fn answers_depend_on_the_pace_alone(
    sqp: SQP,
    sent_time: Instant,
    slow_start: bool,
    recovery: bool,
    window: u64,
    initial_window: u64,
    minimal_window: u64,
    pace: Option<u64>,
    least_pace: Option<u64>,
    stats: &CongestionStats,
)
    requires
        call_ensures(<SQP as CongestionController>::in_slow_start, (&sqp,), slow_start),
        call_ensures(<SQP as CongestionController>::in_recovery, (&sqp, sent_time), recovery),
        call_ensures(<SQP as CongestionController>::congestion_window, (&sqp,), window),
        call_ensures(<SQP as CongestionController>::initial_window, (&sqp,), initial_window),
        call_ensures(<SQP as CongestionController>::minimal_window, (&sqp,), minimal_window),
        call_ensures(<SQP as CongestionController>::pacing_rate, (&sqp,), pace),
        call_ensures(<SQP as CongestionController>::min_pacing_rate, (&sqp,), least_pace),
        call_ensures(<SQP as CongestionController>::stats, (&sqp,), stats),
    ensures
        !slow_start,
        !recovery,
        window == 10_000_000,
        initial_window == 10_000_000,
        minimal_window == 10_000_000,
        pace == Some(sqp@.pacing_rate),
        least_pace == pace,
        *stats == sqp@.stats,
{
}

} // verus!
