//! The interface of a congestion controller.

use vstd::prelude::*;

use super::types::{CongestionStats, RttEstimator, SentPacket};
use crate::time::Instant;

verus! {

/// The model of a congestion controller: how each event moves it from one state to the
/// next, and what each question is answered in a state. None of it is ever run.
pub trait ControllerModel: Sized {
    /// What an acknowledgement leaves for the caller to do.
    type AckAction;

    /// Whether the controller is in a state that its methods can work from.
    spec fn wf(&self) -> bool;

    /// Whether this is the controller as its default settings build it.
    spec fn as_built(&self) -> bool;

    /// Whether sending `packet`, which leaves it as `packet_after`, may take `pre`
    /// to `post`.
    spec fn sent(
        pre: Self,
        post: Self,
        now: Instant,
        packet: SentPacket,
        packet_after: SentPacket,
        bytes_in_flight: u64,
    ) -> bool;

    /// Whether the start of a batch of acknowledgements may take `pre` to `post`.
    spec fn ack_begun(pre: Self, post: Self, now: Instant, bytes_in_flight: u64) -> bool;

    /// Whether the controller can take the acknowledgement of `packet`.
    spec fn ack_ready(&self, packet: SentPacket, rtt: RttEstimator) -> bool;

    /// Whether the acknowledgement of `packet`, which leaves it as `packet_after`,
    /// may take `pre` to `post` and leave `action` to do.
    spec fn acked(
        pre: Self,
        post: Self,
        packet: SentPacket,
        packet_after: SentPacket,
        now: Instant,
        app_limited: bool,
        rtt: RttEstimator,
        bytes_in_flight: u64,
        action: Self::AckAction,
    ) -> bool;

    /// Whether the end of a batch of acknowledgements may take `pre` to `post`.
    spec fn ack_ended(pre: Self, post: Self) -> bool;

    /// Whether the loss of `packet` may take `pre` to `post`.
    spec fn congested(
        pre: Self,
        post: Self,
        now: Instant,
        packet: SentPacket,
        is_persistent_congestion: bool,
        lost_bytes: u64,
        bytes_in_flight: u64,
    ) -> bool;

    /// Whether the controller is in slow start.
    spec fn slow_start(&self) -> bool;

    /// Whether a packet sent at `sent_time` falls into a recovery period.
    spec fn recovering(&self, sent_time: Instant) -> bool;

    /// The congestion window, in bytes.
    spec fn window(&self) -> u64;

    /// The window that the controller starts with, in bytes.
    spec fn first_window(&self) -> u64;

    /// The window that the controller does not go below, in bytes.
    spec fn least_window(&self) -> u64;

    /// The counters.
    spec fn counters(&self) -> CongestionStats;

    /// The pacing rate, in bytes per second, where there is one.
    spec fn pace(&self) -> Option<u64>;

    /// The least pacing rate, in bytes per second, where there is one.
    spec fn least_pace(&self) -> Option<u64>;
}

/// A congestion controller: what a connection tells it, and what it answers. Its
/// methods promise what its model says, and no more.
pub trait CongestionController: ControllerModel {
    /// The name of the algorithm.
    fn name(&self) -> (name: &str);

    /// A packet is sent.
    fn on_sent(&mut self, now: Instant, packet: &mut SentPacket, bytes_in_flight: u64)
        requires
            old(self).wf(),
        ensures
            final(self).wf(),
            Self::sent(
                *old(self),
                *final(self),
                now,
                *old(packet),
                *final(packet),
                bytes_in_flight,
            ),
    ;

    /// A batch of acknowledgements starts.
    fn begin_ack(&mut self, now: Instant, bytes_in_flight: u64)
        requires
            old(self).wf(),
        ensures
            final(self).wf(),
            Self::ack_begun(*old(self), *final(self), now, bytes_in_flight),
    ;

    /// A packet is acknowledged.
    fn on_ack(
        &mut self,
        packet: &mut SentPacket,
        now: Instant,
        app_limited: bool,
        rtt: &RttEstimator,
        bytes_in_flight: u64,
    ) -> (action: Self::AckAction)
        requires
            old(self).wf(),
            old(self).ack_ready(*old(packet), *rtt),
        ensures
            final(self).wf(),
            Self::acked(
                *old(self),
                *final(self),
                *old(packet),
                *final(packet),
                now,
                app_limited,
                *rtt,
                bytes_in_flight,
                action,
            ),
    ;

    /// A batch of acknowledgements ends.
    fn end_ack(&mut self)
        requires
            old(self).wf(),
        ensures
            final(self).wf(),
            Self::ack_ended(*old(self), *final(self)),
    ;

    /// A packet is lost.
    fn on_congestion_event(
        &mut self,
        now: Instant,
        packet: &SentPacket,
        is_persistent_congestion: bool,
        lost_bytes: u64,
        bytes_in_flight: u64,
    )
        requires
            old(self).wf(),
        ensures
            final(self).wf(),
            Self::congested(
                *old(self),
                *final(self),
                now,
                *packet,
                is_persistent_congestion,
                lost_bytes,
                bytes_in_flight,
            ),
    ;

    /// Whether the controller is in slow start.
    fn in_slow_start(&self) -> (b: bool)
        ensures
            b == self.slow_start(),
    ;

    /// Whether a packet sent at `sent_time` falls into a recovery period.
    fn in_recovery(&self, sent_time: Instant) -> (b: bool)
        ensures
            b == self.recovering(sent_time),
    ;

    /// The congestion window, in bytes.
    fn congestion_window(&self) -> (bytes: u64)
        ensures
            bytes == self.window(),
    ;

    /// The window that the controller starts with, in bytes.
    fn initial_window(&self) -> (bytes: u64)
        ensures
            bytes == self.first_window(),
    ;

    /// The window that the controller does not go below, in bytes.
    fn minimal_window(&self) -> (bytes: u64)
        ensures
            bytes == self.least_window(),
    ;

    /// The counters.
    fn stats(&self) -> (stats: &CongestionStats)
        ensures
            *stats == self.counters(),
    ;

    /// The pacing rate, in bytes per second, where there is one.
    fn pacing_rate(&self) -> (rate: Option<u64>)
        ensures
            rate == self.pace(),
    ;

    /// The least pacing rate, in bytes per second, where there is one.
    fn min_pacing_rate(&self) -> (rate: Option<u64>)
        ensures
            rate == self.least_pace(),
    ;
}

/// A controller that can be built from its default settings.
pub trait DefaultController: CongestionController {
    /// Builds the controller from its default settings.
    fn with_default_config() -> (controller: Self)
        ensures
            controller.wf(),
            controller.as_built(),
    ;
}

} // verus!
