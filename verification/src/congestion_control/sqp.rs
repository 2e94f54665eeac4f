//! The `SQP` controller: it paces an interactive video stream by the rate at which
//! whole frames cross the network.

use std::collections::VecDeque;

use vstd::prelude::*;

use super::controller::{CongestionController, ControllerModel, DefaultController};
use super::min_rtt::{MinRttFilter, MinRttState};
use super::types::{CongestionStats, F64Bits, RecoveryConfig, RttEstimator, SentPacket};
use crate::time::{Duration, Instant, MAX_NANOS};

verus! {

/// The window of the controller, in bytes. Pacing alone limits what is sent.
pub const WINDOW: u64 = 10_000_000;

/// The settings of an [`SQP`] controller.
#[derive(Clone, Copy, Debug, PartialEq, Eq, Structural)]
pub struct SQPConfig {
    /// The initial pacing rate, in bytes per second.
    pub init_pacing_rate: u64,
    /// Frames per second.
    pub frame_interval: u64,
    /// The pacing multiplier: by default 2.0.
    pub param_m: F64Bits,
    /// The target multiplier: by default 0.9.
    pub param_t: F64Bits,
    /// The step size: by default 320 kbit/s.
    pub param_delta: u64,
    /// The reward weight: by default 0.25.
    pub param_r: F64Bits,
}

impl SQPConfig {
    /// The default settings: 2,000,000 bytes per second, 30 frames per second, and
    /// the parameters 2.0, 0.9, 320,000 and 0.25.
    pub open spec fn standard() -> SQPConfig {
        SQPConfig {
            init_pacing_rate: 2_000_000,
            frame_interval: 30,
            param_m: F64Bits { bits: 0x4000_0000_0000_0000 },
            param_t: F64Bits { bits: 0x3FEC_CCCC_CCCC_CCCD },
            param_delta: 320_000,
            param_r: F64Bits { bits: 0x3FD0_0000_0000_0000 },
        }
    }

    /// The default settings.
    pub fn new() -> (config: Self)
        ensures
            config == SQPConfig::standard(),
    {
        Self {
            init_pacing_rate: 2_000_000,
            frame_interval: 30,
            param_m: F64Bits { bits: 0x4000_0000_0000_0000 },
            param_t: F64Bits { bits: 0x3FEC_CCCC_CCCC_CCCD },
            param_delta: 320_000,
            param_r: F64Bits { bits: 0x3FD0_0000_0000_0000 },
        }
    }

    /// The settings that `conf` holds for this controller.
    pub fn from(conf: &RecoveryConfig) -> (config: Self)
        ensures
            config == (SQPConfig {
                init_pacing_rate: conf.sqp_init_pacing_rate,
                frame_interval: conf.sqp_frame_interval,
                param_m: conf.sqp_param_m,
                param_t: conf.sqp_param_t,
                param_delta: conf.sqp_param_delta,
                param_r: conf.sqp_param_r,
            }),
    {
        Self {
            init_pacing_rate: conf.sqp_init_pacing_rate,
            frame_interval: conf.sqp_frame_interval,
            param_m: conf.sqp_param_m,
            param_t: conf.sqp_param_t,
            param_delta: conf.sqp_param_delta,
            param_r: conf.sqp_param_r,
        }
    }

    /// Sets the number of frames per second.
    pub fn set_frame_interval(&mut self, interval: u64)
        ensures
            *final(self) == (SQPConfig { frame_interval: interval, ..*old(self) }),
    {
        self.frame_interval = interval;
    }
}

impl Default for SQPConfig {
    fn default() -> (config: Self)
        ensures
            config == SQPConfig::standard(),
    {
        SQPConfig::new()
    }
}

/// What is measured over one frame once all of it is acknowledged. The next
/// bandwidth estimate and the next pacing rate are computed from it.
#[derive(Clone, Copy, Debug, PartialEq, Eq, Structural)]
pub struct BandwidthSample {
    /// The settings of the controller.
    pub config: SQPConfig,
    /// The size of the frame, in bytes.
    pub frame_size: u64,
    /// The bandwidth estimate that stands, in bits per second.
    pub bandwidth_estimate: u64,
    /// Nanoseconds since the first packet of the frame was sent.
    pub since_first_sent: u128,
    /// Nanoseconds since the first packet of the frame was acknowledged.
    pub since_first_acked: u128,
    /// The least round-trip time of the window, in nanoseconds.
    pub min_rtt: u128,
}

/// What an [`SQP`] controller holds.
#[verifier::ext_equal]
pub struct SqpState {
    /// The settings.
    pub config: SQPConfig,
    /// The counters.
    pub stats: CongestionStats,
    /// The round-trip filter.
    pub min_rtt: MinRttState,
    /// Bytes sent of the frame that began last.
    pub sent_bytes: u64,
    /// When the first packets were sent of the frames that began while an earlier one was
    /// in flight, and for which no packet was sent since that one left.
    pub early_starts: Seq<Instant>,
    /// When the first packet of the current frame was sent, once a packet is sent while the
    /// frame is the current one.
    pub first_sent: Option<Instant>,
    /// When a packet was last acknowledged.
    pub last_acked: Option<Instant>,
    /// When the first packet of the current frame was acknowledged.
    pub first_acked: Option<Instant>,
    /// Bytes of the current frame that are acknowledged.
    pub acked_bytes: u64,
    /// The sizes of the frames that are not yet acknowledged, the current one first.
    pub frames: Seq<u64>,
    /// The pacing rate, in bytes per second.
    pub pacing_rate: u64,
    /// The bandwidth estimate, in bits per second.
    pub bandwidth_estimate: u64,
}

impl SqpState {
    /// A controller that has seen nothing.
    pub open spec fn initial(config: SQPConfig) -> SqpState {
        SqpState {
            config,
            stats: CongestionStats::zero(),
            min_rtt: MinRttState {
                samples: Seq::empty(),
                window: Duration { nanos: 1_000_000_000 },
            },
            sent_bytes: 0,
            early_starts: Seq::empty(),
            first_sent: None,
            last_acked: None,
            first_acked: None,
            acked_bytes: 0,
            frames: Seq::empty(),
            pacing_rate: config.init_pacing_rate,
            bandwidth_estimate: config.init_pacing_rate / 2,
        }
    }

    /// The number of frames that have begun, of those that are not yet acknowledged.
    pub open spec fn begun(self) -> nat {
        self.early_starts.len() + if self.first_sent is Some {
            1nat
        } else {
            0nat
        }
    }

    /// When the first packets of these frames were sent, the current frame first.
    pub open spec fn starts(self) -> Seq<Instant> {
        match self.first_sent {
            Some(start) => seq![start] + self.early_starts,
            None => self.early_starts,
        }
    }

    /// When the first packet was sent of the frame at place `i` of the queue.
    pub open spec fn start(self, i: int) -> Option<Instant> {
        if 0 <= i < self.starts().len() {
            Some(self.starts()[i])
        } else {
            None
        }
    }

    /// The bytes that are not yet sent of the frame at place `i` of the queue.
    pub open spec fn unsent(self, i: int) -> int {
        if i < self.begun() - 1 {
            0
        } else if i == self.begun() - 1 {
            self.frames[i] - self.sent_bytes
        } else {
            self.frames[i] as int
        }
    }

    /// The bytes that are not yet sent of the frames in front of place `i` of the queue.
    pub open spec fn ahead(self, i: int) -> int
        decreases i,
    {
        if i <= 0 {
            0
        } else {
            self.ahead(i - 1) + self.unsent(i - 1)
        }
    }

    /// Only frames that are queued have begun, and no more is sent of a frame than its size.
    pub open spec fn sending_wf(self) -> bool {
        &&& self.begun() <= self.frames.len()
        &&& self.begun() == 0 ==> self.sent_bytes == 0
        &&& self.begun() > 0 ==> self.sent_bytes <= self.frames[self.begun() - 1]
    }

    /// What every state satisfies: only a frame that is queued has begun, only a
    /// frame that has begun is acknowledged in part, and never all of it; and
    /// nothing is counted as acknowledged or lost in slow start.
    pub open spec fn wf(self) -> bool {
        &&& self.sending_wf()
        &&& self.first_acked is Some ==> self.first_sent is Some && self.frames[0] > 0
        &&& self.acked_bytes > 0 ==> self.first_acked is Some && self.acked_bytes < self.frames[0]
        &&& self.stats.bytes_acked_in_slow_start == 0
        &&& self.stats.bytes_lost_in_slow_start == 0
    }

    /// The state in which the frame in front, where it began early, has its start as that of
    /// the current frame.
    pub open spec fn promoted(self) -> SqpState {
        if self.first_sent is None && self.early_starts.len() > 0 {
            SqpState {
                first_sent: Some(self.early_starts[0]),
                early_starts: self.early_starts.subrange(1, self.early_starts.len() as int),
                ..self
            }
        } else {
            self
        }
    }

    /// Whether all of the frames that have begun is sent, and a further frame is queued: the
    /// next packet is that frame's first.
    pub open spec fn next_in_turn(self) -> bool {
        &&& self.begun() < self.frames.len()
        &&& self.begun() > 0 ==> self.sent_bytes == self.frames[self.begun() - 1]
    }

    /// The state once the first packet of the next frame is sent at `time`, before its bytes
    /// are counted.
    pub open spec fn with_next_begun(self, time: Instant) -> SqpState {
        if self.first_sent is None {
            SqpState { first_sent: Some(time), sent_bytes: 0, ..self }
        } else {
            SqpState { early_starts: self.early_starts.push(time), sent_bytes: 0, ..self }
        }
    }

    /// The early starts and the bytes sent of the frame that began last, once `len` bytes of a
    /// packet sent at `time` are counted: they go to the frame that began last and, as far as
    /// they go beyond it, to the frames behind it, which begin with the packet. Bytes beyond
    /// the last frame belong to none.
    pub open spec fn poured(
        frames: Seq<u64>,
        early_starts: Seq<Instant>,
        sent_bytes: u64,
        time: Instant,
        len: int,
    ) -> (Seq<Instant>, u64)
        decreases frames.len() - early_starts.len(),
    {
        let last = early_starts.len() as int;
        let room = frames[last] - sent_bytes;
        if len <= room {
            (early_starts, (sent_bytes + len) as u64)
        } else if last + 1 < frames.len() {
            Self::poured(frames, early_starts.push(time), 0, time, len - room)
        } else {
            (early_starts, frames[last])
        }
    }

    /// The state once `packet` is sent.
    pub open spec fn after_sent(self, packet: SentPacket, bytes_in_flight: u64) -> SqpState {
        let current = self.promoted();
        let begun = if current.next_in_turn() {
            current.with_next_begun(packet.time_sent)
        } else {
            current
        };
        let (early_starts, sent_bytes) = if begun.first_sent is Some {
            Self::poured(
                begun.frames,
                begun.early_starts,
                begun.sent_bytes,
                packet.time_sent,
                packet.sent_size as int,
            )
        } else {
            (begun.early_starts, begun.sent_bytes)
        };
        SqpState {
            first_sent: begun.first_sent,
            early_starts,
            sent_bytes,
            stats: CongestionStats {
                bytes_in_flight,
                bytes_sent_in_total: self.stats.bytes_sent_in_total.saturating_add(
                    packet.sent_size as u64,
                ),
                ..self.stats
            },
            ..self
        }
    }

    /// Whether `packet` belongs to the current frame: it was not sent before the
    /// frame began.
    pub open spec fn in_frame(self, packet: SentPacket) -> bool {
        self.frames.len() > 0 && (self.first_sent matches Some(start) && start.nanos
            <= packet.time_sent.nanos)
    }

    /// The bytes of the current frame that are acknowledged once `packet` is.
    pub open spec fn acked_with(self, packet: SentPacket) -> u64 {
        if self.in_frame(packet) {
            self.acked_bytes.saturating_add(packet.sent_size as u64)
        } else {
            self.acked_bytes
        }
    }

    /// Whether the acknowledgement of `packet` completes the current frame.
    pub open spec fn completes_frame(self, packet: SentPacket) -> bool {
        self.frames.len() > 0 && self.acked_with(packet) >= self.frames[0]
    }

    /// When the first packet of the current frame was acknowledged, once `packet` is
    /// acknowledged at `now`.
    pub open spec fn first_acked_with(self, packet: SentPacket, now: Instant) -> Option<Instant> {
        if self.in_frame(packet) && self.acked_bytes == 0 {
            Some(now)
        } else {
            self.first_acked
        }
    }

    /// The round-trip filter once the estimate `rtt` is taken in at `now`: its window
    /// is twice the smoothed round-trip time.
    pub open spec fn min_rtt_with(self, rtt: RttEstimator, now: Instant) -> MinRttState {
        MinRttState {
            samples: self.min_rtt.samples,
            window: Duration { nanos: (rtt.smoothed.nanos * 2) as u128 },
        }.updated(rtt.latest.nanos, now)
    }

    /// Whether the acknowledgement of `packet` can be taken: a frame of no bytes has
    /// begun, and not after the packet was sent; and twice the smoothed round-trip
    /// time is a span of time.
    pub open spec fn ack_ready(self, packet: SentPacket, rtt: RttEstimator) -> bool {
        &&& rtt.smoothed.nanos * 2 <= MAX_NANOS
        &&& self.frames.len() > 0 && self.frames[0] == 0 ==> self.in_frame(packet)
    }

    /// The state once `packet` is acknowledged at `now`.
    pub open spec fn after_ack(
        self,
        packet: SentPacket,
        now: Instant,
        rtt: RttEstimator,
    ) -> SqpState {
        let done = self.completes_frame(packet);
        SqpState {
            stats: CongestionStats {
                bytes_in_flight: self.stats.bytes_in_flight.saturating_sub(
                    packet.sent_size as u64,
                ),
                bytes_acked_in_total: self.stats.bytes_acked_in_total.saturating_add(
                    packet.sent_size as u64,
                ),
                ..self.stats
            },
            min_rtt: self.min_rtt_with(rtt, now),
            last_acked: Some(now),
            sent_bytes: if done && self.early_starts.len() == 0 {
                0
            } else {
                self.sent_bytes
            },
            first_sent: if done {
                None
            } else {
                self.first_sent
            },
            first_acked: if done {
                None
            } else {
                self.first_acked_with(packet, now)
            },
            acked_bytes: if done {
                0
            } else {
                self.acked_with(packet)
            },
            frames: if done {
                self.frames.subrange(1, self.frames.len() as int)
            } else {
                self.frames
            },
            ..self
        }
    }

    /// The sample that the acknowledgement of `packet` at `now` gives: one where it
    /// completes the current frame.
    pub open spec fn sample(
        self,
        packet: SentPacket,
        now: Instant,
        rtt: RttEstimator,
    ) -> Option<BandwidthSample> {
        if self.completes_frame(packet) {
            Some(
                BandwidthSample {
                    config: self.config,
                    frame_size: self.frames[0],
                    bandwidth_estimate: self.bandwidth_estimate,
                    since_first_sent: now.since(self.first_sent->0) as u128,
                    since_first_acked: now.since(self.first_acked_with(packet, now)->0) as u128,
                    min_rtt: self.min_rtt_with(rtt, now).min_rtt()->0,
                },
            )
        } else {
            None
        }
    }

    /// The state once bytes are lost.
    pub open spec fn after_loss(self, lost_bytes: u64, bytes_in_flight: u64) -> SqpState {
        SqpState {
            stats: CongestionStats {
                bytes_in_flight,
                bytes_lost_in_total: self.stats.bytes_lost_in_total.saturating_add(lost_bytes),
                ..self.stats
            },
            ..self
        }
    }

    /// The state once a bandwidth estimate is computed, with the pacing rate that goes
    /// with it. An estimate of zero is dropped.
    pub open spec fn after_estimate(
        self,
        estimated_bandwidth: u64,
        pacing_rate: u64,
    ) -> SqpState {
        if estimated_bandwidth != 0 {
            SqpState { bandwidth_estimate: estimated_bandwidth, pacing_rate, ..self }
        } else {
            self
        }
    }

    /// The state once a frame of `size` bytes is announced.
    pub open spec fn after_frame(self, size: usize) -> SqpState {
        SqpState { frames: self.frames.push(size as u64), ..self }
    }
}

/// The `SQP` congestion controller.
#[derive(Debug)]
pub struct SQP {
    config: SQPConfig,
    stats: CongestionStats,
    min_rtt_filter: MinRttFilter,
    sent_bytes_in_total: u64,
    first_packet_sent_time_queue: VecDeque<Instant>,
    first_packet_sent_time: Option<Instant>,
    last_packet_acked_time: Option<Instant>,
    first_packet_acked_time: Option<Instant>,
    acked_bytes_in_total: u64,
    frame_size: VecDeque<u64>,
    pacing_rate: u64,
    bandwidth_estimate: u64,
}

impl View for SQP {
    type V = SqpState;

    closed spec fn view(&self) -> SqpState {
        SqpState {
            config: self.config,
            stats: self.stats,
            min_rtt: self.min_rtt_filter@,
            sent_bytes: self.sent_bytes_in_total,
            early_starts: self.first_packet_sent_time_queue@,
            first_sent: self.first_packet_sent_time,
            last_acked: self.last_packet_acked_time,
            first_acked: self.first_packet_acked_time,
            acked_bytes: self.acked_bytes_in_total,
            frames: self.frame_size@,
            pacing_rate: self.pacing_rate,
            bandwidth_estimate: self.bandwidth_estimate,
        }
    }
}

impl SQP {
    /// A controller with the settings `conf`. It paces at the initial rate and takes
    /// half of that number for the bandwidth.
    pub fn new(conf: SQPConfig) -> (sqp: Self)
        ensures
            sqp.wf(),
            sqp@ == SqpState::initial(conf),
    {
        let pacing_rate: u64 = conf.init_pacing_rate;
        let bandwidth_estimate: u64 = pacing_rate / 2;
        Self {
            config: conf,
            stats: CongestionStats::default(),
            min_rtt_filter: MinRttFilter::new(),
            sent_bytes_in_total: 0,
            first_packet_sent_time_queue: VecDeque::new(),
            first_packet_sent_time: None,
            last_packet_acked_time: None,
            first_packet_acked_time: None,
            acked_bytes_in_total: 0,
            frame_size: VecDeque::new(),
            pacing_rate,
            bandwidth_estimate,
        }
    }

    /// Begins the next frame with a packet sent at `time`, where all that has begun is sent.
    fn begin_frame_in_turn(&mut self, time: Instant)
        requires
            old(self)@.sending_wf(),
            old(self)@.first_sent is None ==> old(self)@.early_starts.len() == 0,
        ensures
            final(self)@ == if old(self)@.next_in_turn() {
                old(self)@.with_next_begun(time)
            } else {
                old(self)@
            },
            final(self)@.sending_wf(),
            final(self)@.first_sent is None ==> final(self)@.begun() == 0,
    {
        if self.first_packet_sent_time.is_none() {
            if self.frame_size.len() > 0 {
                self.first_packet_sent_time = Some(time);
            }
            return;
        }
        let last: usize = self.first_packet_sent_time_queue.len();
        if last < self.frame_size.len() - 1 && self.sent_bytes_in_total == self.frame_size[last] {
            self.first_packet_sent_time_queue.push_back(time);
            self.sent_bytes_in_total = 0;
        }
    }

    /// Counts `len` bytes of a packet sent at `time`, and begins the frames that they reach.
    fn count_sent(&mut self, time: Instant, len: u64)
        requires
            old(self)@.sending_wf(),
            old(self)@.first_sent is Some,
        ensures
            ({
                let (early_starts, sent_bytes) = SqpState::poured(
                    old(self)@.frames,
                    old(self)@.early_starts,
                    old(self)@.sent_bytes,
                    time,
                    len as int,
                );
                final(self)@ == (SqpState { early_starts, sent_bytes, ..old(self)@ })
            }),
            final(self)@.sending_wf(),
    {
        let queued: usize = self.frame_size.len();
        let mut left: u64 = len;
        let ghost start = self@;
        loop
            invariant
                start == old(self)@,
                self@ == (SqpState {
                    early_starts: self@.early_starts,
                    sent_bytes: self@.sent_bytes,
                    ..start
                }),
                self@.sending_wf(),
                self@.first_sent is Some,
                queued == self@.frames.len(),
                SqpState::poured(
                    self@.frames,
                    self@.early_starts,
                    self@.sent_bytes,
                    time,
                    left as int,
                ) == SqpState::poured(
                    start.frames,
                    start.early_starts,
                    start.sent_bytes,
                    time,
                    len as int,
                ),
            decreases self@.frames.len() - self@.early_starts.len(),
        {
            let last: usize = self.first_packet_sent_time_queue.len();
            let frame: u64 = self.frame_size[last];
            let room: u64 = frame - self.sent_bytes_in_total;
            if left <= room {
                self.sent_bytes_in_total = self.sent_bytes_in_total + left;
                return;
            }
            if last + 1 == queued {
                self.sent_bytes_in_total = frame;
                return;
            }
            left = left - room;
            self.first_packet_sent_time_queue.push_back(time);
            self.sent_bytes_in_total = 0;
        }
    }

    /// Whether the acknowledgement of `packet` can be taken.
    pub fn is_ack_ready(&self, packet: &SentPacket, rtt: &RttEstimator) -> (b: bool)
        ensures
            b == self.ack_ready(*packet, *rtt),
    {
        if rtt.smoothed_rtt().as_nanos() > MAX_NANOS / 2 {
            return false;
        }
        if self.frame_size.len() == 0 || self.frame_size[0] != 0 {
            return true;
        }
        match self.first_packet_sent_time {
            Some(start) => start.not_after(packet.time_sent),
            None => false,
        }
    }

    /// Takes in the bandwidth estimate that was computed from a sample, in bits per
    /// second, with the pacing rate that goes with it, in bytes per second. An
    /// estimate of zero is dropped.
    pub fn set_bandwidth_estimate(&mut self, estimated_bandwidth: u64, pacing_rate: u64)
        requires
            old(self).wf(),
        ensures
            final(self).wf(),
            final(self)@ == old(self)@.after_estimate(estimated_bandwidth, pacing_rate),
    {
        if estimated_bandwidth != 0 {
            self.bandwidth_estimate = estimated_bandwidth;
            self.pacing_rate = pacing_rate;
        }
    }

    /// Announces a frame of `size` bytes.
    pub fn set_sqp_frame_size(&mut self, size: usize)
        requires
            old(self).wf(),
        ensures
            final(self).wf(),
            final(self)@ == old(self)@.after_frame(size),
    {
        self.frame_size.push_back(size as u64);
    }

    /// The bandwidth estimate, in bits per second.
    pub fn get_sqp_bandwidth_estimate(&self) -> (estimate: Option<u64>)
        ensures
            estimate == Some(self@.bandwidth_estimate),
    {
        Some(self.bandwidth_estimate)
    }
}

impl ControllerModel for SQP {
    type AckAction = Option<BandwidthSample>;

    open spec fn wf(&self) -> bool {
        self@.wf()
    }

    open spec fn as_built(&self) -> bool {
        self@ == SqpState::initial(SQPConfig::standard())
    }

    open spec fn sent(
        pre: Self,
        post: Self,
        now: Instant,
        packet: SentPacket,
        packet_after: SentPacket,
        bytes_in_flight: u64,
    ) -> bool {
        &&& post@ == pre@.after_sent(packet, bytes_in_flight)
        &&& packet_after == packet
    }

    open spec fn ack_begun(pre: Self, post: Self, now: Instant, bytes_in_flight: u64) -> bool {
        post@ == pre@
    }

    open spec fn ack_ready(&self, packet: SentPacket, rtt: RttEstimator) -> bool {
        self@.ack_ready(packet, rtt)
    }

    open spec fn acked(
        pre: Self,
        post: Self,
        packet: SentPacket,
        packet_after: SentPacket,
        now: Instant,
        app_limited: bool,
        rtt: RttEstimator,
        bytes_in_flight: u64,
        action: Option<BandwidthSample>,
    ) -> bool {
        &&& post@ == pre@.after_ack(packet, now, rtt)
        &&& action == pre@.sample(packet, now, rtt)
        &&& packet_after == packet
    }

    open spec fn ack_ended(pre: Self, post: Self) -> bool {
        post@ == pre@
    }

    open spec fn congested(
        pre: Self,
        post: Self,
        now: Instant,
        packet: SentPacket,
        is_persistent_congestion: bool,
        lost_bytes: u64,
        bytes_in_flight: u64,
    ) -> bool {
        post@ == pre@.after_loss(lost_bytes, bytes_in_flight)
    }

    open spec fn slow_start(&self) -> bool {
        false
    }

    open spec fn recovering(&self, sent_time: Instant) -> bool {
        false
    }

    open spec fn window(&self) -> u64 {
        WINDOW
    }

    open spec fn first_window(&self) -> u64 {
        WINDOW
    }

    open spec fn least_window(&self) -> u64 {
        WINDOW
    }

    open spec fn counters(&self) -> CongestionStats {
        self@.stats
    }

    open spec fn pace(&self) -> Option<u64> {
        Some(self@.pacing_rate)
    }

    open spec fn least_pace(&self) -> Option<u64> {
        Some(self@.pacing_rate)
    }
}

impl CongestionController for SQP {
    fn name(&self) -> (name: &str)
        ensures
            name@ == "SQP"@,
    {
        "SQP"
    }

    fn on_sent(&mut self, now: Instant, packet: &mut SentPacket, bytes_in_flight: u64) {
        self.stats.bytes_in_flight = bytes_in_flight;
        self.stats.bytes_sent_in_total = self.stats.bytes_sent_in_total.saturating_add(
            packet.sent_size as u64,
        );

        if self.first_packet_sent_time.is_none() {
            self.first_packet_sent_time = self.first_packet_sent_time_queue.pop_front();
        }
        assert(self@ == (SqpState { stats: self.stats, ..old(self)@.promoted() }));
        self.begin_frame_in_turn(packet.time_sent);
        if self.first_packet_sent_time.is_some() {
            self.count_sent(packet.time_sent, packet.sent_size as u64);
        }
    }

    fn begin_ack(&mut self, now: Instant, bytes_in_flight: u64) {
    }

    fn on_ack(
        &mut self,
        packet: &mut SentPacket,
        now: Instant,
        app_limited: bool,
        rtt: &RttEstimator,
        bytes_in_flight: u64,
    ) -> (action: Option<BandwidthSample>) {
        let acked_bytes: u64 = packet.sent_size as u64;
        self.stats.bytes_in_flight = self.stats.bytes_in_flight.saturating_sub(acked_bytes);
        self.stats.bytes_acked_in_total = self.stats.bytes_acked_in_total.saturating_add(
            acked_bytes,
        );
        if self.in_slow_start() {
            self.stats.bytes_acked_in_slow_start =
            self.stats.bytes_acked_in_slow_start.saturating_add(acked_bytes);
        }
        self.min_rtt_filter.set_window(rtt.smoothed_rtt().double());
        proof {
            super::min_rtt::update_keeps_newest(
                self.min_rtt_filter@,
                rtt.latest.nanos,
                now,
            );
        }
        self.min_rtt_filter.update(rtt.latest_rtt().as_nanos(), now);
        self.last_packet_acked_time = Some(now);

        if self.frame_size.len() == 0 {
            return None;
        }
        let frame_size: u64 = self.frame_size[0];
        if let Some(start_send_time) = self.first_packet_sent_time {
            if start_send_time.not_after(packet.time_sent) {
                if self.acked_bytes_in_total == 0 {
                    self.first_packet_acked_time = Some(now);
                }
                self.acked_bytes_in_total = self.acked_bytes_in_total.saturating_add(acked_bytes);
            }
        }
        if self.acked_bytes_in_total < frame_size {
            return None;
        }
        let first_sent = self.first_packet_sent_time.unwrap();
        let first_acked = self.first_packet_acked_time.unwrap();
        let sample = BandwidthSample {
            config: self.config,
            frame_size,
            bandwidth_estimate: self.bandwidth_estimate,
            since_first_sent: now.saturating_duration_since(first_sent).as_nanos(),
            since_first_acked: now.saturating_duration_since(first_acked).as_nanos(),
            min_rtt: self.min_rtt_filter.get_min_rtt().unwrap(),
        };
        self.acked_bytes_in_total = 0;
        let _ = self.frame_size.pop_front();
        if self.first_packet_sent_time_queue.len() == 0 {
            self.sent_bytes_in_total = 0;
        }
        self.first_packet_sent_time = None;
        self.first_packet_acked_time = None;
        Some(sample)
    }

    fn end_ack(&mut self) {
    }

    fn on_congestion_event(
        &mut self,
        now: Instant,
        packet: &SentPacket,
        is_persistent_congestion: bool,
        lost_bytes: u64,
        bytes_in_flight: u64,
    ) {
        self.stats.bytes_lost_in_total = self.stats.bytes_lost_in_total.saturating_add(lost_bytes);
        self.stats.bytes_in_flight = bytes_in_flight;
        if self.in_slow_start() {
            self.stats.bytes_lost_in_slow_start =
            self.stats.bytes_lost_in_slow_start.saturating_add(lost_bytes);
        }
    }

    fn in_slow_start(&self) -> (b: bool) {
        false
    }

    fn in_recovery(&self, sent_time: Instant) -> (b: bool) {
        false
    }

    fn congestion_window(&self) -> (bytes: u64) {
        WINDOW
    }

    fn initial_window(&self) -> (bytes: u64) {
        WINDOW
    }

    fn minimal_window(&self) -> (bytes: u64) {
        WINDOW
    }

    fn stats(&self) -> (stats: &CongestionStats) {
        &self.stats
    }

    fn pacing_rate(&self) -> (rate: Option<u64>) {
        Some(self.pacing_rate)
    }

    fn min_pacing_rate(&self) -> (rate: Option<u64>) {
        Some(self.pacing_rate)
    }
}

impl DefaultController for SQP {
    fn with_default_config() -> (controller: Self) {
        SQP::new(SQPConfig::default())
    }
}

/// However many bytes are counted, the frames that began before stay begun, the further ones
/// begin with the packet, and no more is sent of a frame than its size.
pub proof fn pouring_is_well_formed(
    frames: Seq<u64>,
    early_starts: Seq<Instant>,
    sent_bytes: u64,
    time: Instant,
    len: int,
)
    requires
        early_starts.len() < frames.len(),
        sent_bytes <= frames[early_starts.len() as int],
        len >= 0,
    ensures
        ({
            let (after, sent) = SqpState::poured(frames, early_starts, sent_bytes, time, len);
            &&& early_starts.len() <= after.len() < frames.len()
            &&& after.subrange(0, early_starts.len() as int) == early_starts
            &&& forall|i: int|
                early_starts.len() <= i < after.len() ==> #[trigger] after[i] == time
            &&& sent <= frames[after.len() as int]
        }),
    decreases frames.len() - early_starts.len(),
{
    let last = early_starts.len() as int;
    let room = frames[last] - sent_bytes;
    let (after, sent) = SqpState::poured(frames, early_starts, sent_bytes, time, len);
    if len > room && last + 1 < frames.len() {
        let more = early_starts.push(time);
        pouring_is_well_formed(frames, more, 0, time, len - room);
        assert(early_starts =~= more.subrange(0, last));
        assert(after.subrange(0, last) =~= after.subrange(0, last + 1).subrange(0, last));
        assert(after[last] == after.subrange(0, last + 1)[last]);
    }
    assert(after.subrange(0, last) =~= early_starts);
}

} // verus!
