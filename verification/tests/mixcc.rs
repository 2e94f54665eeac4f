use tquic_sqp::congestion_control::{
    greatest_rate, least_rate, CongestionController, CongestionStats, ControllerModel,
    DefaultController, MixCC, RttEstimator, SentPacket, SQP,
};
use tquic_sqp::time::{Duration, Instant};

/// A controller with fixed answers that puts its digit on the size of each packet.
#[derive(Debug)]
struct Fixed<const ID: usize> {
    stats: CongestionStats,
}

const SENT_AT: Instant = Instant { nanos: 7 };

// The model of a controller is never run.
impl<const ID: usize> ControllerModel for Fixed<ID> {
    type AckAction = usize;

    fn wf(&self) -> bool {
        unreachable!()
    }

    fn as_built(&self) -> bool {
        unreachable!()
    }

    fn sent(_: Self, _: Self, _: Instant, _: SentPacket, _: SentPacket, _: u64) -> bool {
        unreachable!()
    }

    fn ack_begun(_: Self, _: Self, _: Instant, _: u64) -> bool {
        unreachable!()
    }

    fn ack_ready(&self, _: SentPacket, _: RttEstimator) -> bool {
        unreachable!()
    }

    fn acked(
        _: Self,
        _: Self,
        _: SentPacket,
        _: SentPacket,
        _: Instant,
        _: bool,
        _: RttEstimator,
        _: u64,
        _: usize,
    ) -> bool {
        unreachable!()
    }

    fn ack_ended(_: Self, _: Self) -> bool {
        unreachable!()
    }

    fn congested(_: Self, _: Self, _: Instant, _: SentPacket, _: bool, _: u64, _: u64) -> bool {
        unreachable!()
    }

    fn slow_start(&self) -> bool {
        unreachable!()
    }

    fn recovering(&self, _: Instant) -> bool {
        unreachable!()
    }

    fn window(&self) -> u64 {
        unreachable!()
    }

    fn first_window(&self) -> u64 {
        unreachable!()
    }

    fn least_window(&self) -> u64 {
        unreachable!()
    }

    fn counters(&self) -> CongestionStats {
        unreachable!()
    }

    fn pace(&self) -> Option<u64> {
        unreachable!()
    }

    fn least_pace(&self) -> Option<u64> {
        unreachable!()
    }
}

impl<const ID: usize> CongestionController for Fixed<ID> {
    fn name(&self) -> &str {
        "Fixed"
    }

    fn on_sent(&mut self, _now: Instant, packet: &mut SentPacket, bytes_in_flight: u64) {
        self.stats.bytes_in_flight = bytes_in_flight;
        packet.sent_size = packet.sent_size * 10 + ID;
    }

    fn begin_ack(&mut self, _now: Instant, bytes_in_flight: u64) {
        self.stats.bytes_in_flight = bytes_in_flight;
    }

    fn on_ack(
        &mut self,
        packet: &mut SentPacket,
        _now: Instant,
        _app_limited: bool,
        _rtt: &RttEstimator,
        _bytes_in_flight: u64,
    ) -> usize {
        packet.sent_size = packet.sent_size * 10 + ID;
        packet.sent_size
    }

    fn end_ack(&mut self) {
        self.stats.bytes_acked_in_total += 1;
    }

    fn on_congestion_event(
        &mut self,
        _now: Instant,
        _packet: &SentPacket,
        _is_persistent_congestion: bool,
        lost_bytes: u64,
        _bytes_in_flight: u64,
    ) {
        self.stats.bytes_lost_in_total += lost_bytes;
    }

    fn in_slow_start(&self) -> bool {
        ID != 3
    }

    fn in_recovery(&self, sent_time: Instant) -> bool {
        ID == 3 && sent_time == SENT_AT
    }

    fn congestion_window(&self) -> u64 {
        ID as u64 * 100
    }

    fn initial_window(&self) -> u64 {
        ID as u64 * 10
    }

    fn minimal_window(&self) -> u64 {
        ID as u64
    }

    fn stats(&self) -> &CongestionStats {
        &self.stats
    }

    fn pacing_rate(&self) -> Option<u64> {
        if ID % 2 == 1 {
            Some(ID as u64 * 1000)
        } else {
            None
        }
    }

    fn min_pacing_rate(&self) -> Option<u64> {
        Some(ID as u64)
    }
}

impl<const ID: usize> DefaultController for Fixed<ID> {
    fn with_default_config() -> Self {
        Fixed { stats: CongestionStats::default() }
    }
}

fn rtt() -> RttEstimator {
    RttEstimator { latest: Duration { nanos: 1 }, smoothed: Duration { nanos: 1 } }
}

#[test]
fn rates_of_those_present() {
    assert_eq!(least_rate(Some(3), Some(1), Some(2)), Some(1));
    assert_eq!(least_rate(Some(3), Some(4), None), Some(3));
    assert_eq!(least_rate(Some(3), None, Some(2)), Some(2));
    assert_eq!(least_rate(None, Some(4), Some(9)), Some(4));
    assert_eq!(least_rate(Some(3), None, None), Some(3));
    assert_eq!(least_rate(None, Some(4), None), Some(4));
    assert_eq!(least_rate(None, None, Some(5)), Some(5));
    assert_eq!(least_rate(None, None, None), None);
    assert_eq!(greatest_rate(Some(3), Some(1), Some(2)), Some(3));
    assert_eq!(greatest_rate(Some(3), Some(4), None), Some(4));
    assert_eq!(greatest_rate(Some(3), None, Some(2)), Some(3));
    assert_eq!(greatest_rate(None, Some(4), Some(9)), Some(9));
    assert_eq!(greatest_rate(Some(3), None, None), Some(3));
    assert_eq!(greatest_rate(None, Some(4), None), Some(4));
    assert_eq!(greatest_rate(None, None, Some(5)), Some(5));
    assert_eq!(greatest_rate(None, None, None), None);
}

#[test]
fn mix_of_defaults() {
    let mix = MixCC::<SQP, SQP, SQP>::new();
    assert_eq!(mix.name(), "MixCC");
    assert_eq!(mix.pacing_rate(), Some(2_000_000));
    assert_eq!(mix.congestion_window(), 10_000_000);
    assert!(!mix.in_slow_start());
    assert!(!mix.in_recovery(SENT_AT));
}

#[test]
fn controllers_are_told_in_turn() {
    let mut mix = MixCC::<Fixed<1>, Fixed<2>, Fixed<3>>::new();
    let mut packet = SentPacket { time_sent: SENT_AT, sent_size: 0 };
    mix.on_sent(SENT_AT, &mut packet, 9);
    // First, third type parameter, second: `bbr`, `copa`, `cubic`.
    assert_eq!(packet.sent_size, 132);
    assert_eq!(mix.stats().bytes_in_flight, 9);
    let actions = mix.on_ack(&mut packet, SENT_AT, false, &rtt(), 0);
    assert_eq!(actions, (1321, 13213, 132132));
    mix.begin_ack(SENT_AT, 4);
    mix.end_ack();
    mix.on_congestion_event(SENT_AT, &packet, false, 5, 0);
    assert_eq!(mix.stats().bytes_in_flight, 4);
    assert_eq!(mix.stats().bytes_acked_in_total, 1);
    assert_eq!(mix.stats().bytes_lost_in_total, 5);
}

#[test]
fn limits_come_from_bbr_and_cubic() {
    let mix = MixCC::<Fixed<4>, Fixed<3>, Fixed<1>>::new();
    assert_eq!(mix.congestion_window(), 300);
    assert_eq!(mix.initial_window(), 30);
    assert_eq!(mix.minimal_window(), 3);
    assert_eq!(mix.pacing_rate(), Some(3000));
    assert_eq!(mix.min_pacing_rate(), Some(4));
    let mix = MixCC::<Fixed<2>, Fixed<4>, Fixed<1>>::new();
    assert_eq!(mix.congestion_window(), 200);
    assert_eq!(mix.pacing_rate(), None);
    assert_eq!(mix.min_pacing_rate(), Some(4));
}

#[test]
fn slow_start_takes_all_and_recovery_takes_one() {
    assert!(MixCC::<Fixed<1>, Fixed<2>, Fixed<4>>::new().in_slow_start());
    assert!(!MixCC::<Fixed<1>, Fixed<2>, Fixed<3>>::new().in_slow_start());
    assert!(MixCC::<Fixed<1>, Fixed<2>, Fixed<3>>::new().in_recovery(SENT_AT));
    assert!(!MixCC::<Fixed<1>, Fixed<2>, Fixed<4>>::new().in_recovery(SENT_AT));
}
