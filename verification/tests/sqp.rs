use tquic_sqp::congestion_control::{
    BandwidthSample, CongestionController, CongestionStats, DefaultController, F64Bits,
    MinRttFilter, RecoveryConfig, RttEstimator, SQPConfig, SentPacket, SQP,
};
use tquic_sqp::time::{Duration, Instant, MAX_NANOS};

fn at(millis: u128) -> Instant {
    Instant { nanos: millis * 1_000_000 }
}

fn span(millis: u128) -> Duration {
    Duration { nanos: millis * 1_000_000 }
}

fn packet(millis: u128, sent_size: usize) -> SentPacket {
    SentPacket { time_sent: at(millis), sent_size }
}

fn rtt(latest: u128, smoothed: u128) -> RttEstimator {
    RttEstimator { latest: span(latest), smoothed: span(smoothed) }
}

fn send(sqp: &mut SQP, millis: u128, size: usize) {
    sqp.on_sent(at(millis), &mut packet(millis, size), size as u64);
}

fn ack(sqp: &mut SQP, sent: u128, size: usize, now: u128) -> Option<BandwidthSample> {
    let rtt = rtt(now - sent, 40);
    assert!(sqp.is_ack_ready(&packet(sent, size), &rtt));
    sqp.on_ack(&mut packet(sent, size), at(now), false, &rtt, 0)
}

#[test]
fn durations_and_instants() {
    assert_eq!(Duration::from_secs(3).as_nanos(), 3_000_000_000);
    assert_eq!(span(5).double(), span(10));
    assert_eq!(Duration { nanos: MAX_NANOS / 2 }.double().nanos, MAX_NANOS - 1);
    assert!(span(2).longer_than(span(1)));
    assert!(!span(1).longer_than(span(1)));
    assert_eq!(at(7).saturating_duration_since(at(4)), span(3));
    assert_eq!(at(4).saturating_duration_since(at(7)), span(0));
    assert!(at(4).not_after(at(4)));
    assert!(!at(5).not_after(at(4)));
}

#[test]
fn longest_span_is_that_of_the_host() {
    assert_eq!(std::time::Duration::MAX.as_nanos(), MAX_NANOS);
}

#[test]
fn new_filter_has_no_minimum() {
    assert_eq!(MinRttFilter::new().get_min_rtt(), None);
}

#[test]
fn filter_gives_least_sample() {
    let mut filter = MinRttFilter::new();
    filter.update(30, at(0));
    assert_eq!(filter.get_min_rtt(), Some(30));
    filter.update(10, at(1));
    filter.update(20, at(2));
    assert_eq!(filter.get_min_rtt(), Some(10));
}

#[test]
fn filter_drops_what_is_older_than_a_second() {
    let mut filter = MinRttFilter::new();
    filter.update(10, at(0));
    filter.update(20, at(1000));
    assert_eq!(filter.get_min_rtt(), Some(10));
    filter.update(30, at(1001));
    assert_eq!(filter.get_min_rtt(), Some(20));
}

#[test]
fn filter_keeps_newest_sample_under_an_empty_window() {
    let mut filter = MinRttFilter::new();
    filter.update(10, at(0));
    filter.set_window(span(0));
    assert_eq!(filter.get_min_rtt(), Some(10));
    filter.update(90, at(1));
    assert_eq!(filter.get_min_rtt(), Some(90));
}

#[test]
fn filter_keeps_stale_sample_behind_a_fresh_one() {
    let mut filter = MinRttFilter::new();
    filter.update(50, at(5000));
    filter.update(10, at(100));
    filter.update(70, at(5001));
    assert_eq!(filter.get_min_rtt(), Some(10));
}

#[test]
fn default_config_holds_the_documented_parameters() {
    let config = SQPConfig::new();
    assert_eq!(config.init_pacing_rate, 2_000_000);
    assert_eq!(config.frame_interval, 30);
    assert_eq!(f64::from_bits(config.param_m.bits), 2.0);
    assert_eq!(f64::from_bits(config.param_t.bits), 0.9);
    assert_eq!(config.param_delta, 320_000);
    assert_eq!(f64::from_bits(config.param_r.bits), 0.25);
    assert_eq!(SQPConfig::default(), config);
}

#[test]
fn config_is_taken_from_recovery_settings() {
    let bits = |x: f64| F64Bits { bits: x.to_bits() };
    let mut config = SQPConfig::from(&RecoveryConfig {
        sqp_init_pacing_rate: 1,
        sqp_frame_interval: 2,
        sqp_param_m: bits(3.5),
        sqp_param_t: bits(4.5),
        sqp_param_delta: 5,
        sqp_param_r: bits(6.5),
    });
    assert_eq!(config.init_pacing_rate, 1);
    assert_eq!(config.frame_interval, 2);
    assert_eq!(config.param_m, bits(3.5));
    assert_eq!(config.param_t, bits(4.5));
    assert_eq!(config.param_delta, 5);
    assert_eq!(config.param_r, bits(6.5));
    config.set_frame_interval(60);
    assert_eq!(config.frame_interval, 60);
    assert_eq!(config.param_delta, 5);
}

#[test]
fn new_controller() {
    let sqp = SQP::new(SQPConfig::new());
    assert_eq!(sqp.name(), "SQP");
    assert_eq!(sqp.pacing_rate(), Some(2_000_000));
    assert_eq!(sqp.min_pacing_rate(), Some(2_000_000));
    assert_eq!(sqp.get_sqp_bandwidth_estimate(), Some(1_000_000));
    assert_eq!(*sqp.stats(), CongestionStats::default());
    assert_eq!(SQP::with_default_config().pacing_rate(), Some(2_000_000));
}

#[test]
fn window_never_moves() {
    let mut sqp = SQP::new(SQPConfig::new());
    send(&mut sqp, 0, 1000);
    sqp.on_congestion_event(at(1), &packet(0, 1000), true, 1000, 0);
    assert_eq!(sqp.congestion_window(), 10_000_000);
    assert_eq!(sqp.initial_window(), 10_000_000);
    assert_eq!(sqp.minimal_window(), 10_000_000);
    assert!(!sqp.in_slow_start());
    assert!(!sqp.in_recovery(at(0)));
}

#[test]
fn frame_gives_one_sample_when_it_is_acknowledged() {
    let mut sqp = SQP::new(SQPConfig::new());
    sqp.set_sqp_frame_size(2000);
    send(&mut sqp, 100, 1200);
    send(&mut sqp, 101, 800);
    assert_eq!(ack(&mut sqp, 100, 1200, 150), None);
    let sample = ack(&mut sqp, 101, 800, 160).unwrap();
    assert_eq!(
        sample,
        BandwidthSample {
            config: SQPConfig::new(),
            frame_size: 2000,
            bandwidth_estimate: 1_000_000,
            since_first_sent: 60_000_000,
            since_first_acked: 10_000_000,
            min_rtt: 50_000_000,
        }
    );
    assert_eq!(ack(&mut sqp, 101, 800, 170), None);
}

#[test]
fn frames_are_measured_in_the_order_announced() {
    let mut sqp = SQP::new(SQPConfig::new());
    sqp.set_sqp_frame_size(1000);
    sqp.set_sqp_frame_size(500);
    send(&mut sqp, 0, 1000);
    assert_eq!(ack(&mut sqp, 0, 1000, 10).unwrap().frame_size, 1000);
    send(&mut sqp, 20, 500);
    assert_eq!(ack(&mut sqp, 20, 500, 30).unwrap().frame_size, 500);
}

#[test]
fn frame_that_started_early_keeps_its_start() {
    let mut sqp = SQP::new(SQPConfig::new());
    sqp.set_sqp_frame_size(1000);
    sqp.set_sqp_frame_size(500);
    send(&mut sqp, 0, 1000);
    // The first frame is sent whole, so this packet is the first of the second frame.
    send(&mut sqp, 5, 400);
    assert_eq!(ack(&mut sqp, 0, 1000, 10).unwrap().since_first_sent, 10_000_000);
    send(&mut sqp, 12, 100);
    assert_eq!(ack(&mut sqp, 5, 400, 20), None);
    let sample = ack(&mut sqp, 12, 100, 25).unwrap();
    assert_eq!(sample.since_first_sent, 20_000_000);
    assert_eq!(sample.since_first_acked, 5_000_000);
}

#[test]
fn packet_that_fills_a_frame_exactly_begins_no_other() {
    let mut sqp = SQP::new(SQPConfig::new());
    sqp.set_sqp_frame_size(1000);
    send(&mut sqp, 0, 1000);
    assert!(ack(&mut sqp, 0, 1000, 100).is_some());
    sqp.set_sqp_frame_size(1000);
    send(&mut sqp, 5000, 1000);
    assert_eq!(ack(&mut sqp, 5000, 1000, 5100).unwrap().since_first_sent, 100_000_000);
}

#[test]
fn packet_that_goes_beyond_a_frame_begins_the_next() {
    let mut sqp = SQP::new(SQPConfig::new());
    sqp.set_sqp_frame_size(1000);
    sqp.set_sqp_frame_size(500);
    send(&mut sqp, 0, 600);
    send(&mut sqp, 3, 600);
    assert!(ack(&mut sqp, 0, 1000, 10).is_some());
    send(&mut sqp, 12, 300);
    assert_eq!(ack(&mut sqp, 12, 500, 23).unwrap().since_first_sent, 20_000_000);
}

#[test]
fn packet_that_goes_beyond_the_last_frame_begins_none() {
    let mut sqp = SQP::new(SQPConfig::new());
    sqp.set_sqp_frame_size(1000);
    send(&mut sqp, 0, 1600);
    sqp.set_sqp_frame_size(500);
    assert!(ack(&mut sqp, 0, 1600, 10).is_some());
    send(&mut sqp, 12, 500);
    assert_eq!(ack(&mut sqp, 12, 500, 20).unwrap().since_first_sent, 8_000_000);
}

#[test]
fn packet_that_spans_frames_begins_each_of_them() {
    let mut sqp = SQP::new(SQPConfig::new());
    for size in [100, 200, 300] {
        sqp.set_sqp_frame_size(size);
    }
    send(&mut sqp, 0, 50);
    send(&mut sqp, 4, 260);
    send(&mut sqp, 6, 290);
    assert_eq!(ack(&mut sqp, 0, 100, 10).unwrap().since_first_sent, 10_000_000);
    send(&mut sqp, 11, 1);
    assert_eq!(ack(&mut sqp, 4, 200, 12).unwrap().since_first_sent, 8_000_000);
    send(&mut sqp, 13, 1);
    assert_eq!(ack(&mut sqp, 6, 300, 14).unwrap().since_first_sent, 10_000_000);
}

#[test]
fn frame_announced_in_flight_begins_with_the_next_packet() {
    let mut sqp = SQP::new(SQPConfig::new());
    sqp.set_sqp_frame_size(1000);
    send(&mut sqp, 0, 1000);
    sqp.set_sqp_frame_size(700);
    send(&mut sqp, 7, 700);
    assert!(ack(&mut sqp, 0, 1000, 10).is_some());
    send(&mut sqp, 11, 1);
    assert_eq!(ack(&mut sqp, 7, 700, 17).unwrap().since_first_sent, 10_000_000);
}

#[test]
fn packet_from_before_the_frame_does_not_count() {
    let mut sqp = SQP::new(SQPConfig::new());
    send(&mut sqp, 0, 5000);
    sqp.set_sqp_frame_size(1000);
    send(&mut sqp, 10, 600);
    assert_eq!(ack(&mut sqp, 0, 5000, 20), None);
    assert_eq!(ack(&mut sqp, 10, 600, 25), None);
    assert!(ack(&mut sqp, 10, 400, 30).is_some());
    assert_eq!(sqp.stats().bytes_acked_in_total, 6000);
}

#[test]
fn acknowledgement_without_frames_gives_no_sample() {
    let mut sqp = SQP::new(SQPConfig::new());
    send(&mut sqp, 0, 1000);
    assert_eq!(ack(&mut sqp, 0, 1000, 10), None);
}

#[test]
fn empty_frame_is_ready_only_once_begun() {
    let mut sqp = SQP::new(SQPConfig::new());
    sqp.set_sqp_frame_size(0);
    assert!(!sqp.is_ack_ready(&packet(0, 100), &rtt(10, 10)));
    send(&mut sqp, 5, 100);
    assert!(!sqp.is_ack_ready(&packet(4, 100), &rtt(10, 10)));
    assert_eq!(ack(&mut sqp, 5, 100, 15).unwrap().frame_size, 0);
}

#[test]
fn smoothed_round_trip_has_to_be_doubled() {
    let sqp = SQP::new(SQPConfig::new());
    let estimate = |nanos| RttEstimator { latest: span(1), smoothed: Duration { nanos } };
    assert!(sqp.is_ack_ready(&packet(0, 1), &estimate(MAX_NANOS / 2)));
    assert!(!sqp.is_ack_ready(&packet(0, 1), &estimate(MAX_NANOS / 2 + 1)));
}

#[test]
fn round_trip_window_is_twice_the_smoothed_estimate() {
    let mut sqp = SQP::new(SQPConfig::new());
    sqp.set_sqp_frame_size(200);
    send(&mut sqp, 0, 200);
    assert_eq!(ack(&mut sqp, 0, 100, 10), None);
    // 80 ms at a smoothed estimate of 40 ms: the sample of 10 ms is gone at 91 ms.
    assert_eq!(ack(&mut sqp, 0, 100, 91).unwrap().min_rtt, 91_000_000);
}

#[test]
fn counters_hold_the_totals() {
    let mut sqp = SQP::new(SQPConfig::new());
    send(&mut sqp, 0, 1000);
    send(&mut sqp, 1, 500);
    ack(&mut sqp, 0, 200, 10);
    sqp.begin_ack(at(10), 0);
    sqp.end_ack();
    assert_eq!(
        *sqp.stats(),
        CongestionStats {
            bytes_in_flight: 300,
            bytes_sent_in_total: 1500,
            bytes_acked_in_total: 200,
            bytes_lost_in_total: 0,
            bytes_acked_in_slow_start: 0,
            bytes_lost_in_slow_start: 0,
        }
    );
    sqp.on_congestion_event(at(11), &packet(1, 500), false, u64::MAX, 7);
    sqp.on_congestion_event(at(12), &packet(1, 500), false, 1, 6);
    assert_eq!(sqp.stats().bytes_lost_in_total, u64::MAX);
    assert_eq!(sqp.stats().bytes_lost_in_slow_start, 0);
    assert_eq!(sqp.stats().bytes_in_flight, 6);
}

#[test]
fn estimate_of_zero_is_dropped() {
    let mut sqp = SQP::new(SQPConfig::new());
    sqp.set_bandwidth_estimate(0, 9);
    assert_eq!(sqp.get_sqp_bandwidth_estimate(), Some(1_000_000));
    assert_eq!(sqp.pacing_rate(), Some(2_000_000));
    sqp.set_bandwidth_estimate(4_000_000, 1_000_000);
    assert_eq!(sqp.get_sqp_bandwidth_estimate(), Some(4_000_000));
    assert_eq!(sqp.pacing_rate(), Some(1_000_000));
    assert_eq!(sqp.min_pacing_rate(), Some(1_000_000));
}
