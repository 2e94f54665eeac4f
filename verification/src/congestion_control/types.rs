//! The values that congestion controllers exchange with a connection.

use vstd::prelude::*;

use crate::time::{Duration, Instant};

verus! {

/// A double-precision number, held by its IEEE 754 bit pattern.
#[derive(Clone, Copy, Debug, PartialEq, Eq, Structural)]
pub struct F64Bits {
    /// The bit pattern.
    pub bits: u64,
}

/// Counters of a congestion controller.
#[derive(Clone, Copy, Debug, PartialEq, Eq, Structural)]
pub struct CongestionStats {
    /// Bytes sent and neither acknowledged nor lost.
    pub bytes_in_flight: u64,
    /// Bytes sent since the start.
    pub bytes_sent_in_total: u64,
    /// Bytes acknowledged since the start.
    pub bytes_acked_in_total: u64,
    /// Bytes lost since the start.
    pub bytes_lost_in_total: u64,
    /// Bytes acknowledged during slow start.
    pub bytes_acked_in_slow_start: u64,
    /// Bytes lost during slow start.
    pub bytes_lost_in_slow_start: u64,
}

impl CongestionStats {
    /// All counters at zero.
    pub open spec fn zero() -> CongestionStats {
        CongestionStats {
            bytes_in_flight: 0,
            bytes_sent_in_total: 0,
            bytes_acked_in_total: 0,
            bytes_lost_in_total: 0,
            bytes_acked_in_slow_start: 0,
            bytes_lost_in_slow_start: 0,
        }
    }
}

impl Default for CongestionStats {
    fn default() -> (stats: Self)
        ensures
            stats == CongestionStats::zero(),
    {
        CongestionStats {
            bytes_in_flight: 0,
            bytes_sent_in_total: 0,
            bytes_acked_in_total: 0,
            bytes_lost_in_total: 0,
            bytes_acked_in_slow_start: 0,
            bytes_lost_in_slow_start: 0,
        }
    }
}

/// A packet that was sent, as far as congestion control reads it.
#[derive(Clone, Copy, Debug, PartialEq, Eq, Structural)]
pub struct SentPacket {
    /// When the packet was sent.
    pub time_sent: Instant,
    /// Its size in bytes.
    pub sent_size: usize,
}

/// The round-trip estimate of a connection.
#[derive(Clone, Copy, Debug, PartialEq, Eq, Structural)]
pub struct RttEstimator {
    /// The latest sample.
    pub latest: Duration,
    /// The smoothed estimate.
    pub smoothed: Duration,
}

impl RttEstimator {
    /// The latest sample.
    pub fn latest_rtt(&self) -> (rtt: Duration)
        ensures
            rtt == self.latest,
    {
        self.latest
    }

    /// The smoothed estimate.
    pub fn smoothed_rtt(&self) -> (rtt: Duration)
        ensures
            rtt == self.smoothed,
    {
        self.smoothed
    }
}

/// The settings of loss recovery that the `SQP` controller takes its own from.
#[derive(Clone, Copy, Debug, PartialEq, Eq, Structural)]
pub struct RecoveryConfig {
    pub sqp_init_pacing_rate: u64,
    pub sqp_frame_interval: u64,
    pub sqp_param_m: F64Bits,
    pub sqp_param_t: F64Bits,
    pub sqp_param_delta: u64,
    pub sqp_param_r: F64Bits,
}

} // verus!
