//! Congestion controllers.

pub mod ack_history;
pub mod controller;
pub mod frame_starts;
pub mod history;
pub mod min_rtt;
pub mod mixcc;
pub mod sqp;
pub mod sqp_calls;
pub mod types;

pub use controller::{CongestionController, ControllerModel, DefaultController};
pub use min_rtt::{MinRttFilter, MinRttState};
pub use mixcc::{greatest_rate, least_rate, MixCC};
pub use sqp::{BandwidthSample, SQPConfig, SqpState, SQP};
pub use types::{CongestionStats, F64Bits, RecoveryConfig, RttEstimator, SentPacket};
