//! Congestion control and endpoint logic for a QUIC transport.
//!
//! [`congestion_control`] holds the frame-paced `SQP` controller, its minimum
//! round-trip filter, and the `MixCC` combination of three controllers.
//! [`endpoint`] holds what a client and a server decide around their sockets and
//! streams: sessions, stream reassembly, callbacks, send batches and settings.
//! [`time`] is the clock both speak of.

pub mod congestion_control;
pub mod endpoint;
pub mod time;
