# tquic_sqp

Congestion control and endpoint logic for a QUIC transport, written and proved in Verus.

- `src/time.rs`: points in time and spans of time.
- `src/congestion_control/`: the interface of a controller and its model
  (`controller.rs`), the `SQP` controller (`sqp.rs`) with its round-trip filter
  (`min_rtt.rs`), the `MixCC` combination of three controllers (`mixcc.rs`), what holds of
  `SQP` over any history of events (`history.rs`), and with which packet each of its
  frames begins (`frame_starts.rs`).
- `src/endpoint/`: what a client and a server decide around their sockets and streams:
  sessions, stream reassembly, callbacks, send batches, read loops, timeouts, addresses
  and settings. Byte buffers are those of the `bytes` crate; `buffer.rs` states what is
  trusted of it.
- `tests/`: the library on concrete values.
- `app/`: the programs around the library. They run on the `tquic` transport engine.
  `sqp_driver.rs` hands the `SQP` controller to the engine and holds the floating-point
  arithmetic from a sample to an estimate.

A controller works in two steps. `SQP::on_ack` gives a `BandwidthSample` when a frame is
complete; the caller computes the next estimate from it and hands it back with
`SQP::set_bandwidth_estimate`.
