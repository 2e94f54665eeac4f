//! What a client and a server decide around their sockets and streams.

pub mod address;
pub mod buffer;
pub mod callbacks;
pub mod reassembly;
pub mod session;
pub mod settings;
pub mod sockets;
pub mod timer;

pub use address::peer_address;
pub use buffer::{StreamBuffer, MAX_BUFFERED};
pub use callbacks::{CallbackEvent, QuicCallBacks};
pub use reassembly::{ClientRead, RecvQueue, ServerRead, ServerStreams, TextRead};
pub use session::{
    on_response, request_write, server_write, CallbackResponse, ClientSession, CloseRequest,
    EstimateOutcome, ResponseAction, SessionError, StreamWrite, WriteKind, WriteOutcome,
    CLOSE_REASON, REQUEST, STREAM_STEP,
};
pub use settings::{Algorithm, EndpointSettings, Identity};
pub use sockets::{
    is_socket_event, recv_step, RecvOutcome, RecvStep, SendBatch, SendOutcome, SendStep,
    SOCKET_TOKEN,
};
pub use timer::{timeout_delta, TimeoutDelta};
