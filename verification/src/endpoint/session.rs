//! What an endpoint asks of a connection, and what it reports of the answer.

use bytes::Bytes;

use vstd::prelude::*;

use super::buffer::{bytes_copy_from_slice, bytes_from_string};

verus! {

/// The distance between the numbers of two streams that the same side opens in the
/// same direction.
pub const STREAM_STEP: u64 = 4;

/// The text of a request for a resource.
pub const REQUEST: &'static str = "GET /resource\r\n";

/// The reason given when a connection is closed in good order.
pub const CLOSE_REASON: &'static str = "Nomal Closure";

/// Which of the transport's ways to write a stream is taken.
#[derive(Clone, Copy, Debug, PartialEq, Eq, Structural)]
pub enum WriteKind {
    /// The bytes are written.
    Plain,
    /// The bytes are written as one frame, whose size the congestion controller is told.
    Frame,
}

/// A write to a stream of a connection.
#[derive(Debug)]
pub struct StreamWrite {
    /// The index of the connection.
    pub connection: u64,
    /// The stream.
    pub stream_id: u64,
    /// The bytes to write.
    pub data: Bytes,
    /// Whether they are the last of the stream.
    pub fin: bool,
    /// How they are written.
    pub kind: WriteKind,
}

/// How a write went.
#[derive(Clone, Copy, Debug, PartialEq, Eq, Structural)]
pub enum WriteOutcome {
    /// So many bytes were written.
    Written(usize),
    /// The stream took nothing.
    Failed,
    /// The connection does not exist.
    NoConnection,
}

impl WriteOutcome {
    /// The number of bytes that is reported for the write: zero unless some were
    /// written.
    pub open spec fn reported(self) -> usize {
        match self {
            WriteOutcome::Written(len) => len,
            WriteOutcome::Failed | WriteOutcome::NoConnection => 0,
        }
    }

    /// The stream that the next message of a client goes to, when the last one went to
    /// `stream_id` as the outcome says: the next stream where it was written, otherwise
    /// the same.
    pub open spec fn stream_after(self, stream_id: nat) -> nat {
        match self {
            WriteOutcome::Written(_) => stream_id + STREAM_STEP as nat,
            WriteOutcome::Failed | WriteOutcome::NoConnection => stream_id,
        }
    }

    /// The number of bytes that is reported for the write.
    pub fn reported_len(&self) -> (len: usize)
        ensures
            len == self.reported(),
    {
        match *self {
            WriteOutcome::Written(len) => len,
            WriteOutcome::Failed | WriteOutcome::NoConnection => 0,
        }
    }
}

/// How a question for the bandwidth estimate went.
#[derive(Clone, Copy, Debug, PartialEq, Eq, Structural)]
pub enum EstimateOutcome {
    /// The estimate, in bits per second.
    Estimate(u64),
    /// The connection has no estimate to give.
    Failed,
    /// The connection does not exist.
    NoConnection,
}

impl EstimateOutcome {
    /// The estimate that is reported, where there is one.
    pub fn reported_estimate(&self) -> (estimate: Option<u64>)
        ensures
            match *self {
                EstimateOutcome::Estimate(bandwidth) => estimate == Some(bandwidth),
                EstimateOutcome::Failed | EstimateOutcome::NoConnection => estimate is None,
            },
    {
        match *self {
            EstimateOutcome::Estimate(bandwidth) => Some(bandwidth),
            EstimateOutcome::Failed | EstimateOutcome::NoConnection => None,
        }
    }
}

/// Why a client cannot send.
#[derive(Clone, Copy, Debug, PartialEq, Eq, Structural)]
pub enum SessionError {
    /// There is no connection yet.
    NoActiveConnection,
}

impl SessionError {
    /// The message of the error.
    pub fn message(&self) -> (text: &'static str)
        ensures
            text@ == "No active connection"@,
    {
        "No active connection"
    }
}

/// The closing of a connection.
#[derive(Clone, Copy, Debug)]
pub struct CloseRequest {
    /// The index of the connection.
    pub connection: u64,
    /// Whether it is the application that closes.
    pub app: bool,
    /// The error code.
    pub error_code: u64,
    /// The reason.
    pub reason: &'static str,
}

/// The connection of a client and the stream that its next message goes to.
#[derive(Debug)]
pub struct ClientSession {
    connection: Option<u64>,
    stream_id: u64,
}

impl ClientSession {
    /// The connection, once there is one.
    pub closed spec fn current(&self) -> Option<u64> {
        self.connection
    }

    /// The stream that the next message goes to.
    pub closed spec fn next_stream(&self) -> u64 {
        self.stream_id
    }

    /// A client that has no connection; its first message goes to stream 0.
    pub fn new() -> (session: Self)
        ensures
            session.current() is None,
            session.next_stream() == 0,
    {
        ClientSession { connection: None, stream_id: 0 }
    }

    /// The connection, once there is one.
    pub fn connection(&self) -> (connection: Option<u64>)
        ensures
            connection == self.current(),
    {
        self.connection
    }

    /// The stream that the next message goes to.
    pub fn stream_id(&self) -> (stream_id: u64)
        ensures
            stream_id == self.next_stream(),
    {
        self.stream_id
    }

    /// A connection was opened. It takes the place of an earlier one.
    pub fn connected(&mut self, connection: u64)
        ensures
            final(self).current() == Some(connection),
            final(self).next_stream() == old(self).next_stream(),
    {
        self.connection = Some(connection);
    }

    /// The write of the given kind that sends `data` as one message. It is an error where there is no
    /// connection, and only there.
    pub fn begin_send(&self, data: &[u8], kind: WriteKind) -> (write: Result<
        StreamWrite,
        SessionError,
    >)
        ensures
            match write {
                Ok(write) => {
                    &&& self.current() == Some(write.connection)
                    &&& write.stream_id == self.next_stream()
                    &&& super::buffer::bytes_contents(write.data) == data@
                    &&& write.fin
                    &&& write.kind == kind
                },
                Err(error) => self.current() is None && error
                    == SessionError::NoActiveConnection,
            },
    {
        match self.connection {
            Some(connection) => Ok(
                StreamWrite {
                    connection,
                    stream_id: self.stream_id,
                    data: bytes_copy_from_slice(data),
                    fin: true,
                    kind,
                },
            ),
            None => Err(SessionError::NoActiveConnection),
        }
    }

    /// The write came back. Only where bytes were written, the next message goes to
    /// the next stream. Gives the number of bytes to report.
    pub fn finish_send(&mut self, outcome: WriteOutcome) -> (len: usize)
        requires
            outcome.stream_after(old(self).next_stream() as nat) <= u64::MAX,
        ensures
            len == outcome.reported(),
            final(self).current() == old(self).current(),
            final(self).next_stream() == outcome.stream_after(old(self).next_stream() as nat),
    {
        if let WriteOutcome::Written(_) = outcome {
            self.stream_id = self.stream_id + STREAM_STEP;
        }
        outcome.reported_len()
    }

    /// The closing of the connection, where there is one.
    pub fn begin_close(&self) -> (close: Option<CloseRequest>)
        ensures
            match close {
                Some(close) => {
                    &&& self.current() == Some(close.connection)
                    &&& close.app
                    &&& close.error_code == 0
                    &&& close.reason@ == CLOSE_REASON@
                },
                None => self.current() is None,
            },
    {
        match self.connection {
            Some(connection) => Some(
                CloseRequest { connection, app: true, error_code: 0, reason: CLOSE_REASON },
            ),
            None => None,
        }
    }
}

/// The stream that the next message of a client goes to, when the first went to
/// `stream_id` and the writes since then went as `outcomes` says.
pub open spec fn stream_after_all(stream_id: nat, outcomes: Seq<WriteOutcome>) -> nat
    decreases outcomes.len(),
{
    if outcomes.len() == 0 {
        stream_id
    } else {
        outcomes.last().stream_after(stream_after_all(stream_id, outcomes.drop_last()))
    }
}

/// The number of writes that went through.
pub open spec fn writes(outcomes: Seq<WriteOutcome>) -> nat {
    outcomes.filter(|outcome: WriteOutcome| outcome is Written).len()
}

/// After so many writes that went through a client is so many steps from its first
/// stream. So no two messages that went through share a stream, and all of a client's
/// streams are of the same kind: the numbers leave the same remainder by the step.
pub proof fn each_message_has_its_own_stream(stream_id: nat, outcomes: Seq<WriteOutcome>)
    ensures
        stream_after_all(stream_id, outcomes) == stream_id + STREAM_STEP as nat * writes(outcomes),
        stream_after_all(stream_id, outcomes) % STREAM_STEP as nat == stream_id
            % STREAM_STEP as nat,
    decreases outcomes.len(),
{
    reveal(Seq::filter);
    if outcomes.len() > 0 {
        each_message_has_its_own_stream(stream_id, outcomes.drop_last());
    }
}

/// The write of the given kind by which a server sends `data` as the last message of a stream.
pub fn server_write(
    connection: u64,
    stream_id: u64,
    data: &[u8],
    kind: WriteKind,
) -> (write: StreamWrite)
    ensures
        write.connection == connection,
        write.stream_id == stream_id,
        super::buffer::bytes_contents(write.data) == data@,
        write.fin,
        write.kind == kind,
{
    StreamWrite { connection, stream_id, data: bytes_copy_from_slice(data), fin: true, kind }
}

/// The write by which a client asks for the resource on stream 0, once `connection` is
/// established.
pub fn request_write(connection: u64) -> (write: StreamWrite)
    ensures
        write.connection == connection,
        write.stream_id == 0,
        super::buffer::bytes_contents(write.data) == vstd::utf8::encode_utf8(REQUEST@),
        write.fin,
        write.kind == WriteKind::Plain,
{
    StreamWrite {
        connection,
        stream_id: 0,
        data: bytes_from_string(REQUEST.to_owned()),
        fin: true,
        kind: WriteKind::Plain,
    }
}

/// What a callback gave back for a message.
#[derive(Debug)]
pub enum CallbackResponse {
    /// Nothing.
    Nothing,
    /// Bytes.
    Data(Vec<u8>),
    /// Something that is not bytes.
    NotBytes,
    /// The callback failed.
    Failed,
}

/// What a server does with the response of its callback.
#[derive(Debug)]
pub enum ResponseAction {
    /// Nothing.
    Ignore,
    /// Write the response to the stream of the message.
    Reply(StreamWrite),
    /// Report that the response is not bytes.
    ReportNotBytes,
    /// Report that the callback failed.
    ReportFailure,
}

/// What a server does with the response to the message of a stream: bytes are written
/// back to the stream, and end it.
pub fn on_response(
    connection: u64,
    stream_id: u64,
    response: &CallbackResponse,
) -> (action: ResponseAction)
    ensures
        match *response {
            CallbackResponse::Nothing => action is Ignore,
            CallbackResponse::Data(data) => action matches ResponseAction::Reply(write) && {
                &&& write.connection == connection
                &&& write.stream_id == stream_id
                &&& super::buffer::bytes_contents(write.data) == data@
                &&& write.fin
                &&& write.kind == WriteKind::Plain
            },
            CallbackResponse::NotBytes => action is ReportNotBytes,
            CallbackResponse::Failed => action is ReportFailure,
        },
{
    match response {
        CallbackResponse::Nothing => ResponseAction::Ignore,
        CallbackResponse::Data(data) => ResponseAction::Reply(
            server_write(connection, stream_id, data.as_slice(), WriteKind::Plain),
        ),
        CallbackResponse::NotBytes => ResponseAction::ReportNotBytes,
        CallbackResponse::Failed => ResponseAction::ReportFailure,
    }
}

/// A client sends where it has a connection, and only there: on that connection, to its next
/// stream, all of the data, as the last of the stream and in the way that was asked for. Sending
/// alone does not change the stream.
pub proof fn messages_go_to_the_connection(
    session: ClientSession,
    data: &[u8],
    kind: WriteKind,
    connection: Option<u64>,
    stream_id: u64,
    write: Result<StreamWrite, SessionError>,
)
    requires
        call_ensures(ClientSession::connection, (&session,), connection),
        call_ensures(ClientSession::stream_id, (&session,), stream_id),
        call_ensures(ClientSession::begin_send, (&session, data, kind), write),
    ensures
        write is Ok <==> connection is Some,
        write matches Ok(sent) ==> {
            &&& Some(sent.connection) == connection
            &&& sent.stream_id == stream_id
            &&& super::buffer::bytes_contents(sent.data) == data@
            &&& sent.fin
            &&& sent.kind == kind
        },
        write matches Err(error) ==> error == SessionError::NoActiveConnection,
{
}

/// A write that went through moves a client on by four streams and is reported with its length,
/// whatever that is. Any other write leaves the stream and is reported as nothing. The connection
/// stays.
pub proof fn writes_move_the_stream_on(
    session: &mut ClientSession,
    outcome: WriteOutcome,
    len: usize,
    before: u64,
    after: u64,
    connection_before: Option<u64>,
    connection_after: Option<u64>,
)
    requires
        call_ensures(ClientSession::stream_id, (old(session),), before),
        call_ensures(ClientSession::connection, (old(session),), connection_before),
        call_ensures(ClientSession::finish_send, (session, outcome), len),
        call_ensures(ClientSession::stream_id, (final(session),), after),
        call_ensures(ClientSession::connection, (final(session),), connection_after),
    ensures
        outcome matches WriteOutcome::Written(written) ==> after == before + 4 && len == written,
        !(outcome is Written) ==> after == before && len == 0,
        connection_after == connection_before,
{
}

/// What is reported of a write is the number of bytes that were written, zero where it failed;
/// and of a question for the estimate, the estimate where there is one.
pub proof fn outcomes_are_reported_as_they_are(
    written: WriteOutcome,
    len: usize,
    asked: EstimateOutcome,
    estimate: Option<u64>,
)
    requires
        call_ensures(WriteOutcome::reported_len, (&written,), len),
        call_ensures(EstimateOutcome::reported_estimate, (&asked,), estimate),
    ensures
        written == WriteOutcome::Written(len) || (len == 0 && !(written is Written)),
        estimate is Some <==> asked is Estimate,
        estimate matches Some(bandwidth) ==> asked == EstimateOutcome::Estimate(bandwidth),
{
}

/// A client starts on stream 0 without a connection. The connection that was opened last is the
/// one that is used, and opening one leaves the stream.
pub proof fn last_connection_counts(
    fresh: ClientSession,
    no_connection: Option<u64>,
    first_stream: u64,
    session: &mut ClientSession,
    opened: u64,
    before: u64,
    after: u64,
    connection: Option<u64>,
)
    requires
        call_ensures(ClientSession::new, (), fresh),
        call_ensures(ClientSession::connection, (&fresh,), no_connection),
        call_ensures(ClientSession::stream_id, (&fresh,), first_stream),
        call_ensures(ClientSession::stream_id, (old(session),), before),
        call_ensures(ClientSession::connected, (session, opened), ()),
        call_ensures(ClientSession::stream_id, (final(session),), after),
        call_ensures(ClientSession::connection, (final(session),), connection),
    ensures
        no_connection is None,
        first_stream == 0,
        connection == Some(opened),
        after == before,
{
}

/// A client closes the connection that it sends on, where it can send at all, as the application
/// and without an error.
pub proof fn closing_is_of_the_same_connection(
    session: ClientSession,
    data: &[u8],
    kind: WriteKind,
    write: Result<StreamWrite, SessionError>,
    close: Option<CloseRequest>,
)
    requires
        call_ensures(ClientSession::begin_send, (&session, data, kind), write),
        call_ensures(ClientSession::begin_close, (&session,), close),
    ensures
        close is Some <==> write is Ok,
        close matches Some(request) ==> {
            &&& request.connection == write->Ok_0.connection
            &&& request.app
            &&& request.error_code == 0
            &&& request.reason@ == "Nomal Closure"@
        },
{
}

/// A server answers on the connection and the stream of the message, with all of the bytes, and
/// ends the stream: of its own accord in the way that is asked for, and after a callback, where
/// that gave bytes, as a plain write of the same bytes. A callback that gave nothing, something
/// else or failed is answered with no write.
pub proof fn answers_go_to_the_stream_of_the_message(
    connection: u64,
    stream_id: u64,
    data: &[u8],
    kind: WriteKind,
    write: StreamWrite,
    response: CallbackResponse,
    action: ResponseAction,
)
    requires
        call_ensures(server_write, (connection, stream_id, data, kind), write),
        call_ensures(on_response, (connection, stream_id, &response), action),
    ensures
        write.connection == connection && write.stream_id == stream_id && write.fin,
        super::buffer::bytes_contents(write.data) == data@,
        write.kind == kind,
        action is Reply <==> response is Data,
        action is Ignore <==> response is Nothing,
        action is ReportNotBytes <==> response is NotBytes,
        action is ReportFailure <==> response is Failed,
        action matches ResponseAction::Reply(reply) ==> {
            &&& reply.connection == write.connection
            &&& reply.stream_id == write.stream_id
            &&& reply.fin
            &&& reply.kind == WriteKind::Plain
            &&& super::buffer::bytes_contents(reply.data) == response->Data_0@
        },
{
}

/// The request for the resource is the same on every connection: the request line, which is all
/// of stream 0, written plainly.
pub proof fn request_is_the_request_line(connection: u64, write: StreamWrite)
    requires
        call_ensures(request_write, (connection,), write),
    ensures
        write.connection == connection && write.stream_id == 0 && write.fin,
        write.kind == WriteKind::Plain,
        super::buffer::bytes_contents(write.data) == vstd::utf8::encode_utf8(
            "GET /resource\r\n"@,
        ),
{
}

} // verus!
