use bytes::Bytes;

use tquic_sqp::endpoint::{
    is_socket_event, on_response, peer_address, recv_step, request_write, server_write,
    timeout_delta, Algorithm, CallbackEvent, CallbackResponse, ClientRead, ClientSession,
    EndpointSettings, EstimateOutcome, QuicCallBacks, RecvOutcome, RecvQueue, RecvStep,
    ResponseAction, SendBatch, SendOutcome, SendStep, ServerRead, ServerStreams, SessionError,
    StreamBuffer, TextRead, TimeoutDelta, WriteKind, WriteOutcome, MAX_BUFFERED,
};
use tquic_sqp::time::Duration;

#[test]
fn buffer_joins_chunks() {
    let mut buffer = StreamBuffer::new();
    assert_eq!(&buffer.snapshot()[..], b"");
    buffer.extend(b"ab");
    buffer.extend(b"");
    buffer.extend(b"cd");
    assert_eq!(&buffer.snapshot()[..], b"abcd");
    assert!(buffer.has_room(MAX_BUFFERED - 4));
    assert!(!buffer.has_room(MAX_BUFFERED - 3));
    assert_eq!(&buffer.freeze()[..], b"abcd");
}

#[test]
fn snapshot_is_a_copy() {
    let mut buffer = StreamBuffer::new();
    buffer.extend(b"ab");
    let early = buffer.snapshot();
    buffer.extend(b"cd");
    assert_eq!(&early[..], b"ab");
    assert_eq!(&buffer.snapshot()[..], b"abcd");
}

#[test]
fn queue_gives_messages_in_order() {
    let mut queue = RecvQueue::new();
    assert_eq!(queue.check_recv_queue(), 0);
    assert_eq!(queue.recv(), None);
    queue.push(Bytes::from_static(b"one"));
    queue.push(Bytes::from_static(b"two"));
    assert_eq!(queue.check_recv_queue(), 2);
    assert_eq!(&queue.recv().unwrap()[..], b"one");
    assert_eq!(&queue.recv().unwrap()[..], b"two");
    assert_eq!(queue.recv(), None);
}

#[test]
fn client_message_is_all_chunks() {
    let mut queue = RecvQueue::new();
    let mut read = ClientRead::new();
    assert!(read.has_room(4));
    assert!(read.on_chunk(b"hel", false, &mut queue));
    assert_eq!(queue.check_recv_queue(), 0);
    assert!(!read.on_chunk(b"lo", true, &mut queue));
    assert_eq!(&queue.recv().unwrap()[..], b"hello");
    assert_eq!(&read.finish()[..], b"hello");
}

#[test]
fn client_callback_sees_a_stream_that_has_not_ended() {
    let mut queue = RecvQueue::new();
    let mut read = ClientRead::new();
    assert!(read.on_chunk(b"part", false, &mut queue));
    assert_eq!(queue.check_recv_queue(), 0);
    assert_eq!(&read.finish()[..], b"part");
}

fn delivered(step: ServerRead) -> Vec<u8> {
    match step {
        ServerRead::Deliver(message) => message.to_vec(),
        ServerRead::More | ServerRead::Stop => panic!("no message"),
    }
}

#[test]
fn server_streams_do_not_mix() {
    let mut streams = ServerStreams::new();
    assert!(matches!(streams.on_chunk(0, b"a", false, true), ServerRead::More));
    assert!(matches!(streams.on_chunk(4, b"x", false, true), ServerRead::More));
    assert!(matches!(streams.on_chunk(0, b"b", false, true), ServerRead::More));
    assert!(streams.has_room(0, MAX_BUFFERED - 2));
    assert!(!streams.has_room(0, MAX_BUFFERED - 1));
    assert!(streams.has_room(8, MAX_BUFFERED));
    assert_eq!(delivered(streams.on_chunk(4, b"y", true, true)), b"xy");
    assert_eq!(delivered(streams.on_chunk(0, b"c", true, true)), b"abc");
    assert_eq!(delivered(streams.on_chunk(0, b"new", true, true)), b"new");
}

#[test]
fn server_keeps_a_message_that_no_callback_takes() {
    let mut streams = ServerStreams::new();
    assert!(matches!(streams.on_chunk(0, b"a", true, false), ServerRead::Stop));
    assert_eq!(delivered(streams.on_chunk(0, b"b", true, true)), b"ab");
}

#[test]
fn text_is_read_to_the_end() {
    let mut read = TextRead::new();
    assert!(read.on_chunk(b"he", false));
    assert!(!read.on_chunk(b"y", true));
    assert_eq!(read.into_bytes(), b"hey");
}

#[test]
fn client_sends_each_message_on_its_own_stream() {
    let mut session = ClientSession::new();
    assert_eq!(session.connection(), None);
    session.connected(7);
    for stream_id in [0, 4, 8] {
        let write = session.begin_send(b"data", WriteKind::Frame).unwrap();
        assert_eq!(write.kind, WriteKind::Frame);
        assert_eq!(write.connection, 7);
        assert_eq!(write.stream_id, stream_id);
        assert_eq!(&write.data[..], b"data");
        assert!(write.fin);
        assert_eq!(session.finish_send(WriteOutcome::Written(4)), 4);
    }
    assert_eq!(session.finish_send(WriteOutcome::Failed), 0);
    assert_eq!(session.stream_id(), 12);
    session.connected(8);
    assert_eq!(session.connection(), Some(8));
    assert_eq!(session.stream_id(), 12);
}

#[test]
fn client_without_connection_cannot_send() {
    let session = ClientSession::new();
    let error = session.begin_send(b"data", WriteKind::Plain).unwrap_err();
    assert_eq!(error, SessionError::NoActiveConnection);
    assert_eq!(error.message(), "No active connection");
}

#[test]
fn outcomes_are_reported() {
    assert_eq!(WriteOutcome::Written(9).reported_len(), 9);
    assert_eq!(WriteOutcome::Failed.reported_len(), 0);
    assert_eq!(WriteOutcome::NoConnection.reported_len(), 0);
    assert_eq!(EstimateOutcome::Estimate(5).reported_estimate(), Some(5));
    assert_eq!(EstimateOutcome::Failed.reported_estimate(), None);
    assert_eq!(EstimateOutcome::NoConnection.reported_estimate(), None);
}

#[test]
fn close_names_the_connection() {
    let mut session = ClientSession::new();
    assert!(session.begin_close().is_none());
    session.connected(3);
    let close = session.begin_close().unwrap();
    assert_eq!(close.connection, 3);
    assert!(close.app);
    assert_eq!(close.error_code, 0);
    assert_eq!(close.reason, "Nomal Closure");
}

#[test]
fn request_asks_for_the_resource() {
    let write = request_write(2);
    assert_eq!(write.connection, 2);
    assert_eq!(write.stream_id, 0);
    assert_eq!(&write.data[..], b"GET /resource\r\n");
    assert_eq!(write.kind, WriteKind::Plain);
    assert!(write.fin);
}

#[test]
fn server_writes_to_the_stream_it_is_given() {
    for kind in [WriteKind::Plain, WriteKind::Frame] {
        assert_eq!(server_write(1, 6, b"", kind).kind, kind);
    }
    let write = server_write(1, 6, b"reply", WriteKind::Plain);
    assert_eq!((write.connection, write.stream_id, write.fin), (1, 6, true));
    assert_eq!(&write.data[..], b"reply");
}

#[test]
fn responses_of_the_callback() {
    match on_response(1, 4, &CallbackResponse::Data(vec![1, 2])) {
        ResponseAction::Reply(write) => {
            assert_eq!((write.connection, write.stream_id, write.fin), (1, 4, true));
            assert_eq!(&write.data[..], &[1, 2]);
            assert_eq!(write.kind, WriteKind::Plain);
        }
        other => panic!("{:?}", other),
    }
    assert!(matches!(on_response(1, 4, &CallbackResponse::Nothing), ResponseAction::Ignore));
    assert!(matches!(
        on_response(1, 4, &CallbackResponse::NotBytes),
        ResponseAction::ReportNotBytes
    ));
    assert!(matches!(
        on_response(1, 4, &CallbackResponse::Failed),
        ResponseAction::ReportFailure
    ));
}

fn run_batch(outcomes: &[SendOutcome]) -> Option<usize> {
    let mut batch = SendBatch::new(outcomes.len());
    while let Some(index) = batch.next_packet() {
        match batch.record(outcomes[index]) {
            SendStep::Next => {}
            SendStep::Stop(count) => return Some(count),
            SendStep::Fail => return None,
        }
    }
    Some(batch.count())
}

#[test]
fn batch_ends_at_the_first_packet_not_sent() {
    let (sent, block, failed) = (SendOutcome::Sent, SendOutcome::WouldBlock, SendOutcome::Failed);
    assert_eq!(run_batch(&[]), Some(0));
    assert_eq!(run_batch(&[sent, sent, sent]), Some(3));
    assert_eq!(run_batch(&[sent, sent, block, failed]), Some(2));
    assert_eq!(run_batch(&[block, sent]), Some(0));
    assert_eq!(run_batch(&[sent, failed, block]), None);
}

#[test]
fn socket_is_read_until_it_would_block() {
    assert!(is_socket_event(1));
    assert!(!is_socket_event(0));
    assert_eq!(recv_step(RecvOutcome::Datagram(1200)), RecvStep::Process(1200));
    assert_eq!(recv_step(RecvOutcome::WouldBlock), RecvStep::Stop);
    assert_eq!(recv_step(RecvOutcome::Failed), RecvStep::Fail);
}

#[test]
fn callbacks_are_set_one_by_one() {
    let events = [
        CallbackEvent::ConnCreated,
        CallbackEvent::ConnEstablished,
        CallbackEvent::ConnClosed,
        CallbackEvent::StreamCreated,
        CallbackEvent::StreamReadable,
        CallbackEvent::StreamWritable,
        CallbackEvent::StreamClosed,
        CallbackEvent::NewToken,
    ];
    let mut callbacks: QuicCallBacks<usize> = QuicCallBacks::new();
    for event in events {
        assert_eq!(callbacks.callback(event), None);
    }
    callbacks.set_on_conn_created_callback(0);
    callbacks.set_on_conn_established_callback(1);
    callbacks.set_on_conn_closed_callback(2);
    callbacks.set_on_stream_created_callback(3);
    callbacks.set_on_stream_readable_callback(4);
    callbacks.set_on_stream_writable_callback(5);
    callbacks.set_on_stream_closed_callback(6);
    callbacks.set_on_new_token_callback(7);
    for (i, event) in events.into_iter().enumerate() {
        assert_eq!(callbacks.clone().callback(event), Some(&i));
    }
    callbacks.set_on_stream_closed_callback(60);
    assert_eq!(callbacks.callback(CallbackEvent::StreamClosed), Some(&60));
    assert_eq!(callbacks.callback(CallbackEvent::NewToken), Some(&7));
}

#[test]
fn address_is_host_and_port() {
    assert_eq!(peer_address("127.0.0.1", 9010), "127.0.0.1:9010");
    assert_eq!(peer_address("10.0.0.1", 0), "10.0.0.1:0");
    assert_eq!(peer_address("::1", u16::MAX), "::1:65535");
    for port in [1u16, 9, 10, 99, 100, 12345] {
        assert_eq!(peer_address("h", port), format!("h:{}", port));
    }
}

#[test]
fn timeout_in_seconds_and_microseconds() {
    let delta = |seconds, microseconds| TimeoutDelta { seconds, microseconds };
    assert_eq!(timeout_delta(None), delta(0, 0));
    assert_eq!(timeout_delta(Some(Duration { nanos: 2_500_001_999 })), delta(2, 500_001));
    assert_eq!(timeout_delta(Some(Duration::from_secs(0x7FFF_FFFF))), delta(i32::MAX, 0));
    assert_eq!(timeout_delta(Some(Duration::from_secs(0x8000_0000))), delta(i32::MIN, 0));
    assert_eq!(timeout_delta(Some(Duration::from_secs(0x1_0000_0005))), delta(5, 0));
    let longest = std::time::Duration::MAX;
    assert_eq!(
        timeout_delta(Some(Duration { nanos: longest.as_nanos() })),
        delta(longest.as_secs() as i32, longest.subsec_micros() as i32)
    );
}

#[test]
fn settings_of_the_endpoints() {
    let client = EndpointSettings::client();
    assert!(!client.is_server);
    assert_eq!(client.max_idle_timeout, 60_000);
    assert_eq!(client.max_streams, Some(20_000));
    assert_eq!(client.application_protocol, "http/0.9");
    assert!(client.enable_early_data);
    assert_eq!(client.algorithm, Algorithm::Sqp);
    assert!(client.identity.is_none());
    assert_eq!(client.server_name, Some("Test"));
    let server = EndpointSettings::server();
    assert!(server.is_server);
    assert_eq!(server.max_idle_timeout, 60_000);
    assert_eq!(server.max_streams, Some(20_000));
    assert_eq!(server.algorithm, Algorithm::Preset);
    let identity = server.identity.unwrap();
    assert_eq!(identity.certificate_file, "./cert.crt");
    assert_eq!(identity.private_key_file, "./cert.key");
    let tool = EndpointSettings::resource_client();
    assert_eq!(tool.max_idle_timeout, 5_000);
    assert_eq!(tool.max_streams, None);
    assert_eq!(tool.algorithm, Algorithm::Preset);
    assert_eq!(tool.server_name, None);
}
