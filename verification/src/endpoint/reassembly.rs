//! Messages put together from the chunks in which streams are read.

use std::collections::{HashMap, VecDeque};

use bytes::Bytes;

use vstd::prelude::*;

use super::buffer::{StreamBuffer, MAX_BUFFERED};

verus! {

/// The messages that a client has received and its user has not yet taken.
#[derive(Debug)]
pub struct RecvQueue {
    queue: VecDeque<Bytes>,
}

impl View for RecvQueue {
    type V = Seq<Seq<u8>>;

    closed spec fn view(&self) -> Seq<Seq<u8>> {
        self.queue@.map_values(|bytes: Bytes| super::buffer::bytes_contents(bytes))
    }
}

impl RecvQueue {
    /// A queue without messages.
    pub fn new() -> (queue: Self)
        ensures
            queue@ == Seq::<Seq<u8>>::empty(),
    {
        RecvQueue { queue: VecDeque::new() }
    }

    /// Adds a message at the end.
    pub fn push(&mut self, message: Bytes)
        ensures
            final(self)@ == old(self)@.push(super::buffer::bytes_contents(message)),
    {
        self.queue.push_back(message);
        assert(self@ =~= old(self)@.push(super::buffer::bytes_contents(message)));
    }

    /// Takes the oldest message, where there is one.
    pub fn recv(&mut self) -> (message: Option<Bytes>)
        ensures
            match message {
                Some(bytes) => {
                    &&& old(self)@.len() > 0
                    &&& super::buffer::bytes_contents(bytes) == old(self)@[0]
                    &&& final(self)@ == old(self)@.subrange(1, old(self)@.len() as int)
                },
                None => old(self)@.len() == 0 && final(self)@ == old(self)@,
            },
    {
        let message = self.queue.pop_front();
        proof {
            if message is Some {
                assert(self@ =~= old(self)@.subrange(1, old(self)@.len() as int));
            }
        }
        message
    }

    /// The number of messages that wait.
    pub fn check_recv_queue(&self) -> (len: usize)
        ensures
            len == self@.len(),
    {
        self.queue.len()
    }
}

/// What a client has read in one readable event of a stream, and the messages that wait.
#[verifier::ext_equal]
pub struct ClientProgress {
    pub data: Seq<u8>,
    pub queue: Seq<Seq<u8>>,
}

impl ClientProgress {
    /// The progress once a chunk is read: at the end of the stream all that was read is
    /// one message more.
    pub open spec fn after(self, chunk: Seq<u8>, fin: bool) -> ClientProgress {
        let data = self.data + chunk;
        ClientProgress {
            data,
            queue: if fin {
                self.queue.push(data)
            } else {
                self.queue
            },
        }
    }

    /// The progress once chunks are read that do not end the stream.
    pub open spec fn after_all(self, chunks: Seq<Seq<u8>>) -> ClientProgress
        decreases chunks.len(),
    {
        if chunks.len() == 0 {
            self
        } else {
            self.after_all(chunks.drop_last()).after(chunks.last(), false)
        }
    }
}

/// One readable event of a client's stream. It reads until the stream gives no more or
/// ends.
#[derive(Debug)]
pub struct ClientRead {
    buffer: StreamBuffer,
}

impl View for ClientRead {
    type V = Seq<u8>;

    closed spec fn view(&self) -> Seq<u8> {
        self.buffer@
    }
}

impl ClientRead {
    /// The buffer is within bounds.
    pub closed spec fn wf(&self) -> bool {
        self.buffer.wf()
    }

    /// Nothing is read yet.
    pub fn new() -> (read: Self)
        ensures
            read.wf(),
            read@ == Seq::<u8>::empty(),
    {
        ClientRead { buffer: StreamBuffer::new() }
    }

    /// Whether `len` more bytes can be taken in.
    pub fn has_room(&self, len: usize) -> (b: bool)
        requires
            self.wf(),
        ensures
            b == (self@.len() + len <= MAX_BUFFERED),
    {
        self.buffer.has_room(len)
    }

    /// Takes in a chunk. At the end of the stream all that was read is one message for
    /// the queue. Says whether to read on.
    pub fn on_chunk(&mut self, chunk: &[u8], fin: bool, queue: &mut RecvQueue) -> (more: bool)
        requires
            old(self).wf(),
            old(self)@.len() + chunk@.len() <= MAX_BUFFERED,
        ensures
            final(self).wf(),
            (ClientProgress { data: final(self)@, queue: final(queue)@ }) == (ClientProgress {
                data: old(self)@,
                queue: old(queue)@,
            }).after(chunk@, fin),
            more == !fin,
    {
        self.buffer.extend(chunk);
        if fin {
            queue.push(self.buffer.snapshot());
        }
        !fin
    }

    /// What was read, for the callback; also where the stream has not ended.
    pub fn finish(self) -> (data: Bytes)
        ensures
            super::buffer::bytes_contents(data) == self@,
    {
        self.buffer.freeze()
    }
}

/// What a server does after a chunk.
#[derive(Debug)]
pub enum ServerRead {
    /// Read on.
    More,
    /// The stream has ended: hand its message to the callback, and stop reading.
    Deliver(Bytes),
    /// The stream has ended and there is no callback: stop reading.
    Stop,
}

/// What a server has read of the streams that have not ended.
#[derive(Debug)]
pub struct ServerStreams {
    recv_map: HashMap<u64, StreamBuffer>,
}

impl View for ServerStreams {
    type V = Map<u64, Seq<u8>>;

    closed spec fn view(&self) -> Map<u64, Seq<u8>> {
        self.recv_map@.map_values(|buffer: StreamBuffer| buffer@)
    }
}

/// What is held of a stream: nothing where it is not in the map.
pub open spec fn held(streams: Map<u64, Seq<u8>>, stream_id: u64) -> Seq<u8> {
    if streams.contains_key(stream_id) {
        streams[stream_id]
    } else {
        Seq::empty()
    }
}

/// The streams once a chunk of one of them is read: at its end a stream whose message
/// goes to a callback is forgotten.
pub open spec fn streams_after(
    streams: Map<u64, Seq<u8>>,
    stream_id: u64,
    chunk: Seq<u8>,
    fin: bool,
    has_callback: bool,
) -> Map<u64, Seq<u8>> {
    if fin && has_callback {
        streams.remove(stream_id)
    } else {
        streams.insert(stream_id, held(streams, stream_id) + chunk)
    }
}

/// The streams once chunks are read, each of the stream that it is paired with, that do
/// not end their streams.
pub open spec fn streams_after_all(
    streams: Map<u64, Seq<u8>>,
    chunks: Seq<(u64, Seq<u8>)>,
    has_callback: bool,
) -> Map<u64, Seq<u8>>
    decreases chunks.len(),
{
    if chunks.len() == 0 {
        streams
    } else {
        streams_after(
            streams_after_all(streams, chunks.drop_last(), has_callback),
            chunks.last().0,
            chunks.last().1,
            false,
            has_callback,
        )
    }
}

/// The chunks of one stream among the chunks of many, joined.
pub open spec fn joined_of(chunks: Seq<(u64, Seq<u8>)>, stream_id: u64) -> Seq<u8>
    decreases chunks.len(),
{
    if chunks.len() == 0 {
        Seq::empty()
    } else if chunks.last().0 == stream_id {
        joined_of(chunks.drop_last(), stream_id) + chunks.last().1
    } else {
        joined_of(chunks.drop_last(), stream_id)
    }
}

impl ServerStreams {
    /// Every buffer is within bounds.
    pub closed spec fn wf(&self) -> bool {
        forall|id: u64| #[trigger]
            self.recv_map@.contains_key(id) ==> self.recv_map@[id].wf()
    }

    /// No stream was read.
    pub fn new() -> (streams: Self)
        ensures
            streams.wf(),
            streams@ == Map::<u64, Seq<u8>>::empty(),
    {
        let streams = ServerStreams { recv_map: HashMap::new() };
        assert(streams@ =~= Map::<u64, Seq<u8>>::empty());
        streams
    }

    /// Whether `len` more bytes of the stream can be taken in.
    pub fn has_room(&self, stream_id: u64, len: usize) -> (b: bool)
        requires
            self.wf(),
        ensures
            b == (held(self@, stream_id).len() + len <= MAX_BUFFERED),
    {
        match self.recv_map.get(&stream_id) {
            Some(buffer) => buffer.has_room(len),
            None => len <= MAX_BUFFERED,
        }
    }

    /// Takes in a chunk of the stream. At its end all that was read of it is one
    /// message for the callback, and the stream is forgotten; without a callback it
    /// stays.
    pub fn on_chunk(
        &mut self,
        stream_id: u64,
        chunk: &[u8],
        fin: bool,
        has_callback: bool,
    ) -> (step: ServerRead)
        requires
            old(self).wf(),
            held(old(self)@, stream_id).len() + chunk@.len() <= MAX_BUFFERED,
        ensures
            final(self).wf(),
            final(self)@ == streams_after(old(self)@, stream_id, chunk@, fin, has_callback),
            match step {
                ServerRead::More => !fin,
                ServerRead::Deliver(message) => {
                    &&& fin && has_callback
                    &&& super::buffer::bytes_contents(message) == held(old(self)@, stream_id)
                        + chunk@
                },
                ServerRead::Stop => fin && !has_callback,
            },
    {
        let mut buffer = match self.recv_map.remove(&stream_id) {
            Some(buffer) => buffer,
            None => StreamBuffer::new(),
        };
        buffer.extend(chunk);
        if fin && has_callback {
            assert(self@ =~= old(self)@.remove(stream_id));
            return ServerRead::Deliver(buffer.freeze());
        }
        self.recv_map.insert(stream_id, buffer);
        assert(self@ =~= old(self)@.insert(stream_id, held(old(self)@, stream_id) + chunk@));
        if fin {
            ServerRead::Stop
        } else {
            ServerRead::More
        }
    }
}

/// One readable event of a stream whose bytes are only reported.
#[derive(Debug)]
pub struct TextRead {
    bytes: Vec<u8>,
}

impl View for TextRead {
    type V = Seq<u8>;

    closed spec fn view(&self) -> Seq<u8> {
        self.bytes@
    }
}

impl TextRead {
    /// Nothing is read yet.
    pub fn new() -> (read: Self)
        ensures
            read@ == Seq::<u8>::empty(),
    {
        TextRead { bytes: Vec::new() }
    }

    /// Takes in a chunk. Says whether to read on.
    pub fn on_chunk(&mut self, chunk: &[u8], fin: bool) -> (more: bool)
        ensures
            final(self)@ == old(self)@ + chunk@,
            more == !fin,
    {
        self.bytes.extend_from_slice(chunk);
        !fin
    }

    /// What was read.
    pub fn into_bytes(self) -> (bytes: Vec<u8>)
        ensures
            bytes@ == self@,
    {
        self.bytes
    }
}

/// The chunks, joined.
pub open spec fn joined(chunks: Seq<Seq<u8>>) -> Seq<u8>
    decreases chunks.len(),
{
    if chunks.len() == 0 {
        Seq::empty()
    } else {
        joined(chunks.drop_last()) + chunks.last()
    }
}

/// The messages that wait once `count` of them are taken, one at a time.
pub open spec fn after_recvs(queue: Seq<Seq<u8>>, count: nat) -> Seq<Seq<u8>>
    decreases count,
{
    if count == 0 {
        queue
    } else {
        let before = after_recvs(queue, (count - 1) as nat);
        before.subrange(1, before.len() as int)
    }
}

/// Messages are taken in the order in which they came: once the messages before it are
/// taken, a message is at the front, and those after it behind it.
pub proof fn messages_are_taken_in_order(queue: Seq<Seq<u8>>, count: nat)
    requires
        count <= queue.len(),
    ensures
        after_recvs(queue, count) == queue.subrange(count as int, queue.len() as int),
    decreases count,
{
    if count > 0 {
        messages_are_taken_in_order(queue, (count - 1) as nat);
    }
    assert(after_recvs(queue, count) =~= queue.subrange(count as int, queue.len() as int));
}

/// What a client reads of a stream, in whatever chunks, is one message: all of the chunks,
/// joined. It joins the queue when the last chunk is read and not before.
pub proof fn client_message_is_all_that_was_read(
    queue: Seq<Seq<u8>>,
    chunks: Seq<Seq<u8>>,
    last: Seq<u8>,
)
    ensures
        ({
            let before = (ClientProgress { data: Seq::empty(), queue }).after_all(chunks);
            &&& before == (ClientProgress { data: joined(chunks), queue })
            &&& before.after(last, true) == (ClientProgress {
                data: joined(chunks.push(last)),
                queue: queue.push(joined(chunks.push(last))),
            })
        }),
    decreases chunks.len(),
{
    let start = ClientProgress { data: Seq::empty(), queue };
    if chunks.len() > 0 {
        client_message_is_all_that_was_read(queue, chunks.drop_last(), last);
    }
    assert(start.after_all(chunks) =~= (ClientProgress { data: joined(chunks), queue }));
    assert(chunks.push(last).drop_last() =~= chunks);
    assert(joined(chunks.push(last)) =~= joined(chunks) + last);
}

/// However the chunks of a server's streams are mixed, what is held of a stream is what
/// was held of it before and its own chunks, joined.
pub proof fn streams_do_not_mix(
    streams: Map<u64, Seq<u8>>,
    chunks: Seq<(u64, Seq<u8>)>,
    has_callback: bool,
    stream_id: u64,
)
    ensures
        held(streams_after_all(streams, chunks, has_callback), stream_id) == held(
            streams,
            stream_id,
        ) + joined_of(chunks, stream_id),
    decreases chunks.len(),
{
    if chunks.len() > 0 {
        streams_do_not_mix(streams, chunks.drop_last(), has_callback, stream_id);
    }
    assert(held(streams_after_all(streams, chunks, has_callback), stream_id) =~= held(
        streams,
        stream_id,
    ) + joined_of(chunks, stream_id));
}

/// The message that ends a stream of a server is what was held of the stream and all that was
/// read of it since, joined. With a callback the stream is then forgotten, and the other
/// streams are as they were.
pub proof fn server_message_is_all_that_was_read(
    streams: Map<u64, Seq<u8>>,
    chunks: Seq<(u64, Seq<u8>)>,
    stream_id: u64,
    last: Seq<u8>,
)
    ensures
        ({
            let before = streams_after_all(streams, chunks, true);
            let after = streams_after(before, stream_id, last, true, true);
            &&& held(before, stream_id) + last == held(streams, stream_id) + joined_of(
                chunks.push((stream_id, last)),
                stream_id,
            )
            &&& !after.contains_key(stream_id)
            &&& forall|other: u64|
                other != stream_id ==> (#[trigger] after.contains_key(other)
                    == before.contains_key(other)) && held(after, other) == held(before, other)
        }),
{
    streams_do_not_mix(streams, chunks, true, stream_id);
    assert(chunks.push((stream_id, last)).drop_last() =~= chunks);
    assert(held(streams_after_all(streams, chunks, true), stream_id) + last =~= held(
        streams,
        stream_id,
    ) + joined_of(chunks.push((stream_id, last)), stream_id));
}

/// What comes of one readable event of a server's stream.
#[verifier::ext_equal]
pub struct ServerEvent {
    /// The streams afterwards.
    pub streams: Map<u64, Seq<u8>>,
    /// The messages that the callback was given.
    pub delivered: Seq<Seq<u8>>,
    /// The number of chunks that were read.
    pub reads: nat,
}

/// What comes of a readable event of the stream that gives the chunks, each with whether it
/// ends the stream: chunk after chunk is read, until one ends the stream or there are no more.
pub open spec fn server_event(
    streams: Map<u64, Seq<u8>>,
    stream_id: u64,
    chunks: Seq<(Seq<u8>, bool)>,
    has_callback: bool,
) -> ServerEvent
    decreases chunks.len(),
{
    if chunks.len() == 0 {
        ServerEvent { streams, delivered: Seq::empty(), reads: 0 }
    } else {
        let (chunk, fin) = chunks[0];
        let after = streams_after(streams, stream_id, chunk, fin, has_callback);
        if fin {
            ServerEvent {
                streams: after,
                delivered: if has_callback {
                    seq![held(streams, stream_id) + chunk]
                } else {
                    Seq::empty()
                },
                reads: 1,
            }
        } else {
            let rest = server_event(
                after,
                stream_id,
                chunks.subrange(1, chunks.len() as int),
                has_callback,
            );
            ServerEvent { reads: rest.reads + 1, ..rest }
        }
    }
}

/// The bytes of the first `count` chunks, joined.
pub open spec fn joined_first(chunks: Seq<(Seq<u8>, bool)>, count: int) -> Seq<u8>
    decreases count,
{
    if count <= 0 {
        Seq::empty()
    } else {
        joined_first(chunks, count - 1) + chunks[count - 1].0
    }
}

/// The chunks joined are the first of them and the others joined.
proof fn joined_from_the_front(chunks: Seq<(Seq<u8>, bool)>, count: int)
    requires
        1 <= count <= chunks.len(),
    ensures
        joined_first(chunks, count) == chunks[0].0 + joined_first(
            chunks.subrange(1, chunks.len() as int),
            count - 1,
        ),
    decreases count,
{
    let rest = chunks.subrange(1, chunks.len() as int);
    if count > 1 {
        joined_from_the_front(chunks, count - 1);
        assert(rest[count - 2] == chunks[count - 1]);
    } else {
        assert(joined_first(chunks, 0) =~= Seq::empty());
        assert(joined_first(rest, 0) =~= Seq::empty());
    }
    assert(joined_first(chunks, count) =~= chunks[0].0 + joined_first(rest, count - 1));
}

/// A readable event in which the chunk at place `end` is the first that ends the stream reads
/// up to that chunk and no further. With a callback it gives the callback one message: what was
/// held of the stream and the chunks up to that one, joined, nothing lost and nothing repeated;
/// and it forgets the stream. Without a callback it gives no message and holds all of it.
pub proof fn event_that_ends_a_stream_delivers_it_once(
    streams: Map<u64, Seq<u8>>,
    stream_id: u64,
    chunks: Seq<(Seq<u8>, bool)>,
    has_callback: bool,
    end: int,
)
    requires
        0 <= end < chunks.len(),
        chunks[end].1,
        forall|i: int| 0 <= i < end ==> !(#[trigger] chunks[i]).1,
    ensures
        ({
            let event = server_event(streams, stream_id, chunks, has_callback);
            let message = held(streams, stream_id) + joined_first(chunks, end + 1);
            &&& event.reads == end + 1
            &&& has_callback ==> event.delivered == seq![message] && event.streams
                == streams.remove(stream_id)
            &&& !has_callback ==> event.delivered.len() == 0 && event.streams == streams.insert(
                stream_id,
                message,
            )
        }),
    decreases chunks.len(),
{
    let (chunk, fin) = chunks[0];
    let message = held(streams, stream_id) + joined_first(chunks, end + 1);
    joined_from_the_front(chunks, end + 1);
    let rest = chunks.subrange(1, chunks.len() as int);
    let after = streams_after(streams, stream_id, chunk, fin, has_callback);
    if end > 0 {
        assert(!chunks[0].1);
        assert forall|i: int| 0 <= i < end - 1 implies !(#[trigger] rest[i]).1 by {
            assert(rest[i] == chunks[i + 1]);
        }
        assert(rest[end - 1] == chunks[end]);
        event_that_ends_a_stream_delivers_it_once(
            after,
            stream_id,
            rest,
            has_callback,
            end - 1,
        );
        assert(held(after, stream_id) + joined_first(rest, end) =~= message);
        assert(after.remove(stream_id) =~= streams.remove(stream_id));
        assert(after.insert(stream_id, message) =~= streams.insert(stream_id, message));
    } else {
        assert(joined_first(rest, 0) =~= Seq::empty());
        assert(held(streams, stream_id) + chunk =~= message);
    }
}

/// A readable event in which no chunk ends the stream reads all of them, gives the callback
/// nothing, and holds what was held and the chunks, joined.
pub proof fn event_that_ends_no_stream_holds_it(
    streams: Map<u64, Seq<u8>>,
    stream_id: u64,
    chunks: Seq<(Seq<u8>, bool)>,
    has_callback: bool,
)
    requires
        forall|i: int| 0 <= i < chunks.len() ==> !(#[trigger] chunks[i]).1,
    ensures
        ({
            let event = server_event(streams, stream_id, chunks, has_callback);
            &&& event.reads == chunks.len()
            &&& event.delivered.len() == 0
            &&& held(event.streams, stream_id) == held(streams, stream_id) + joined_first(
                chunks,
                chunks.len() as int,
            )
            &&& event.streams.remove(stream_id) == streams.remove(stream_id)
        }),
    decreases chunks.len(),
{
    let event = server_event(streams, stream_id, chunks, has_callback);
    if chunks.len() > 0 {
        assert(!chunks[0].1);
        let rest = chunks.subrange(1, chunks.len() as int);
        let after = streams_after(streams, stream_id, chunks[0].0, false, has_callback);
        assert forall|i: int| 0 <= i < rest.len() implies !(#[trigger] rest[i]).1 by {
            assert(rest[i] == chunks[i + 1]);
        }
        event_that_ends_no_stream_holds_it(after, stream_id, rest, has_callback);
        joined_from_the_front(chunks, chunks.len() as int);
        assert(after.remove(stream_id) =~= streams.remove(stream_id));
    }
    assert(held(event.streams, stream_id) =~= held(streams, stream_id) + joined_first(
        chunks,
        chunks.len() as int,
    ));
}

/// Messages come out of a client's queue in the order in which they went in: what is taken after
/// a message was added, followed by what then waits, is what waited before and the message.
pub proof fn queue_keeps_the_order(
    queue: &mut RecvQueue,
    message: Bytes,
    later: &mut RecvQueue,
    taken: Option<Bytes>,
    waiting: usize,
)
    requires
        call_ensures(RecvQueue::push, (queue, message), ()),
        *old(later) == *final(queue),
        call_ensures(RecvQueue::recv, (later,), taken),
        call_ensures(RecvQueue::check_recv_queue, (final(later),), waiting),
    ensures
        taken is Some,
        seq![super::buffer::bytes_contents(taken->0)] + final(later)@ == old(queue)@ + seq![
            super::buffer::bytes_contents(message),
        ],
        waiting == old(queue)@.len(),
{
    assert(seq![super::buffer::bytes_contents(taken->0)] + final(later)@ =~= old(queue)@ + seq![
        super::buffer::bytes_contents(message),
    ]);
}

/// A new queue is empty, and of an empty queue nothing is taken; it stays empty.
pub proof fn nothing_comes_of_an_empty_queue(
    fresh: RecvQueue,
    queue: &mut RecvQueue,
    taken: Option<Bytes>,
    waiting: usize,
)
    requires
        call_ensures(RecvQueue::new, (), fresh),
        call_ensures(RecvQueue::check_recv_queue, (&fresh,), waiting),
        *old(queue) == fresh,
        call_ensures(RecvQueue::recv, (queue,), taken),
    ensures
        waiting == 0,
        taken is None,
        final(queue)@.len() == 0,
{
}

/// A chunk that a client reads goes behind what it has read, and no further chunk is asked for
/// after the one that ends the stream. All that was read then goes behind the messages that
/// wait; before, these stay. It is also what the callback is given, at the end or not.
pub proof fn client_chunk_is_read_once(
    read: &mut ClientRead,
    chunk: &[u8],
    fin: bool,
    queue: &mut RecvQueue,
    more: bool,
    data: Bytes,
)
    requires
        call_ensures(ClientRead::on_chunk, (read, chunk, fin, queue), more),
        call_ensures(ClientRead::finish, (*final(read),), data),
    ensures
        more <==> !fin,
        final(read)@ == old(read)@ + chunk@,
        super::buffer::bytes_contents(data) == old(read)@ + chunk@,
        fin ==> final(queue)@ == old(queue)@ + seq![old(read)@ + chunk@],
        !fin ==> final(queue)@ == old(queue)@,
{
    assert(old(queue)@ + seq![old(read)@ + chunk@] =~= old(queue)@.push(old(read)@ + chunk@));
}

/// A client has read nothing of a stream at first, and a server of any. Each takes in chunks as
/// long as what it holds of the stream is within bounds.
pub proof fn reading_starts_with_nothing(
    read: ClientRead,
    streams: ServerStreams,
    stream_id: u64,
    len: usize,
    client_room: bool,
    server_room: bool,
)
    requires
        call_ensures(ClientRead::new, (), read),
        call_ensures(ServerStreams::new, (), streams),
        call_ensures(ClientRead::has_room, (&read, len), client_room),
        call_ensures(ServerStreams::has_room, (&streams, stream_id, len), server_room),
    ensures
        read@.len() == 0,
        !streams@.contains_key(stream_id),
        client_room <==> len <= usize::MAX / 4,
        server_room <==> len <= usize::MAX / 4,
{
}

/// A chunk that a server reads of a stream goes behind what was read of that stream since it was
/// last forgotten. It ends the event exactly where it ends the stream; then, with a callback, all
/// that was read of the stream is handed to it and nothing is held of the stream any more. In
/// every other case all of it stays held. The other streams stay as they are.
pub proof fn server_chunk_is_read_once(
    streams: &mut ServerStreams,
    stream_id: u64,
    chunk: &[u8],
    fin: bool,
    has_callback: bool,
    step: ServerRead,
)
    requires
        call_ensures(
            ServerStreams::on_chunk,
            (streams, stream_id, chunk, fin, has_callback),
            step,
        ),
    ensures
        ({
            let known = if old(streams)@.contains_key(stream_id) {
                old(streams)@[stream_id] + chunk@
            } else {
                chunk@
            };
            &&& step is More <==> !fin
            &&& step is Deliver <==> fin && has_callback
            &&& step matches ServerRead::Deliver(message) ==> super::buffer::bytes_contents(
                message,
            ) == known && !final(streams)@.contains_key(stream_id)
            &&& !(step is Deliver) ==> {
                &&& final(streams)@.contains_key(stream_id)
                &&& final(streams)@[stream_id] == known
            }
        }),
        forall|other: u64|
            #![trigger final(streams)@.contains_key(other)]
            #![trigger final(streams)@[other]]
            other != stream_id ==> {
                &&& final(streams)@.contains_key(other) == old(streams)@.contains_key(other)
                &&& final(streams)@[other] == old(streams)@[other]
            },
{
    assert(Seq::<u8>::empty() + chunk@ =~= chunk@);
}

/// What is reported of a stream is all that was read of it, in order, up to the chunk that ends
/// it.
pub proof fn text_chunk_is_read_once(
    fresh: TextRead,
    read: &mut TextRead,
    chunk: &[u8],
    fin: bool,
    more: bool,
    bytes: Vec<u8>,
)
    requires
        call_ensures(TextRead::new, (), fresh),
        call_ensures(TextRead::on_chunk, (read, chunk, fin), more),
        call_ensures(TextRead::into_bytes, (*final(read),), bytes),
    ensures
        fresh@.len() == 0,
        more <==> !fin,
        bytes@ == old(read)@ + chunk@,
{
}

} // verus!
