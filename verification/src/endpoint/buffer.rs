//! Byte buffers, kept by the `bytes` crate.

use bytes::{Bytes, BytesMut};

use vstd::prelude::*;

verus! {

/// The type `bytes::Bytes`, an immutable run of bytes.
#[verifier::external_type_specification]
#[verifier::external_body]
pub struct ExBytes(Bytes);

/// The type `bytes::BytesMut`, a buffer that grows.
#[verifier::external_type_specification]
#[verifier::external_body]
pub struct ExBytesMut(BytesMut);

/// The bytes that a `Bytes` holds.
pub uninterp spec fn bytes_contents(bytes: Bytes) -> Seq<u8>;

/// The bytes that a `BytesMut` holds.
pub uninterp spec fn buffer_contents(buffer: BytesMut) -> Seq<u8>;

/// The number of bytes that were cut off a `BytesMut` at the front and still belong to
/// its allocation. They count against what it can grow to.
pub uninterp spec fn buffer_offset(buffer: BytesMut) -> nat;

/// The most bytes that a buffer is let grow to. Up to here doubling the allocation
/// stays within what can be allocated.
pub const MAX_BUFFERED: usize = usize::MAX / 4;

/// `BytesMut::with_capacity`: the buffer holds nothing, whatever its capacity.
#[verifier::external_body]
fn buffer_with_capacity(capacity: usize) -> (buffer: BytesMut)
    requires
        capacity <= MAX_BUFFERED,
    ensures
        buffer_contents(buffer) == Seq::<u8>::empty(),
        buffer_offset(buffer) == 0,
{
    BytesMut::with_capacity(capacity)
}

/// `BytesMut::extend_from_slice`: the bytes of `chunk` come after those that the
/// buffer held. Where the allocation is moved, what was cut off at the front may go.
#[verifier::external_body]
fn buffer_extend(buffer: &mut BytesMut, chunk: &[u8])
    requires
        buffer_offset(*old(buffer)) + buffer_contents(*old(buffer)).len() + chunk@.len()
            <= MAX_BUFFERED,
    ensures
        buffer_contents(*final(buffer)) == buffer_contents(*old(buffer)) + chunk@,
        buffer_offset(*final(buffer)) <= buffer_offset(*old(buffer)),
{
    buffer.extend_from_slice(chunk)
}

/// `BytesMut::len`: the number of bytes that the buffer holds.
#[verifier::external_body]
fn buffer_len(buffer: &BytesMut) -> (len: usize)
    ensures
        len == buffer_contents(*buffer).len(),
{
    buffer.len()
}

/// `BytesMut::clone`: a copy of what the buffer holds, in an allocation of its own.
#[verifier::external_body]
fn buffer_clone(buffer: &BytesMut) -> (copy: BytesMut)
    ensures
        buffer_contents(copy) == buffer_contents(*buffer),
        buffer_offset(copy) == 0,
{
    buffer.clone()
}

/// `BytesMut::freeze`: the same bytes, immutable from now on.
#[verifier::external_body]
fn buffer_freeze(buffer: BytesMut) -> (bytes: Bytes)
    ensures
        bytes_contents(bytes) == buffer_contents(buffer),
{
    buffer.freeze()
}

/// `Bytes::copy_from_slice`: a copy of the slice.
#[verifier::external_body]
pub(crate) fn bytes_copy_from_slice(data: &[u8]) -> (bytes: Bytes)
    ensures
        bytes_contents(bytes) == data@,
{
    Bytes::copy_from_slice(data)
}

/// `Bytes::from` on a `String`: the bytes of its UTF-8 encoding.
#[verifier::external_body]
pub(crate) fn bytes_from_string(text: String) -> (bytes: Bytes)
    ensures
        bytes_contents(bytes) == vstd::utf8::encode_utf8(text@),
{
    Bytes::from(text)
}

/// What has been read of a stream so far.
#[derive(Debug)]
pub struct StreamBuffer {
    inner: BytesMut,
}

impl View for StreamBuffer {
    type V = Seq<u8>;

    closed spec fn view(&self) -> Seq<u8> {
        buffer_contents(self.inner)
    }
}

impl StreamBuffer {
    /// Nothing was ever cut off at the front, and the size is within bounds.
    pub closed spec fn wf(&self) -> bool {
        &&& buffer_offset(self.inner) == 0
        &&& buffer_contents(self.inner).len() <= MAX_BUFFERED
    }

    /// A buffer in which nothing has been read.
    pub fn new() -> (buffer: Self)
        ensures
            buffer.wf(),
            buffer@ == Seq::<u8>::empty(),
    {
        StreamBuffer { inner: buffer_with_capacity(655_350) }
    }

    /// Whether `extra` more bytes can be taken in.
    pub fn has_room(&self, extra: usize) -> (b: bool)
        requires
            self.wf(),
        ensures
            b == (self@.len() + extra <= MAX_BUFFERED),
    {
        extra <= MAX_BUFFERED - buffer_len(&self.inner)
    }

    /// Takes in the next bytes of the stream.
    pub fn extend(&mut self, chunk: &[u8])
        requires
            old(self).wf(),
            old(self)@.len() + chunk@.len() <= MAX_BUFFERED,
        ensures
            final(self).wf(),
            final(self)@ == old(self)@ + chunk@,
    {
        buffer_extend(&mut self.inner, chunk);
    }

    /// A copy of what has been read.
    pub fn snapshot(&self) -> (bytes: Bytes)
        ensures
            bytes_contents(bytes) == self@,
    {
        buffer_freeze(buffer_clone(&self.inner))
    }

    /// What has been read.
    pub fn freeze(self) -> (bytes: Bytes)
        ensures
            bytes_contents(bytes) == self@,
    {
        buffer_freeze(self.inner)
    }
}

/// What a stream's buffer gives, as a copy or for good, is what was taken in: nothing at first,
/// and each chunk behind what was there. It has room for more bytes up to a quarter of what a
/// length can be.
pub proof fn buffer_gives_what_it_took(
    fresh: StreamBuffer,
    buffer: &mut StreamBuffer,
    chunk: &[u8],
    copy: Bytes,
    whole: Bytes,
    extra: usize,
    room: bool,
)
    requires
        call_ensures(StreamBuffer::new, (), fresh),
        call_ensures(StreamBuffer::extend, (buffer, chunk), ()),
        call_ensures(StreamBuffer::snapshot, (final(buffer),), copy),
        call_ensures(StreamBuffer::freeze, (*final(buffer),), whole),
        call_ensures(StreamBuffer::has_room, (final(buffer), extra), room),
    ensures
        fresh@.len() == 0,
        bytes_contents(copy) == old(buffer)@ + chunk@,
        bytes_contents(whole) == old(buffer)@ + chunk@,
        room <==> old(buffer)@.len() + chunk@.len() + extra <= usize::MAX / 4,
{
}

} // verus!
