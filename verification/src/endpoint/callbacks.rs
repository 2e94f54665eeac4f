//! The callbacks by which a user follows the events of a connection.

use vstd::prelude::*;

verus! {

/// An event of a connection that a callback can be set for.
#[derive(Clone, Copy, Debug, PartialEq, Eq, Structural)]
pub enum CallbackEvent {
    ConnCreated,
    ConnEstablished,
    ConnClosed,
    StreamCreated,
    StreamReadable,
    StreamWritable,
    StreamClosed,
    NewToken,
}

/// The callbacks that are set, one at most for each event.
#[derive(Clone, Debug)]
pub struct QuicCallBacks<C> {
    on_conn_create_callback: Option<C>,
    on_conn_established_callback: Option<C>,
    on_conn_closed_callback: Option<C>,
    on_stream_created_callback: Option<C>,
    on_stream_readable_callback: Option<C>,
    on_stream_writable_callback: Option<C>,
    on_stream_closed_callback: Option<C>,
    on_new_token_callback: Option<C>,
}

impl<C> QuicCallBacks<C> {
    /// The callback that is set for the event.
    pub closed spec fn set_for(&self, event: CallbackEvent) -> Option<C> {
        match event {
            CallbackEvent::ConnCreated => self.on_conn_create_callback,
            CallbackEvent::ConnEstablished => self.on_conn_established_callback,
            CallbackEvent::ConnClosed => self.on_conn_closed_callback,
            CallbackEvent::StreamCreated => self.on_stream_created_callback,
            CallbackEvent::StreamReadable => self.on_stream_readable_callback,
            CallbackEvent::StreamWritable => self.on_stream_writable_callback,
            CallbackEvent::StreamClosed => self.on_stream_closed_callback,
            CallbackEvent::NewToken => self.on_new_token_callback,
        }
    }

    /// Whether `post` differs from `pre` in the callback for `event` alone, which is
    /// `callback`.
    pub open spec fn sets(pre: Self, post: Self, event: CallbackEvent, callback: C) -> bool {
        forall|other: CallbackEvent| #[trigger]
            post.set_for(other) == if other == event {
                Some(callback)
            } else {
                pre.set_for(other)
            }
    }

    /// No callback is set.
    pub fn new() -> (callbacks: Self)
        ensures
            forall|event: CallbackEvent| #[trigger] callbacks.set_for(event) is None,
    {
        QuicCallBacks {
            on_conn_create_callback: None,
            on_conn_established_callback: None,
            on_conn_closed_callback: None,
            on_stream_created_callback: None,
            on_stream_readable_callback: None,
            on_stream_writable_callback: None,
            on_stream_closed_callback: None,
            on_new_token_callback: None,
        }
    }

    /// The callback that is set for the event.
    pub fn callback(&self, event: CallbackEvent) -> (callback: Option<&C>)
        ensures
            match callback {
                Some(c) => self.set_for(event) == Some(*c),
                None => self.set_for(event) is None,
            },
    {
        match event {
            CallbackEvent::ConnCreated => self.on_conn_create_callback.as_ref(),
            CallbackEvent::ConnEstablished => self.on_conn_established_callback.as_ref(),
            CallbackEvent::ConnClosed => self.on_conn_closed_callback.as_ref(),
            CallbackEvent::StreamCreated => self.on_stream_created_callback.as_ref(),
            CallbackEvent::StreamReadable => self.on_stream_readable_callback.as_ref(),
            CallbackEvent::StreamWritable => self.on_stream_writable_callback.as_ref(),
            CallbackEvent::StreamClosed => self.on_stream_closed_callback.as_ref(),
            CallbackEvent::NewToken => self.on_new_token_callback.as_ref(),
        }
    }

    /// Sets the callback for a connection that is created.
    pub fn set_on_conn_created_callback(&mut self, callback: C)
        ensures
            Self::sets(*old(self), *final(self), CallbackEvent::ConnCreated, callback),
    {
        self.on_conn_create_callback = Some(callback);
    }

    /// Sets the callback for a connection that is established.
    pub fn set_on_conn_established_callback(&mut self, callback: C)
        ensures
            Self::sets(*old(self), *final(self), CallbackEvent::ConnEstablished, callback),
    {
        self.on_conn_established_callback = Some(callback);
    }

    /// Sets the callback for a connection that is closed.
    pub fn set_on_conn_closed_callback(&mut self, callback: C)
        ensures
            Self::sets(*old(self), *final(self), CallbackEvent::ConnClosed, callback),
    {
        self.on_conn_closed_callback = Some(callback);
    }

    /// Sets the callback for a stream that is created.
    pub fn set_on_stream_created_callback(&mut self, callback: C)
        ensures
            Self::sets(*old(self), *final(self), CallbackEvent::StreamCreated, callback),
    {
        self.on_stream_created_callback = Some(callback);
    }

    /// Sets the callback for a stream that can be read.
    pub fn set_on_stream_readable_callback(&mut self, callback: C)
        ensures
            Self::sets(*old(self), *final(self), CallbackEvent::StreamReadable, callback),
    {
        self.on_stream_readable_callback = Some(callback);
    }

    /// Sets the callback for a stream that can be written.
    pub fn set_on_stream_writable_callback(&mut self, callback: C)
        ensures
            Self::sets(*old(self), *final(self), CallbackEvent::StreamWritable, callback),
    {
        self.on_stream_writable_callback = Some(callback);
    }

    /// Sets the callback for a stream that is closed.
    pub fn set_on_stream_closed_callback(&mut self, callback: C)
        ensures
            Self::sets(*old(self), *final(self), CallbackEvent::StreamClosed, callback),
    {
        self.on_stream_closed_callback = Some(callback);
    }

    /// Sets the callback for a new address token.
    pub fn set_on_new_token_callback(&mut self, callback: C)
        ensures
            Self::sets(*old(self), *final(self), CallbackEvent::NewToken, callback),
    {
        self.on_new_token_callback = Some(callback);
    }
}

/// Of two callbacks set one after the other, for different events both are set, and for
/// the same event the later one; the callbacks for other events stay as they were.
pub proof fn callbacks_are_independent<C>(
    before: QuicCallBacks<C>,
    between: QuicCallBacks<C>,
    after: QuicCallBacks<C>,
    first: CallbackEvent,
    first_callback: C,
    second: CallbackEvent,
    second_callback: C,
)
    requires
        QuicCallBacks::sets(before, between, first, first_callback),
        QuicCallBacks::sets(between, after, second, second_callback),
    ensures
        after.set_for(second) == Some(second_callback),
        first != second ==> after.set_for(first) == Some(first_callback),
        forall|other: CallbackEvent|
            other != first && other != second ==> #[trigger] after.set_for(other)
                == before.set_for(other),
{
}

/// No event has a callback at first. Setting the callback of one event makes it the answer for
/// that event, and leaves the answer for every other event what it was.
pub proof fn callbacks_answer_for_their_event<C>(
    fresh: QuicCallBacks<C>,
    callbacks: &mut QuicCallBacks<C>,
    callback: C,
    event: CallbackEvent,
    none: Option<&C>,
    before: Option<&C>,
    after: Option<&C>,
)
    requires
        call_ensures(QuicCallBacks::<C>::new, (), fresh),
        call_ensures(QuicCallBacks::<C>::callback, (&fresh, event), none),
        call_ensures(QuicCallBacks::<C>::callback, (old(callbacks), event), before),
        call_ensures(QuicCallBacks::<C>::callback, (final(callbacks), event), after),
    ensures
        none is None,
        call_ensures(QuicCallBacks::<C>::set_on_conn_created_callback, (callbacks, callback), ()) ==> (
        if event == CallbackEvent::ConnCreated {
            after is Some && *after->0 == callback
        } else {
            after == before
        }),
        call_ensures(QuicCallBacks::<C>::set_on_conn_established_callback, (callbacks, callback), ()) ==> (
        if event == CallbackEvent::ConnEstablished {
            after is Some && *after->0 == callback
        } else {
            after == before
        }),
        call_ensures(QuicCallBacks::<C>::set_on_conn_closed_callback, (callbacks, callback), ()) ==> (
        if event == CallbackEvent::ConnClosed {
            after is Some && *after->0 == callback
        } else {
            after == before
        }),
        call_ensures(QuicCallBacks::<C>::set_on_stream_created_callback, (callbacks, callback), ()) ==> (
        if event == CallbackEvent::StreamCreated {
            after is Some && *after->0 == callback
        } else {
            after == before
        }),
        call_ensures(QuicCallBacks::<C>::set_on_stream_readable_callback, (callbacks, callback), ()) ==> (
        if event == CallbackEvent::StreamReadable {
            after is Some && *after->0 == callback
        } else {
            after == before
        }),
        call_ensures(QuicCallBacks::<C>::set_on_stream_writable_callback, (callbacks, callback), ()) ==> (
        if event == CallbackEvent::StreamWritable {
            after is Some && *after->0 == callback
        } else {
            after == before
        }),
        call_ensures(QuicCallBacks::<C>::set_on_stream_closed_callback, (callbacks, callback), ()) ==> (
        if event == CallbackEvent::StreamClosed {
            after is Some && *after->0 == callback
        } else {
            after == before
        }),
        call_ensures(QuicCallBacks::<C>::set_on_new_token_callback, (callbacks, callback), ()) ==> (
        if event == CallbackEvent::NewToken {
            after is Some && *after->0 == callback
        } else {
            after == before
        }),
{
}

} // verus!
