//! When the frames of an `SQP` controller begin: each with the first packet that carries
//! bytes of it.

use vstd::prelude::*;

use super::history::SqpEvent;
use super::sqp::{BandwidthSample, SQPConfig, SqpState};
use super::types::{RttEstimator, SentPacket};
use crate::time::Instant;

verus! {

impl SqpState {
    /// Whether `packet`, sent now, carries bytes of the frame at place `i` of the queue: its
    /// bytes go beyond what is unsent of the frames in front, and some of the frame is unsent.
    pub open spec fn carries(self, packet: SentPacket, i: int) -> bool {
        &&& 0 <= i < self.frames.len()
        &&& self.unsent(i) > 0
        &&& self.ahead(i) < packet.sent_size
    }

    /// Whether `packet`, sent now, comes to the frame at place `i` of the queue: its bytes go
    /// beyond what is unsent of the frames in front, or the frame is the next to begin and
    /// nothing is unsent in front of it.
    pub open spec fn reaches(self, packet: SentPacket, i: int) -> bool {
        &&& 0 <= i < self.frames.len()
        &&& self.ahead(i) < packet.sent_size || (i == self.begun() && self.ahead(i) == 0)
    }

    /// The bytes of a packet of `len` bytes, sent now, that are of the frame at place `i` of
    /// the queue: those beyond what is unsent of the frames in front, as far as the frame
    /// goes.
    pub open spec fn taken(self, len: int, i: int) -> int {
        if len <= self.ahead(i) {
            0
        } else if len - self.ahead(i) >= self.unsent(i) {
            self.unsent(i)
        } else {
            len - self.ahead(i)
        }
    }

    /// When the first packet was sent, among the events, that came to the `j`-th frame
    /// announced.
    pub open spec fn first_reached(self, events: Seq<SqpEvent>, j: int) -> Option<Instant>
        decreases events.len(),
    {
        if events.len() == 0 {
            None
        } else {
            let front = events.drop_last();
            match (self.first_reached(front, j), events.last()) {
                (None, SqpEvent::Sent(packet, _)) => if self.run(front).reaches(
                    packet,
                    j - self.samples(front).len(),
                ) {
                    Some(packet.time_sent)
                } else {
                    None
                },
                (earlier, _) => earlier,
            }
        }
    }

    /// When the first packet was sent, among the events, that carried bytes of the `j`-th
    /// frame announced.
    pub open spec fn first_carried(self, events: Seq<SqpEvent>, j: int) -> Option<Instant>
        decreases events.len(),
    {
        if events.len() == 0 {
            None
        } else {
            let front = events.drop_last();
            match (self.first_carried(front, j), events.last()) {
                (None, SqpEvent::Sent(packet, _)) => if self.run(front).carries(
                    packet,
                    j - self.samples(front).len(),
                ) {
                    Some(packet.time_sent)
                } else {
                    None
                },
                (earlier, _) => earlier,
            }
        }
    }
}

/// Whether no packet that is sent is empty.
pub open spec fn no_packet_is_empty(events: Seq<SqpEvent>) -> bool {
    forall|i: int|
        #![trigger events[i]]
        0 <= i < events.len() && events[i] is Sent ==> events[i].sent_len() > 0
}

/// What is unsent in front of a place depends on the frames in front of it alone.
proof fn ahead_is_determined(a: SqpState, b: SqpState, i: int)
    requires
        forall|k: int| 0 <= k < i ==> #[trigger] a.unsent(k) == b.unsent(k),
    ensures
        a.ahead(i) == b.ahead(i),
    decreases i,
{
    if i > 0 {
        ahead_is_determined(a, b, i - 1);
        assert(a.unsent(i - 1) == b.unsent(i - 1));
    }
}

/// Nothing is unsent in front of the frame that began last, and behind it no less the further
/// back.
proof fn ahead_grows(s: SqpState, i: int)
    requires
        s.sending_wf(),
        0 <= i <= s.frames.len(),
    ensures
        i < s.begun() ==> s.ahead(i) == 0,
        i >= s.begun() && s.begun() > 0 ==> s.ahead(i) >= s.unsent(s.begun() - 1),
        i == s.begun() && s.begun() > 0 ==> s.ahead(i) == s.unsent(s.begun() - 1),
        s.ahead(i) >= 0,
    decreases i,
{
    if i > 0 {
        ahead_grows(s, i - 1);
    }
}

/// Once the bytes that fill the frame that began last are taken, what is unsent in front of a
/// place behind it is less by them.
proof fn ahead_shrinks(s: SqpState, next: SqpState, room: int, i: int)
    requires
        s.sending_wf(),
        s.first_sent is Some,
        s.begun() < s.frames.len(),
        room == s.unsent(s.begun() - 1),
        next == (SqpState {
            early_starts: next.early_starts,
            sent_bytes: 0,
            ..s
        }),
        next.early_starts.len() == s.early_starts.len() + 1,
        s.begun() <= i <= s.frames.len(),
    ensures
        s.ahead(i) == next.ahead(i) + room,
    decreases i,
{
    if i == s.begun() {
        ahead_grows(s, i);
        ahead_grows(next, i);
    } else {
        ahead_shrinks(s, next, room, i - 1);
        assert(s.unsent(i - 1) == next.unsent(i - 1));
    }
}

/// Counting `len` bytes begins exactly the frames that they go into, and takes from each frame
/// the bytes that are of it.
proof fn pouring_reaches(s: SqpState, time: Instant, len: int)
    requires
        s.sending_wf(),
        s.first_sent is Some,
        len >= 0,
    ensures
        ({
            let (early_starts, sent_bytes) = SqpState::poured(
                s.frames,
                s.early_starts,
                s.sent_bytes,
                time,
                len,
            );
            let after = SqpState { early_starts, sent_bytes, ..s };
            &&& forall|i: int|
                #![trigger s.ahead(i)]
                s.begun() <= i < s.frames.len() ==> (i < after.begun() <==> s.ahead(i) < len)
            &&& forall|i: int|
                #![trigger after.unsent(i)]
                0 <= i < s.frames.len() ==> after.unsent(i) == s.unsent(i) - s.taken(len, i)
        }),
    decreases s.frames.len() - s.early_starts.len(),
{
    let (early_starts, sent_bytes) = SqpState::poured(
        s.frames,
        s.early_starts,
        s.sent_bytes,
        time,
        len,
    );
    let after = SqpState { early_starts, sent_bytes, ..s };
    let last = s.early_starts.len() as int;
    let room = s.frames[last] - s.sent_bytes;
    super::sqp::pouring_is_well_formed(s.frames, s.early_starts, s.sent_bytes, time, len);
    if len > room && last + 1 < s.frames.len() {
        let next = SqpState { early_starts: s.early_starts.push(time), sent_bytes: 0, ..s };
        pouring_reaches(next, time, len - room);
        super::sqp::pouring_is_well_formed(s.frames, next.early_starts, 0, time, len - room);
        assert(after == (SqpState { early_starts, sent_bytes, ..next }));
        assert forall|i: int| #![trigger s.ahead(i)] s.begun() <= i < s.frames.len() implies (i
            < after.begun() <==> s.ahead(i) < len) by {
            ahead_shrinks(s, next, room, i);
            if i == s.begun() {
                ahead_grows(s, i);
            } else {
                assert(i < after.begun() <==> next.ahead(i) < len - room);
            }
        }
        assert forall|i: int| #![trigger after.unsent(i)] 0 <= i < s.frames.len() implies after.unsent(
            i,
        ) == s.unsent(i) - s.taken(len, i) by {
            assert(after.unsent(i) == next.unsent(i) - next.taken(len - room, i));
            if i < s.begun() {
                ahead_grows(s, i);
                ahead_grows(next, i);
            } else {
                ahead_shrinks(s, next, room, i);
            }
        }
    } else {
        assert forall|i: int| #![trigger s.ahead(i)] s.begun() <= i < s.frames.len() implies (i
            < after.begun() <==> s.ahead(i) < len) by {
            ahead_grows(s, i);
        }
        assert forall|i: int| #![trigger after.unsent(i)] 0 <= i < s.frames.len() implies after.unsent(
            i,
        ) == s.unsent(i) - s.taken(len, i) by {
            ahead_grows(s, i);
        }
    }
}

/// The frames that have begun, and what is unsent of each, stay the same when a frame that
/// began early becomes the current one.
proof fn promoting_changes_no_frame(s: SqpState)
    ensures
        s.promoted().begun() == s.begun(),
        s.promoted().starts() == s.starts(),
{
    assert(s.promoted().starts() =~= s.starts());
}

/// A packet begins exactly those frames that it is the first to come to, and takes from each
/// frame the bytes that are of it: its bytes fill the frames in the order of the queue.
pub proof fn packet_begins_the_frames_it_reaches(
    state: SqpState,
    packet: SentPacket,
    bytes_in_flight: u64,
)
    requires
        state.wf(),
    ensures
        ({
            let after = state.after_sent(packet, bytes_in_flight);
            &&& forall|i: int|
                #![trigger after.start(i)]
                0 <= i < state.frames.len() ==> after.start(i) == if state.start(i) is Some {
                    state.start(i)
                } else if state.reaches(packet, i) {
                    Some(packet.time_sent)
                } else {
                    None
                }
            &&& forall|i: int|
                #![trigger after.unsent(i)]
                0 <= i < state.frames.len() ==> after.unsent(i) == state.unsent(i) - state.taken(
                    packet.sent_size as int,
                    i,
                )
        }),
{
    let after = state.after_sent(packet, bytes_in_flight);
    let time = packet.time_sent;
    let len = packet.sent_size as int;
    let current = state.promoted();
    promoting_changes_no_frame(state);
    let begun = if current.next_in_turn() {
        current.with_next_begun(time)
    } else {
        current
    };
    if state.frames.len() > 0 {
        assert(begun.first_sent is Some);
        pouring_reaches(begun, time, len);
        super::sqp::pouring_is_well_formed(
            begun.frames,
            begun.early_starts,
            begun.sent_bytes,
            time,
            len,
        );
        let (early_starts, sent_bytes) = SqpState::poured(
            begun.frames,
            begun.early_starts,
            begun.sent_bytes,
            time,
            len,
        );
        let poured = SqpState { early_starts, sent_bytes, ..begun };
        assert(after.starts() == poured.starts());
        assert forall|i: int| 0 <= i < state.frames.len() implies #[trigger] begun.unsent(i)
            == state.unsent(i) by {}
        assert forall|i: int| 0 <= i < state.frames.len() implies #[trigger] begun.ahead(i)
            == state.ahead(i) by {
            ahead_is_determined(begun, state, i);
        }
        assert forall|i: int| #![trigger after.unsent(i)] 0 <= i
            < state.frames.len() implies after.unsent(i) == state.unsent(i) - state.taken(
            len,
            i,
        ) by {
            assert(after.unsent(i) == poured.unsent(i));
            assert(begun.ahead(i) == state.ahead(i));
            assert(begun.unsent(i) == state.unsent(i));
        }
        assert forall|i: int| #![trigger after.start(i)] 0 <= i
            < state.frames.len() implies after.start(i) == if state.start(i) is Some {
            state.start(i)
        } else if state.reaches(packet, i) {
            Some(time)
        } else {
            None
        } by {
            ahead_grows(state, i);
            assert(begun.ahead(i) == state.ahead(i));
            if i < begun.begun() {
                assert(poured.starts()[i] == begun.starts()[i]) by {
                    if i > 0 {
                        assert(begun.early_starts[i - 1] == early_starts.subrange(
                            0,
                            begun.early_starts.len() as int,
                        )[i - 1]);
                    }
                }
                if i < state.begun() {
                    assert(begun.starts()[i] == current.starts()[i]);
                } else {
                    assert(begun.starts()[i] == time);
                }
            } else if i < poured.begun() {
                assert(poured.starts()[i] == early_starts[i - 1]);
            }
        }
    }
}

/// Over any history, a frame that is queued begins with the first packet that comes to it, and
/// no packet comes to a frame before it is announced.
pub proof fn frames_begin_when_first_reached(config: SQPConfig, events: Seq<SqpEvent>)
    requires
        SqpState::initial(config).all_ready(events),
    ensures
        ({
            let start = SqpState::initial(config);
            let state = start.run(events);
            let left = start.samples(events).len();
            &&& forall|i: int|
                #![trigger state.start(i)]
                0 <= i < state.frames.len() ==> state.start(i) == start.first_reached(
                    events,
                    left + i,
                )
            &&& forall|j: int|
                #![trigger start.first_reached(events, j)]
                j >= left + state.frames.len() ==> start.first_reached(events, j) is None
        }),
    decreases events.len(),
{
    let start = SqpState::initial(config);
    let state = start.run(events);
    let left = start.samples(events).len();
    if events.len() > 0 {
        let front = events.drop_last();
        frames_begin_when_first_reached(config, front);
        super::history::histories_are_well_formed(config, front);
        super::history::histories_are_well_formed(config, events);
        let before = start.run(front);
        let gone = start.samples(front).len();
        assert forall|i: int| #![trigger state.start(i)] 0 <= i
            < state.frames.len() implies state.start(i) == start.first_reached(
            events,
            left + i,
        ) by {
            match events.last() {
                SqpEvent::Sent(packet, bytes_in_flight) => {
                    packet_begins_the_frames_it_reaches(before, packet, bytes_in_flight);
                    assert(before.start(i) == start.first_reached(front, gone + i));
                },
                SqpEvent::Acked(packet, now, rtt) => {
                    if before.completes_frame(packet) {
                        assert(before.first_sent is Some);
                        assert(before.start(i + 1) == start.first_reached(front, gone + i + 1));
                        assert(state.starts() =~= before.starts().subrange(
                            1,
                            before.starts().len() as int,
                        ));
                    } else {
                        assert(before.start(i) == start.first_reached(front, gone + i));
                        assert(state.starts() == before.starts());
                    }
                },
                SqpEvent::Frame(size) => {
                    assert(state.starts() == before.starts());
                    if i < before.frames.len() {
                        assert(before.start(i) == start.first_reached(front, gone + i));
                    } else {
                        assert(start.first_reached(front, gone + i) is None);
                    }
                },
                _ => {
                    assert(state.starts() == before.starts());
                    assert(before.start(i) == start.first_reached(front, gone + i));
                },
            }
        }
        assert forall|j: int| #![trigger start.first_reached(events, j)] j >= left
            + state.frames.len() implies start.first_reached(events, j) is None by {
            assert(start.first_reached(front, j) is None);
        }
    }
}

/// A frame in the queue has the size that was announced for it.
proof fn queued_frame_was_announced(config: SQPConfig, events: Seq<SqpEvent>, i: int)
    requires
        0 <= i < SqpState::initial(config).run(events).frames.len(),
    ensures
        ({
            let start = SqpState::initial(config);
            let j = start.samples(events).len() + i;
            j < super::history::announced(events).len() && super::history::announced(events)[j] == start.run(events).frames[i]
        }),
{
    let start = SqpState::initial(config);
    super::history::frames_are_measured_in_order(config, events);
    let sizes = start.samples(events).map_values(|sample: BandwidthSample| sample.frame_size);
    assert((sizes + start.run(events).frames)[start.samples(events).len() + i] == start.run(
        events,
    ).frames[i]);
}

/// The first packet that comes to a frame is the first that carries bytes of it, where the
/// frame is not empty and no packet is.
proof fn first_reached_is_first_carried(config: SQPConfig, events: Seq<SqpEvent>, j: int)
    requires
        SqpState::initial(config).all_ready(events),
        no_packet_is_empty(events),
        0 <= j < super::history::announced(events).len() ==> super::history::announced(events)[j] > 0,
    ensures
        SqpState::initial(config).first_reached(events, j) == SqpState::initial(
            config,
        ).first_carried(events, j),
    decreases events.len(),
{
    let start = SqpState::initial(config);
    if events.len() > 0 {
        let front = events.drop_last();
        assert(no_packet_is_empty(front)) by {
            assert forall|k: int| #![trigger front[k]] 0 <= k < front.len()
                && front[k] is Sent implies front[k].sent_len() > 0 by {
                assert(front[k] == events[k]);
            }
        }
        first_reached_is_first_carried(config, front, j);
        if let SqpEvent::Sent(packet, _) = events.last() {
            assert(events[events.len() - 1].sent_len() > 0);
            let before = start.run(front);
            let i = j - start.samples(front).len();
            if 0 <= i < before.frames.len() && start.first_reached(front, j) is None {
                frames_begin_when_first_reached(config, front);
                assert(before.start(i) is None);
                queued_frame_was_announced(config, front, i);
                assert(before.unsent(i) > 0);
            }
        }
    }
}

/// Over any history in which no packet is empty, a frame that is not empty begins with the first
/// packet that carries bytes of it: that is when the frames in the queue began, and the current
/// frame among them.
pub proof fn frames_begin_with_their_first_packet(config: SQPConfig, events: Seq<SqpEvent>)
    requires
        SqpState::initial(config).all_ready(events),
        no_packet_is_empty(events),
    ensures
        ({
            let start = SqpState::initial(config);
            let state = start.run(events);
            let left = start.samples(events).len();
            &&& forall|i: int|
                #![trigger state.start(i)]
                0 <= i < state.frames.len() && state.frames[i] > 0 ==> state.start(i)
                    == start.first_carried(events, left + i)
            &&& state.first_sent is Some && state.frames[0] > 0 ==> state.first_sent
                == start.first_carried(events, left as int)
        }),
{
    let start = SqpState::initial(config);
    let state = start.run(events);
    let left = start.samples(events).len();
    frames_begin_when_first_reached(config, events);
    super::history::histories_are_well_formed(config, events);
    assert forall|i: int| #![trigger state.start(i)] 0 <= i < state.frames.len()
        && state.frames[i] > 0 implies state.start(i) == start.first_carried(events, left + i) by {
        queued_frame_was_announced(config, events, i);
        first_reached_is_first_carried(config, events, left + i);
    }
    if state.first_sent is Some {
        assert(state.start(0) == state.first_sent);
    }
}

/// The sample of a frame that is not empty is measured from the first packet that carried bytes
/// of it, where no packet is empty.
pub proof fn samples_are_measured_from_the_first_packet(
    config: SQPConfig,
    events: Seq<SqpEvent>,
    packet: SentPacket,
    now: Instant,
    rtt: RttEstimator,
)
    requires
        SqpState::initial(config).all_ready(events),
        no_packet_is_empty(events),
        SqpState::initial(config).run(events).ack_ready(packet, rtt),
    ensures
        ({
            let start = SqpState::initial(config);
            let first = start.first_carried(events, start.samples(events).len() as int);
            start.run(events).sample(packet, now, rtt) matches Some(sample)
                ==> sample.frame_size > 0 ==> {
                &&& first is Some
                &&& sample.since_first_sent == now.since(first->0)
            }
        }),
{
    frames_begin_with_their_first_packet(config, events);
    super::history::histories_are_well_formed(config, events);
}

/// The sample of a frame, empty or not, is measured from the first packet that came to it.
pub proof fn samples_are_measured_from_the_packet_that_came_first(
    config: SQPConfig,
    events: Seq<SqpEvent>,
    packet: SentPacket,
    now: Instant,
    rtt: RttEstimator,
)
    requires
        SqpState::initial(config).all_ready(events),
        SqpState::initial(config).run(events).ack_ready(packet, rtt),
    ensures
        ({
            let start = SqpState::initial(config);
            let first = start.first_reached(events, start.samples(events).len() as int);
            start.run(events).sample(packet, now, rtt) matches Some(sample) ==> {
                &&& first is Some
                &&& now.nanos >= first->0.nanos ==> sample.since_first_sent == now.nanos
                    - first->0.nanos
                &&& now.nanos < first->0.nanos ==> sample.since_first_sent == 0
            }
        }),
{
    let state = SqpState::initial(config).run(events);
    frames_begin_when_first_reached(config, events);
    super::history::histories_are_well_formed(config, events);
    if state.first_sent is Some {
        assert(state.start(0) == state.first_sent);
    }
}

} // verus!
