//! When an endpoint goes on at its socket, and when it stops.

use vstd::prelude::*;

verus! {

/// How the sending of one packet went.
#[derive(Clone, Copy, Debug, PartialEq, Eq, Structural)]
pub enum SendOutcome {
    /// The packet was sent.
    Sent,
    /// The socket takes no more for now.
    WouldBlock,
    /// The socket failed.
    Failed,
}

/// What comes after a packet of a batch.
#[derive(Clone, Copy, Debug, PartialEq, Eq, Structural)]
pub enum SendStep {
    /// The next packet.
    Next,
    /// The batch ends early, with so many packets sent.
    Stop(usize),
    /// The batch fails.
    Fail,
}

/// What comes after a packet whose sending went as `outcome` says, when `sent` packets
/// were sent before it.
pub open spec fn send_step(sent: usize, outcome: SendOutcome) -> SendStep {
    match outcome {
        SendOutcome::Sent => SendStep::Next,
        SendOutcome::WouldBlock => SendStep::Stop(sent),
        SendOutcome::Failed => SendStep::Fail,
    }
}

/// How a batch ends of which `sent` packets were sent and the sending of the others goes
/// as `outcomes` says.
pub open spec fn batch_end(sent: usize, outcomes: Seq<SendOutcome>) -> SendStep
    decreases outcomes.len(),
{
    if outcomes.len() == 0 {
        SendStep::Stop(sent)
    } else {
        match send_step(sent, outcomes[0]) {
            SendStep::Next => batch_end(
                (sent + 1) as usize,
                outcomes.subrange(1, outcomes.len() as int),
            ),
            end => end,
        }
    }
}

/// A batch ends at the first packet that is not sent. It fails where that packet failed;
/// otherwise it reports the packets before it, or all of them where all are sent.
pub proof fn batch_ends_at_first_packet_not_sent(
    sent: usize,
    outcomes: Seq<SendOutcome>,
    first: int,
)
    requires
        sent + outcomes.len() <= usize::MAX,
        0 <= first <= outcomes.len(),
        forall|i: int| 0 <= i < first ==> (#[trigger] outcomes[i]) is Sent,
        first < outcomes.len() ==> !(outcomes[first] is Sent),
    ensures
        batch_end(sent, outcomes) == if first < outcomes.len() && outcomes[first] is Failed {
            SendStep::Fail
        } else {
            SendStep::Stop((sent + first) as usize)
        },
    decreases outcomes.len(),
{
    if first > 0 {
        let rest = outcomes.subrange(1, outcomes.len() as int);
        assert(outcomes[0] is Sent);
        assert forall|i: int| 0 <= i < first - 1 implies (#[trigger] rest[i]) is Sent by {
            assert(rest[i] == outcomes[i + 1]);
        }
        if first < outcomes.len() {
            assert(rest[first - 1] == outcomes[first]);
        }
        batch_ends_at_first_packet_not_sent((sent + 1) as usize, rest, first - 1);
    }
}

/// A batch of packets on their way to the socket.
#[derive(Debug)]
pub struct SendBatch {
    count: usize,
    total: usize,
}

impl SendBatch {
    /// The number of packets sent.
    pub closed spec fn sent(&self) -> usize {
        self.count
    }

    /// The number of packets of the batch.
    pub closed spec fn len(&self) -> usize {
        self.total
    }

    /// No more packets are sent than there are.
    pub closed spec fn wf(&self) -> bool {
        self.count <= self.total
    }

    /// A batch of `total` packets of which none is sent.
    pub fn new(total: usize) -> (batch: Self)
        ensures
            batch.wf(),
            batch.sent() == 0,
            batch.len() == total,
    {
        SendBatch { count: 0, total }
    }

    /// The place of the next packet to send; `None` once all are sent.
    pub fn next_packet(&self) -> (index: Option<usize>)
        requires
            self.wf(),
        ensures
            match index {
                Some(i) => i == self.sent() && i < self.len(),
                None => self.sent() == self.len(),
            },
    {
        if self.count < self.total {
            Some(self.count)
        } else {
            None
        }
    }

    /// Takes in how the sending of the next packet went.
    pub fn record(&mut self, outcome: SendOutcome) -> (step: SendStep)
        requires
            old(self).wf(),
            old(self).sent() < old(self).len(),
        ensures
            final(self).wf(),
            final(self).len() == old(self).len(),
            final(self).sent() == if outcome is Sent {
                old(self).sent() + 1
            } else {
                old(self).sent() as int
            },
            step == send_step(old(self).sent(), outcome),
    {
        match outcome {
            SendOutcome::Sent => {
                self.count = self.count + 1;
                SendStep::Next
            },
            SendOutcome::WouldBlock => SendStep::Stop(self.count),
            SendOutcome::Failed => SendStep::Fail,
        }
    }

    /// The number of packets sent.
    pub fn count(&self) -> (count: usize)
        ensures
            count == self.sent(),
    {
        self.count
    }
}

/// The token under which the socket is registered with the poll.
pub const SOCKET_TOKEN: usize = 1;

/// Whether an event of this token is about the socket.
pub fn is_socket_event(token: usize) -> (b: bool)
    ensures
        b == (token == SOCKET_TOKEN),
{
    token == SOCKET_TOKEN
}

/// How a read of the socket went.
#[derive(Clone, Copy, Debug, PartialEq, Eq, Structural)]
pub enum RecvOutcome {
    /// A datagram of so many bytes was read.
    Datagram(usize),
    /// The socket has no more for now.
    WouldBlock,
    /// The socket failed.
    Failed,
}

/// What comes after a read of the socket.
#[derive(Clone, Copy, Debug, PartialEq, Eq, Structural)]
pub enum RecvStep {
    /// Process the datagram, whatever comes of it, and read again.
    Process(usize),
    /// All is read.
    Stop,
    /// The reading fails.
    Fail,
}

impl RecvOutcome {
    /// What comes after the read.
    pub open spec fn step(self) -> RecvStep {
        match self {
            RecvOutcome::Datagram(len) => RecvStep::Process(len),
            RecvOutcome::WouldBlock => RecvStep::Stop,
            RecvOutcome::Failed => RecvStep::Fail,
        }
    }
}

/// What comes after a read of the socket.
pub fn recv_step(outcome: RecvOutcome) -> (step: RecvStep)
    ensures
        step == outcome.step(),
{
    match outcome {
        RecvOutcome::Datagram(len) => RecvStep::Process(len),
        RecvOutcome::WouldBlock => RecvStep::Stop,
        RecvOutcome::Failed => RecvStep::Fail,
    }
}

/// The datagrams that are processed, given by their sizes, when the reads go as
/// `outcomes` says.
pub open spec fn processed(outcomes: Seq<RecvOutcome>) -> Seq<usize>
    decreases outcomes.len(),
{
    if outcomes.len() == 0 {
        Seq::empty()
    } else {
        match outcomes[0].step() {
            RecvStep::Process(len) => seq![len] + processed(
                outcomes.subrange(1, outcomes.len() as int),
            ),
            RecvStep::Stop | RecvStep::Fail => Seq::empty(),
        }
    }
}

/// Every datagram that comes before the first read without one is processed, in order,
/// and none after it.
pub proof fn datagrams_are_processed_until_one_is_missing(
    outcomes: Seq<RecvOutcome>,
    first: int,
)
    requires
        0 <= first <= outcomes.len(),
        forall|i: int| 0 <= i < first ==> (#[trigger] outcomes[i]) is Datagram,
        first < outcomes.len() ==> !(outcomes[first] is Datagram),
    ensures
        processed(outcomes).len() == first,
        forall|i: int|
            0 <= i < first ==> outcomes[i] == RecvOutcome::Datagram(
                #[trigger] processed(outcomes)[i],
            ),
    decreases outcomes.len(),
{
    if first > 0 {
        let rest = outcomes.subrange(1, outcomes.len() as int);
        assert(outcomes[0] is Datagram);
        assert forall|i: int| 0 <= i < first - 1 implies (#[trigger] rest[i]) is Datagram by {
            assert(rest[i] == outcomes[i + 1]);
        }
        if first < outcomes.len() {
            assert(rest[first - 1] == outcomes[first]);
        }
        datagrams_are_processed_until_one_is_missing(rest, first - 1);
        assert forall|i: int| 0 <= i < first implies outcomes[i] == RecvOutcome::Datagram(
            #[trigger] processed(outcomes)[i],
        ) by {
            if i > 0 {
                assert(processed(outcomes)[i] == processed(rest)[i - 1]);
                assert(rest[i - 1] == outcomes[i]);
            }
        }
    }
}

/// A batch counts the packets that were sent and no others. It goes on after a packet that was
/// sent; one that would block ends it with the packets counted so far; one that failed fails it.
pub proof fn batch_counts_the_packets_sent(
    batch: &mut SendBatch,
    outcome: SendOutcome,
    step: SendStep,
    before: usize,
    after: usize,
)
    requires
        call_ensures(SendBatch::count, (old(batch),), before),
        call_ensures(SendBatch::record, (batch, outcome), step),
        call_ensures(SendBatch::count, (final(batch),), after),
    ensures
        final(batch).len() == old(batch).len(),
        outcome is Sent ==> step is Next && after == before + 1,
        outcome is WouldBlock ==> step == SendStep::Stop(before) && after == before,
        outcome is Failed ==> step is Fail && after == before,
{
}

/// The packets of a batch are taken in order from the first: the next one is at the place that
/// is the number sent so far, until all are sent.
pub proof fn packets_are_taken_in_order(
    total: usize,
    fresh: SendBatch,
    none_sent: usize,
    batch: SendBatch,
    count: usize,
    next: Option<usize>,
)
    requires
        call_ensures(SendBatch::new, (total,), fresh),
        call_ensures(SendBatch::count, (&fresh,), none_sent),
        call_ensures(SendBatch::count, (&batch,), count),
        batch.wf(),
        call_ensures(SendBatch::next_packet, (&batch,), next),
    ensures
        fresh.wf(),
        fresh.len() == total,
        none_sent == 0,
        count <= batch.len(),
        next is None <==> count == batch.len(),
        next matches Some(place) ==> place == count,
{
}

/// A datagram is processed with its length and the socket read again; a read that would block
/// ends the reading in good order, and one that failed fails it.
pub proof fn reads_go_on_after_a_datagram(outcome: RecvOutcome, step: RecvStep)
    requires
        call_ensures(recv_step, (outcome,), step),
    ensures
        step is Process <==> outcome is Datagram,
        step matches RecvStep::Process(len) ==> outcome == RecvOutcome::Datagram(len),
        step is Stop <==> outcome is WouldBlock,
        step is Fail <==> outcome is Failed,
{
}

/// The events of the socket are those of the token 1, and no others.
pub proof fn one_token_is_of_the_socket(token: usize, of_socket: bool)
    requires
        call_ensures(is_socket_event, (token,), of_socket),
    ensures
        of_socket <==> token == 1,
{
}

} // verus!
