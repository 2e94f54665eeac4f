//! The `MixCC` controller: three controllers side by side, of which the more
//! cautious answer counts.

use vstd::prelude::*;

use super::controller::{CongestionController, ControllerModel, DefaultController};
use super::types::{CongestionStats, RttEstimator, SentPacket};
use crate::time::Instant;

verus! {

/// The lesser of two numbers.
pub open spec fn lesser(a: u64, b: u64) -> u64 {
    if a <= b {
        a
    } else {
        b
    }
}

/// The greater of two numbers.
pub open spec fn greater(a: u64, b: u64) -> u64 {
    if a >= b {
        a
    } else {
        b
    }
}

/// The lesser of two numbers.
fn lesser_of(a: u64, b: u64) -> (r: u64)
    ensures
        r == lesser(a, b),
{
    if a <= b {
        a
    } else {
        b
    }
}

/// The greater of two numbers.
fn greater_of(a: u64, b: u64) -> (r: u64)
    ensures
        r == greater(a, b),
{
    if a >= b {
        a
    } else {
        b
    }
}

/// The lesser of the rates that are present; `None` where neither is.
pub open spec fn lesser_rate(a: Option<u64>, b: Option<u64>) -> Option<u64> {
    match (a, b) {
        (Some(x), Some(y)) => Some(lesser(x, y)),
        (Some(x), None) => Some(x),
        (None, _) => b,
    }
}

/// The greater of the rates that are present; `None` where neither is.
pub open spec fn greater_rate(a: Option<u64>, b: Option<u64>) -> Option<u64> {
    match (a, b) {
        (Some(x), Some(y)) => Some(greater(x, y)),
        (Some(x), None) => Some(x),
        (None, _) => b,
    }
}

/// The least of the rates that are present; `None` where none is.
pub fn least_rate(bbr: Option<u64>, copa: Option<u64>, cubic: Option<u64>) -> (rate: Option<u64>)
    ensures
        rate == lesser_rate(bbr, lesser_rate(copa, cubic)),
{
    match (bbr, copa, cubic) {
        (Some(bbr_rate), Some(copa_rate), Some(cubic_rate)) => Some(
            lesser_of(bbr_rate, lesser_of(copa_rate, cubic_rate)),
        ),
        (Some(bbr_rate), Some(copa_rate), None) => Some(lesser_of(bbr_rate, copa_rate)),
        (Some(bbr_rate), None, Some(cubic_rate)) => Some(lesser_of(bbr_rate, cubic_rate)),
        (None, Some(copa_rate), Some(cubic_rate)) => Some(lesser_of(copa_rate, cubic_rate)),
        (Some(bbr_rate), None, None) => Some(bbr_rate),
        (None, Some(copa_rate), None) => Some(copa_rate),
        (None, None, Some(cubic_rate)) => Some(cubic_rate),
        (None, None, None) => None,
    }
}

/// The greatest of the rates that are present; `None` where none is.
pub fn greatest_rate(bbr: Option<u64>, copa: Option<u64>, cubic: Option<u64>) -> (rate: Option<
    u64,
>)
    ensures
        rate == greater_rate(bbr, greater_rate(copa, cubic)),
{
    match (bbr, copa, cubic) {
        (Some(bbr_rate), Some(copa_rate), Some(cubic_rate)) => Some(
            greater_of(bbr_rate, greater_of(copa_rate, cubic_rate)),
        ),
        (Some(bbr_rate), Some(copa_rate), None) => Some(greater_of(bbr_rate, copa_rate)),
        (Some(bbr_rate), None, Some(cubic_rate)) => Some(greater_of(bbr_rate, cubic_rate)),
        (None, Some(copa_rate), Some(cubic_rate)) => Some(greater_of(copa_rate, cubic_rate)),
        (Some(bbr_rate), None, None) => Some(bbr_rate),
        (None, Some(copa_rate), None) => Some(copa_rate),
        (None, None, Some(cubic_rate)) => Some(cubic_rate),
        (None, None, None) => None,
    }
}

/// Three controllers that see every event in turn: first `bbr`, then `copa`, then
/// `cubic`. The answers come from `bbr` and `cubic`; `copa` has a say only in
/// whether the connection is in slow start or in recovery.
#[derive(Debug)]
pub struct MixCC<B, U, P> {
    bbr: B,
    cubic: U,
    copa: P,
}

impl<B, U, P> MixCC<B, U, P> {
    /// The first controller.
    pub closed spec fn bbr_part(&self) -> B {
        self.bbr
    }

    /// The third controller.
    pub closed spec fn cubic_part(&self) -> U {
        self.cubic
    }

    /// The second controller.
    pub closed spec fn copa_part(&self) -> P {
        self.copa
    }
}

impl<B: DefaultController, U: DefaultController, P: DefaultController> MixCC<B, U, P> {
    /// The three controllers, each built from its default settings.
    pub fn new() -> (mix: Self)
        ensures
            mix.wf(),
            mix.as_built(),
    {
        Self {
            bbr: B::with_default_config(),
            cubic: U::with_default_config(),
            copa: P::with_default_config(),
        }
    }
}

impl<B: ControllerModel, U: ControllerModel, P: ControllerModel> ControllerModel for MixCC<
    B,
    U,
    P,
> {
    /// What each of the controllers leaves to do, in the order in which they are told.
    type AckAction = (B::AckAction, P::AckAction, U::AckAction);

    open spec fn wf(&self) -> bool {
        self.bbr_part().wf() && self.copa_part().wf() && self.cubic_part().wf()
    }

    open spec fn as_built(&self) -> bool {
        self.bbr_part().as_built() && self.copa_part().as_built() && self.cubic_part().as_built()
    }

    open spec fn sent(
        pre: Self,
        post: Self,
        now: Instant,
        packet: SentPacket,
        packet_after: SentPacket,
        bytes_in_flight: u64,
    ) -> bool {
        exists|first: SentPacket, second: SentPacket|
            {
                &&& #[trigger] B::sent(
                    pre.bbr_part(),
                    post.bbr_part(),
                    now,
                    packet,
                    first,
                    bytes_in_flight,
                )
                &&& P::sent(
                    pre.copa_part(),
                    post.copa_part(),
                    now,
                    first,
                    second,
                    bytes_in_flight,
                )
                &&& #[trigger] U::sent(
                    pre.cubic_part(),
                    post.cubic_part(),
                    now,
                    second,
                    packet_after,
                    bytes_in_flight,
                )
            }
    }

    open spec fn ack_begun(pre: Self, post: Self, now: Instant, bytes_in_flight: u64) -> bool {
        &&& B::ack_begun(pre.bbr_part(), post.bbr_part(), now, bytes_in_flight)
        &&& P::ack_begun(pre.copa_part(), post.copa_part(), now, bytes_in_flight)
        &&& U::ack_begun(pre.cubic_part(), post.cubic_part(), now, bytes_in_flight)
    }

    /// Each controller can take the packet as the one before it leaves it.
    open spec fn ack_ready(&self, packet: SentPacket, rtt: RttEstimator) -> bool {
        &&& self.bbr_part().ack_ready(packet, rtt)
        &&& forall|
            bbr: B,
            first: SentPacket,
            now: Instant,
            app_limited: bool,
            bytes_in_flight: u64,
            bbr_action: B::AckAction,
        | #[trigger]
            B::acked(
                self.bbr_part(),
                bbr,
                packet,
                first,
                now,
                app_limited,
                rtt,
                bytes_in_flight,
                bbr_action,
            ) ==> {
                &&& self.copa_part().ack_ready(first, rtt)
                &&& forall|copa: P, second: SentPacket, copa_action: P::AckAction| #[trigger]
                    P::acked(
                        self.copa_part(),
                        copa,
                        first,
                        second,
                        now,
                        app_limited,
                        rtt,
                        bytes_in_flight,
                        copa_action,
                    ) ==> self.cubic_part().ack_ready(second, rtt)
            }
    }

    open spec fn acked(
        pre: Self,
        post: Self,
        packet: SentPacket,
        packet_after: SentPacket,
        now: Instant,
        app_limited: bool,
        rtt: RttEstimator,
        bytes_in_flight: u64,
        action: (B::AckAction, P::AckAction, U::AckAction),
    ) -> bool {
        exists|first: SentPacket, second: SentPacket|
            {
                &&& #[trigger] B::acked(
                    pre.bbr_part(),
                    post.bbr_part(),
                    packet,
                    first,
                    now,
                    app_limited,
                    rtt,
                    bytes_in_flight,
                    action.0,
                )
                &&& P::acked(
                    pre.copa_part(),
                    post.copa_part(),
                    first,
                    second,
                    now,
                    app_limited,
                    rtt,
                    bytes_in_flight,
                    action.1,
                )
                &&& #[trigger] U::acked(
                    pre.cubic_part(),
                    post.cubic_part(),
                    second,
                    packet_after,
                    now,
                    app_limited,
                    rtt,
                    bytes_in_flight,
                    action.2,
                )
            }
    }

    open spec fn ack_ended(pre: Self, post: Self) -> bool {
        &&& B::ack_ended(pre.bbr_part(), post.bbr_part())
        &&& P::ack_ended(pre.copa_part(), post.copa_part())
        &&& U::ack_ended(pre.cubic_part(), post.cubic_part())
    }

    open spec fn congested(
        pre: Self,
        post: Self,
        now: Instant,
        packet: SentPacket,
        is_persistent_congestion: bool,
        lost_bytes: u64,
        bytes_in_flight: u64,
    ) -> bool {
        &&& B::congested(
            pre.bbr_part(),
            post.bbr_part(),
            now,
            packet,
            is_persistent_congestion,
            lost_bytes,
            bytes_in_flight,
        )
        &&& P::congested(
            pre.copa_part(),
            post.copa_part(),
            now,
            packet,
            is_persistent_congestion,
            lost_bytes,
            bytes_in_flight,
        )
        &&& U::congested(
            pre.cubic_part(),
            post.cubic_part(),
            now,
            packet,
            is_persistent_congestion,
            lost_bytes,
            bytes_in_flight,
        )
    }

    open spec fn slow_start(&self) -> bool {
        self.bbr_part().slow_start() && self.copa_part().slow_start()
            && self.cubic_part().slow_start()
    }

    open spec fn recovering(&self, sent_time: Instant) -> bool {
        self.bbr_part().recovering(sent_time) || self.copa_part().recovering(sent_time)
            || self.cubic_part().recovering(sent_time)
    }

    open spec fn window(&self) -> u64 {
        lesser(self.bbr_part().window(), self.cubic_part().window())
    }

    open spec fn first_window(&self) -> u64 {
        lesser(self.bbr_part().first_window(), self.cubic_part().first_window())
    }

    open spec fn least_window(&self) -> u64 {
        lesser(self.bbr_part().least_window(), self.cubic_part().least_window())
    }

    open spec fn counters(&self) -> CongestionStats {
        self.bbr_part().counters()
    }

    open spec fn pace(&self) -> Option<u64> {
        lesser_rate(self.bbr_part().pace(), self.cubic_part().pace())
    }

    open spec fn least_pace(&self) -> Option<u64> {
        greater_rate(self.bbr_part().least_pace(), self.cubic_part().least_pace())
    }
}

impl<
    B: CongestionController,
    U: CongestionController,
    P: CongestionController,
> CongestionController for MixCC<B, U, P> {
    fn name(&self) -> (name: &str)
        ensures
            name@ == "MixCC"@,
    {
        "MixCC"
    }

    fn on_sent(&mut self, now: Instant, packet: &mut SentPacket, bytes_in_flight: u64) {
        self.bbr.on_sent(now, packet, bytes_in_flight);
        self.copa.on_sent(now, packet, bytes_in_flight);
        self.cubic.on_sent(now, packet, bytes_in_flight);
    }

    fn begin_ack(&mut self, now: Instant, bytes_in_flight: u64) {
        self.bbr.begin_ack(now, bytes_in_flight);
        self.copa.begin_ack(now, bytes_in_flight);
        self.cubic.begin_ack(now, bytes_in_flight);
    }

    fn on_ack(
        &mut self,
        packet: &mut SentPacket,
        now: Instant,
        app_limited: bool,
        rtt: &RttEstimator,
        bytes_in_flight: u64,
    ) -> (action: (B::AckAction, P::AckAction, U::AckAction)) {
        let bbr_action = self.bbr.on_ack(packet, now, app_limited, rtt, bytes_in_flight);
        let ghost first = *packet;
        let copa_action = self.copa.on_ack(packet, now, app_limited, rtt, bytes_in_flight);
        let ghost second = *packet;
        let cubic_action = self.cubic.on_ack(packet, now, app_limited, rtt, bytes_in_flight);
        let action = (bbr_action, copa_action, cubic_action);
        assert(B::acked(
            old(self).bbr,
            self.bbr,
            *old(packet),
            first,
            now,
            app_limited,
            *rtt,
            bytes_in_flight,
            action.0,
        ));
        assert(U::acked(
            old(self).cubic,
            self.cubic,
            second,
            *packet,
            now,
            app_limited,
            *rtt,
            bytes_in_flight,
            action.2,
        ));
        action
    }

    fn end_ack(&mut self) {
        self.bbr.end_ack();
        self.copa.end_ack();
        self.cubic.end_ack();
    }

    fn on_congestion_event(
        &mut self,
        now: Instant,
        packet: &SentPacket,
        is_persistent_congestion: bool,
        lost_bytes: u64,
        bytes_in_flight: u64,
    ) {
        self.bbr.on_congestion_event(
            now,
            packet,
            is_persistent_congestion,
            lost_bytes,
            bytes_in_flight,
        );
        self.copa.on_congestion_event(
            now,
            packet,
            is_persistent_congestion,
            lost_bytes,
            bytes_in_flight,
        );
        self.cubic.on_congestion_event(
            now,
            packet,
            is_persistent_congestion,
            lost_bytes,
            bytes_in_flight,
        );
    }

    fn in_slow_start(&self) -> (b: bool) {
        let bbr_s = self.bbr.in_slow_start();
        let copa_s = self.copa.in_slow_start();
        let cubic_s = self.cubic.in_slow_start();
        bbr_s && copa_s && cubic_s
    }

    fn in_recovery(&self, sent_time: Instant) -> (b: bool) {
        let bbr_r = self.bbr.in_recovery(sent_time);
        let copa_r = self.copa.in_recovery(sent_time);
        let cubic_r = self.cubic.in_recovery(sent_time);
        bbr_r || copa_r || cubic_r
    }

    fn congestion_window(&self) -> (bytes: u64) {
        lesser_of(self.bbr.congestion_window(), self.cubic.congestion_window())
    }

    fn initial_window(&self) -> (bytes: u64) {
        lesser_of(self.bbr.initial_window(), self.cubic.initial_window())
    }

    fn minimal_window(&self) -> (bytes: u64) {
        lesser_of(self.bbr.minimal_window(), self.cubic.minimal_window())
    }

    fn stats(&self) -> (stats: &CongestionStats) {
        self.bbr.stats()
    }

    fn pacing_rate(&self) -> (rate: Option<u64>) {
        let bbr_rate = self.bbr.pacing_rate();
        let cubic_rate = self.cubic.pacing_rate();
        least_rate(bbr_rate, cubic_rate, cubic_rate)
    }

    fn min_pacing_rate(&self) -> (rate: Option<u64>) {
        let bbr_rate = self.bbr.min_pacing_rate();
        let cubic_rate = self.cubic.min_pacing_rate();
        greatest_rate(bbr_rate, cubic_rate, cubic_rate)
    }
}

/// The least of three rates is one of those that are present and no more than any of
/// them; the greatest is one of them and no less than any. Without rates there is
/// neither.
pub proof fn combined_rates_are_extremes(bbr: Option<u64>, copa: Option<u64>, cubic: Option<u64>)
    ensures
        ({
            let least = lesser_rate(bbr, lesser_rate(copa, cubic));
            let greatest = greater_rate(bbr, greater_rate(copa, cubic));
            let present = set![bbr, copa, cubic];
            &&& present.contains(least) && present.contains(greatest)
            &&& least is None <==> bbr is None && copa is None && cubic is None
            &&& greatest is None <==> bbr is None && copa is None && cubic is None
            &&& forall|rate: u64| #[trigger]
                present.contains(Some(rate)) ==> least->0 <= rate <= greatest->0
        }),
{
}

/// The mix sends no faster than either `bbr` or `cubic` would: its windows are no
/// larger than theirs, its pacing rate is no higher, and its least pacing rate is no
/// lower; and each of them is one that `bbr` or `cubic` gave.
pub proof fn mix_is_as_cautious_as_its_parts<B: ControllerModel, U: ControllerModel, P: ControllerModel>(
    mix: MixCC<B, U, P>,
)
    ensures
        mix.window() <= mix.bbr_part().window(),
        mix.window() <= mix.cubic_part().window(),
        mix.window() == mix.bbr_part().window() || mix.window() == mix.cubic_part().window(),
        mix.first_window() <= mix.bbr_part().first_window(),
        mix.first_window() <= mix.cubic_part().first_window(),
        mix.first_window() == mix.bbr_part().first_window() || mix.first_window()
            == mix.cubic_part().first_window(),
        mix.least_window() <= mix.bbr_part().least_window(),
        mix.least_window() <= mix.cubic_part().least_window(),
        mix.least_window() == mix.bbr_part().least_window() || mix.least_window()
            == mix.cubic_part().least_window(),
        mix.bbr_part().pace() matches Some(rate) ==> mix.pace() is Some && mix.pace()->0 <= rate,
        mix.cubic_part().pace() matches Some(rate) ==> mix.pace() is Some && mix.pace()->0 <= rate,
        mix.pace() == mix.bbr_part().pace() || mix.pace() == mix.cubic_part().pace(),
        mix.bbr_part().least_pace() matches Some(rate) ==> mix.least_pace() is Some
            && mix.least_pace()->0 >= rate,
        mix.cubic_part().least_pace() matches Some(rate) ==> mix.least_pace() is Some
            && mix.least_pace()->0 >= rate,
        mix.least_pace() == mix.bbr_part().least_pace() || mix.least_pace()
            == mix.cubic_part().least_pace(),
{
}

/// Two mixes that differ in `copa` alone have the same windows, rates and counters.
pub proof fn copa_sets_no_limit<B: ControllerModel, U: ControllerModel, P: ControllerModel>(
    a: MixCC<B, U, P>,
    b: MixCC<B, U, P>,
)
    requires
        a.bbr_part() == b.bbr_part(),
        a.cubic_part() == b.cubic_part(),
    ensures
        a.window() == b.window(),
        a.first_window() == b.first_window(),
        a.least_window() == b.least_window(),
        a.pace() == b.pace(),
        a.least_pace() == b.least_pace(),
        a.counters() == b.counters(),
{
}

/// The least window of the mix is no more than its window, and no more than the window
/// it starts with, where that holds of `bbr` and of `cubic`.
pub proof fn window_order_carries_over<B: ControllerModel, U: ControllerModel, P: ControllerModel>(
    mix: MixCC<B, U, P>,
)
    requires
        mix.bbr_part().least_window() <= mix.bbr_part().window(),
        mix.bbr_part().least_window() <= mix.bbr_part().first_window(),
        mix.cubic_part().least_window() <= mix.cubic_part().window(),
        mix.cubic_part().least_window() <= mix.cubic_part().first_window(),
    ensures
        mix.least_window() <= mix.window(),
        mix.least_window() <= mix.first_window(),
{
}

/// Each of the three parts of a mix is told when a packet is sent: it goes from its state before
/// to its state after by its own step, `bbr` with the packet as it came, `copa` with the packet
/// as `bbr` left it, and `cubic` with the packet as `copa` left it.
pub proof fn every_part_is_told_of_a_packet<
    B: CongestionController,
    U: CongestionController,
    P: CongestionController,
>(mix: &mut MixCC<B, U, P>, now: Instant, packet: &mut SentPacket, bytes_in_flight: u64)
    requires
        call_ensures(
            <MixCC<B, U, P> as CongestionController>::on_sent,
            (mix, now, packet, bytes_in_flight),
            (),
        ),
    ensures
        final(mix).bbr_part().wf(),
        final(mix).copa_part().wf(),
        final(mix).cubic_part().wf(),
        exists|first: SentPacket, second: SentPacket|
            {
                &&& #[trigger] B::sent(
                    old(mix).bbr_part(),
                    final(mix).bbr_part(),
                    now,
                    *old(packet),
                    first,
                    bytes_in_flight,
                )
                &&& P::sent(
                    old(mix).copa_part(),
                    final(mix).copa_part(),
                    now,
                    first,
                    second,
                    bytes_in_flight,
                )
                &&& #[trigger] U::sent(
                    old(mix).cubic_part(),
                    final(mix).cubic_part(),
                    now,
                    second,
                    *final(packet),
                    bytes_in_flight,
                )
            },
{
}

/// Each of the three parts of a mix is told when a batch of acknowledgements starts: it goes
/// from its state before to its state after by its own step.
pub proof fn every_part_is_told_that_a_batch_starts<
    B: CongestionController,
    U: CongestionController,
    P: CongestionController,
>(mix: &mut MixCC<B, U, P>, now: Instant, bytes_in_flight: u64)
    requires
        call_ensures(
            <MixCC<B, U, P> as CongestionController>::begin_ack,
            (mix, now, bytes_in_flight),
            (),
        ),
    ensures
        final(mix).bbr_part().wf(),
        final(mix).copa_part().wf(),
        final(mix).cubic_part().wf(),
        B::ack_begun(old(mix).bbr_part(), final(mix).bbr_part(), now, bytes_in_flight),
        P::ack_begun(old(mix).copa_part(), final(mix).copa_part(), now, bytes_in_flight),
        U::ack_begun(old(mix).cubic_part(), final(mix).cubic_part(), now, bytes_in_flight),
{
}

/// Each of the three parts of a mix is told of an acknowledgement: it goes from its state before
/// to its state after by its own step, with the packet as the part before it left it, and what
/// it leaves to do is handed on.
pub proof fn every_part_is_told_of_an_acknowledgement<
    B: CongestionController,
    U: CongestionController,
    P: CongestionController,
>(
    mix: &mut MixCC<B, U, P>,
    packet: &mut SentPacket,
    now: Instant,
    app_limited: bool,
    rtt: RttEstimator,
    bytes_in_flight: u64,
    action: (B::AckAction, P::AckAction, U::AckAction),
)
    requires
        call_ensures(
            <MixCC<B, U, P> as CongestionController>::on_ack,
            (mix, packet, now, app_limited, &rtt, bytes_in_flight),
            action,
        ),
    ensures
        final(mix).bbr_part().wf(),
        final(mix).copa_part().wf(),
        final(mix).cubic_part().wf(),
        exists|first: SentPacket, second: SentPacket|
            {
                &&& #[trigger] B::acked(
                    old(mix).bbr_part(),
                    final(mix).bbr_part(),
                    *old(packet),
                    first,
                    now,
                    app_limited,
                    rtt,
                    bytes_in_flight,
                    action.0,
                )
                &&& P::acked(
                    old(mix).copa_part(),
                    final(mix).copa_part(),
                    first,
                    second,
                    now,
                    app_limited,
                    rtt,
                    bytes_in_flight,
                    action.1,
                )
                &&& #[trigger] U::acked(
                    old(mix).cubic_part(),
                    final(mix).cubic_part(),
                    second,
                    *final(packet),
                    now,
                    app_limited,
                    rtt,
                    bytes_in_flight,
                    action.2,
                )
            },
{
}

/// Each of the three parts of a mix is told when a batch of acknowledgements ends: it goes from
/// its state before to its state after by its own step.
pub proof fn every_part_is_told_that_a_batch_ends<
    B: CongestionController,
    U: CongestionController,
    P: CongestionController,
>(mix: &mut MixCC<B, U, P>)
    requires
        call_ensures(<MixCC<B, U, P> as CongestionController>::end_ack, (mix,), ()),
    ensures
        final(mix).bbr_part().wf(),
        final(mix).copa_part().wf(),
        final(mix).cubic_part().wf(),
        B::ack_ended(old(mix).bbr_part(), final(mix).bbr_part()),
        P::ack_ended(old(mix).copa_part(), final(mix).copa_part()),
        U::ack_ended(old(mix).cubic_part(), final(mix).cubic_part()),
{
}

/// Each of the three parts of a mix is told of a loss: `bbr`, `copa` and `cubic` go each from
/// its state before to its state after by its own step, with all that the mix was told.
pub proof fn every_part_is_told_of_a_loss<
    B: CongestionController,
    U: CongestionController,
    P: CongestionController,
>(
    mix: &mut MixCC<B, U, P>,
    now: Instant,
    packet: SentPacket,
    is_persistent_congestion: bool,
    lost_bytes: u64,
    bytes_in_flight: u64,
)
    requires
        call_ensures(
            <MixCC<B, U, P> as CongestionController>::on_congestion_event,
            (mix, now, &packet, is_persistent_congestion, lost_bytes, bytes_in_flight),
            (),
        ),
    ensures
        final(mix).bbr_part().wf(),
        final(mix).copa_part().wf(),
        final(mix).cubic_part().wf(),
        B::congested(
            old(mix).bbr_part(),
            final(mix).bbr_part(),
            now,
            packet,
            is_persistent_congestion,
            lost_bytes,
            bytes_in_flight,
        ),
        P::congested(
            old(mix).copa_part(),
            final(mix).copa_part(),
            now,
            packet,
            is_persistent_congestion,
            lost_bytes,
            bytes_in_flight,
        ),
        U::congested(
            old(mix).cubic_part(),
            final(mix).cubic_part(),
            now,
            packet,
            is_persistent_congestion,
            lost_bytes,
            bytes_in_flight,
        ),
{
}

/// A mix can be told of an acknowledgement whenever each of its parts can be told of any.
pub proof fn mix_takes_what_its_parts_take<
    B: ControllerModel,
    U: ControllerModel,
    P: ControllerModel,
>(mix: MixCC<B, U, P>, packet: SentPacket, rtt: RttEstimator)
    requires
        forall|p: SentPacket| #[trigger] mix.bbr_part().ack_ready(p, rtt),
        forall|p: SentPacket| #[trigger] mix.copa_part().ack_ready(p, rtt),
        forall|p: SentPacket| #[trigger] mix.cubic_part().ack_ready(p, rtt),
    ensures
        mix.ack_ready(packet, rtt),
{
}

/// A new mix has each of its parts as the part's own default settings build it.
pub proof fn every_part_is_built_from_its_defaults<
    B: DefaultController,
    U: DefaultController,
    P: DefaultController,
>(mix: MixCC<B, U, P>)
    requires
        call_ensures(MixCC::<B, U, P>::new, (), mix),
    ensures
        mix.bbr_part().wf() && mix.bbr_part().as_built(),
        mix.copa_part().wf() && mix.copa_part().as_built(),
        mix.cubic_part().wf() && mix.cubic_part().as_built(),
{
}

/// A mix is in slow start where all three parts are, and in recovery where any of them is. The
/// counters that it shows are those of `bbr`.
pub proof fn every_part_has_a_say_in_the_phase<
    B: CongestionController,
    U: CongestionController,
    P: CongestionController,
>(
    mix: MixCC<B, U, P>,
    sent_time: Instant,
    slow_start: bool,
    recovery: bool,
    stats: &CongestionStats,
)
    requires
        call_ensures(
            <MixCC<B, U, P> as CongestionController>::in_slow_start,
            (&mix,),
            slow_start,
        ),
        call_ensures(
            <MixCC<B, U, P> as CongestionController>::in_recovery,
            (&mix, sent_time),
            recovery,
        ),
        call_ensures(<MixCC<B, U, P> as CongestionController>::stats, (&mix,), stats),
    ensures
        slow_start <==> mix.bbr_part().slow_start() && mix.copa_part().slow_start()
            && mix.cubic_part().slow_start(),
        recovery <==> mix.bbr_part().recovering(sent_time) || mix.copa_part().recovering(sent_time)
            || mix.cubic_part().recovering(sent_time),
        *stats == mix.bbr_part().counters(),
{
}

/// The windows that a mix answers are each the lesser of those of `bbr` and `cubic`.
pub proof fn windows_are_the_lesser_of_two<
    B: CongestionController,
    U: CongestionController,
    P: CongestionController,
>(mix: MixCC<B, U, P>, window: u64, initial_window: u64, minimal_window: u64)
    requires
        call_ensures(
            <MixCC<B, U, P> as CongestionController>::congestion_window,
            (&mix,),
            window,
        ),
        call_ensures(
            <MixCC<B, U, P> as CongestionController>::initial_window,
            (&mix,),
            initial_window,
        ),
        call_ensures(
            <MixCC<B, U, P> as CongestionController>::minimal_window,
            (&mix,),
            minimal_window,
        ),
    ensures
        window <= mix.bbr_part().window() && window <= mix.cubic_part().window(),
        window == mix.bbr_part().window() || window == mix.cubic_part().window(),
        initial_window <= mix.bbr_part().first_window() && initial_window
            <= mix.cubic_part().first_window(),
        initial_window == mix.bbr_part().first_window() || initial_window
            == mix.cubic_part().first_window(),
        minimal_window <= mix.bbr_part().least_window() && minimal_window
            <= mix.cubic_part().least_window(),
        minimal_window == mix.bbr_part().least_window() || minimal_window
            == mix.cubic_part().least_window(),
{
}

/// The pacing rate that a mix answers is the lesser, and its least pacing rate the greater, of
/// those that `bbr` and `cubic` have; there is none where neither has one.
pub proof fn rates_are_the_extremes_of_two<
    B: CongestionController,
    U: CongestionController,
    P: CongestionController,
>(mix: MixCC<B, U, P>, pace: Option<u64>, least_pace: Option<u64>)
    requires
        call_ensures(<MixCC<B, U, P> as CongestionController>::pacing_rate, (&mix,), pace),
        call_ensures(
            <MixCC<B, U, P> as CongestionController>::min_pacing_rate,
            (&mix,),
            least_pace,
        ),
    ensures
        pace == mix.bbr_part().pace() || pace == mix.cubic_part().pace(),
        mix.bbr_part().pace() matches Some(rate) ==> pace is Some && pace->0 <= rate,
        mix.cubic_part().pace() matches Some(rate) ==> pace is Some && pace->0 <= rate,
        least_pace == mix.bbr_part().least_pace() || least_pace == mix.cubic_part().least_pace(),
        mix.bbr_part().least_pace() matches Some(rate) ==> least_pace is Some && least_pace->0
            >= rate,
        mix.cubic_part().least_pace() matches Some(rate) ==> least_pace is Some && least_pace->0
            >= rate,
{
}

/// Of three rates, in whatever order they are given, the least that is answered is one of those
/// that are present and no more than any, and the greatest one of them and no less than any;
/// there is none where none is present.
pub proof fn least_and_greatest_rates_bound_the_others(
    bbr: Option<u64>,
    copa: Option<u64>,
    cubic: Option<u64>,
    least: Option<u64>,
    greatest: Option<u64>,
)
    requires
        call_ensures(least_rate, (bbr, copa, cubic), least),
        call_ensures(greatest_rate, (bbr, copa, cubic), greatest),
    ensures
        least == bbr || least == copa || least == cubic,
        greatest == bbr || greatest == copa || greatest == cubic,
        bbr matches Some(rate) ==> least is Some && greatest is Some && least->0 <= rate
            <= greatest->0,
        copa matches Some(rate) ==> least is Some && greatest is Some && least->0 <= rate
            <= greatest->0,
        cubic matches Some(rate) ==> least is Some && greatest is Some && least->0 <= rate
            <= greatest->0,
{
}

} // verus!
