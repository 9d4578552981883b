//! The VPN datapath: IP packets streamed over persistent Interests.
//!
//! Each endpoint plays both roles. As producer it publishes outbound packets as
//! numbered Data, one for each unit of the budget that the peer's subscription
//! grants. As consumer it holds one subscription on the peer's prefix and hands
//! what arrives to the operating system. Both roles are state machines here; the
//! tasks, queues and timers that drive them are not.

use crate::name::{ComponentView, Name};
use vstd::prelude::*;

verus! {

/// Packets that may queue in either direction between the tunnel and the
/// operating system.
pub const TUN_QUEUE_CAP: usize = 1024;

/// Freshness of streamed tunnel Data.
pub const TUN_DATA_FRESHNESS_MS: u64 = 1000;

/// Pause before a subscription is tried again.
pub const RESUBSCRIBE_DELAY_MS: u64 = 200;

/// Tunnel configuration: the two routable prefixes and the subscription budget.
#[derive(Clone, Debug, PartialEq, Eq)]
pub struct TunConfig {
    /// Prefix our producer streams outbound IP under.
    pub self_prefix: Name,
    /// Prefix our consumer subscribes to.
    pub peer_prefix: Name,
    /// Data packets that one persistent Interest carries.
    pub credit: u32,
    /// Lifetime of one subscription.
    pub lifetime_ms: u64,
}

impl TunConfig {
    pub fn new(self_prefix: Name, peer_prefix: Name) -> (config: TunConfig)
        ensures
            config == (TunConfig {
                self_prefix,
                peer_prefix,
                credit: 4096,
                lifetime_ms: 300_000,
            }),
    {
        TunConfig { self_prefix, peer_prefix, credit: 4096, lifetime_ms: 300_000 }
    }

    /// Sets the credit, which is at least one.
    pub fn credit(self, n: u32) -> (config: TunConfig)
        ensures
            config.credit == (if n == 0 {
                1
            } else {
                n
            }),
            config.self_prefix == self.self_prefix,
            config.peer_prefix == self.peer_prefix,
            config.lifetime_ms == self.lifetime_ms,
    {
        let credit: u32 = if n == 0 {
            1
        } else {
            n
        };
        TunConfig {
            self_prefix: self.self_prefix,
            peer_prefix: self.peer_prefix,
            credit,
            lifetime_ms: self.lifetime_ms,
        }
    }

    pub fn lifetime(self, ms: u64) -> (config: TunConfig)
        ensures
            config.lifetime_ms == ms,
            config.self_prefix == self.self_prefix,
            config.peer_prefix == self.peer_prefix,
            config.credit == self.credit,
    {
        TunConfig {
            self_prefix: self.self_prefix,
            peer_prefix: self.peer_prefix,
            credit: self.credit,
            lifetime_ms: ms,
        }
    }
}

/// The tunnel was torn down.
#[derive(Clone, Copy, Debug, PartialEq, Eq, Structural)]
pub struct TunClosed;

impl TunClosed {
    /// The message shown for this error.
    pub fn message(&self) -> (msg: String)
        ensures
            msg@ == "tun datapath closed"@,
    {
        "tun datapath closed".to_owned()
    }
}

/// The budget that one subscription Interest grants: what its subscription
/// request asks for, or a single Data where it carries none.
pub open spec fn credit_of(max_data_count: Option<u32>) -> nat {
    match max_data_count {
        Some(n) => n as nat,
        None => 1,
    }
}

pub fn granted_credit(max_data_count: Option<u32>) -> (credit: u64)
    ensures
        credit == credit_of(max_data_count),
        match max_data_count {
            Some(n) => credit == n,
            None => credit == 1,
        },
{
    match max_data_count {
        Some(n) => n as u64,
        None => 1,
    }
}

/// The name of Data number `seq` of a tunnel that streams under `prefix`.
pub open spec fn data_name_of(prefix: Seq<ComponentView>, seq: nat) -> Seq<ComponentView> {
    prefix.push(ComponentView::Segment(seq as u64))
}

/// The name of Data number `seq` of a tunnel that streams under `self_prefix`.
pub fn data_name(self_prefix: Name, seq: u64) -> (name: Name)
    ensures
        name@ == self_prefix@.push(ComponentView::Segment(seq)),
        name@ == data_name_of(self_prefix@, seq as nat),
{
    self_prefix.append_segment(seq)
}

/// What the uplink holds: the prefix it streams under, the unused budget, the
/// number of the next Data, the packet that waits for budget, and whether it
/// still runs.
pub ghost struct UplinkView {
    pub prefix: Seq<ComponentView>,
    pub budget: nat,
    pub seq: nat,
    pub waiting: Option<Seq<u8>>,
    pub running: bool,
}

/// What can happen to the uplink.
#[derive(Clone, Debug, PartialEq, Eq)]
pub enum UplinkEvent {
    /// A peer's Interest arrived, with the count its subscription request
    /// carries, if it carries one.
    Interest(Option<u32>),
    /// A packet was read from the operating system; `None` once that side is
    /// gone.
    Outbound(Option<Vec<u8>>),
    /// The forwarder refused the Data that was published last.
    PublishFailed,
    /// The tunnel is torn down.
    Cancelled,
}

/// What the uplink's driver does next.
#[derive(Clone, Debug, PartialEq, Eq)]
pub enum UplinkAction {
    /// Read the next packet from the operating system.
    ReadPacket,
    /// Hold the packet until a subscription grants budget.
    AwaitBudget,
    /// Publish this packet as Data with this name.
    Publish { name: Name, packet: Vec<u8> },
    /// Stop.
    Stop,
}

/// An [`UplinkAction`] over mathematical values.
pub ghost enum UplinkActionView {
    ReadPacket,
    AwaitBudget,
    Publish { name: Seq<ComponentView>, packet: Seq<u8> },
    Stop,
}

impl View for UplinkAction {
    type V = UplinkActionView;

    open spec fn view(&self) -> UplinkActionView {
        match self {
            UplinkAction::ReadPacket => UplinkActionView::ReadPacket,
            UplinkAction::AwaitBudget => UplinkActionView::AwaitBudget,
            UplinkAction::Publish { name, packet } => UplinkActionView::Publish {
                name: name@,
                packet: packet@,
            },
            UplinkAction::Stop => UplinkActionView::Stop,
        }
    }
}

/// An [`UplinkEvent`] with its bytes as a sequence.
pub ghost enum UplinkEventView {
    Interest(Option<u32>),
    Outbound(Option<Seq<u8>>),
    PublishFailed,
    Cancelled,
}

impl View for UplinkEvent {
    type V = UplinkEventView;

    open spec fn view(&self) -> UplinkEventView {
        match self {
            UplinkEvent::Interest(n) => UplinkEventView::Interest(*n),
            UplinkEvent::Outbound(Some(packet)) => UplinkEventView::Outbound(Some(packet@)),
            UplinkEvent::Outbound(None) => UplinkEventView::Outbound(None),
            UplinkEvent::PublishFailed => UplinkEventView::PublishFailed,
            UplinkEvent::Cancelled => UplinkEventView::Cancelled,
        }
    }
}

/// What an event does to the uplink before anything is sent. A packet is only
/// read while none is waiting.
pub open spec fn uplink_absorb(st: UplinkView, event: UplinkEventView) -> UplinkView {
    match event {
        UplinkEventView::Interest(n) => UplinkView { budget: st.budget + credit_of(n), ..st },
        UplinkEventView::Outbound(Some(packet)) => UplinkView {
            waiting: match st.waiting {
                Some(held) => Some(held),
                None => Some(packet),
            },
            ..st
        },
        UplinkEventView::Outbound(None) => UplinkView { running: false, ..st },
        UplinkEventView::PublishFailed => UplinkView { running: false, ..st },
        UplinkEventView::Cancelled => UplinkView { running: false, ..st },
    }
}

/// What the uplink does next, and what it holds then. Budget is spent only when
/// there is a packet to send.
pub open spec fn uplink_emit(st: UplinkView) -> (UplinkView, UplinkActionView) {
    if !st.running {
        (st, UplinkActionView::Stop)
    } else {
        match st.waiting {
            None => (st, UplinkActionView::ReadPacket),
            Some(packet) => if st.budget == 0 {
                (st, UplinkActionView::AwaitBudget)
            } else {
                (
                    UplinkView {
                        budget: (st.budget - 1) as nat,
                        seq: st.seq + 1,
                        waiting: None,
                        ..st
                    },
                    UplinkActionView::Publish { name: data_name_of(st.prefix, st.seq), packet },
                )
            },
        }
    }
}

/// One event, and what the uplink does about it.
pub open spec fn uplink_step(st: UplinkView, event: UplinkEventView) -> (
    UplinkView,
    UplinkActionView,
) {
    uplink_emit(uplink_absorb(st, event))
}

/// The uplink under `prefix` before anything has happened.
pub open spec fn uplink_start(prefix: Seq<ComponentView>) -> UplinkView {
    UplinkView { prefix, budget: 0, seq: 0, waiting: None, running: true }
}

/// Publishes outbound packets as numbered Data, within the granted budget.
pub struct Uplink {
    prefix: Name,
    budget: u64,
    seq: u64,
    waiting: Option<Vec<u8>>,
    running: bool,
}

impl View for Uplink {
    type V = UplinkView;

    closed spec fn view(&self) -> UplinkView {
        UplinkView {
            prefix: self.prefix@,
            budget: self.budget as nat,
            seq: self.seq as nat,
            waiting: match self.waiting {
                Some(packet) => Some(packet@),
                None => None,
            },
            running: self.running,
        }
    }
}

impl Uplink {
    /// An uplink that streams under `prefix`.
    pub fn new(prefix: Name) -> (uplink: Uplink)
        ensures
            uplink@ == uplink_start(prefix@),
            uplink@.prefix == prefix@,
            uplink@.running && uplink@.waiting is None,
            uplink@.budget == 0 && uplink@.seq == 0,
    {
        Uplink { prefix, budget: 0, seq: 0, waiting: None, running: true }
    }

    /// Whether a packet waits for budget; no further packet is read meanwhile.
    pub fn is_waiting(&self) -> (waiting: bool)
        ensures
            waiting == (self@.waiting is Some),
    {
        self.waiting.is_some()
    }

    /// The unused budget.
    pub fn budget(&self) -> (budget: u64)
        ensures
            budget == self@.budget,
    {
        self.budget
    }

    /// The number that the next Data gets.
    pub fn next_seq(&self) -> (seq: u64)
        ensures
            seq == self@.seq,
    {
        self.seq
    }

    /// Takes in one event and says what to do next. The budget and the sequence
    /// number must have room left in their 64 bits.
    pub fn on_event(&mut self, event: UplinkEvent) -> (action: UplinkAction)
        requires
            old(self)@.budget + u32::MAX <= u64::MAX,
            old(self)@.seq < u64::MAX,
        ensures
            final(self)@ == uplink_step(old(self)@, event@).0,
            action@ == uplink_step(old(self)@, event@).1,
            action is Publish <==> final(self)@.seq == old(self)@.seq + 1,
            match event {
                UplinkEvent::Interest(Some(n)) => final(self)@.budget + final(self)@.seq
                    == old(self)@.budget + old(self)@.seq + n,
                UplinkEvent::Interest(None) => final(self)@.budget + final(self)@.seq
                    == old(self)@.budget + old(self)@.seq + 1,
                _ => final(self)@.budget + final(self)@.seq == old(self)@.budget + old(self)@.seq,
            },
    {
        match event {
            UplinkEvent::Interest(n) => {
                self.budget = self.budget + granted_credit(n);
            },
            UplinkEvent::Outbound(Some(packet)) => {
                if self.waiting.is_none() {
                    self.waiting = Some(packet);
                }
            },
            UplinkEvent::Outbound(None) => {
                self.running = false;
            },
            UplinkEvent::PublishFailed => {
                self.running = false;
            },
            UplinkEvent::Cancelled => {
                self.running = false;
            },
        }
        if !self.running {
            return UplinkAction::Stop;
        }
        if self.waiting.is_none() {
            return UplinkAction::ReadPacket;
        }
        if self.budget == 0 {
            return UplinkAction::AwaitBudget;
        }
        match self.waiting.take() {
            None => UplinkAction::ReadPacket,
            Some(packet) => {
                let seq: u64 = self.seq;
                self.budget = self.budget - 1;
                self.seq = seq + 1;
                UplinkAction::Publish { name: data_name(self.prefix.duplicate(), seq), packet }
            },
        }
    }
}

/// The uplink under `prefix` after `events`, from the start.
pub open spec fn uplink_after(
    prefix: Seq<ComponentView>,
    events: Seq<UplinkEventView>,
) -> UplinkView
    decreases events.len(),
{
    if events.len() == 0 {
        uplink_start(prefix)
    } else {
        uplink_step(uplink_after(prefix, events.drop_last()), events.last()).0
    }
}

/// The Data published over `events`, oldest first: the name and the content of
/// each.
pub open spec fn published(prefix: Seq<ComponentView>, events: Seq<UplinkEventView>) -> Seq<
    (Seq<ComponentView>, Seq<u8>),
>
    decreases events.len(),
{
    if events.len() == 0 {
        Seq::empty()
    } else {
        let before = published(prefix, events.drop_last());
        match uplink_step(uplink_after(prefix, events.drop_last()), events.last()).1 {
            UplinkActionView::Publish { name, packet } => before.push((name, packet)),
            _ => before,
        }
    }
}

/// The packets that were accepted from the operating system over `events`: all
/// that arrived while none was waiting.
pub open spec fn accepted(prefix: Seq<ComponentView>, events: Seq<UplinkEventView>) -> Seq<Seq<u8>>
    decreases events.len(),
{
    if events.len() == 0 {
        Seq::empty()
    } else {
        let before = accepted(prefix, events.drop_last());
        match events.last() {
            UplinkEventView::Outbound(Some(packet)) => if uplink_after(
                prefix,
                events.drop_last(),
            ).waiting is None {
                before.push(packet)
            } else {
                before
            },
            _ => before,
        }
    }
}

/// All the budget granted over `events`.
pub open spec fn granted(events: Seq<UplinkEventView>) -> nat
    decreases events.len(),
{
    if events.len() == 0 {
        0
    } else {
        granted(events.drop_last()) + match events.last() {
            UplinkEventView::Interest(n) => credit_of(n),
            _ => 0,
        }
    }
}

/// The tunnel never publishes more than the peer's subscriptions allow, loses
/// none of the packets it accepted, and keeps them in order: Data number `k`,
/// counted from zero, is named by the prefix and `k`, and its content is the
/// `k`-th packet that was accepted, unchanged. All accepted packets are
/// published but for the one that may still wait.
pub proof fn law_uplink_stream(prefix: Seq<ComponentView>, events: Seq<UplinkEventView>)
    ensures
        uplink_after(prefix, events).budget + published(prefix, events).len() == granted(events),
        uplink_after(prefix, events).seq == published(prefix, events).len(),
        forall|k: int|
            0 <= k < published(prefix, events).len() ==> #[trigger] published(prefix, events)[k]
                == (
                prefix.push(ComponentView::Segment(k as u64)),
                accepted(prefix, events)[k],
            ),
        match uplink_after(prefix, events).waiting {
            Some(packet) => accepted(prefix, events).len() == published(prefix, events).len() + 1
                && accepted(prefix, events).last() == packet,
            None => accepted(prefix, events).len() == published(prefix, events).len(),
        },
        uplink_after(prefix, events).prefix == prefix,
    decreases events.len(),
{
    if events.len() > 0 {
        law_uplink_stream(prefix, events.drop_last());
    }
}

/// An Interest raises the budget by exactly the count that its subscription
/// request carries, and by one where it carries none, whatever the count is. If a
/// packet was waiting, one unit of the new budget goes to it at once.
pub proof fn law_interest_grants_its_count(st: UplinkView, n: u32)
    ensures
        !st.running || st.waiting is None ==> {
            &&& uplink_step(st, UplinkEventView::Interest(Some(n))).0 == (UplinkView {
                budget: st.budget + n as nat,
                ..st
            })
            &&& uplink_step(st, UplinkEventView::Interest(None)).0 == (UplinkView {
                budget: st.budget + 1,
                ..st
            })
        },
        st.running && st.waiting is Some && st.budget + n > 0 ==> {
            &&& uplink_step(st, UplinkEventView::Interest(Some(n))).0 == (UplinkView {
                budget: (st.budget + n - 1) as nat,
                seq: st.seq + 1,
                waiting: None,
                ..st
            })
            &&& uplink_step(st, UplinkEventView::Interest(Some(n))).1 == (
            UplinkActionView::Publish {
                name: st.prefix.push(ComponentView::Segment(st.seq as u64)),
                packet: st.waiting->0,
            })
        },
        st.running && st.waiting is Some ==> {
            &&& uplink_step(st, UplinkEventView::Interest(None)).0 == (UplinkView {
                seq: st.seq + 1,
                waiting: None,
                ..st
            })
            &&& uplink_step(st, UplinkEventView::Interest(None)).1 is Publish
        },
{
}

proof fn lemma_waiting_without_budget(prefix: Seq<ComponentView>, events: Seq<UplinkEventView>)
    ensures
        uplink_after(prefix, events).running && uplink_after(prefix, events).waiting is Some
            ==> uplink_after(prefix, events).budget == 0,
    decreases events.len(),
{
    if events.len() > 0 {
        lemma_waiting_without_budget(prefix, events.drop_last());
    }
}

/// As long as the uplink runs, it has published as many of the accepted packets as
/// were granted, from the first one on, and all of them where more was granted.
pub proof fn law_as_many_as_granted_are_published(
    prefix: Seq<ComponentView>,
    events: Seq<UplinkEventView>,
)
    requires
        uplink_after(prefix, events).running,
    ensures
        published(prefix, events).len() == if granted(events) < accepted(prefix, events).len() {
            granted(events)
        } else {
            accepted(prefix, events).len()
        },
        forall|k: int|
            0 <= k < published(prefix, events).len() ==> (#[trigger] published(prefix, events)[k]).1
                == accepted(prefix, events)[k],
{
    law_uplink_stream(prefix, events);
    lemma_waiting_without_budget(prefix, events);
}

/// Grants add up: each Interest of a series counts with the number it carries.
pub proof fn law_grants_add_up(events: Seq<UplinkEventView>, n: u32)
    ensures
        granted(Seq::empty()) == 0,
        granted(events.push(UplinkEventView::Interest(Some(n)))) == granted(events) + n,
        granted(events.push(UplinkEventView::Interest(None))) == granted(events) + 1,
        forall|event: UplinkEventView|
            event !is Interest ==> #[trigger] granted(events.push(event)) == granted(events),
{
    assert forall|event: UplinkEventView| #[trigger]
        events.push(event).drop_last() == events by {
        assert(events.push(event).drop_last() =~= events);
    }
}

/// The packets that the operating system hands out one after the other.
pub open spec fn outbound(packets: Seq<Seq<u8>>) -> Seq<UplinkEventView> {
    packets.map_values(|packet: Seq<u8>| UplinkEventView::Outbound(Some(packet)))
}

proof fn lemma_packets_go_out(
    prefix: Seq<ComponentView>,
    events: Seq<UplinkEventView>,
    packets: Seq<Seq<u8>>,
)
    requires
        uplink_after(prefix, events).running,
        uplink_after(prefix, events).waiting is None,
        packets.len() <= uplink_after(prefix, events).budget,
    ensures
        published(prefix, events + outbound(packets)) == published(prefix, events) + Seq::new(
            packets.len(),
            |k: int|
                (
                    prefix.push(
                        ComponentView::Segment((published(prefix, events).len() + k) as u64),
                    ),
                    packets[k],
                ),
        ),
        uplink_after(prefix, events + outbound(packets)).running,
        uplink_after(prefix, events + outbound(packets)).waiting is None,
        uplink_after(prefix, events + outbound(packets)).budget == uplink_after(
            prefix,
            events,
        ).budget - packets.len(),
    decreases packets.len(),
{
    if packets.len() == 0 {
        assert(events + outbound(packets) =~= events);
    } else {
        let all = events + outbound(packets);
        let before = events + outbound(packets.drop_last());
        lemma_packets_go_out(prefix, events, packets.drop_last());
        law_uplink_stream(prefix, events);
        law_uplink_stream(prefix, before);
        assert(all.drop_last() =~= before);
        assert(all.last() == UplinkEventView::Outbound(Some(packets.last())));
    }
}

/// A running uplink that is granted `n` publishes the next `n` packets, all of
/// them and as they are, numbered on from the last: neither fewer nor more than
/// its budget has room for, whatever the size of the grant.
pub proof fn law_granted_packets_go_out(
    prefix: Seq<ComponentView>,
    events: Seq<UplinkEventView>,
    n: u32,
    packets: Seq<Seq<u8>>,
    further: Seq<u8>,
)
    requires
        uplink_after(prefix, events).running,
        uplink_after(prefix, events).waiting is None,
        packets.len() == uplink_after(prefix, events).budget + n,
    ensures
        ({
            let granting = events.push(UplinkEventView::Interest(Some(n)));
            let sent = published(prefix, events);
            &&& published(prefix, granting + outbound(packets)) == sent + Seq::new(
                packets.len(),
                |k: int|
                    (
                        prefix.push(ComponentView::Segment((sent.len() + k) as u64)),
                        packets[k],
                    ),
            )
            &&& published(prefix, granting + outbound(packets.push(further))) == published(
                prefix,
                granting + outbound(packets),
            )
            &&& uplink_after(prefix, granting + outbound(packets.push(further))).waiting == Some(
                further,
            )
        }),
{
    let granting = events.push(UplinkEventView::Interest(Some(n)));
    assert(granting.drop_last() =~= events);
    assert(published(prefix, granting) == published(prefix, events));
    lemma_packets_go_out(prefix, granting, packets);
    let all = granting + outbound(packets.push(further));
    assert(all.drop_last() =~= granting + outbound(packets));
    assert(all.last() == UplinkEventView::Outbound(Some(further)));
}

/// A packet that is read while budget is left goes out at once; one that is read
/// without budget waits, and no other takes its place.
pub proof fn law_packet_waits_for_budget(st: UplinkView, packet: Seq<u8>, other: Seq<u8>)
    requires
        st.running,
        st.waiting is None,
    ensures
        ({
            let (next, action) = uplink_step(st, UplinkEventView::Outbound(Some(packet)));
            if st.budget > 0 {
                &&& action == (UplinkActionView::Publish {
                    name: st.prefix.push(ComponentView::Segment(st.seq as u64)),
                    packet,
                })
                &&& next == (UplinkView {
                    budget: (st.budget - 1) as nat,
                    seq: st.seq + 1,
                    ..st
                })
            } else {
                &&& action is AwaitBudget
                &&& next == (UplinkView { waiting: Some(packet), ..st })
                &&& uplink_step(next, UplinkEventView::Outbound(Some(other))).0 == next
            }
        }),
        uplink_step(st, UplinkEventView::Outbound(None)).1 is Stop,
        uplink_step(st, UplinkEventView::PublishFailed).1 is Stop,
        uplink_step(st, UplinkEventView::Cancelled).1 is Stop,
{
}

/// A teardown, a refused Data and an operating system that is gone each stop the
/// uplink, whether or not a packet waits.
pub proof fn law_uplink_ends(st: UplinkView)
    ensures
        uplink_step(st, UplinkEventView::Outbound(None)) == (
            UplinkView { running: false, ..st },
            UplinkActionView::Stop,
        ),
        uplink_step(st, UplinkEventView::PublishFailed) == (
            UplinkView { running: false, ..st },
            UplinkActionView::Stop,
        ),
        uplink_step(st, UplinkEventView::Cancelled) == (
            UplinkView { running: false, ..st },
            UplinkActionView::Stop,
        ),
{
}

/// What was published stays published: a further event adds at most one Data,
/// behind those that went before.
pub proof fn law_uplink_appends(
    prefix: Seq<ComponentView>,
    events: Seq<UplinkEventView>,
    event: UplinkEventView,
)
    ensures
        match uplink_step(uplink_after(prefix, events), event).1 {
            UplinkActionView::Publish { name, packet } => published(prefix, events.push(event))
                == published(prefix, events).push((name, packet)),
            _ => published(prefix, events.push(event)) == published(prefix, events),
        },
{
    assert(events.push(event).drop_last() =~= events);
}

/// Once stopped, the uplink stays stopped and publishes nothing.
pub proof fn law_uplink_stays_stopped(st: UplinkView, event: UplinkEventView)
    requires
        !st.running,
    ensures
        !uplink_step(st, event).0.running,
        uplink_step(st, event).1 is Stop,
{
}

/// A teardown stops the uplink for good: nothing is published from then on,
/// whatever happens.
pub proof fn law_uplink_silent_after_teardown(
    prefix: Seq<ComponentView>,
    events: Seq<UplinkEventView>,
    later: Seq<UplinkEventView>,
)
    ensures
        published(prefix, events.push(UplinkEventView::Cancelled) + later) == published(
            prefix,
            events,
        ),
        !uplink_after(prefix, events.push(UplinkEventView::Cancelled) + later).running,
    decreases later.len(),
{
    let stopped = events.push(UplinkEventView::Cancelled);
    if later.len() == 0 {
        assert(stopped + later =~= stopped);
        assert(stopped.drop_last() =~= events);
    } else {
        law_uplink_silent_after_teardown(prefix, events, later.drop_last());
        assert((stopped + later).drop_last() =~= stopped + later.drop_last());
    }
}

/// Where the downlink stands.
#[derive(Clone, Copy, Debug, PartialEq, Eq, Structural)]
pub enum Downlink {
    /// A subscription is being set up.
    Subscribing,
    /// The subscription streams.
    Receiving,
    /// A packet is being handed to the operating system.
    Delivering,
    /// Waiting before the next subscription.
    Pausing,
    /// Over.
    Stopped,
}

/// What can happen to the downlink.
#[derive(Clone, Debug, PartialEq, Eq)]
pub enum DownlinkEvent {
    /// The subscription was set up, or refused.
    Subscribed(bool),
    /// Data arrived, with its content if it has any.
    Data(Option<Vec<u8>>),
    /// The subscription failed.
    ReceiveFailed,
    /// The operating system took the packet, or its side is gone.
    Delivered(bool),
    /// The pause is over.
    Resumed,
    /// The tunnel is torn down.
    Cancelled,
}

/// What the downlink's driver does next.
#[derive(Clone, Debug, PartialEq, Eq)]
pub enum DownlinkAction {
    /// Subscribe to the peer's prefix.
    Subscribe,
    /// Wait for the next Data of the subscription.
    Receive,
    /// Hand this packet to the operating system.
    Deliver(Vec<u8>),
    /// Sleep for [`RESUBSCRIBE_DELAY_MS`].
    Pause,
    /// Stop.
    Stop,
}

/// The state that follows `st` on `event`. An event that cannot occur in `st`
/// changes nothing.
pub open spec fn downlink_next(st: Downlink, event: DownlinkEvent) -> Downlink {
    match (st, event) {
        (Downlink::Stopped, _) => Downlink::Stopped,
        (_, DownlinkEvent::Cancelled) => Downlink::Stopped,
        (Downlink::Subscribing, DownlinkEvent::Subscribed(true)) => Downlink::Receiving,
        (Downlink::Subscribing, DownlinkEvent::Subscribed(false)) => Downlink::Pausing,
        (Downlink::Receiving, DownlinkEvent::Data(Some(_))) => Downlink::Delivering,
        (Downlink::Receiving, DownlinkEvent::ReceiveFailed) => Downlink::Pausing,
        (Downlink::Delivering, DownlinkEvent::Delivered(true)) => Downlink::Receiving,
        (Downlink::Delivering, DownlinkEvent::Delivered(false)) => Downlink::Stopped,
        (Downlink::Pausing, DownlinkEvent::Resumed) => Downlink::Subscribing,
        (_, _) => st,
    }
}

impl Downlink {
    pub fn new() -> (downlink: Downlink)
        ensures
            downlink == Downlink::Subscribing,
    {
        Downlink::Subscribing
    }

    /// Takes in one event and says what to do next. The content of each Data
    /// that has any is handed on; a failed subscription is tried again after a
    /// pause.
    pub fn on_event(&mut self, event: DownlinkEvent) -> (action: DownlinkAction)
        ensures
            *final(self) == downlink_next(*old(self), event),
            match *final(self) {
                Downlink::Subscribing => action is Subscribe,
                Downlink::Receiving => action is Receive,
                Downlink::Delivering => match event {
                    DownlinkEvent::Data(Some(content)) if *old(self) == Downlink::Receiving =>
                        action == DownlinkAction::Deliver(content),
                    _ => action is Receive,
                },
                Downlink::Pausing => action is Pause,
                Downlink::Stopped => action is Stop,
            },
    {
        let mut packet: Option<Vec<u8>> = None;
        match (*self, event) {
            (Downlink::Stopped, _) => {},
            (_, DownlinkEvent::Cancelled) => {
                *self = Downlink::Stopped;
            },
            (Downlink::Subscribing, DownlinkEvent::Subscribed(true)) => {
                *self = Downlink::Receiving;
            },
            (Downlink::Subscribing, DownlinkEvent::Subscribed(false)) => {
                *self = Downlink::Pausing;
            },
            (Downlink::Receiving, DownlinkEvent::Data(Some(content))) => {
                packet = Some(content);
                *self = Downlink::Delivering;
            },
            (Downlink::Receiving, DownlinkEvent::ReceiveFailed) => {
                *self = Downlink::Pausing;
            },
            (Downlink::Delivering, DownlinkEvent::Delivered(true)) => {
                *self = Downlink::Receiving;
            },
            (Downlink::Delivering, DownlinkEvent::Delivered(false)) => {
                *self = Downlink::Stopped;
            },
            (Downlink::Pausing, DownlinkEvent::Resumed) => {
                *self = Downlink::Subscribing;
            },
            (_, _) => {},
        }
        match *self {
            Downlink::Subscribing => DownlinkAction::Subscribe,
            Downlink::Receiving => DownlinkAction::Receive,
            Downlink::Delivering => match packet {
                Some(content) => DownlinkAction::Deliver(content),
                None => DownlinkAction::Receive,
            },
            Downlink::Pausing => DownlinkAction::Pause,
            Downlink::Stopped => DownlinkAction::Stop,
        }
    }
}

/// Only a teardown, or an operating system that is gone, stops the downlink: as
/// long as neither happens it keeps subscribing and receiving.
pub proof fn law_downlink_survives_failures(st: Downlink, event: DownlinkEvent)
    requires
        st != Downlink::Stopped,
        event !is Cancelled,
        event != DownlinkEvent::Delivered(false),
    ensures
        downlink_next(st, event) != Downlink::Stopped,
{
}

/// The life of a subscription: set up, it receives, and every packet that comes
/// with content is delivered before the next is waited for; refused or failed, it
/// is set up again after one pause. A teardown ends it from anywhere, and so does
/// an operating system that is gone.
pub proof fn law_downlink_resubscribes_after_a_pause(st: Downlink, packet: Vec<u8>)
    ensures
        downlink_next(Downlink::Subscribing, DownlinkEvent::Subscribed(true))
            == Downlink::Receiving,
        downlink_next(Downlink::Receiving, DownlinkEvent::Data(Some(packet)))
            == Downlink::Delivering,
        downlink_next(Downlink::Receiving, DownlinkEvent::Data(None)) == Downlink::Receiving,
        downlink_next(Downlink::Delivering, DownlinkEvent::Delivered(true)) == Downlink::Receiving,
        downlink_next(Downlink::Delivering, DownlinkEvent::Delivered(false)) == Downlink::Stopped,
        downlink_next(Downlink::Subscribing, DownlinkEvent::Subscribed(false))
            == Downlink::Pausing,
        downlink_next(Downlink::Receiving, DownlinkEvent::ReceiveFailed) == Downlink::Pausing,
        downlink_next(Downlink::Pausing, DownlinkEvent::Resumed) == Downlink::Subscribing,
        downlink_next(st, DownlinkEvent::Cancelled) == Downlink::Stopped,
{
}

/// What does not belong to a state changes nothing: a running downlink leaves its
/// state on no event but those that end it.
pub proof fn law_downlink_ignores_strays(st: Downlink, event: DownlinkEvent)
    requires
        !(event is Cancelled),
        st == Downlink::Subscribing ==> !(event is Subscribed),
        st == Downlink::Receiving ==> !(event is Data) && !(event is ReceiveFailed),
        st == Downlink::Delivering ==> !(event is Delivered),
        st == Downlink::Pausing ==> !(event is Resumed),
    ensures
        downlink_next(st, event) == st,
{
}

/// Once stopped, the downlink stays stopped.
pub proof fn law_downlink_stays_stopped(event: DownlinkEvent)
    ensures
        downlink_next(Downlink::Stopped, event) == Downlink::Stopped,
{
}

/// An IP address, most significant byte first.
#[derive(Clone, Copy, Debug, PartialEq, Eq, Hash)]
pub enum IpAddr {
    V4([u8; 4]),
    V6([u8; 16]),
}

/// An [`IpAddr`] with its bytes as a sequence.
pub ghost enum IpAddrView {
    V4(Seq<u8>),
    V6(Seq<u8>),
}

impl View for IpAddr {
    type V = IpAddrView;

    open spec fn view(&self) -> IpAddrView {
        match self {
            IpAddr::V4(octets) => IpAddrView::V4(octets@),
            IpAddr::V6(octets) => IpAddrView::V6(octets@),
        }
    }
}

/// The five-tuple of an IP packet. Ports are `0` for other protocols than TCP
/// and UDP.
#[derive(Clone, Copy, Debug, PartialEq, Eq, Hash)]
pub struct IpFlow {
    pub version: u8,
    pub protocol: u8,
    pub src: IpAddr,
    pub dst: IpAddr,
    pub src_port: u16,
    pub dst_port: u16,
}

/// Protocol number of TCP.
pub const PROTO_TCP: u8 = 6;

/// Protocol number of UDP.
pub const PROTO_UDP: u8 = 17;

/// The number that two bytes denote, most significant first.
pub open spec fn be16(high: u8, low: u8) -> int {
    high * 256 + low
}

/// Source and destination port of the transport segment that starts at `at`:
/// only TCP and UDP have them, and only where the four bytes are there.
pub open spec fn ports_at(protocol: u8, pkt: Seq<u8>, at: int) -> (int, int) {
    if (protocol == PROTO_TCP || protocol == PROTO_UDP) && at + 4 <= pkt.len() {
        (be16(pkt[at], pkt[at + 1]), be16(pkt[at + 2], pkt[at + 3]))
    } else {
        (0, 0)
    }
}

/// The length in bytes that the first byte of an IPv4 header gives for it.
pub open spec fn ipv4_header_len(first: u8) -> int {
    (first % 16) * 4
}

/// Whether `pkt` starts with a whole IP header: twenty bytes and all that its
/// length field claims for IPv4, and forty for IPv6.
pub open spec fn has_ip_header(pkt: Seq<u8>) -> bool {
    &&& pkt.len() > 0
    &&& {
        ||| pkt[0] / 16 == 4 && 20 <= pkt.len() && ipv4_header_len(pkt[0]) <= pkt.len()
        ||| pkt[0] / 16 == 6 && 40 <= pkt.len()
    }
}

/// Whether `flow` is the five-tuple of `pkt`: the fields at their fixed places
/// in the header, and the ports behind it. The length of an IPv4 header is in
/// its first byte; an IPv6 header is forty bytes, and extension headers are not
/// walked.
pub open spec fn is_flow_of(flow: IpFlow, pkt: Seq<u8>) -> bool {
    if pkt[0] / 16 == 4 {
        &&& flow.version == 4
        &&& flow.protocol == pkt[9]
        &&& flow.src@ == IpAddrView::V4(pkt.subrange(12, 16))
        &&& flow.dst@ == IpAddrView::V4(pkt.subrange(16, 20))
        &&& (flow.src_port as int, flow.dst_port as int) == ports_at(
            pkt[9],
            pkt,
            ipv4_header_len(pkt[0]),
        )
    } else {
        &&& flow.version == 6
        &&& flow.protocol == pkt[6]
        &&& flow.src@ == IpAddrView::V6(pkt.subrange(8, 24))
        &&& flow.dst@ == IpAddrView::V6(pkt.subrange(24, 40))
        &&& (flow.src_port as int, flow.dst_port as int) == ports_at(pkt[6], pkt, 40)
    }
}

/// The flow of a packet is what its header was written with: behind the four
/// fixed words of an IPv4 header and its options come the ports, each two bytes,
/// most significant first.
pub proof fn law_ipv4_flow_is_read_back(
    flow: IpFlow,
    first: u8,
    front: Seq<u8>,
    protocol: u8,
    checksum: Seq<u8>,
    src: Seq<u8>,
    dst: Seq<u8>,
    options: Seq<u8>,
    ports: Seq<u8>,
    payload: Seq<u8>,
)
    requires
        0x45 <= first <= 0x4f,
        front.len() == 8,
        checksum.len() == 2,
        src.len() == 4,
        dst.len() == 4,
        options.len() == 4 * (first - 0x45),
        ports.len() == 4,
    ensures
        ({
            let pkt = seq![first] + front + seq![protocol] + checksum + src + dst + options + ports
                + payload;
            &&& has_ip_header(pkt)
            &&& is_flow_of(flow, pkt) <==> {
                &&& flow.version == 4
                &&& flow.protocol == protocol
                &&& flow.src@ == IpAddrView::V4(src)
                &&& flow.dst@ == IpAddrView::V4(dst)
                &&& flow.src_port == if protocol == 6 || protocol == 17 {
                    256 * ports[0] + ports[1]
                } else {
                    0
                }
                &&& flow.dst_port == if protocol == 6 || protocol == 17 {
                    256 * ports[2] + ports[3]
                } else {
                    0
                }
            }
        }),
{
    let pkt = seq![first] + front + seq![protocol] + checksum + src + dst + options + ports
        + payload;
    assert(pkt.subrange(12, 16) =~= src);
    assert(pkt.subrange(16, 20) =~= dst);
    let at: int = 20 + options.len() as int;
    assert(ipv4_header_len(first) == at);
    assert(pkt[at] == ports[0] && pkt[at + 1] == ports[1] && pkt[at + 2] == ports[2]
        && pkt[at + 3] == ports[3]);
}

/// The flow of an IPv6 packet is what its forty bytes of header were written
/// with; the ports follow them.
pub proof fn law_ipv6_flow_is_read_back(
    flow: IpFlow,
    first: u8,
    front: Seq<u8>,
    protocol: u8,
    hop_limit: u8,
    src: Seq<u8>,
    dst: Seq<u8>,
    ports: Seq<u8>,
    payload: Seq<u8>,
)
    requires
        0x60 <= first <= 0x6f,
        front.len() == 5,
        src.len() == 16,
        dst.len() == 16,
        ports.len() == 4,
    ensures
        ({
            let pkt = seq![first] + front + seq![protocol, hop_limit] + src + dst + ports + payload;
            &&& has_ip_header(pkt)
            &&& is_flow_of(flow, pkt) <==> {
                &&& flow.version == 6
                &&& flow.protocol == protocol
                &&& flow.src@ == IpAddrView::V6(src)
                &&& flow.dst@ == IpAddrView::V6(dst)
                &&& flow.src_port == if protocol == 6 || protocol == 17 {
                    256 * ports[0] + ports[1]
                } else {
                    0
                }
                &&& flow.dst_port == if protocol == 6 || protocol == 17 {
                    256 * ports[2] + ports[3]
                } else {
                    0
                }
            }
        }),
{
    let pkt = seq![first] + front + seq![protocol, hop_limit] + src + dst + ports + payload;
    assert(pkt.subrange(8, 24) =~= src);
    assert(pkt.subrange(24, 40) =~= dst);
}

/// A packet that is cut short, or that is neither version, has no flow.
pub proof fn law_no_flow_without_a_whole_header(pkt: Seq<u8>)
    ensures
        has_ip_header(pkt) ==> {
            &&& pkt.len() >= 20
            &&& 0x40 <= pkt[0] <= 0x4f || 0x60 <= pkt[0] <= 0x6f
            &&& pkt[0] >= 0x60 ==> pkt.len() >= 40
            &&& pkt[0] < 0x60 ==> pkt.len() >= 4 * (pkt[0] - 0x40)
        },
{
}

fn read_u16(pkt: &[u8], at: usize) -> (n: u16)
    requires
        at + 2 <= pkt@.len(),
    ensures
        n == be16(pkt@[at as int], pkt@[at + 1]),
{
    let len: usize = pkt.len();
    assert(at + 2 <= len);
    pkt[at] as u16 * 256 + pkt[at + 1] as u16
}

/// Source and destination port behind the IP header that ends at `at`.
pub fn l4_ports(protocol: u8, pkt: &[u8], at: usize) -> (ports: (u16, u16))
    ensures
        (ports.0 as int, ports.1 as int) == ports_at(protocol, pkt@, at as int),
        if (protocol == 6 || protocol == 17) && at + 4 <= pkt@.len() {
            &&& ports.0 == 256 * pkt@[at as int] + pkt@[at + 1]
            &&& ports.1 == 256 * pkt@[at + 2] + pkt@[at + 3]
        } else {
            ports == (0u16, 0u16)
        },
{
    let len: usize = pkt.len();
    if (protocol == PROTO_TCP || protocol == PROTO_UDP) && at <= len && len - at >= 4 {
        (read_u16(pkt, at), read_u16(pkt, at + 2))
    } else {
        (0, 0)
    }
}

/// The sixteen bytes of `pkt` from `at`.
fn octets16(pkt: &[u8], at: usize) -> (octets: [u8; 16])
    requires
        at + 16 <= pkt@.len(),
    ensures
        octets@ == pkt@.subrange(at as int, at + 16),
{
    let len: usize = pkt.len();
    let mut octets: [u8; 16] = [0u8;16];
    let mut i: usize = 0;
    while i < 16
        invariant
            i <= 16,
            at + 16 <= pkt@.len(),
            pkt@.len() == len,
            octets@.len() == 16,
            forall|k: int| 0 <= k < i ==> octets@[k] == pkt@[at + k],
        decreases 16 - i,
    {
        octets[i] = pkt[at + i];
        i = i + 1;
    }
    assert(octets@ =~= pkt@.subrange(at as int, at + 16));
    octets
}

/// The five-tuple of an IPv4 or IPv6 packet; `None` where the header is cut
/// short or is neither.
pub fn parse_ip_flow(pkt: &[u8]) -> (flow: Option<IpFlow>)
    ensures
        flow is Some <==> has_ip_header(pkt@),
        flow is Some <==> pkt@.len() >= 20 && (0x40 <= pkt@[0] <= 0x4f && pkt@.len() >= 4 * (pkt@[0]
            - 0x40) || 0x60 <= pkt@[0] <= 0x6f && pkt@.len() >= 40),
        flow matches Some(f) ==> is_flow_of(f, pkt@),
{
    if pkt.len() == 0 {
        return None;
    }
    let version: u8 = pkt[0] / 16;
    if version == 4 {
        let header_len: usize = (pkt[0] % 16) as usize * 4;
        if pkt.len() < 20 || pkt.len() < header_len {
            return None;
        }
        let protocol: u8 = pkt[9];
        let src: [u8; 4] = [pkt[12], pkt[13], pkt[14], pkt[15]];
        let dst: [u8; 4] = [pkt[16], pkt[17], pkt[18], pkt[19]];
        let (src_port, dst_port): (u16, u16) = l4_ports(protocol, pkt, header_len);
        assert(src@ =~= pkt@.subrange(12, 16));
        assert(dst@ =~= pkt@.subrange(16, 20));
        return Some(
            IpFlow {
                version: 4,
                protocol,
                src: IpAddr::V4(src),
                dst: IpAddr::V4(dst),
                src_port,
                dst_port,
            },
        );
    }
    if version == 6 {
        if pkt.len() < 40 {
            return None;
        }
        let protocol: u8 = pkt[6];
        let src: [u8; 16] = octets16(pkt, 8);
        let dst: [u8; 16] = octets16(pkt, 24);
        let (src_port, dst_port): (u16, u16) = l4_ports(protocol, pkt, 40);
        return Some(
            IpFlow {
                version: 6,
                protocol,
                src: IpAddr::V6(src),
                dst: IpAddr::V6(dst),
                src_port,
                dst_port,
            },
        );
    }
    None
}

} // verus!
