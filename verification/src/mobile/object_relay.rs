//! The producer of record for an object whose content is streamed from a source
//! that holds no key.
//!
//! The node answers metadata itself. On the first demand for a segment it starts
//! a relay that streams the source's raw segments, signs each under the public
//! name, and caches it, never more than a lookahead past the consumer's demand.
//! A segment that the relay has already passed is fetched again one by one.

use crate::name::{last_segment, ComponentView, Name};
use vstd::prelude::*;

verus! {

/// How far ahead of the consumer's demand the relay runs by default.
pub const DEFAULT_LOOKAHEAD: u64 = 512;

/// Data packets asked of the source in one subscription.
pub const RELAY_CREDIT: u32 = 64;

/// Lifetime of the relay's subscription.
pub const RELAY_LIFETIME_MS: u64 = 300_000;

/// How long a relayed segment stays fresh.
pub const SEGMENT_FRESHNESS_NS: u64 = 120_000_000_000;

/// How long a single segment is waited for when it is fetched again.
pub const REFETCH_TIMEOUT_MS: u64 = 5000;

/// Pause before a refused subscription is tried again.
pub const RELAY_RETRY_MS: u64 = 200;

/// When a segment that is cached at `now_ns` turns stale.
pub fn stale_at(now_ns: u64) -> (at: u64)
    requires
        now_ns + SEGMENT_FRESHNESS_NS <= u64::MAX,
    ensures
        at == now_ns + SEGMENT_FRESHNESS_NS,
        at - now_ns == 120 * 1_000_000_000,
{
    now_ns + SEGMENT_FRESHNESS_NS
}

/// Where the relay loop stands.
#[derive(Clone, Copy, Debug, PartialEq, Eq, Structural)]
pub enum RelayPhase {
    /// No segment has been asked for yet.
    Idle,
    /// Subscribing to the source.
    Subscribing,
    /// Waiting for the source's next Data.
    Reading,
    /// Far enough ahead; waiting for the demand to move.
    AwaitingDemand,
    /// Signing this segment.
    Signing(u64),
    /// Caching and publishing this segment.
    Serving(u64),
    /// Waiting before the next subscription.
    Pausing,
    /// Over.
    Stopped,
}

/// What the relay knows.
pub ghost struct RelayView {
    /// The public name under which segments are numbered.
    pub public: Seq<ComponentView>,
    pub last_seg: nat,
    pub lookahead: nat,
    /// The highest segment the consumer has asked for.
    pub front: nat,
    /// One past the highest segment the relay has served.
    pub produced: nat,
    /// The name under which the source numbers its segments, once seen.
    pub source: Option<Seq<ComponentView>>,
    pub phase: RelayPhase,
}

/// Whether the relay must stop reading: it is ahead of the demand by more than
/// the lookahead, and not yet done.
pub open spec fn must_pause(st: RelayView) -> bool {
    st.produced > st.front + st.lookahead && st.produced <= st.last_seg
}

/// The phase in which the relay looks for its next segment.
pub open spec fn next_read(st: RelayView) -> RelayPhase {
    if must_pause(st) {
        RelayPhase::AwaitingDemand
    } else {
        RelayPhase::Reading
    }
}

/// `st` looking for its next segment.
pub open spec fn reading(st: RelayView) -> RelayView {
    RelayView { phase: next_read(st), ..st }
}

/// The larger of two numbers.
pub open spec fn max(a: nat, b: nat) -> nat {
    if a >= b {
        a
    } else {
        b
    }
}

/// What demand for segment `seg` does: the front moves up to it, and the relay
/// starts if it has not yet.
pub open spec fn demand_step(st: RelayView, seg: nat) -> RelayView {
    RelayView {
        front: max(st.front, seg),
        phase: if st.phase == RelayPhase::Idle {
            RelayPhase::Subscribing
        } else {
            st.phase
        },
        ..st
    }
}

/// What is done about an Interest that reached the producer of record.
#[derive(Clone, Debug, PartialEq, Eq)]
pub enum DemandAction {
    /// The metadata object answers it.
    Metadata,
    /// It asks for no segment.
    Ignore,
    /// It asks for a segment. `start_relay` is set on the first such Interest;
    /// `refetch` says how to fetch this one again, where that is needed.
    Segment { seg: u64, start_relay: bool, refetch: Option<Refetch> },
}

/// One segment that is to be fetched again.
#[derive(Clone, Debug, PartialEq, Eq)]
pub struct Refetch {
    /// Where the source keeps it.
    pub source: Name,
    /// The name it is signed and served under.
    pub public: Name,
}

/// The name of segment `seg` of what is numbered under `name`.
pub open spec fn segment_name_of(name: Seq<ComponentView>, seg: nat) -> Seq<ComponentView> {
    name.push(ComponentView::Segment(seg as u64))
}

/// Whether demand for `seg` needs a fetch of its own: the relay has passed it,
/// and knows where the source keeps it.
pub open spec fn needs_refetch(st: RelayView, seg: nat) -> bool {
    seg < st.produced && st.source is Some
}

/// What can happen to the relay loop.
#[derive(Clone, Debug, PartialEq, Eq)]
pub enum RelayEvent {
    /// The subscription was set up, or refused.
    Subscribed(bool),
    /// Data came from the source: its name, and its content if it has any.
    Data { name: Name, content: Option<Vec<u8>> },
    /// The subscription failed.
    ReceiveFailed,
    /// The packet of the signed segment; `None` where it could not be signed.
    Signed(Option<Vec<u8>>),
    /// The segment was cached and published.
    Served,
    /// The demand front may have moved.
    DemandMoved,
    /// The pause is over.
    Resumed,
    /// The relay is torn down.
    Cancelled,
}

/// What the relay's driver does next.
#[derive(Clone, Debug, PartialEq, Eq)]
pub enum RelayAction {
    /// Nothing: the relay has not been started.
    Wait,
    /// Subscribe to the source.
    Subscribe,
    /// Wait for the source's next Data.
    Read,
    /// Wait until the demand moves.
    AwaitDemand,
    /// Sign this content under this name with the node's key.
    Sign { name: Name, content: Vec<u8> },
    /// Put this packet in the content store under this name, and publish it.
    Serve { name: Name, wire: Vec<u8> },
    /// Sleep for [`RELAY_RETRY_MS`].
    Pause,
    /// Stop.
    Stop,
}

/// A [`RelayAction`] over mathematical values.
pub ghost enum RelayActionView {
    Wait,
    Subscribe,
    Read,
    AwaitDemand,
    Sign { name: Seq<ComponentView>, content: Seq<u8> },
    Serve { name: Seq<ComponentView>, wire: Seq<u8> },
    Pause,
    Stop,
}

impl View for RelayAction {
    type V = RelayActionView;

    open spec fn view(&self) -> RelayActionView {
        match self {
            RelayAction::Wait => RelayActionView::Wait,
            RelayAction::Subscribe => RelayActionView::Subscribe,
            RelayAction::Read => RelayActionView::Read,
            RelayAction::AwaitDemand => RelayActionView::AwaitDemand,
            RelayAction::Sign { name, content } => RelayActionView::Sign {
                name: name@,
                content: content@,
            },
            RelayAction::Serve { name, wire } => RelayActionView::Serve { name: name@, wire: wire@ },
            RelayAction::Pause => RelayActionView::Pause,
            RelayAction::Stop => RelayActionView::Stop,
        }
    }
}

/// Everything but the last component.
pub open spec fn parent(name: Seq<ComponentView>) -> Seq<ComponentView> {
    name.take(name.len() - 1)
}

/// The relay after `event`. Data without a segment number is skipped; the first
/// numbered Data tells where the source keeps its segments. An event that
/// cannot occur in a phase changes nothing.
pub open spec fn relay_next(st: RelayView, event: RelayEvent) -> RelayView {
    match (st.phase, event) {
        (RelayPhase::Stopped, _) => st,
        (_, RelayEvent::Cancelled) => RelayView { phase: RelayPhase::Stopped, ..st },
        (RelayPhase::Subscribing, RelayEvent::Subscribed(true)) => reading(st),
        (RelayPhase::Subscribing, RelayEvent::Subscribed(false)) => RelayView {
            phase: RelayPhase::Pausing,
            ..st
        },
        (RelayPhase::Pausing, RelayEvent::Resumed) => RelayView {
            phase: RelayPhase::Subscribing,
            ..st
        },
        (RelayPhase::AwaitingDemand, RelayEvent::DemandMoved) => reading(st),
        (RelayPhase::Reading, RelayEvent::ReceiveFailed) => RelayView {
            phase: RelayPhase::Subscribing,
            ..st
        },
        (RelayPhase::Reading, RelayEvent::Data { name, content }) => match last_segment(name@) {
            None => reading(st),
            Some(seg) => RelayView {
                source: if st.source is None {
                    Some(parent(name@))
                } else {
                    st.source
                },
                phase: RelayPhase::Signing(seg),
                ..st
            },
        },
        (RelayPhase::Signing(seg), RelayEvent::Signed(Some(_))) => RelayView {
            phase: RelayPhase::Serving(seg),
            ..st
        },
        (RelayPhase::Signing(seg), RelayEvent::Signed(None)) => reading(st),
        (RelayPhase::Serving(seg), RelayEvent::Served) => reading(
            RelayView { produced: max(st.produced, seg as nat + 1), ..st },
        ),
        (_, _) => st,
    }
}

/// The content that a Data brings: empty where it has none.
pub open spec fn content_or_empty(content: Option<Vec<u8>>) -> Seq<u8> {
    match content {
        Some(bytes) => bytes@,
        None => Seq::empty(),
    }
}

/// What a relay does about `event`. Each segment of the source is signed with
/// its content as it is, under the public name and its own number, and then
/// served.
pub open spec fn relay_does(st: RelayView, event: RelayEvent) -> RelayActionView {
    match relay_next(st, event).phase {
        RelayPhase::Idle => RelayActionView::Wait,
        RelayPhase::Subscribing => RelayActionView::Subscribe,
        RelayPhase::Reading => RelayActionView::Read,
        RelayPhase::AwaitingDemand => RelayActionView::AwaitDemand,
        RelayPhase::Pausing => RelayActionView::Pause,
        RelayPhase::Stopped => RelayActionView::Stop,
        RelayPhase::Signing(seg) => match (st.phase, event) {
            (RelayPhase::Reading, RelayEvent::Data { content, .. }) => RelayActionView::Sign {
                name: segment_name_of(st.public, seg as nat),
                content: content_or_empty(content),
            },
            (_, _) => RelayActionView::Wait,
        },
        RelayPhase::Serving(seg) => match (st.phase, event) {
            (RelayPhase::Signing(_), RelayEvent::Signed(Some(wire))) => RelayActionView::Serve {
                name: segment_name_of(st.public, seg as nat),
                wire: wire@,
            },
            (_, _) => RelayActionView::Wait,
        },
    }
}

/// Whether the segment at hand, if there is one, has a number after its own.
pub open spec fn has_successor(phase: RelayPhase) -> bool {
    match phase {
        RelayPhase::Signing(seg) => seg < u64::MAX,
        RelayPhase::Serving(seg) => seg < u64::MAX,
        _ => true,
    }
}

/// The relay of one object.
pub struct ObjectRelay {
    public: Name,
    last_seg: u64,
    lookahead: u64,
    front: u64,
    produced: u64,
    source: Option<Name>,
    phase: RelayPhase,
}

impl View for ObjectRelay {
    type V = RelayView;

    closed spec fn view(&self) -> RelayView {
        RelayView {
            public: self.public@,
            last_seg: self.last_seg as nat,
            lookahead: self.lookahead as nat,
            front: self.front as nat,
            produced: self.produced as nat,
            source: match self.source {
                Some(name) => Some(name@),
                None => None,
            },
            phase: self.phase,
        }
    }
}

impl ObjectRelay {
    /// The relay of an object that is served under the versioned name `public`
    /// and whose last segment is `last_seg`. The lookahead is at least one.
    pub fn new(public: Name, last_seg: u64, lookahead: u64) -> (relay: ObjectRelay)
        ensures
            relay@ == relay_start(public@, last_seg as nat, lookahead as nat),
            relay@.public == public@,
            relay@.last_seg == last_seg,
            relay@.lookahead == if lookahead == 0 {
                1
            } else {
                lookahead
            },
            relay@.front == 0,
            relay@.produced == 0,
            relay@.source is None,
            relay@.phase == RelayPhase::Idle,
    {
        let lookahead: u64 = if lookahead == 0 {
            1
        } else {
            lookahead
        };
        ObjectRelay {
            public,
            last_seg,
            lookahead,
            front: 0,
            produced: 0,
            source: None,
            phase: RelayPhase::Idle,
        }
    }

    /// What is done about an Interest for `name`. `metadata` tells whether the
    /// metadata object answers it.
    pub fn on_interest(&mut self, metadata: bool, name: &Name) -> (action: DemandAction)
        ensures
            match (metadata, last_segment(name@)) {
                (true, _) => action is Metadata && final(self)@ == old(self)@,
                (false, None) => action is Ignore && final(self)@ == old(self)@,
                (false, Some(seg)) => {
                    &&& final(self)@ == demand_step(old(self)@, seg as nat)
                    &&& action is Segment
                    &&& action->Segment_seg == seg
                    &&& action->Segment_start_relay == (old(self)@.phase == RelayPhase::Idle)
                    &&& action->Segment_refetch is Some <==> needs_refetch(old(self)@, seg as nat)
                    &&& action->Segment_refetch is Some <==> seg < old(self)@.produced
                        && old(self)@.source is Some
                    &&& action->Segment_refetch matches Some(refetch) ==> {
                        &&& refetch.source@ == segment_name_of(old(self)@.source->0, seg as nat)
                        &&& refetch.public@ == segment_name_of(old(self)@.public, seg as nat)
                        &&& refetch.source@ == old(self)@.source->0.push(
                            ComponentView::Segment(seg),
                        )
                        &&& refetch.public@ == old(self)@.public.push(ComponentView::Segment(seg))
                    }
                    &&& final(self)@.front >= seg
                    &&& final(self)@.front == old(self)@.front || final(self)@.front == seg
                },
            },
    {
        if metadata {
            return DemandAction::Metadata;
        }
        match name.last_segment() {
            None => DemandAction::Ignore,
            Some(seg) => {
                if seg > self.front {
                    self.front = seg;
                }
                let start_relay: bool = match self.phase {
                    RelayPhase::Idle => true,
                    _ => false,
                };
                if start_relay {
                    self.phase = RelayPhase::Subscribing;
                }
                let refetch: Option<Refetch> = if seg < self.produced {
                    match &self.source {
                        Some(source) => Some(
                            Refetch {
                                source: source.duplicate().append_segment(seg),
                                public: self.public.duplicate().append_segment(seg),
                            },
                        ),
                        None => None,
                    }
                } else {
                    None
                };
                DemandAction::Segment { seg, start_relay, refetch }
            },
        }
    }

    /// Looks for the next segment, or waits for the demand to catch up.
    fn look_for_next(&mut self)
        ensures
            final(self)@ == reading(old(self)@),
            final(self)@.phase == if old(self)@.front + old(self)@.lookahead < old(self)@.produced
                && old(self)@.produced < old(self)@.last_seg + 1 {
                RelayPhase::AwaitingDemand
            } else {
                RelayPhase::Reading
            },
    {
        let ahead: bool = self.produced > self.front && self.produced - self.front > self.lookahead;
        if ahead && self.produced <= self.last_seg {
            self.phase = RelayPhase::AwaitingDemand;
        } else {
            self.phase = RelayPhase::Reading;
        }
    }

    /// Takes in one event of the relay loop and says what to do next. The
    /// number of a segment leaves room for its successor.
    pub fn on_event(&mut self, event: RelayEvent) -> (action: RelayAction)
        requires
            event matches RelayEvent::Data { name, .. } ==> last_segment(name@) != Some(u64::MAX),
            has_successor(old(self)@.phase),
        ensures
            final(self)@ == relay_next(old(self)@, event),
            action@ == relay_does(old(self)@, event),
            has_successor(final(self)@.phase),
    {
        let mut to_sign: Option<Vec<u8>> = None;
        let mut to_serve: Option<Vec<u8>> = None;
        match (self.phase, event) {
            (RelayPhase::Stopped, _) => {},
            (_, RelayEvent::Cancelled) => {
                self.phase = RelayPhase::Stopped;
            },
            (RelayPhase::Subscribing, RelayEvent::Subscribed(true)) => {
                self.look_for_next();
            },
            (RelayPhase::Subscribing, RelayEvent::Subscribed(false)) => {
                self.phase = RelayPhase::Pausing;
            },
            (RelayPhase::Pausing, RelayEvent::Resumed) => {
                self.phase = RelayPhase::Subscribing;
            },
            (RelayPhase::AwaitingDemand, RelayEvent::DemandMoved) => {
                self.look_for_next();
            },
            (RelayPhase::Reading, RelayEvent::ReceiveFailed) => {
                self.phase = RelayPhase::Subscribing;
            },
            (RelayPhase::Reading, RelayEvent::Data { name, content }) => {
                match name.last_segment() {
                    None => {
                        self.look_for_next();
                    },
                    Some(seg) => {
                        if self.source.is_none() {
                            self.source = Some(name.prefix(name.len() - 1));
                        }
                        self.phase = RelayPhase::Signing(seg);
                        to_sign = Some(
                            match content {
                                Some(bytes) => bytes,
                                None => Vec::new(),
                            },
                        );
                    },
                }
            },
            (RelayPhase::Signing(seg), RelayEvent::Signed(Some(wire))) => {
                to_serve = Some(wire);
                self.phase = RelayPhase::Serving(seg);
            },
            (RelayPhase::Signing(_), RelayEvent::Signed(None)) => {
                self.look_for_next();
            },
            (RelayPhase::Serving(seg), RelayEvent::Served) => {
                if self.produced < seg + 1 {
                    self.produced = seg + 1;
                }
                self.look_for_next();
            },
            (_, _) => {},
        }
        match self.phase {
            RelayPhase::Idle => RelayAction::Wait,
            RelayPhase::Subscribing => RelayAction::Subscribe,
            RelayPhase::Reading => RelayAction::Read,
            RelayPhase::AwaitingDemand => RelayAction::AwaitDemand,
            RelayPhase::Pausing => RelayAction::Pause,
            RelayPhase::Stopped => RelayAction::Stop,
            RelayPhase::Signing(seg) => match to_sign {
                Some(content) => RelayAction::Sign {
                    name: self.public.duplicate().append_segment(seg),
                    content,
                },
                None => RelayAction::Wait,
            },
            RelayPhase::Serving(seg) => match to_serve {
                Some(wire) => RelayAction::Serve {
                    name: self.public.duplicate().append_segment(seg),
                    wire,
                },
                None => RelayAction::Wait,
            },
        }
    }
}

/// The relay before anything has happened.
pub open spec fn relay_start(
    public: Seq<ComponentView>,
    last_seg: nat,
    lookahead: nat,
) -> RelayView {
    RelayView {
        public,
        last_seg,
        lookahead: max(lookahead, 1),
        front: 0,
        produced: 0,
        source: None,
        phase: RelayPhase::Idle,
    }
}

/// What comes of fetching one segment again.
#[derive(Clone, Debug, PartialEq, Eq)]
pub enum RefetchEvent {
    /// The source sent the segment, with its content if it has any.
    Fetched(Option<Vec<u8>>),
    /// The source did not answer in time.
    FetchFailed,
    /// The segment was signed under the public name.
    Signed(Vec<u8>),
    /// The segment could not be signed.
    SignFailed,
}

/// What is done with a segment that is fetched again.
#[derive(Clone, Debug, PartialEq, Eq)]
pub enum RefetchAction {
    /// Sign this content under this name with the node's key.
    Sign { name: Name, content: Vec<u8> },
    /// Put this packet in the content store under this name, and answer the
    /// Interest with it.
    Serve { name: Name, wire: Vec<u8> },
    /// Give up; the Interest stays unanswered.
    Drop,
}

/// One step of fetching a segment again: fetch, then sign with the content as
/// it is, then serve.
pub fn backward_refetch(refetch: &Refetch, event: RefetchEvent) -> (action: RefetchAction)
    ensures
        match event {
            RefetchEvent::Fetched(fetched) => {
                &&& action matches RefetchAction::Sign { name, content }
                &&& name@ == refetch.public@
                &&& content@ == content_or_empty(fetched)
                &&& fetched matches Some(bytes) ==> content@ == bytes@
                &&& fetched is None ==> content@.len() == 0
            },
            RefetchEvent::Signed(signed) => {
                &&& action matches RefetchAction::Serve { name, wire }
                &&& name@ == refetch.public@
                &&& wire == signed
            },
            RefetchEvent::FetchFailed => action is Drop,
            RefetchEvent::SignFailed => action is Drop,
        },
{
    match event {
        RefetchEvent::Fetched(content) => RefetchAction::Sign {
            name: refetch.public.duplicate(),
            content: match content {
                Some(bytes) => bytes,
                None => Vec::new(),
            },
        },
        RefetchEvent::Signed(wire) => RefetchAction::Serve {
            name: refetch.public.duplicate(),
            wire,
        },
        RefetchEvent::FetchFailed => RefetchAction::Drop,
        RefetchEvent::SignFailed => RefetchAction::Drop,
    }
}

/// Anything that moves the relay: demand for a segment, or an event of its loop.
pub ghost enum RelayInput {
    Demand(nat),
    Loop(RelayEvent),
}

pub open spec fn relay_step(st: RelayView, input: RelayInput) -> RelayView {
    match input {
        RelayInput::Demand(seg) => demand_step(st, seg),
        RelayInput::Loop(event) => relay_next(st, event),
    }
}

/// The relay after `inputs`, from the start.
pub open spec fn relay_after(
    public: Seq<ComponentView>,
    last_seg: nat,
    lookahead: nat,
    inputs: Seq<RelayInput>,
) -> RelayView
    decreases inputs.len(),
{
    if inputs.len() == 0 {
        relay_start(public, last_seg, lookahead)
    } else {
        relay_step(relay_after(public, last_seg, lookahead, inputs.drop_last()), inputs.last())
    }
}

/// Whether the source keeps to the object: it sends no segment past the last,
/// and skips none that the relay has yet to serve.
pub open spec fn source_in_order(
    public: Seq<ComponentView>,
    last_seg: nat,
    lookahead: nat,
    inputs: Seq<RelayInput>,
) -> bool
    decreases inputs.len(),
{
    inputs.len() == 0 || {
        &&& source_in_order(public, last_seg, lookahead, inputs.drop_last())
        &&& match inputs.last() {
            RelayInput::Loop(RelayEvent::Data { name, .. }) => match last_segment(name@) {
                Some(seg) => seg <= last_seg && seg <= relay_after(
                    public,
                    last_seg,
                    lookahead,
                    inputs.drop_last(),
                ).produced,
                None => true,
            },
            _ => true,
        }
    }
}

/// Whether segment `seg` may be relayed now.
spec fn within_lead(st: RelayView, seg: u64) -> bool {
    !must_pause(st) && seg <= st.produced && seg <= st.last_seg
}

spec fn lead_inv(st: RelayView) -> bool {
    &&& st.produced <= st.front + st.lookahead + 1
    &&& st.phase == RelayPhase::Reading ==> !must_pause(st)
    &&& st.phase matches RelayPhase::Signing(seg) ==> within_lead(st, seg)
    &&& st.phase matches RelayPhase::Serving(seg) ==> within_lead(st, seg)
}

proof fn lemma_lead(
    public: Seq<ComponentView>,
    last_seg: nat,
    lookahead: nat,
    inputs: Seq<RelayInput>,
)
    requires
        source_in_order(public, last_seg, lookahead, inputs),
    ensures
        lead_inv(relay_after(public, last_seg, lookahead, inputs)),
        relay_after(public, last_seg, lookahead, inputs).public == public,
        relay_after(public, last_seg, lookahead, inputs).last_seg == last_seg,
        relay_after(public, last_seg, lookahead, inputs).lookahead == max(lookahead, 1),
    decreases inputs.len(),
{
    if inputs.len() > 0 {
        lemma_lead(public, last_seg, lookahead, inputs.drop_last());
    }
}

/// The relay's lead is bounded whatever the size of the object: from a source
/// that sends its segments in order, no segment is served that lies more than
/// the lookahead past the highest one asked for.
pub proof fn law_relay_lead_is_bounded(
    public: Seq<ComponentView>,
    last_seg: nat,
    lookahead: nat,
    inputs: Seq<RelayInput>,
)
    requires
        source_in_order(public, last_seg, lookahead, inputs),
    ensures
        relay_after(public, last_seg, lookahead, inputs).produced <= relay_after(
            public,
            last_seg,
            lookahead,
            inputs,
        ).front + max(lookahead, 1) + 1,
{
    lemma_lead(public, last_seg, lookahead, inputs);
}

/// What the relay signs is a segment of the source, under the public name and
/// the segment's own number, with its content unchanged; and it lies no more
/// than the lookahead past the highest segment asked for.
pub proof fn law_relay_signs_the_source(
    public: Seq<ComponentView>,
    last_seg: nat,
    lookahead: nat,
    inputs: Seq<RelayInput>,
    event: RelayEvent,
)
    requires
        source_in_order(public, last_seg, lookahead, inputs.push(RelayInput::Loop(event))),
    ensures
        relay_does(relay_after(public, last_seg, lookahead, inputs), event) matches
            RelayActionView::Sign { name, content } ==> match event {
            RelayEvent::Data { name: source, content: sent } => {
                &&& last_segment(source@) matches Some(seg)
                &&& name == public.push(ComponentView::Segment(seg))
                &&& content == content_or_empty(sent)
                &&& sent matches Some(bytes) ==> content == bytes@
                &&& sent is None ==> content.len() == 0
                &&& seg <= relay_after(public, last_seg, lookahead, inputs).front + max(lookahead, 1)
            },
            _ => false,
        },
{
    let all = inputs.push(RelayInput::Loop(event));
    assert(all.drop_last() =~= inputs);
    lemma_lead(public, last_seg, lookahead, inputs);
}

proof fn lemma_source_is_known(
    public: Seq<ComponentView>,
    last_seg: nat,
    lookahead: nat,
    inputs: Seq<RelayInput>,
)
    ensures
        ({
            let st = relay_after(public, last_seg, lookahead, inputs);
            st.produced > 0 || st.phase is Signing || st.phase is Serving ==> st.source is Some
        }),
    decreases inputs.len(),
{
    if inputs.len() > 0 {
        lemma_source_is_known(public, last_seg, lookahead, inputs.drop_last());
    }
}

/// Nothing that a consumer asks for is lost: whatever happened before, demand for
/// a segment that the relay has passed has it fetched again, and demand for one
/// that the relay has yet to reach does not. The place of the source's segments
/// is known by the time the first one is served.
pub proof fn law_demand_is_relayed_or_refetched(
    public: Seq<ComponentView>,
    last_seg: nat,
    lookahead: nat,
    inputs: Seq<RelayInput>,
    seg: nat,
)
    ensures
        ({
            let st = relay_after(public, last_seg, lookahead, inputs);
            &&& st.produced > 0 ==> st.source is Some
            &&& seg < st.produced ==> needs_refetch(st, seg)
            &&& seg >= st.produced ==> !needs_refetch(st, seg)
        }),
{
    lemma_source_is_known(public, last_seg, lookahead, inputs);
}

/// A segment that is served can be had from then on: every later demand for it,
/// whatever happens in between, has it fetched again.
pub proof fn law_served_segment_can_be_had_again(
    public: Seq<ComponentView>,
    last_seg: nat,
    lookahead: nat,
    inputs: Seq<RelayInput>,
    seg: u64,
    later: Seq<RelayInput>,
)
    requires
        relay_after(public, last_seg, lookahead, inputs).phase == RelayPhase::Serving(seg),
    ensures
        needs_refetch(
            relay_after(
                public,
                last_seg,
                lookahead,
                inputs.push(RelayInput::Loop(RelayEvent::Served)) + later,
            ),
            seg as nat,
        ),
    decreases later.len(),
{
    let served = inputs.push(RelayInput::Loop(RelayEvent::Served));
    lemma_source_is_known(public, last_seg, lookahead, inputs);
    if later.len() == 0 {
        assert(served + later =~= served);
        assert(served.drop_last() =~= inputs);
    } else {
        law_served_segment_can_be_had_again(
            public,
            last_seg,
            lookahead,
            inputs,
            seg,
            later.drop_last(),
        );
        assert((served + later).drop_last() =~= served + later.drop_last());
        law_relay_is_monotone(
            relay_after(public, last_seg, lookahead, served + later.drop_last()),
            later.last(),
        );
    }
}

/// The relay reads on exactly as long as it is no more than the lookahead past
/// the highest segment asked for, and to the end once the last one is served.
pub proof fn law_relay_pauses_past_its_lookahead(st: RelayView)
    ensures
        st.produced <= st.front + st.lookahead ==> reading(st).phase == RelayPhase::Reading,
        st.produced > st.last_seg ==> reading(st).phase == RelayPhase::Reading,
        st.front + st.lookahead < st.produced <= st.last_seg ==> reading(st).phase
            == RelayPhase::AwaitingDemand,
        reading(st) == (RelayView { phase: reading(st).phase, ..st }),
{
}

/// Demand for a segment moves the front up to it, never down, and nothing else
/// but to start the relay.
pub proof fn law_demand_moves_the_front(st: RelayView, seg: nat)
    ensures
        ({
            let next = demand_step(st, seg);
            &&& next.front >= seg
            &&& next.front >= st.front
            &&& next.front == seg || next.front == st.front
            &&& next.phase == if st.phase == RelayPhase::Idle {
                RelayPhase::Subscribing
            } else {
                st.phase
            }
            &&& next == (RelayView { front: next.front, phase: next.phase, ..st })
        }),
{
}

/// The first numbered Data tells where the source keeps its segments: under the
/// name that gives the Data's own back once its number is put behind it. Later
/// Data changes nothing about that, and Data without a number is skipped.
pub proof fn law_relay_learns_the_source(st: RelayView, name: Name, content: Option<Vec<u8>>)
    requires
        st.phase == RelayPhase::Reading,
    ensures
        ({
            let next = relay_next(st, RelayEvent::Data { name, content });
            match last_segment(name@) {
                Some(seg) => {
                    &&& next.phase == RelayPhase::Signing(seg)
                    &&& next.source is Some
                    &&& st.source is None ==> next.source->0.push(ComponentView::Segment(seg))
                        == name@
                    &&& st.source is Some ==> next.source == st.source
                    &&& next.produced == st.produced
                },
                None => next == reading(st),
            }
        }),
{
    if last_segment(name@) is Some {
        assert(parent(name@).push(name@.last()) =~= name@);
    }
}

/// The life of a subscription to the source: refused, it is tried again after one
/// pause; broken off, it is set up again at once; a segment that cannot be signed
/// is passed over; and a teardown ends the relay for good.
pub proof fn law_relay_keeps_trying(st: RelayView, event: RelayEvent)
    ensures
        st.phase == RelayPhase::Subscribing ==> {
            &&& relay_next(st, RelayEvent::Subscribed(true)) == reading(st)
            &&& relay_does(st, RelayEvent::Subscribed(false)) is Pause
            &&& relay_next(st, RelayEvent::Subscribed(false)) == (RelayView {
                phase: RelayPhase::Pausing,
                ..st
            })
        },
        st.phase == RelayPhase::Pausing ==> {
            &&& relay_does(st, RelayEvent::Resumed) is Subscribe
            &&& relay_next(st, RelayEvent::Resumed) == (RelayView {
                phase: RelayPhase::Subscribing,
                ..st
            })
        },
        st.phase == RelayPhase::Reading ==> {
            &&& relay_does(st, RelayEvent::ReceiveFailed) is Subscribe
            &&& relay_next(st, RelayEvent::ReceiveFailed) == (RelayView {
                phase: RelayPhase::Subscribing,
                ..st
            })
        },
        st.phase is Signing ==> relay_next(st, RelayEvent::Signed(None)) == reading(st),
        reading(st).phase == RelayPhase::Reading && relay_next(st, event) == reading(st)
            ==> relay_does(st, event) is Read,
        relay_next(st, event).phase == RelayPhase::AwaitingDemand ==> relay_does(st, event)
            is AwaitDemand,
        relay_does(st, RelayEvent::Cancelled) is Stop,
        relay_next(st, RelayEvent::Cancelled).phase == RelayPhase::Stopped,
        st.phase == RelayPhase::Stopped ==> relay_next(st, event) == st && relay_does(
            st,
            event,
        ) is Stop,
{
}

/// The highest segment asked for over `inputs`; zero where none was.
pub open spec fn highest_demand(inputs: Seq<RelayInput>) -> nat
    decreases inputs.len(),
{
    if inputs.len() == 0 {
        0
    } else {
        let before = highest_demand(inputs.drop_last());
        match inputs.last() {
            RelayInput::Demand(seg) if seg > before => seg,
            _ => before,
        }
    }
}

/// Only demand moves the front: it is the highest segment that was ever asked for,
/// whatever the relay did meanwhile. So no segment is served that lies more than
/// the lookahead past what consumers have asked for.
pub proof fn law_front_is_the_highest_demand(
    public: Seq<ComponentView>,
    last_seg: nat,
    lookahead: nat,
    inputs: Seq<RelayInput>,
)
    ensures
        relay_after(public, last_seg, lookahead, inputs).front == highest_demand(inputs),
        forall|i: int|
            0 <= i < inputs.len() ==> (#[trigger] inputs[i] matches RelayInput::Demand(seg) ==> seg
                <= highest_demand(inputs)),
        source_in_order(public, last_seg, lookahead, inputs) ==> relay_after(
            public,
            last_seg,
            lookahead,
            inputs,
        ).produced <= highest_demand(inputs) + 1 + if lookahead == 0 {
            1
        } else {
            lookahead
        },
    decreases inputs.len(),
{
    if inputs.len() > 0 {
        let before = inputs.drop_last();
        law_front_is_the_highest_demand(public, last_seg, lookahead, before);
        assert forall|i: int| 0 <= i < inputs.len() implies (#[trigger] inputs[i] matches
            RelayInput::Demand(seg) ==> seg <= highest_demand(inputs)) by {
            if i < before.len() {
                assert(before[i] == inputs[i]);
            }
        }
    }
    if source_in_order(public, last_seg, lookahead, inputs) {
        lemma_lead(public, last_seg, lookahead, inputs);
    }
}

/// No event of the loop moves the front; only a served segment counts as
/// produced; and only Data tells where the source is.
pub proof fn law_relay_changes_nothing_else(st: RelayView, event: RelayEvent)
    ensures
        relay_next(st, event).front == st.front,
        !(event is Served && st.phase is Serving) ==> relay_next(st, event).produced
            == st.produced,
        !(event is Data) ==> relay_next(st, event).source == st.source,
        relay_next(st, event).public == st.public,
        relay_next(st, event).last_seg == st.last_seg,
        relay_next(st, event).lookahead == st.lookahead,
{
}

/// A segment is signed, then served, and then the relay looks for the next one,
/// as it does when the demand has moved.
pub proof fn law_relay_goes_on(st: RelayView, seg: u64, wire: Vec<u8>)
    ensures
        st.phase == RelayPhase::Signing(seg) ==> relay_next(st, RelayEvent::Signed(Some(wire))) == (
        RelayView { phase: RelayPhase::Serving(seg), ..st }),
        st.phase == RelayPhase::Serving(seg) && seg < st.produced ==> relay_next(
            st,
            RelayEvent::Served,
        ) == reading(st),
        st.phase == RelayPhase::Serving(seg) && seg >= st.produced ==> relay_next(
            st,
            RelayEvent::Served,
        ) == reading(RelayView { produced: seg as nat + 1, ..st }),
        st.phase == RelayPhase::AwaitingDemand ==> relay_next(st, RelayEvent::DemandMoved)
            == reading(st),
{
}

/// What does not belong to a phase changes nothing.
pub proof fn law_relay_ignores_strays(st: RelayView, event: RelayEvent)
    requires
        !(event is Cancelled),
        st.phase == RelayPhase::Subscribing ==> !(event is Subscribed),
        st.phase == RelayPhase::Pausing ==> !(event is Resumed),
        st.phase == RelayPhase::AwaitingDemand ==> !(event is DemandMoved),
        st.phase == RelayPhase::Reading ==> !(event is Data) && !(event is ReceiveFailed),
        st.phase is Signing ==> !(event is Signed),
        st.phase is Serving ==> !(event is Served),
    ensures
        relay_next(st, event) == st,
        !(relay_does(st, event) is Sign) && !(relay_does(st, event) is Serve),
{
}

/// Each segment that was signed is served next, both cached and published,
/// under the name it was signed under; the segment counts as served only then.
pub proof fn law_relay_serves_what_it_signed(st: RelayView, signing: RelayEvent, wire: Vec<u8>)
    ensures
        relay_does(st, signing) matches RelayActionView::Sign { name, .. } ==> {
            let signed = relay_next(st, signing);
            let serving = relay_next(signed, RelayEvent::Signed(Some(wire)));
            &&& relay_does(signed, RelayEvent::Signed(Some(wire))) == (RelayActionView::Serve {
                name,
                wire: wire@,
            })
            &&& serving.produced == st.produced
            &&& last_segment(name) matches Some(seg)
            &&& relay_next(serving, RelayEvent::Served).produced == max(
                st.produced,
                seg as nat + 1,
            )
            &&& relay_next(serving, RelayEvent::Served).produced == if st.produced > seg {
                st.produced
            } else {
                seg as nat + 1
            }
        },
{
}

/// Demand and progress never go back, and the place of the source's segments,
/// once learnt, stays.
pub proof fn law_relay_is_monotone(st: RelayView, input: RelayInput)
    ensures
        relay_step(st, input).front >= st.front,
        relay_step(st, input).produced >= st.produced,
        st.source is Some ==> relay_step(st, input).source == st.source,
        relay_step(st, input).public == st.public,
        relay_step(st, input).last_seg == st.last_seg,
        relay_step(st, input).lookahead == st.lookahead,
{
}

/// An object that nobody asks for costs nothing: no event of the loop starts
/// the relay, only demand for a segment does.
pub proof fn law_relay_starts_on_demand(st: RelayView, event: RelayEvent)
    requires
        st.phase == RelayPhase::Idle,
        event !is Cancelled,
    ensures
        relay_next(st, event).phase == RelayPhase::Idle,
{
}

/// The relay starts at most once: after the first demand it is never idle again.
pub proof fn law_relay_starts_once(st: RelayView, input: RelayInput, seg: nat)
    ensures
        st.phase != RelayPhase::Idle ==> relay_step(st, input).phase != RelayPhase::Idle,
        demand_step(st, seg).phase != RelayPhase::Idle,
{
}

/// A paused relay reads on as soon as the demand has caught up to within the
/// lookahead.
pub proof fn law_relay_resumes(st: RelayView, seg: nat)
    requires
        st.phase == RelayPhase::AwaitingDemand,
        st.produced <= seg + st.lookahead,
    ensures
        relay_next(demand_step(st, seg), RelayEvent::DemandMoved).phase == RelayPhase::Reading,
{
}

} // verus!
