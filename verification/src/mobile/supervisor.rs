//! Keeps a configured peer connected for as long as the engine runs.
//!
//! One dial is tried at once, for a bounded time. From then on the face is
//! watched: while it is missing it is dialled again, with pauses that double up
//! to a limit; while it is there it is looked at from time to time.

use vstd::prelude::*;

verus! {

/// How long the first dial may hold up the engine.
pub const FIRST_ATTEMPT_MS: u64 = 2000;

/// The first pause between two dials.
pub const FIRST_BACKOFF_MS: u64 = 250;

/// The longest pause between two dials.
pub const MAX_BACKOFF_MS: u64 = 10_000;

/// How often a connected face is looked at.
pub const PROBE_MS: u64 = 2000;

/// Where the supervision of a peer stands. The numbers are the pause that
/// follows the next failed dial.
#[derive(Clone, Copy, Debug, PartialEq, Eq, Structural)]
pub enum PeerSupervisor {
    /// The first dial is under way.
    FirstAttempt,
    /// Finding out whether the face is there.
    Checking(u64),
    /// A dial is under way.
    Dialing(u64),
    /// Pausing after a failed dial.
    BackingOff(u64),
    /// Connected; pausing until the next look.
    Watching,
    /// Looking whether the face is still there.
    Probing,
    /// Over.
    Stopped,
}

/// What can happen to a supervised peer.
#[derive(Clone, Copy, Debug, PartialEq, Eq, Structural)]
pub enum SupervisorEvent {
    /// The first dial ended, one way or the other.
    FirstAttemptOver,
    /// The face is there, or not.
    Face(bool),
    /// The dial succeeded, or failed.
    Dialed(bool),
    /// The pause is over.
    Slept,
    /// The engine shuts down, or the network faces are suspended.
    Cancelled,
}

/// What the driver does next.
#[derive(Clone, Copy, Debug, PartialEq, Eq, Structural)]
pub enum SupervisorAction {
    /// Dial, but give up after this many milliseconds.
    DialWithin(u64),
    /// Look whether the face is there.
    CheckFace,
    /// Dial.
    Dial,
    /// Pause for this many milliseconds.
    Sleep(u64),
    /// Stop.
    Stop,
}

/// The pause that follows a pause of `ms`.
pub open spec fn doubled(ms: int) -> int {
    if 2 * ms > MAX_BACKOFF_MS {
        MAX_BACKOFF_MS as int
    } else {
        2 * ms
    }
}

/// The pause after a failed dial when `n` have failed before it since the face
/// was last there.
pub open spec fn retry_delay(n: nat) -> int
    decreases n,
{
    if n == 0 {
        FIRST_BACKOFF_MS as int
    } else {
        doubled(retry_delay((n - 1) as nat))
    }
}

/// Whether the pauses of `st` are within their limits.
pub open spec fn pauses_within_limits(st: PeerSupervisor) -> bool {
    match st {
        PeerSupervisor::Checking(ms) => FIRST_BACKOFF_MS <= ms <= MAX_BACKOFF_MS,
        PeerSupervisor::Dialing(ms) => FIRST_BACKOFF_MS <= ms <= MAX_BACKOFF_MS,
        PeerSupervisor::BackingOff(ms) => FIRST_BACKOFF_MS <= ms <= MAX_BACKOFF_MS,
        _ => true,
    }
}

/// What follows `event`. An event that does not belong to a state changes
/// nothing.
pub open spec fn supervisor_next(st: PeerSupervisor, event: SupervisorEvent) -> PeerSupervisor {
    match (st, event) {
        (PeerSupervisor::Stopped, _) => st,
        (_, SupervisorEvent::Cancelled) => PeerSupervisor::Stopped,
        (PeerSupervisor::FirstAttempt, SupervisorEvent::FirstAttemptOver) =>
            PeerSupervisor::Checking(FIRST_BACKOFF_MS),
        (PeerSupervisor::Checking(_), SupervisorEvent::Face(true)) => PeerSupervisor::Watching,
        (PeerSupervisor::Checking(ms), SupervisorEvent::Face(false)) => PeerSupervisor::Dialing(ms),
        (PeerSupervisor::Dialing(_), SupervisorEvent::Dialed(true)) => PeerSupervisor::Watching,
        (PeerSupervisor::Dialing(ms), SupervisorEvent::Dialed(false)) =>
            PeerSupervisor::BackingOff(ms),
        (PeerSupervisor::BackingOff(ms), SupervisorEvent::Slept) => PeerSupervisor::Checking(
            doubled(ms as int) as u64,
        ),
        (PeerSupervisor::Watching, SupervisorEvent::Slept) => PeerSupervisor::Probing,
        (PeerSupervisor::Probing, SupervisorEvent::Face(true)) => PeerSupervisor::Watching,
        (PeerSupervisor::Probing, SupervisorEvent::Face(false)) => PeerSupervisor::Checking(
            FIRST_BACKOFF_MS,
        ),
        (_, _) => st,
    }
}

/// What is done in a state.
pub open spec fn supervisor_action(st: PeerSupervisor) -> SupervisorAction {
    match st {
        PeerSupervisor::FirstAttempt => SupervisorAction::DialWithin(FIRST_ATTEMPT_MS),
        PeerSupervisor::Checking(_) => SupervisorAction::CheckFace,
        PeerSupervisor::Dialing(_) => SupervisorAction::Dial,
        PeerSupervisor::BackingOff(ms) => SupervisorAction::Sleep(ms),
        PeerSupervisor::Watching => SupervisorAction::Sleep(PROBE_MS),
        PeerSupervisor::Probing => SupervisorAction::CheckFace,
        PeerSupervisor::Stopped => SupervisorAction::Stop,
    }
}

impl PeerSupervisor {
    pub fn new() -> (st: PeerSupervisor)
        ensures
            st == PeerSupervisor::FirstAttempt,
    {
        PeerSupervisor::FirstAttempt
    }

    /// What to do in this state.
    pub fn action(&self) -> (action: SupervisorAction)
        ensures
            action == supervisor_action(*self),
    {
        match *self {
            PeerSupervisor::FirstAttempt => SupervisorAction::DialWithin(FIRST_ATTEMPT_MS),
            PeerSupervisor::Checking(_) => SupervisorAction::CheckFace,
            PeerSupervisor::Dialing(_) => SupervisorAction::Dial,
            PeerSupervisor::BackingOff(ms) => SupervisorAction::Sleep(ms),
            PeerSupervisor::Watching => SupervisorAction::Sleep(PROBE_MS),
            PeerSupervisor::Probing => SupervisorAction::CheckFace,
            PeerSupervisor::Stopped => SupervisorAction::Stop,
        }
    }

    /// Takes in one event and says what to do next.
    pub fn on_event(&mut self, event: SupervisorEvent) -> (action: SupervisorAction)
        ensures
            *final(self) == supervisor_next(*old(self), event),
            action == supervisor_action(*final(self)),
    {
        match (*self, event) {
            (PeerSupervisor::Stopped, _) => {},
            (_, SupervisorEvent::Cancelled) => {
                *self = PeerSupervisor::Stopped;
            },
            (PeerSupervisor::FirstAttempt, SupervisorEvent::FirstAttemptOver) => {
                *self = PeerSupervisor::Checking(FIRST_BACKOFF_MS);
            },
            (PeerSupervisor::Checking(_), SupervisorEvent::Face(true)) => {
                *self = PeerSupervisor::Watching;
            },
            (PeerSupervisor::Checking(ms), SupervisorEvent::Face(false)) => {
                *self = PeerSupervisor::Dialing(ms);
            },
            (PeerSupervisor::Dialing(_), SupervisorEvent::Dialed(true)) => {
                *self = PeerSupervisor::Watching;
            },
            (PeerSupervisor::Dialing(ms), SupervisorEvent::Dialed(false)) => {
                *self = PeerSupervisor::BackingOff(ms);
            },
            (PeerSupervisor::BackingOff(ms), SupervisorEvent::Slept) => {
                let next: u64 = if ms > MAX_BACKOFF_MS / 2 {
                    MAX_BACKOFF_MS
                } else {
                    ms * 2
                };
                *self = PeerSupervisor::Checking(next);
            },
            (PeerSupervisor::Watching, SupervisorEvent::Slept) => {
                *self = PeerSupervisor::Probing;
            },
            (PeerSupervisor::Probing, SupervisorEvent::Face(true)) => {
                *self = PeerSupervisor::Watching;
            },
            (PeerSupervisor::Probing, SupervisorEvent::Face(false)) => {
                *self = PeerSupervisor::Checking(FIRST_BACKOFF_MS);
            },
            (_, _) => {},
        }
        self.action()
    }
}

/// No pause between two dials leaves its limits, whatever happens.
pub proof fn law_pauses_stay_within_limits(st: PeerSupervisor, event: SupervisorEvent)
    requires
        pauses_within_limits(st),
    ensures
        pauses_within_limits(supervisor_next(st, event)),
        pauses_within_limits(PeerSupervisor::FirstAttempt),
{
}

/// A failed dial is followed by a pause and another look, and the pauses grow
/// as [`retry_delay`] says.
pub proof fn law_failed_dial_is_retried(n: nat)
    ensures
        FIRST_BACKOFF_MS <= retry_delay(n) <= MAX_BACKOFF_MS,
        ({
            let looking = PeerSupervisor::Checking(retry_delay(n) as u64);
            let dialing = supervisor_next(looking, SupervisorEvent::Face(false));
            let pausing = supervisor_next(dialing, SupervisorEvent::Dialed(false));
            let again = supervisor_next(pausing, SupervisorEvent::Slept);
            &&& supervisor_action(dialing) == SupervisorAction::Dial
            &&& supervisor_action(pausing) == SupervisorAction::Sleep(retry_delay(n) as u64)
            &&& again == PeerSupervisor::Checking(retry_delay(n + 1) as u64)
        }),
    decreases n,
{
    if n > 0 {
        law_failed_dial_is_retried((n - 1) as nat);
    }
}

/// A face that drops is dialled again, starting from the shortest pause.
pub proof fn law_dropped_face_is_redialled()
    ensures
        supervisor_next(PeerSupervisor::Probing, SupervisorEvent::Face(false))
            == PeerSupervisor::Checking(retry_delay(0) as u64),
{
}

/// A peer is dialled once at first, for two seconds at most, and is then looked
/// at; while its face is there it is looked at every two seconds, and while it is
/// missing it is dialled again after each pause.
pub proof fn law_peer_is_watched(ms: u64)
    ensures
        supervisor_action(PeerSupervisor::FirstAttempt) == SupervisorAction::DialWithin(2000),
        supervisor_next(PeerSupervisor::FirstAttempt, SupervisorEvent::FirstAttemptOver)
            == PeerSupervisor::Checking(250),
        supervisor_action(PeerSupervisor::Checking(ms)) is CheckFace,
        supervisor_next(PeerSupervisor::Checking(ms), SupervisorEvent::Face(true))
            == PeerSupervisor::Watching,
        supervisor_next(PeerSupervisor::Checking(ms), SupervisorEvent::Face(false))
            == PeerSupervisor::Dialing(ms),
        supervisor_action(PeerSupervisor::Dialing(ms)) is Dial,
        supervisor_next(PeerSupervisor::Dialing(ms), SupervisorEvent::Dialed(true))
            == PeerSupervisor::Watching,
        supervisor_next(PeerSupervisor::Dialing(ms), SupervisorEvent::Dialed(false))
            == PeerSupervisor::BackingOff(ms),
        supervisor_action(PeerSupervisor::BackingOff(ms)) == SupervisorAction::Sleep(ms),
        supervisor_action(PeerSupervisor::Watching) == SupervisorAction::Sleep(2000),
        supervisor_next(PeerSupervisor::Watching, SupervisorEvent::Slept)
            == PeerSupervisor::Probing,
        supervisor_action(PeerSupervisor::Probing) is CheckFace,
        supervisor_next(PeerSupervisor::Probing, SupervisorEvent::Face(true))
            == PeerSupervisor::Watching,
        supervisor_next(PeerSupervisor::Probing, SupervisorEvent::Face(false))
            == PeerSupervisor::Checking(250),
{
}

/// Two to the power of `n`.
pub open spec fn two_to_the(n: nat) -> nat
    decreases n,
{
    if n == 0 {
        1
    } else {
        2 * two_to_the((n - 1) as nat)
    }
}

/// The pauses between dials double from a quarter of a second up to ten seconds,
/// and stay there.
pub proof fn law_pauses_double(n: nat, ms: u64)
    ensures
        retry_delay(n) == if 250 * two_to_the(n) < 10_000 {
            250 * two_to_the(n) as int
        } else {
            10_000
        },
        ms <= 5000 ==> supervisor_next(PeerSupervisor::BackingOff(ms), SupervisorEvent::Slept)
            == PeerSupervisor::Checking((2 * ms) as u64),
        ms >= 5000 ==> supervisor_next(PeerSupervisor::BackingOff(ms), SupervisorEvent::Slept)
            == PeerSupervisor::Checking(10_000),
    decreases n,
{
    if n > 0 {
        law_pauses_double((n - 1) as nat, ms);
    }
}

/// What does not belong to a state changes nothing.
pub proof fn law_supervision_ignores_strays(st: PeerSupervisor, event: SupervisorEvent)
    requires
        !(event is Cancelled),
        st is FirstAttempt ==> !(event is FirstAttemptOver),
        st is Checking || st is Probing ==> !(event is Face),
        st is Dialing ==> !(event is Dialed),
        st is BackingOff || st is Watching ==> !(event is Slept),
    ensures
        supervisor_next(st, event) == st,
{
}

/// A cancellation stops the supervision from anywhere, for good.
pub proof fn law_cancelled_supervision_stops(st: PeerSupervisor, event: SupervisorEvent)
    ensures
        supervisor_next(st, SupervisorEvent::Cancelled) == PeerSupervisor::Stopped,
        supervisor_next(PeerSupervisor::Stopped, event) == PeerSupervisor::Stopped,
        supervisor_action(PeerSupervisor::Stopped) is Stop,
{
}

/// Nothing but a cancellation ends the supervision.
pub proof fn law_supervision_goes_on(st: PeerSupervisor, event: SupervisorEvent)
    requires
        st != PeerSupervisor::Stopped,
        event != SupervisorEvent::Cancelled,
    ensures
        supervisor_next(st, event) != PeerSupervisor::Stopped,
{
}

} // verus!
