//! The lifecycle socket of a target: where it is, and who may bind it.
//!
//! A file at the path of a socket is either served by another agent that profiles
//! the same process, or left behind by one that died. Unlinking it in the first
//! case would silently cut off the other agent, so an occupied path is probed
//! first, and reclaimed only where the probe proves that nothing listens.

use crate::constants::CF_UNIXSOCK;
use crate::numbers::{
    dec, decimal, law_digits, law_numerals_are_positional, lemma_decimal_injective, push_dec,
    push_decimal,
};
use vstd::prelude::*;

verus! {

/// The seconds that the liveness probe of a socket may take.
///
/// A live listener answers in microseconds, for a connection needs room in its
/// backlog and nothing else. The bound is for a backlog that is full, and for a
/// peer that hangs.
pub const SOCKET_PROBE_TIMEOUT_SECS: u64 = 2;

/// The handler of lifecycle sockets.
pub struct UnixSocketHandler;

/// The root of a process as seen from outside its container.
pub open spec fn root_of(pid: i32) -> Seq<char> {
    "/proc/"@ + decimal(pid as int) + "/root"@
}

/// The path of the socket of a process under a root.
pub open spec fn socket_under(root: Seq<char>, pid: i32) -> Seq<char> {
    root + CF_UNIXSOCK@ + decimal(pid as int)
}

/// Two processes never share a socket: under one root, different PIDs have
/// different paths.
pub proof fn law_sockets_are_per_process(root: Seq<char>, a: i32, b: i32)
    requires
        socket_under(root, a) == socket_under(root, b),
    ensures
        a == b,
{
    let n = (root + CF_UNIXSOCK@).len() as int;
    assert(socket_under(root, a).skip(n) =~= decimal(a as int));
    assert(socket_under(root, b).skip(n) =~= decimal(b as int));
    lemma_decimal_injective(a as int, b as int);
}

/// What the liveness probe proved about a socket path that is occupied.
#[derive(Debug)]
pub enum SocketProbe {
    /// Something answered: the socket is in use and must not be unlinked.
    Live,
    /// The connection was refused: nothing listens, and the path can be
    /// reclaimed.
    Dead(String),
    /// The probe says nothing about liveness. Treated as live.
    Inconclusive(String),
}

/// What a [`SocketProbe`] says.
pub enum Probe {
    Live,
    Dead(Seq<char>),
    Inconclusive(Seq<char>),
}

impl View for SocketProbe {
    type V = Probe;

    open spec fn view(&self) -> Probe {
        match *self {
            SocketProbe::Live => Probe::Live,
            SocketProbe::Dead(reason) => Probe::Dead(reason@),
            SocketProbe::Inconclusive(reason) => Probe::Inconclusive(reason@),
        }
    }
}

/// How an attempt to connect to a socket ended.
#[derive(Debug)]
pub enum ProbeAnswer {
    /// It was accepted.
    Connected,
    /// It was refused, with this error.
    Refused(String),
    /// It failed in another way, with this error.
    Failed(String),
    /// It had not ended when its time was up.
    TimedOut,
}

/// What a [`ProbeAnswer`] says.
pub enum Answer {
    Connected,
    Refused(Seq<char>),
    Failed(Seq<char>),
    TimedOut,
}

impl View for ProbeAnswer {
    type V = Answer;

    open spec fn view(&self) -> Answer {
        match *self {
            ProbeAnswer::Connected => Answer::Connected,
            ProbeAnswer::Refused(error) => Answer::Refused(error@),
            ProbeAnswer::Failed(error) => Answer::Failed(error@),
            ProbeAnswer::TimedOut => Answer::TimedOut,
        }
    }
}

/// What an answer proves. Only a refusal proves that nothing listens.
pub open spec fn proved_by(answer: Answer) -> Probe {
    match answer {
        Answer::Connected => Probe::Live,
        Answer::Refused(error) => Probe::Dead("connect was refused: "@ + error),
        Answer::Failed(error) => Probe::Inconclusive("probe failed: "@ + error),
        Answer::TimedOut => Probe::Inconclusive(
            "probe did not answer within "@ + dec(SOCKET_PROBE_TIMEOUT_SECS as nat) + "s"@,
        ),
    }
}

/// Where the binding of a socket stands.
#[derive(Debug)]
pub enum BindPhase {
    /// About to bind.
    Binding,
    /// The path is occupied: about to probe it.
    Probing,
    /// The probe was inconclusive, for this reason: about to look whether the
    /// path is still there.
    Checking(String),
    /// The path is gone: about to bind it, once more and for the last time.
    Retrying(String),
    /// The probe proved the path dead, for this reason: about to unlink it.
    Removing(String),
    /// The path is unlinked: about to bind it, once more and for the last time.
    Rebinding,
    /// The socket is bound.
    Bound,
    /// The socket may not or cannot be bound, for this reason.
    Failed(String),
}

/// What a [`BindPhase`] says.
pub enum Phase {
    Binding,
    Probing,
    Checking(Seq<char>),
    Retrying(Seq<char>),
    Removing(Seq<char>),
    Rebinding,
    Bound,
    Failed(Seq<char>),
}

impl View for BindPhase {
    type V = Phase;

    open spec fn view(&self) -> Phase {
        match *self {
            BindPhase::Binding => Phase::Binding,
            BindPhase::Probing => Phase::Probing,
            BindPhase::Checking(reason) => Phase::Checking(reason@),
            BindPhase::Retrying(reason) => Phase::Retrying(reason@),
            BindPhase::Removing(reason) => Phase::Removing(reason@),
            BindPhase::Rebinding => Phase::Rebinding,
            BindPhase::Bound => Phase::Bound,
            BindPhase::Failed(reason) => Phase::Failed(reason@),
        }
    }
}

/// What is to be done to the path of a socket.
#[derive(Clone, Copy, Debug, PartialEq, Eq, Structural)]
pub enum BindAction {
    /// Bind it.
    Bind,
    /// Connect to it, within [`SOCKET_PROBE_TIMEOUT_SECS`].
    Probe,
    /// Look whether it exists.
    CheckExists,
    /// Unlink it.
    Remove,
    /// Nothing more.
    Finish,
}

/// How that went.
#[derive(Debug)]
pub enum BindEvent {
    /// It was bound.
    Bound,
    /// It could not be bound, because it is in use or for another reason.
    BindFailed { in_use: bool, error: String },
    /// The probe ended.
    Answered(ProbeAnswer),
    /// It is there, or it is not.
    Exists(bool),
    /// It was unlinked.
    Removed,
    /// It could not be unlinked.
    RemoveFailed(String),
}

/// What a [`BindEvent`] says.
pub enum Event {
    Bound,
    BindFailed { in_use: bool, error: Seq<char> },
    Answered(Answer),
    Exists(bool),
    Removed,
    RemoveFailed(Seq<char>),
}

impl View for BindEvent {
    type V = Event;

    open spec fn view(&self) -> Event {
        match *self {
            BindEvent::Bound => Event::Bound,
            BindEvent::BindFailed { in_use, error } => Event::BindFailed { in_use, error: error@ },
            BindEvent::Answered(answer) => Event::Answered(answer@),
            BindEvent::Exists(there) => Event::Exists(there),
            BindEvent::Removed => Event::Removed,
            BindEvent::RemoveFailed(error) => Event::RemoveFailed(error@),
        }
    }
}

/// What each phase is about to do.
pub open spec fn action_of(phase: Phase) -> BindAction {
    match phase {
        Phase::Binding => BindAction::Bind,
        Phase::Probing => BindAction::Probe,
        Phase::Checking(_) => BindAction::CheckExists,
        Phase::Retrying(_) => BindAction::Bind,
        Phase::Removing(_) => BindAction::Remove,
        Phase::Rebinding => BindAction::Bind,
        Phase::Bound => BindAction::Finish,
        Phase::Failed(_) => BindAction::Finish,
    }
}

/// Whether an event is about the action.
pub open spec fn concerns(event: Event, action: BindAction) -> bool {
    match action {
        BindAction::Bind => event is Bound || event is BindFailed,
        BindAction::Probe => event is Answered,
        BindAction::CheckExists => event is Exists,
        BindAction::Remove => event is Removed || event is RemoveFailed,
        BindAction::Finish => false,
    }
}

/// Why a socket could not be bound.
pub open spec fn cannot_bind(path: Seq<char>, pid: i32, error: Seq<char>) -> Seq<char> {
    "failed to bind unix socket "@ + path + " for pid "@ + decimal(pid as int) + ": "@ + error
}

/// Why a dead socket could not be unlinked.
pub open spec fn cannot_remove(path: Seq<char>, error: Seq<char>) -> Seq<char> {
    "failed to remove stale unix socket "@ + path + ": "@ + error
}

/// Why a live socket is not bound.
pub open spec fn already_in_use(path: Seq<char>, pid: i32) -> Seq<char> {
    "unix socket "@ + path + " for pid "@ + decimal(pid as int)
        + " is already in use and a live listener answered our probe, so lifecycle events for pid "@
        + decimal(pid as int)
        + " cannot be collected here. The probe only proves that *something* is listening, not that it is AIProf: check for a second aiprof-client or CollectionFramework profiling this pid, and for a socket file left behind by an earlier run that something is still serving. The socket was left untouched"@
}

/// Why a socket of which nothing is known is not bound.
pub open spec fn undetermined(path: Seq<char>, pid: i32, reason: Seq<char>) -> Seq<char> {
    "unix socket "@ + path + " for pid "@ + decimal(pid as int)
        + " is already in use and its liveness could not be determined ("@ + reason
        + "), so it was left untouched rather than unlinked"@
}

/// The phase that follows `phase` on `event`. An event that is not about what the
/// phase is about to do changes nothing.
pub open spec fn next_phase(path: Seq<char>, pid: i32, phase: Phase, event: Event) -> Phase {
    match (phase, event) {
        (Phase::Binding, Event::Bound) => Phase::Bound,
        (Phase::Binding, Event::BindFailed { in_use, error }) => if in_use {
            Phase::Probing
        } else {
            Phase::Failed(cannot_bind(path, pid, error))
        },
        (Phase::Probing, Event::Answered(answer)) => match proved_by(answer) {
            Probe::Live => Phase::Failed(already_in_use(path, pid)),
            Probe::Dead(reason) => Phase::Removing(reason),
            Probe::Inconclusive(reason) => Phase::Checking(reason),
        },
        (Phase::Checking(reason), Event::Exists(there)) => if there {
            Phase::Failed(undetermined(path, pid, reason))
        } else {
            Phase::Retrying(reason)
        },
        (Phase::Retrying(_), Event::Bound) => Phase::Bound,
        (Phase::Retrying(reason), Event::BindFailed { .. }) => Phase::Failed(
            undetermined(path, pid, reason),
        ),
        (Phase::Removing(_), Event::Removed) => Phase::Rebinding,
        (Phase::Removing(_), Event::RemoveFailed(error)) => Phase::Failed(
            cannot_remove(path, error),
        ),
        (Phase::Rebinding, Event::Bound) => Phase::Bound,
        (Phase::Rebinding, Event::BindFailed { error, .. }) => Phase::Failed(
            cannot_bind(path, pid, error),
        ),
        _ => phase,
    }
}

/// The phase after a run of events.
pub open spec fn phase_after(
    path: Seq<char>,
    pid: i32,
    phase: Phase,
    events: Seq<Event>,
) -> Phase
    decreases events.len(),
{
    if events.len() == 0 {
        phase
    } else {
        next_phase(path, pid, phase_after(path, pid, phase, events.drop_last()), events.last())
    }
}

/// How often `action` was done in a run of events.
pub open spec fn times_done(
    path: Seq<char>,
    pid: i32,
    phase: Phase,
    events: Seq<Event>,
    action: BindAction,
) -> nat
    decreases events.len(),
{
    if events.len() == 0 {
        0
    } else {
        let before = phase_after(path, pid, phase, events.drop_last());
        times_done(path, pid, phase, events.drop_last(), action) + (if action_of(before) == action
            && concerns(events.last(), action) {
            1nat
        } else {
            0nat
        })
    }
}

/// A socket is unlinked only where a probe was refused: a run of events that ends
/// about to unlink, or that has unlinked, holds a refusal.
pub proof fn law_unlinking_needs_a_refusal(
    path: Seq<char>,
    pid: i32,
    phase: Phase,
    events: Seq<Event>,
)
    requires
        phase is Binding || phase is Probing,
        phase_after(path, pid, phase, events) is Removing || times_done(
            path,
            pid,
            phase,
            events,
            BindAction::Remove,
        ) > 0,
    ensures
        exists|k: int|
            0 <= k < events.len() && (#[trigger] events[k] matches Event::Answered(answer)
                && answer is Refused),
    decreases events.len(),
{
    let shorter = events.drop_last();
    let before = phase_after(path, pid, phase, shorter);
    if before is Removing || times_done(path, pid, phase, shorter, BindAction::Remove) > 0 {
        law_unlinking_needs_a_refusal(path, pid, phase, shorter);
        let k = choose|k: int|
            0 <= k < shorter.len() && (#[trigger] shorter[k] matches Event::Answered(answer)
                && answer is Refused);
        assert(events[k] == shorter[k]);
    } else {
        assert(events[events.len() - 1] == events.last());
    }
}

/// A finished binding stays as it is.
pub proof fn law_the_end_is_final(path: Seq<char>, pid: i32, phase: Phase, events: Seq<Event>)
    requires
        action_of(phase) is Finish,
    ensures
        phase_after(path, pid, phase, events) == phase,
    decreases events.len(),
{
    if events.len() > 0 {
        law_the_end_is_final(path, pid, phase, events.drop_last());
    }
}

/// A live socket is left alone, whatever happens afterwards: once a probe was
/// answered, the binding has failed for good, and says so.
pub proof fn law_live_sockets_are_left_alone(path: Seq<char>, pid: i32, events: Seq<Event>)
    ensures
        ({
            let answered = next_phase(path, pid, Phase::Probing, Event::Answered(Answer::Connected));
            &&& phase_after(path, pid, answered, events) == Phase::Failed(already_in_use(path, pid))
            &&& times_done(path, pid, answered, events, BindAction::Remove) == 0
            &&& times_done(path, pid, answered, events, BindAction::Bind) == 0
        }),
    decreases events.len(),
{
    if events.len() > 0 {
        law_live_sockets_are_left_alone(path, pid, events.drop_last());
    }
}

/// The most that `action` can still be done from a phase on.
pub open spec fn most_from(phase: Phase, action: BindAction) -> nat {
    match action {
        BindAction::Bind => match phase {
            Phase::Binding => 2,
            Phase::Bound => 0,
            Phase::Failed(_) => 0,
            _ => 1,
        },
        BindAction::Remove => match phase {
            Phase::Binding => 1,
            Phase::Probing => 1,
            Phase::Removing(_) => 1,
            _ => 0,
        },
        BindAction::Probe => match phase {
            Phase::Binding => 1,
            Phase::Probing => 1,
            _ => 0,
        },
        BindAction::CheckExists => match phase {
            Phase::Binding => 1,
            Phase::Probing => 1,
            Phase::Checking(_) => 1,
            _ => 0,
        },
        BindAction::Finish => 0,
    }
}

/// There is no loop in it: in any run of events, a socket is bound at most twice,
/// and probed, looked for and unlinked at most once.
pub proof fn law_attempts_are_bounded(
    path: Seq<char>,
    pid: i32,
    phase: Phase,
    events: Seq<Event>,
    action: BindAction,
)
    ensures
        times_done(path, pid, phase, events, action) + most_from(
            phase_after(path, pid, phase, events),
            action,
        ) <= most_from(phase, action),
    decreases events.len(),
{
    if events.len() > 0 {
        law_attempts_are_bounded(path, pid, phase, events.drop_last(), action);
    }
}

/// How many actions are left from a phase on, at most.
pub open spec fn actions_left(phase: Phase) -> nat {
    match phase {
        Phase::Binding => 4,
        Phase::Probing => 3,
        Phase::Checking(_) => 2,
        Phase::Removing(_) => 2,
        Phase::Retrying(_) => 1,
        Phase::Rebinding => 1,
        Phase::Bound => 0,
        Phase::Failed(_) => 0,
    }
}

/// Every event about what is being done leads closer to the end, and nothing but
/// the end is without an action.
pub proof fn law_every_answer_is_progress(path: Seq<char>, pid: i32, phase: Phase, event: Event)
    ensures
        concerns(event, action_of(phase)) ==> actions_left(next_phase(path, pid, phase, event))
            < actions_left(phase),
        !concerns(event, action_of(phase)) ==> next_phase(path, pid, phase, event) == phase,
        actions_left(phase) == 0 <==> action_of(phase) is Finish,
{
}

/// Probes, answers, phases and events of a binding say what they hold.
pub proof fn law_bindings_say_what_they_hold(
    probe: SocketProbe,
    answer: ProbeAnswer,
    phase: BindPhase,
    event: BindEvent,
)
    ensures
        match probe {
            SocketProbe::Live => probe@ is Live,
            SocketProbe::Dead(reason) => probe@ == Probe::Dead(reason@),
            SocketProbe::Inconclusive(reason) => probe@ == Probe::Inconclusive(reason@),
        },
        match answer {
            ProbeAnswer::Connected => answer@ is Connected,
            ProbeAnswer::Refused(error) => answer@ == Answer::Refused(error@),
            ProbeAnswer::Failed(error) => answer@ == Answer::Failed(error@),
            ProbeAnswer::TimedOut => answer@ is TimedOut,
        },
        match phase {
            BindPhase::Binding => phase@ is Binding,
            BindPhase::Probing => phase@ is Probing,
            BindPhase::Checking(reason) => phase@ == Phase::Checking(reason@),
            BindPhase::Retrying(reason) => phase@ == Phase::Retrying(reason@),
            BindPhase::Removing(reason) => phase@ == Phase::Removing(reason@),
            BindPhase::Rebinding => phase@ is Rebinding,
            BindPhase::Bound => phase@ is Bound,
            BindPhase::Failed(reason) => phase@ == Phase::Failed(reason@),
        },
        match event {
            BindEvent::Bound => event@ is Bound,
            BindEvent::BindFailed { in_use, error } => event@ == (Event::BindFailed {
                in_use,
                error: error@,
            }),
            BindEvent::Answered(answer) => event@ == Event::Answered(answer@),
            BindEvent::Exists(there) => event@ == Event::Exists(there),
            BindEvent::Removed => event@ is Removed,
            BindEvent::RemoveFailed(error) => event@ == Event::RemoveFailed(error@),
        },
{
}

/// The root of a process, and the socket of a process under a root.
pub proof fn law_where_sockets_are(root: Seq<char>, pid: i32)
    ensures
        root_of(pid) == "/proc/"@ + decimal(pid as int) + "/root"@,
        socket_under(root, pid) == root + "/tmp/.cf_sock_"@ + decimal(pid as int),
{
}

/// Only a connection proves that something listens, and only a refusal that nothing
/// does. Whatever the answer was, its error is kept.
pub proof fn law_what_a_probe_proves(answer: Answer)
    ensures
        proved_by(answer) is Live <==> answer is Connected,
        proved_by(answer) is Dead <==> answer is Refused,
        answer matches Answer::Refused(error) ==> proved_by(answer) == Probe::Dead(
            "connect was refused: "@ + error,
        ),
        answer matches Answer::Failed(error) ==> proved_by(answer) == Probe::Inconclusive(
            "probe failed: "@ + error,
        ),
        answer is TimedOut ==> proved_by(answer) == Probe::Inconclusive(
            "probe did not answer within 2s"@,
        ),
{
    law_numerals_are_positional(0, 2, 10);
    law_digits(2);
    reveal_strlit("0123456789abcdef");
    reveal_strlit("probe did not answer within ");
    reveal_strlit("s");
    reveal_strlit("probe did not answer within 2s");
    assert("probe did not answer within "@ + dec(2) + "s"@ =~= "probe did not answer within 2s"@);
}

/// A socket that is bound at any attempt is the end, and a good one: it was bound.
pub proof fn law_a_bound_socket_is_the_end(
    path: Seq<char>,
    pid: i32,
    phase: Phase,
    events: Seq<Event>,
)
    ensures
        action_of(phase) is Bind ==> next_phase(path, pid, phase, Event::Bound) == Phase::Bound,
        phase_after(path, pid, phase, events) is Bound && !(phase is Bound) ==> events.contains(
            Event::Bound,
        ),
    decreases events.len(),
{
    if events.len() > 0 && phase_after(path, pid, phase, events) is Bound && !(phase is Bound) {
        let shorter = events.drop_last();
        law_a_bound_socket_is_the_end(path, pid, phase, shorter);
        if phase_after(path, pid, phase, shorter) is Bound {
            let k = shorter.index_of(Event::Bound);
            assert(events[k] == shorter[k]);
        } else {
            assert(events[events.len() - 1] == Event::Bound);
        }
    }
}

/// Two events, one after the other.
proof fn lemma_two_steps(path: Seq<char>, pid: i32, phase: Phase, a: Event, b: Event)
    ensures
        phase_after(path, pid, phase, seq![a, b]) == next_phase(
            path,
            pid,
            next_phase(path, pid, phase, a),
            b,
        ),
{
    let two = seq![a, b];
    assert(two.drop_last() =~= seq![a]);
    assert(seq![a].drop_last() =~= Seq::empty());
    assert(phase_after(path, pid, phase, seq![a].drop_last()) == phase);
    assert(phase_after(path, pid, phase, seq![a]) == next_phase(path, pid, phase, a));
}

/// An occupied path whose socket refuses a connection is reclaimed: it is unlinked,
/// and bound once it is. Where one of the two fails, that is what is reported.
pub proof fn law_a_dead_socket_is_reclaimed(
    path: Seq<char>,
    pid: i32,
    busy: Seq<char>,
    refusal: Seq<char>,
    in_use: bool,
    error: Seq<char>,
)
    ensures
        ({
            let probing = Event::BindFailed { in_use: true, error: busy };
            let refused = Event::Answered(Answer::Refused(refusal));
            let dead = phase_after(path, pid, Phase::Binding, seq![probing, refused]);
            let free = next_phase(path, pid, dead, Event::Removed);
            &&& action_of(dead) == BindAction::Remove
            &&& action_of(free) == BindAction::Bind
            &&& next_phase(path, pid, free, Event::Bound) == Phase::Bound
            &&& next_phase(path, pid, dead, Event::RemoveFailed(error)) == Phase::Failed(
                "failed to remove stale unix socket "@ + path + ": "@ + error,
            )
            &&& next_phase(path, pid, free, Event::BindFailed { in_use, error })
                == Phase::Failed(
                "failed to bind unix socket "@ + path + " for pid "@ + decimal(pid as int) + ": "@
                    + error,
            )
        }),
{
    lemma_two_steps(
        path,
        pid,
        Phase::Binding,
        Event::BindFailed { in_use: true, error: busy },
        Event::Answered(Answer::Refused(refusal)),
    );
}

/// An occupied path of which a probe says nothing is bound where it has vanished, and
/// left alone where it is still there or cannot be bound, with the reason.
pub proof fn law_a_silent_path_is_bound_only_where_it_vanished(
    path: Seq<char>,
    pid: i32,
    busy: Seq<char>,
    answer: Answer,
    in_use: bool,
    error: Seq<char>,
)
    requires
        answer is Failed || answer is TimedOut,
    ensures
        ({
            let probing = Event::BindFailed { in_use: true, error: busy };
            let silent = phase_after(
                path,
                pid,
                Phase::Binding,
                seq![probing, Event::Answered(answer)],
            );
            let gone = next_phase(path, pid, silent, Event::Exists(false));
            let reason = match answer {
                Answer::Failed(error) => "probe failed: "@ + error,
                _ => "probe did not answer within 2s"@,
            };
            let untouched = Phase::Failed(
                "unix socket "@ + path + " for pid "@ + decimal(pid as int)
                    + " is already in use and its liveness could not be determined ("@ + reason
                    + "), so it was left untouched rather than unlinked"@,
            );
            &&& action_of(silent) == BindAction::CheckExists
            &&& action_of(gone) == BindAction::Bind
            &&& next_phase(path, pid, gone, Event::Bound) == Phase::Bound
            &&& next_phase(path, pid, gone, Event::BindFailed { in_use, error }) == untouched
            &&& next_phase(path, pid, silent, Event::Exists(true)) == untouched
        }),
{
    law_what_a_probe_proves(answer);
    lemma_two_steps(
        path,
        pid,
        Phase::Binding,
        Event::BindFailed { in_use: true, error: busy },
        Event::Answered(answer),
    );
}

/// A path that is not occupied is not probed: that it could not be bound is all there
/// is to say. One that is occupied by a live socket is left alone.
pub proof fn law_what_is_said_of_a_path_that_is_not_bound(
    path: Seq<char>,
    pid: i32,
    error: Seq<char>,
)
    ensures
        next_phase(path, pid, Phase::Binding, Event::BindFailed { in_use: false, error })
            == Phase::Failed(
            "failed to bind unix socket "@ + path + " for pid "@ + decimal(pid as int) + ": "@
                + error,
        ),
        phase_after(
            path,
            pid,
            Phase::Binding,
            seq![Event::BindFailed { in_use: true, error }, Event::Answered(Answer::Connected)],
        ) == Phase::Failed(
            "unix socket "@ + path + " for pid "@ + decimal(pid as int)
                + " is already in use and a live listener answered our probe, so lifecycle events for pid "@
                + decimal(pid as int)
                + " cannot be collected here. The probe only proves that *something* is listening, not that it is AIProf: check for a second aiprof-client or CollectionFramework profiling this pid, and for a socket file left behind by an earlier run that something is still serving. The socket was left untouched"@,
        ),
{
    lemma_two_steps(
        path,
        pid,
        Phase::Binding,
        Event::BindFailed { in_use: true, error },
        Event::Answered(Answer::Connected),
    );
}

/// The binding of one socket.
#[derive(Debug)]
pub struct BindRun {
    /// The path of the socket.
    pub path: String,
    /// The process that the socket is for.
    pub pid: i32,
    /// Where it stands.
    pub phase: BindPhase,
}

impl BindRun {
    /// What is to be done next.
    pub fn action(&self) -> (r: BindAction)
        ensures
            r == action_of(self.phase@),
    {
        match &self.phase {
            BindPhase::Binding => BindAction::Bind,
            BindPhase::Probing => BindAction::Probe,
            BindPhase::Checking(_) => BindAction::CheckExists,
            BindPhase::Retrying(_) => BindAction::Bind,
            BindPhase::Removing(_) => BindAction::Remove,
            BindPhase::Rebinding => BindAction::Bind,
            BindPhase::Bound => BindAction::Finish,
            BindPhase::Failed(_) => BindAction::Finish,
        }
    }

    /// Takes in how the last action went.
    pub fn step(self, event: BindEvent) -> (r: BindRun)
        ensures
            r.path@ == self.path@,
            r.pid == self.pid,
            r.phase@ == next_phase(self.path@, self.pid, self.phase@, event@),
    {
        let BindRun { path, pid, phase } = self;
        let phase = match (phase, event) {
            (BindPhase::Binding, BindEvent::Bound) => BindPhase::Bound,
            (BindPhase::Binding, BindEvent::BindFailed { in_use, error }) => if in_use {
                BindPhase::Probing
            } else {
                BindPhase::Failed(bind_failure(path.as_str(), pid, error.as_str()))
            },
            (BindPhase::Probing, BindEvent::Answered(answer)) => match UnixSocketHandler::probe_socket(
                answer,
            ) {
                SocketProbe::Live => BindPhase::Failed(live_failure(path.as_str(), pid)),
                SocketProbe::Dead(reason) => BindPhase::Removing(reason),
                SocketProbe::Inconclusive(reason) => BindPhase::Checking(reason),
            },
            (BindPhase::Checking(reason), BindEvent::Exists(there)) => if there {
                BindPhase::Failed(undetermined_failure(path.as_str(), pid, reason.as_str()))
            } else {
                BindPhase::Retrying(reason)
            },
            (BindPhase::Retrying(_), BindEvent::Bound) => BindPhase::Bound,
            (BindPhase::Retrying(reason), BindEvent::BindFailed { .. }) => BindPhase::Failed(
                undetermined_failure(path.as_str(), pid, reason.as_str()),
            ),
            (BindPhase::Removing(_), BindEvent::Removed) => BindPhase::Rebinding,
            (BindPhase::Removing(_), BindEvent::RemoveFailed(error)) => BindPhase::Failed(
                remove_failure(path.as_str(), error.as_str()),
            ),
            (BindPhase::Rebinding, BindEvent::Bound) => BindPhase::Bound,
            (BindPhase::Rebinding, BindEvent::BindFailed { error, .. }) => BindPhase::Failed(
                bind_failure(path.as_str(), pid, error.as_str()),
            ),
            (other, _) => other,
        };
        BindRun { path, pid, phase }
    }
}

fn bind_failure(path: &str, pid: i32, error: &str) -> (r: String)
    ensures
        r@ == cannot_bind(path@, pid, error@),
{
    let mut out = "failed to bind unix socket ".to_owned();
    out.append(path);
    out.append(" for pid ");
    push_decimal(&mut out, pid);
    out.append(": ");
    out.append(error);
    out
}

fn remove_failure(path: &str, error: &str) -> (r: String)
    ensures
        r@ == cannot_remove(path@, error@),
{
    let mut out = "failed to remove stale unix socket ".to_owned();
    out.append(path);
    out.append(": ");
    out.append(error);
    out
}

fn live_failure(path: &str, pid: i32) -> (r: String)
    ensures
        r@ == already_in_use(path@, pid),
{
    let mut out = "unix socket ".to_owned();
    out.append(path);
    out.append(" for pid ");
    push_decimal(&mut out, pid);
    out.append(
        " is already in use and a live listener answered our probe, so lifecycle events for pid ",
    );
    push_decimal(&mut out, pid);
    out.append(
        " cannot be collected here. The probe only proves that *something* is listening, not that it is AIProf: check for a second aiprof-client or CollectionFramework profiling this pid, and for a socket file left behind by an earlier run that something is still serving. The socket was left untouched",
    );
    out
}

fn undetermined_failure(path: &str, pid: i32, reason: &str) -> (r: String)
    ensures
        r@ == undetermined(path@, pid, reason@),
{
    let mut out = "unix socket ".to_owned();
    out.append(path);
    out.append(" for pid ");
    push_decimal(&mut out, pid);
    out.append(" is already in use and its liveness could not be determined (");
    out.append(reason);
    out.append("), so it was left untouched rather than unlinked");
    out
}

impl UnixSocketHandler {
    /// The path of the socket of a process under `root`.
    ///
    /// From outside its container that root is [`Self::proc_root`], so that the
    /// collector, which connects from inside, and the listener meet on one inode.
    pub fn socket_path_under(root: &str, pid: i32) -> (r: String)
        ensures
            r@ == socket_under(root@, pid),
    {
        let mut path = root.to_owned();
        path.append(CF_UNIXSOCK);
        push_decimal(&mut path, pid);
        path
    }

    /// The root of a process as seen from outside its container.
    pub fn proc_root(pid: i32) -> (r: String)
        ensures
            r@ == root_of(pid),
    {
        let mut path = "/proc/".to_owned();
        push_decimal(&mut path, pid);
        path.append("/root");
        path
    }

    /// Begins to bind the socket of `pid` under `root`.
    pub fn bind_listener_at(root: &str, pid: i32) -> (r: BindRun)
        ensures
            r.path@ == socket_under(root@, pid),
            r.pid == pid,
            r.phase@ == Phase::Binding,
    {
        BindRun { path: Self::socket_path_under(root, pid), pid, phase: BindPhase::Binding }
    }

    /// Begins to decide what to do about a path that was found occupied.
    pub fn resolve_occupied(socket_path: &str, pid: i32) -> (r: BindRun)
        ensures
            r.path@ == socket_path@,
            r.pid == pid,
            r.phase@ == Phase::Probing,
    {
        BindRun { path: socket_path.to_owned(), pid, phase: BindPhase::Probing }
    }

    /// What an attempt to connect proves about the path of a socket.
    pub fn probe_socket(answer: ProbeAnswer) -> (r: SocketProbe)
        ensures
            r@ == proved_by(answer@),
    {
        match answer {
            ProbeAnswer::Connected => SocketProbe::Live,
            ProbeAnswer::Refused(error) => {
                let mut reason = "connect was refused: ".to_owned();
                reason.append(error.as_str());
                SocketProbe::Dead(reason)
            },
            ProbeAnswer::Failed(error) => {
                let mut reason = "probe failed: ".to_owned();
                reason.append(error.as_str());
                SocketProbe::Inconclusive(reason)
            },
            ProbeAnswer::TimedOut => {
                let mut reason = "probe did not answer within ".to_owned();
                push_dec(&mut reason, SOCKET_PROBE_TIMEOUT_SECS);
                reason.append("s");
                SocketProbe::Inconclusive(reason)
            },
        }
    }
}

} // verus!
