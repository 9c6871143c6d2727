//! Putting the library into a target: the configuration first, then up to three
//! attempts, and word to the scheduler where it comes to nothing.

use crate::events::{CollectorName, SchedulerEvent};
use crate::numbers::{decimal, push_decimal};
use crate::text::texts;
use vstd::prelude::*;

verus! {

/// The attempts that are made for one collection window.
pub const INJECTION_ATTEMPTS: u32 = 3;

/// The milliseconds between two attempts. The injector attaches with ptrace, which
/// fails outright on a target that is being traced, so attempts without a pause
/// mostly fail alike.
pub const INJECTION_RETRY_DELAY_MS: u64 = 200;

/// Where the injection stands.
#[derive(Clone, Copy, Debug, PartialEq, Eq, Structural)]
pub enum InjectPhase {
    /// About to write the configuration.
    Configuring,
    /// About to start the injector for this attempt, counted from one.
    Starting(u32),
    /// About to wait for the injector of this attempt.
    Waiting(u32),
    /// This attempt failed: about to pause before the next.
    Pausing(u32),
    /// It failed: about to tell the scheduler.
    Reporting,
    /// It is over: whether the library is in the target.
    Done(bool),
}

/// What is to be done to inject the library.
#[derive(Clone, Copy, Debug, PartialEq, Eq, Structural)]
pub enum InjectAction {
    /// Write the configuration.
    WriteConfig,
    /// Start the injector.
    Start,
    /// Wait for it.
    Wait,
    /// Do nothing for [`INJECTION_RETRY_DELAY_MS`].
    Pause,
    /// Tell the scheduler that the window failed.
    Report,
    /// Nothing more.
    Finish,
}

/// How that went.
#[derive(Clone, Copy, Debug, PartialEq, Eq, Structural)]
pub enum InjectEvent {
    /// Whether the configuration was written.
    Configured(bool),
    /// Whether the injector started.
    Started(bool),
    /// Whether the injector succeeded, where it could be waited for.
    Exited(Option<bool>),
    /// The pause is over.
    Paused,
    /// The scheduler was told.
    Reported,
}

/// What each phase is about to do.
pub open spec fn inject_action(phase: InjectPhase) -> InjectAction {
    match phase {
        InjectPhase::Configuring => InjectAction::WriteConfig,
        InjectPhase::Starting(_) => InjectAction::Start,
        InjectPhase::Waiting(_) => InjectAction::Wait,
        InjectPhase::Pausing(_) => InjectAction::Pause,
        InjectPhase::Reporting => InjectAction::Report,
        InjectPhase::Done(_) => InjectAction::Finish,
    }
}

/// Whether an event is about the action.
pub open spec fn inject_concerns(event: InjectEvent, action: InjectAction) -> bool {
    match action {
        InjectAction::WriteConfig => event is Configured,
        InjectAction::Start => event is Started,
        InjectAction::Wait => event is Exited,
        InjectAction::Pause => event is Paused,
        InjectAction::Report => event is Reported,
        InjectAction::Finish => false,
    }
}

/// The phase that follows `phase` on `event`. Only an injector that ran and failed
/// is worth another attempt. An event that is not about what the phase is about to
/// do changes nothing.
pub open spec fn next_inject(phase: InjectPhase, event: InjectEvent) -> InjectPhase {
    match (phase, event) {
        (InjectPhase::Configuring, InjectEvent::Configured(written)) => if written {
            InjectPhase::Starting(1)
        } else {
            InjectPhase::Reporting
        },
        (InjectPhase::Starting(attempt), InjectEvent::Started(started)) => if started {
            InjectPhase::Waiting(attempt)
        } else {
            InjectPhase::Reporting
        },
        (InjectPhase::Waiting(attempt), InjectEvent::Exited(exit)) => match exit {
            Some(success) => if success {
                InjectPhase::Done(true)
            } else if attempt < INJECTION_ATTEMPTS {
                InjectPhase::Pausing(attempt)
            } else {
                InjectPhase::Reporting
            },
            None => InjectPhase::Reporting,
        },
        (InjectPhase::Pausing(attempt), InjectEvent::Paused) => if attempt < INJECTION_ATTEMPTS {
            InjectPhase::Starting((attempt + 1) as u32)
        } else {
            InjectPhase::Reporting
        },
        (InjectPhase::Reporting, InjectEvent::Reported) => InjectPhase::Done(false),
        _ => phase,
    }
}

/// The phase after a run of events, from the beginning.
pub open spec fn inject_after(events: Seq<InjectEvent>) -> InjectPhase
    decreases events.len(),
{
    if events.len() == 0 {
        InjectPhase::Configuring
    } else {
        next_inject(inject_after(events.drop_last()), events.last())
    }
}

/// How often `action` was done in a run of events.
pub open spec fn inject_count(events: Seq<InjectEvent>, action: InjectAction) -> nat
    decreases events.len(),
{
    if events.len() == 0 {
        0
    } else {
        inject_count(events.drop_last(), action) + (if inject_action(
            inject_after(events.drop_last()),
        ) == action && inject_concerns(events.last(), action) {
            1nat
        } else {
            0nat
        })
    }
}

/// The counts of starts and of pauses in each phase.
proof fn lemma_inject_counts(events: Seq<InjectEvent>)
    ensures
        ({
            let starts = inject_count(events, InjectAction::Start);
            let pauses = inject_count(events, InjectAction::Pause);
            match inject_after(events) {
                InjectPhase::Configuring => starts == 0 && pauses == 0,
                InjectPhase::Starting(n) => 1 <= n <= INJECTION_ATTEMPTS && starts == n - 1
                    && pauses == n - 1,
                InjectPhase::Waiting(n) => 1 <= n <= INJECTION_ATTEMPTS && starts == n && pauses
                    == n - 1,
                InjectPhase::Pausing(n) => 1 <= n < INJECTION_ATTEMPTS && starts == n && pauses
                    == n - 1,
                _ => starts <= INJECTION_ATTEMPTS && pauses == (if starts > 0 {
                    starts - 1
                } else {
                    0
                }),
            }
        }),
    decreases events.len(),
{
    if events.len() > 0 {
        lemma_inject_counts(events.drop_last());
    }
}

/// The injector is started at most three times, and a run that is over has paused
/// once between any two attempts and nowhere else.
pub proof fn law_attempts_are_limited_and_spaced(events: Seq<InjectEvent>)
    ensures
        inject_count(events, InjectAction::Start) <= INJECTION_ATTEMPTS,
        inject_after(events) is Done ==> inject_count(events, InjectAction::Pause) == (
        if inject_count(events, InjectAction::Start) > 0 {
            inject_count(events, InjectAction::Start) - 1
        } else {
            0
        }),
{
    lemma_inject_counts(events);
}

/// The scheduler hears of a failure once, and of a success never.
pub proof fn law_failures_are_reported_once(events: Seq<InjectEvent>)
    ensures
        match inject_after(events) {
            InjectPhase::Done(injected) => inject_count(events, InjectAction::Report) == (
            if injected {
                0nat
            } else {
                1nat
            }),
            _ => inject_count(events, InjectAction::Report) == 0,
        },
    decreases events.len(),
{
    if events.len() > 0 {
        law_failures_are_reported_once(events.drop_last());
    }
}

/// The configuration is there before the library looks for it: the injector is
/// started only after the configuration was written.
pub proof fn law_the_config_comes_first(events: Seq<InjectEvent>)
    requires
        inject_after(events) is Starting || inject_count(events, InjectAction::Start) > 0,
    ensures
        events.contains(InjectEvent::Configured(true)),
    decreases events.len(),
{
    let shorter = events.drop_last();
    let before = inject_after(shorter);
    lemma_inject_counts(events);
    lemma_inject_counts(shorter);
    if before is Starting || inject_count(shorter, InjectAction::Start) > 0 {
        law_the_config_comes_first(shorter);
        let k = shorter.index_of(InjectEvent::Configured(true));
        assert(events[k] == shorter[k]);
    } else {
        assert(events.last() == InjectEvent::Configured(true));
        assert(events[events.len() - 1] == events.last());
    }
}

/// A run that ended well is one whose injector succeeded.
pub proof fn law_success_is_never_made_up(events: Seq<InjectEvent>)
    requires
        inject_after(events) == InjectPhase::Done(true),
    ensures
        events.contains(InjectEvent::Exited(Some(true))),
    decreases events.len(),
{
    let shorter = events.drop_last();
    if inject_after(shorter) == InjectPhase::Done(true) {
        law_success_is_never_made_up(shorter);
        let k = shorter.index_of(InjectEvent::Exited(Some(true)));
        assert(events[k] == shorter[k]);
    } else {
        assert(events.last() == InjectEvent::Exited(Some(true)));
        assert(events[events.len() - 1] == events.last());
    }
}

/// An injector that succeeds ends the run well, whichever attempt it was, and nothing
/// is reported.
pub proof fn law_a_success_ends_the_run_well(events: Seq<InjectEvent>)
    requires
        inject_after(events) is Waiting,
    ensures
        ({
            let all = events.push(InjectEvent::Exited(Some(true)));
            &&& inject_after(all) == InjectPhase::Done(true)
            &&& inject_count(all, InjectAction::Report) == 0
        }),
{
    let all = events.push(InjectEvent::Exited(Some(true)));
    assert(all.drop_last() =~= events);
    law_failures_are_reported_once(all);
}

/// An injector that fails is tried again after a pause, as long as it was started
/// fewer than three times. After the third time the failure is reported, and that is
/// the end.
pub proof fn law_a_failed_attempt_is_repeated(events: Seq<InjectEvent>)
    requires
        inject_after(events) is Waiting,
    ensures
        ({
            let failed = events.push(InjectEvent::Exited(Some(false)));
            if inject_count(events, InjectAction::Start) < 3 {
                &&& inject_action(inject_after(failed)) == InjectAction::Pause
                &&& inject_action(inject_after(failed.push(InjectEvent::Paused)))
                    == InjectAction::Start
            } else {
                &&& inject_action(inject_after(failed)) == InjectAction::Report
                &&& inject_after(failed.push(InjectEvent::Reported)) == InjectPhase::Done(false)
            }
        }),
{
    let failed = events.push(InjectEvent::Exited(Some(false)));
    assert(failed.drop_last() =~= events);
    assert(failed.push(InjectEvent::Paused).drop_last() =~= failed);
    assert(failed.push(InjectEvent::Reported).drop_last() =~= failed);
    lemma_inject_counts(events);
}

/// Whether an event ends the attempts at once: what it is about could not be done.
pub open spec fn hopeless(phase: InjectPhase, event: InjectEvent) -> bool {
    ||| phase is Configuring && event == InjectEvent::Configured(false)
    ||| phase is Starting && event == InjectEvent::Started(false)
    ||| phase is Waiting && event == InjectEvent::Exited(None)
}

/// A configuration that cannot be written, and an injector that cannot be started or
/// waited for, are reported at once, and that is the end.
pub proof fn law_hopeless_attempts_are_not_repeated(events: Seq<InjectEvent>, event: InjectEvent)
    requires
        hopeless(inject_after(events), event),
    ensures
        inject_action(inject_after(events.push(event))) == InjectAction::Report,
        inject_after(events.push(event).push(InjectEvent::Reported)) == InjectPhase::Done(false),
{
    assert(events.push(event).drop_last() =~= events);
    assert(events.push(event).push(InjectEvent::Reported).drop_last() =~= events.push(event));
}

/// As long as all goes well, writing the configuration is followed by starting the
/// injector, and that by waiting for it.
pub proof fn law_a_run_goes_on_while_all_is_well(events: Seq<InjectEvent>)
    ensures
        inject_action(inject_after(Seq::empty())) == InjectAction::WriteConfig,
        inject_after(events) is Configuring ==> inject_action(
            inject_after(events.push(InjectEvent::Configured(true))),
        ) == InjectAction::Start,
        inject_after(events) is Starting ==> inject_action(
            inject_after(events.push(InjectEvent::Started(true))),
        ) == InjectAction::Wait,
{
    assert(events.push(InjectEvent::Configured(true)).drop_last() =~= events);
    assert(events.push(InjectEvent::Started(true)).drop_last() =~= events);
}

/// How many actions are left from a phase on, at most.
pub open spec fn injections_left(phase: InjectPhase) -> int {
    match phase {
        InjectPhase::Configuring => 3 * INJECTION_ATTEMPTS + 2,
        InjectPhase::Starting(n) => 3 * (INJECTION_ATTEMPTS - n) + 4,
        InjectPhase::Waiting(n) => 3 * (INJECTION_ATTEMPTS - n) + 3,
        InjectPhase::Pausing(n) => 3 * (INJECTION_ATTEMPTS - n) + 2,
        InjectPhase::Reporting => 1,
        InjectPhase::Done(_) => 0,
    }
}

/// Every event about what is being done leads closer to the end.
pub proof fn law_injection_comes_to_an_end(events: Seq<InjectEvent>, event: InjectEvent)
    ensures
        ({
            let phase = inject_after(events);
            let next = next_inject(phase, event);
            if inject_concerns(event, inject_action(phase)) {
                0 <= injections_left(next) < injections_left(phase)
            } else {
                next == phase
            }
        }),
{
    lemma_inject_counts(events);
}

impl InjectPhase {
    /// What is to be done next.
    pub fn action(self) -> (r: InjectAction)
        ensures
            r == inject_action(self),
    {
        match self {
            InjectPhase::Configuring => InjectAction::WriteConfig,
            InjectPhase::Starting(_) => InjectAction::Start,
            InjectPhase::Waiting(_) => InjectAction::Wait,
            InjectPhase::Pausing(_) => InjectAction::Pause,
            InjectPhase::Reporting => InjectAction::Report,
            InjectPhase::Done(_) => InjectAction::Finish,
        }
    }

    /// Takes in how the last action went.
    pub fn step(self, event: InjectEvent) -> (r: InjectPhase)
        ensures
            r == next_inject(self, event),
    {
        match (self, event) {
            (InjectPhase::Configuring, InjectEvent::Configured(written)) => if written {
                InjectPhase::Starting(1)
            } else {
                InjectPhase::Reporting
            },
            (InjectPhase::Starting(attempt), InjectEvent::Started(started)) => if started {
                InjectPhase::Waiting(attempt)
            } else {
                InjectPhase::Reporting
            },
            (InjectPhase::Waiting(attempt), InjectEvent::Exited(exit)) => match exit {
                Some(success) => if success {
                    InjectPhase::Done(true)
                } else if attempt < INJECTION_ATTEMPTS {
                    InjectPhase::Pausing(attempt)
                } else {
                    InjectPhase::Reporting
                },
                None => InjectPhase::Reporting,
            },
            (InjectPhase::Pausing(attempt), InjectEvent::Paused) => if attempt
                < INJECTION_ATTEMPTS {
                InjectPhase::Starting(attempt + 1)
            } else {
                InjectPhase::Reporting
            },
            (InjectPhase::Reporting, InjectEvent::Reported) => InjectPhase::Done(false),
            (other, _) => other,
        }
    }
}

/// What the scheduler is told when the window of `pid` failed.
pub fn failed_window(pid: i32) -> (r: SchedulerEvent)
    ensures
        r == SchedulerEvent::CollectFailed(CollectorName::CUPTI, pid),
{
    SchedulerEvent::CollectFailed(CollectorName::CUPTI, pid)
}

/// The arguments that the agent starts itself with to inject the library.
pub fn injector_args(pid: i32, output: &str) -> (r: Vec<String>)
    ensures
        texts(r@) == seq![
            "cupti-inject"@,
            "--target-pid"@,
            decimal(pid as int),
            "--output"@,
            output@,
        ],
{
    let mut number = String::new();
    push_decimal(&mut number, pid);
    assert(number@ =~= decimal(pid as int));
    let mut args: Vec<String> = Vec::new();
    args.push("cupti-inject".to_owned());
    args.push("--target-pid".to_owned());
    args.push(number);
    args.push("--output".to_owned());
    args.push(output.to_owned());
    assert(texts(args@) =~= seq![
        "cupti-inject"@,
        "--target-pid"@,
        decimal(pid as int),
        "--output"@,
        output@,
    ]);
    args
}

} // verus!
