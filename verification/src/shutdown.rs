//! Letting go of a target: its trace is fetched, if it is the trace of this window
//! and of this process.

use crate::cuprof::config_file;
use crate::cupti_plugin_wrapper::{
    config_files, entry_of, CUPTIPluginWrapper, CollectorState, Output, OutputPaths, Plugin,
};
use crate::process::{classify_pid, identity, parse_proc_starttime, starttime, PidIdentity};
use crate::text::maybe;
use crate::trigger::{
    expects_trace_of, gate, launched_with, law_a_trace_is_expected_of_launched_windows,
    lemma_config_is_unlinked, lemma_launched_target, plugin_after_triggers, start_in, told_config, trigger_after, Trigger, Triggered, Window,
};
use crate::unix_handler::root_of;
use vstd::prelude::*;

verus! {

/// What became of a trace.
#[derive(Clone, Copy, Debug, PartialEq, Eq, Structural)]
pub enum Fetched {
    /// None was expected.
    Nothing,
    /// It belongs to another process by now.
    Recycled,
    /// The target exited before it could be read back.
    Gone,
    /// It is not there.
    Missing,
    /// It is that of an earlier window.
    Stale,
    /// It was copied.
    Copied,
    /// It could not be copied.
    NotCopied,
}

/// Where the letting go stands.
#[derive(Clone, Copy, Debug, PartialEq, Eq, Structural)]
pub enum ShutdownPhase {
    /// About to read the start time of the target.
    Identifying,
    /// About to read when the trace was written.
    Dating,
    /// About to copy the trace.
    Copying,
    /// It is over.
    Done(Fetched),
}

/// What is to be done to let go of a target.
#[derive(Clone, Copy, Debug, PartialEq, Eq, Structural)]
pub enum ShutdownAction {
    /// Read `/proc/<pid>/stat`.
    ReadStat,
    /// Read when the trace was written.
    ReadMtime,
    /// Copy the trace.
    CopyTrace,
    /// Nothing more.
    Finish,
}

/// How that went.
#[derive(Debug)]
pub enum ShutdownEvent {
    /// The text of `/proc/<pid>/stat`, where it could be read.
    Stat(Option<String>),
    /// When the trace was written, in nanoseconds since the epoch, where there is
    /// one.
    Written(Option<i128>),
    /// Whether it was copied.
    Copied(bool),
}

/// What a [`ShutdownEvent`] says.
pub enum Shut {
    Stat(Option<Seq<char>>),
    Written(Option<i128>),
    Copied(bool),
}

impl View for ShutdownEvent {
    type V = Shut;

    open spec fn view(&self) -> Shut {
        match *self {
            ShutdownEvent::Stat(stat) => Shut::Stat(maybe(stat)),
            ShutdownEvent::Written(at) => Shut::Written(at),
            ShutdownEvent::Copied(done) => Shut::Copied(done),
        }
    }
}

/// What each phase is about to do.
pub open spec fn shutdown_action(phase: ShutdownPhase) -> ShutdownAction {
    match phase {
        ShutdownPhase::Identifying => ShutdownAction::ReadStat,
        ShutdownPhase::Dating => ShutdownAction::ReadMtime,
        ShutdownPhase::Copying => ShutdownAction::CopyTrace,
        ShutdownPhase::Done(_) => ShutdownAction::Finish,
    }
}

/// Whether an event is about the action.
pub open spec fn shutdown_concerns(event: Shut, action: ShutdownAction) -> bool {
    match action {
        ShutdownAction::ReadStat => event is Stat,
        ShutdownAction::ReadMtime => event is Written,
        ShutdownAction::CopyTrace => event is Copied,
        ShutdownAction::Finish => false,
    }
}

/// Whether a trace that was written then is that of a window.
pub open spec fn fresh(written: Option<i128>, output: Output) -> bool {
    written matches Some(at) && at >= output.trigger_start
}

/// The phase that follows `phase` on `event`, where the target had started at
/// `recorded` when it was initialised and `expected` is the trace of its window.
/// An event that is not about what the phase is about to do changes nothing.
pub open spec fn next_shutdown(
    recorded: Option<u64>,
    expected: Option<Output>,
    phase: ShutdownPhase,
    event: Shut,
) -> ShutdownPhase {
    match (phase, event) {
        (ShutdownPhase::Identifying, Shut::Stat(stat)) => match expected {
            None => ShutdownPhase::Done(Fetched::Nothing),
            Some(_) => match identity(recorded, start_in(stat)) {
                PidIdentity::Recycled { .. } => ShutdownPhase::Done(Fetched::Recycled),
                PidIdentity::Gone => ShutdownPhase::Done(Fetched::Gone),
                _ => ShutdownPhase::Dating,
            },
        },
        (ShutdownPhase::Dating, Shut::Written(written)) => match (expected, written) {
            (Some(output), Some(at)) => if at >= output.trigger_start {
                ShutdownPhase::Copying
            } else {
                ShutdownPhase::Done(Fetched::Stale)
            },
            (Some(_), None) => ShutdownPhase::Done(Fetched::Missing),
            (None, _) => ShutdownPhase::Done(Fetched::Nothing),
        },
        (ShutdownPhase::Copying, Shut::Copied(done)) => if done {
            ShutdownPhase::Done(Fetched::Copied)
        } else {
            ShutdownPhase::Done(Fetched::NotCopied)
        },
        _ => phase,
    }
}

/// What the collector knows once it lets go of a target. The trace is no longer
/// expected, whatever will become of it.
pub open spec fn plugin_after_shutdown(plugin: Plugin, pid: i32) -> Plugin {
    Plugin {
        status: plugin.status.insert(pid, CollectorState::ShuttingDown),
        outputs: plugin.outputs.remove(pid),
        ..plugin
    }
}

/// The phase after a run of events, for a collector that knew `plugin` before.
pub open spec fn shutdown_after(plugin: Plugin, pid: i32, events: Seq<Shut>) -> ShutdownPhase
    decreases events.len(),
{
    if events.len() == 0 {
        ShutdownPhase::Identifying
    } else {
        next_shutdown(
            entry_of(plugin.start_times, pid),
            entry_of(plugin.outputs, pid),
            shutdown_after(plugin, pid, events.drop_last()),
            events.last(),
        )
    }
}

// ---- Laws ----

/// Whether a phase is one in which the trace is copied, or after that.
pub open spec fn copies(phase: ShutdownPhase) -> bool {
    phase is Copying || phase == ShutdownPhase::Done(Fetched::Copied) || phase
        == ShutdownPhase::Done(Fetched::NotCopied)
}

/// Whether an event is a look at the target that found no other process there.
pub open spec fn sees_the_target(event: Shut, recorded: Option<u64>) -> bool {
    match event {
        Shut::Stat(stat) => {
            let seen = identity(recorded, start_in(stat));
            seen is Same || seen is Unknown
        },
        _ => false,
    }
}

/// Whether an event says that the trace is that of the window.
pub open spec fn dates_the_trace(event: Shut, output: Output) -> bool {
    match event {
        Shut::Written(written) => fresh(written, output),
        _ => false,
    }
}

proof fn lemma_seen_first(plugin: Plugin, pid: i32, events: Seq<Shut>)
    requires
        ({
            let phase = shutdown_after(plugin, pid, events);
            phase is Dating || copies(phase)
        }),
    ensures
        plugin.outputs.contains_key(pid),
        exists|k: int|
            0 <= k < events.len() && sees_the_target(
                #[trigger] events[k],
                entry_of(plugin.start_times, pid),
            ),
    decreases events.len(),
{
    let shorter = events.drop_last();
    let recorded = entry_of(plugin.start_times, pid);
    let before = shutdown_after(plugin, pid, shorter);
    if before is Dating || copies(before) {
        lemma_seen_first(plugin, pid, shorter);
        let k = choose|k: int|
            0 <= k < shorter.len() && sees_the_target(#[trigger] shorter[k], recorded);
        assert(events[k] == shorter[k]);
    } else {
        assert(sees_the_target(events[events.len() - 1], recorded));
    }
}

proof fn lemma_dated_first(plugin: Plugin, pid: i32, events: Seq<Shut>)
    requires
        copies(shutdown_after(plugin, pid, events)),
    ensures
        exists|k: int|
            0 <= k < events.len() && dates_the_trace(#[trigger] events[k], plugin.outputs[pid]),
    decreases events.len(),
{
    let shorter = events.drop_last();
    if copies(shutdown_after(plugin, pid, shorter)) {
        lemma_dated_first(plugin, pid, shorter);
        let k = choose|k: int|
            0 <= k < shorter.len() && dates_the_trace(#[trigger] shorter[k], plugin.outputs[pid]);
        assert(events[k] == shorter[k]);
    } else {
        assert(dates_the_trace(events[events.len() - 1], plugin.outputs[pid]));
    }
}

/// A trace is copied only where it was expected, where the target was not found to
/// be another process or gone, and where it was written after the window had
/// started.
pub proof fn law_only_the_trace_of_the_window_is_copied(
    plugin: Plugin,
    pid: i32,
    events: Seq<Shut>,
)
    requires
        copies(shutdown_after(plugin, pid, events)),
    ensures
        plugin.outputs.contains_key(pid),
        exists|k: int|
            0 <= k < events.len() && sees_the_target(
                #[trigger] events[k],
                entry_of(plugin.start_times, pid),
            ),
        exists|k: int|
            0 <= k < events.len() && dates_the_trace(#[trigger] events[k], plugin.outputs[pid]),
{
    lemma_seen_first(plugin, pid, events);
    lemma_dated_first(plugin, pid, events);
}

/// Whether a window was started at `k` of `events`, and its trace found at `j` of
/// `later` to be no older.
pub open spec fn written_since(
    events: Seq<Triggered>,
    k: int,
    later: Seq<Shut>,
    j: int,
) -> bool {
    &&& 0 <= k < events.len()
    &&& 0 <= j < later.len()
    &&& events[k] matches Triggered::Now(now)
    &&& later[j] matches Shut::Written(Some(at))
    &&& at >= now
}

/// From the start of a window to its end: what is copied when the collector lets go
/// of the target is the file that cuprof was told to write, and it was written no
/// earlier than the window was started.
pub proof fn law_what_is_copied_was_written_in_the_window(
    plugin: Plugin,
    window: Window,
    events: Seq<Triggered>,
    later: Seq<Shut>,
)
    requires
        entry_of(plugin.status, window.pid) == Some(CollectorState::InitSuccess),
        trigger_after(plugin, window, events) matches Trigger::Done(r) && r is Ok,
        copies(
            shutdown_after(plugin_after_triggers(plugin, window, events), window.pid, later),
        ),
    ensures
        plugin_after_triggers(plugin, window, events).outputs[window.pid].host == root_of(
            window.pid,
        ) + told_config(window).output,
        exists|k: int, j: int| #[trigger] written_since(events, k, later, j),
{
    let started = plugin_after_triggers(plugin, window, events);
    law_a_trace_is_expected_of_launched_windows(plugin, window, events);
    let (i, k) = choose|i: int, k: int| #[trigger]
        expects_trace_of(plugin.outputs, started.outputs, window, events, i, k);
    law_only_the_trace_of_the_window_is_copied(started, window.pid, later);
    let j = choose|j: int|
        0 <= j < later.len() && dates_the_trace(
            #[trigger] later[j],
            started.outputs[window.pid],
        );
    assert(written_since(events, k, later, j));
}

/// The trace of a window is not lost: where the target was not found to be another
/// process or gone, and the trace was written after the window had started, it is
/// copied.
pub proof fn law_the_trace_of_the_window_is_copied(
    plugin: Plugin,
    pid: i32,
    stat: Option<Seq<char>>,
    written: Option<i128>,
)
    requires
        plugin.outputs.contains_key(pid),
        sees_the_target(Shut::Stat(stat), entry_of(plugin.start_times, pid)),
        fresh(written, plugin.outputs[pid]),
    ensures
        shutdown_after(plugin, pid, seq![Shut::Stat(stat), Shut::Written(written)])
            == ShutdownPhase::Copying,
{
    let events = seq![Shut::Stat(stat), Shut::Written(written)];
    let first = events.drop_last();
    assert(first =~= seq![Shut::Stat(stat)]);
    assert(first.drop_last() =~= Seq::empty());
    assert(shutdown_after(plugin, pid, first.drop_last()) == ShutdownPhase::Identifying);
    assert(shutdown_after(plugin, pid, first) == ShutdownPhase::Dating);
}

/// A trace is fetched once: letting go of a target again finds nothing to fetch,
/// whatever is seen, and changes nothing more.
pub proof fn law_a_trace_is_fetched_once(plugin: Plugin, pid: i32, events: Seq<Shut>)
    ensures
        ({
            let after = plugin_after_shutdown(plugin, pid);
            let phase = shutdown_after(after, pid, events);
            &&& phase is Identifying || phase == ShutdownPhase::Done(Fetched::Nothing)
            &&& plugin_after_shutdown(after, pid).status =~= after.status
            &&& plugin_after_shutdown(after, pid).outputs =~= after.outputs
            &&& plugin_after_shutdown(after, pid).start_times == after.start_times
        }),
    decreases events.len(),
{
    if events.len() > 0 {
        law_a_trace_is_fetched_once(plugin, pid, events.drop_last());
    }
}

/// Letting go of one target leaves what is known of the others.
pub proof fn law_other_targets_are_kept(plugin: Plugin, pid: i32, other: i32)
    requires
        other != pid,
    ensures
        ({
            let after = plugin_after_shutdown(plugin, pid);
            &&& entry_of(after.status, other) == entry_of(plugin.status, other)
            &&& entry_of(after.outputs, other) == entry_of(plugin.outputs, other)
            &&& entry_of(after.start_times, other) == entry_of(plugin.start_times, other)
            &&& entry_of(after.inside, other) == entry_of(plugin.inside, other)
        }),
{
}

/// A target that the collector let go of gets no window: asking for one is granted
/// without anything being done.
pub proof fn law_no_window_after_letting_go(plugin: Plugin, pid: i32)
    ensures
        gate(pid, entry_of(plugin_after_shutdown(plugin, pid).status, pid)) == Trigger::Done(
            Ok(()),
        ),
{
}

/// What the collector knows once it let go of the targets in `gone`.
pub open spec fn plugin_after_shutdowns(plugin: Plugin, gone: Seq<i32>) -> Plugin
    decreases gone.len(),
{
    if gone.len() == 0 {
        plugin
    } else {
        plugin_after_shutdown(plugin_after_shutdowns(plugin, gone.drop_last()), gone.last())
    }
}

proof fn lemma_targets_stay(plugin: Plugin, gone: Seq<i32>, pid: i32)
    requires
        plugin.status.contains_key(pid),
    ensures
        plugin_after_shutdowns(plugin, gone).status.contains_key(pid),
        plugin_after_shutdowns(plugin, gone).inside == plugin.inside,
    decreases gone.len(),
{
    if gone.len() > 0 {
        lemma_targets_stay(plugin, gone.drop_last(), pid);
    }
}

/// Letting go of targets, be it the one of the window or others, takes nothing from
/// the files to unlink: the configuration that a window was launched with is still
/// among them. `pids` are the targets, in any order.
pub proof fn law_letting_go_keeps_the_config_to_unlink(
    plugin: Plugin,
    window: Window,
    events: Seq<Triggered>,
    n: int,
    container_pid: i32,
    gone: Seq<i32>,
    pids: Seq<i32>,
)
    requires
        launched_with(plugin, window, events, n, container_pid),
        pids.to_set() == plugin_after_shutdowns(
            plugin_after_triggers(plugin, window, events),
            gone,
        ).status.dom(),
    ensures
        config_files(
            plugin_after_shutdowns(plugin_after_triggers(plugin, window, events), gone),
            pids,
        ).contains(config_file(window.pid, container_pid)),
{
    let started = plugin_after_triggers(plugin, window, events);
    let after = plugin_after_shutdowns(started, gone);
    lemma_launched_target(plugin, window, events, n, container_pid);
    lemma_targets_stay(started, gone, window.pid);
    lemma_config_is_unlinked(after, pids, window.pid);
}

/// What becomes of a trace, from what was seen: whether one is expected, whether the
/// target has the start time that was noted down, when the trace was written, and
/// whether it could be copied.
pub proof fn law_what_becomes_of_a_trace(
    plugin: Plugin,
    pid: i32,
    stat: Option<Seq<char>>,
    written: Option<i128>,
    copied: bool,
)
    ensures
        ({
            let current = match stat {
                Some(text) => starttime(text),
                None => None,
            };
            let recorded = entry_of(plugin.start_times, pid);
            let seen = seq![Shut::Stat(stat)];
            let dated = seen.push(Shut::Written(written));
            let over = dated.push(Shut::Copied(copied));
            if !plugin.outputs.contains_key(pid) {
                shutdown_after(plugin, pid, seen) == ShutdownPhase::Done(Fetched::Nothing)
            } else if recorded is Some && current is None {
                shutdown_after(plugin, pid, seen) == ShutdownPhase::Done(Fetched::Gone)
            } else if recorded is Some && recorded != current {
                shutdown_after(plugin, pid, seen) == ShutdownPhase::Done(Fetched::Recycled)
            } else if written is None {
                shutdown_after(plugin, pid, dated) == ShutdownPhase::Done(Fetched::Missing)
            } else if written->0 < plugin.outputs[pid].trigger_start {
                shutdown_after(plugin, pid, dated) == ShutdownPhase::Done(Fetched::Stale)
            } else {
                &&& shutdown_action(shutdown_after(plugin, pid, seen)) == ShutdownAction::ReadMtime
                &&& shutdown_action(shutdown_after(plugin, pid, dated))
                    == ShutdownAction::CopyTrace
                &&& shutdown_after(plugin, pid, over) == ShutdownPhase::Done(
                    if copied {
                        Fetched::Copied
                    } else {
                        Fetched::NotCopied
                    },
                )
            }
        }),
{
    let seen = seq![Shut::Stat(stat)];
    let dated = seen.push(Shut::Written(written));
    let over = dated.push(Shut::Copied(copied));
    assert(seen.drop_last() =~= Seq::empty());
    assert(shutdown_after(plugin, pid, seen.drop_last()) == ShutdownPhase::Identifying);
    assert(dated.drop_last() =~= seen);
    assert(over.drop_last() =~= dated);
}

/// A target that the collector lets go of is noted down as such, and its trace is no
/// longer expected. When it had started and its inner PID stay known.
pub proof fn law_letting_go_is_noted_down(plugin: Plugin, pid: i32)
    ensures
        ({
            let after = plugin_after_shutdown(plugin, pid);
            &&& entry_of(after.status, pid) == Some(CollectorState::ShuttingDown)
            &&& entry_of(after.outputs, pid) is None
            &&& after.start_times == plugin.start_times
            &&& after.inside == plugin.inside
            &&& after.path == plugin.path
        }),
{
}

/// How many actions are left from a phase on, at most.
pub open spec fn shutdowns_left(phase: ShutdownPhase) -> int {
    match phase {
        ShutdownPhase::Identifying => 3,
        ShutdownPhase::Dating => 2,
        ShutdownPhase::Copying => 1,
        ShutdownPhase::Done(_) => 0,
    }
}

/// Every event about what is being done leads closer to the end.
pub proof fn law_letting_go_comes_to_an_end(
    recorded: Option<u64>,
    expected: Option<Output>,
    phase: ShutdownPhase,
    event: Shut,
)
    ensures
        ({
            let next = next_shutdown(recorded, expected, phase, event);
            if shutdown_concerns(event, shutdown_action(phase)) {
                0 <= shutdowns_left(next) < shutdowns_left(phase)
            } else {
                next == phase
            }
        }),
{
}

// ---- Doing it ----

/// An event says what it holds.
pub proof fn law_shutdowns_say_what_they_hold(event: ShutdownEvent, paths: OutputPaths)
    ensures
        match event {
            ShutdownEvent::Stat(Some(stat)) => event@ == Shut::Stat(Some(stat@)),
            ShutdownEvent::Stat(None) => event@ == Shut::Stat(None),
            ShutdownEvent::Written(at) => event@ == Shut::Written(at),
            ShutdownEvent::Copied(done) => event@ == Shut::Copied(done),
        },
        expected_output(Some(paths)) == Some(paths@),
        expected_output(None) is None,
{
}

/// The letting go of one target.
#[derive(Debug)]
pub struct ShutdownRun {
    /// The target.
    pub pid: i32,
    /// When it had started, as of its initialisation.
    pub recorded: Option<u64>,
    /// The trace of its window.
    pub expected: Option<OutputPaths>,
    /// Where it stands.
    pub phase: ShutdownPhase,
}

/// The trace that is expected.
pub open spec fn expected_output(paths: Option<OutputPaths>) -> Option<Output> {
    match paths {
        Some(paths) => Some(paths@),
        None => None,
    }
}

impl ShutdownRun {
    /// What is to be done next.
    pub fn action(&self) -> (r: ShutdownAction)
        ensures
            r == shutdown_action(self.phase),
    {
        match self.phase {
            ShutdownPhase::Identifying => ShutdownAction::ReadStat,
            ShutdownPhase::Dating => ShutdownAction::ReadMtime,
            ShutdownPhase::Copying => ShutdownAction::CopyTrace,
            ShutdownPhase::Done(_) => ShutdownAction::Finish,
        }
    }

    /// Takes in how the last action went.
    pub fn step(self, event: ShutdownEvent) -> (r: ShutdownRun)
        ensures
            r.pid == self.pid,
            r.recorded == self.recorded,
            r.expected == self.expected,
            r.phase == next_shutdown(
                self.recorded,
                expected_output(self.expected),
                self.phase,
                event@,
            ),
    {
        let ShutdownRun { pid, recorded, expected, phase } = self;
        let phase = match (phase, event) {
            (ShutdownPhase::Identifying, ShutdownEvent::Stat(stat)) => {
                let current = match &stat {
                    Some(text) => parse_proc_starttime(text.as_str()),
                    None => None,
                };
                match &expected {
                    None => ShutdownPhase::Done(Fetched::Nothing),
                    Some(_) => match classify_pid(recorded, current) {
                        PidIdentity::Recycled { .. } => ShutdownPhase::Done(Fetched::Recycled),
                        PidIdentity::Gone => ShutdownPhase::Done(Fetched::Gone),
                        _ => ShutdownPhase::Dating,
                    },
                }
            },
            (ShutdownPhase::Dating, ShutdownEvent::Written(written)) => match (&expected, written) {
                (Some(paths), Some(at)) => if at >= paths.trigger_start {
                    ShutdownPhase::Copying
                } else {
                    ShutdownPhase::Done(Fetched::Stale)
                },
                (Some(_), None) => ShutdownPhase::Done(Fetched::Missing),
                (None, _) => ShutdownPhase::Done(Fetched::Nothing),
            },
            (ShutdownPhase::Copying, ShutdownEvent::Copied(done)) => if done {
                ShutdownPhase::Done(Fetched::Copied)
            } else {
                ShutdownPhase::Done(Fetched::NotCopied)
            },
            (other, _) => other,
        };
        ShutdownRun { pid, recorded, expected, phase }
    }
}

impl CUPTIPluginWrapper {
    /// Begins to let go of a target.
    pub fn custom_shutdown(&mut self, pid: i32) -> (r: ShutdownRun)
        ensures
            r.pid == pid,
            r.recorded == entry_of(old(self)@.start_times, pid),
            expected_output(r.expected) == entry_of(old(self)@.outputs, pid),
            r.phase == ShutdownPhase::Identifying,
            final(self)@ == plugin_after_shutdown(old(self)@, pid),
    {
        self.set_state(pid, CollectorState::ShuttingDown);
        let recorded = self.start_time_of(pid);
        let expected = self.take_output(pid);
        ShutdownRun { pid, recorded, expected, phase: ShutdownPhase::Identifying }
    }
}

} // verus!
