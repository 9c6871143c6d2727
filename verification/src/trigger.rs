//! Starting a collection window: who the target is, what it is told, and where its
//! trace will be.

use crate::constants::DEFAULT_PATH;
use crate::cuprof::{
    config_file, cuprof_config_path, cuprof_socket_inside, cuprof_trace_inside, cuprof_trace_name,
    cuprof_trace_outside, cuprof_verbose_from_env, law_both_ends_meet_on_one_socket,
    socket_inside, switches_on, trace_inside, trace_name, trace_outside, Config, CuprofConfig,
};
use crate::cupti_plugin_wrapper::{
    config_files, entry_of, law_who_may_be_written_into, may_write, pid_inside, state_text,
    CUPTIPluginWrapper, CollectorState, Output, OutputPaths, Plugin, ProfileArgs,
};
use crate::failures::{fault, outcome, Failure, FailureKind, Fault};
use crate::init::{
    init_after, law_a_target_is_ready_when_initialisation_succeeds, plugin_after_inits, Init, Inited,
};
use crate::numbers::{decimal, push_decimal};
use crate::process::{identity, parse_proc_starttime, starttime};
use crate::text::{lower, maybe, same_text, setting};
use crate::unix_handler::{root_of, socket_under, UnixSocketHandler};
use vstd::prelude::*;

verus! {

// ---- What a window is ----

/// What a window is asked for.
#[derive(Debug)]
pub struct WindowPlan {
    /// The target.
    pub pid: i32,
    /// The directory for the trace, where one was given.
    pub output: Option<String>,
    /// The seconds to collect for; zero for no limit.
    pub duration: u64,
    /// Whether cuprof is to print its diagnostics.
    pub verbose: bool,
}

/// What a [`WindowPlan`] says.
pub struct Window {
    pub pid: i32,
    pub output: Option<Seq<char>>,
    pub duration: u64,
    pub verbose: bool,
}

impl View for WindowPlan {
    type V = Window;

    open spec fn view(&self) -> Window {
        Window {
            pid: self.pid,
            output: maybe(self.output),
            duration: self.duration,
            verbose: self.verbose,
        }
    }
}

/// The directory that the trace of a window goes to; the current one where nothing
/// was asked for. `default` stands for the `/tmp` of the process that has, on the
/// host, the PID `container_pid`. Outside containers that is the target.
pub open spec fn trace_dir(asked: Option<Seq<char>>, container_pid: i32) -> Seq<char> {
    match asked {
        None => "."@,
        Some(dir) => if dir == "default"@ {
            root_of(container_pid) + DEFAULT_PATH@ + "/"@
        } else {
            dir
        },
    }
}

/// What cuprof is told of a window. Of the duration it reads the low 32 bits.
pub open spec fn told_config(window: Window) -> Config {
    Config {
        output: trace_inside(window.pid),
        duration_sec: (window.duration % 0x1_0000_0000) as u32,
        verbose: window.verbose,
        socket_path: socket_inside(window.pid),
    }
}

/// Where the trace of a window is fetched from and goes to.
pub open spec fn window_output(window: Window, container_pid: i32, now: i128) -> Output {
    Output {
        host: trace_outside(window.pid),
        local: trace_dir(window.output, container_pid) + "/"@ + trace_name(window.pid),
        trigger_start: now,
    }
}

/// What it takes to inject the library for a window.
#[derive(Debug)]
pub struct InjectionJob {
    /// The target.
    pub pid: i32,
    /// The target, in its own namespace.
    pub container_pid: i32,
    /// What cuprof is told.
    pub config: CuprofConfig,
    /// The directory for the trace.
    pub output: String,
}

/// The trace is fetched from where cuprof is told to write it, seen from outside.
pub proof fn law_the_trace_is_fetched_from_where_it_is_written(
    window: Window,
    container_pid: i32,
    now: i128,
)
    ensures
        window_output(window, container_pid, now).host == root_of(window.pid) + told_config(
            window,
        ).output,
{
}

// ---- Failures ----

/// Why a target that was never initialised gets no window.
pub open spec fn not_known(pid: i32) -> Fault {
    fault(
        FailureKind::TriggerCollectorError,
        "PID "@ + decimal(pid as int) + " not found in status map"@,
    )
}

/// Why a target that is not ready gets no window.
pub open spec fn not_ready(pid: i32, state: CollectorState) -> Fault {
    fault(
        FailureKind::TriggerCollectorError,
        "Collector for PID "@ + decimal(pid as int)
            + " was not initialized successfully, cannot trigger cuprof, state is: Some("@
            + state_text(state) + ")"@,
    )
}

/// Why a target whose PID in its own namespace is not known gets no window.
pub open spec fn not_resolved(pid: i32, error: Seq<char>) -> Fault {
    fault(
        FailureKind::TriggerCollectorError,
        "PID "@ + decimal(pid as int)
            + " runs in a container but its namespace-local PID could not be resolved ("@ + error
            + "); refusing to fall back to the host PID, because cuprof inside the target would then never find /tmp/cuprof_<pid>.cfg and would collect with its built-in defaults instead"@,
    )
}

// ---- The steps ----

/// Where the start of a window stands.
#[derive(Debug)]
pub enum TriggerPhase {
    /// About to find out which PID the target has in its own namespace.
    Locating,
    /// About to read the start time of the target, which has this PID.
    Identifying(i32),
    /// About to remove a trace that an earlier window left.
    Clearing(i32),
    /// About to read the clock.
    Stamping(i32),
    /// About to hand the injection on.
    Launching(i32),
    /// It failed: about to tell the scheduler.
    Reporting(Failure),
    /// It is over.
    Done(Result<(), Failure>),
}

/// What a [`TriggerPhase`] says.
pub enum Trigger {
    Locating,
    Identifying(i32),
    Clearing(i32),
    Stamping(i32),
    Launching(i32),
    Reporting(Fault),
    Done(Result<(), Fault>),
}

impl View for TriggerPhase {
    type V = Trigger;

    open spec fn view(&self) -> Trigger {
        match *self {
            TriggerPhase::Locating => Trigger::Locating,
            TriggerPhase::Identifying(c) => Trigger::Identifying(c),
            TriggerPhase::Clearing(c) => Trigger::Clearing(c),
            TriggerPhase::Stamping(c) => Trigger::Stamping(c),
            TriggerPhase::Launching(c) => Trigger::Launching(c),
            TriggerPhase::Reporting(failure) => Trigger::Reporting(failure@),
            TriggerPhase::Done(r) => Trigger::Done(outcome(r)),
        }
    }
}

/// What is to be done to start a window.
#[derive(Clone, Copy, Debug, PartialEq, Eq, Structural)]
pub enum TriggerAction {
    /// Find out which PID the target has in its own namespace.
    Locate,
    /// Read `/proc/<pid>/stat`.
    ReadStat,
    /// Remove the trace that is there, if any.
    RemoveStale,
    /// Read the clock.
    ReadClock,
    /// Inject the library, without waiting for it.
    Launch,
    /// Tell the scheduler that the window failed.
    Report,
    /// Nothing more.
    Finish,
}

/// How that went.
#[derive(Debug)]
pub enum TriggerEvent {
    /// The target is outside containers: its PID is the one that it goes by.
    OnHost,
    /// The target is in a container, and has this PID there.
    InContainer(i32),
    /// The target is in a container, and its PID there could not be found out.
    Unresolved(String),
    /// The text of `/proc/<pid>/stat`, where it could be read.
    Stat(Option<String>),
    /// There is no trace, or it was removed, or it could not be.
    Cleared,
    /// The time, in nanoseconds since the epoch.
    Now(i128),
    /// The injection is under way.
    Launched,
    /// The scheduler was told.
    Reported,
}

/// What a [`TriggerEvent`] says.
pub enum Triggered {
    OnHost,
    InContainer(i32),
    Unresolved(Seq<char>),
    Stat(Option<Seq<char>>),
    Cleared,
    Now(i128),
    Launched,
    Reported,
}

impl View for TriggerEvent {
    type V = Triggered;

    open spec fn view(&self) -> Triggered {
        match *self {
            TriggerEvent::OnHost => Triggered::OnHost,
            TriggerEvent::InContainer(c) => Triggered::InContainer(c),
            TriggerEvent::Unresolved(error) => Triggered::Unresolved(error@),
            TriggerEvent::Stat(stat) => Triggered::Stat(maybe(stat)),
            TriggerEvent::Cleared => Triggered::Cleared,
            TriggerEvent::Now(now) => Triggered::Now(now),
            TriggerEvent::Launched => Triggered::Launched,
            TriggerEvent::Reported => Triggered::Reported,
        }
    }
}

/// What each phase is about to do.
pub open spec fn trigger_action(phase: Trigger) -> TriggerAction {
    match phase {
        Trigger::Locating => TriggerAction::Locate,
        Trigger::Identifying(_) => TriggerAction::ReadStat,
        Trigger::Clearing(_) => TriggerAction::RemoveStale,
        Trigger::Stamping(_) => TriggerAction::ReadClock,
        Trigger::Launching(_) => TriggerAction::Launch,
        Trigger::Reporting(_) => TriggerAction::Report,
        Trigger::Done(_) => TriggerAction::Finish,
    }
}

/// Whether an event is about the action.
pub open spec fn trigger_concerns(event: Triggered, action: TriggerAction) -> bool {
    match action {
        TriggerAction::Locate => event is OnHost || event is InContainer || event is Unresolved,
        TriggerAction::ReadStat => event is Stat,
        TriggerAction::RemoveStale => event is Cleared,
        TriggerAction::ReadClock => event is Now,
        TriggerAction::Launch => event is Launched,
        TriggerAction::Report => event is Reported,
        TriggerAction::Finish => false,
    }
}

/// The start time in the text of `/proc/<pid>/stat`, where it could be read.
pub open spec fn start_in(stat: Option<Seq<char>>) -> Option<u64> {
    match stat {
        Some(text) => starttime(text),
        None => None,
    }
}

/// Where a window starts for a target in this state. Only a target that has just
/// been made ready gets one; past that there is nothing left to do.
pub open spec fn gate(pid: i32, state: Option<CollectorState>) -> Trigger {
    match state {
        None => Trigger::Done(Err(not_known(pid))),
        Some(CollectorState::Uninitialized) => Trigger::Done(
            Err(not_ready(pid, CollectorState::Uninitialized)),
        ),
        Some(CollectorState::InitSuccess) => Trigger::Locating,
        Some(_) => Trigger::Done(Ok(())),
    }
}

/// What the collector knows once a window was asked for: one that is started is
/// noted down at once.
pub open spec fn plugin_after_gate(plugin: Plugin, pid: i32) -> Plugin {
    if entry_of(plugin.status, pid) == Some(CollectorState::InitSuccess) {
        Plugin { status: plugin.status.insert(pid, CollectorState::Collecting), ..plugin }
    } else {
        plugin
    }
}

/// The phase that follows `phase` on `event`, where the target had started at
/// `recorded` when it was initialised. An event that is not about what the phase
/// is about to do changes nothing.
pub open spec fn next_trigger(
    pid: i32,
    recorded: Option<u64>,
    phase: Trigger,
    event: Triggered,
) -> Trigger {
    match (phase, event) {
        (Trigger::Locating, Triggered::OnHost) => Trigger::Identifying(pid),
        (Trigger::Locating, Triggered::InContainer(c)) => Trigger::Identifying(c),
        (Trigger::Locating, Triggered::Unresolved(error)) => Trigger::Reporting(
            not_resolved(pid, error),
        ),
        (Trigger::Identifying(c), Triggered::Stat(stat)) => match may_write(
            pid,
            identity(recorded, start_in(stat)),
        ) {
            Ok(_) => Trigger::Clearing(c),
            Err(why) => Trigger::Reporting(why),
        },
        (Trigger::Clearing(c), Triggered::Cleared) => Trigger::Stamping(c),
        (Trigger::Stamping(c), Triggered::Now(_)) => Trigger::Launching(c),
        (Trigger::Launching(_), Triggered::Launched) => Trigger::Done(Ok(())),
        (Trigger::Reporting(why), Triggered::Reported) => Trigger::Done(Err(why)),
        _ => phase,
    }
}

/// What the collector knows after `event` in `phase`: from the moment that the window
/// starts on, where the trace will be and which PID the target has in its own
/// namespace.
pub open spec fn plugin_after_trigger(
    plugin: Plugin,
    window: Window,
    phase: Trigger,
    event: Triggered,
) -> Plugin {
    match (phase, event) {
        (Trigger::Stamping(c), Triggered::Now(now)) => Plugin {
            outputs: plugin.outputs.insert(window.pid, window_output(window, c, now)),
            inside: plugin.inside.insert(window.pid, c),
            ..plugin
        },
        _ => plugin,
    }
}

/// The phase after a run of events, of a window that is started by a collector
/// that knows `plugin`.
pub open spec fn trigger_after(plugin: Plugin, window: Window, events: Seq<Triggered>) -> Trigger
    decreases events.len(),
{
    if events.len() == 0 {
        gate(window.pid, entry_of(plugin.status, window.pid))
    } else {
        next_trigger(
            window.pid,
            entry_of(plugin.start_times, window.pid),
            trigger_after(plugin, window, events.drop_last()),
            events.last(),
        )
    }
}

/// What the collector knows after a run of events.
pub open spec fn plugin_after_triggers(
    plugin: Plugin,
    window: Window,
    events: Seq<Triggered>,
) -> Plugin
    decreases events.len(),
{
    if events.len() == 0 {
        plugin_after_gate(plugin, window.pid)
    } else {
        let shorter = events.drop_last();
        plugin_after_trigger(
            plugin_after_triggers(plugin, window, shorter),
            window,
            trigger_after(plugin, window, shorter),
            events.last(),
        )
    }
}

/// How often `action` was done in a run of events.
pub open spec fn trigger_count(
    plugin: Plugin,
    window: Window,
    events: Seq<Triggered>,
    action: TriggerAction,
) -> nat
    decreases events.len(),
{
    if events.len() == 0 {
        0
    } else {
        let shorter = events.drop_last();
        trigger_count(plugin, window, shorter, action) + (if trigger_action(
            trigger_after(plugin, window, shorter),
        ) == action && trigger_concerns(events.last(), action) {
            1nat
        } else {
            0nat
        })
    }
}

// ---- Laws ----

/// The steps of a window leave everything as it is but the state, the trace and the
/// inner PID of its target.
/// What the collector knew of start times when the window began is what it knows
/// at every step.
pub proof fn law_a_window_touches_its_target_only(
    plugin: Plugin,
    window: Window,
    events: Seq<Triggered>,
)
    ensures
        ({
            let after = plugin_after_triggers(plugin, window, events);
            &&& after.start_times == plugin.start_times
            &&& after.path == plugin.path
            &&& after.status == plugin_after_gate(plugin, window.pid).status
            &&& after.outputs.remove(window.pid) =~= plugin.outputs.remove(window.pid)
            &&& after.inside.remove(window.pid) =~= plugin.inside.remove(window.pid)
        }),
    decreases events.len(),
{
    if events.len() > 0 {
        law_a_window_touches_its_target_only(plugin, window, events.drop_last());
    }
}

/// A window is started once: however the first one went on, asking for another
/// one is granted without anything being done or noted down.
pub proof fn law_a_window_is_started_once(
    plugin: Plugin,
    window: Window,
    events: Seq<Triggered>,
    again: Window,
    more: Seq<Triggered>,
)
    requires
        again.pid == window.pid,
        trigger_after(plugin, window, Seq::empty()) is Locating,
    ensures
        ({
            let after = plugin_after_triggers(plugin, window, events);
            &&& trigger_after(after, again, more) == Trigger::Done(Ok(()))
            &&& plugin_after_triggers(after, again, more) == after
        }),
    decreases more.len(),
{
    law_a_window_touches_its_target_only(plugin, window, events);
    if more.len() > 0 {
        law_a_window_is_started_once(plugin, window, events, again, more.drop_last());
    }
}

proof fn lemma_closed_gate(plugin: Plugin, window: Window, events: Seq<Triggered>)
    requires
        entry_of(plugin.status, window.pid) != Some(CollectorState::InitSuccess),
    ensures
        trigger_after(plugin, window, events) is Done,
        trigger_after(plugin, window, events) == gate(
            window.pid,
            entry_of(plugin.status, window.pid),
        ),
        plugin_after_triggers(plugin, window, events) == plugin,
    decreases events.len(),
{
    if events.len() > 0 {
        lemma_closed_gate(plugin, window, events.drop_last());
    }
}

/// A target that is not ready gets no window, and nothing is noted down.
pub proof fn law_only_ready_targets_get_a_window(
    plugin: Plugin,
    window: Window,
    events: Seq<Triggered>,
)
    requires
        entry_of(plugin.status, window.pid) is None || entry_of(plugin.status, window.pid) == Some(
            CollectorState::Uninitialized,
        ),
    ensures
        trigger_after(plugin, window, events) matches Trigger::Done(r) && r is Err,
        trigger_after(plugin, window, events) == gate(
            window.pid,
            entry_of(plugin.status, window.pid),
        ),
        plugin_after_triggers(plugin, window, events) == plugin,
{
    lemma_closed_gate(plugin, window, events);
}

/// A target whose initialisation succeeded gets a window, whatever became of an
/// earlier one.
pub proof fn law_initialised_targets_get_a_window(
    plugin: Plugin,
    pid: i32,
    places: Seq<Seq<char>>,
    events: Seq<Inited>,
)
    requires
        init_after(pid, places, events) matches Init::Done(r) && r is Ok,
    ensures
        gate(
            pid,
            entry_of(plugin_after_inits(plugin, pid, places, events).status, pid),
        ) is Locating,
{
    law_a_target_is_ready_when_initialisation_succeeds(plugin, pid, places, events);
}

/// Whether a phase is one in which a target is written into.
pub open spec fn past_identity(phase: Trigger) -> bool {
    phase is Clearing || phase is Stamping || phase is Launching
}

/// Whether an event is a look at the target that found no other process there.
pub open spec fn clears_identity(event: Triggered, pid: i32, recorded: Option<u64>) -> bool {
    match event {
        Triggered::Stat(stat) => may_write(pid, identity(recorded, start_in(stat))) is Ok,
        _ => false,
    }
}

/// Nothing is removed from a target, and nothing put into it, before a second look
/// at its start time found no other process there.
pub proof fn law_nothing_is_touched_before_the_second_look(
    plugin: Plugin,
    window: Window,
    events: Seq<Triggered>,
)
    requires
        past_identity(trigger_after(plugin, window, events)),
    ensures
        exists|k: int|
            0 <= k < events.len() && clears_identity(
                #[trigger] events[k],
                window.pid,
                entry_of(plugin.start_times, window.pid),
            ),
    decreases events.len(),
{
    let shorter = events.drop_last();
    let recorded = entry_of(plugin.start_times, window.pid);
    if past_identity(trigger_after(plugin, window, shorter)) {
        law_nothing_is_touched_before_the_second_look(plugin, window, shorter);
        let k = choose|k: int|
            0 <= k < shorter.len() && clears_identity(
                #[trigger] shorter[k],
                window.pid,
                recorded,
            );
        assert(events[k] == shorter[k]);
    } else {
        assert(clears_identity(events[events.len() - 1], window.pid, recorded));
    }
}

/// Whether an event says that the target has this PID in its own namespace.
pub open spec fn locates(event: Triggered, pid: i32, container_pid: i32) -> bool {
    match event {
        Triggered::OnHost => container_pid == pid,
        Triggered::InContainer(c) => container_pid == c,
        _ => false,
    }
}

/// Whether a phase goes by this PID in the namespace of the target.
pub open spec fn goes_by(phase: Trigger, container_pid: i32) -> bool {
    match phase {
        Trigger::Identifying(c) => c == container_pid,
        Trigger::Clearing(c) => c == container_pid,
        Trigger::Stamping(c) => c == container_pid,
        Trigger::Launching(c) => c == container_pid,
        _ => false,
    }
}

/// The PID of a target in its own namespace is never guessed. That from outside
/// is used for a target outside containers, and for no other.
pub proof fn law_the_pid_inside_is_never_guessed(
    plugin: Plugin,
    window: Window,
    events: Seq<Triggered>,
    container_pid: i32,
)
    requires
        goes_by(trigger_after(plugin, window, events), container_pid),
    ensures
        exists|k: int|
            0 <= k < events.len() && locates(#[trigger] events[k], window.pid, container_pid),
    decreases events.len(),
{
    let shorter = events.drop_last();
    if goes_by(trigger_after(plugin, window, shorter), container_pid) {
        law_the_pid_inside_is_never_guessed(plugin, window, shorter, container_pid);
        let k = choose|k: int|
            0 <= k < shorter.len() && locates(#[trigger] shorter[k], window.pid, container_pid);
        assert(events[k] == shorter[k]);
    } else {
        assert(locates(events[events.len() - 1], window.pid, container_pid));
    }
}

/// The scheduler hears once of a window that was started and then failed, and of
/// no other.
pub proof fn law_failed_windows_are_reported_once(
    plugin: Plugin,
    window: Window,
    events: Seq<Triggered>,
)
    ensures
        trigger_count(plugin, window, events, TriggerAction::Report) == (
        if entry_of(plugin.status, window.pid) == Some(CollectorState::InitSuccess) && (
        trigger_after(plugin, window, events) matches Trigger::Done(r) && r is Err) {
            1nat
        } else {
            0nat
        }),
    decreases events.len(),
{
    if events.len() > 0 {
        law_failed_windows_are_reported_once(plugin, window, events.drop_last());
        if entry_of(plugin.status, window.pid) != Some(CollectorState::InitSuccess) {
            lemma_closed_gate(plugin, window, events.drop_last());
        }
    }
}

/// Whether the trace of a window that was located and started in `events` is noted
/// down, and nothing else.
pub open spec fn expects_trace(
    before: Map<i32, Output>,
    after: Map<i32, Output>,
    window: Window,
    events: Seq<Triggered>,
) -> bool {
    exists|i: int, k: int| #[trigger]
        expects_trace_of(before, after, window, events, i, k)
}

/// Whether the trace of a window that was located at `i` and started at `k` is
/// noted down, and nothing else.
pub open spec fn expects_trace_of(
    before: Map<i32, Output>,
    after: Map<i32, Output>,
    window: Window,
    events: Seq<Triggered>,
    i: int,
    k: int,
) -> bool {
    &&& 0 <= i < k < events.len()
    &&& events[k] matches Triggered::Now(now)
    &&& match events[i] {
        Triggered::OnHost => after == before.insert(
            window.pid,
            window_output(window, window.pid, now),
        ),
        Triggered::InContainer(c) => after == before.insert(
            window.pid,
            window_output(window, c, now),
        ),
        _ => false,
    }
}

/// A trace is expected of a window that has been launched or is about to be, and
/// of no other: what failed leaves what was expected before.
pub proof fn law_a_trace_is_expected_of_launched_windows(
    plugin: Plugin,
    window: Window,
    events: Seq<Triggered>,
)
    requires
        entry_of(plugin.status, window.pid) == Some(CollectorState::InitSuccess),
    ensures
        ({
            let before = plugin.outputs;
            let after = plugin_after_triggers(plugin, window, events).outputs;
            match trigger_after(plugin, window, events) {
                Trigger::Launching(_) => expects_trace(before, after, window, events),
                Trigger::Done(Ok(_)) => expects_trace(before, after, window, events),
                _ => after == before,
            }
        }),
    decreases events.len(),
{
    if events.len() > 0 {
        let shorter = events.drop_last();
        law_a_trace_is_expected_of_launched_windows(plugin, window, shorter);
        let before = plugin.outputs;
        let after = plugin_after_triggers(plugin, window, events).outputs;
        let phase = trigger_after(plugin, window, shorter);
        if phase is Launching || (phase matches Trigger::Done(r) && r is Ok) {
            let was = plugin_after_triggers(plugin, window, shorter).outputs;
            let (i, k) = choose|i: int, k: int| #[trigger]
                expects_trace_of(before, was, window, shorter, i, k);
            assert(events[i] == shorter[i] && events[k] == shorter[k]);
            assert(expects_trace_of(before, after, window, events, i, k));
        } else if trigger_after(plugin, window, events) is Launching {
            law_the_pid_inside_is_never_guessed(plugin, window, shorter, phase->Stamping_0);
            let i = choose|i: int|
                0 <= i < shorter.len() && locates(
                    #[trigger] shorter[i],
                    window.pid,
                    phase->Stamping_0,
                );
            assert(events[i] == shorter[i]);
            assert(expects_trace_of(before, after, window, events, i, events.len() - 1));
        }
    }
}

/// Whether the window was about to be launched with `container_pid` after the first
/// `n` of `events`.
pub open spec fn launched_with(
    plugin: Plugin,
    window: Window,
    events: Seq<Triggered>,
    n: int,
    container_pid: i32,
) -> bool {
    &&& 0 <= n <= events.len()
    &&& trigger_after(plugin, window, events.take(n)) == Trigger::Launching(container_pid)
}

proof fn lemma_inside_is_kept(
    plugin: Plugin,
    window: Window,
    events: Seq<Triggered>,
    n: int,
    container_pid: i32,
)
    requires
        launched_with(plugin, window, events, n, container_pid),
    ensures
        ({
            let phase = trigger_after(plugin, window, events);
            phase == Trigger::Launching(container_pid) || phase is Done
        }),
        entry_of(plugin_after_triggers(plugin, window, events).inside, window.pid) == Some(
            container_pid,
        ),
    decreases events.len(),
{
    let shorter = events.drop_last();
    if n < events.len() {
        assert(shorter.take(n) =~= events.take(n));
        lemma_inside_is_kept(plugin, window, shorter, n, container_pid);
    } else {
        assert(events.take(n) =~= events);
        if trigger_after(plugin, window, shorter) == Trigger::Launching(container_pid) {
            assert(shorter.take(n - 1) =~= shorter);
            lemma_inside_is_kept(plugin, window, shorter, n - 1, container_pid);
        }
    }
}

/// A window that was launched was about to be, with a PID for its target.
pub proof fn law_launched_windows_have_a_pid_inside(
    plugin: Plugin,
    window: Window,
    events: Seq<Triggered>,
)
    requires
        entry_of(plugin.status, window.pid) == Some(CollectorState::InitSuccess),
        trigger_after(plugin, window, events) matches Trigger::Done(r) && r is Ok,
    ensures
        exists|n: int, container_pid: i32| #[trigger]
            launched_with(plugin, window, events, n, container_pid),
    decreases events.len(),
{
    let shorter = events.drop_last();
    let before = trigger_after(plugin, window, shorter);
    if let Trigger::Launching(container_pid) = before {
        assert(events.take(shorter.len() as int) =~= shorter);
        assert(launched_with(plugin, window, events, shorter.len() as int, container_pid));
    } else {
        law_launched_windows_have_a_pid_inside(plugin, window, shorter);
        let (n, container_pid) = choose|n: int, container_pid: i32| #[trigger]
            launched_with(plugin, window, shorter, n, container_pid);
        assert(events.take(n) =~= shorter.take(n));
        assert(launched_with(plugin, window, events, n, container_pid));
    }
}

/// The configuration that a window was launched with is among the files that are
/// unlinked when the collector goes, in a container as well as outside. `pids` are
/// the targets, in any order.
pub proof fn law_the_config_of_a_launched_window_is_unlinked(
    plugin: Plugin,
    window: Window,
    events: Seq<Triggered>,
    n: int,
    container_pid: i32,
    pids: Seq<i32>,
)
    requires
        launched_with(plugin, window, events, n, container_pid),
        pids.to_set() == plugin_after_triggers(plugin, window, events).status.dom(),
    ensures
        config_files(plugin_after_triggers(plugin, window, events), pids).contains(
            config_file(window.pid, container_pid),
        ),
{
    lemma_launched_target(plugin, window, events, n, container_pid);
    lemma_config_is_unlinked(plugin_after_triggers(plugin, window, events), pids, window.pid);
}

/// The target of a window that was launched is known, and so is its inner PID.
pub proof fn lemma_launched_target(
    plugin: Plugin,
    window: Window,
    events: Seq<Triggered>,
    n: int,
    container_pid: i32,
)
    requires
        launched_with(plugin, window, events, n, container_pid),
    ensures
        plugin_after_triggers(plugin, window, events).status.contains_key(window.pid),
        entry_of(plugin_after_triggers(plugin, window, events).inside, window.pid) == Some(
            container_pid,
        ),
{
    lemma_inside_is_kept(plugin, window, events, n, container_pid);
    law_a_window_touches_its_target_only(plugin, window, events);
    if entry_of(plugin.status, window.pid) != Some(CollectorState::InitSuccess) {
        lemma_closed_gate(plugin, window, events.take(n));
    }
}

/// The configuration of a target is among the files to unlink.
pub proof fn lemma_config_is_unlinked(plugin: Plugin, pids: Seq<i32>, pid: i32)
    requires
        plugin.status.contains_key(pid),
        pids.to_set() == plugin.status.dom(),
    ensures
        config_files(plugin, pids).contains(config_file(pid, pid_inside(plugin, pid))),
{
    assert(pids.to_set().contains(pid));
    let k = pids.index_of(pid);
    assert(config_files(plugin, pids)[k] == config_file(pid, pid_inside(plugin, pid)));
}

/// Plans, phases and events of a window say what they hold.
pub proof fn law_windows_say_what_they_hold(
    plan: WindowPlan,
    phase: TriggerPhase,
    event: TriggerEvent,
)
    ensures
        plan@.pid == plan.pid,
        plan@.output is Some <==> plan.output is Some,
        plan.output is Some ==> plan@.output->0 == plan.output->0@,
        plan@.duration == plan.duration,
        plan@.verbose == plan.verbose,
        match phase {
            TriggerPhase::Locating => phase@ is Locating,
            TriggerPhase::Identifying(c) => phase@ == Trigger::Identifying(c),
            TriggerPhase::Clearing(c) => phase@ == Trigger::Clearing(c),
            TriggerPhase::Stamping(c) => phase@ == Trigger::Stamping(c),
            TriggerPhase::Launching(c) => phase@ == Trigger::Launching(c),
            TriggerPhase::Reporting(failure) => phase@ == Trigger::Reporting(failure@),
            TriggerPhase::Done(r) => phase@ == Trigger::Done(outcome(r)),
        },
        match event {
            TriggerEvent::OnHost => event@ is OnHost,
            TriggerEvent::InContainer(c) => event@ == Triggered::InContainer(c),
            TriggerEvent::Unresolved(error) => event@ == Triggered::Unresolved(error@),
            TriggerEvent::Stat(Some(stat)) => event@ == Triggered::Stat(Some(stat@)),
            TriggerEvent::Stat(None) => event@ == Triggered::Stat(None),
            TriggerEvent::Cleared => event@ is Cleared,
            TriggerEvent::Now(now) => event@ == Triggered::Now(now),
            TriggerEvent::Launched => event@ is Launched,
            TriggerEvent::Reported => event@ is Reported,
        },
{
}

/// The directory that a trace goes to is the one that was asked for, but for `default`,
/// and the current one where none was.
pub proof fn law_where_a_trace_goes(window: Window, container_pid: i32, now: i128)
    ensures
        trace_dir(None, container_pid) == "."@,
        trace_dir(Some("default"@), container_pid) == "/proc/"@ + decimal(container_pid as int)
            + "/root"@ + "/tmp"@ + "/"@,
        window.output matches Some(dir) ==> (dir != "default"@ ==> trace_dir(
            window.output,
            container_pid,
        ) == dir),
        window_output(window, container_pid, now).local == trace_dir(window.output, container_pid)
            + "/"@ + ("AIProf_"@ + decimal(window.pid as int) + "_cupti.json"@),
        window_output(window, container_pid, now).host == "/proc/"@ + decimal(window.pid as int)
            + "/root"@ + ("/tmp"@ + "/"@ + ("AIProf_"@ + decimal(window.pid as int)
            + "_cupti.json"@)),
        window_output(window, container_pid, now).trigger_start == now,
{
}

/// Every window is told what was asked for: the socket that is bound for its target,
/// the duration, as far as 32 bits hold it, and whether to be verbose.
pub proof fn law_a_window_is_told_what_was_asked_for(window: Window)
    ensures
        root_of(window.pid) + told_config(window).socket_path == socket_under(
            root_of(window.pid),
            window.pid,
        ),
        told_config(window).socket_path.len() > 0,
        window.duration <= u32::MAX ==> told_config(window).duration_sec == window.duration,
        (window.duration - told_config(window).duration_sec) % 0x1_0000_0000 == 0,
        told_config(window).verbose == window.verbose,
        told_config(window).output == "/tmp"@ + "/"@ + ("AIProf_"@ + decimal(window.pid as int)
            + "_cupti.json"@),
{
    law_both_ends_meet_on_one_socket(window.pid);
    reveal_strlit("/tmp/.cf_sock_");
}

/// A window goes on for a target that has just been made ready, and for no other: one
/// that never was is refused, and one that is past it is left as it is. A window that
/// goes on is noted down.
pub proof fn law_who_gets_a_window(plugin: Plugin, pid: i32)
    ensures
        ({
            let state = entry_of(plugin.status, pid);
            let after = plugin_after_gate(plugin, pid);
            &&& gate(pid, state) == Trigger::Locating <==> state == Some(
                CollectorState::InitSuccess,
            )
            &&& state is None ==> gate(pid, state) == Trigger::Done(
                Err(
                    fault(
                        FailureKind::TriggerCollectorError,
                        "PID "@ + decimal(pid as int) + " not found in status map"@,
                    ),
                ),
            )
            &&& state == Some(CollectorState::Uninitialized) ==> gate(pid, state)
                == Trigger::Done(
                Err(
                    fault(
                        FailureKind::TriggerCollectorError,
                        "Collector for PID "@ + decimal(pid as int)
                            + " was not initialized successfully, cannot trigger cuprof, state is: Some("@
                            + "Uninitialized"@ + ")"@,
                    ),
                ),
            )
            &&& (state matches Some(s) && s != CollectorState::Uninitialized && s
                != CollectorState::InitSuccess) ==> gate(pid, state) == Trigger::Done(Ok(()))
            &&& entry_of(after.status, pid) == (if state == Some(CollectorState::InitSuccess) {
                Some(CollectorState::Collecting)
            } else {
                state
            })
            &&& after.status.remove(pid) =~= plugin.status.remove(pid)
            &&& after.outputs == plugin.outputs
            &&& after.start_times == plugin.start_times
            &&& after.inside == plugin.inside
        }),
{
}

/// A window goes on by the PID that the target was found to have in its own namespace,
/// and where that could not be found out, it is reported and fails with the reason.
pub proof fn law_a_target_goes_by_the_pid_that_was_found(
    plugin: Plugin,
    window: Window,
    events: Seq<Triggered>,
    container_pid: i32,
    error: Seq<char>,
)
    requires
        trigger_after(plugin, window, events) is Locating,
    ensures
        goes_by(
            trigger_after(plugin, window, events.push(Triggered::OnHost)),
            window.pid,
        ),
        goes_by(
            trigger_after(plugin, window, events.push(Triggered::InContainer(container_pid))),
            container_pid,
        ),
        ({
            let lost = events.push(Triggered::Unresolved(error));
            &&& trigger_action(trigger_after(plugin, window, lost)) == TriggerAction::Report
            &&& trigger_after(plugin, window, lost.push(Triggered::Reported)) == Trigger::Done(
                Err(
                    fault(
                        FailureKind::TriggerCollectorError,
                        "PID "@ + decimal(window.pid as int)
                            + " runs in a container but its namespace-local PID could not be resolved ("@
                            + error
                            + "); refusing to fall back to the host PID, because cuprof inside the target would then never find /tmp/cuprof_<pid>.cfg and would collect with its built-in defaults instead"@,
                    ),
                ),
            )
        }),
{
    let lost = events.push(Triggered::Unresolved(error));
    assert(events.push(Triggered::OnHost).drop_last() =~= events);
    assert(events.push(Triggered::InContainer(container_pid)).drop_last() =~= events);
    assert(lost.drop_last() =~= events);
    assert(lost.push(Triggered::Reported).drop_last() =~= lost);
}

/// A target whose start time is the one that was noted down, or of which none was, has
/// an old trace removed. Any other is reported, and the window fails.
pub proof fn law_a_target_is_looked_at_again(
    plugin: Plugin,
    window: Window,
    events: Seq<Triggered>,
    stat: Option<Seq<char>>,
    container_pid: i32,
)
    requires
        trigger_after(plugin, window, events) == Trigger::Identifying(container_pid),
    ensures
        ({
            let recorded = entry_of(plugin.start_times, window.pid);
            let current = match stat {
                Some(text) => starttime(text),
                None => None,
            };
            let seen = events.push(Triggered::Stat(stat));
            let next = trigger_after(plugin, window, seen);
            if recorded is None || recorded == current {
                goes_by(next, container_pid) && trigger_action(next) == TriggerAction::RemoveStale
            } else {
                &&& trigger_action(next) == TriggerAction::Report
                &&& trigger_after(plugin, window, seen.push(Triggered::Reported))
                    == Trigger::Done(may_write(window.pid, identity(recorded, current)))
            }
        }),
{
    let seen = events.push(Triggered::Stat(stat));
    assert(seen.drop_last() =~= events);
    assert(seen.push(Triggered::Reported).drop_last() =~= seen);
    law_who_may_be_written_into(
        window.pid,
        entry_of(plugin.start_times, window.pid),
        start_in(stat),
    );
}

/// Once the old trace is out of the way the clock is read, and with the time of it the
/// window is launched, for the PID that the target was found to have: from then on its
/// trace is expected, and its inner PID known.
pub proof fn law_a_window_is_launched(
    plugin: Plugin,
    window: Window,
    events: Seq<Triggered>,
    container_pid: i32,
    now: i128,
)
    requires
        trigger_after(plugin, window, events) == Trigger::Clearing(container_pid),
    ensures
        ({
            let cleared = events.push(Triggered::Cleared);
            let stamped = cleared.push(Triggered::Now(now));
            let launched = stamped.push(Triggered::Launched);
            let before = plugin_after_triggers(plugin, window, events);
            let after = plugin_after_triggers(plugin, window, launched);
            &&& trigger_action(trigger_after(plugin, window, cleared)) == TriggerAction::ReadClock
            &&& trigger_after(plugin, window, stamped) == Trigger::Launching(container_pid)
            &&& trigger_after(plugin, window, launched) == Trigger::Done(Ok(()))
            &&& after.outputs == before.outputs.insert(
                window.pid,
                window_output(window, container_pid, now),
            )
            &&& after.inside == before.inside.insert(window.pid, container_pid)
            &&& after.status == before.status
            &&& after.start_times == before.start_times
        }),
{
    let cleared = events.push(Triggered::Cleared);
    let stamped = cleared.push(Triggered::Now(now));
    let launched = stamped.push(Triggered::Launched);
    assert(cleared.drop_last() =~= events);
    assert(stamped.drop_last() =~= cleared);
    assert(launched.drop_last() =~= stamped);
    assert(trigger_after(plugin, window, cleared) == Trigger::Stamping(container_pid));
    assert(trigger_after(plugin, window, stamped) == Trigger::Launching(container_pid));
    assert(plugin_after_triggers(plugin, window, cleared) == plugin_after_triggers(
        plugin,
        window,
        events,
    ));
    assert(plugin_after_triggers(plugin, window, launched) == plugin_after_triggers(
        plugin,
        window,
        stamped,
    ));
}

/// How many actions are left from a phase on, at most.
pub open spec fn triggers_left(phase: Trigger) -> int {
    match phase {
        Trigger::Locating => 5,
        Trigger::Identifying(_) => 4,
        Trigger::Clearing(_) => 3,
        Trigger::Stamping(_) => 2,
        Trigger::Launching(_) => 1,
        Trigger::Reporting(_) => 1,
        Trigger::Done(_) => 0,
    }
}

/// Every event about what is being done leads closer to the end.
pub proof fn law_starting_comes_to_an_end(
    pid: i32,
    recorded: Option<u64>,
    phase: Trigger,
    event: Triggered,
)
    ensures
        ({
            let next = next_trigger(pid, recorded, phase, event);
            if trigger_concerns(event, trigger_action(phase)) {
                0 <= triggers_left(next) < triggers_left(phase)
            } else {
                next == phase
            }
        }),
{
}

// ---- Doing it ----

/// The start of one window.
#[derive(Debug)]
pub struct TriggerRun {
    /// What it is asked for.
    pub plan: WindowPlan,
    /// Where it stands.
    pub phase: TriggerPhase,
}

impl InjectionJob {
    /// The file that cuprof reads what it is told from.
    pub fn config_path(&self) -> (r: String)
        ensures
            r@ == config_file(self.pid, self.container_pid),
    {
        cuprof_config_path(self.pid, self.container_pid)
    }
}

impl WindowPlan {
    /// The directory that the trace goes to.
    pub fn trace_dir(&self, container_pid: i32) -> (r: String)
        ensures
            r@ == trace_dir(self@.output, container_pid),
    {
        match &self.output {
            None => ".".to_owned(),
            Some(dir) => if same_text(dir.as_str(), "default") {
                let mut path = UnixSocketHandler::proc_root(container_pid);
                path.append(DEFAULT_PATH);
                path.append("/");
                path
            } else {
                dir.clone()
            },
        }
    }

    /// What cuprof is told.
    pub fn config(&self) -> (r: CuprofConfig)
        ensures
            r@ == told_config(self@),
    {
        let duration: u64 = self.duration;
        let seconds: u32 = #[verifier::truncate] (duration as u32);
        assert(duration as u32 == duration % 0x1_0000_0000) by (bit_vector);
        CuprofConfig {
            output: cuprof_trace_inside(self.pid),
            duration_sec: seconds,
            verbose: self.verbose,
            socket_path: cuprof_socket_inside(self.pid),
        }
    }

    /// Where the trace is fetched from and goes to, for a window that starts now.
    pub fn output_paths(&self, container_pid: i32, now: i128) -> (r: OutputPaths)
        ensures
            r@ == window_output(self@, container_pid, now),
    {
        let mut local = self.trace_dir(container_pid);
        local.append("/");
        local.append(cuprof_trace_name(self.pid).as_str());
        OutputPaths { host: cuprof_trace_outside(self.pid), local, trigger_start: now }
    }
}

impl TriggerRun {
    /// What is to be done next.
    pub fn action(&self) -> (r: TriggerAction)
        ensures
            r == trigger_action(self.phase@),
    {
        match &self.phase {
            TriggerPhase::Locating => TriggerAction::Locate,
            TriggerPhase::Identifying(_) => TriggerAction::ReadStat,
            TriggerPhase::Clearing(_) => TriggerAction::RemoveStale,
            TriggerPhase::Stamping(_) => TriggerAction::ReadClock,
            TriggerPhase::Launching(_) => TriggerAction::Launch,
            TriggerPhase::Reporting(_) => TriggerAction::Report,
            TriggerPhase::Done(_) => TriggerAction::Finish,
        }
    }

    /// The trace that an earlier window may have left.
    pub fn stale_trace(&self) -> (r: String)
        ensures
            r@ == trace_outside(self.plan.pid),
    {
        cuprof_trace_outside(self.plan.pid)
    }

    /// What it takes to inject the library, once it is time to.
    pub fn job(&self) -> (r: Option<InjectionJob>)
        ensures
            match self.phase@ {
                Trigger::Launching(c) => r matches Some(job) && job.pid == self.plan.pid
                    && job.container_pid == c && job.config@ == told_config(self.plan@)
                    && job.output@ == trace_dir(self.plan@.output, c),
                _ => r is None,
            },
    {
        match &self.phase {
            TriggerPhase::Launching(container_pid) => Some(
                InjectionJob {
                    pid: self.plan.pid,
                    container_pid: *container_pid,
                    config: self.plan.config(),
                    output: self.plan.trace_dir(*container_pid),
                },
            ),
            _ => None,
        }
    }
}

impl CUPTIPluginWrapper {
    /// Begins to start a window. `verbose` is the variable `AIPROF_CUPTI_VERBOSE`.
    pub fn custom_trigger(&mut self, args: ProfileArgs, verbose: Option<&str>) -> (r: TriggerRun)
        ensures
            r.plan@ == (Window {
                pid: args.target_pid,
                output: maybe(args.output),
                duration: args.duration,
                verbose: switches_on(lower(setting(verbose))),
            }),
            r.phase@ == gate(args.target_pid, entry_of(old(self)@.status, args.target_pid)),
            final(self)@ == plugin_after_gate(old(self)@, args.target_pid),
    {
        let pid: i32 = args.target_pid;
        let phase = match self.state_of(pid) {
            None => {
                let mut message = "PID ".to_owned();
                push_decimal(&mut message, pid);
                message.append(" not found in status map");
                TriggerPhase::Done(Err(Failure::of(FailureKind::TriggerCollectorError, message)))
            },
            Some(CollectorState::Uninitialized) => {
                let mut message = "Collector for PID ".to_owned();
                push_decimal(&mut message, pid);
                message.append(
                    " was not initialized successfully, cannot trigger cuprof, state is: Some(",
                );
                message.append(CollectorState::Uninitialized.name());
                message.append(")");
                TriggerPhase::Done(Err(Failure::of(FailureKind::TriggerCollectorError, message)))
            },
            Some(CollectorState::InitSuccess) => {
                self.set_state(pid, CollectorState::Collecting);
                TriggerPhase::Locating
            },
            Some(_) => TriggerPhase::Done(Ok(())),
        };
        TriggerRun {
            plan: WindowPlan {
                pid,
                output: args.output,
                duration: args.duration,
                verbose: cuprof_verbose_from_env(verbose),
            },
            phase,
        }
    }

    /// Takes in how the last action went.
    pub fn trigger_step(&mut self, run: TriggerRun, event: TriggerEvent) -> (r: TriggerRun)
        ensures
            r.plan@ == run.plan@,
            r.phase@ == next_trigger(
                run.plan.pid,
                entry_of(old(self)@.start_times, run.plan.pid),
                run.phase@,
                event@,
            ),
            final(self)@ == plugin_after_trigger(old(self)@, run.plan@, run.phase@, event@),
    {
        let TriggerRun { plan, phase } = run;
        let pid: i32 = plan.pid;
        let phase = match (phase, event) {
            (TriggerPhase::Locating, TriggerEvent::OnHost) => TriggerPhase::Identifying(pid),
            (TriggerPhase::Locating, TriggerEvent::InContainer(c)) => TriggerPhase::Identifying(c),
            (TriggerPhase::Locating, TriggerEvent::Unresolved(error)) => {
                let mut message = "PID ".to_owned();
                push_decimal(&mut message, pid);
                message.append(
                    " runs in a container but its namespace-local PID could not be resolved (",
                );
                message.append(error.as_str());
                message.append(
                    "); refusing to fall back to the host PID, because cuprof inside the target would then never find /tmp/cuprof_<pid>.cfg and would collect with its built-in defaults instead",
                );
                TriggerPhase::Reporting(Failure::of(FailureKind::TriggerCollectorError, message))
            },
            (TriggerPhase::Identifying(c), TriggerEvent::Stat(stat)) => {
                let current = match &stat {
                    Some(text) => parse_proc_starttime(text.as_str()),
                    None => None,
                };
                match self.check_pid_identity(pid, current) {
                    Ok(_) => TriggerPhase::Clearing(c),
                    Err(failure) => TriggerPhase::Reporting(failure),
                }
            },
            (TriggerPhase::Clearing(c), TriggerEvent::Cleared) => TriggerPhase::Stamping(c),
            (TriggerPhase::Stamping(c), TriggerEvent::Now(now)) => {
                self.put_output(pid, plan.output_paths(c, now));
                self.set_inside(pid, c);
                TriggerPhase::Launching(c)
            },
            (TriggerPhase::Launching(_), TriggerEvent::Launched) => TriggerPhase::Done(Ok(())),
            (TriggerPhase::Reporting(failure), TriggerEvent::Reported) => TriggerPhase::Done(
                Err(failure),
            ),
            (other, _) => other,
        };
        TriggerRun { plan, phase }
    }
}

} // verus!
