//! Getting a target ready: the library is found, and copied into it.

use crate::cupti_plugin_wrapper::{CUPTIPluginWrapper, CollectorState, Plugin, ProfileArgs};
use crate::failures::{fault, fault_from, outcome, Failure, FailureKind, Fault};
use crate::numbers::{decimal, push_decimal};
use crate::process::{
    cuprof_module, cuprof_resident, library_path, maps_show, parse_proc_starttime, starttime,
};
use crate::text::{begins_with, maybe, maybe_str, strip_prefixes, stripped, texts, told};
use crate::unix_handler::{root_of, UnixSocketHandler};
use vstd::prelude::*;

verus! {

/// Where the library may be, with `path` the one that is set up and `agent_dir`
/// the directory of the agent, in the order in which it is looked for.
pub open spec fn library_places(path: Seq<char>, agent_dir: Option<Seq<char>>) -> Seq<Seq<char>> {
    let relative = stripped(path, "/"@);
    seq!["./libcuprof.so"@] + (match agent_dir {
        Some(dir) => seq![dir + path],
        None => Seq::empty(),
    }) + seq!["./"@ + relative, relative] + (if "/"@.is_prefix_of(path) {
        seq![path]
    } else {
        Seq::empty()
    })
}

/// Where the library is copied to, as seen from outside the container.
pub open spec fn library_target(pid: i32) -> Seq<char> {
    root_of(pid) + library_path(pid)
}

/// Why a target that has the library mapped is refused.
pub open spec fn already_mapped(pid: i32) -> Fault {
    fault(
        FailureKind::InjectFailed,
        "PID "@ + decimal(pid as int) + " already has "@ + library_path(pid)
            + " mapped, so it cannot be collected from again: restart the target or collect from a fresh process. libcuprof.so is linked `-z nodelete` and cannot be unmapped, and InitializeInjection() cannot run twice in one process"@,
    )
}

/// How the formatting `{:?}` of the standard library writes a list of texts.
pub uninterp spec fn listed_for_people(list: Seq<Seq<char>>) -> Seq<char>;

/// The formatting `{:?}` of `Vec<String>`: some text that the strings decide. How
/// it escapes what is in them is left unsaid.
#[verifier::external_body]
fn list_for_people(list: &Vec<String>) -> (r: String)
    ensures
        r@ == listed_for_people(texts(list@)),
{
    format!("{:?}", list)
}

/// Why a target is refused where there is no library to inject. `places` is where
/// it was looked for, in words.
pub open spec fn library_missing(places: Seq<char>) -> Fault {
    fault(
        FailureKind::CuptiPluginError,
        "cuprof library not found in any of these paths: "@ + places,
    )
}

/// Why a target is refused where the library could not be copied.
pub open spec fn library_not_copied(error: Seq<char>) -> Fault {
    fault_from("Failed to copy cuprof library to target process"@, error)
}

/// Where the initialisation of a target stands.
#[derive(Debug)]
pub enum InitPhase {
    /// About to read what the target has mapped.
    Checking,
    /// About to look whether the library is at the place of this number.
    Searching(usize),
    /// About to read the start time of the target; the library is here.
    Timing(String),
    /// About to copy the library from here.
    Copying(String),
    /// About to stage a runtime for the library, which is here.
    Staging(String),
    /// It is over.
    Done(Result<(), Failure>),
}

/// What an [`InitPhase`] says.
pub enum Init {
    Checking,
    Searching(usize),
    Timing(Seq<char>),
    Copying(Seq<char>),
    Staging(Seq<char>),
    Done(Result<(), Fault>),
}

impl View for InitPhase {
    type V = Init;

    open spec fn view(&self) -> Init {
        match *self {
            InitPhase::Checking => Init::Checking,
            InitPhase::Searching(next) => Init::Searching(next),
            InitPhase::Timing(library) => Init::Timing(library@),
            InitPhase::Copying(library) => Init::Copying(library@),
            InitPhase::Staging(library) => Init::Staging(library@),
            InitPhase::Done(r) => Init::Done(outcome(r)),
        }
    }
}

/// What is to be done to get a target ready.
#[derive(Clone, Copy, Debug, PartialEq, Eq, Structural)]
pub enum InitAction {
    /// Read `/proc/<pid>/maps`.
    ReadMaps,
    /// Look whether the library is at a place.
    CheckExists,
    /// Read `/proc/<pid>/stat`.
    ReadStat,
    /// Copy the library into the target.
    CopyLibrary,
    /// Stage a runtime next to it.
    StageRuntime,
    /// Nothing more.
    Finish,
}

/// How that went.
#[derive(Debug)]
pub enum InitEvent {
    /// The text of `/proc/<pid>/maps`, where it could be read.
    Maps(Option<String>),
    /// Whether the library is there.
    Exists(bool),
    /// The text of `/proc/<pid>/stat`, where it could be read.
    Stat(Option<String>),
    /// The library was copied, or this went wrong.
    Copied(Result<(), String>),
    /// A runtime was staged, or none was: the target may have its own.
    Staged,
}

/// What an [`InitEvent`] says.
pub enum Inited {
    Maps(Option<Seq<char>>),
    Exists(bool),
    Stat(Option<Seq<char>>),
    Copied(Result<(), Seq<char>>),
    Staged,
}

impl View for InitEvent {
    type V = Inited;

    open spec fn view(&self) -> Inited {
        match *self {
            InitEvent::Maps(maps) => Inited::Maps(maybe(maps)),
            InitEvent::Exists(there) => Inited::Exists(there),
            InitEvent::Stat(stat) => Inited::Stat(maybe(stat)),
            InitEvent::Copied(r) => Inited::Copied(told(r)),
            InitEvent::Staged => Inited::Staged,
        }
    }
}

/// What each phase is about to do.
pub open spec fn init_action(phase: Init) -> InitAction {
    match phase {
        Init::Checking => InitAction::ReadMaps,
        Init::Searching(_) => InitAction::CheckExists,
        Init::Timing(_) => InitAction::ReadStat,
        Init::Copying(_) => InitAction::CopyLibrary,
        Init::Staging(_) => InitAction::StageRuntime,
        Init::Done(_) => InitAction::Finish,
    }
}

/// Whether an event is about the action.
pub open spec fn init_concerns(event: Inited, action: InitAction) -> bool {
    match action {
        InitAction::ReadMaps => event is Maps,
        InitAction::CheckExists => event is Exists,
        InitAction::ReadStat => event is Stat,
        InitAction::CopyLibrary => event is Copied,
        InitAction::StageRuntime => event is Staged,
        InitAction::Finish => false,
    }
}

/// Goes on with the place number `next`, if there is one.
pub open spec fn seek(places: Seq<Seq<char>>, next: int) -> Init {
    if next < places.len() {
        Init::Searching(next as usize)
    } else {
        Init::Done(Err(library_missing(listed_for_people(places))))
    }
}

/// Whether `maps` shows the library mapped in `pid`.
pub open spec fn shows_library(maps: Option<Seq<char>>, pid: i32) -> bool {
    match maps {
        Some(text) => maps_show(text, library_path(pid)),
        None => false,
    }
}

/// The phase that follows `phase` on `event`. An event that is not about what the
/// phase is about to do changes nothing.
pub open spec fn next_init(pid: i32, places: Seq<Seq<char>>, phase: Init, event: Inited) -> Init {
    match (phase, event) {
        (Init::Checking, Inited::Maps(maps)) => if shows_library(maps, pid) {
            Init::Done(Err(already_mapped(pid)))
        } else {
            seek(places, 0)
        },
        (Init::Searching(next), Inited::Exists(there)) => if there && next < places.len() {
            Init::Timing(places[next as int])
        } else {
            seek(places, next + 1)
        },
        (Init::Timing(library), Inited::Stat(_)) => Init::Copying(library),
        (Init::Copying(library), Inited::Copied(r)) => match r {
            Ok(_) => Init::Staging(library),
            Err(error) => Init::Done(Err(library_not_copied(error))),
        },
        (Init::Staging(_), Inited::Staged) => Init::Done(Ok(())),
        _ => phase,
    }
}

/// What the collector knows after `event` in `phase`: a start time that was read,
/// and in the end that the target is ready.
pub open spec fn plugin_after_init(
    plugin: Plugin,
    pid: i32,
    phase: Init,
    event: Inited,
) -> Plugin {
    match (phase, event) {
        (Init::Timing(_), Inited::Stat(Some(stat))) => match starttime(stat) {
            Some(start) => Plugin {
                start_times: plugin.start_times.insert(pid, start),
                ..plugin
            },
            None => plugin,
        },
        (Init::Staging(_), Inited::Staged) => Plugin {
            status: plugin.status.insert(pid, CollectorState::InitSuccess),
            ..plugin
        },
        _ => plugin,
    }
}

/// The phase after a run of events, from the beginning.
pub open spec fn init_after(pid: i32, places: Seq<Seq<char>>, events: Seq<Inited>) -> Init
    decreases events.len(),
{
    if events.len() == 0 {
        Init::Checking
    } else {
        next_init(pid, places, init_after(pid, places, events.drop_last()), events.last())
    }
}

/// What the collector knows after a run of events, from the beginning.
pub open spec fn plugin_after_inits(
    plugin: Plugin,
    pid: i32,
    places: Seq<Seq<char>>,
    events: Seq<Inited>,
) -> Plugin
    decreases events.len(),
{
    if events.len() == 0 {
        plugin
    } else {
        let shorter = events.drop_last();
        plugin_after_init(
            plugin_after_inits(plugin, pid, places, shorter),
            pid,
            init_after(pid, places, shorter),
            events.last(),
        )
    }
}

/// Whether a phase comes after the check of what the target has mapped.
pub open spec fn past_check(phase: Init) -> bool {
    match phase {
        Init::Checking => false,
        Init::Done(r) => r is Ok,
        _ => true,
    }
}

/// Whether a phase comes after the start time was asked for.
pub open spec fn past_timing(phase: Init) -> bool {
    match phase {
        Init::Copying(_) => true,
        Init::Staging(_) => true,
        Init::Done(r) => r is Ok,
        _ => false,
    }
}

/// Whether an event is a listing that does not show the library.
pub open spec fn clears_target(event: Inited, pid: i32) -> bool {
    match event {
        Inited::Maps(maps) => !shows_library(maps, pid),
        _ => false,
    }
}

proof fn lemma_checked_first(pid: i32, places: Seq<Seq<char>>, events: Seq<Inited>)
    requires
        past_check(init_after(pid, places, events)),
    ensures
        exists|k: int| 0 <= k < events.len() && clears_target(#[trigger] events[k], pid),
    decreases events.len(),
{
    let shorter = events.drop_last();
    if past_check(init_after(pid, places, shorter)) {
        lemma_checked_first(pid, places, shorter);
        let k = choose|k: int| 0 <= k < shorter.len() && clears_target(#[trigger] shorter[k], pid);
        assert(events[k] == shorter[k]);
    } else {
        assert(clears_target(events[events.len() - 1], pid));
    }
}

proof fn lemma_timed_first(pid: i32, places: Seq<Seq<char>>, events: Seq<Inited>)
    requires
        past_timing(init_after(pid, places, events)),
    ensures
        exists|k: int| 0 <= k < events.len() && #[trigger] events[k] is Stat,
    decreases events.len(),
{
    let shorter = events.drop_last();
    if past_timing(init_after(pid, places, shorter)) {
        lemma_timed_first(pid, places, shorter);
        let k = choose|k: int| 0 <= k < shorter.len() && #[trigger] shorter[k] is Stat;
        assert(events[k] == shorter[k]);
    } else {
        assert(events[events.len() - 1] is Stat);
    }
}

/// Nothing is written into a target before it was found not to have the library
/// mapped, and before its start time was asked for: a run that is about to copy
/// the library, or to stage a runtime, holds both.
pub proof fn law_nothing_is_written_before_the_checks(
    pid: i32,
    places: Seq<Seq<char>>,
    events: Seq<Inited>,
)
    requires
        init_action(init_after(pid, places, events)) is CopyLibrary || init_action(
            init_after(pid, places, events),
        ) is StageRuntime,
    ensures
        exists|k: int| 0 <= k < events.len() && clears_target(#[trigger] events[k], pid),
        exists|k: int| 0 <= k < events.len() && #[trigger] events[k] is Stat,
{
    lemma_checked_first(pid, places, events);
    lemma_timed_first(pid, places, events);
}

/// A target that has the library mapped is refused for good, and the collector
/// learns nothing of it.
pub proof fn law_resident_targets_are_refused(
    plugin: Plugin,
    pid: i32,
    places: Seq<Seq<char>>,
    maps: Seq<char>,
    events: Seq<Inited>,
)
    requires
        maps_show(maps, library_path(pid)),
        events.len() > 0,
        events[0] == Inited::Maps(Some(maps)),
    ensures
        init_after(pid, places, events) == Init::Done(Err(already_mapped(pid))),
        plugin_after_inits(plugin, pid, places, events) == plugin,
    decreases events.len(),
{
    let shorter = events.drop_last();
    if events.len() > 1 {
        assert(shorter[0] == events[0]);
        law_resident_targets_are_refused(plugin, pid, places, maps, shorter);
    } else {
        assert(init_after(pid, places, shorter) == Init::Checking);
        assert(plugin_after_inits(plugin, pid, places, shorter) == plugin);
    }
}

/// A target is ready exactly when its initialisation ended well, and what is known
/// of other targets stays as it is.
pub proof fn law_a_target_is_ready_when_initialisation_succeeds(
    plugin: Plugin,
    pid: i32,
    places: Seq<Seq<char>>,
    events: Seq<Inited>,
)
    ensures
        ({
            let after = plugin_after_inits(plugin, pid, places, events);
            let done = init_after(pid, places, events) matches Init::Done(r) && r is Ok;
            &&& after.status == (if done {
                plugin.status.insert(pid, CollectorState::InitSuccess)
            } else {
                plugin.status
            })
            &&& after.outputs == plugin.outputs
            &&& after.path == plugin.path
            &&& after.inside == plugin.inside
            &&& after.start_times.remove(pid) =~= plugin.start_times.remove(pid)
        }),
    decreases events.len(),
{
    if events.len() > 0 {
        law_a_target_is_ready_when_initialisation_succeeds(
            plugin,
            pid,
            places,
            events.drop_last(),
        );
    }
}

/// How many places were found empty in a run of events.
pub open spec fn places_missed(pid: i32, places: Seq<Seq<char>>, events: Seq<Inited>) -> nat
    decreases events.len(),
{
    if events.len() == 0 {
        0
    } else {
        let shorter = events.drop_last();
        places_missed(pid, places, shorter) + (if init_after(pid, places, shorter) is Searching
            && events.last() == Inited::Exists(false) {
            1nat
        } else {
            0nat
        })
    }
}

/// The library is taken from the first place that has it: in every run, the one that
/// is being copied, or that a runtime is staged for, is at the place after all those
/// that were found empty, and the search is for that place.
pub proof fn law_the_first_library_found_is_copied(
    pid: i32,
    places: Seq<Seq<char>>,
    events: Seq<Inited>,
)
    requires
        places.len() <= usize::MAX,
    ensures
        ({
            let missed = places_missed(pid, places, events);
            match init_after(pid, places, events) {
                Init::Checking => missed == 0,
                Init::Searching(next) => missed == next && next < places.len(),
                Init::Timing(library) => missed < places.len() && library
                    == places[missed as int],
                Init::Copying(library) => missed < places.len() && library
                    == places[missed as int],
                Init::Staging(library) => missed < places.len() && library
                    == places[missed as int],
                Init::Done(r) => r is Ok ==> missed < places.len(),
            }
        }),
    decreases events.len(),
{
    if events.len() > 0 {
        law_the_first_library_found_is_copied(pid, places, events.drop_last());
    }
}

/// A listing of what the target has mapped, and then `k` places that are empty.
pub open spec fn search(maps: Option<Seq<char>>, k: nat) -> Seq<Inited> {
    seq![Inited::Maps(maps)] + Seq::new(k, |i: int| Inited::Exists(false))
}

proof fn lemma_search(
    plugin: Plugin,
    pid: i32,
    places: Seq<Seq<char>>,
    maps: Option<Seq<char>>,
    k: nat,
)
    requires
        !shows_library(maps, pid),
        k <= places.len() <= usize::MAX,
    ensures
        init_after(pid, places, search(maps, k)) == seek(places, k as int),
        plugin_after_inits(plugin, pid, places, search(maps, k)) == plugin,
    decreases k,
{
    let events = search(maps, k);
    let shorter = events.drop_last();
    if k == 0 {
        assert(shorter =~= Seq::empty());
        assert(init_after(pid, places, shorter) == Init::Checking);
        assert(plugin_after_inits(plugin, pid, places, shorter) == plugin);
        assert(events.last() == Inited::Maps(maps));
    } else {
        assert(shorter =~= search(maps, (k - 1) as nat));
        lemma_search(plugin, pid, places, maps, (k - 1) as nat);
        assert(events.last() == Inited::Exists(false));
    }
}

/// After a listing that does not show the library, and `k` places that are empty, a
/// place that has the library is the one that it is copied from. Until then the
/// collector learns the start time of the target, and nothing else.
pub proof fn law_a_library_that_is_there_is_copied(
    plugin: Plugin,
    pid: i32,
    places: Seq<Seq<char>>,
    maps: Option<Seq<char>>,
    k: nat,
    stat: Option<Seq<char>>,
)
    requires
        !shows_library(maps, pid),
        k < places.len() <= usize::MAX,
    ensures
        init_after(
            pid,
            places,
            search(maps, k).push(Inited::Exists(true)).push(Inited::Stat(stat)),
        ) == Init::Copying(places[k as int]),
        plugin_after_inits(
            plugin,
            pid,
            places,
            search(maps, k).push(Inited::Exists(true)).push(Inited::Stat(stat)),
        ) == plugin_after_init(
            plugin,
            pid,
            Init::Timing(places[k as int]),
            Inited::Stat(stat),
        ),
{
    let found = search(maps, k).push(Inited::Exists(true));
    lemma_search(plugin, pid, places, maps, k);
    assert(found.drop_last() =~= search(maps, k));
    assert(found.push(Inited::Stat(stat)).drop_last() =~= found);
    assert(init_after(pid, places, found) == Init::Timing(places[k as int]));
    assert(plugin_after_inits(plugin, pid, places, found) == plugin);
}

/// Where every place is empty the search ends in a failure that names them all, and
/// for good: whatever happens afterwards, the collector has learnt nothing.
pub proof fn law_a_library_that_is_nowhere_is_reported(
    plugin: Plugin,
    pid: i32,
    places: Seq<Seq<char>>,
    maps: Option<Seq<char>>,
    more: Seq<Inited>,
)
    requires
        !shows_library(maps, pid),
        places.len() <= usize::MAX,
    ensures
        init_after(pid, places, search(maps, places.len()) + more) == Init::Done(
            Err(library_missing(listed_for_people(places))),
        ),
        plugin_after_inits(plugin, pid, places, search(maps, places.len()) + more) == plugin,
    decreases more.len(),
{
    let events = search(maps, places.len()) + more;
    if more.len() == 0 {
        assert(events =~= search(maps, places.len()));
        lemma_search(plugin, pid, places, maps, places.len());
    } else {
        assert(events.drop_last() =~= search(maps, places.len()) + more.drop_last());
        law_a_library_that_is_nowhere_is_reported(plugin, pid, places, maps, more.drop_last());
    }
}

/// Phases and events of an initialisation say what they hold.
pub proof fn law_initialisations_say_what_they_hold(phase: InitPhase, event: InitEvent)
    ensures
        match phase {
            InitPhase::Checking => phase@ is Checking,
            InitPhase::Searching(next) => phase@ == Init::Searching(next),
            InitPhase::Timing(library) => phase@ == Init::Timing(library@),
            InitPhase::Copying(library) => phase@ == Init::Copying(library@),
            InitPhase::Staging(library) => phase@ == Init::Staging(library@),
            InitPhase::Done(r) => phase@ == Init::Done(outcome(r)),
        },
        match event {
            InitEvent::Maps(Some(maps)) => event@ == Inited::Maps(Some(maps@)),
            InitEvent::Maps(None) => event@ == Inited::Maps(None),
            InitEvent::Exists(there) => event@ == Inited::Exists(there),
            InitEvent::Stat(Some(stat)) => event@ == Inited::Stat(Some(stat@)),
            InitEvent::Stat(None) => event@ == Inited::Stat(None),
            InitEvent::Copied(Ok(_)) => event@ matches Inited::Copied(r) && r is Ok,
            InitEvent::Copied(Err(error)) => event@ == Inited::Copied(Err(error@)),
            InitEvent::Staged => event@ is Staged,
        },
{
}

/// Where the library is looked for, and in which order: in the current directory, next
/// to the agent where that is known, then under the configured path without the
/// slashes that it begins with, and last, where it begins with one, under the
/// configured path itself.
pub proof fn law_where_the_library_is_looked_for(path: Seq<char>, agent_dir: Option<Seq<char>>)
    ensures
        ({
            let places = library_places(path, agent_dir);
            let n: int = if agent_dir is Some {
                2
            } else {
                1
            };
            let rooted = path.len() > 0 && path[0] == '/';
            &&& places.len() == n + (if rooted {
                3int
            } else {
                2int
            })
            &&& places[0] == "./libcuprof.so"@
            &&& agent_dir matches Some(dir) ==> places[1] == dir + path
            &&& places[n] == "./"@ + stripped(path, "/"@)
            &&& places[n + 1] == stripped(path, "/"@)
            &&& rooted ==> places[n + 2] == path
        }),
{
    reveal_strlit("/");
    assert("/"@ =~= seq!['/']);
    if path.len() > 0 {
        assert(path.subrange(0, 1) =~= seq![path[0]]);
        assert(seq![path[0]][0] == path[0]);
        assert("/"@[0] == '/');
        assert("/"@.is_prefix_of(path) <==> path[0] == '/');
    }
}

/// Where the library is put, and what shows that it is there already.
pub proof fn law_where_the_library_is_put(pid: i32, maps: Option<Seq<char>>)
    ensures
        library_target(pid) == "/proc/"@ + decimal(pid as int) + "/root"@ + (
        "/tmp/cf_loader_cupti_"@ + decimal(pid as int) + ".so"@),
        shows_library(maps, pid) <==> maps is Some && maps_show(
            maps->0,
            "/tmp/cf_loader_cupti_"@ + decimal(pid as int) + ".so"@,
        ),
{
}

/// What a target is refused for, in words.
pub proof fn law_what_a_refused_target_is_told(pid: i32, places: Seq<char>)
    ensures
        already_mapped(pid) == fault(
            FailureKind::InjectFailed,
            "PID "@ + decimal(pid as int) + " already has "@ + ("/tmp/cf_loader_cupti_"@ + decimal(
                pid as int,
            ) + ".so"@)
                + " mapped, so it cannot be collected from again: restart the target or collect from a fresh process. libcuprof.so is linked `-z nodelete` and cannot be unmapped, and InitializeInjection() cannot run twice in one process"@,
        ),
        library_missing(places) == fault(
            FailureKind::CuptiPluginError,
            "cuprof library not found in any of these paths: "@ + places,
        ),
{
}

/// How an initialisation ends: with a library that could not be copied in a failure
/// that has the error, and with one that was copied well, once a runtime was staged or
/// was not.
pub proof fn law_how_an_initialisation_ends(
    plugin: Plugin,
    pid: i32,
    places: Seq<Seq<char>>,
    events: Seq<Inited>,
    error: Seq<char>,
)
    requires
        init_after(pid, places, events) is Copying,
    ensures
        ({
            let failed = events.push(Inited::Copied(Err(error)));
            let copied = events.push(Inited::Copied(Ok(())));
            let staged = copied.push(Inited::Staged);
            &&& init_after(pid, places, failed) == Init::Done(
                Err(fault_from("Failed to copy cuprof library to target process"@, error)),
            )
            &&& init_action(init_after(pid, places, copied)) == InitAction::StageRuntime
            &&& init_after(pid, places, staged) == Init::Done(Ok(()))
            &&& plugin_after_inits(plugin, pid, places, staged).status == plugin.status.insert(
                pid,
                CollectorState::InitSuccess,
            )
        }),
{
    let failed = events.push(Inited::Copied(Err(error)));
    let copied = events.push(Inited::Copied(Ok(())));
    let staged = copied.push(Inited::Staged);
    assert(failed.drop_last() =~= events);
    assert(copied.drop_last() =~= events);
    assert(staged.drop_last() =~= copied);
    law_a_target_is_ready_when_initialisation_succeeds(plugin, pid, places, staged);
}

/// The start time of a target is noted down as it was read, whatever it is, when it is
/// asked for and at no other time.
pub proof fn law_the_start_time_is_noted_down(
    plugin: Plugin,
    pid: i32,
    places: Seq<Seq<char>>,
    events: Seq<Inited>,
    event: Inited,
)
    ensures
        ({
            let before = plugin_after_inits(plugin, pid, places, events).start_times;
            let after = plugin_after_inits(plugin, pid, places, events.push(event)).start_times;
            let read = match event {
                Inited::Stat(Some(stat)) => starttime(stat),
                _ => None,
            };
            if init_after(pid, places, events) is Timing && read is Some {
                after == before.insert(pid, read->0)
            } else {
                after == before
            }
        }),
{
    assert(events.push(event).drop_last() =~= events);
}

/// How many actions are left from a phase on, at most.
pub open spec fn inits_left(places: Seq<Seq<char>>, phase: Init) -> int {
    match phase {
        Init::Checking => places.len() as int + 4,
        Init::Searching(next) => if next < places.len() {
            places.len() - next + 3
        } else {
            4
        },
        Init::Timing(_) => 3,
        Init::Copying(_) => 2,
        Init::Staging(_) => 1,
        Init::Done(_) => 0,
    }
}

/// Every event about what is being done leads closer to the end.
pub proof fn law_initialisation_comes_to_an_end(
    pid: i32,
    places: Seq<Seq<char>>,
    phase: Init,
    event: Inited,
)
    requires
        places.len() <= usize::MAX,
    ensures
        init_concerns(event, init_action(phase)) ==> 0 <= inits_left(
            places,
            next_init(pid, places, phase, event),
        ) < inits_left(places, phase),
        !init_concerns(event, init_action(phase)) ==> next_init(pid, places, phase, event)
            == phase,
{
}

/// The initialisation of one target.
#[derive(Debug)]
pub struct InitRun {
    /// The target.
    pub pid: i32,
    /// Where the library may be.
    pub places: Vec<String>,
    /// Where it stands.
    pub phase: InitPhase,
}

impl InitRun {
    /// What is to be done next.
    pub fn action(&self) -> (r: InitAction)
        ensures
            r == init_action(self.phase@),
    {
        match &self.phase {
            InitPhase::Checking => InitAction::ReadMaps,
            InitPhase::Searching(_) => InitAction::CheckExists,
            InitPhase::Timing(_) => InitAction::ReadStat,
            InitPhase::Copying(_) => InitAction::CopyLibrary,
            InitPhase::Staging(_) => InitAction::StageRuntime,
            InitPhase::Done(_) => InitAction::Finish,
        }
    }

    /// Where the library is copied to, as seen from outside the container.
    pub fn target_path(&self) -> (r: String)
        ensures
            r@ == library_target(self.pid),
    {
        let mut path = UnixSocketHandler::proc_root(self.pid);
        path.append(cuprof_module(self.pid).as_str());
        path
    }
}

/// The failure of a search that found no library. `places` is where it was looked
/// for, in words.
pub fn library_not_found(places: &str) -> (r: Failure)
    ensures
        r@ == library_missing(places@),
{
    let mut message = "cuprof library not found in any of these paths: ".to_owned();
    message.append(places);
    Failure::of(FailureKind::CuptiPluginError, message)
}

fn look_for_library(places: &Vec<String>, next: usize) -> (r: InitPhase)
    ensures
        r@ == seek(texts(places@), next as int),
{
    if next < places.len() {
        InitPhase::Searching(next)
    } else {
        InitPhase::Done(Err(library_not_found(list_for_people(places).as_str())))
    }
}

/// Where the library may be, in the order in which it is looked for.
pub fn library_candidates(path: &str, agent_dir: Option<&str>) -> (r: Vec<String>)
    ensures
        texts(r@) == library_places(path@, maybe_str(agent_dir)),
{
    let mut places: Vec<String> = Vec::new();
    places.push("./libcuprof.so".to_owned());
    if let Some(dir) = agent_dir {
        let mut beside = dir.to_owned();
        beside.append(path);
        places.push(beside);
    }
    let relative: &str = strip_prefixes(path, "/");
    let mut here = "./".to_owned();
    here.append(relative);
    places.push(here);
    places.push(relative.to_owned());
    if begins_with(path, "/") {
        places.push(path.to_owned());
    }
    assert(texts(places@) =~= library_places(path@, maybe_str(agent_dir)));
    places
}

impl CUPTIPluginWrapper {
    /// Begins to get a target ready. `agent_dir` is the directory of the agent,
    /// where it is known.
    pub fn custom_init(&self, args: &ProfileArgs, agent_dir: Option<&str>) -> (r: InitRun)
        ensures
            r.pid == args.target_pid,
            texts(r.places@) == library_places(self@.path, maybe_str(agent_dir)),
            r.phase@ == Init::Checking,
    {
        InitRun {
            pid: args.target_pid,
            places: library_candidates(self.path(), agent_dir),
            phase: InitPhase::Checking,
        }
    }

    /// Takes in how the last action went.
    pub fn init_step(&mut self, run: InitRun, event: InitEvent) -> (r: InitRun)
        ensures
            r.pid == run.pid,
            r.places@ == run.places@,
            r.phase@ == next_init(run.pid, texts(run.places@), run.phase@, event@),
            final(self)@ == plugin_after_init(old(self)@, run.pid, run.phase@, event@),
    {
        let InitRun { pid, places, phase } = run;
        let phase = match (phase, event) {
            (InitPhase::Checking, InitEvent::Maps(maps)) => {
                let resident = match &maps {
                    Some(text) => cuprof_resident(pid, Some(text.as_str())),
                    None => None,
                };
                match resident {
                    Some(module) => {
                        let mut message = "PID ".to_owned();
                        push_decimal(&mut message, pid);
                        message.append(" already has ");
                        message.append(module.as_str());
                        message.append(
                            " mapped, so it cannot be collected from again: restart the target or collect from a fresh process. libcuprof.so is linked `-z nodelete` and cannot be unmapped, and InitializeInjection() cannot run twice in one process",
                        );
                        InitPhase::Done(Err(Failure::of(FailureKind::InjectFailed, message)))
                    },
                    None => look_for_library(&places, 0),
                }
            },
            (InitPhase::Searching(next), InitEvent::Exists(there)) => if next < places.len() {
                if there {
                    assert(texts(places@)[next as int] == places@[next as int]@);
                    InitPhase::Timing(places[next].clone())
                } else {
                    look_for_library(&places, next + 1)
                }
            } else {
                look_for_library(&places, next)
            },
            (InitPhase::Timing(library), InitEvent::Stat(stat)) => {
                if let Some(text) = &stat {
                    if let Some(start) = parse_proc_starttime(text.as_str()) {
                        self.set_start_time(pid, start);
                    }
                }
                InitPhase::Copying(library)
            },
            (InitPhase::Copying(library), InitEvent::Copied(r)) => match r {
                Ok(_) => InitPhase::Staging(library),
                Err(error) => InitPhase::Done(
                    Err(
                        Failure::from_error(
                            "Failed to copy cuprof library to target process".to_owned(),
                            error,
                        ),
                    ),
                ),
            },
            (InitPhase::Staging(_), InitEvent::Staged) => {
                self.set_state(pid, CollectorState::InitSuccess);
                InitPhase::Done(Ok(()))
            },
            (other, _) => other,
        };
        InitRun { pid, places, phase }
    }
}

} // verus!
