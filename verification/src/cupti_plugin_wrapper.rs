//! The collector of GPU kernel traces: what it knows about each of its targets.

use crate::cuprof::{config_file, cuprof_config_path};
use crate::failures::{fault, outcome, Failure, FailureKind, Fault};
use crate::numbers::{dec, decimal, push_dec, push_decimal};
use crate::process::{classify_pid, identity, PidIdentity};
use crate::text::texts;
use std::collections::HashMap;
use vstd::prelude::*;

verus! {

broadcast use vstd::std_specs::hash::group_hash_axioms;

/// How a collector is set up.
#[derive(Debug)]
pub struct PluginConfig {
    /// The path of the library to inject.
    pub path: String,
}

/// What a collection window is asked for.
#[derive(Debug)]
pub struct ProfileArgs {
    /// The process to collect from.
    pub target_pid: i32,
    /// The directory for the trace; nothing for the current one. `default` is the
    /// `/tmp` of the process that has, on the host, the PID that the target has in
    /// its own namespace. Outside containers that is the target.
    pub output: Option<String>,
    /// The seconds to collect for; zero for no limit.
    pub duration: u64,
}

/// How far a collector has got with a target.
#[derive(Clone, Copy, Debug, PartialEq, Eq, Structural)]
pub enum CollectorState {
    /// The target is not ready.
    Uninitialized,
    /// The library has been copied into the target.
    InitSuccess,
    /// A window has been started.
    Collecting,
    /// The collector is letting go of the target.
    ShuttingDown,
    /// The trace has been written.
    WrittingOver,
    /// The window failed.
    Failed,
}

/// The name of a state.
pub open spec fn state_text(state: CollectorState) -> Seq<char> {
    match state {
        CollectorState::Uninitialized => "Uninitialized"@,
        CollectorState::InitSuccess => "InitSuccess"@,
        CollectorState::Collecting => "Collecting"@,
        CollectorState::ShuttingDown => "ShuttingDown"@,
        CollectorState::WrittingOver => "WrittingOver"@,
        CollectorState::Failed => "Failed"@,
    }
}

impl CollectorState {
    /// The name of the state.
    pub fn name(self) -> (r: &'static str)
        ensures
            r@ == state_text(self),
    {
        match self {
            CollectorState::Uninitialized => "Uninitialized",
            CollectorState::InitSuccess => "InitSuccess",
            CollectorState::Collecting => "Collecting",
            CollectorState::ShuttingDown => "ShuttingDown",
            CollectorState::WrittingOver => "WrittingOver",
            CollectorState::Failed => "Failed",
        }
    }
}

/// Where the trace of a window is, where it goes, and when the window was
/// started, in nanoseconds since the epoch.
#[derive(Debug)]
pub struct OutputPaths {
    pub host: String,
    pub local: String,
    pub trigger_start: i128,
}

/// What [`OutputPaths`] say.
pub struct Output {
    pub host: Seq<char>,
    pub local: Seq<char>,
    pub trigger_start: i128,
}

impl View for OutputPaths {
    type V = Output;

    open spec fn view(&self) -> Output {
        Output { host: self.host@, local: self.local@, trigger_start: self.trigger_start }
    }
}

/// The collector.
pub struct CUPTIPluginWrapper {
    config: PluginConfig,
    status: HashMap<i32, CollectorState>,
    output_paths: HashMap<i32, OutputPaths>,
    start_times: HashMap<i32, u64>,
    inside: HashMap<i32, i32>,
}

/// What a [`CUPTIPluginWrapper`] knows.
pub struct Plugin {
    /// The path of the library to inject.
    pub path: Seq<char>,
    /// How far it has got with each target.
    pub status: Map<i32, CollectorState>,
    /// The traces that are still to be fetched.
    pub outputs: Map<i32, Output>,
    /// When each target had started, as of its initialisation.
    pub start_times: Map<i32, u64>,
    /// The PID that each target of a window has in its own namespace.
    pub inside: Map<i32, i32>,
}

impl View for CUPTIPluginWrapper {
    type V = Plugin;

    closed spec fn view(&self) -> Plugin {
        Plugin {
            path: self.config.path@,
            status: self.status@,
            outputs: self.output_paths@.map_values(|paths: OutputPaths| paths@),
            start_times: self.start_times@,
            inside: self.inside@,
        }
    }
}

/// The value of a key, if it has one.
pub open spec fn entry_of<V>(map: Map<i32, V>, pid: i32) -> Option<V> {
    if map.contains_key(pid) {
        Some(map[pid])
    } else {
        None
    }
}

/// Why nothing is written into a process that has the PID of a target.
pub open spec fn recycled_text(pid: i32, recorded: u64, now: u64) -> Seq<char> {
    "PID "@ + decimal(pid as int)
        + " is no longer the process this collector initialised: its start time moved from "@ + dec(
        recorded as nat,
    ) + " to "@ + dec(now as nat)
        + ", so the PID has been recycled. Refusing to write into the new process's filesystem"@
}

/// Why nothing is written into a target that is gone.
pub open spec fn gone_text(pid: i32) -> Seq<char> {
    "PID "@ + decimal(pid as int) + " exited before its collection window started: /proc/"@
        + decimal(pid as int) + "/stat is gone"@
}

/// Whether a process may be written into, going by what a second look at it says.
pub open spec fn may_write(pid: i32, seen: PidIdentity) -> Result<(), Fault> {
    match seen {
        PidIdentity::Same => Ok(()),
        PidIdentity::Unknown => Ok(()),
        PidIdentity::Recycled { recorded, now } => Err(
            fault(FailureKind::TriggerCollectorError, recycled_text(pid, recorded, now)),
        ),
        PidIdentity::Gone => Err(fault(FailureKind::TriggerCollectorError, gone_text(pid))),
    }
}

/// The PID that a target goes by in its own namespace: the one that its last window
/// was launched with, or that from outside where it had none.
pub open spec fn pid_inside(plugin: Plugin, pid: i32) -> i32 {
    match entry_of(plugin.inside, pid) {
        Some(container_pid) => container_pid,
        None => pid,
    }
}

/// The configuration files of the targets in `pids`, in order.
pub open spec fn config_files(plugin: Plugin, pids: Seq<i32>) -> Seq<Seq<char>> {
    pids.map_values(|pid: i32| config_file(pid, pid_inside(plugin, pid)))
}

/// What is known of a trace is what its fields hold, and what is known of a target is
/// what stands under its PID.
pub proof fn law_what_is_known(paths: OutputPaths, map: Map<i32, u64>, pid: i32)
    ensures
        paths@.host == paths.host@,
        paths@.local == paths.local@,
        paths@.trigger_start == paths.trigger_start,
        map.contains_key(pid) ==> entry_of(map, pid) == Some(map[pid]),
        !map.contains_key(pid) ==> entry_of(map, pid) is None,
{
}

/// There is one file to unlink for each target, and it is the configuration under the
/// PID that the last window of the target was launched with, or under the one from
/// outside where there was none.
pub proof fn law_which_files_are_unlinked(plugin: Plugin, pids: Seq<i32>, k: int)
    requires
        0 <= k < pids.len(),
    ensures
        config_files(plugin, pids).len() == pids.len(),
        plugin.inside.contains_key(pids[k]) ==> config_files(plugin, pids)[k] == config_file(
            pids[k],
            plugin.inside[pids[k]],
        ),
        !plugin.inside.contains_key(pids[k]) ==> config_files(plugin, pids)[k] == config_file(
            pids[k],
            pids[k],
        ),
{
}

/// A process may be written into where there is no start time to hold against it, or
/// where that is still the same. Otherwise it is told apart whether it is another one
/// or gone.
pub proof fn law_who_may_be_written_into(pid: i32, recorded: Option<u64>, current: Option<u64>)
    ensures
        may_write(pid, identity(recorded, current)) is Ok <==> recorded is None || recorded
            == current,
        recorded is Some && current is None ==> may_write(pid, identity(recorded, current)) == Err::<
            (),
            Fault,
        >(
            fault(
                FailureKind::TriggerCollectorError,
                "PID "@ + decimal(pid as int)
                    + " exited before its collection window started: /proc/"@ + decimal(
                    pid as int,
                ) + "/stat is gone"@,
            ),
        ),
        recorded is Some && current is Some && recorded != current ==> may_write(
            pid,
            identity(recorded, current),
        ) == Err::<(), Fault>(
            fault(
                FailureKind::TriggerCollectorError,
                "PID "@ + decimal(pid as int)
                    + " is no longer the process this collector initialised: its start time moved from "@
                    + dec(recorded->0 as nat) + " to "@ + dec(current->0 as nat)
                    + ", so the PID has been recycled. Refusing to write into the new process's filesystem"@,
            ),
        ),
{
}

impl CUPTIPluginWrapper {
    /// A collector without targets.
    pub fn new(config: PluginConfig) -> (r: Result<CUPTIPluginWrapper, Failure>)
        ensures
            r matches Ok(plugin) && plugin@ == (Plugin {
                path: config.path@,
                status: Map::empty(),
                outputs: Map::empty(),
                start_times: Map::empty(),
                inside: Map::empty(),
            }),
    {
        let plugin = CUPTIPluginWrapper {
            config,
            status: HashMap::new(),
            output_paths: HashMap::new(),
            start_times: HashMap::new(),
            inside: HashMap::new(),
        };
        assert(plugin@.outputs =~= Map::empty());
        Ok(plugin)
    }

    /// The path of the library to inject.
    pub fn path(&self) -> (r: &str)
        ensures
            r@ == self@.path,
    {
        self.config.path.as_str()
    }

    /// How far the collector has got with a target.
    pub fn state_of(&self, pid: i32) -> (r: Option<CollectorState>)
        ensures
            r == entry_of(self@.status, pid),
    {
        match self.status.get(&pid) {
            Some(state) => Some(*state),
            None => None,
        }
    }

    /// When a target had started, as of its initialisation.
    pub fn start_time_of(&self, pid: i32) -> (r: Option<u64>)
        ensures
            r == entry_of(self@.start_times, pid),
    {
        match self.start_times.get(&pid) {
            Some(start) => Some(*start),
            None => None,
        }
    }

    /// The PID that a target has in its own namespace, once a window was launched.
    pub fn inside_of(&self, pid: i32) -> (r: Option<i32>)
        ensures
            r == entry_of(self@.inside, pid),
    {
        match self.inside.get(&pid) {
            Some(container_pid) => Some(*container_pid),
            None => None,
        }
    }

    /// The trace of a target that is still to be fetched.
    pub fn output_of(&self, pid: i32) -> (r: Option<&OutputPaths>)
        ensures
            match r {
                Some(paths) => entry_of(self@.outputs, pid) == Some(paths@),
                None => entry_of(self@.outputs, pid) is None,
            },
    {
        self.output_paths.get(&pid)
    }

    pub(crate) fn set_state(&mut self, pid: i32, state: CollectorState)
        ensures
            final(self)@ == (Plugin {
                status: old(self)@.status.insert(pid, state),
                ..old(self)@
            }),
    {
        self.status.insert(pid, state);
    }

    pub(crate) fn set_start_time(&mut self, pid: i32, start: u64)
        ensures
            final(self)@ == (Plugin {
                start_times: old(self)@.start_times.insert(pid, start),
                ..old(self)@
            }),
    {
        self.start_times.insert(pid, start);
    }

    pub(crate) fn set_inside(&mut self, pid: i32, container_pid: i32)
        ensures
            final(self)@ == (Plugin {
                inside: old(self)@.inside.insert(pid, container_pid),
                ..old(self)@
            }),
    {
        self.inside.insert(pid, container_pid);
    }

    pub(crate) fn put_output(&mut self, pid: i32, paths: OutputPaths)
        ensures
            final(self)@ == (Plugin {
                outputs: old(self)@.outputs.insert(pid, paths@),
                ..old(self)@
            }),
    {
        self.output_paths.insert(pid, paths);
        assert(self@.outputs =~= old(self)@.outputs.insert(pid, paths@));
    }

    pub(crate) fn take_output(&mut self, pid: i32) -> (r: Option<OutputPaths>)
        ensures
            final(self)@ == (Plugin { outputs: old(self)@.outputs.remove(pid), ..old(self)@ }),
            match r {
                Some(paths) => entry_of(old(self)@.outputs, pid) == Some(paths@),
                None => entry_of(old(self)@.outputs, pid) is None,
            },
    {
        let taken = self.output_paths.remove(&pid);
        assert(self@.outputs =~= old(self)@.outputs.remove(pid));
        taken
    }

    /// Confirms that `pid` is still the process that was initialised. `current` is
    /// its start time as of now, or `None` where it could not be read.
    ///
    /// Whatever the collector does to a target is addressed by its PID alone. Once
    /// that is recycled it would be done to a stranger.
    pub fn check_pid_identity(&self, pid: i32, current: Option<u64>) -> (r: Result<(), Failure>)
        ensures
            outcome(r) == may_write(pid, identity(entry_of(self@.start_times, pid), current)),
    {
        match classify_pid(self.start_time_of(pid), current) {
            PidIdentity::Same => Ok(()),
            PidIdentity::Unknown => Ok(()),
            PidIdentity::Recycled { recorded, now } => {
                let mut message = "PID ".to_owned();
                push_decimal(&mut message, pid);
                message.append(
                    " is no longer the process this collector initialised: its start time moved from ",
                );
                push_dec(&mut message, recorded);
                message.append(" to ");
                push_dec(&mut message, now);
                message.append(
                    ", so the PID has been recycled. Refusing to write into the new process's filesystem",
                );
                Err(Failure::of(FailureKind::TriggerCollectorError, message))
            },
            PidIdentity::Gone => {
                let mut message = "PID ".to_owned();
                push_decimal(&mut message, pid);
                message.append(" exited before its collection window started: /proc/");
                push_decimal(&mut message, pid);
                message.append("/stat is gone");
                Err(Failure::of(FailureKind::TriggerCollectorError, message))
            },
        }
    }

    /// The files to unlink when the collector goes: the configuration file of every
    /// target, which is under the PID that the target has in its own namespace. They
    /// come in no particular order. The socket may belong to another
    /// agent by now, and the libraries are still mapped: those are left alone.
    pub fn leftover_files(&self) -> (r: Vec<String>)
        ensures
            exists|pids: Seq<i32>|
                #![trigger config_files(self@, pids)]
                pids.no_duplicates() && pids.to_set() == self@.status.dom() && texts(r@)
                    == config_files(self@, pids),
    {
        let mut files: Vec<String> = Vec::new();
        let ghost mut pids: Seq<i32> = Seq::empty();
        assert(texts(files@) =~= config_files(self@, pids));
        let keys = self.status.keys();
        let ghost all = vstd::std_specs::iter::IteratorSpec::remaining(&keys).unref();
        for pid in it: keys
            invariant
                it.seq().unref() == all,
                pids == all.take(it.index() as int),
                texts(files@) == config_files(self@, pids),
        {
            let ghost before = files@;
            let container_pid: i32 = match self.inside_of(*pid) {
                Some(container_pid) => container_pid,
                None => *pid,
            };
            let file = cuprof_config_path(*pid, container_pid);
            files.push(file);
            proof {
                assert(all.take(it.index() + 1) =~= pids.push(*pid));
                assert(texts(files@) =~= texts(before).push(file@));
                assert(config_files(self@, pids.push(*pid)) =~= config_files(self@, pids).push(
                    config_file(*pid, pid_inside(self@, *pid)),
                ));
                pids = pids.push(*pid);
            }
        }
        proof {
            assert(pids =~= all);
        }
        files
    }
}

} // verus!
