//! What a collector can be called for.

use crate::cuprof::{law_switches, switches_on};
use crate::cupti_plugin_wrapper::{entry_of, CUPTIPluginWrapper, Plugin, ProfileArgs};
use crate::init::{library_places, Init, InitRun};
use crate::shutdown::{expected_output, plugin_after_shutdown, ShutdownPhase, ShutdownRun};
use crate::text::{lower, maybe, maybe_str, setting, texts};
use crate::trigger::{gate, plugin_after_gate, TriggerRun, Window};
use vstd::prelude::*;

verus! {

/// A JSON value.
#[verifier::external_type_specification]
#[verifier::external_body]
pub struct ExJsonValue(serde_json::Value);

/// Why a JSON value is not what it should be.
#[verifier::external_type_specification]
#[verifier::external_body]
pub struct ExJsonError(serde_json::Error);

/// The integer that a JSON value holds, where it is a number that is kept as an
/// integer of 64 bits, with or without a sign, and not as a float.
pub uninterp spec fn integer_in(value: serde_json::Value) -> Option<int>;

/// Whether an integer is one that a PID can be.
pub open spec fn is_pid(n: int) -> bool {
    i32::MIN <= n <= i32::MAX
}

/// The call `serde_json::from_value::<i32>`: the integer that the value holds,
/// where it holds one and that fits; otherwise an error, of which nothing is
/// claimed. The value is copied first, as the call consumes it.
#[verifier::external_body]
fn pid_from_json(value: &serde_json::Value) -> (r: Result<i32, serde_json::Error>)
    ensures
        match r {
            Ok(pid) => integer_in(*value) == Some(pid as int),
            Err(_) => integer_in(*value) matches Some(n) ==> !is_pid(n),
        },
{
    serde_json::from_value::<i32>(value.clone())
}

/// What a call is refused for: its parameters are not what they should be.
#[derive(Debug)]
pub struct BadParams {
    pub error: serde_json::Error,
}

/// What a collector is called for.
#[derive(Debug)]
pub enum PluginCall<'a> {
    /// To get a target ready.
    Init(ProfileArgs),
    /// To start a window.
    Trigger(ProfileArgs),
    /// To stop. The window has its own end.
    Stop,
    /// To let go of the target whose PID this is.
    Shutdown(&'a serde_json::Value),
}

/// What a call leads to.
#[derive(Debug)]
pub enum Begun {
    Init(InitRun),
    Trigger(TriggerRun),
    Nothing,
    Shutdown(ShutdownRun),
}

/// Whether `run` is the beginning of getting a target ready.
pub open spec fn begins_init(
    run: InitRun,
    plugin: Plugin,
    args: ProfileArgs,
    agent_dir: Option<&str>,
) -> bool {
    &&& run.pid == args.target_pid
    &&& texts(run.places@) == library_places(plugin.path, maybe_str(agent_dir))
    &&& run.phase@ == Init::Checking
}

/// Whether `run` is the beginning of starting a window.
pub open spec fn begins_window(
    run: TriggerRun,
    plugin: Plugin,
    args: ProfileArgs,
    verbose: Option<&str>,
) -> bool {
    &&& run.plan@ == (Window {
        pid: args.target_pid,
        output: maybe(args.output),
        duration: args.duration,
        verbose: switches_on(lower(setting(verbose))),
    })
    &&& run.phase@ == gate(args.target_pid, entry_of(plugin.status, args.target_pid))
}

/// Whether `run` is the beginning of letting go of `pid`.
pub open spec fn begins_shutdown(run: ShutdownRun, plugin: Plugin, pid: i32) -> bool {
    &&& run.pid == pid
    &&& run.recorded == entry_of(plugin.start_times, pid)
    &&& expected_output(run.expected) == entry_of(plugin.outputs, pid)
    &&& run.phase == ShutdownPhase::Identifying
}

/// A call begins for the target that it names, with what it asks for, and nothing else.
pub proof fn law_a_call_begins_what_it_asks_for(
    plugin: Plugin,
    args: ProfileArgs,
    agent_dir: Option<&str>,
    verbose: Option<&str>,
    init: InitRun,
    trigger: TriggerRun,
    shutdown: ShutdownRun,
    pid: i32,
)
    ensures
        begins_init(init, plugin, args, agent_dir) ==> init.pid == args.target_pid
            && init.phase@ is Checking,
        begins_window(trigger, plugin, args, verbose) ==> {
            &&& trigger.plan.pid == args.target_pid
            &&& trigger.plan.duration == args.duration
            &&& trigger.plan.output is Some <==> args.output is Some
            &&& args.output is Some ==> trigger.plan.output->0@ == args.output->0@
            &&& trigger.plan.verbose <==> {
                let t = lower(setting(verbose));
                t == "1"@ || t == "true"@ || t == "yes"@ || t == "on"@
            }
        },
        begins_shutdown(shutdown, plugin, pid) ==> {
            &&& shutdown.pid == pid
            &&& shutdown.expected is Some <==> plugin.outputs.contains_key(pid)
            &&& shutdown.expected is Some ==> shutdown.expected->0@ == plugin.outputs[pid]
            &&& shutdown.recorded is Some <==> plugin.start_times.contains_key(pid)
            &&& shutdown.recorded is Some ==> shutdown.recorded->0 == plugin.start_times[pid]
        },
        is_pid(pid as int),
{
    law_switches(lower(setting(verbose)));
}

impl CUPTIPluginWrapper {
    /// Takes a call. `agent_dir` is the directory of the agent, where it is known,
    /// and `verbose` the variable `AIPROF_CUPTI_VERBOSE`.
    pub fn call_function(
        &mut self,
        call: PluginCall<'_>,
        agent_dir: Option<&str>,
        verbose: Option<&str>,
    ) -> (r: Result<Begun, BadParams>)
        ensures
            match call {
                PluginCall::Init(args) => {
                    &&& r matches Ok(Begun::Init(run)) && begins_init(
                        run,
                        old(self)@,
                        args,
                        agent_dir,
                    )
                    &&& final(self)@ == old(self)@
                },
                PluginCall::Trigger(args) => {
                    &&& r matches Ok(Begun::Trigger(run)) && begins_window(
                        run,
                        old(self)@,
                        args,
                        verbose,
                    )
                    &&& final(self)@ == plugin_after_gate(old(self)@, args.target_pid)
                },
                PluginCall::Stop => {
                    &&& r matches Ok(Begun::Nothing)
                    &&& final(self)@ == old(self)@
                },
                PluginCall::Shutdown(params) => match integer_in(*params) {
                    Some(n) if is_pid(n) => {
                        &&& r matches Ok(Begun::Shutdown(run)) && begins_shutdown(
                            run,
                            old(self)@,
                            n as i32,
                        )
                        &&& final(self)@ == plugin_after_shutdown(old(self)@, n as i32)
                    },
                    _ => {
                        &&& r is Err
                        &&& final(self)@ == old(self)@
                    },
                },
            },
    {
        match call {
            PluginCall::Init(args) => Ok(Begun::Init(self.custom_init(&args, agent_dir))),
            PluginCall::Trigger(args) => Ok(Begun::Trigger(self.custom_trigger(args, verbose))),
            PluginCall::Stop => Ok(Begun::Nothing),
            PluginCall::Shutdown(params) => match pid_from_json(params) {
                Ok(pid) => Ok(Begun::Shutdown(self.custom_shutdown(pid))),
                Err(error) => Err(BadParams { error }),
            },
        }
    }
}

} // verus!
