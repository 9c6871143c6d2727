use collection_framework::calls::{Begun, PluginCall};
use collection_framework::cuprof::cuprof_config_content;
use collection_framework::cupti_plugin_wrapper::{
    CUPTIPluginWrapper, CollectorState, PluginConfig, ProfileArgs,
};
use collection_framework::failures::{Failure, FailureKind};
use collection_framework::init::{
    library_candidates, library_not_found, InitAction, InitEvent, InitPhase, InitRun,
};
use collection_framework::shutdown::{
    Fetched, ShutdownAction, ShutdownEvent, ShutdownPhase, ShutdownRun,
};
use collection_framework::trigger::{TriggerAction, TriggerEvent, TriggerPhase, TriggerRun};
use serde_json::Value;

const PID: i32 = 4242;

fn collector() -> CUPTIPluginWrapper {
    CUPTIPluginWrapper::new(PluginConfig {
        path: "/libcuprof.so".to_string(),
    })
    .expect("a new collector")
}

fn args() -> ProfileArgs {
    ProfileArgs {
        target_pid: PID,
        output: None,
        duration: 30,
    }
}

fn stat(start: u64) -> Option<String> {
    Some(format!(
        "4242 (python3) S 1 4242 4242 0 -1 4194304 200 0 0 0 5 6 0 0 20 0 2 0 {} 0 0 0",
        start
    ))
}

fn init_outcome(run: InitRun) -> Result<(), Failure> {
    assert_eq!(run.action(), InitAction::Finish);
    match run.phase {
        InitPhase::Done(r) => r,
        other => panic!("{:?}", other),
    }
}

fn trigger_outcome(run: TriggerRun) -> Result<(), Failure> {
    assert_eq!(run.action(), TriggerAction::Finish);
    match run.phase {
        TriggerPhase::Done(r) => r,
        other => panic!("{:?}", other),
    }
}

fn fetched(run: ShutdownRun) -> Fetched {
    assert_eq!(run.action(), ShutdownAction::Finish);
    match run.phase {
        ShutdownPhase::Done(fetched) => fetched,
        other => panic!("{:?}", other),
    }
}

/// Gets the target ready, with `start` for its start time.
fn initialised(start: Option<u64>) -> CUPTIPluginWrapper {
    let mut plugin = collector();
    let run = plugin.custom_init(&args(), None);
    let run = plugin.init_step(run, InitEvent::Maps(None));
    let run = plugin.init_step(run, InitEvent::Exists(true));
    let run = plugin.init_step(run, InitEvent::Stat(start.and_then(stat)));
    let run = plugin.init_step(run, InitEvent::Copied(Ok(())));
    let run = plugin.init_step(run, InitEvent::Staged);
    assert!(init_outcome(run).is_ok());
    plugin
}

/// Starts a window at `now`.
fn collecting(start: Option<u64>, now: i128) -> CUPTIPluginWrapper {
    let mut plugin = initialised(start);
    let run = plugin.custom_trigger(args(), None);
    let run = plugin.trigger_step(run, TriggerEvent::OnHost);
    let run = plugin.trigger_step(run, TriggerEvent::Stat(start.and_then(stat)));
    let run = plugin.trigger_step(run, TriggerEvent::Cleared);
    let run = plugin.trigger_step(run, TriggerEvent::Now(now));
    let run = plugin.trigger_step(run, TriggerEvent::Launched);
    assert!(trigger_outcome(run).is_ok());
    plugin
}

// ---- Initialisation ----

#[test]
fn the_library_is_looked_for_in_order() {
    assert_eq!(
        library_candidates("/lib/libcuprof.so", Some("/opt/aiprof")),
        [
            "./libcuprof.so",
            "/opt/aiprof/lib/libcuprof.so",
            "./lib/libcuprof.so",
            "lib/libcuprof.so",
            "/lib/libcuprof.so",
        ]
    );
    assert_eq!(
        library_candidates("libcuprof.so", None),
        ["./libcuprof.so", "./libcuprof.so", "libcuprof.so"]
    );
    assert_eq!(
        library_candidates("//l.so", Some("/o")),
        ["./libcuprof.so", "/o//l.so", "./l.so", "l.so", "//l.so"]
    );
}

#[test]
fn an_initialisation_goes_through_all_its_steps() {
    let mut plugin = collector();
    assert_eq!(plugin.path(), "/libcuprof.so");
    let run = plugin.custom_init(&args(), Some("/opt"));
    assert_eq!(run.places.len(), 5);
    assert_eq!(run.target_path(), "/proc/4242/root/tmp/cf_loader_cupti_4242.so");
    assert_eq!(run.action(), InitAction::ReadMaps);
    let run = plugin.init_step(run, InitEvent::Maps(Some("7f00 r-xp 0 08:01 1 /libc.so\n".into())));
    assert_eq!(run.action(), InitAction::CheckExists);
    let run = plugin.init_step(run, InitEvent::Exists(false));
    let run = plugin.init_step(run, InitEvent::Exists(true));
    assert!(matches!(&run.phase, InitPhase::Timing(library) if library == "/opt/libcuprof.so"));
    assert_eq!(run.action(), InitAction::ReadStat);
    assert_eq!(plugin.start_time_of(PID), None);
    let run = plugin.init_step(run, InitEvent::Stat(stat(555)));
    assert_eq!(plugin.start_time_of(PID), Some(555));
    assert_eq!(run.action(), InitAction::CopyLibrary);
    let run = plugin.init_step(run, InitEvent::Copied(Ok(())));
    assert_eq!(run.action(), InitAction::StageRuntime);
    assert_eq!(plugin.state_of(PID), None);
    let run = plugin.init_step(run, InitEvent::Staged);
    assert!(init_outcome(run).is_ok());
    assert_eq!(plugin.state_of(PID), Some(CollectorState::InitSuccess));
}

#[test]
fn a_target_that_has_the_library_is_refused() {
    let mut plugin = collector();
    let run = plugin.custom_init(&args(), None);
    let maps = "7f00-7f01 r-xp 0 08:01 1 /tmp/cf_loader_cupti_4242.so (deleted)\n".to_string();
    let run = plugin.init_step(run, InitEvent::Maps(Some(maps)));
    let failure = init_outcome(run).expect_err("it is mapped");
    assert_eq!(failure.kind, FailureKind::InjectFailed);
    assert_eq!(
        failure.message,
        "PID 4242 already has /tmp/cf_loader_cupti_4242.so mapped, so it cannot be collected from \
         again: restart the target or collect from a fresh process. libcuprof.so is linked \
         `-z nodelete` and cannot be unmapped, and InitializeInjection() cannot run twice in one \
         process"
    );
    assert_eq!(plugin.state_of(PID), None);
}

#[test]
fn a_library_that_is_nowhere_is_named_with_every_place() {
    let mut plugin = collector();
    let run = plugin.custom_init(&args(), None);
    let mut run = plugin.init_step(run, InitEvent::Maps(None));
    while run.action() == InitAction::CheckExists {
        run = plugin.init_step(run, InitEvent::Exists(false));
    }
    let failure = init_outcome(run).expect_err("it is nowhere");
    assert_eq!(failure.kind, FailureKind::CuptiPluginError);
    assert_eq!(
        failure.message,
        "cuprof library not found in any of these paths: [\"./libcuprof.so\", \
         \"./libcuprof.so\", \"libcuprof.so\", \"/libcuprof.so\"]"
    );
    assert_eq!(plugin.state_of(PID), None);

    let failure = library_not_found("[]");
    assert_eq!(failure.kind, FailureKind::CuptiPluginError);
    assert_eq!(failure.message, "cuprof library not found in any of these paths: []");
}

#[test]
fn a_library_that_cannot_be_copied_leaves_the_target_unready() {
    let mut plugin = collector();
    let run = plugin.custom_init(&args(), None);
    let run = plugin.init_step(run, InitEvent::Maps(None));
    let run = plugin.init_step(run, InitEvent::Exists(true));
    let run = plugin.init_step(run, InitEvent::Stat(None));
    let run = plugin.init_step(run, InitEvent::Copied(Err("read-only".to_string())));
    let failure = init_outcome(run).expect_err("it was not copied");
    assert_eq!(failure.kind, FailureKind::Context);
    assert_eq!(failure.message, "Failed to copy cuprof library to target process");
    assert_eq!(failure.cause.as_deref(), Some("read-only"));
    assert_eq!(plugin.state_of(PID), None);
    assert_eq!(plugin.start_time_of(PID), None);
}

// ---- Windows ----

#[test]
fn a_window_goes_through_all_its_steps() {
    let mut plugin = initialised(Some(555));
    let run = plugin.custom_trigger(args(), Some(" ON "));
    assert_eq!(plugin.state_of(PID), Some(CollectorState::Collecting));
    assert_eq!(run.action(), TriggerAction::Locate);
    assert!(run.job().is_none());
    let run = plugin.trigger_step(run, TriggerEvent::InContainer(17));
    assert_eq!(run.action(), TriggerAction::ReadStat);
    let run = plugin.trigger_step(run, TriggerEvent::Stat(stat(555)));
    assert_eq!(run.action(), TriggerAction::RemoveStale);
    assert_eq!(run.stale_trace(), "/proc/4242/root/tmp/AIProf_4242_cupti.json");
    let run = plugin.trigger_step(run, TriggerEvent::Cleared);
    assert_eq!(run.action(), TriggerAction::ReadClock);
    assert!(plugin.output_of(PID).is_none());
    let run = plugin.trigger_step(run, TriggerEvent::Now(1_000));
    let paths = plugin.output_of(PID).expect("a trace is expected");
    assert_eq!(paths.host, "/proc/4242/root/tmp/AIProf_4242_cupti.json");
    assert_eq!(paths.local, "./AIProf_4242_cupti.json");
    assert_eq!(paths.trigger_start, 1_000);
    assert_eq!(run.action(), TriggerAction::Launch);
    let job = run.job().expect("it is time");
    assert_eq!(job.pid, PID);
    assert_eq!(job.container_pid, 17);
    assert_eq!(job.output, ".");
    assert_eq!(job.config_path(), "/proc/4242/root/tmp/cuprof_17.cfg");
    assert_eq!(
        cuprof_config_content(&job.config),
        "CUPROF_OUTPUT=/tmp/AIProf_4242_cupti.json\nCUPROF_DURATION=30\nCUPROF_VERBOSE=1\n\
         CUPROF_SOCKET=/tmp/.cf_sock_4242\n"
    );
    let run = plugin.trigger_step(run, TriggerEvent::Launched);
    assert!(trigger_outcome(run).is_ok());
}

#[test]
fn the_trace_goes_where_it_was_asked_for() {
    for (asked, dir) in [
        (None, "."),
        (Some("/data"), "/data"),
        (Some("default"), "/proc/17/root/tmp/"),
        (Some(""), ""),
    ] {
        let mut plugin = initialised(None);
        let run = plugin.custom_trigger(
            ProfileArgs {
                output: asked.map(str::to_string),
                ..args()
            },
            None,
        );
        let run = plugin.trigger_step(run, TriggerEvent::InContainer(17));
        let run = plugin.trigger_step(run, TriggerEvent::Stat(None));
        let run = plugin.trigger_step(run, TriggerEvent::Cleared);
        let run = plugin.trigger_step(run, TriggerEvent::Now(0));
        assert_eq!(run.job().expect("it is time").output, dir);
        assert_eq!(
            plugin.output_of(PID).expect("a trace is expected").local,
            format!("{}/AIProf_4242_cupti.json", dir)
        );
    }
}

#[test]
fn a_duration_is_cut_to_its_low_bits() {
    for (asked, told) in [
        (0, 0),
        (30, 30),
        (u64::from(u32::MAX), u32::MAX),
        (0x1_0000_0005, 5),
        (u64::MAX, u32::MAX),
    ] {
        let mut plugin = initialised(None);
        let run = plugin.custom_trigger(
            ProfileArgs {
                duration: asked,
                ..args()
            },
            None,
        );
        assert_eq!(run.plan.config().duration_sec, told);
    }
}

#[test]
fn a_target_that_is_not_known_gets_no_window() {
    let mut plugin = collector();
    let run = plugin.custom_trigger(args(), None);
    let failure = trigger_outcome(run).expect_err("it is not known");
    assert_eq!(failure.kind, FailureKind::TriggerCollectorError);
    assert_eq!(failure.message, "PID 4242 not found in status map");
    assert_eq!(plugin.state_of(PID), None);
}

#[test]
fn a_window_is_started_only_once() {
    let mut plugin = collecting(Some(555), 1_000);
    let run = plugin.custom_trigger(args(), None);
    assert!(trigger_outcome(run).is_ok());
    assert_eq!(plugin.state_of(PID), Some(CollectorState::Collecting));
    assert_eq!(plugin.output_of(PID).map(|paths| paths.trigger_start), Some(1_000));
}

#[test]
fn an_unresolved_pid_is_not_replaced_by_that_of_the_host() {
    let mut plugin = initialised(Some(555));
    let run = plugin.custom_trigger(args(), None);
    let run = plugin.trigger_step(run, TriggerEvent::Unresolved("no NSpid".to_string()));
    assert_eq!(run.action(), TriggerAction::Report);
    let run = plugin.trigger_step(run, TriggerEvent::Reported);
    let failure = trigger_outcome(run).expect_err("it is not resolved");
    assert_eq!(failure.kind, FailureKind::TriggerCollectorError);
    assert_eq!(
        failure.message,
        "PID 4242 runs in a container but its namespace-local PID could not be resolved (no \
         NSpid); refusing to fall back to the host PID, because cuprof inside the target would \
         then never find /tmp/cuprof_<pid>.cfg and would collect with its built-in defaults \
         instead"
    );
    assert!(plugin.output_of(PID).is_none());
}

#[test]
fn nothing_is_written_into_a_stranger() {
    for (seen, message) in [
        (
            stat(556),
            "PID 4242 is no longer the process this collector initialised: its start time moved \
             from 555 to 556, so the PID has been recycled. Refusing to write into the new \
             process's filesystem",
        ),
        (
            None,
            "PID 4242 exited before its collection window started: /proc/4242/stat is gone",
        ),
    ] {
        let mut plugin = initialised(Some(555));
        let run = plugin.custom_trigger(args(), None);
        let run = plugin.trigger_step(run, TriggerEvent::OnHost);
        let run = plugin.trigger_step(run, TriggerEvent::Stat(seen));
        assert_eq!(run.action(), TriggerAction::Report);
        let run = plugin.trigger_step(run, TriggerEvent::Reported);
        let failure = trigger_outcome(run).expect_err("it is a stranger");
        assert_eq!(failure.kind, FailureKind::TriggerCollectorError);
        assert_eq!(failure.message, message);
        assert!(plugin.output_of(PID).is_none());
    }
}

#[test]
fn a_target_of_unknown_start_is_taken_for_the_same() {
    let plugin = initialised(None);
    assert!(plugin.check_pid_identity(PID, Some(7)).is_ok());
    assert!(plugin.check_pid_identity(PID, None).is_ok());
    let plugin = initialised(Some(7));
    assert!(plugin.check_pid_identity(PID, Some(7)).is_ok());
    assert!(plugin.check_pid_identity(PID, Some(8)).is_err());
}

// ---- Letting go ----

#[test]
fn a_fresh_trace_is_copied() {
    for written in [1_000, 1_001] {
        let mut plugin = collecting(Some(555), 1_000);
        let run = plugin.custom_shutdown(PID);
        assert_eq!(plugin.state_of(PID), Some(CollectorState::ShuttingDown));
        assert!(plugin.output_of(PID).is_none());
        let run = run.step(ShutdownEvent::Stat(stat(555)));
        assert_eq!(run.action(), ShutdownAction::ReadMtime);
        let run = run.step(ShutdownEvent::Written(Some(written)));
        assert_eq!(run.action(), ShutdownAction::CopyTrace);
        let paths = run.expected.as_ref().expect("a trace is expected");
        assert_eq!(paths.local, "./AIProf_4242_cupti.json");
        assert_eq!(fetched(run.step(ShutdownEvent::Copied(true))), Fetched::Copied);
    }
}

#[test]
fn a_trace_that_is_not_of_this_window_is_left_alone() {
    let begin = || collecting(Some(555), 1_000).custom_shutdown(PID);
    let same = || begin().step(ShutdownEvent::Stat(stat(555)));
    assert_eq!(fetched(same().step(ShutdownEvent::Written(Some(999)))), Fetched::Stale);
    assert_eq!(fetched(same().step(ShutdownEvent::Written(None))), Fetched::Missing);
    assert_eq!(fetched(begin().step(ShutdownEvent::Stat(stat(556)))), Fetched::Recycled);
    assert_eq!(fetched(begin().step(ShutdownEvent::Stat(None))), Fetched::Gone);
    let fresh = same().step(ShutdownEvent::Written(Some(1_000)));
    assert_eq!(fetched(fresh.step(ShutdownEvent::Copied(false))), Fetched::NotCopied);
}

#[test]
fn a_trace_is_fetched_once() {
    let mut plugin = collecting(None, 1_000);
    let run = plugin.custom_shutdown(PID).step(ShutdownEvent::Stat(None));
    assert_eq!(run.action(), ShutdownAction::ReadMtime);
    let run = plugin.custom_shutdown(PID).step(ShutdownEvent::Stat(stat(1)));
    assert_eq!(fetched(run), Fetched::Nothing);
    let run = plugin.custom_trigger(args(), None);
    assert!(trigger_outcome(run).is_ok());
}

#[test]
fn the_config_of_every_target_is_unlinked() {
    assert!(collector().leftover_files().is_empty());
    let mut plugin = initialised(None);
    let _ = plugin.custom_shutdown(7);
    let mut files = plugin.leftover_files();
    files.sort();
    assert_eq!(
        files,
        ["/proc/4242/root/tmp/cuprof_4242.cfg", "/proc/7/root/tmp/cuprof_7.cfg"]
    );
}

#[test]
fn the_config_of_a_target_in_a_container_is_unlinked() {
    let mut plugin = initialised(Some(555));
    assert_eq!(plugin.leftover_files(), ["/proc/4242/root/tmp/cuprof_4242.cfg"]);
    let run = plugin.custom_trigger(args(), None);
    let run = plugin.trigger_step(run, TriggerEvent::InContainer(17));
    let run = plugin.trigger_step(run, TriggerEvent::Stat(stat(555)));
    let run = plugin.trigger_step(run, TriggerEvent::Cleared);
    assert_eq!(plugin.inside_of(PID), None);
    let run = plugin.trigger_step(run, TriggerEvent::Now(1_000));
    assert_eq!(plugin.inside_of(PID), Some(17));
    let written = run.job().expect("it is time").config_path();
    assert_eq!(written, "/proc/4242/root/tmp/cuprof_17.cfg");
    assert_eq!(plugin.leftover_files(), [written.clone()]);
    let run = plugin.trigger_step(run, TriggerEvent::Launched);
    assert!(trigger_outcome(run).is_ok());
    assert_eq!(plugin.leftover_files(), [written.clone()]);
    let _ = plugin.custom_shutdown(PID);
    assert_eq!(plugin.leftover_files(), [written.clone()]);
    let _ = plugin.custom_shutdown(7);
    let mut files = plugin.leftover_files();
    files.sort();
    assert_eq!(files, [written, "/proc/7/root/tmp/cuprof_7.cfg".to_string()]);
}

#[test]
fn a_window_that_was_not_launched_leaves_no_inner_pid() {
    let mut plugin = initialised(Some(555));
    let run = plugin.custom_trigger(args(), None);
    let run = plugin.trigger_step(run, TriggerEvent::InContainer(17));
    let run = plugin.trigger_step(run, TriggerEvent::Stat(stat(556)));
    let run = plugin.trigger_step(run, TriggerEvent::Reported);
    assert!(trigger_outcome(run).is_err());
    assert_eq!(plugin.inside_of(PID), None);
}

// ---- Calls ----

#[test]
fn a_shutdown_is_for_the_pid_in_its_parameters() {
    let mut plugin = collecting(Some(555), 1_000);
    let params = Value::from(PID);
    match plugin.call_function(PluginCall::Shutdown(&params), None, None) {
        Ok(Begun::Shutdown(run)) => {
            assert_eq!(run.pid, PID);
            assert_eq!(run.recorded, Some(555));
            assert!(run.expected.is_some());
        }
        other => panic!("{:?}", other),
    }
    for n in [i64::from(i32::MIN), -1, 0, i64::from(i32::MAX)] {
        let params = Value::from(n);
        match plugin.call_function(PluginCall::Shutdown(&params), None, None) {
            Ok(Begun::Shutdown(run)) => assert_eq!(i64::from(run.pid), n),
            other => panic!("{:?}", other),
        }
    }
}

#[test]
fn a_shutdown_without_a_pid_is_refused() {
    let mut plugin = collecting(Some(555), 1_000);
    let refused = [
        Value::Null,
        Value::Bool(true),
        Value::from("4242"),
        Value::from(4242.0),
        Value::from(2147483648_i64),
        Value::from(-2147483649_i64),
        Value::from(u64::MAX),
        Value::Array(vec![Value::from(PID)]),
    ];
    for params in &refused {
        let r = plugin.call_function(PluginCall::Shutdown(params), None, None);
        assert!(r.is_err(), "{:?}", params);
    }
    let e = plugin
        .call_function(PluginCall::Shutdown(&Value::from(2147483648_i64)), None, None)
        .expect_err("too large");
    assert!(e.error.to_string().contains("2147483648"), "{}", e.error);
    assert_eq!(plugin.state_of(PID), Some(CollectorState::Collecting));
    assert!(plugin.output_of(PID).is_some());
}

#[test]
fn each_call_leads_to_its_own_run() {
    let mut plugin = initialised(Some(555));
    match plugin.call_function(PluginCall::Init(args()), Some("/opt"), None) {
        Ok(Begun::Init(run)) => assert_eq!(run.places.len(), 5),
        other => panic!("{:?}", other),
    }
    assert!(matches!(
        plugin.call_function(PluginCall::Stop, None, None),
        Ok(Begun::Nothing)
    ));
    assert_eq!(plugin.state_of(PID), Some(CollectorState::InitSuccess));
    match plugin.call_function(PluginCall::Trigger(args()), None, Some("1")) {
        Ok(Begun::Trigger(run)) => {
            assert!(run.plan.verbose);
            assert_eq!(run.action(), TriggerAction::Locate);
        }
        other => panic!("{:?}", other),
    }
    assert_eq!(plugin.state_of(PID), Some(CollectorState::Collecting));
}

#[test]
fn states_have_their_names() {
    for (state, name) in [
        (CollectorState::Uninitialized, "Uninitialized"),
        (CollectorState::InitSuccess, "InitSuccess"),
        (CollectorState::Collecting, "Collecting"),
        (CollectorState::ShuttingDown, "ShuttingDown"),
        (CollectorState::WrittingOver, "WrittingOver"),
        (CollectorState::Failed, "Failed"),
    ] {
        assert_eq!(state.name(), name);
        assert_eq!(format!("{:?}", state), name);
    }
}
