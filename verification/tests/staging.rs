use collection_framework::failures::{Failure, FailureKind};
use collection_framework::releases::CuptiPreference;
use collection_framework::staging::{
    cupti_staging_name, distinct_dirs, wanted_dirs, SearchDir, SonameCache, StageAction,
    StageEvent, StagePhase, StageRun,
};

const AGENT: u32 = 31337;

fn begin(preference: CuptiPreference) -> StageRun {
    StageRun::stage_cupti_runtime(
        4242,
        AGENT,
        0xdeadbeef,
        preference,
        2,
        "[\"/opt/cupti\", \"/opt\"]".to_string(),
    )
}

fn needed() -> StageEvent {
    StageEvent::Needed(Ok("libcupti.so.12".to_string()))
}

fn listed(names: &[&str]) -> StageEvent {
    StageEvent::Listed(Some(names.iter().map(|name| name.to_string()).collect()))
}

fn sonames(names: &[Option<&str>]) -> StageEvent {
    StageEvent::Sonames(names.iter().map(|name| name.map(str::to_string)).collect())
}

fn outcome(run: StageRun) -> Result<(), Failure> {
    assert_eq!(run.action(), StageAction::Finish);
    match run.phase {
        StagePhase::Done(r) => r,
        other => panic!("{:?}", other),
    }
}

#[test]
fn the_staging_name_can_never_be_mistaken_for_a_candidate() {
    let name = cupti_staging_name(AGENT, 4242, 0xdeadbeef);
    assert!(!name.starts_with("libcupti.so."), "{}", name);
    assert!(name.starts_with(".cupti-staging-"), "{}", name);
    assert!(name.contains(&format!("{}", AGENT)), "{}", name);
    assert!(name.contains("4242"), "{}", name);
    assert_ne!(name, cupti_staging_name(AGENT, 4242, 0xdeadbef0));
    assert_eq!(name, ".cupti-staging-31337-deadbeef-4242");
}

#[test]
fn the_highest_match_of_the_first_directory_is_staged() {
    let run = begin(CuptiPreference::Highest);
    assert_eq!(run.plan.staging, "/proc/4242/root/tmp/.cupti-staging-31337-deadbeef-4242");
    assert_eq!(run.action(), StageAction::ReadNeeded);
    let run = run.step(needed());
    assert!(matches!(&run.phase, StagePhase::Listing { dir: 0, .. }));
    let run = run.step(listed(&[
        "libcupti.so.2023.2.1",
        "README.md",
        ".cupti-staging-1-2-3",
        "libcupti.so.2025.2.1",
        "libcupti.so.2025.3.1",
    ]));
    match &run.phase {
        StagePhase::Inspecting { names, .. } => assert_eq!(
            names,
            &["libcupti.so.2023.2.1", "libcupti.so.2025.2.1", "libcupti.so.2025.3.1"]
        ),
        other => panic!("{:?}", other),
    }
    // The highest release has another SONAME.
    let run = run.step(sonames(&[
        Some("libcupti.so.12"),
        Some("libcupti.so.12"),
        Some("libcupti.so.13"),
    ]));
    match &run.phase {
        StagePhase::Copying { needed, dir, file } => {
            assert_eq!(needed, "libcupti.so.12");
            assert_eq!(*dir, 0);
            assert_eq!(file, "libcupti.so.2025.2.1");
        }
        other => panic!("{:?}", other),
    }
    let run = run.step(StageEvent::Copied(Ok(())));
    assert_eq!(run.action(), StageAction::Rename);
    assert_eq!(run.final_path("libcupti.so.12"), "/proc/4242/root/tmp/libcupti.so.12");
    assert!(outcome(run.step(StageEvent::Renamed(Ok(())))).is_ok());
}

#[test]
fn a_directory_without_a_match_is_passed_over() {
    let run = begin(CuptiPreference::Lowest).step(needed());
    let run = run.step(listed(&["libcupti.so.2023.2.1"])).step(sonames(&[None]));
    assert!(matches!(&run.phase, StagePhase::Listing { dir: 1, .. }));
    let run = run.step(listed(&["libcupti.so.2024.1.1", "libcupti.so.2024.3.2"]));
    let run = run.step(sonames(&[Some("libcupti.so.12"), Some("libcupti.so.12")]));
    assert!(matches!(
        &run.phase,
        StagePhase::Copying { dir: 1, file, .. } if file == "libcupti.so.2024.1.1"
    ));
}

#[test]
fn without_any_match_nothing_is_copied() {
    let run = begin(CuptiPreference::Highest).step(needed());
    let run = run.step(StageEvent::Listed(None));
    let run = run.step(listed(&[])).step(sonames(&[]));
    let failure = outcome(run).expect_err("there is none");
    assert_eq!(failure.kind, FailureKind::CuptiPluginError);
    assert_eq!(
        failure.message,
        "no vendored libcupti with soname 'libcupti.so.12' found in [\"/opt/cupti\", \"/opt\"]"
    );
    assert_eq!(failure.cause, None);
}

#[test]
fn a_library_that_needs_nothing_known_stages_nothing() {
    let run = begin(CuptiPreference::Highest);
    let failure = outcome(run.step(StageEvent::Needed(Err("no DT_NEEDED".to_string()))))
        .expect_err("nothing is known to be needed");
    assert_eq!(failure.kind, FailureKind::Context);
    assert_eq!(failure.message, "cannot determine libcupti soname required by libcuprof.so");
    assert_eq!(failure.cause.as_deref(), Some("no DT_NEEDED"));
}

fn copying() -> StageRun {
    begin(CuptiPreference::Highest)
        .step(needed())
        .step(listed(&["libcupti.so.2024.1.1"]))
        .step(sonames(&[Some("libcupti.so.12")]))
}

#[test]
fn a_copy_that_failed_is_unlinked() {
    let run = copying().step(StageEvent::Copied(Err("disk full".to_string())));
    assert_eq!(run.action(), StageAction::RemoveStaging);
    let failure = outcome(run.step(StageEvent::Cleaned)).expect_err("it failed");
    assert_eq!(failure.message, "failed to stage libcupti.so.12 for target");
    assert_eq!(failure.cause.as_deref(), Some("disk full"));
}

#[test]
fn a_copy_that_could_not_be_renamed_is_unlinked() {
    let run = copying().step(StageEvent::Copied(Ok(())));
    let run = run.step(StageEvent::Renamed(Err("denied".to_string())));
    assert_eq!(run.action(), StageAction::RemoveStaging);
    let failure = outcome(run.step(StageEvent::Cleaned)).expect_err("it failed");
    assert_eq!(
        failure.message,
        "failed to move staged libcupti.so.12 into place at /proc/4242/root/tmp/libcupti.so.12"
    );
    assert_eq!(failure.cause.as_deref(), Some("denied"));
}

#[test]
fn no_directory_is_searched_twice() {
    assert_eq!(
        wanted_dirs(true),
        [SearchDir::LibraryCupti, SearchDir::Library, SearchDir::AgentCupti, SearchDir::Agent]
    );
    assert_eq!(wanted_dirs(false), [SearchDir::LibraryCupti, SearchDir::Library]);
    let paths: Vec<Vec<u8>> = ["/o/cupti", "/o", "/o/cupti", "/o", "/p"]
        .iter()
        .map(|path| path.as_bytes().to_vec())
        .collect();
    assert_eq!(distinct_dirs(&paths), [0, 1, 4]);
    assert_eq!(distinct_dirs(&Vec::new()), Vec::<usize>::new());
}

#[test]
fn a_soname_is_read_once_unless_that_failed() {
    let path = b"/o/libcupti.so.2024.1.1".to_vec();
    let mut cache = SonameCache::new();
    assert_eq!(cache.lookup(&path), None);
    assert_eq!(cache.record(path.clone(), None), None);
    assert_eq!(cache.lookup(&path), None);
    let read = Some("libcupti.so.12".to_string());
    assert_eq!(cache.record(path.clone(), read.clone()), read);
    assert_eq!(cache.lookup(&path), read);
    assert_eq!(cache.lookup(&b"/o/other".to_vec()), None);
    let newer = Some("libcupti.so.13".to_string());
    assert_eq!(cache.record(path.clone(), newer.clone()), newer);
    assert_eq!(cache.lookup(&path), newer);
}
