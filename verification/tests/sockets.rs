use collection_framework::unix_handler::{
    BindAction, BindEvent, BindPhase, BindRun, ProbeAnswer, SocketProbe, UnixSocketHandler,
    SOCKET_PROBE_TIMEOUT_SECS,
};
use std::future::Future;
use std::time::{Duration, Instant};
use tokio::net::{UnixListener, UnixStream};

fn wait_for<F: Future>(work: F) -> F::Output {
    tokio::runtime::Builder::new_current_thread()
        .enable_all()
        .build()
        .expect("a runtime")
        .block_on(work)
}

/// Stands for the root of a container: a directory of its own, with a `tmp` in it.
async fn fake_container_root(name: &str) -> String {
    let root = format!("/tmp/cf_root_{}", name);
    let _ = tokio::fs::remove_dir_all(&root).await;
    tokio::fs::create_dir_all(format!("{}/tmp", root)).await.expect("create <root>/tmp");
    root
}

async fn is_there(path: &str) -> bool {
    tokio::fs::metadata(path).await.is_ok()
}

async fn answer_of(path: &str) -> ProbeAnswer {
    let limit = Duration::from_secs(SOCKET_PROBE_TIMEOUT_SECS);
    match tokio::time::timeout(limit, UnixStream::connect(path)).await {
        Ok(Ok(_stream)) => ProbeAnswer::Connected,
        Ok(Err(e)) if e.kind() == std::io::ErrorKind::ConnectionRefused => {
            ProbeAnswer::Refused(e.to_string())
        }
        Ok(Err(e)) => ProbeAnswer::Failed(e.to_string()),
        Err(_elapsed) => ProbeAnswer::TimedOut,
    }
}

/// Does what a run asks for, on real sockets.
async fn carry_out(mut run: BindRun) -> Result<UnixListener, String> {
    let mut bound = None;
    loop {
        let event = match run.action() {
            BindAction::Bind => match UnixListener::bind(&run.path) {
                Ok(listener) => {
                    bound = Some(listener);
                    BindEvent::Bound
                }
                Err(e) => BindEvent::BindFailed {
                    in_use: e.kind() == std::io::ErrorKind::AddrInUse,
                    error: e.to_string(),
                },
            },
            BindAction::Probe => BindEvent::Answered(answer_of(&run.path).await),
            BindAction::CheckExists => BindEvent::Exists(is_there(&run.path).await),
            BindAction::Remove => match tokio::fs::remove_file(&run.path).await {
                Ok(()) => BindEvent::Removed,
                Err(e) => BindEvent::RemoveFailed(e.to_string()),
            },
            BindAction::Finish => {
                return match run.phase {
                    BindPhase::Failed(reason) => Err(reason),
                    _ => Ok(bound.expect("a run that ended well has bound")),
                };
            }
        };
        run = run.step(event);
    }
}

async fn bind(root: &str, pid: i32) -> Result<UnixListener, String> {
    carry_out(UnixSocketHandler::bind_listener_at(root, pid)).await
}

#[test]
fn socket_path_matches_the_deployed_layout() {
    assert_eq!(UnixSocketHandler::proc_root(4242), "/proc/4242/root");
    assert_eq!(
        UnixSocketHandler::socket_path_under("/proc/4242/root", 4242),
        "/proc/4242/root/tmp/.cf_sock_4242"
    );
}

#[test]
fn the_liveness_probe_is_bounded() {
    let limit = Duration::from_secs(SOCKET_PROBE_TIMEOUT_SECS);
    assert!(limit > Duration::ZERO);
    assert!(limit <= Duration::from_secs(10));
}

#[test]
fn bind_listener_binds_a_fresh_path() {
    wait_for(async {
        let root = fake_container_root("fresh").await;
        let listener = bind(&root, 7).await.expect("a fresh socket path binds");
        drop(listener);
    });
}

#[test]
fn bind_listener_refuses_to_steal_a_live_socket() {
    wait_for(async {
        let root = fake_container_root("live").await;
        let first = bind(&root, 7).await.expect("first bind");

        let msg = bind(&root, 7).await.expect_err("a live socket must not be stolen");
        assert!(
            msg.contains("pid 7") && msg.contains("live listener") && msg.contains("already in use"),
            "error should name the pid and say a live listener answered, got: {}",
            msg
        );
        assert!(
            msg.contains("second aiprof-client") && msg.contains("left untouched"),
            "error should hint at the two real causes and say nothing was deleted, got: {}",
            msg
        );

        let path = UnixSocketHandler::socket_path_under(&root, 7);
        let _client = UnixStream::connect(&path).await.expect("live socket still connectable");
        let _accepted = first.accept().await.expect("live socket still accepting");
    });
}

#[test]
fn a_starved_listener_still_answers_the_probe() {
    wait_for(async {
        let root = fake_container_root("starved").await;
        let _starved = bind(&root, 7).await.expect("first bind");

        let started = Instant::now();
        let err = bind(&root, 7).await.expect_err("a starved listener is still live");
        let elapsed = started.elapsed();
        assert!(
            elapsed < Duration::from_secs(SOCKET_PROBE_TIMEOUT_SECS),
            "probe took {:?} against a live listener, so it is not bounded by the backlog",
            elapsed
        );
        assert!(
            err.contains("live listener"),
            "a starved listener must be reported as live, got: {}",
            err
        );
    });
}

#[test]
fn the_probe_only_calls_a_socket_dead_on_refusal() {
    wait_for(async {
        let root = fake_container_root("probe").await;
        let path = UnixSocketHandler::socket_path_under(&root, 7);

        assert!(
            matches!(
                UnixSocketHandler::probe_socket(answer_of(&path).await),
                SocketProbe::Inconclusive(_)
            ),
            "a missing path must not be reported dead"
        );

        let stale = bind(&root, 7).await.expect("first bind");
        drop(stale);
        assert!(
            matches!(
                UnixSocketHandler::probe_socket(answer_of(&path).await),
                SocketProbe::Dead(_)
            ),
            "a socket with no listener behind it must be reported dead"
        );

        let live = bind(&root, 7).await.expect("rebind");
        assert!(
            matches!(
                UnixSocketHandler::probe_socket(answer_of(&path).await),
                SocketProbe::Live
            ),
            "a bound listener must be reported live"
        );
        drop(live);
    });
}

#[test]
fn bind_listener_reclaims_a_path_that_is_not_a_socket() {
    wait_for(async {
        let root = fake_container_root("file").await;
        let path = UnixSocketHandler::socket_path_under(&root, 7);
        tokio::fs::write(&path, b"not a socket").await.expect("write a placeholder file");

        let listener = bind(&root, 7).await.expect("a non-socket placeholder is reclaimed");
        let _client = UnixStream::connect(&path).await.expect("the path is a socket now");
        drop(listener);
    });
}

#[test]
fn bind_listener_reclaims_a_stale_socket() {
    wait_for(async {
        let root = fake_container_root("stale").await;
        let path = UnixSocketHandler::socket_path_under(&root, 7);

        let stale = bind(&root, 7).await.expect("first bind");
        drop(stale);
        assert!(
            is_there(&path).await,
            "expected the stale socket file to survive the drop"
        );

        let reclaimed = bind(&root, 7).await.expect("a stale socket is reclaimed");
        let _client = UnixStream::connect(&path).await.expect("reclaimed socket is live");
        let _accepted = reclaimed.accept().await.expect("reclaimed socket accepts");
    });
}

#[test]
fn a_path_that_vanished_before_the_probe_is_rebound() {
    wait_for(async {
        let root = fake_container_root("vanished").await;
        let path = UnixSocketHandler::socket_path_under(&root, 7);
        assert!(
            !is_there(&path).await,
            "the path must start out free, as it is once the owner unlinks it"
        );

        let listener = carry_out(UnixSocketHandler::resolve_occupied(&path, 7))
            .await
            .expect("a path that vanished before the probe must be rebound");
        let _client = UnixStream::connect(&path).await.expect("the rebound path is a live socket");
        drop(listener);
    });
}

#[test]
fn the_vanished_path_retry_is_a_single_bounded_attempt() {
    wait_for(async {
        let root = fake_container_root("unbindable").await;
        let missing_root = format!("{}/no-such-dir", root);
        let path = UnixSocketHandler::socket_path_under(&missing_root, 7);

        let err = carry_out(UnixSocketHandler::resolve_occupied(&path, 7))
            .await
            .expect_err("an unbindable path stays an error");
        assert!(
            err.contains("liveness could not be determined"),
            "the retry must fall through to the inconclusive error, got: {}",
            err
        );
        assert!(
            !is_there(&missing_root).await,
            "the retry binds, it does not create the path it needs"
        );
    });
}

fn failed(run: BindRun) -> String {
    assert_eq!(run.action(), BindAction::Finish);
    match run.phase {
        BindPhase::Failed(reason) => reason,
        other => panic!("{:?}", other),
    }
}

fn in_use() -> BindEvent {
    BindEvent::BindFailed {
        in_use: true,
        error: "in use".to_string(),
    }
}

#[test]
fn every_failure_of_a_bind_says_what_happened() {
    let begin = || UnixSocketHandler::bind_listener_at("/r", -3);
    let other = BindEvent::BindFailed {
        in_use: false,
        error: "no such directory".to_string(),
    };
    assert_eq!(
        failed(begin().step(other)),
        "failed to bind unix socket /r/tmp/.cf_sock_-3 for pid -3: no such directory"
    );

    let refused = || BindEvent::Answered(ProbeAnswer::Refused("refused".to_string()));
    let removing = || begin().step(in_use()).step(refused());
    assert_eq!(
        failed(removing().step(BindEvent::RemoveFailed("denied".to_string()))),
        "failed to remove stale unix socket /r/tmp/.cf_sock_-3: denied"
    );
    assert_eq!(
        failed(removing().step(BindEvent::Removed).step(in_use())),
        "failed to bind unix socket /r/tmp/.cf_sock_-3 for pid -3: in use"
    );

    let timed_out = BindEvent::Answered(ProbeAnswer::TimedOut);
    assert_eq!(
        failed(begin().step(in_use()).step(timed_out).step(BindEvent::Exists(true))),
        "unix socket /r/tmp/.cf_sock_-3 for pid -3 is already in use and its liveness could not \
         be determined (probe did not answer within 2s), so it was left untouched rather than \
         unlinked"
    );

    let broken = BindEvent::Answered(ProbeAnswer::Failed("denied".to_string()));
    assert_eq!(
        failed(begin().step(in_use()).step(broken).step(BindEvent::Exists(false)).step(in_use())),
        "unix socket /r/tmp/.cf_sock_-3 for pid -3 is already in use and its liveness could not \
         be determined (probe failed: denied), so it was left untouched rather than unlinked"
    );

    assert_eq!(
        failed(begin().step(in_use()).step(BindEvent::Answered(ProbeAnswer::Connected))),
        "unix socket /r/tmp/.cf_sock_-3 for pid -3 is already in use and a live listener answered \
         our probe, so lifecycle events for pid -3 cannot be collected here. The probe only \
         proves that *something* is listening, not that it is AIProf: check for a second \
         aiprof-client or CollectionFramework profiling this pid, and for a socket file left \
         behind by an earlier run that something is still serving. The socket was left untouched"
    );
}

#[test]
fn only_a_refusal_leads_to_an_unlink() {
    let occupied = || UnixSocketHandler::resolve_occupied("/p", 7);
    let answered = |answer| occupied().step(BindEvent::Answered(answer));
    assert_eq!(
        answered(ProbeAnswer::Refused("r".to_string())).action(),
        BindAction::Remove
    );
    assert_eq!(answered(ProbeAnswer::Connected).action(), BindAction::Finish);
    assert_eq!(answered(ProbeAnswer::TimedOut).action(), BindAction::CheckExists);
    assert_eq!(
        answered(ProbeAnswer::Failed("f".to_string())).action(),
        BindAction::CheckExists
    );
}

#[test]
fn events_that_are_not_asked_for_change_nothing() {
    let run = UnixSocketHandler::bind_listener_at("/r", 7);
    let run = run.step(BindEvent::Removed);
    assert_eq!(run.action(), BindAction::Bind);
    let run = run.step(BindEvent::Answered(ProbeAnswer::Connected));
    assert_eq!(run.action(), BindAction::Bind);
    let run = run.step(BindEvent::Bound);
    assert!(matches!(run.phase, BindPhase::Bound));
    let run = run.step(in_use());
    assert!(matches!(run.phase, BindPhase::Bound));
}

#[test]
fn different_processes_have_different_sockets() {
    assert_ne!(
        UnixSocketHandler::socket_path_under("/r", 1),
        UnixSocketHandler::socket_path_under("/r", 11)
    );
}
