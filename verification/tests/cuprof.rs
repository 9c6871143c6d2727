use collection_framework::cuprof::{
    cuprof_config_content, cuprof_config_path, cuprof_socket_inside, cuprof_trace_inside,
    cuprof_trace_name, cuprof_trace_outside, cuprof_verbose_from_env, recognises_verbose,
    CuprofConfig,
};
use collection_framework::unix_handler::UnixSocketHandler;

#[test]
fn verbose_parsing_accepts_the_usual_spellings_and_nothing_else() {
    for on in ["1", "true", "TRUE", " yes ", "On"] {
        assert!(
            cuprof_verbose_from_env(Some(on)),
            "'{}' should enable it",
            on
        );
    }
    for off in [
        None,
        Some(""),
        Some("0"),
        Some("false"),
        Some("2"),
        Some("verbose"),
    ] {
        assert!(
            !cuprof_verbose_from_env(off),
            "{:?} should leave verbose off",
            off
        );
    }
}

#[test]
fn a_switch_that_is_a_typo_is_told_apart() {
    for fine in [None, Some(""), Some("  "), Some("ON"), Some(" Off "), Some("0"), Some("No")] {
        assert!(recognises_verbose(fine), "{:?}", fine);
    }
    for typo in ["2", "verbose", "yes!", "ÒN"] {
        assert!(!recognises_verbose(Some(typo)), "{}", typo);
        assert!(!cuprof_verbose_from_env(Some(typo)), "{}", typo);
    }
}

#[test]
fn the_cuprof_config_carries_only_the_fields_it_was_given() {
    let bare = CuprofConfig {
        output: "/tmp/AIProf_4242_cupti.json".to_string(),
        duration_sec: 0,
        verbose: false,
        socket_path: String::new(),
    };
    // A duration of zero written down would not mean that there is no limit.
    assert_eq!(
        cuprof_config_content(&bare),
        "CUPROF_OUTPUT=/tmp/AIProf_4242_cupti.json\n"
    );

    let full = CuprofConfig {
        output: "/tmp/AIProf_4242_cupti.json".to_string(),
        duration_sec: 30,
        verbose: true,
        socket_path: "/tmp/.cf_sock_4242".to_string(),
    };
    assert_eq!(
        cuprof_config_content(&full),
        "CUPROF_OUTPUT=/tmp/AIProf_4242_cupti.json\n\
         CUPROF_DURATION=30\n\
         CUPROF_VERBOSE=1\n\
         CUPROF_SOCKET=/tmp/.cf_sock_4242\n"
    );
}

#[test]
fn a_config_reads_back() {
    let config = CuprofConfig {
        output: "/tmp/a b.json".to_string(),
        duration_sec: u32::MAX,
        verbose: false,
        socket_path: "/tmp/CUPROF_OUTPUT=x".to_string(),
    };
    let text = cuprof_config_content(&config);
    let value = |key: &str| text.lines().find_map(|line| line.strip_prefix(key));
    assert_eq!(value("CUPROF_OUTPUT="), Some("/tmp/a b.json"));
    assert_eq!(value("CUPROF_DURATION="), Some("4294967295"));
    assert_eq!(value("CUPROF_VERBOSE="), None);
    assert_eq!(value("CUPROF_SOCKET="), Some("/tmp/CUPROF_OUTPUT=x"));
}

#[test]
fn the_files_of_a_target_are_where_it_looks_for_them() {
    assert_eq!(cuprof_config_path(4242, 7), "/proc/4242/root/tmp/cuprof_7.cfg");
    assert_eq!(cuprof_trace_name(4242), "AIProf_4242_cupti.json");
    assert_eq!(cuprof_trace_inside(4242), "/tmp/AIProf_4242_cupti.json");
    assert_eq!(
        cuprof_trace_outside(4242),
        "/proc/4242/root/tmp/AIProf_4242_cupti.json"
    );
}

#[test]
fn both_ends_meet_on_one_socket() {
    assert_eq!(cuprof_socket_inside(4242), "/tmp/.cf_sock_4242");
    let root = UnixSocketHandler::proc_root(4242);
    assert_eq!(
        UnixSocketHandler::socket_path_under(&root, 4242),
        format!("{}{}", root, cuprof_socket_inside(4242))
    );
}
