use collection_framework::numbers::{parse_u64, push_dec, push_decimal, push_hex};
use collection_framework::process::{
    classify_pid, cuprof_module, cuprof_resident, maps_shows_module, parse_proc_starttime,
    PidIdentity,
};
use collection_framework::text::{
    chars_of, nth_word, strip_prefixes, trim, trim_end_char,
};

#[test]
fn starttime_is_field_22_even_when_comm_contains_spaces_and_parens() {
    let nested = "1234 (my (weird) proc) S 1 1234 1234 0 -1 4194560 100 0 0 0 10 20 \
                  0 0 20 0 1 0 987654321 12345678 100 18446744073709551615";
    assert_eq!(parse_proc_starttime(nested), Some(987654321));

    let plain = "4242 (python3) S 1 4242 4242 0 -1 4194304 200 0 0 0 5 6 0 0 20 0 2 0 555 0 0 0";
    assert_eq!(parse_proc_starttime(plain), Some(555));

    // A wrong number would look like a recycled PID.
    assert_eq!(parse_proc_starttime("4242 (python3) S 1 4242"), None);
    assert_eq!(parse_proc_starttime("not a stat line at all"), None);
    assert_eq!(parse_proc_starttime(""), None);
}

#[test]
fn a_start_time_that_is_no_number_is_none() {
    let line = |field: &str| format!("1 (a) S 1 2 3 4 5 6 7 8 9 10 11 12 13 14 15 16 17 18 {}", field);
    assert_eq!(parse_proc_starttime(&line("77 0")), Some(77));
    assert_eq!(parse_proc_starttime(&line("77")), Some(77));
    assert_eq!(parse_proc_starttime(&line("+77")), Some(77));
    assert_eq!(parse_proc_starttime(&line("-77")), None);
    assert_eq!(parse_proc_starttime(&line("7x7")), None);
    assert_eq!(parse_proc_starttime(&line("18446744073709551615")), Some(u64::MAX));
    assert_eq!(parse_proc_starttime(&line("18446744073709551616")), None);
    assert_eq!(parse_proc_starttime(&line("")), None);
}

#[test]
fn the_pid_identity_check_covers_every_baseline_and_reread_pair() {
    assert_eq!(classify_pid(Some(7), Some(7)), PidIdentity::Same);
    assert_eq!(
        classify_pid(Some(7), Some(9)),
        PidIdentity::Recycled {
            recorded: 7,
            now: 9
        }
    );
    assert_eq!(classify_pid(None, Some(9)), PidIdentity::Unknown);
    assert_eq!(classify_pid(None, None), PidIdentity::Unknown);
    // Gone is not recycled: nothing is somebody else's.
    assert_eq!(classify_pid(Some(7), None), PidIdentity::Gone);
}

#[test]
fn the_maps_scan_only_matches_the_pathname_column() {
    let module = "/tmp/cf_loader_cupti_4242.so";
    let maps = "\
7f8b2c000000-7f8b2c021000 r--p 00000000 08:01 1234    /tmp/cf_loader_cupti_4242.so
7f8b2c021000-7f8b2c100000 r-xp 00021000 08:01 1234    /tmp/cf_loader_cupti_4242.so
7f8b2c100000-7f8b2c200000 r--p 00000000 08:01 9999    /usr/lib/x86_64-linux-gnu/libc.so.6
7f8b2c300000-7f8b2c400000 r-xp 00000000 08:01 4242    /var/tmp/cf_loader_cupti_4242.so
7ffd1c000000-7ffd1c021000 rw-p 00000000 00:00 0
";
    assert!(maps_shows_module(maps, module));
    assert!(!maps_shows_module(maps, "/tmp/cf_loader_cupti_9999.so"));
    assert!(!maps_shows_module(
        "7f00-7f01 r-xp 00000000 08:01 7    /tmp/cf_loader_cupti_4242.so.bak",
        module
    ));
    // An anonymous mapping has five columns.
    assert!(!maps_shows_module(
        "7ffd1c000000-7ffd1c021000 rw-p 00000000 00:00 4242",
        module
    ));
    assert!(!maps_shows_module("", module));

    // The kernel marks a mapping whose file was unlinked.
    assert!(maps_shows_module(
        "7f00-7f01 r-xp 00000000 08:01 1234    /tmp/cf_loader_cupti_4242.so (deleted)",
        module
    ));
}

#[test]
fn lines_may_end_in_carriage_returns() {
    let module = "/tmp/m.so";
    assert!(maps_shows_module("a b c d e /tmp/other.so\r\na b c d e /tmp/m.so\r\n", module));
    assert!(!maps_shows_module("a b c d e\n/tmp/m.so", module));
    assert!(!maps_shows_module("a b c d e", ""));
}

#[test]
fn a_resident_library_is_named() {
    assert_eq!(cuprof_module(4242), "/tmp/cf_loader_cupti_4242.so");
    let maps = "7f00-7f01 r-xp 00000000 08:01 1    /tmp/cf_loader_cupti_4242.so\n";
    assert_eq!(
        cuprof_resident(4242, Some(maps)),
        Some("/tmp/cf_loader_cupti_4242.so".to_string())
    );
    assert_eq!(cuprof_resident(424, Some(maps)), None);
    assert_eq!(cuprof_resident(4242, Some("")), None);
    assert_eq!(cuprof_resident(4242, None), None);
}

#[test]
fn numbers_are_written_as_usual() {
    let mut out = String::from("<");
    push_dec(&mut out, 0);
    out.push(' ');
    push_dec(&mut out, u64::MAX);
    out.push(' ');
    push_decimal(&mut out, i32::MIN);
    out.push(' ');
    push_decimal(&mut out, -1);
    out.push(' ');
    push_decimal(&mut out, i32::MAX);
    out.push(' ');
    push_hex(&mut out, 0);
    out.push(' ');
    push_hex(&mut out, 0xdead_beef);
    out.push(' ');
    push_hex(&mut out, u128::MAX);
    assert_eq!(
        out,
        "<0 18446744073709551615 -2147483648 -1 2147483647 0 deadbeef \
         ffffffffffffffffffffffffffffffff"
    );
}

#[test]
fn what_is_written_is_read_back() {
    for n in [0, 1, 9, 10, 99, 100, 987654321, u64::MAX] {
        let mut out = String::new();
        push_dec(&mut out, n);
        let chars = chars_of(&out);
        assert_eq!(parse_u64(&chars, 0, chars.len()), Some(n));
    }
    assert_eq!(parse_u64(&chars_of(""), 0, 0), None);
    assert_eq!(parse_u64(&chars_of("+"), 0, 1), None);
    assert_eq!(parse_u64(&chars_of("a12b"), 1, 3), Some(12));
}

#[test]
fn texts_are_trimmed_and_split_as_in_the_standard_library() {
    for s in ["", " ", "a", " a ", "\u{3000}a b\u{a0}", "\n\ta\u{85}", "é \u{2028}", "\0a\0\0"] {
        assert_eq!(trim(s), s.trim());
        assert_eq!(trim_end_char(s, '\0'), s.trim_end_matches('\0'));
        let chars = chars_of(s);
        let words: Vec<&str> = s.split_whitespace().collect();
        for n in 0..3 {
            let got = nth_word(&chars, 0, chars.len(), n)
                .map(|(lo, hi)| chars[lo..hi].iter().collect::<String>());
            assert_eq!(got.as_deref(), words.get(n).copied());
        }
    }
    assert_eq!(strip_prefixes("//a/b", "/"), "a/b");
    assert_eq!(strip_prefixes("a/b", "/"), "a/b");
    assert_eq!(strip_prefixes("///", "/"), "");
}
