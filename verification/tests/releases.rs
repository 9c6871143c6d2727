use collection_framework::releases::{
    compare_cupti_candidates, cupti_version_key, parse_cupti_preference, pick_cupti_candidate,
    recognises_preference, CuptiPreference,
};

// Four of the vendored runtimes have the SONAME `libcupti.so.12`.
const SONAME_12: [&str; 4] = [
    "libcupti.so.2024.3.2",
    "libcupti.so.2023.2.1",
    "libcupti.so.2025.2.1",
    "libcupti.so.2024.1.1",
];

fn owned(list: &[&str]) -> Vec<String> {
    list.iter().map(|name| name.to_string()).collect()
}

#[test]
fn version_key_orders_releases_numerically_not_lexically() {
    // As text, 9.0.176 comes after 2025.2.1 and 10.2.75 before 9.0.176.
    assert!("libcupti.so.9.0.176" > "libcupti.so.2025.2.1");
    assert!(cupti_version_key("libcupti.so.10.2.75") > cupti_version_key("libcupti.so.9.0.176"));
    assert!(cupti_version_key("libcupti.so.2025.2.1") > cupti_version_key("libcupti.so.9.0.176"));
    assert!(cupti_version_key("libcupti.so.2024.3.2") > cupti_version_key("libcupti.so.2024.1.1"));
}

#[test]
fn a_name_that_is_not_a_release_ranks_below_every_real_one() {
    assert_eq!(cupti_version_key("libcupti.so.12"), None);
    assert_eq!(cupti_version_key("libcupti.so.bogus"), None);
    assert!(cupti_version_key("libcupti.so.9.0.176") > cupti_version_key("libcupti.so.12"));

    let mixed = owned(&["libcupti.so.12", "libcupti.so.2023.2.1", "libcupti.so.2025.2.1"]);
    assert_eq!(
        pick_cupti_candidate(&mixed, &CuptiPreference::Highest),
        Some("libcupti.so.2025.2.1")
    );
    assert_eq!(
        pick_cupti_candidate(&mixed, &CuptiPreference::Lowest),
        Some("libcupti.so.2023.2.1")
    );
    // Where there is no release, such a name is better than nothing.
    assert_eq!(
        pick_cupti_candidate(&owned(&["libcupti.so.12"]), &CuptiPreference::Lowest),
        Some("libcupti.so.12")
    );
}

#[test]
fn an_exact_pin_is_honoured_even_for_a_name_that_is_not_a_release() {
    assert_eq!(
        pick_cupti_candidate(
            &owned(&["libcupti.so.12", "libcupti.so.2023.2.1"]),
            &CuptiPreference::Exact("libcupti.so.12".to_string())
        ),
        Some("libcupti.so.12")
    );
}

#[test]
fn the_highest_release_wins_whatever_order_the_directory_yielded() {
    let mut rotated = owned(&SONAME_12);
    for _ in 0..SONAME_12.len() {
        assert_eq!(
            pick_cupti_candidate(&rotated, &CuptiPreference::Highest),
            Some("libcupti.so.2025.2.1")
        );
        rotated.rotate_left(1);
    }
    let mut sorted = owned(&SONAME_12);
    sorted.sort();
    assert_eq!(
        pick_cupti_candidate(&sorted, &CuptiPreference::Highest),
        Some("libcupti.so.2025.2.1")
    );
    assert!(compare_cupti_candidates("libcupti.so.2023.2.1", "libcupti.so.2025.2.1").is_lt());
}

#[test]
fn the_lowest_preference_picks_the_oldest_release() {
    assert_eq!(
        pick_cupti_candidate(&owned(&SONAME_12), &CuptiPreference::Lowest),
        Some("libcupti.so.2023.2.1")
    );
}

#[test]
fn an_exact_preference_pins_a_named_release() {
    assert_eq!(
        pick_cupti_candidate(
            &owned(&SONAME_12),
            &CuptiPreference::Exact("libcupti.so.2024.1.1".to_string())
        ),
        Some("libcupti.so.2024.1.1")
    );
}

#[test]
fn an_exact_preference_that_is_not_present_falls_back_to_the_default() {
    assert_eq!(
        pick_cupti_candidate(
            &owned(&SONAME_12),
            &CuptiPreference::Exact("libcupti.so.2025.3.1".to_string())
        ),
        Some("libcupti.so.2025.2.1")
    );
}

#[test]
fn a_lone_candidate_wins_and_an_empty_set_yields_none() {
    assert_eq!(
        pick_cupti_candidate(&owned(&["libcupti.so.2025.3.1"]), &CuptiPreference::Highest),
        Some("libcupti.so.2025.3.1")
    );
    assert_eq!(pick_cupti_candidate(&[], &CuptiPreference::Highest), None);
    assert_eq!(pick_cupti_candidate(&[], &CuptiPreference::Lowest), None);
}

#[test]
fn preference_parsing_defaults_to_highest_and_rejects_junk() {
    assert_eq!(parse_cupti_preference(None), CuptiPreference::Highest);
    assert_eq!(parse_cupti_preference(Some("")), CuptiPreference::Highest);
    assert_eq!(parse_cupti_preference(Some("  ")), CuptiPreference::Highest);
    assert_eq!(parse_cupti_preference(Some("highest")), CuptiPreference::Highest);
    assert_eq!(parse_cupti_preference(Some(" lowest ")), CuptiPreference::Lowest);
    assert_eq!(
        parse_cupti_preference(Some("libcupti.so.2023.2.1")),
        CuptiPreference::Exact("libcupti.so.2023.2.1".to_string())
    );
    assert_eq!(parse_cupti_preference(Some("newest")), CuptiPreference::Highest);
    assert_eq!(parse_cupti_preference(Some("/etc/passwd")), CuptiPreference::Highest);
}

#[test]
fn only_junk_is_not_recognised_as_a_preference() {
    for fine in [None, Some(""), Some(" highest"), Some("lowest\n"), Some("libcupti.so.12")] {
        assert!(recognises_preference(fine), "{:?}", fine);
    }
    for junk in ["newest", "LOWEST", "libcupti.so", "/etc/passwd"] {
        assert!(!recognises_preference(Some(junk)), "{}", junk);
    }
}

#[test]
fn version_keys_are_read_component_by_component() {
    assert_eq!(cupti_version_key("libcupti.so.2025.2.1"), Some(vec![2025, 2, 1]));
    assert_eq!(cupti_version_key("libcupti.so.1.2.3.4"), Some(vec![1, 2, 3, 4]));
    // The prefix goes as often as it is there, or not at all.
    assert_eq!(cupti_version_key("libcupti.so.libcupti.so.1.2.3"), Some(vec![1, 2, 3]));
    assert_eq!(cupti_version_key("1.2.3"), Some(vec![1, 2, 3]));
    // A sign is read as part of a number; a minus, a blank and too many digits are not.
    assert_eq!(cupti_version_key("libcupti.so.+1.2.3"), Some(vec![1, 2, 3]));
    assert_eq!(cupti_version_key("libcupti.so.-1.2.3"), None);
    assert_eq!(cupti_version_key("libcupti.so.1. 2.3"), None);
    assert_eq!(cupti_version_key("libcupti.so.1..3"), None);
    assert_eq!(
        cupti_version_key("libcupti.so.18446744073709551615.0.0"),
        Some(vec![u64::MAX, 0, 0])
    );
    assert_eq!(cupti_version_key("libcupti.so.18446744073709551616.0.0"), None);
}

#[test]
fn the_order_of_candidates_is_total() {
    // Equal versions are told apart by their names.
    let names = ["libcupti.so.1.2.3", "libcupti.so.01.2.3", "libcupti.so.12", "libcupti.so.1.2"];
    for a in names {
        for b in names {
            let forth = compare_cupti_candidates(a, b);
            assert_eq!(forth.reverse(), compare_cupti_candidates(b, a));
            assert_eq!(forth.is_eq(), a == b);
        }
    }
    assert!(compare_cupti_candidates("libcupti.so.01.2.3", "libcupti.so.1.2.3").is_lt());
    assert!(compare_cupti_candidates("libcupti.so.99", "libcupti.so.1.2.3").is_lt());
    assert!(compare_cupti_candidates("libcupti.so.1.2.3", "libcupti.so.1.2.3.0").is_lt());
}
