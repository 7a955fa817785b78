//! Semantic-version parsing, ordering and selection.

use mk::version::{parse_version, resolve_latest, select_latest, version_lt_exec};

fn lt(a: &str, b: &str) -> bool {
    let va = parse_version(a).unwrap();
    let vb = parse_version(b).unwrap();
    version_lt_exec(&va, &vb)
}

#[test]
fn test_semver_ordering_validation() {
    // The key ordering property: numeric, not lexicographic.
    assert!(
        lt("1.9.0", "1.10.0"),
        "Semantic version 1.10.0 should be greater than 1.9.0"
    );
    assert!(
        lt("1.10.0", "2.0.0"),
        "Semantic version 2.0.0 should be greater than 1.10.0"
    );

    // Prerelease ordering.
    assert!(lt("1.0.0-rc.1", "1.0.0"), "1.0.0 should be greater than 1.0.0-rc.1");
    assert!(
        lt("1.0.0-beta", "1.0.0-rc.1"),
        "1.0.0-rc.1 should be greater than 1.0.0-beta"
    );
    assert!(
        lt("1.0.0-alpha", "1.0.0-beta"),
        "1.0.0-beta should be greater than 1.0.0-alpha"
    );
}

#[test]
fn test_prerelease_chain_is_strict() {
    assert!(!lt("1.0.0", "1.0.0-rc.1"));
    assert!(!lt("1.0.0-rc.1", "1.0.0-beta"));
    assert!(!lt("1.0.0-beta", "1.0.0-alpha"));
    assert!(!lt("1.0.0", "1.0.0"));
}

#[test]
fn test_numeric_prerelease_identifiers_compare_numerically() {
    assert!(lt("1.0.0-rc.9", "1.0.0-rc.10"));
    assert!(lt("1.0.0-alpha.1", "1.0.0-alpha.2"));
    // Numeric identifiers rank below alphanumeric ones.
    assert!(lt("1.0.0-1", "1.0.0-alpha"));
    // A larger identifier set outranks its prefix.
    assert!(lt("1.0.0-alpha", "1.0.0-alpha.1"));
}

#[test]
fn test_parse_version_accepts_and_rejects() {
    let v = parse_version("1.2.3").unwrap();
    assert_eq!(v.major, 1);
    assert_eq!(v.minor, 2);
    assert_eq!(v.patch, 3);
    assert!(v.pre.is_empty());

    let p = parse_version("1.2.3-rc.1").unwrap();
    assert_eq!(p.pre, vec!["rc".to_string(), "1".to_string()]);

    assert!(parse_version("1.2").is_none());
    assert!(parse_version("v1.2.3").is_none());
    assert!(parse_version("not-a-version").is_none());
    assert!(parse_version("").is_none());
}

#[test]
fn test_resolve_latest_picks_maximum() {
    let raws = vec![
        "1.9.0".to_string(),
        "1.10.0".to_string(),
        "1.2.3".to_string(),
    ];
    assert_eq!(resolve_latest(&raws, false).unwrap(), "1.10.0");
}

#[test]
fn test_resolve_latest_filters_prereleases() {
    let raws = vec![
        "1.0.0".to_string(),
        "2.0.0-rc.1".to_string(),
        "1.5.0".to_string(),
    ];
    assert_eq!(resolve_latest(&raws, false).unwrap(), "1.5.0");
    assert_eq!(resolve_latest(&raws, true).unwrap(), "2.0.0-rc.1");
}

#[test]
fn test_resolve_latest_keeps_v_prefix_of_first_entry() {
    let raws = vec!["v1.0.0".to_string(), "v2.0.0".to_string()];
    assert_eq!(resolve_latest(&raws, false).unwrap(), "v2.0.0");

    // The style comes from the first entry, not the winner.
    let mixed = vec!["v1.0.0".to_string(), "2.0.0".to_string()];
    assert_eq!(resolve_latest(&mixed, false).unwrap(), "v2.0.0");

    let bare_first = vec!["1.0.0".to_string(), "v2.0.0".to_string()];
    assert_eq!(resolve_latest(&bare_first, false).unwrap(), "2.0.0");
}

#[test]
fn test_resolve_latest_none_when_nothing_parses() {
    let raws = vec!["latest".to_string(), "stable".to_string()];
    assert!(resolve_latest(&raws, false).is_none());
    let empty: Vec<String> = Vec::new();
    assert!(resolve_latest(&empty, false).is_none());
}

#[test]
fn test_resolve_latest_unparsable_entries_are_skipped() {
    let raws = vec![
        "latest".to_string(),
        "1.4.0".to_string(),
        "sha-deadbeef".to_string(),
        "1.3.0".to_string(),
    ];
    assert_eq!(resolve_latest(&raws, false).unwrap(), "1.4.0");
}

#[test]
fn test_resolution_is_idempotent_across_runs() {
    // Resolving the same tag list twice yields the same answer.
    let raws = vec![
        "0.9.1".to_string(),
        "1.0.0".to_string(),
        "0.10.0".to_string(),
    ];
    let first = resolve_latest(&raws, false);
    let second = resolve_latest(&raws, false);
    assert_eq!(first, second);
    assert_eq!(select_latest(&raws, false), select_latest(&raws, false));
    assert_eq!(first.unwrap(), "1.0.0");
}

#[test]
fn test_select_latest_prefers_first_among_equals() {
    let raws = vec!["1.0.0".to_string(), "1.0.0".to_string()];
    assert_eq!(select_latest(&raws, false).unwrap(), 0);
}
