use codex_monitor::discovery::{rank_roots, DataRootCandidate, DiscoveryInputs, ObservedRoot, RootEvidence};
use codex_monitor::recon::system_roots_for;
use codex_monitor::time::Timestamp;

fn structural(path: &str, newest: i64) -> ObservedRoot {
    ObservedRoot {
        path: path.to_string(),
        key: path.to_string(),
        score: 7,
        evidence: vec![RootEvidence::Sessions, RootEvidence::ModelsCache, RootEvidence::StateDatabase],
        newest: Timestamp::from_unix(newest, 0).unwrap(),
    }
}

#[test]
fn codex_home_has_priority_without_a_fixed_directory_name() {
    let custom = "/tmp/fixture/portable-data";
    let observed = vec![
        structural("/tmp/fixture/home/.codex", 1_800_000_000),
        structural(custom, 1_700_000_000),
    ];

    let roots = rank_roots(Some(custom.to_string()), observed);

    assert_eq!(roots[0].path, custom);
}

#[test]
fn discovers_nested_structural_candidate_and_deduplicates_it() {
    let candidate = "/tmp/fixture/Local/client-state";
    let observed = vec![
        structural(candidate, 1_800_000_000),
        structural(candidate, 1_800_000_000),
        structural(candidate, 1_800_000_000),
    ];

    let roots = rank_roots(Some(candidate.to_string()), observed);

    assert_eq!(roots.iter().filter(|value| value.path == candidate).count(), 1);
}

#[test]
fn higher_score_then_newer_ranks_first() {
    let mut weak = structural("/a", 1_900_000_000);
    weak.score = 3;
    let older = structural("/b", 1_700_000_000);
    let newer = structural("/c", 1_800_000_000);

    let roots = rank_roots(None, vec![weak, older, newer]);

    let paths: Vec<&str> = roots.iter().map(|r| r.path.as_str()).collect();
    assert_eq!(paths, vec!["/c", "/b", "/a"]);
}

#[test]
fn recon_roots_include_structurally_discovered_codex_root() {
    let candidate = "/tmp/fixture/portable-data";
    let inputs = DiscoveryInputs {
        home: "/tmp/fixture/home".to_string(),
        codex_home: Some(candidate.to_string()),
        system_roots: vec!["/var/data".to_string(), "/opt/cache".to_string()],
    };
    let discovered = vec![DataRootCandidate {
        path: candidate.to_string(),
        score: 7,
        evidence: vec![RootEvidence::Sessions],
    }];

    let roots = system_roots_for(&inputs, &discovered);

    assert!(roots.contains(&candidate.to_string()));
    assert_eq!(roots, vec!["/opt/cache", "/tmp/fixture/portable-data", "/var/data"]);
}

use codex_monitor::discovery::walk_plan;

#[test]
fn inputs_keep_codex_home_only_when_set_and_sort_platform_folders() {
    let inputs = DiscoveryInputs::from_parts(
        "/home/u".to_string(),
        Some(String::new()),
        vec!["/b".to_string(), "/a".to_string(), "/b".to_string()],
    );
    assert_eq!(inputs.codex_home, None);
    assert_eq!(inputs.system_roots, vec!["/a", "/b"]);
    let inputs = DiscoveryInputs::from_parts("/home/u".to_string(), Some("/c".to_string()), vec!["/a".to_string()]);
    let plan = walk_plan(&inputs);
    assert_eq!(plan, vec![("/c".to_string(), 0), ("/home/u".to_string(), 2), ("/a".to_string(), 4)]);
}

#[test]
fn equal_paths_are_kept_once() {
    let inputs = DiscoveryInputs::from_parts(
        "/home/u".to_string(),
        None,
        vec!["/b/".to_string(), "/a".to_string(), "/b".to_string(), "/a/./".to_string()],
    );
    assert_eq!(inputs.system_roots.len(), 2);
    assert!(inputs.system_roots[0].starts_with("/a"));
    assert!(inputs.system_roots[1].starts_with("/b"));
}
