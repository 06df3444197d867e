use codex_monitor::candidate::FieldCandidate;
use codex_monitor::snapshot::{build_status, SnapshotCandidates, SnapshotCollector, SnapshotOptions};
use codex_monitor::time::Timestamp;

fn utc(epoch: i64) -> Timestamp {
    Timestamp::from_unix(epoch, 0).unwrap()
}

#[test]
fn recent_rate_plan_overrides_older_free_auth_claim() {
    let mut candidates: SnapshotCandidates<f64> = SnapshotCandidates::default();
    candidates.subscription.push(FieldCandidate::new("free".to_string(), "auth", utc(1_700_000_000), 800));
    candidates.subscription.push(FieldCandidate::new("plus".to_string(), "rollout", utc(1_800_000_000), 980));

    let status = build_status(candidates);

    assert_eq!(status.subscription.value.as_deref(), Some("plus"));
}

#[test]
fn missing_sqlite_effort_does_not_hide_rollout_quota() {
    let mut candidates: SnapshotCandidates<f64> = SnapshotCandidates::default();
    candidates.remaining_percent.push(FieldCandidate::new(87.0, "rollout", utc(1_800_000_000), 980));

    let status = build_status(candidates);

    assert_eq!(status.reasoning_effort.value, None);
    assert_eq!(status.remaining_percent.value, Some(87.0));
    assert_eq!(status.sync_state, "connected");
}

#[test]
fn rollout_plan_wins_even_when_older_than_auth_claim() {
    let mut candidates: SnapshotCandidates<f64> = SnapshotCandidates::default();
    candidates.subscription.push(FieldCandidate::new("plus".to_string(), "rollout", utc(1_700_000_000), 980));
    candidates.subscription.push(FieldCandidate::new("free".to_string(), "auth", utc(1_800_000_000), 800));

    let status = build_status(candidates);

    assert_eq!(status.subscription.value.as_deref(), Some("plus"));
    assert_eq!(status.subscription.source.as_deref(), Some("file"));
    assert_eq!(status.subscription.confidence, Some(980));
    assert_eq!(status.subscription.observed_at.as_deref(), Some("2023-11-14T22:13:20+00:00"));
}

#[test]
fn equal_sources_prefer_the_newest_then_the_last() {
    let mut candidates: SnapshotCandidates<f64> = SnapshotCandidates::default();
    candidates.model.push(FieldCandidate::new("a".to_string(), "sqlite", utc(1_800_000_000), 860));
    candidates.model.push(FieldCandidate::new("b".to_string(), "sqlite", utc(1_700_000_000), 860));
    candidates.model.push(FieldCandidate::new("c".to_string(), "sqlite", utc(1_800_000_000), 860));

    let status = build_status(candidates);

    assert_eq!(status.model.value.as_deref(), Some("c"));
}

#[test]
fn no_candidates_asks_for_reconnaissance() {
    let candidates: SnapshotCandidates<f64> = SnapshotCandidates::default();

    let status = build_status(candidates);

    assert_eq!(status.model.value, None);
    assert_eq!(status.remaining_percent.value, None);
    assert_eq!(status.sync_state, "recon-required");
    assert_eq!(
        status.message.as_deref(),
        Some("未发现可信数据源，请确认 Codex 已登录并至少运行过一个任务")
    );
}

#[test]
fn reasoning_speed_alone_does_not_connect() {
    let mut candidates: SnapshotCandidates<f64> = SnapshotCandidates::default();
    candidates.reasoning_speed.push(FieldCandidate::new(12.5, "rollout", utc(1_800_000_000), 900));

    let status = build_status(candidates);

    assert_eq!(status.reasoning_speed.value, Some(12.5));
    assert_eq!(status.sync_state, "recon-required");
}

#[test]
fn force_discovery_always_discovers_again() {
    let collector = SnapshotCollector::default();
    assert!(collector.should_discover(false, true));
    let mut collector = SnapshotCollector::default();
    collector.store(Vec::new());
    assert!(!collector.should_discover(false, true));
    assert!(collector.should_discover(true, true));
    assert!(collector.should_discover(false, false));
    let options = SnapshotOptions::default();
    assert!(!options.force_discovery);
    assert!(options.diagnostics_path.is_none());
}

use codex_monitor::candidate::DiagnosticIssue;
use codex_monitor::diagnostics::{DiagnosticReport, DiagnosticRoot};
use codex_monitor::snapshot::diagnostics_to_store;

#[test]
fn only_redacted_diagnostics_are_stored() {
    let report = DiagnosticReport {
        roots: vec![DiagnosticRoot {
            path: "/home/alice/.codex".to_string(),
            evidence: vec!["sessions".to_string()],
            tables: vec![],
            columns: vec![],
            event_types: vec![],
        }],
        issues: vec![DiagnosticIssue::new("auth-token-invalid", "alice@example.com")],
    };
    assert!(diagnostics_to_store(&report, "/home/alice", &None).is_none());
    let (path, stored) = diagnostics_to_store(&report, "/home/alice", &Some("/tmp/d.json".to_string())).unwrap();
    assert_eq!(path, "/tmp/d.json");
    assert_eq!(stored.roots[0].path, "%USER_HOME%/.codex");
    assert_eq!(stored.issues[0].source, "redacted");
}
