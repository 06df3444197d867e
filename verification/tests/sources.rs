use base64::engine::general_purpose::URL_SAFE_NO_PAD;
use base64::Engine;
use codex_monitor::auth::auth_candidates_from;
use codex_monitor::candidate::DiagnosticIssue;
use codex_monitor::diagnostics::{DiagnosticReport, DiagnosticRoot};
use codex_monitor::rollout::{read_rollout_candidates, RolloutRead};
use codex_monitor::sqlite::{thread_candidates_from_rows, thread_query, thread_table, ThreadRow};
use codex_monitor::time::Timestamp;
use serde_json::Value;

fn utc(epoch: i64) -> Timestamp {
    Timestamp::from_unix(epoch, 0).unwrap()
}

fn object(pairs: Vec<(&str, Value)>) -> Value {
    let mut map = serde_json::Map::new();
    for (k, v) in pairs {
        map.insert(k.to_string(), v);
    }
    Value::Object(map)
}

fn auth_json(token: &str) -> String {
    object(vec![("tokens", object(vec![("id_token", Value::String(token.to_string()))]))]).to_string()
}

#[test]
fn reads_username_and_subscription_from_valid_claims() {
    let payload = URL_SAFE_NO_PAD.encode(
        object(vec![
            ("name", Value::String("Test User".to_string())),
            ("https://api.openai.com/auth/chatgpt_plan_type", Value::String("plus".to_string())),
        ])
        .to_string(),
    );
    let content = auth_json(&format!("header.{payload}.signature"));

    let result = auth_candidates_from(Some(&content), utc(1_800_000_000));

    assert_eq!(result.value.username.unwrap().value, "Test User");
    assert_eq!(result.value.subscription.unwrap().value, "plus");
}

#[test]
fn token_never_enters_diagnostics() {
    let content = auth_json("header.secret_payload.signature");

    let result = auth_candidates_from(Some(&content), utc(1_800_000_000));
    let shown = format!("{:?}", result.issues);

    assert!(!shown.contains("secret_payload"));
    assert!(result.issues.iter().any(|issue| issue.code == "auth-token-invalid"));
}

#[test]
fn missing_auth_file_is_an_issue_without_values() {
    let result = auth_candidates_from(None, utc(1_800_000_000));
    assert!(result.value.username.is_none());
    assert!(result.value.subscription.is_none());
    assert_eq!(result.issues.len(), 1);
    assert_eq!(result.issues[0].code, "auth-file-missing");
    assert_eq!(result.issues[0].source, "auth.json");
}

#[test]
fn report_contains_structure_but_not_values_or_home_prefix() {
    let report = DiagnosticReport {
        roots: vec![DiagnosticRoot {
            path: "C:/Users/Alice/.codex".to_string(),
            evidence: vec!["state-database".to_string()],
            tables: vec!["threads".to_string()],
            columns: vec!["model".to_string(), "reasoning_effort".to_string()],
            event_types: vec!["token_count".to_string()],
        }],
        issues: vec![DiagnosticIssue::new("auth-token-invalid", "alice@example.com eyJsecret")],
    };

    let redacted = report.redacted_for("C:/Users/Alice");
    let shown = format!("{:?}", redacted);

    assert!(shown.contains("threads"));
    assert!(!shown.contains("Alice"));
    assert!(!shown.contains("alice@example.com"));
    assert!(!shown.contains("eyJ"));
}

fn token_count_event(plan: &str, used: f64, epoch: i64) -> String {
    object(vec![
        ("timestamp", Value::String(utc(epoch).to_rfc3339())),
        (
            "payload",
            object(vec![
                ("type", Value::String("token_count".to_string())),
                (
                    "rate_limits",
                    object(vec![
                        (
                            "primary",
                            object(vec![
                                ("used_percent", Value::from(used)),
                                ("resets_at", Value::from(epoch + 3600)),
                            ]),
                        ),
                        ("plan_type", Value::String(plan.to_string())),
                    ]),
                ),
            ]),
        ),
    ])
    .to_string()
}

fn remaining(used: &str) -> f64 {
    (100.0 - used.parse::<f64>().unwrap()).clamp(0.0, 100.0)
}

#[test]
fn newer_rate_event_wins_across_multiple_rollouts() {
    let root = "/data/root".to_string();
    let reads = vec![
        RolloutRead {
            path: "/data/root/sessions/2026/07/old.jsonl".to_string(),
            key: Some("/data/root/sessions/2026/07/old.jsonl".to_string()),
            content: Some((token_count_event("free", 40.0, 1_700_000_000), utc(1_700_000_000))),
        },
        RolloutRead {
            path: "/data/root/sessions/2026/07/new.jsonl".to_string(),
            key: Some("/data/root/sessions/2026/07/new.jsonl".to_string()),
            content: Some((token_count_event("plus", 12.0, 1_800_000_000), utc(1_800_000_000))),
        },
    ];

    let result = read_rollout_candidates(Some(root), reads);

    assert_eq!(result.value.subscription.unwrap().value, "plus");
    assert_eq!(remaining(&result.value.remaining_percent.unwrap().value.text), 88.0);
}

#[test]
fn older_event_read_later_does_not_replace_newer_one() {
    let root = "/data/root".to_string();
    let reads = vec![
        RolloutRead {
            path: "/data/root/sessions/new.jsonl".to_string(),
            key: Some("/data/root/sessions/new.jsonl".to_string()),
            content: Some((token_count_event("plus", 12.0, 1_800_000_000), utc(1_800_000_000))),
        },
        RolloutRead {
            path: "/data/root/sessions/old.jsonl".to_string(),
            key: Some("/data/root/sessions/old.jsonl".to_string()),
            content: Some((token_count_event("free", 40.0, 1_700_000_000), utc(1_700_000_000))),
        },
    ];

    let result = read_rollout_candidates(Some(root), reads);

    assert_eq!(result.value.subscription.unwrap().value, "plus");
    assert_eq!(result.value.remaining_percent.unwrap().value.text, "12.0");
}

#[test]
fn invalid_lines_do_not_discard_valid_tail_events() {
    let valid = token_count_event("plus", 5.0, 1_800_000_000);
    let reads = vec![RolloutRead {
        path: "/data/root/sessions/2026/07/mixed.jsonl".to_string(),
        key: Some("/data/root/sessions/2026/07/mixed.jsonl".to_string()),
        content: Some((format!("bad json\n{valid}\n"), utc(1_800_000_000))),
    }];

    let result = read_rollout_candidates(Some("/data/root".to_string()), reads);

    assert_eq!(remaining(&result.value.remaining_percent.unwrap().value.text), 95.0);
    assert!(result.issues.iter().any(|issue| issue.code == "rollout-invalid-line"));
}

#[test]
fn rollout_outside_root_is_only_an_issue() {
    let valid = token_count_event("plus", 5.0, 1_800_000_000);
    let reads = vec![RolloutRead {
        path: "/elsewhere/x.jsonl".to_string(),
        key: Some("/elsewhere/x.jsonl".to_string()),
        content: Some((valid, utc(1_800_000_000))),
    }];

    let result = read_rollout_candidates(Some("/data/root".to_string()), reads);

    assert!(result.value.remaining_percent.is_none());
    assert_eq!(result.issues.len(), 1);
    assert_eq!(result.issues[0].code, "rollout-path-outside-root");
    assert_eq!(result.issues[0].source, "x.jsonl");
}

#[test]
fn missing_tokens_column_does_not_hide_model_and_effort() {
    let columns = vec![
        "model".to_string(),
        "reasoning_effort".to_string(),
        "cli_version".to_string(),
        "updated_at_ms".to_string(),
    ];
    let table = thread_table(&vec!["threads".to_string()]).unwrap();
    let query = thread_query(&table, &columns).unwrap();
    assert_eq!(
        query,
        "SELECT \"model\", \"reasoning_effort\", \"cli_version\", NULL, \"updated_at_ms\" FROM \"threads\" ORDER BY \"updated_at_ms\" DESC LIMIT 32"
    );
    let rows = vec![ThreadRow {
        model: Some("gpt-5.6-sol".to_string()),
        effort: Some("high".to_string()),
        version: Some("1.2.3".to_string()),
        rollout_path: None,
        updated: Some(1000),
    }];

    let result = thread_candidates_from_rows(rows, utc(1_800_000_000));

    assert_eq!(result.model.unwrap().value, "gpt-5.6-sol");
    assert_eq!(result.reasoning_effort.unwrap().value, "high");
}

#[test]
fn supports_version_alias_without_requiring_all_known_columns() {
    let columns = vec![
        "model_slug".to_string(),
        "effort".to_string(),
        "app_version".to_string(),
        "updated_at".to_string(),
    ];
    let query = thread_query("threads", &columns).unwrap();
    assert_eq!(
        query,
        "SELECT \"model_slug\", \"effort\", \"app_version\", NULL, \"updated_at\" FROM \"threads\" ORDER BY \"updated_at\" DESC LIMIT 32"
    );
    let rows = vec![ThreadRow {
        model: Some("gpt-5.6-sol".to_string()),
        effort: Some("medium".to_string()),
        version: Some("2.0.0".to_string()),
        rollout_path: None,
        updated: Some(2000),
    }];

    let result = thread_candidates_from_rows(rows, utc(1_800_000_000));

    assert_eq!(result.client_version.unwrap().value, "2.0.0");
}

#[test]
fn table_without_known_columns_is_refused() {
    let columns = vec!["tokens".to_string()];
    assert_eq!(thread_query("threads", &columns), Err("sqlite-supported-columns-missing"));
}

#[test]
fn review_model_rows_are_skipped_and_newest_row_wins() {
    let row = |model: &str, updated: i64| ThreadRow {
        model: Some(model.to_string()),
        effort: None,
        version: None,
        rollout_path: Some(format!("sessions/{model}.jsonl")),
        updated: Some(updated),
    };
    let rows = vec![
        row("gpt-old", 1_700_000_000),
        row(" Codex-Auto-Review ", 1_900_000_000),
        row("gpt-new", 1_800_000_000_000),
        row("gpt-tie", 1_800_000_000),
    ];

    let result = thread_candidates_from_rows(rows, utc(1_600_000_000));

    let model = result.model.unwrap();
    assert_eq!(model.value, "gpt-new");
    assert_eq!(model.source, "sqlite");
    assert_eq!(model.confidence, 860);
    assert_eq!(result.rollout_paths.len(), 4);
    assert_eq!(result.rollout_paths[1].value, "sessions/ Codex-Auto-Review .jsonl");
    assert_eq!(result.rollout_paths[0].confidence, 700);
}

use codex_monitor::candidate::{AdapterResult, FieldCandidate};
use codex_monitor::rollout::{parse_rollout, RolloutCandidates, UsedPercent};

#[test]
fn lines_without_rate_event_leave_rate_slots_untouched() {
    let mut result: AdapterResult<RolloutCandidates<UsedPercent>> = AdapterResult::new(RolloutCandidates::new());
    result.value.subscription = Some(FieldCandidate::new("free".to_string(), "auth", utc(1_700_000_000), 800));
    let line = object(vec![
        ("timestamp", Value::String(utc(1_800_000_000).to_rfc3339())),
        (
            "payload",
            object(vec![
                ("type", Value::String("turn_context".to_string())),
                ("model", Value::String("gpt-x".to_string())),
                ("plan_type", Value::String("plus".to_string())),
            ]),
        ),
    ])
    .to_string();

    parse_rollout("a.jsonl", &line, utc(1_800_000_000), &mut result);

    let plan = result.value.subscription.unwrap();
    assert_eq!(plan.value, "free");
    assert_eq!(plan.source, "auth");
    assert_eq!(plan.confidence, 800);
    assert_eq!(result.value.model.unwrap().value, "gpt-x");
    assert!(result.value.remaining_percent.is_none());
    assert!(result.issues.is_empty());
}
