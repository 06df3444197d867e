use codex_monitor::provider::{
    check_log_path, connected_status, holds_text, log_capture, mapped_field, rule_source, set_mapped_number,
    set_mapped_text, status_route, unsupported_status, MappedField, RuleSource, StatusRoute,
};
use codex_monitor::status::CodexStatus;
use codex_monitor::text::decimal;

#[test]
fn provider_names_choose_a_route() {
    assert_eq!(status_route("mitm"), Ok(StatusRoute::Unsupported));
    assert_eq!(status_route("auto"), Ok(StatusRoute::Snapshot));
    for name in ["file", "log", "loopback", "recon"] {
        assert_eq!(status_route(name), Ok(StatusRoute::Mapped));
    }
    assert_eq!(status_route("mock"), Err("无效 provider".to_string()));
    let s: CodexStatus<f64> = unsupported_status();
    assert_eq!(s.sync_state, "unsupported");
    assert_eq!(s.message.as_deref(), Some("MITM、TLS hook 与读内存首版不实现"));
}

#[test]
fn rule_sources_and_fields() {
    assert_eq!(rule_source("file"), Some(RuleSource::File));
    assert_eq!(rule_source("log"), Some(RuleSource::Log));
    assert_eq!(rule_source("loopback"), None);
    assert_eq!(mapped_field("reasoningEffort"), Some(MappedField::ReasoningEffort));
    assert_eq!(mapped_field("weeklyDurationSeconds"), Some(MappedField::WeeklyDurationSeconds));
    assert_eq!(mapped_field("speedMode"), None);
    assert!(holds_text(MappedField::ResetAt));
    assert!(!holds_text(MappedField::MonthlyUsage));
}

#[test]
fn mapped_values_fill_only_their_field() {
    let mut s: CodexStatus<f64> = connected_status();
    assert_eq!(s.sync_state, "connected");
    set_mapped_text(&mut s, MappedField::Model, "gpt-x".to_string(), "2026-01-01T00:00:00+00:00");
    set_mapped_number(&mut s, MappedField::RemainingPercent, 42.5, "2026-01-01T00:00:00+00:00");
    assert_eq!(s.model.value.as_deref(), Some("gpt-x"));
    assert_eq!(s.model.source.as_deref(), Some("file"));
    assert_eq!(s.model.confidence, Some(900));
    assert_eq!(s.remaining_percent.value, Some(42.5));
    assert_eq!(s.username.value, None);
    assert_eq!(s.monthly_usage.value, None);
}

#[test]
fn log_capture_takes_group_one_of_last_match() {
    let tail = "used=10\nused=25\n";
    assert_eq!(log_capture("logs/a.log", r"used=(\d+)", tail), Ok("25".to_string()));
    assert_eq!(log_capture("logs/a.log", r"left=(\d+)", tail), Err("日志未命中捕获组".to_string()));
    assert!(log_capture("logs/a.log", r"used=(\d+", tail).unwrap_err().starts_with("无效正则: "));
    assert_eq!(log_capture("../a.log", r"used=(\d+)", tail), Err("日志路径必须是安全相对路径".to_string()));
    assert!(check_log_path("/abs/a.log").is_err());
    assert!(check_log_path("logs/a.log").is_ok());
}

#[test]
fn decimal_numerals() {
    assert_eq!(decimal(0), "0");
    assert_eq!(decimal(7), "7");
    assert_eq!(decimal(1420), "1420");
    assert_eq!(decimal(u64::MAX), "18446744073709551615");
}

use codex_monitor::provider::mapping_gate;

#[test]
fn mapping_gate_outcomes() {
    let none: CodexStatus<f64> = mapping_gate(false, true, true).unwrap().unwrap();
    assert_eq!(none.sync_state, "recon-required");
    assert_eq!(none.message.as_deref(), Some("未发现可信数据源，请运行重新侦察并配置字段映射"));
    assert_eq!(mapping_gate::<f64>(true, false, false).unwrap_err(), "映射缺少运行时发现的 baseDirectory");
    let gone: CodexStatus<f64> = mapping_gate(true, true, false).unwrap().unwrap();
    assert_eq!(gone.message.as_deref(), Some("数据位置已变化，请重新侦察"));
    assert!(mapping_gate::<f64>(true, true, true).unwrap().is_none());
}

use codex_monitor::provider::{apply_rule_read, is_share_field, RuleValue};

#[test]
fn rule_reads_fill_their_field_or_nothing() {
    let mut s: CodexStatus<f64> = connected_status();
    apply_rule_read(&mut s, "model", Ok(RuleValue::Text("gpt-y".to_string())), "t");
    apply_rule_read(&mut s, "monthlyUsage", Ok(RuleValue::Number(3.5)), "t");
    apply_rule_read(&mut s, "username", Ok(RuleValue::Number(1.0)), "t");
    apply_rule_read(&mut s, "reasoningSpeed", Ok(RuleValue::Text("fast".to_string())), "t");
    apply_rule_read(&mut s, "subscription", Err("read failed".to_string()), "t");
    apply_rule_read(&mut s, "nonsense", Ok(RuleValue::Text("x".to_string())), "t");
    assert_eq!(s.model.value.as_deref(), Some("gpt-y"));
    assert_eq!(s.monthly_usage.value, Some(3.5));
    assert_eq!(s.username.value, None);
    assert_eq!(s.reasoning_speed.value, None);
    assert_eq!(s.subscription.value, None);
    assert!(is_share_field("remainingPercent"));
    assert!(!is_share_field("monthlyUsage"));
}
