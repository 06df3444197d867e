use codex_monitor::json::JsonItem;
use codex_monitor::mapping::{read_json_value, rule_file, selector_parts, FieldMapping, FieldRule};

fn rule(path: &str, selector: &str) -> FieldRule<f64> {
    FieldRule {
        field: "model".to_string(),
        provider: "file".to_string(),
        relative_path: path.to_string(),
        selector: selector.to_string(),
        scale: None,
    }
}

#[test]
fn rejects_absolute_relative_path() {
    let mapping = FieldMapping { base_directory: Some("/data".to_string()), rules: vec![rule("/etc/secret.json", "$.model")] };
    match mapping.validated() {
        Err(message) => assert_eq!(message, "relativePath 只能是安全的相对路径"),
        Ok(_) => panic!("an absolute path must be refused"),
    }
}

#[test]
fn rejects_parent_component() {
    let mapping = FieldMapping { base_directory: None, rules: vec![rule("a.json", "$.x"), rule("sub/../../b.json", "$.model")] };
    assert!(mapping.validated().is_err());
}

#[test]
fn keeps_safe_mapping() {
    let mapping = FieldMapping { base_directory: Some("/data".to_string()), rules: vec![rule("state/info.json", "$.model")] };
    let kept = mapping.validated().unwrap();
    assert_eq!(kept.rules.len(), 1);
    assert_eq!(kept.rules[0].relative_path, "state/info.json");
    assert_eq!(kept.base_directory.as_deref(), Some("/data"));
}

#[test]
fn rule_file_joins_base_and_relative_path() {
    assert_eq!(rule_file("/data", &rule("state/info.json", "$.model")), "/data/state/info.json");
}

#[test]
fn selector_drops_every_leading_root_marker() {
    assert_eq!(selector_parts("$.a.b"), vec!["a", "b"]);
    assert_eq!(selector_parts("$.$.a"), vec!["a"]);
    assert_eq!(selector_parts("plain"), vec!["plain"]);
    assert_eq!(selector_parts(""), vec![""]);
}

#[test]
fn reads_value_at_selector() {
    let content = br#"{"usage":{"plan":"plus","left":42}}"#;
    match read_json_value(content, &rule("x.json", "$.usage.plan")) {
        Ok(JsonItem::Text(s)) => assert_eq!(s, "plus"),
        other => panic!("unexpected {:?}", other),
    }
    match read_json_value(content, &rule("x.json", "$.usage.left")) {
        Ok(JsonItem::Number(text, Some(n))) => {
            assert_eq!(text, "42");
            assert_eq!(n, 42);
        },
        other => panic!("unexpected {:?}", other),
    }
}

#[test]
fn missing_member_names_the_selector() {
    let content = br#"{"usage":[{"plan":"plus"}]}"#;
    match read_json_value(content, &rule("x.json", "$.usage.0.plan")) {
        Err(message) => assert_eq!(message, "字段路径不存在: $.usage.0.plan"),
        other => panic!("unexpected {:?}", other),
    }
}

#[test]
fn content_that_is_not_json_is_an_error() {
    match read_json_value(b"not json", &rule("x.json", "$.a")) {
        Err(message) => assert_eq!(message, "expected ident at line 1 column 2"),
        other => panic!("unexpected {:?}", other),
    }
}
