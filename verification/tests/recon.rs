use codex_monitor::recon::{sanitize, tray_menu_ids, validate_loopback, HostAddress};

#[test]
fn tray_menu_excludes_recon() {
    assert_eq!(tray_menu_ids(), ["show", "top", "quit"]);
}

#[test]
fn redacts_secrets() {
    let s = sanitize("me@example.com bearer abcdefghijklmnop");
    assert!(!s.contains("me@example.com"));
    assert!(!s.contains("abcdefghijklmnop"));
}

#[test]
fn permits_only_ipv4_loopback() {
    assert!(validate_loopback(HostAddress::V4(127, 0, 0, 1)));
    assert!(!validate_loopback(HostAddress::V4(8, 8, 8, 8)));
}

use codex_monitor::recon::{
    candidate_extension, inspect_sample, loopback_ports, process_candidate, rank_files, rank_processes, recommendation,
    try_sanitize, CandidateFile, CandidateProcess, FileScan, Redactor, WalkEntry,
};
use codex_monitor::time::Timestamp;

fn file(path: &str, score: usize, modified: Option<i64>) -> CandidateFile {
    CandidateFile {
        path: path.to_string(),
        size: 1,
        modified_at: modified.map(|s| Timestamp::from_unix(s, 0).unwrap()),
        score,
        hits: Vec::new(),
        snippets: Vec::new(),
    }
}

#[test]
fn sanitize_keeps_the_shape_of_masked_values() {
    assert_eq!(sanitize("mail me@example.com now"), "mail m***@example.com now");
    assert_eq!(sanitize("Bearer abcdefghijklmnop"), "Bearer ***");
    assert_eq!(sanitize("sk-abcdefgh12345"), "sk-***");
    assert_eq!(sanitize("token: short"), "token: short");
    assert_eq!(try_sanitize("me@example.com").as_deref(), Some("m***@example.com"));
}

#[test]
fn candidate_extensions_ignore_case() {
    assert!(candidate_extension("/x/state_1.SQLite"));
    assert!(candidate_extension("a.jsonl") == false);
    assert!(candidate_extension("a.LDB"));
    assert!(!candidate_extension("README"));
}

#[test]
fn sample_reports_keywords_and_masked_lines() {
    let redactor = Redactor::new().unwrap();
    let sample = b"Header\nUser: me@example.com\nnothing here\nPLAN plus\nmodel x\nreset soon\n";
    let found = inspect_sample(&redactor, "/d/a.log".to_string(), 99, None, sample).unwrap();
    assert_eq!(found.hits, vec!["reset", "model", "plan", "user"]);
    assert_eq!(found.score, 4);
    assert_eq!(found.size, 99);
    assert_eq!(found.snippets, vec!["user: m***@example.com", "plan plus", "model x"]);
}

#[test]
fn sample_without_keywords_is_dropped() {
    let redactor = Redactor::new().unwrap();
    assert!(inspect_sample(&redactor, "/d/b.log".to_string(), 3, None, b"abc").is_none());
}

#[test]
fn files_rank_by_score_then_newest() {
    let ranked = rank_files(vec![
        file("/low", 1, Some(1_900_000_000)),
        file("/unknown", 3, None),
        file("/old", 3, Some(1_700_000_000)),
        file("/new", 3, Some(1_800_000_000)),
    ]);
    let paths: Vec<&str> = ranked.iter().map(|f| f.path.as_str()).collect();
    assert_eq!(paths, vec!["/new", "/old", "/unknown", "/low"]);
}

#[test]
fn processes_score_name_and_command_and_keep_twenty_four() {
    let p = process_candidate("Usage-Daemon".to_string(), &vec!["--Model".to_string(), "x".to_string()], None).unwrap();
    assert_eq!(p.score, 2);
    assert!(process_candidate("bash".to_string(), &vec![], None).is_none());
    let many: Vec<CandidateProcess> = (0..30)
        .map(|i| CandidateProcess { name: format!("p{i}"), executable: None, score: i % 3 + 1 })
        .collect();
    let kept = rank_processes(many);
    assert_eq!(kept.len(), 24);
    assert_eq!(kept[0].name, "p2");
    assert!(kept.windows(2).all(|w| w[0].score >= w[1].score));
}

#[test]
fn walk_remembers_paths_and_skips_old_files() {
    let recent = Timestamp::from_unix(1_800_000_000, 0).unwrap();
    let mut scan = FileScan::new();
    let fresh = WalkEntry { path: "/r/a.json".to_string(), is_file: true, modified_at: Some(Timestamp::from_unix(1_900_000_000, 0).unwrap()) };
    let old = WalkEntry { path: "/r/b.json".to_string(), is_file: true, modified_at: Some(Timestamp::from_unix(1_000_000_000, 0).unwrap()) };
    let dir = WalkEntry { path: "/r/c.json".to_string(), is_file: false, modified_at: None };
    assert!(scan.consider(&fresh, recent));
    assert!(!scan.consider(&fresh, recent));
    assert!(!scan.consider(&old, recent));
    assert!(!scan.consider(&dir, recent));
    assert_eq!(scan.seen(), &vec!["/r/a.json".to_string(), "/r/b.json".to_string()]);
    assert!(!scan.is_full());
    scan.record(Some(file("/r/a.json", 1, None)));
    scan.record(None);
    assert_eq!(scan.files().len(), 1);
}

#[test]
fn report_advice_and_ports() {
    assert_eq!(recommendation(false), "未发现可靠来源；auto 模式将显示 --");
    assert_eq!(loopback_ports(), vec![3000, 8000, 8080, 8787, 1420]);
}

use codex_monitor::recon::{assemble_report, report_markdown, LoopbackResult, MAX_FILES};

#[test]
fn report_markdown_lists_everything_in_order() {
    let generated_at = Timestamp::from_unix(1_800_000_000, 0).unwrap();
    let mut top = file("/d/state.json", 2, Some(1_700_000_000));
    top.size = 120;
    top.hits = vec!["model".to_string(), "plan".to_string()];
    let mut scan = FileScan::new();
    scan.record(Some(file("/d/low.log", 1, None)));
    scan.record(Some(top));
    let report = assemble_report(
        generated_at,
        vec!["/d".to_string()],
        scan,
        vec![CandidateProcess { name: "codex".to_string(), executable: None, score: 1 }],
        vec![LoopbackResult { port: 3000, reachable: false }, LoopbackResult { port: 1420, reachable: true }],
    );
    assert_eq!(report.files[0].path, "/d/state.json");
    assert_eq!(report.recommendation, "优先根据高分文件生成 field-mapping.json，再启用 file/log provider");
    let md = report_markdown(&report);
    assert_eq!(
        md,
        "# Codex Monitor Recon Report\n\n生成时间：2027-01-15 08:00:00 UTC\n\n> 报告仅来自本机只读抽样，敏感信息已脱敏。\n\n\
         - `/d/state.json` — score 2, 120 bytes, hits: model, plan\n\
         - `/d/low.log` — score 1, 1 bytes, hits: \n\
         \n## 候选进程\n\n- `codex` — score 1\n\
         \n## 本机回环端口\n\n- 127.0.0.1:3000 — closed\n- 127.0.0.1:1420 — reachable\n\
         \n## 建议\n\n优先根据高分文件生成 field-mapping.json，再启用 file/log provider\n"
    );
}

#[test]
fn empty_report_advises_that_auto_shows_dashes() {
    let generated_at = Timestamp::from_unix(0, 0).unwrap();
    let report = assemble_report(generated_at, Vec::new(), FileScan::new(), Vec::new(), Vec::new());
    assert_eq!(report.recommendation, "未发现可靠来源；auto 模式将显示 --");
}

#[test]
fn a_full_walk_keeps_at_most_the_cap() {
    let mut scan = FileScan::new();
    for i in 0..(MAX_FILES + 5) {
        scan.record(Some(file(&format!("/r/{i}.json"), 1, None)));
    }
    assert!(scan.is_full());
    assert_eq!(scan.files().len(), MAX_FILES);
    let report = assemble_report(Timestamp::from_unix(0, 0).unwrap(), Vec::new(), scan, Vec::new(), Vec::new());
    assert_eq!(report.files.len(), MAX_FILES);
}
