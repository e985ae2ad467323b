use torshield::iran_anti_siam::{
    bridge_lines_from_json, bridge_lines_from_text, build_md_report, dedup_first_seen, export_body, is_txt_source,
    load_bridges_txt_from, pick_bridge_source, run_timestamps, summarize_results, BridgesJson, JsonItem,
    ScoredBridge,
};

fn item(truthy: bool, text: &str) -> JsonItem {
    JsonItem { truthy, text: text.to_string() }
}

fn strings(v: &[&str]) -> Vec<String> {
    v.iter().map(|s| s.to_string()).collect()
}

fn scored(line: &str, transport: &str, tier: &str) -> ScoredBridge {
    ScoredBridge { bridge_line: line.to_string(), transport: transport.to_string(), bypass_tier: tier.to_string() }
}

#[test]
fn load_bridges_json_array_filters_truthy_strings() {
    // ["bridge1", "bridge2", "", null, "bridge3"]
    let doc = BridgesJson::Array(vec![
        item(true, "bridge1"),
        item(true, "bridge2"),
        item(false, ""),
        item(false, "None"),
        item(true, "bridge3"),
    ]);
    assert_eq!(bridge_lines_from_json(&doc), strings(&["bridge1", "bridge2", "bridge3"]));
}

#[test]
fn load_bridges_json_dict_extracts_line_field() {
    // {"bridges":[{"line":"b1"},{"line":"b2"},{"other":"no line"},{"line":""}]}
    let doc = BridgesJson::Object(Some(vec![
        Some(Some(item(true, "b1"))),
        Some(Some(item(true, "b2"))),
        Some(None),
        Some(Some(item(false, ""))),
    ]));
    assert_eq!(bridge_lines_from_json(&doc), strings(&["b1", "b2"]));
}

#[test]
fn load_bridges_json_non_object_root_returns_empty() {
    assert!(bridge_lines_from_json(&BridgesJson::Other).is_empty());
}

#[test]
fn load_bridges_json_non_object_entry_drops_everything() {
    let doc = BridgesJson::Object(Some(vec![Some(Some(item(true, "b1"))), None]));
    assert!(bridge_lines_from_json(&doc).is_empty());
    assert!(bridge_lines_from_json(&BridgesJson::Object(None)).is_empty());
}

#[test]
fn load_bridges_txt_skips_blocked_and_comments_and_dedupes() {
    let files = vec![
        ("b.txt".to_string(), "bridge4\n".to_string()),
        ("iran_blocked.txt".to_string(), "should be skipped\n".to_string()),
        ("a.txt".to_string(), "# comment\nbridge1\n\nbridge2\n  bridge3  \n# another\nbridge1\n".to_string()),
        ("notes.md".to_string(), "not a source\n".to_string()),
    ];
    assert_eq!(load_bridges_txt_from(&files), strings(&["bridge1", "bridge2", "bridge3", "bridge4"]));
}

#[test]
fn text_lines_are_trimmed_and_crlf_tolerant() {
    assert_eq!(bridge_lines_from_text("a\r\n  #x\n\tb \n\nc"), strings(&["a", "b", "c"]));
    assert!(bridge_lines_from_text("").is_empty());
    assert_eq!(dedup_first_seen(&strings(&["x", "y", "x", "z", "y"])), strings(&["x", "y", "z"]));
    assert!(is_txt_source("obfs4.txt"));
    assert!(!is_txt_source("iran_blocked_v6.txt"));
    assert!(!is_txt_source("obfs4.json"));
}

#[test]
fn load_bridges_prefers_test_json_then_iran_results_then_txt() {
    let txt = strings(&["vanilla_bridge"]);
    assert_eq!(pick_bridge_source(vec![], vec![], txt.clone()), txt);
    assert_eq!(pick_bridge_source(vec![], strings(&["iran_bridge"]), txt.clone()), strings(&["iran_bridge"]));
    assert_eq!(
        pick_bridge_source(strings(&["test_bridge"]), strings(&["iran_bridge"]), txt),
        strings(&["test_bridge"])
    );
}

#[test]
fn build_md_report_renders_tier_and_transport_counts() {
    let results = vec![scored("snowflake x", "snowflake", "PHANTOM"), scored("obfs4 y", "obfs4", "COVERT")];
    let summary = summarize_results(&results);
    // Mean of 0.97 and 0.5, and the best, as rendered to one decimal.
    let md = build_md_report(results.len(), &summary.tier_summary, &summary.transport_summary, "2026-06-25 12:00 UTC", "73.5", "97.0");
    assert!(md.contains("# 🛡️ گزارش تحلیل SIAM ایران / Iran SIAM DPI Analysis"));
    assert!(md.contains("میانگین امتیاز دور زدن: **73.5%**"));
    assert!(md.contains("بهترین امتیاز: **97.0%**"));
    assert!(md.contains("| 👻 PHANTOM  | 1  |"));
    assert!(md.contains("| 🥷 COVERT   | 1   |"));
    assert!(md.contains("| snowflake | 1 |"));
    assert!(md.contains("| obfs4 | 1 |"));
}

#[test]
fn build_md_report_empty_results_uses_zero_scores() {
    let md = build_md_report(0, &Vec::new(), &Vec::new(), "2026-06-25 12:00 UTC", "0.0", "0.0");
    assert!(md.contains("میانگین امتیاز دور زدن: **0.0%**"));
    assert!(md.contains("بهترین امتیاز: **0.0%**"));
    assert!(md.contains("| 👻 PHANTOM  | 0  |"));
}

#[test]
fn transport_rows_run_from_most_used_with_stable_ties() {
    let transports = vec![("a".to_string(), 1), ("b".to_string(), 3), ("c".to_string(), 1), ("d".to_string(), 3)];
    let md = build_md_report(8, &Vec::new(), &transports, "t", "0.0", "0.0");
    let b = md.find("| b | 3 |").unwrap();
    let d = md.find("| d | 3 |").unwrap();
    let a = md.find("| a | 1 |").unwrap();
    let c = md.find("| c | 1 |").unwrap();
    assert!(b < d && d < a && a < c);
}

#[test]
fn summary_counts_tiers_transports_and_exports() {
    let results = vec![
        scored("s1", "snowflake", "PHANTOM"),
        scored("o1", "obfs4", "STEALTH"),
        scored("s2", "snowflake", "PHANTOM"),
        scored("v1", "vanilla", "DETECTED"),
    ];
    let s = summarize_results(&results);
    assert_eq!(
        s.tier_summary,
        vec![("DETECTED".to_string(), 1), ("PHANTOM".to_string(), 2), ("STEALTH".to_string(), 1)]
    );
    assert_eq!(
        s.transport_summary,
        vec![("snowflake".to_string(), 2), ("obfs4".to_string(), 1), ("vanilla".to_string(), 1)]
    );
    assert_eq!(s.phantom_lines, strings(&["s1", "s2"]));
    assert_eq!(s.stealth_lines, strings(&["o1"]));
    assert_eq!(s.best_lines, strings(&["s1", "s2", "o1"]));
    assert_eq!(export_body(&s.best_lines), Some("s1\ns2\no1\n".to_string()));
    assert_eq!(export_body(&Vec::new()), None);
}

#[test]
fn isoformat_omits_micros_when_zero_and_includes_them_otherwise() {
    // 2026-06-25T12:00:00Z
    let secs = 1_782_388_800;
    let (iso, human) = run_timestamps(secs, 0).unwrap();
    assert_eq!(iso, "2026-06-25T12:00:00+00:00");
    assert_eq!(human, "2026-06-25 12:00 UTC");
    let (iso, _) = run_timestamps(secs, 123_456_000).unwrap();
    assert_eq!(iso, "2026-06-25T12:00:00.123456+00:00");
    let (iso, _) = run_timestamps(secs, 5_000).unwrap();
    assert_eq!(iso, "2026-06-25T12:00:00.000005+00:00");
}
