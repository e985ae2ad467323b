use torshield::ja3_intelligence::{
    build_report, database, extract_bridge_hashes, find_blocked, rotation_outputs, rotation_strategy,
    safe_hashes, transport_default_risk_table, HashFields, JA3Intel, Ja3Baseline,
};

fn fields(ja3: Option<&str>, hash: Option<&str>) -> HashFields {
    HashFields {
        is_object: true,
        ja3: ja3.map(str::to_string),
        ja3_hash: None,
        hash: hash.map(str::to_string),
        fingerprint: None,
    }
}

#[test]
fn database_has_seven_entries() {
    assert_eq!(database().len(), 7);
}

#[test]
fn intel_summary_matches_python_counts() {
    let intel = JA3Intel::new();
    let s = intel.summary();
    assert_eq!(s.total, 7);
    assert_eq!(s.critical, 2);
    assert_eq!(s.high, 2);
    assert_eq!(s.iran_confirmed, 3);
}

#[test]
fn safe_hash_takes_precedence_over_database() {
    let intel = JA3Intel::new();
    assert_eq!(intel.score("b32309a26951912be7dba376398abc3b"), 0);
    let entry = intel.lookup("b32309a26951912be7dba376398abc3b").unwrap();
    assert_eq!(entry.score_permille, 850);
}

#[test]
fn unknown_hash_returns_medium_risk() {
    let intel = JA3Intel::new();
    assert_eq!(intel.score("deadbeef"), 300);
}

#[test]
fn lookup_is_case_insensitive() {
    let intel = JA3Intel::new();
    assert!(intel.lookup("E7D705A3286E19EA42F587B344EE6865").is_some());
}

#[test]
fn is_critical_requires_critical_tier_and_iran_confirmation() {
    let intel = JA3Intel::new();
    assert!(intel.is_critical("e7d705a3286e19ea42f587b344ee6865"));
    assert!(!intel.is_critical("b32309a26951912be7dba376398abc3b"));
    assert!(!intel.is_critical("de350869b8c85de67a350c8d186f11e6"));
    assert!(!intel.is_critical("deadbeef"));
}

#[test]
fn port_risk_high_risk_ports() {
    let intel = JA3Intel::new();
    for p in [9001, 9030, 9050] {
        assert_eq!(intel.port_risk(p), 800);
    }
    for p in [443, 80, 8080, 0, 1234] {
        assert_eq!(intel.port_risk(p), 0);
    }
}

#[test]
fn transport_default_risk_known_and_unknown() {
    let intel = JA3Intel::new();
    assert_eq!(intel.transport_default_risk("snowflake"), 50);
    assert_eq!(intel.transport_default_risk("WebTunnel"), 150);
    assert_eq!(intel.transport_default_risk("OBFs4"), 200);
    assert_eq!(intel.transport_default_risk("unknown"), 500);
    assert_eq!(intel.transport_default_risk("not-a-transport"), 500);
}

#[test]
fn all_critical_hashes_returns_two_entries() {
    let intel = JA3Intel::new();
    let hashes = intel.all_critical_hashes();
    assert_eq!(hashes.len(), 2);
    assert!(hashes.contains(&"e7d705a3286e19ea42f587b344ee6865".to_string()));
    assert!(hashes.contains(&"6734f37431670b3ab4292b8f60f29984".to_string()));
}

#[test]
fn rotation_strategy_tor_browser_12_default() {
    let s = rotation_strategy("Tor Browser 12.x default", 20);
    assert_eq!(s.action, "cipher_suite_reorder");
    assert_eq!(s.padding_bytes, 17);
}

#[test]
fn rotation_strategy_go_tls_default() {
    let s = rotation_strategy("Go net/tls default ClientHello", 20);
    assert_eq!(s.action, "chrome_mimicry");
    assert_eq!(s.padding_bytes, 0);
    assert_eq!(s.extensions_order.len(), 16);
}

#[test]
fn rotation_strategy_default_uses_injected_padding() {
    let s = rotation_strategy("Tor Browser 11.x / obfs4 default", 20);
    assert_eq!(s.action, "random_padding");
    assert_eq!(s.padding_bytes, 20);
    assert!(s.recommended_cipher_order.is_empty());
}

#[test]
fn tables_hold_documented_weights() {
    assert_eq!(safe_hashes()[0], ("aaa7bf52f6c250ce0e70d7d4f32a6d52", -200));
    assert_eq!(transport_default_risk_table()[4], ("vanilla", 900));
}

#[test]
fn baseline_hashes_come_from_bridges_first_non_empty_field() {
    let baseline = Ja3Baseline::Object {
        bridges: Some(vec![
            fields(Some(""), Some("E7D705A3286E19EA42F587B344EE6865")),
            fields(None, None),
            HashFields { is_object: false, ..fields(Some("abc"), None) },
            fields(Some("Deadbeef"), Some("ignored")),
        ]),
        hashes: Some(vec![fields(Some("never"), None)]),
        whole: fields(None, None),
    };
    assert_eq!(
        extract_bridge_hashes(&baseline),
        vec!["e7d705a3286e19ea42f587b344ee6865".to_string(), "deadbeef".to_string()]
    );
}

#[test]
fn baseline_object_without_lists_reads_itself() {
    let baseline = Ja3Baseline::Object { bridges: None, hashes: None, whole: fields(Some("ABC"), None) };
    assert_eq!(extract_bridge_hashes(&baseline), vec!["abc".to_string()]);
    assert!(extract_bridge_hashes(&Ja3Baseline::Other).is_empty());
}

#[test]
fn blocked_hashes_get_their_profile_strategy() {
    let hashes = vec!["e7d705a3286e19ea42f587b344ee6865".to_string(), "ffff".to_string(), "9e10692f1b7a698d15d9a5e0e43fd3a5".to_string()];
    let found = find_blocked(&hashes, 16);
    assert_eq!(found.len(), 2);
    assert_eq!(found[0].blocked_profile, "Tor Browser 12.x default");
    assert_eq!(found[0].rotation_strategy.padding_bytes, 17);
    assert_eq!(found[1].rotation_strategy.action, "chrome_mimicry");
}

#[test]
fn report_without_blocked_hashes_says_no_rotation() {
    let report = build_report("2026-01-02 03:04:05 UTC", 3, &Vec::new());
    let lines: Vec<&str> = report.split('\n').collect();
    assert_eq!(lines[0], "# JA3/TLS Fingerprint Rotation Report");
    assert_eq!(lines[1], "**Generated:** 2026-01-02 03:04:05 UTC  ");
    assert_eq!(lines[5], "- JA3 hashes checked against SIAM blocklist: **3**");
    assert_eq!(lines[7], "- Rotation needed: **NO**");
    assert_eq!(lines[8], "- SIAM blocked-hash database size: **9**");
    assert!(report.contains("> No blocked JA3 hashes detected"));
    assert!(!report.ends_with('\n'));
}

#[test]
fn report_renders_negative_padding() {
    let hashes = vec!["a0e9f5d64349fb13191bc781f81f42e1".to_string()];
    let found = find_blocked(&hashes, -5);
    let report = build_report("now", 1, &found);
    assert!(report.contains("### `a0e9f5d64349fb13191bc781f81f42e1`"));
    assert!(report.contains("- **Padding bytes:** -5"));
    assert!(report.contains("- Rotation needed: **YES**"));
}

#[test]
fn rotation_outputs_stamp_the_instant() {
    let baseline = Ja3Baseline::Array(vec![fields(Some("E7D705A3286E19EA42F587B344EE6865"), None)]);
    let (plan, report) = rotation_outputs(&baseline, 0, 0, 16).unwrap();
    assert_eq!(plan.generated_at, "1970-01-01T00:00:00+00:00");
    assert_eq!(plan.baseline_hashes_checked, 1);
    assert_eq!(plan.blocked_hashes_found, 1);
    assert!(plan.rotation_needed);
    assert_eq!(plan.siam_blocked_database_size, 9);
    assert_eq!(plan.universal_recommendations.len(), 5);
    assert!(report.contains("**Generated:** 1970-01-01 00:00:00 UTC  "));
    assert!(rotation_outputs(&baseline, i64::MAX, 0, 16).is_none());
}
