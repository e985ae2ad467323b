use torshield::iran_bridge_prioritizer::{
    extract_port, extract_transport, port_from_captures, priority_order, reachability_flag, recency_permille,
    transport_score_permille, PortField, PriorityRecord, NANOS_PER_HOUR,
};

fn record() -> PriorityRecord {
    PriorityRecord {
        raw: None,
        line: None,
        bridge_line: None,
        port: PortField::Missing,
        transport: None,
        reachable: None,
        test_pass: None,
        success: None,
        is_reachable: None,
    }
}

fn with_raw(raw: &str) -> PriorityRecord {
    PriorityRecord { raw: Some(raw.to_string()), ..record() }
}

#[test]
fn extract_port_prefers_direct_int_field() {
    let r = PriorityRecord { port: PortField::Number(443), ..record() };
    assert_eq!(extract_port(&r), 443);
}

#[test]
fn extract_port_accepts_numeric_string() {
    let r = PriorityRecord { port: PortField::Text("8080".to_string()), ..record() };
    assert_eq!(extract_port(&r), 8080);
}

#[test]
fn extract_port_falls_back_to_regex_when_out_of_range() {
    let r = PriorityRecord { port: PortField::Number(70000), ..with_raw("obfs4 1.2.3.4:443 ABCDEF") };
    assert_eq!(extract_port(&r), 443);
}

#[test]
fn extract_port_falls_back_to_regex_on_unparseable_string() {
    let r = PriorityRecord { port: PortField::Text("not-a-number".to_string()), ..with_raw("obfs4 1.2.3.4:9001 ABCDEF") };
    assert_eq!(extract_port(&r), 9001);
}

#[test]
fn extract_port_handles_ipv6_bracket_host_in_regex_fallback() {
    assert_eq!(extract_port(&with_raw("obfs4 [::1]:443 ABCDEF")), 443);
}

#[test]
fn extract_port_returns_zero_when_nothing_matches() {
    assert_eq!(extract_port(&with_raw("no endpoint here")), 0);
}

#[test]
fn extract_port_skips_none_and_empty_string_port_field() {
    let r = PriorityRecord { port: PortField::Null, ..with_raw("obfs4 1.2.3.4:443 ABCDEF") };
    assert_eq!(extract_port(&r), 443);
    let r2 = PriorityRecord { port: PortField::Text(String::new()), ..with_raw("obfs4 1.2.3.4:553 ABCDEF") };
    assert_eq!(extract_port(&r2), 553);
}

#[test]
fn extract_port_reads_booleans_as_python_ints() {
    // int(True) is 1, a valid port; int(False) is 0, which is not.
    let r = PriorityRecord { port: PortField::Bool(true), ..with_raw("x 1.2.3.4:443") };
    assert_eq!(extract_port(&r), 1);
    let r = PriorityRecord { port: PortField::Bool(false), ..with_raw("x 1.2.3.4:443") };
    assert_eq!(extract_port(&r), 443);
}

#[test]
fn port_from_missing_or_short_captures_is_zero() {
    assert_eq!(port_from_captures(&None), 0);
    assert_eq!(port_from_captures(&Some(vec![Some("a:1".to_string())])), 0);
    assert_eq!(port_from_captures(&Some(vec![None, None, Some("80".to_string())])), 80);
}

#[test]
fn extract_transport_prefers_explicit_field() {
    let r = PriorityRecord { transport: Some("  OBFS4  ".to_string()), ..record() };
    assert_eq!(extract_transport(&r), "obfs4");
}

#[test]
fn extract_transport_detects_single_match_in_raw_line() {
    assert_eq!(extract_transport(&with_raw("snowflake url=https://x abc")), "snowflake");
}

#[test]
fn extract_transport_unknown_when_no_match() {
    assert_eq!(extract_transport(&with_raw("totally unrecognized line")), "unknown");
}

#[test]
fn extract_transport_multi_match_uses_documented_fixed_order() {
    assert_eq!(extract_transport(&with_raw("obfs4 or vanilla bridge")), "obfs4");
}

#[test]
fn extract_transport_blank_field_falls_back_to_line() {
    let r = PriorityRecord { transport: Some("   ".to_string()), line: Some("Meek_Lite 1.2.3.4:80".to_string()), ..record() };
    assert_eq!(extract_transport(&r), "meek_lite");
}

#[test]
fn reachability_score_identity_checks_true_false() {
    assert_eq!(reachability_flag(&PriorityRecord { reachable: Some(true), ..record() }), Some(true));
    assert_eq!(reachability_flag(&PriorityRecord { test_pass: Some(false), ..record() }), Some(false));
    // A non-boolean `reachable` (such as the integer 1) is not a flag.
    assert_eq!(reachability_flag(&record()), None);
}

#[test]
fn prioritize_bridges_sorts_descending_with_ascending_index_tiebreak() {
    assert_eq!(priority_order(&vec![5000, 5000, 5000]), vec![0, 1, 2]);
}

#[test]
fn prioritize_bridges_higher_score_sorts_first() {
    assert_eq!(priority_order(&vec![1200, 9800]), vec![1, 0]);
    assert_eq!(priority_order(&vec![10, 30, 20, 30]), vec![1, 3, 2, 0]);
}

#[test]
fn recency_score_buckets_match_python_thresholds() {
    let hours = |h: i128| Some(h * NANOS_PER_HOUR);
    assert_eq!(recency_permille(hours(1)), 1000);
    assert_eq!(recency_permille(hours(48)), 750);
    assert_eq!(recency_permille(hours(96)), 500);
    assert_eq!(recency_permille(hours(24 * 20)), 250);
    assert_eq!(recency_permille(hours(24 * 60)), 50);
}

#[test]
fn recency_score_zero_when_no_timestamp_field_present() {
    assert_eq!(recency_permille(None), 0);
}

#[test]
fn recency_bucket_edges_are_inclusive_and_future_counts_as_fresh() {
    assert_eq!(recency_permille(Some(24 * NANOS_PER_HOUR)), 1000);
    assert_eq!(recency_permille(Some(24 * NANOS_PER_HOUR + 1)), 750);
    assert_eq!(recency_permille(Some(30 * 24 * NANOS_PER_HOUR)), 250);
    assert_eq!(recency_permille(Some(-NANOS_PER_HOUR)), 1000);
}

#[test]
fn transport_scores_follow_the_survival_table() {
    assert_eq!(transport_score_permille("snowflake"), 1000);
    assert_eq!(transport_score_permille("webtunnel"), 920);
    assert_eq!(transport_score_permille("meek_lite"), 840);
    assert_eq!(transport_score_permille("obfs4"), 760);
    assert_eq!(transport_score_permille("vanilla"), 180);
    assert_eq!(transport_score_permille("unknown"), 300);
}
