use torshield::evidence_stamp::{
    derive_result, derive_tier, stamp_entry, stamp_results, EntryEvidence, ResultsDoc,
    EVIDENCE_SCOPE, RESULT_FAILING, RESULT_UNTESTED, RESULT_WORKING, TIER_1_TCP,
    TIER_2_PT_HANDSHAKE, TIER_UNTESTED,
};

/// An object entry that holds none of the fields stamping reads.
fn bare() -> EntryEvidence {
    EntryEvidence {
        is_object: true,
        transport_capable: None,
        probe_method: None,
        probe_status: None,
        tcp_reachable_set: false,
        tcp_reachable: None,
        ooni_checked: None,
        tested_at: None,
        test_tier: None,
        test_result: None,
    }
}

fn tcp(reachable: bool) -> EntryEvidence {
    EntryEvidence { tcp_reachable_set: true, tcp_reachable: Some(reachable), ..bare() }
}

fn count(m: &[(String, usize)], key: &str) -> Option<usize> {
    m.iter().find(|(k, _)| k == key).map(|(_, c)| *c)
}

#[test]
fn tier_is_untested_without_any_evidence() {
    // { "host": "1.2.3.4", "port": 9001 }
    let entry = bare();
    assert_eq!(derive_tier(&entry), TIER_UNTESTED);
    assert_eq!(derive_result(&entry), RESULT_UNTESTED);
}

#[test]
fn tier_one_for_tcp_observation() {
    let entry = tcp(true);
    assert_eq!(derive_tier(&entry), TIER_1_TCP);
    assert_eq!(derive_result(&entry), RESULT_WORKING);
}

#[test]
fn tier_one_failing_for_tcp_unreachable() {
    let entry = tcp(false);
    assert_eq!(derive_tier(&entry), TIER_1_TCP);
    assert_eq!(derive_result(&entry), RESULT_FAILING);
}

#[test]
fn tier_two_for_transport_capable() {
    let entry = EntryEvidence { transport_capable: Some(true), ..tcp(true) };
    assert_eq!(derive_tier(&entry), TIER_2_PT_HANDSHAKE);
    assert_eq!(derive_result(&entry), RESULT_WORKING);
}

#[test]
fn tier_two_for_handshake_probe_method() {
    let entry = EntryEvidence {
        probe_method: Some("webtunnel_ws_upgrade".to_string()),
        probe_status: Some("ws_101".to_string()),
        ..bare()
    };
    assert_eq!(derive_tier(&entry), TIER_2_PT_HANDSHAKE);
    assert_eq!(derive_result(&entry), RESULT_UNTESTED);
}

#[test]
fn untested_keeps_untested_result() {
    let entry = EntryEvidence { probe_status: Some("rate_limited".to_string()), ..bare() };
    assert_eq!(derive_tier(&entry), TIER_UNTESTED);
    assert_eq!(derive_result(&entry), RESULT_UNTESTED);
}

#[test]
fn stamp_entry_adds_all_three_fields() {
    let mut entry = tcp(true);
    assert!(stamp_entry(&mut entry, "2026-08-12T10:20:55Z"));
    assert_eq!(entry.tested_at.as_deref(), Some("2026-08-12T10:20:55Z"));
    assert_eq!(entry.test_tier.as_deref(), Some(TIER_1_TCP));
    assert_eq!(entry.test_result.as_deref(), Some(RESULT_WORKING));
}

#[test]
fn stamp_preserves_existing_tested_at() {
    let mut entry = EntryEvidence { tested_at: Some("2026-08-12T07:00:00Z".to_string()), ..tcp(true) };
    stamp_entry(&mut entry, "2026-08-12T10:20:55Z");
    assert_eq!(entry.tested_at.as_deref(), Some("2026-08-12T07:00:00Z"));
}

#[test]
fn stamp_is_idempotent() {
    let mut entry = tcp(true);
    assert!(stamp_entry(&mut entry, "2026-08-12T10:20:55Z"));
    assert!(!stamp_entry(&mut entry, "2026-08-12T10:20:55Z"));
}

#[test]
fn stamp_results_uses_generated_at_and_counts() {
    let mut doc = ResultsDoc {
        is_object: true,
        generated_at: Some("2026-08-12T10:20:55Z".to_string()),
        bridges: Some(vec![tcp(true), tcp(false), bare()]),
        evidence_scope: None,
    };
    let summary = stamp_results(&mut doc, "fallback");
    assert_eq!(summary.stamped, 3);
    assert_eq!(count(&summary.tiers, TIER_1_TCP), Some(2));
    assert_eq!(count(&summary.tiers, TIER_UNTESTED), Some(1));
    assert_eq!(count(&summary.results, RESULT_WORKING), Some(1));
    assert_eq!(count(&summary.results, RESULT_FAILING), Some(1));
    assert_eq!(count(&summary.results, RESULT_UNTESTED), Some(1));
    let bridges = doc.bridges.as_ref().unwrap();
    assert_eq!(bridges[0].tested_at.as_deref(), Some("2026-08-12T10:20:55Z"));
    assert!(doc.evidence_scope.is_some());
}

#[test]
fn stamp_results_handles_missing_bridges() {
    let mut doc = ResultsDoc {
        is_object: true,
        generated_at: Some("2026-08-12T10:20:55Z".to_string()),
        bridges: None,
        evidence_scope: None,
    };
    let summary = stamp_results(&mut doc, "fallback");
    assert_eq!(summary.stamped, 0);
    assert!(summary.tiers.is_empty());
}

#[test]
fn stamp_results_skips_non_object_entries() {
    // { "bridges": [ "Bridge 1.2.3.4:443 ABC" ] }
    let line = EntryEvidence { is_object: false, ..bare() };
    let mut doc = ResultsDoc { is_object: true, generated_at: None, bridges: Some(vec![line]), evidence_scope: None };
    let summary = stamp_results(&mut doc, "fallback");
    assert_eq!(summary.stamped, 0);
}

#[test]
fn stamp_results_falls_back_when_generated_at_is_empty() {
    let mut doc = ResultsDoc {
        is_object: true,
        generated_at: Some(String::new()),
        bridges: Some(vec![tcp(true)]),
        evidence_scope: None,
    };
    stamp_results(&mut doc, "fallback");
    assert_eq!(doc.bridges.unwrap()[0].tested_at.as_deref(), Some("fallback"));
    assert_eq!(doc.evidence_scope.as_deref(), Some(EVIDENCE_SCOPE));
}

#[test]
fn stamp_results_tallies_are_sorted_by_label() {
    let mut doc = ResultsDoc {
        is_object: true,
        generated_at: None,
        bridges: Some(vec![bare(), tcp(true), EntryEvidence { transport_capable: Some(true), ..bare() }]),
        evidence_scope: None,
    };
    let summary = stamp_results(&mut doc, "t");
    let labels: Vec<&str> = summary.tiers.iter().map(|(k, _)| k.as_str()).collect();
    assert_eq!(labels, vec![TIER_1_TCP, TIER_2_PT_HANDSHAKE, TIER_UNTESTED]);
}

#[test]
fn stamp_entry_with_empty_timestamp_adds_no_tested_at() {
    let mut entry = tcp(false);
    assert!(stamp_entry(&mut entry, ""));
    assert_eq!(entry.tested_at, None);
    assert_eq!(entry.test_result.as_deref(), Some(RESULT_FAILING));
}

#[test]
fn ooni_check_alone_is_tier_one() {
    let entry = EntryEvidence { ooni_checked: Some(true), ..bare() };
    assert_eq!(derive_tier(&entry), TIER_1_TCP);
    assert_eq!(derive_result(&entry), RESULT_UNTESTED);
}
