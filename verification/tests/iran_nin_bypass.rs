use torshield::iran_nin_bypass::{
    cdn_asns, detect_nextgen, intl_probes, local_probes, nin_pack, nin_status_from, nin_weights,
    preferred_ports, rank_by_score, NinWeights,
};

/// The score a bridge record gets from its weights and composite score,
/// capped at 1 (the arithmetic the caller does in floating point).
fn score(w: NinWeights, composite: f64) -> f64 {
    let s = 0.50 * (w.transport_permille as f64 / 1000.0)
        + 0.30 * composite
        + (w.asn_permille as f64 / 1000.0) * 0.3
        + (w.port_permille as f64 / 1000.0) * 0.2;
    s.min(1.0)
}

#[test]
fn detect_nin_status_returns_true_false_when_intl_reachable() {
    let results = vec![true; intl_probes().len()];
    let (intl_ok, nin_active) = nin_status_from(&results);
    assert!(intl_ok);
    assert!(!nin_active);
}

#[test]
fn detect_nin_status_returns_false_true_when_intl_unreachable() {
    let results = vec![false; intl_probes().len()];
    let (intl_ok, nin_active) = nin_status_from(&results);
    assert!(!intl_ok);
    assert!(nin_active);
}

#[test]
fn nin_score_snowflake_with_cdn_asn_and_preferred_port() {
    let w = nin_weights("snowflake", "AS13335", 443);
    assert_eq!(w, NinWeights { transport_permille: 1000, asn_permille: 1000, port_permille: 1000 });
    assert_eq!(score(w, 0.8), 1.0);
}

#[test]
fn nin_score_vanilla_no_cdn_no_preferred_port() {
    let w = nin_weights("vanilla", "", 9001);
    assert_eq!(w, NinWeights { transport_permille: 100, asn_permille: 0, port_permille: 0 });
    assert!((score(w, 0.5) - 0.20).abs() < 0.001);
}

#[test]
fn nin_score_obfs4_with_arvancloud_asn() {
    let w = nin_weights("obfs4", "AS200000", 443);
    assert_eq!(w, NinWeights { transport_permille: 400, asn_permille: 950, port_permille: 1000 });
    assert!((score(w, 0.6) - 0.865).abs() < 0.001);
}

#[test]
fn unknown_transport_gets_default_weight() {
    let w = nin_weights("conjure", "AS1", 2053);
    assert_eq!(w, NinWeights { transport_permille: 300, asn_permille: 0, port_permille: 950 });
}

#[test]
fn detect_nextgen_finds_hysteria2() {
    assert_eq!(detect_nextgen("hysteria2://user@host:443/?insecure=1"), Some("hysteria2"));
}

#[test]
fn detect_nextgen_finds_vless() {
    assert_eq!(detect_nextgen("vless://uuid@host:443?encryption=none"), Some("vless"));
}

#[test]
fn detect_nextgen_finds_reality() {
    assert_eq!(detect_nextgen("reality pubkey=abc dest=example.com:443"), Some("reality"));
}

#[test]
fn detect_nextgen_returns_none_for_tor_bridge() {
    assert_eq!(detect_nextgen("obfs4 1.2.3.4:443 cert=abc"), None);
}

#[test]
fn detect_nextgen_reads_upper_case_lines() {
    assert_eq!(detect_nextgen("TROJAN://pw@host:443"), Some("trojan"));
    assert_eq!(detect_nextgen("SS://abc@host:8388"), Some("shadowsocks"));
}

#[test]
fn probe_tables_hold_the_documented_endpoints() {
    assert_eq!(intl_probes().len(), 5);
    assert_eq!(intl_probes()[4], ("104.16.0.1", 443));
    assert_eq!(local_probes(), vec![("4.2.2.4", 53), ("185.51.200.2", 53)]);
    assert_eq!(cdn_asns().len(), 8);
    assert_eq!(preferred_ports()[0], (443, 1000));
}

#[test]
fn rank_is_descending_and_stable() {
    let order = rank_by_score(&vec![500u64, 900, 500, 1000, 900]);
    assert_eq!(order, vec![3, 1, 4, 0, 2]);
    assert!(rank_by_score(&vec![]).is_empty());
}

#[test]
fn pack_takes_qualifying_lines_in_rank_order() {
    let ranked = vec![
        ("a".to_string(), 950),
        ("".to_string(), 900),
        ("b".to_string(), 700),
        ("c".to_string(), 699),
    ];
    assert_eq!(nin_pack(&ranked), vec!["a".to_string(), "b".to_string()]);
}

#[test]
fn pack_is_capped_at_fifty() {
    let ranked: Vec<(String, u32)> = (0..60).map(|i| (format!("line{i}"), 800)).collect();
    let pack = nin_pack(&ranked);
    assert_eq!(pack.len(), 50);
    assert_eq!(pack[49], "line49");
}
