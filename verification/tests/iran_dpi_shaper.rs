use torshield::iran_dpi_shaper::{
    analyze_layers, build_recommendation, detect_transport, get_iat_mode, get_port, layer_labels, layers_bypassed, matches_cdn,
    tier_for_score, transport_siam_scores, BypassTier,
};

#[test]
fn transport_siam_scores_table_has_six_entries_plus_fallback() {
    assert_eq!(transport_siam_scores().len(), 6);
}

#[test]
fn detect_transport_prefers_more_specific_markers() {
    assert_eq!(detect_transport("snowflake 1.2.3.4:1 FP"), "snowflake");
    assert_eq!(detect_transport("obfs4 1.2.3.4:443 FP iat-mode=2"), "obfs4");
    assert_eq!(detect_transport("meek_lite cert=abc123 front=x.com"), "meek_lite");
    assert_eq!(detect_transport("192.168.0.1:9001 ABC123"), "vanilla");
}

#[test]
fn detect_transport_url_https_beats_meek_marker() {
    assert_eq!(detect_transport("meek_lite url=https://x.azureedge.net/ cert=abc"), "webtunnel");
}

#[test]
fn get_iat_mode_defaults_to_zero() {
    assert_eq!(get_iat_mode("obfs4 1.2.3.4:443 FP"), 0);
    assert_eq!(get_iat_mode("obfs4 1.2.3.4:443 FP iat-mode=2"), 2);
}

#[test]
fn get_port_prefers_https_url_default_443() {
    assert_eq!(get_port("webtunnel url=https://x.fastly.net/ FP"), Some(443));
    assert_eq!(get_port("obfs4 1.2.3.4:9001 FP"), Some(9001));
    assert_eq!(get_port("no port info here"), None);
}

#[test]
fn cdn_bypass_patterns_are_case_insensitive() {
    assert!(matches_cdn("URL=HTTPS://X.FASTLY.NET/"));
}

#[test]
fn get_port_reads_explicit_url_port_and_overflow() {
    assert_eq!(get_port("webtunnel url=https://x.example:8443/path"), Some(8443));
    assert_eq!(get_port("obfs4 1.2.3.4:99999 FP"), None);
    assert_eq!(get_iat_mode("iat-mode=99999999999999999999"), 0);
    assert_eq!(get_iat_mode("IAT-MODE=1"), 0);
}

#[test]
fn layers_of_obfs4_on_blocked_port() {
    let a = analyze_layers("obfs4 1.2.3.4:9001 FP iat-mode=1", Some("E7D705A3286E19EA42F587B344EE6865"));
    assert_eq!(a.transport, "obfs4");
    assert_eq!(a.port, Some(9001));
    assert_eq!(a.layer_scores, vec![850, 780, 800, 20, 300, 450, 720, 550]);
    assert_eq!(
        a.evasion_flags,
        vec!["ja3_in_iran_siam_blocklist", "obfs4_no_sni", "ngfw_blocked_port", "obfs4_iat_mode_1_evasion"]
    );
}

#[test]
fn layers_of_cdn_webtunnel() {
    let a = analyze_layers("webtunnel [2001:db8::1]:443 FP url=https://x.cloudflare.com/p", None);
    assert_eq!(a.transport, "webtunnel");
    assert_eq!(a.port, Some(443));
    assert_eq!(a.layer_scores, vec![1000, 950, 960, 750, 1000, 960, 950, 950]);
    assert_eq!(a.evasion_flags, vec!["cdn_cert_sni_match", "cdn_asn_bypass_layer8", "siam_safe_port"]);
    assert_eq!(layers_bypassed(&a.layer_scores), 8);
}

#[test]
fn tiers_follow_thresholds() {
    assert_eq!(tier_for_score(8800), BypassTier::Phantom);
    assert_eq!(tier_for_score(8799), BypassTier::Stealth);
    assert_eq!(tier_for_score(5500), BypassTier::Covert);
    assert_eq!(tier_for_score(3000), BypassTier::Exposed);
    assert_eq!(tier_for_score(2999), BypassTier::Detected);
    assert_eq!(BypassTier::Covert.as_str(), "COVERT");
}

#[test]
fn recommendation_refines_by_flags() {
    let flags = vec!["ngfw_blocked_port".to_string()];
    assert_eq!(
        build_recommendation("obfs4", BypassTier::Covert, Some(9001), &flags),
        "⚠️ پورت مسدود — سعی کنید از پورت 443 استفاده کنید | Blocked port: try port 443"
    );
    let flags = vec!["obfs4_iat_mode_1_evasion".to_string()];
    assert_eq!(
        build_recommendation("obfs4", BypassTier::Stealth, None, &flags),
        "✅ خوب — obfs4 IAT-1 فعال | Good: obfs4 IAT-1 timing randomisation active"
    );
    assert_eq!(
        build_recommendation("snowflake", BypassTier::Stealth, None, &flags),
        "✅ خوب — از اکثر لایه‌های SIAM عبور می‌کند | Good: bypasses most SIAM layers"
    );
}

#[test]
fn layer_labels_name_the_eight_layers_in_order() {
    assert_eq!(
        layer_labels(),
        vec![
            "L1_packet_length",
            "L2_iat_timing",
            "L3_flow_features",
            "L4_ja3_tls",
            "L5_cert_sni",
            "L6_alpn_anomaly",
            "L7_temporal",
            "L8_as_graph",
        ]
    );
}
