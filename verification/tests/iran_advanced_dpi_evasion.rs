use torshield::iran_advanced_dpi_evasion::{
    browser_tls_profiles, cdn_fronting_domains, decide_ech_usage, generate_evasion_strategy, morph_protocols,
    multi_path_routes, prefer_quic, select_active_routes, select_cdn_fronting_domain, select_fragmentation_size,
    select_morph_protocol, select_padding_size, select_tls_profile, RouteStatus, PADDING_OPTIONS,
    TCP_FRAGMENT_SIZES,
};
use std::collections::BTreeSet;

#[test]
fn select_tls_profile_returns_profile_for_hour() {
    let seen: Vec<String> = Vec::new();
    let profiles = browser_tls_profiles();
    let profile = select_tls_profile(&profiles, 10, &seen).unwrap();
    assert_eq!(profile.name, "safari_17");
}

#[test]
fn select_tls_profile_skips_seen_profiles() {
    let profiles = browser_tls_profiles();
    let seen = vec![profiles[2].ja3.to_string()];
    let profile = select_tls_profile(&profiles, 10, &seen).unwrap();
    assert_ne!(profile.name, "safari_17");
}

#[test]
fn select_tls_profile_returns_preferred_when_all_seen() {
    let profiles = browser_tls_profiles();
    let seen: Vec<String> = profiles.iter().map(|p| p.ja3.to_string()).collect();
    let profile = select_tls_profile(&profiles, 0, &seen).unwrap();
    assert_eq!(profile.name, "chrome_120");
}

#[test]
fn select_cdn_fronting_domain_returns_highest_reliability() {
    let blocked: Vec<String> = Vec::new();
    let domain = select_cdn_fronting_domain(&blocked, 800).unwrap();
    assert_eq!(domain.domain, "arvancloud.ir");
    assert_eq!(domain.provider, "Arvan Cloud");
}

#[test]
fn select_cdn_fronting_domain_excludes_blocked() {
    let blocked = vec!["arvancloud.ir".to_string(), "azure.microsoft.com".to_string()];
    let domain = select_cdn_fronting_domain(&blocked, 800).unwrap();
    assert_eq!(domain.domain, "cloudflare.com");
}

#[test]
fn select_cdn_fronting_domain_returns_none_when_all_blocked() {
    let blocked: Vec<String> = cdn_fronting_domains().iter().map(|d| d.domain.to_string()).collect();
    let domain = select_cdn_fronting_domain(&blocked, 500);
    assert!(domain.is_none());
}

#[test]
fn select_fragmentation_size_decreases_with_censorship() {
    assert_eq!(select_fragmentation_size(0), 1460);
    assert_eq!(select_fragmentation_size(1), 1460);
    assert_eq!(select_fragmentation_size(2), 1024);
    assert_eq!(select_fragmentation_size(3), 512);
    assert_eq!(select_fragmentation_size(4), 64);
    assert_eq!(select_fragmentation_size(5), 64);
}

#[test]
fn select_morph_protocol_snowflake_uses_videocall() {
    assert_eq!(select_morph_protocol("snowflake", 0).name, "videocall");
}

#[test]
fn select_morph_protocol_webtunnel_uses_grpc() {
    assert_eq!(select_morph_protocol("webtunnel", 0).name, "grpc");
}

#[test]
fn select_morph_protocol_high_censorship_uses_websocket() {
    assert_eq!(select_morph_protocol("obfs4", 4).name, "websocket");
}

#[test]
fn select_morph_protocol_normal_uses_https() {
    assert_eq!(select_morph_protocol("vanilla", 0).name, "https");
}

#[test]
fn select_active_routes_excludes_blocked() {
    let statuses = vec![
        ("primary_tls".to_string(), RouteStatus::Blocked),
        ("fallback_quic".to_string(), RouteStatus::Active),
    ];
    let active = select_active_routes(&statuses);
    assert!(active.iter().all(|r| r.name != "primary_tls"));
    assert_eq!(active[0].name, "fallback_quic");
}

#[test]
fn select_active_routes_returns_all_when_none_blocked() {
    let statuses: Vec<(String, RouteStatus)> = Vec::new();
    let active = select_active_routes(&statuses);
    assert_eq!(active.len(), multi_path_routes().len());
    assert_eq!(active[0].name, "primary_tls");
}

#[test]
fn decide_ech_usage_cdn_without_block() {
    let (ech, grease) = decide_ech_usage(0, Some("cloudflare.com"), false);
    assert!(ech);
    assert!(!grease);
}

#[test]
fn decide_ech_usage_ech_previously_blocked() {
    let (ech, grease) = decide_ech_usage(0, None, true);
    assert!(ech);
    assert!(grease);
}

#[test]
fn decide_ech_no_cdn_low_censorship() {
    let (ech, _grease) = decide_ech_usage(0, None, false);
    assert!(!ech);
}

#[test]
fn decide_ech_no_cdn_high_censorship() {
    let (ech, _grease) = decide_ech_usage(3, None, false);
    assert!(ech);
}

#[test]
fn prefer_quic_blocked_returns_false() {
    assert!(!prefer_quic(3, true));
}

#[test]
fn prefer_quic_low_censorship_returns_false() {
    assert!(!prefer_quic(1, false));
}

#[test]
fn prefer_quic_high_censorship_returns_true() {
    assert!(prefer_quic(3, false));
}

#[test]
fn generate_evasion_strategy_produces_valid_recommendation() {
    let bridge_line = "obfs4 192.95.36.142:443 cert=abc iat-mode=2";
    let transport = "obfs4";
    let previous_ja3: Vec<String> = Vec::new();
    let blocked_cdns: Vec<String> = Vec::new();
    let route_statuses: Vec<(String, RouteStatus)> = Vec::new();
    let strategy = generate_evasion_strategy(
        bridge_line,
        transport,
        3,
        22,
        &previous_ja3,
        &blocked_cdns,
        &route_statuses,
        false,
        false,
        42,
    );
    assert_eq!(strategy.bridge_line, bridge_line);
    assert_eq!(strategy.transport, transport);
    assert_eq!(strategy.fragmentation_size, 512);
    assert!(strategy.use_ech);
    assert!(!strategy.use_grease);
    // Level 3 with QUIC never blocked: `prefer_quic(3, false)` holds (see
    // `prefer_quic_high_censorship_returns_true`) and the strategy takes its
    // QUIC preference from it, so the preference is set. An earlier form of
    // this assertion expected the opposite, against its own remark that
    // level 3 with no block prefers QUIC.
    assert!(strategy.quic_preferred);
}

#[test]
fn generate_evasion_strategy_snowflake_ultra_stealth() {
    let strategy = generate_evasion_strategy(
        "snowflake 1.2.3.4:443",
        "snowflake",
        5,
        23,
        &Vec::new(),
        &Vec::new(),
        &Vec::new(),
        true,
        false,
        99,
    );
    assert_eq!(strategy.fragmentation_size, 64);
    assert_eq!(strategy.morph_protocol, "videocall");
    assert!(strategy.use_grease);
}

#[test]
fn browser_profiles_have_distinct_names() {
    let profiles = browser_tls_profiles();
    let names: BTreeSet<&str> = profiles.iter().map(|p| p.name).collect();
    assert_eq!(names.len(), profiles.len());
}

#[test]
fn cdn_domains_have_valid_reliability() {
    for d in cdn_fronting_domains() {
        assert!(
            d.iran_reliability_permille <= 1000,
            "CDN {} has invalid reliability {}",
            d.domain,
            d.iran_reliability_permille
        );
    }
}

#[test]
fn multi_path_routes_have_unique_priorities() {
    let routes = multi_path_routes();
    let priorities: BTreeSet<u32> = routes.iter().map(|r| r.priority).collect();
    assert_eq!(priorities.len(), routes.len());
}

#[test]
fn select_padding_size_increases_with_censorship() {
    let normal_protocol = &morph_protocols()[0];
    let level_0_padding = select_padding_size(normal_protocol, 0, 0);
    let level_3_padding = select_padding_size(normal_protocol, 3, 0);
    assert!(level_3_padding >= level_0_padding);
}

#[test]
fn select_padding_size_respects_max() {
    let small_padding_protocol = &morph_protocols()[0];
    let padding = select_padding_size(small_padding_protocol, 5, 0);
    assert!(padding <= small_padding_protocol.padding_max);
}

#[test]
fn constants_have_expected_sizes() {
    assert_eq!(browser_tls_profiles().len(), 4);
    assert_eq!(cdn_fronting_domains().len(), 6);
    assert_eq!(TCP_FRAGMENT_SIZES.len(), 6);
    assert_eq!(PADDING_OPTIONS.len(), 7);
    assert_eq!(morph_protocols().len(), 4);
    assert_eq!(multi_path_routes().len(), 5);
}

#[test]
fn strategy_explanation_lines_are_exact() {
    let strategy = generate_evasion_strategy(
        "obfs4 1.2.3.4:443",
        "obfs4",
        2,
        14,
        &Vec::new(),
        &Vec::new(),
        &vec![("fallback_obfs4".to_string(), RouteStatus::Blocked)],
        false,
        true,
        0,
    );
    assert_eq!(strategy.tls_profile, "safari_17");
    assert_eq!(strategy.cdn_fronting_domain.as_deref(), Some("arvancloud.ir"));
    assert_eq!(strategy.morph_protocol, "https");
    assert_eq!(strategy.padding_size, 64);
    assert_eq!(
        strategy.route_priority,
        vec!["primary_tls", "fallback_quic", "fallback_websocket", "fallback_meek"]
    );
    assert_eq!(
        strategy.explanation,
        vec![
            "TLS profile: safari_17 (JA3: 771,4865-4866-4867-49195-49199-49196-49200-52393-52392-49171-49172-156-157-47-53,0-23-65281-10-11-16-5-13-18-51-45-43-27-21,29-23-24,0, cipher: TLS_AES_128_GCM_SHA256, TLS_AES_256_GCM_SHA384)".to_string(),
            "CDN fronting: arvancloud.ir via Arvan Cloud (reliability: 0.99)".to_string(),
            "TCP fragmentation: 1024 bytes (censorship level: 2)".to_string(),
            "Traffic morphing: https protocol with 64 byte padding".to_string(),
            "ECH enabled (SNI encrypted)".to_string(),
            "TCP+TLS used (QUIC not suitable or blocked)".to_string(),
            "Route priority: primary_tls > fallback_quic > fallback_websocket > fallback_meek".to_string(),
        ]
    );
}

#[test]
fn strategy_without_cdn_explains_it() {
    let blocked: Vec<String> = cdn_fronting_domains().iter().map(|d| d.domain.to_string()).collect();
    let strategy =
        generate_evasion_strategy("x", "webtunnel", 0, 1, &Vec::new(), &blocked, &Vec::new(), false, false, 0);
    assert_eq!(strategy.cdn_fronting_domain, None);
    assert!(!strategy.use_ech);
    assert_eq!(strategy.morph_protocol, "grpc");
    assert_eq!(strategy.explanation[1], "No CDN fronting available (all CDNs blocked or below threshold)");
    assert_eq!(strategy.explanation[4], "ECH not used (low censorship level, no CDN)");
}

#[test]
fn later_status_entry_overrides_earlier_one() {
    let statuses = vec![
        ("primary_tls".to_string(), RouteStatus::Blocked),
        ("primary_tls".to_string(), RouteStatus::Degraded),
    ];
    let active = select_active_routes(&statuses);
    assert_eq!(active[0].name, "primary_tls");
    assert_eq!(RouteStatus::Degraded.as_str(), "degraded");
}
