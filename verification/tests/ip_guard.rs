use torshield::ip_guard::{
    check_endpoint, check_ip, contains_documentation_or_reserved_endpoint, is_documentation_or_reserved_ip,
    is_documentation_or_reserved_ipv4, is_documentation_or_reserved_ipv6, mask_v4, mask_v6, reject_if_reserved,
    reserved_cidr_v4, reserved_cidr_v6, IpAddr, RejectionCounters,
};
use torshield::netaddr::{parse_ipv4, parse_ipv6};

fn v6(s: &str) -> u128 {
    parse_ipv6(&s.chars().collect()).expect("valid IPv6 text")
}

fn v4(s: &str) -> u32 {
    parse_ipv4(&s.chars().collect()).expect("valid IPv4 text")
}

fn count_for(snapshot: &[(&'static str, u64)], label: &str) -> u64 {
    snapshot.iter().filter(|(l, _)| *l == label).map(|(_, c)| *c).sum()
}

#[test]
fn cidr_v4_table_is_non_empty() {
    assert!(!reserved_cidr_v4().is_empty());
}

#[test]
fn cidr_v6_table_is_non_empty() {
    assert!(!reserved_cidr_v6().is_empty());
}

#[test]
fn every_v4_entry_has_unique_label() {
    let mut seen = std::collections::BTreeSet::new();
    for entry in reserved_cidr_v4() {
        assert!(seen.insert(entry.label), "Duplicate IPv4 label: {}", entry.label);
    }
}

#[test]
fn every_v6_entry_has_unique_label() {
    let mut seen = std::collections::BTreeSet::new();
    for entry in reserved_cidr_v6() {
        assert!(seen.insert(entry.label), "Duplicate IPv6 label: {}", entry.label);
    }
}

#[test]
fn telemetry_counter_increments_on_rejection() {
    let mut counters = RejectionCounters::new();
    counters.reset_rejection_counters();
    assert!(reject_if_reserved(&mut counters, "obfs4 [2001:db8::1]:443 cert=abc", "obfs4"));
    let snapshot = counters.rejection_snapshot();
    let doc_count: u64 = snapshot
        .iter()
        .filter(|(label, _)| *label == "DOCUMENTATION_RFC3849_2001_DB8")
        .map(|(_, count)| *count)
        .sum();
    assert_eq!(doc_count, 1);
}

#[test]
fn telemetry_does_not_increment_on_clean_line() {
    let mut counters = RejectionCounters::new();
    counters.reset_rejection_counters();
    assert!(!reject_if_reserved(&mut counters, "obfs4 1.2.3.4:443 cert=abc", "obfs4"));
    let snapshot = counters.rejection_snapshot();
    assert!(snapshot.is_empty());
}

#[test]
fn rejects_documentation_2001_db8() {
    assert!(is_documentation_or_reserved_ipv6(v6("2001:db8::1")));
    assert!(is_documentation_or_reserved_ipv6(v6("2001:db8:f7d3:5976:5f99:663b:3ba1:4e3a")));
}

#[test]
fn rejects_link_local_fe80() {
    assert!(is_documentation_or_reserved_ipv6(v6("fe80::1")));
}

#[test]
fn rejects_ula_fc00() {
    assert!(is_documentation_or_reserved_ipv6(v6("fc00::1")));
    assert!(is_documentation_or_reserved_ipv6(v6("fd00::1")));
}

#[test]
fn rejects_multicast_ff00() {
    assert!(is_documentation_or_reserved_ipv6(v6("ff02::1")));
}

#[test]
fn accepts_routable_ipv6() {
    assert!(!is_documentation_or_reserved_ipv6(v6("2001:4860:4860::8888")));
    assert!(!is_documentation_or_reserved_ipv6(v6("2606:4700:4700::1111")));
    assert!(!is_documentation_or_reserved_ipv6(v6("2a00:1450:4009:81f::200e")));
}

#[test]
fn check_endpoint_rejects_2001_db8_in_brackets() {
    assert_eq!(
        check_endpoint("webtunnel [2001:db8:f7d3:5976:5f99:663b:3ba1:4e3a]:443 FINGERPRINT url=https://x ver=0.0.4"),
        Some("DOCUMENTATION_RFC3849_2001_DB8")
    );
}

#[test]
fn check_endpoint_rejects_test_net_ipv4() {
    assert_eq!(check_endpoint("obfs4 192.0.2.5:443 cert=abc"), Some("TEST_NET_1_RFC5737"));
}

#[test]
fn check_endpoint_allows_routable_ipv4() {
    assert_eq!(check_endpoint("obfs4 8.8.4.4:443 cert=abc"), None);
}

#[test]
fn check_endpoint_allows_routable_ipv6() {
    assert_eq!(check_endpoint("obfs4 [2001:4860:4860::8888]:443 cert=abc"), None);
}

#[test]
fn check_endpoint_allows_dns_name() {
    assert_eq!(check_endpoint("obfs4 bridge.example.net:8443 cert=abc"), None);
}

#[test]
fn check_endpoint_allows_url_only_webtunnel() {
    assert_eq!(check_endpoint("webtunnel FINGERPRINT url=https://example.com/path ver=0.0.4"), None);
}

#[test]
fn check_endpoint_allows_vanilla_without_prefix() {
    assert_eq!(check_endpoint("Bridge 8.8.4.4:9001 FINGERPRINT"), None);
}

#[test]
fn regression_rejects_bridgedb_2001_db8_webtunnel() {
    let bridgedb_html = r#"<html><body>
            <div id="bridgelines" class="p-4 mb-3">
                webtunnel [2001:db8:e091:f9eb:f35c:5159:f61c:a762]:443 1508F1D97E9E8C8F3B0E2B3A4C5D6E7F8A9B0C1D url=https://tor.jmrp.io/BDZQOQc4eFpyM6rWz1y9X2aB ver=0.0.4
                webtunnel [2001:db8:2ae3:679a:856c:c72a:2746:1a1b]:443 8943B2E8A9F0C1D2E3F4A5B6C7D8E9F0A1B2C3D4 url=https://allium.heelsn.eu/abc123def456 ver=0.0.4
                obfs4 1.2.3.4:443 cert=abc123def456
            </div>
        </body></html>"#;
    let lines: Vec<&str> = bridgedb_html
        .split('\n')
        .map(|l| l.trim())
        .filter(|l| l.len() >= 10)
        .filter(|l| !l.starts_with('<') && !l.starts_with('<'))
        .collect();
    let mut counters = RejectionCounters::new();
    let mut rejected = 0_u64;
    let mut accepted = 0_u64;
    for line in &lines {
        if line.starts_with('<') || line.len() < 10 {
            continue;
        }
        if let Some(reason) = check_endpoint(line) {
            counters.record_rejection(reason, "webtunnel");
            rejected += 1;
        } else {
            accepted += 1;
        }
    }
    assert_eq!(rejected, 2, "Both 2001:db8 lines must be rejected");
    assert_eq!(accepted, 1, "The routable obfs4 line must be accepted");
    let snapshot = counters.rejection_snapshot();
    let doc_rfc3849: u64 = snapshot
        .iter()
        .filter(|(label, _)| *label == "DOCUMENTATION_RFC3849_2001_DB8")
        .map(|(_, count)| *count)
        .sum();
    assert_eq!(doc_rfc3849, 2, "Both rejected lines must carry DOCUMENTATION_RFC3849_2001_DB8 reason");
}

#[test]
fn edge_case_check_endpoint_does_not_panic_on_garbage() {
    let mut counters = RejectionCounters::new();
    for input in &["", " ", "::::", "[", "[]", "[::]", "[::]:", "[::]:0", "[:]:443"] {
        let _ = check_endpoint(input);
        let _ = contains_documentation_or_reserved_endpoint(input);
        let _ = reject_if_reserved(&mut counters, input, "obfs4");
    }
}

#[test]
fn rejects_private_and_special_ipv4_ranges() {
    for (ip, label) in [
        ("0.1.2.3", "CURRENT_NETWORK_RFC1122"),
        ("10.20.30.40", "PRIVATE_RFC1918_10"),
        ("100.64.0.1", "CGNAT_RFC6598"),
        ("127.0.0.1", "LOOPBACK_RFC1122"),
        ("169.254.1.1", "LINK_LOCAL_RFC3927"),
        ("172.16.0.1", "PRIVATE_RFC1918_172"),
        ("172.31.255.255", "PRIVATE_RFC1918_172"),
        ("192.0.0.1", "IETF_PROTOCOL_RFC6890"),
        ("192.88.99.1", "IPV6_TO_IPV4_RELAY_RFC3068"),
        ("192.168.1.1", "PRIVATE_RFC1918_192"),
        ("198.19.0.1", "BENCHMARKING_RFC2544"),
        ("198.51.100.7", "TEST_NET_2_RFC5737"),
        ("203.0.113.9", "TEST_NET_3_RFC5737"),
        ("224.0.0.1", "MULTICAST_RFC5771"),
        ("240.0.0.1", "RESERVED_RFC1112"),
        ("255.255.255.255", "RESERVED_RFC1112"),
    ] {
        assert_eq!(check_ip(IpAddr::V4(v4(ip))), Some(label), "{ip}");
    }
}

#[test]
fn ipv4_boundaries_of_private_172_and_cgnat() {
    assert!(!is_documentation_or_reserved_ipv4(v4("172.32.0.1")));
    assert!(!is_documentation_or_reserved_ipv4(v4("100.63.255.255")));
    assert!(is_documentation_or_reserved_ipv4(v4("100.127.255.255")));
    assert!(!is_documentation_or_reserved_ipv4(v4("100.128.0.0")));
    assert!(!is_documentation_or_reserved_ip(IpAddr::v4(8, 8, 8, 8)));
    assert_eq!(IpAddr::v4(192, 0, 2, 1), IpAddr::V4(0xc000_0201));
}

#[test]
fn ipv6_special_ranges_carry_their_labels() {
    assert_eq!(check_ip(IpAddr::V6(v6("::"))), Some("UNSPECIFIED"));
    assert_eq!(check_ip(IpAddr::V6(v6("::1"))), Some("LOOPBACK_V6"));
    assert_eq!(check_ip(IpAddr::V6(v6("::ffff:192.0.2.1"))), Some("IPV4_MAPPED_RFC4291"));
    assert_eq!(check_ip(IpAddr::V6(v6("2001::1"))), Some("TEREDO_RFC4380"));
    assert_eq!(check_ip(IpAddr::V6(v6("2002:c000:0204::1"))), Some("SIX_TO_FOUR_RFC3056"));
    assert_eq!(check_ip(IpAddr::V6(v6("100::1"))), Some("DISCARD_ONLY_RFC6666"));
    assert_eq!(check_ip(IpAddr::V6(v6("64:ff9b::1"))), Some("IPV4_IPV6_TRANSLATION_RFC6052"));
}

#[test]
fn masks_follow_prefix_lengths() {
    assert_eq!(mask_v4(0), 0);
    assert_eq!(mask_v4(8), 0xff00_0000);
    assert_eq!(mask_v4(32), u32::MAX);
    assert_eq!(mask_v6(0), 0);
    assert_eq!(mask_v6(16), 0xffff_0000_0000_0000_0000_0000_0000_0000);
    assert_eq!(mask_v6(128), u128::MAX);
}

#[test]
fn endpoint_check_uses_first_endpoint_only() {
    assert_eq!(check_endpoint("obfs4 8.8.8.8:443 10.0.0.1:443"), None);
    assert_eq!(check_endpoint("obfs4 \"10.0.0.1:443\", cert=x"), Some("PRIVATE_RFC1918_10"));
    assert_eq!(check_endpoint("obfs4 10.0.0.1:0 cert=x"), None);
    assert!(contains_documentation_or_reserved_endpoint("  Bridge obfs4 127.0.0.1:9001 X"));
}

#[test]
fn snapshot_orders_counts_descending_and_reset_clears() {
    let mut c = RejectionCounters::new();
    c.record_rejection("TEST_NET_1_RFC5737", "obfs4");
    c.record_rejection("LOOPBACK_V6", "obfs4");
    c.record_rejection("LOOPBACK_V6", "obfs4");
    c.record_rejection("NOT_A_LABEL", "obfs4");
    let snap = c.rejection_snapshot();
    assert_eq!(snap, vec![("LOOPBACK_V6", 2), ("TEST_NET_1_RFC5737", 1)]);
    assert_eq!(count_for(&snap, "NOT_A_LABEL"), 0);
    c.reset_rejection_counters();
    assert!(c.rejection_snapshot().is_empty());
}

fn ipv4(a: u8, b: u8, c: u8, d: u8) -> u32 {
    u32::from_be_bytes([a, b, c, d])
}

#[test]
fn rejects_current_network_0_0_0_0_8() {
    assert!(is_documentation_or_reserved_ipv4(ipv4(0, 0, 0, 1)));
}

#[test]
fn rejects_private_10_0_0_0_8() {
    assert!(is_documentation_or_reserved_ipv4(ipv4(10, 0, 0, 1)));
}

#[test]
fn rejects_cgnat_100_64_0_0_10() {
    assert!(is_documentation_or_reserved_ipv4(ipv4(100, 100, 0, 1)));
}

#[test]
fn rejects_loopback_127_0_0_0_8() {
    assert!(is_documentation_or_reserved_ipv4(ipv4(127, 0, 0, 1)));
}

#[test]
fn rejects_link_local_169_254_0_0_16() {
    assert!(is_documentation_or_reserved_ipv4(ipv4(169, 254, 1, 1)));
}

#[test]
fn rejects_private_172_16_0_0_12() {
    assert!(is_documentation_or_reserved_ipv4(ipv4(172, 16, 0, 1)));
    assert!(is_documentation_or_reserved_ipv4(ipv4(172, 31, 255, 1)));
}

#[test]
fn allows_non_private_172_32_x_x() {
    assert!(!is_documentation_or_reserved_ipv4(ipv4(172, 32, 0, 1)));
}

#[test]
fn rejects_private_192_168_0_0_16() {
    assert!(is_documentation_or_reserved_ipv4(ipv4(192, 168, 1, 1)));
}

#[test]
fn rejects_test_net_1_192_0_2_0_24() {
    assert!(is_documentation_or_reserved_ipv4(ipv4(192, 0, 2, 5)));
}

#[test]
fn rejects_test_net_2_198_51_100_0_24() {
    assert!(is_documentation_or_reserved_ipv4(ipv4(198, 51, 100, 5)));
}

#[test]
fn rejects_test_net_3_203_0_113_0_24() {
    assert!(is_documentation_or_reserved_ipv4(ipv4(203, 0, 113, 5)));
}

#[test]
fn rejects_multicast_224_0_0_0_4() {
    assert!(is_documentation_or_reserved_ipv4(ipv4(224, 0, 0, 1)));
}

#[test]
fn rejects_reserved_240_0_0_0_4() {
    assert!(is_documentation_or_reserved_ipv4(ipv4(240, 0, 0, 1)));
}

#[test]
fn accepts_routable_ipv4() {
    assert!(!is_documentation_or_reserved_ipv4(ipv4(8, 8, 4, 4)));
    assert!(!is_documentation_or_reserved_ipv4(ipv4(1, 1, 1, 1)));
    assert!(!is_documentation_or_reserved_ipv4(ipv4(45, 33, 32, 156)));
}

#[test]
fn rejects_unspecified_v6() {
    assert!(is_documentation_or_reserved_ipv6(0));
}

#[test]
fn rejects_loopback_v6() {
    assert!(is_documentation_or_reserved_ipv6(1));
}

#[test]
fn edge_case_ipv4_mapped_ipv6_is_rejected() {
    assert!(is_documentation_or_reserved_ipv6(v6("::ffff:192.0.2.1")));
    assert!(!is_documentation_or_reserved_ipv6(v6("::ffff:8.8.8.8")));
}

#[test]
fn edge_case_ipv6_with_zone_id_in_line() {
    assert!(parse_ipv6(&"fe80::1%eth0".chars().collect()).is_none());
    assert!(!contains_documentation_or_reserved_endpoint("obfs4 [fe80::1%eth0]:443 FINGER cert=abc"));
}

#[test]
fn edge_case_teredo_address_rejected() {
    assert!(is_documentation_or_reserved_ipv6(v6("2001::1")));
}

#[test]
fn edge_case_six_to_four_rejected() {
    assert!(is_documentation_or_reserved_ipv6(v6("2002:c000:0204::1")));
}

#[test]
fn edge_case_benchmark_v6_rejected() {
    assert!(is_documentation_or_reserved_ipv6(v6("2001:2::1")));
}

#[test]
fn edge_case_discard_only_v6_rejected() {
    assert!(is_documentation_or_reserved_ipv6(v6("100::1")));
}

#[test]
fn edge_case_cgnat_ipv4_rejected() {
    assert!(is_documentation_or_reserved_ipv4(ipv4(100, 64, 0, 1)));
    assert!(!is_documentation_or_reserved_ipv4(ipv4(100, 63, 255, 255)));
}

#[test]
fn edge_case_ietf_protocol_assignment_rejected() {
    assert!(is_documentation_or_reserved_ipv4(ipv4(192, 0, 0, 1)));
}

#[test]
fn edge_case_ipv6_to_ipv4_relay_rejected() {
    assert!(is_documentation_or_reserved_ipv4(ipv4(192, 88, 99, 1)));
}

#[test]
fn recorded_rejection_adds_one_to_its_label_only() {
    let mut counters = RejectionCounters::new();
    counters.record_rejection("LOOPBACK_RFC1122", "obfs4");
    counters.record_rejection("LOOPBACK_RFC1122", "obfs4");
    counters.record_rejection("TEST_NET_1_RFC5737", "vanilla");
    assert_eq!(counters.rejection_snapshot(), vec![("LOOPBACK_RFC1122", 2), ("TEST_NET_1_RFC5737", 1)]);
    counters.record_rejection("TEST_NET_1_RFC5737", "vanilla");
    counters.record_rejection("TEST_NET_1_RFC5737", "vanilla");
    assert_eq!(counters.rejection_snapshot(), vec![("TEST_NET_1_RFC5737", 3), ("LOOPBACK_RFC1122", 2)]);
    // A reason that labels no range changes nothing.
    counters.record_rejection("NOT_A_RANGE", "obfs4");
    assert_eq!(counters.rejection_snapshot(), vec![("TEST_NET_1_RFC5737", 3), ("LOOPBACK_RFC1122", 2)]);
    counters.reset_rejection_counters();
    assert!(counters.rejection_snapshot().is_empty());
}
