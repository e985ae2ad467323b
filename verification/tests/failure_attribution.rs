use torshield::failure_attribution::{FailureCategory, FailureClassifier, FailureStats, ProbeEvidence};

#[test]
fn dns_failure_classified_as_dns_anomaly() {
    let evidence = ProbeEvidence {
        host: Some("example.com".to_string()),
        port: Some(443),
        transport: Some("webtunnel".to_string()),
        dns_ok: Some(false),
        dns_error: Some("NXDOMAIN".to_string()),
        ..Default::default()
    };
    let attr = FailureClassifier::classify(evidence);
    assert_eq!(attr.category, FailureCategory::DnsAnomaly);
    assert!(attr.confidence_permille > 900);
    assert!(attr.reason.contains("NXDOMAIN"));
}

#[test]
fn dns_zero_addresses_is_anomaly() {
    let evidence = ProbeEvidence {
        host: Some("example.com".to_string()),
        port: Some(443),
        dns_ok: Some(true),
        resolved_ips: Some(vec![]),
        ..Default::default()
    };
    let attr = FailureClassifier::classify(evidence);
    assert_eq!(attr.category, FailureCategory::DnsAnomaly);
    assert!(attr.confidence_permille > 850);
    assert!(attr.reason.contains("zero addresses"));
}

#[test]
fn tcp_reset_by_os_error_code() {
    let evidence = ProbeEvidence {
        host: Some("1.2.3.4".to_string()),
        port: Some(9001),
        transport: Some("obfs4".to_string()),
        tcp_connect_ok: Some(false),
        os_error_code: Some(104),
        total_latency_us: Some(150_000),
        ..Default::default()
    };
    let attr = FailureClassifier::classify(evidence);
    assert_eq!(attr.category, FailureCategory::TcpReset);
    assert!(attr.confidence_permille > 850);
    assert!(attr.reason.contains("reset"));
}

#[test]
fn tcp_reset_by_message() {
    let evidence = ProbeEvidence {
        host: Some("1.2.3.4".to_string()),
        port: Some(443),
        tcp_connect_ok: Some(false),
        os_error_message: Some("Connection reset by peer".to_string()),
        ..Default::default()
    };
    let attr = FailureClassifier::classify(evidence);
    assert_eq!(attr.category, FailureCategory::TcpReset);
}

#[test]
fn tcp_refused_by_os_error_code() {
    let evidence = ProbeEvidence {
        host: Some("1.2.3.4".to_string()),
        port: Some(9001),
        transport: Some("obfs4".to_string()),
        tcp_connect_ok: Some(false),
        os_error_code: Some(111),
        total_latency_us: Some(5_000),
        ..Default::default()
    };
    let attr = FailureClassifier::classify(evidence);
    assert_eq!(attr.category, FailureCategory::TcpRefused);
    assert!(attr.confidence_permille > 850);
    assert!(attr.reason.contains("refused"));
}

#[test]
fn tcp_timeout_by_latency_near_deadline() {
    let evidence = ProbeEvidence {
        host: Some("10.0.0.1".to_string()),
        port: Some(443),
        tcp_connect_ok: Some(false),
        probe_timeout_ms: Some(3_000),
        total_latency_us: Some(2_900_000),
        ..Default::default()
    };
    let attr = FailureClassifier::classify(evidence);
    assert_eq!(attr.category, FailureCategory::Timeout);
    assert!(attr.confidence_permille > 650);
    assert!(attr.reason.contains("timed out"));
}

#[test]
fn tls_failure_handshake_error() {
    let evidence = ProbeEvidence {
        host: Some("bridge.example.com".to_string()),
        port: Some(443),
        transport: Some("webtunnel".to_string()),
        tcp_connect_ok: Some(true),
        tcp_latency_us: Some(120_000),
        tls_ok: Some(false),
        tls_error: Some("received fatal alert: HandshakeFailure".to_string()),
        ..Default::default()
    };
    let attr = FailureClassifier::classify(evidence);
    assert_eq!(attr.category, FailureCategory::TlsFailure);
    assert!(attr.confidence_permille > 850);
    assert!(attr.reason.contains("HandshakeFailure"));
}

#[test]
fn transport_handshake_failure_after_tls() {
    let evidence = ProbeEvidence {
        host: Some("bridge.example.com".to_string()),
        port: Some(443),
        transport: Some("webtunnel".to_string()),
        tcp_connect_ok: Some(true),
        tls_ok: Some(true),
        tls_latency_us: Some(100_000),
        transport_handshake_ok: Some(false),
        transport_error: Some("WebSocket upgrade rejected".to_string()),
        ..Default::default()
    };
    let attr = FailureClassifier::classify(evidence);
    assert_eq!(attr.category, FailureCategory::HandshakeFailure);
    assert!(attr.confidence_permille > 800);
    assert!(attr.reason.contains("WebSocket"));
}

#[test]
fn unknown_when_no_tcp_data() {
    let evidence = ProbeEvidence { host: Some("???".to_string()), port: Some(0), ..Default::default() };
    let attr = FailureClassifier::classify(evidence);
    assert_eq!(attr.category, FailureCategory::Unknown);
    assert!(attr.confidence_permille < 500);
}

#[test]
fn classify_simple_refused() {
    let attr = FailureClassifier::classify_simple(
        "1.2.3.4",
        9001,
        "obfs4",
        Some(false),
        Some("Connection refused (ECONNREFUSED)"),
    );
    assert_eq!(attr.category, FailureCategory::TcpRefused);
}

#[test]
fn classify_simple_tls_error() {
    let attr = FailureClassifier::classify_simple(
        "bridge.example.com",
        443,
        "webtunnel",
        Some(true),
        Some("TLS handshake failed: unknown CA"),
    );
    assert_eq!(attr.category, FailureCategory::TlsFailure);
}

#[test]
fn classify_simple_handshake_error() {
    let attr = FailureClassifier::classify_simple(
        "bridge.example.com",
        443,
        "obfs4",
        Some(true),
        Some("obfs4 handshake timeout"),
    );
    assert_eq!(attr.category, FailureCategory::HandshakeFailure);
}

#[test]
fn classify_simple_reset_keeps_evidence() {
    let attr = FailureClassifier::classify_simple(
        "1.2.3.4",
        9001,
        "obfs4",
        Some(false),
        Some("Connection reset by peer"),
    );
    assert_eq!(attr.category, FailureCategory::TcpReset);
    assert_eq!(attr.category.code(), "tcp_reset");
    assert!(attr.category.label().contains("Reset"));
    assert!(attr.confidence_permille > 800);
    assert!(!attr.reason.is_empty());
    assert_eq!(attr.evidence.host.as_deref(), Some("1.2.3.4"));
    assert_eq!(attr.evidence.port, Some(9001));
}

#[test]
fn failure_stats_accumulates_and_finalizes() {
    let mut stats = FailureStats::default();
    let attr1 = FailureClassifier::classify_simple("a", 443, "obfs4", Some(false), Some("Connection refused"));
    let attr2 = FailureClassifier::classify_simple("b", 443, "webtunnel", Some(false), Some("Connection refused"));
    let attr3 = FailureClassifier::classify_simple("c", 443, "obfs4", Some(false), Some("Connection reset by peer"));
    stats.record(&attr1);
    stats.record(&attr2);
    stats.record(&attr3);

    assert_eq!(stats.total(), 3);
    let count = |code: &str| {
        stats.tallies().iter().find(|t| t.category.code() == code).map(|t| t.count).unwrap_or(0)
    };
    // 2 refused, 1 reset
    assert_eq!(count("tcp_refused"), 2);
    assert_eq!(count("tcp_reset"), 1);
}

#[test]
fn failure_stats_keep_one_tally_per_category_with_summed_confidence() {
    let mut stats = FailureStats::new();
    let refused = FailureClassifier::classify_simple("a", 443, "obfs4", Some(false), Some("Connection refused"));
    stats.record(&refused);
    stats.record(&refused);
    assert_eq!(stats.total(), 2);
    assert_eq!(stats.tallies().len(), 1);
    let t = stats.tallies()[0];
    assert_eq!(t.category, FailureCategory::TcpRefused);
    assert_eq!(t.count, 2);
    assert_eq!(t.confidence_sum_permille, 2 * u128::from(refused.confidence_permille));
}
