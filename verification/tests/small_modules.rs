use torshield::evidence_fusion::{fused_verdict, EvidenceSource, Verdict};
use torshield::failure_attribution::FailureCategory;
use torshield::iran_smart_anti_filter::{CensorshipLevel, IranSmartAntiFilter};

#[test]
fn verdict_labels_are_stable() {
    assert_eq!(Verdict::Healthy.label(), "healthy");
    assert_eq!(Verdict::Uncertain.label(), "uncertain");
    assert_eq!(Verdict::Unhealthy.label(), "unhealthy");
}

#[test]
fn evidence_source_labels_are_stable() {
    assert_eq!(EvidenceSource::Dns.label(), "dns");
    assert_eq!(EvidenceSource::Regional.label(), "regional");
    assert_eq!(EvidenceSource::Bootstrap.label(), "bootstrap");
}

#[test]
fn all_failure_categories_have_unique_codes() {
    let codes: std::collections::BTreeSet<&str> = [
        FailureCategory::Timeout,
        FailureCategory::TcpReset,
        FailureCategory::TcpRefused,
        FailureCategory::TlsFailure,
        FailureCategory::HandshakeFailure,
        FailureCategory::DnsAnomaly,
        FailureCategory::ReachabilityFailure,
        FailureCategory::ActiveBlocking,
        FailureCategory::Unknown,
    ]
    .iter()
    .map(|c| c.code())
    .collect();
    assert_eq!(codes.len(), 9);
}

#[test]
fn test_censorship_level_as_str() {
    assert_eq!(CensorshipLevel::NoFiltering.as_str(), "none");
    assert_eq!(CensorshipLevel::NationalCut.as_str(), "national_cut");
}

#[test]
fn test_from_level() {
    assert_eq!(CensorshipLevel::from_level(0), CensorshipLevel::NoFiltering);
    assert_eq!(CensorshipLevel::from_level(5), CensorshipLevel::NationalCut);
}

#[test]
fn from_level_saturates_and_round_trips() {
    assert_eq!(CensorshipLevel::from_level(3), CensorshipLevel::High);
    assert_eq!(CensorshipLevel::from_level(99), CensorshipLevel::NationalCut);
    assert_eq!(CensorshipLevel::Medium.as_str(), "medium");
}

#[test]
fn test_detect_censorship_nin() {
    assert_eq!(IranSmartAntiFilter::detect_censorship(0, 0, 0, true), CensorshipLevel::NationalCut);
}

#[test]
fn test_detect_censorship_high_failure() {
    // A failure rate of 0.96.
    assert_eq!(IranSmartAntiFilter::detect_censorship(0, 0, 960, false), CensorshipLevel::Extreme);
}

#[test]
fn test_detect_censorship_high_confirmed() {
    assert_eq!(IranSmartAntiFilter::detect_censorship(0, 50, 0, false), CensorshipLevel::High);
}

#[test]
fn test_detect_censorship_medium() {
    assert_eq!(IranSmartAntiFilter::detect_censorship(100, 0, 0, false), CensorshipLevel::Medium);
}

#[test]
fn test_detect_censorship_none() {
    assert_eq!(IranSmartAntiFilter::detect_censorship(0, 0, 0, false), CensorshipLevel::NoFiltering);
}

#[test]
fn detect_censorship_low_on_anomalies_or_failure_rate() {
    assert_eq!(IranSmartAntiFilter::detect_censorship(10, 0, 0, false), CensorshipLevel::Low);
    assert_eq!(IranSmartAntiFilter::detect_censorship(0, 0, 300, false), CensorshipLevel::Low);
    assert_eq!(IranSmartAntiFilter::detect_censorship(9, 19, 299, false), CensorshipLevel::NoFiltering);
}

#[test]
fn test_default_has_preferred_transports() {
    let filter = IranSmartAntiFilter::default();
    assert!(filter.preferred_transports().len() >= 5);
    assert_eq!(filter.preferred_transports()[0], "webtunnel");
}

#[test]
fn test_get_status_json() {
    let filter = IranSmartAntiFilter::new();
    let status = filter.get_status();
    assert_eq!(status.censorship_level, "none");
    assert_eq!(status.preferred_transports.len(), 5);
    assert!(status.timestamp.is_some());
}

#[test]
fn fused_verdict_thin_evidence_is_uncertain_even_when_confident() {
    assert_eq!(fused_verdict(1, 2, true, false), Verdict::Uncertain);
    assert_eq!(fused_verdict(0, 2, false, true), Verdict::Uncertain);
}

#[test]
fn fused_verdict_thresholds_with_enough_evidence() {
    assert_eq!(fused_verdict(2, 2, true, false), Verdict::Healthy);
    assert_eq!(fused_verdict(3, 2, false, true), Verdict::Unhealthy);
    assert_eq!(fused_verdict(3, 2, false, false), Verdict::Uncertain);
}
