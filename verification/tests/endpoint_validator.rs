use torshield::endpoint_validator::{
    build_recommended_url, detect_endpoint_type, extract_suffix, python_str_suffix, validate_url_format,
    gateway_slots, EndpointType, EndpointValidator, ProbeReachability,
};

#[test]
fn detect_endpoint_type_variants() {
    assert_eq!(
        detect_endpoint_type("https://gateway.ai.cloudflare.com/v1/abc/slug/compat/chat/completions"),
        EndpointType::Compat
    );
    assert_eq!(
        detect_endpoint_type("https://gateway.ai.cloudflare.com/v1/abc/slug/workers-ai/v1/chat/completions"),
        EndpointType::WorkersAi
    );
    assert_eq!(
        detect_endpoint_type("https://gateway.ai.cloudflare.com/v1/abc/slug"),
        EndpointType::Compat
    );
    assert_eq!(
        detect_endpoint_type("https://api.cloudflare.com/client/v4/accounts/abc/ai"),
        EndpointType::Direct
    );
    assert_eq!(detect_endpoint_type("https://example.com/foo"), EndpointType::Unknown);
}

#[test]
fn build_recommended_url_fixes_workers_ai_suffix() {
    let url = "https://gateway.ai.cloudflare.com/v1/0123456789abcdef0123456789abcdef/myslug/workers-ai/v1/chat/completions";
    let rec = build_recommended_url(url, EndpointType::WorkersAi);
    assert_eq!(
        rec,
        "https://gateway.ai.cloudflare.com/v1/0123456789abcdef0123456789abcdef/myslug/compat/chat/completions"
    );
}

#[test]
fn build_recommended_url_compat_unchanged() {
    let url = "https://gateway.ai.cloudflare.com/v1/abc/slug/compat/chat/completions";
    assert_eq!(build_recommended_url(url, EndpointType::Compat), url);
}

#[test]
fn extract_suffix_priority_order() {
    assert_eq!(extract_suffix("foo/compat/chat/completions"), "/compat/chat/completions");
    assert_eq!(extract_suffix("foo/workers-ai/v1/chat/completions"), "/workers-ai/v1/chat/completions");
    assert_eq!(extract_suffix("foo/workers-ai/other"), "/workers-ai/other");
    assert_eq!(extract_suffix("https://example.com/bare"), "<bare>");
}

#[test]
fn python_str_suffix_matches_negative_slice_semantics() {
    assert_eq!(python_str_suffix("hello world", 5), "world");
    assert_eq!(python_str_suffix("hi", 5), "hi");
    assert_eq!(python_str_suffix("", 5), "");
}

#[test]
fn endpoint_type_names_are_stable() {
    assert_eq!(EndpointType::Compat.as_str(), "compat");
    assert_eq!(EndpointType::WorkersAi.as_str(), "workers-ai");
    assert_eq!(EndpointType::Direct.as_str(), "direct");
    assert_eq!(EndpointType::Unknown.as_str(), "unknown");
}

#[test]
fn validate_url_format_rejects_plain_http() {
    let (ok, msg) = validate_url_format("http://gateway.ai.cloudflare.com/v1/abc/slug", EndpointType::Compat);
    assert!(!ok);
    assert_eq!(msg, "URL must start with https://");
}

#[test]
fn validate_url_format_accepts_well_formed_gateway() {
    let url = "https://gateway.ai.cloudflare.com/v1/0123456789abcdef0123456789abcdef/myslug/compat/chat/completions";
    let (ok, msg) = validate_url_format(url, EndpointType::Compat);
    assert!(ok);
    assert_eq!(msg, "");
}

#[test]
fn validate_url_format_rejects_malformed_gateway() {
    let (ok, msg) = validate_url_format("https://gateway.ai.cloudflare.com/v1/abc/slug", EndpointType::Compat);
    assert!(!ok);
    assert_eq!(msg, "Gateway URL doesn't match CF AI Gateway pattern");
}

#[test]
fn validator_recommends_compat_for_workers_ai_slot() {
    let mut v = EndpointValidator::new(true);
    let url = "https://gateway.ai.cloudflare.com/v1/0123456789abcdef0123456789abcdef/myslug/workers-ai/v1/chat/completions";
    let probe = ProbeReachability { is_reachable: true, latency_us: 1500 };
    let r = v.validate_slot_url(3, url, probe, 1_000);
    assert_eq!(r.endpoint_type, EndpointType::WorkersAi);
    assert_eq!(
        v.get_recommended_url(3),
        Some("https://gateway.ai.cloudflare.com/v1/0123456789abcdef0123456789abcdef/myslug/compat/chat/completions".to_string())
    );
    assert_eq!(v.get_recommended_url(4), None);
}

const DIRECT: &str = "https://api.cloudflare.com/client/v4/accounts/0123456789abcdef0123456789abcdef/ai";

fn no_answer() -> ProbeReachability {
    ProbeReachability { is_reachable: false, latency_us: 0 }
}

#[test]
fn validate_slot_url_disabled_short_circuits() {
    let mut v = EndpointValidator::new(false);
    let r = v.validate_slot_url(1, "https://example.com", no_answer(), 0);
    assert!(r.is_valid);
    assert!(r.is_reachable);
    assert_eq!(r.detected_suffix, "validation_disabled");
    assert!(v.results().is_empty());
}

#[test]
fn validate_slot_url_rejects_non_https() {
    let mut v = EndpointValidator::new(true);
    let r = v.validate_slot_url(1, "http://example.com", no_answer(), 0);
    assert!(!r.is_valid);
    assert_eq!(r.error_message, "URL must start with https://");
}

#[test]
fn results_preserve_insertion_order_not_numeric_order() {
    let mut v = EndpointValidator::new(true);
    v.validate_slot_url(5, DIRECT, no_answer(), 0);
    v.validate_slot_url(2, DIRECT, no_answer(), 0);
    let indices: Vec<i64> = v.results().iter().map(|(k, _)| *k).collect();
    assert_eq!(indices, vec![5, 2]);
}

#[test]
fn get_recommended_url_none_when_unset() {
    let mut v = EndpointValidator::new(true);
    v.validate_slot_url(1, DIRECT, no_answer(), 0);
    assert_eq!(v.get_recommended_url(99), None);
}

#[test]
fn get_validation_summary_counts() {
    let mut v = EndpointValidator::new(true);
    v.validate_slot_url(
        1,
        "https://gateway.ai.cloudflare.com/v1/0123456789abcdef0123456789abcdef/s/workers-ai/v1/chat/completions",
        no_answer(),
        0,
    );
    let c = v.validation_counts();
    assert_eq!(c.total_slots_validated, 1);
    assert_eq!(c.workers_ai_bug_detected, 1);
    assert!(c.workers_ai_bug_detected > 0);
}

#[test]
fn revalidating_a_slot_replaces_its_result_in_place() {
    let mut v = EndpointValidator::new(true);
    v.validate_slot_url(5, DIRECT, no_answer(), 0);
    v.validate_slot_url(2, DIRECT, no_answer(), 0);
    v.validate_slot_url(5, DIRECT, ProbeReachability { is_reachable: true, latency_us: 10 }, 7);
    let indices: Vec<i64> = v.results().iter().map(|(k, _)| *k).collect();
    assert_eq!(indices, vec![5, 2]);
    assert!(v.results()[0].1.is_reachable);
    assert_eq!(v.validation_counts().reachable_endpoints, 1);
}

#[test]
fn gateway_slots_are_the_set_non_blank_urls_in_slot_order() {
    let env = vec![
        ("CF_AI_GATEWAY_URL_11".to_string(), " https://b ".to_string()),
        ("CF_AI_GATEWAY_URL_2".to_string(), "https://a".to_string()),
        ("CF_AI_GATEWAY_URL_3".to_string(), "   ".to_string()),
        ("CF_AI_GATEWAY_URL_12".to_string(), "https://ignored".to_string()),
        ("CF_AI_GATEWAY_URL_2".to_string(), "https://a2".to_string()),
    ];
    assert_eq!(gateway_slots(&env), vec![(2, "https://a2".to_string()), (11, "https://b".to_string())]);
    assert!(gateway_slots(&Vec::new()).is_empty());
}
