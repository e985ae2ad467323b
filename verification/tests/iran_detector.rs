use torshield::iran_detector::{
    all_transports, anchor_groups, assessment_flags, cache_still_valid, classify_interference,
    connectivity_verdict, international_probes, nin_probes, recommend_strategy, splitmix64, telegram_send_url,
    InterferenceKind, NinDetector, ProbeOutcome, ProbeResult, Transport,
};
use std::time::Duration;

fn nanos(secs: f64) -> u128 {
    Duration::from_secs_f64(secs).as_nanos()
}

fn r(intl: bool, group: u8, outcome: ProbeOutcome) -> ProbeResult {
    ProbeResult::new("127.0.0.1", 443, intl, group, outcome, Duration::from_millis(1).as_nanos())
}

#[test]
fn cache_never_checked_is_invalid() {
    assert!(!cache_still_valid(None, false));
}

#[test]
fn cache_just_under_30s_is_valid() {
    assert!(cache_still_valid(Some(nanos(29.9)), false));
}

#[test]
fn cache_exactly_30s_is_invalid() {
    assert!(!cache_still_valid(Some(nanos(30.0)), false));
}

#[test]
fn cache_just_over_30s_is_invalid() {
    assert!(!cache_still_valid(Some(nanos(30.1)), false));
}

#[test]
fn force_refresh_always_invalidates_even_a_fresh_cache() {
    assert!(!cache_still_valid(Some(nanos(0.001)), true));
}

#[test]
fn recommend_strategy_branches_are_distinct() {
    assert_ne!(recommend_strategy(true), recommend_strategy(false));
}

#[test]
fn probes_constants_have_documented_lengths() {
    assert_eq!(international_probes().len(), 4);
    assert_eq!(nin_probes().len(), 2);
}

#[test]
fn interference_timeout_variant() {
    let k = classify_interference(&vec![r(true, 1, ProbeOutcome::Timeout), r(true, 2, ProbeOutcome::Timeout)]);
    assert_eq!(k, InterferenceKind::Timeout);
}

#[test]
fn interference_active_reset_variant() {
    assert_eq!(classify_interference(&vec![r(true, 1, ProbeOutcome::Refused)]), InterferenceKind::ActiveReset);
}

#[test]
fn interference_dns_variant() {
    assert_eq!(classify_interference(&vec![r(true, 1, ProbeOutcome::DnsFailure)]), InterferenceKind::DnsInterference);
}

#[test]
fn interference_tls_handshake_variant() {
    assert_eq!(
        classify_interference(&vec![r(true, 1, ProbeOutcome::TlsHandshakeFail)]),
        InterferenceKind::TlsHandshakeFail
    );
}

#[test]
fn interference_mixed_variant() {
    let k = classify_interference(&vec![r(true, 1, ProbeOutcome::Timeout), r(true, 2, ProbeOutcome::Refused)]);
    assert_eq!(k, InterferenceKind::Mixed);
}

#[test]
fn interference_none_when_any_intl_ok() {
    let k = classify_interference(&vec![r(true, 1, ProbeOutcome::Connected), r(true, 2, ProbeOutcome::Refused)]);
    assert_eq!(k, InterferenceKind::NoInterference);
}

#[test]
fn interference_ignores_domestic_probes() {
    let k = classify_interference(&vec![r(false, 9, ProbeOutcome::Refused)]);
    assert_eq!(k, InterferenceKind::NoInterference);
    let k = classify_interference(&vec![r(false, 9, ProbeOutcome::Refused), r(true, 1, ProbeOutcome::DnsFailure)]);
    assert_eq!(k, InterferenceKind::DnsInterference);
}

#[test]
fn confidence_all_international_ok_is_full_and_no_interference() {
    let results = vec![
        r(true, 1, ProbeOutcome::Connected),
        r(true, 2, ProbeOutcome::Connected),
        r(false, 9, ProbeOutcome::Connected),
    ];
    let g = anchor_groups(&results, true);
    assert_eq!(g.ok.len(), g.seen.len());
    let (international_ok, nin_active) = assessment_flags(&results);
    assert!(international_ok);
    assert!(!nin_active);
    assert_eq!(classify_interference(&results), InterferenceKind::NoInterference);
}

#[test]
fn confidence_is_diversity_weighted_not_raw_count() {
    let results = vec![
        r(true, 1, ProbeOutcome::Connected),
        r(true, 1, ProbeOutcome::Connected),
        r(true, 2, ProbeOutcome::Timeout),
    ];
    let g = anchor_groups(&results, true);
    assert_eq!(g.ok, vec![1]);
    assert_eq!(g.seen, vec![1, 2]);
}

#[test]
fn nin_active_mirrors_baseline_semantics() {
    let results = vec![
        r(true, 1, ProbeOutcome::Timeout),
        r(true, 2, ProbeOutcome::Timeout),
        r(false, 9, ProbeOutcome::Connected),
    ];
    let (international_ok, nin_active) = assessment_flags(&results);
    assert!(!international_ok);
    assert!(nin_active);
    assert!(!anchor_groups(&results, false).ok.is_empty());
}

#[test]
fn connectivity_verdict_matches_probe_results() {
    assert_eq!(connectivity_verdict(&vec![false, true], &vec![true]), (true, false));
    assert_eq!(connectivity_verdict(&vec![false, false], &vec![false, true]), (false, true));
    assert_eq!(connectivity_verdict(&vec![], &vec![]), (false, false));
}

#[test]
fn detector_reuses_verdict_for_thirty_seconds() {
    let mut d = NinDetector::with_defaults();
    assert_eq!(d.events_path(), "data/nin_events.json");
    assert_eq!(d.cached_verdict(5, false), None);
    assert!(d.record_check(true, 1_000));
    assert_eq!(d.cached_verdict(1_000 + 29_999_999_999, false), Some(true));
    assert_eq!(d.cached_verdict(1_000 + 30_000_000_000, false), None);
    assert_eq!(d.cached_verdict(1_000, true), None);
    assert_eq!(d.cached_verdict(10, false), Some(true));
    assert!(!d.record_check(false, 2_000));
    assert_eq!(d.cached_verdict(2_000, false), Some(false));
}

#[test]
fn telegram_url_needs_token_and_chat() {
    assert_eq!(
        telegram_send_url(" abc:123 ", "42"),
        Some("https://api.telegram.org/botabc:123/sendMessage".to_string())
    );
    assert_eq!(telegram_send_url("   ", "42"), None);
    assert_eq!(telegram_send_url("abc", ""), None);
}

#[test]
fn tie_break_orders_transports() {
    let all = all_transports();
    for (i, t) in all.iter().enumerate() {
        assert_eq!(t.tie_break() as usize, i);
    }
    assert_eq!(Transport::Snowflake.tie_break(), 0);
    assert_eq!(Transport::Vanilla.tie_break(), 5);
}

#[test]
fn splitmix64_matches_reference_sequence() {
    let mut state = 0u64;
    assert_eq!(splitmix64(&mut state), 0xe220a8397b1dcdaf);
    assert_eq!(state, 0x9e3779b97f4a7c15);
    assert_eq!(splitmix64(&mut state), 0x6e789e6aa1b965f4);
}

#[test]
fn recommend_strategy_texts() {
    assert!(recommend_strategy(true).starts_with("Internet cut detected"));
    assert!(recommend_strategy(false).starts_with("International internet reachable."));
}
