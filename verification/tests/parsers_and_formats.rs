use torshield::feature_flags::{is_float_text, parse_bool, parse_csv, parse_float, parse_int, parse_str, FeatureFlagError, FeatureFlags};
use torshield::formatter::{bridge_file_body, clean_bridge_lines, keeps_existing_file, save_line, zip_folder};
use torshield::iran_bridge_prioritizer::{python_int_str, within_window};
use torshield::ja3_intelligence::{siam_blocked_ja3, siam_blocked_profile, universal_recommendations};

fn env(pairs: &[(&str, &str)]) -> Vec<(String, String)> {
    pairs.iter().map(|(k, v)| (k.to_string(), v.to_string())).collect()
}

#[test]
fn save_line_strips_bridge_prefix_and_whitespace() {
    assert_eq!(save_line("  Bridge obfs4 1.2.3.4:443 ABC  "), "obfs4 1.2.3.4:443 ABC");
    assert_eq!(save_line("obfs4 1.2.3.4:443 ABC"), "obfs4 1.2.3.4:443 ABC");
    assert_eq!(save_line(""), "");
}

#[test]
fn bridge_file_lines_are_deduped_sorted_and_trimmed() {
    let clean = clean_bridge_lines(&vec!["b".to_string(), "a".to_string(), "b".to_string(), "  ".to_string()]);
    assert_eq!(clean, vec!["a".to_string(), "b".to_string()]);
    assert_eq!(bridge_file_body(&clean), "a\nb\n");
    assert_eq!(bridge_file_body(&vec![]), "");
}

#[test]
fn empty_export_keeps_only_non_empty_files() {
    assert!(keeps_existing_file(0, Some(9)));
    assert!(!keeps_existing_file(0, Some(0)));
    assert!(!keeps_existing_file(0, None));
    assert!(!keeps_existing_file(2, Some(9)));
}

#[test]
fn zip_folders_by_file_name() {
    assert_eq!(zip_folder("obfs4_tested.txt", 72).as_deref(), Some("Tor Bridges/Tested (Verified)"));
    assert_eq!(zip_folder("obfs4_72h_ipv6.txt", 72).as_deref(), Some("Tor Bridges/Fresh (Last 72h)"));
    assert_eq!(zip_folder("obfs4.txt", 72).as_deref(), Some("Tor Bridges/Full Archive"));
    assert_eq!(zip_folder("bridge_scores.json", 72), None);
}

#[test]
fn within_window_handles_wraparound() {
    assert!(within_window(23, 22, 2));
    assert!(within_window(1, 22, 2));
    assert!(!within_window(10, 22, 2));
    assert!(within_window(5, 5, 5));
}

#[test]
fn python_int_str_handles_underscores_and_signs() {
    assert_eq!(python_int_str("443"), Some(443));
    assert_eq!(python_int_str(" 443 "), Some(443));
    assert_eq!(python_int_str("+443"), Some(443));
    assert_eq!(python_int_str("-1"), Some(-1));
    assert_eq!(python_int_str("4_43"), Some(443));
    assert_eq!(python_int_str("4_4_3"), Some(443));
    assert_eq!(python_int_str("4__43"), None);
    assert_eq!(python_int_str("_443"), None);
    assert_eq!(python_int_str("443_"), None);
    assert_eq!(python_int_str("443.5"), None);
    assert_eq!(python_int_str(""), None);
    assert_eq!(python_int_str("00443"), Some(443));
}

#[test]
fn python_int_str_range_edges() {
    assert_eq!(python_int_str("9223372036854775807"), Some(i64::MAX));
    assert_eq!(python_int_str("9223372036854775808"), None);
    assert_eq!(python_int_str("-"), None);
    assert_eq!(python_int_str("+-1"), None);
}

#[test]
fn defaults_match_python_constants() {
    let flags = FeatureFlags::from_env_map(&env(&[])).unwrap();
    assert!(flags.enable_endpoint_validation);
    assert!(flags.enable_circuit_breaker);
    assert_eq!(flags.circuit_breaker_failure_threshold, 3);
    assert_eq!(flags.circuit_breaker_cooldown_secs.parse::<f64>().unwrap(), 60.0);
    assert_eq!(flags.retry_max_attempts_429, 5);
    assert_eq!(
        flags.provider_fallback_order,
        vec![
            "cloudflare_ai_gateway".to_string(),
            "cloudflare_workers_ai".to_string(),
            "cerebras".to_string(),
            "portkey".to_string(),
        ]
    );
    assert_eq!(flags.log_dir, "logs");
    assert_eq!(flags.irst_high_censorship_start, 18);
    assert_eq!(flags.self_heal_cooldown_secs, "300.0");
}

#[test]
fn invalid_int_env_reports_typed_error() {
    let e = env(&[("CIRCUIT_BREAKER_FAILURE_THRESHOLD", "not-an-int")]);
    let err = FeatureFlags::from_env_map(&e).unwrap_err();
    assert_eq!(
        err,
        FeatureFlagError::InvalidInt { name: "CIRCUIT_BREAKER_FAILURE_THRESHOLD", value: "not-an-int".to_string() }
    );
    assert_eq!(err.to_message(), "invalid integer for CIRCUIT_BREAKER_FAILURE_THRESHOLD: not-an-int");
    assert_eq!(parse_int(&e, "CIRCUIT_BREAKER_FAILURE_THRESHOLD", 3), Err(err));
}

#[test]
fn invalid_float_env_reports_typed_error() {
    let e = env(&[("CIRCUIT_BREAKER_COOLDOWN_SECS", "abc")]);
    let err = FeatureFlags::from_env_map(&e).unwrap_err();
    assert_eq!(err, FeatureFlagError::InvalidFloat { name: "CIRCUIT_BREAKER_COOLDOWN_SECS", value: "abc".to_string() });
    assert_eq!(err.to_message(), "invalid float for CIRCUIT_BREAKER_COOLDOWN_SECS: abc");
}

#[test]
fn first_bad_setting_in_reading_order_is_reported() {
    let e = env(&[("LOG_MAX_MB", "x"), ("RETRY_BACKOFF_CAP_SECS", "1.5.2"), ("RETRY_MAX_ATTEMPTS_429", "7")]);
    let err = FeatureFlags::from_env_map(&e).unwrap_err();
    assert_eq!(err, FeatureFlagError::InvalidFloat { name: "RETRY_BACKOFF_CAP_SECS", value: "1.5.2".to_string() });
}

#[test]
fn float_text_follows_the_documented_grammar() {
    for ok in ["60.0", "1e5", ".5", "5.", "-2.5E-3", "+inf", "Infinity", "NaN", "007"] {
        assert!(is_float_text(ok), "{ok}");
        assert!(ok.parse::<f64>().is_ok(), "{ok}");
    }
    for bad in ["", "abc", " 1", "1 ", ".", "e5", "1e", "1.2.3", "++1", "in f", "0x10"] {
        assert!(!is_float_text(bad), "{bad}");
        assert!(bad.parse::<f64>().is_err(), "{bad}");
    }
    let e = env(&[("SELF_HEAL_COOLDOWN_SECS", "12.5")]);
    assert_eq!(parse_float(&e, "SELF_HEAL_COOLDOWN_SECS", "300.0"), Ok("12.5".to_string()));
    assert_eq!(parse_float(&e, "RETRY_BACKOFF_CAP_SECS", "60.0"), Ok("60.0".to_string()));
}

#[test]
fn bool_env_is_case_insensitive() {
    let e = env(&[("ENABLE_CIRCUIT_BREAKER", "FALSE"), ("ENABLE_TELEMETRY", "False"), ("ENABLE_X", "TrUe")]);
    assert!(!parse_bool(&e, "ENABLE_CIRCUIT_BREAKER", true));
    assert!(!parse_bool(&e, "ENABLE_TELEMETRY", true));
    assert!(parse_bool(&e, "ENABLE_X", false));
}

#[test]
fn env_values_parse_and_last_pair_wins() {
    let e = env(&[("LOG_MAX_MB", "12"), ("LOG_MAX_MB", "-7"), ("LOG_DIR", "/var/log"), ("CSV", "a,,b")]);
    assert_eq!(parse_int(&e, "LOG_MAX_MB", 10), Ok(-7));
    assert_eq!(parse_str(&e, "LOG_DIR", "logs"), "/var/log");
    assert_eq!(parse_csv(&e, "CSV", ""), vec!["a".to_string(), "".to_string(), "b".to_string()]);
    assert_eq!(parse_csv(&e, "MISSING", ""), vec!["".to_string()]);
}

#[test]
fn siam_blocked_profiles_are_found_exactly() {
    assert_eq!(siam_blocked_ja3().len(), 9);
    assert_eq!(siam_blocked_profile("e7d705a3286e19ea42f587b344ee6865"), Some("Tor Browser 12.x default"));
    assert_eq!(siam_blocked_profile("9e10692f1b7a698d15d9a5e0e43fd3a5"), Some("Go net/tls default ClientHello"));
    assert_eq!(siam_blocked_profile("E7D705A3286E19EA42F587B344EE6865"), None);
    assert_eq!(siam_blocked_profile(""), None);
    assert_eq!(universal_recommendations().len(), 5);
}
