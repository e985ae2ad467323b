use chrono::TimeZone;
use torshield::iran_quantum_dpi_shield_v2::{
    classify_composite, port_hopping_schedule, predict_strategy, select_transport, ForecastInput, Shield,
    SiamStrategy, COMPOSITE_WEIGHT_ANTI_AI_PERMILLE, COMPOSITE_WEIGHT_ECH_PERMILLE, COMPOSITE_WEIGHT_HIST_PERMILLE,
};
use torshield::iran_smart_anti_filter_v2::{
    classify_tier, irst_history, next_transport, preferred_ports_for_tier, preferred_transports_for_tier,
    utc_to_irst_hour, CensorshipTier, HistoryVerdict, IrstTierConfig, OoniIstRecord, IRST_OFFSET_SECS,
};

fn ooni(transport: &str, hour: u32, day_offset: i64, success: bool) -> OoniIstRecord {
    OoniIstRecord { bridge_host: "1.2.3.4:443".into(), transport: transport.into(), irst_hour: hour, day_offset, success }
}

fn fixed_now() -> i64 {
    chrono::Utc.with_ymd_and_hms(2026, 6, 28, 12, 0, 0).unwrap().timestamp()
}

fn utc(y: i32, mo: u32, d: u32, h: u32, mi: u32) -> i64 {
    chrono::Utc.with_ymd_and_hms(y, mo, d, h, mi, 0).unwrap().timestamp()
}

#[test]
fn transport_ranking_ja3_prefers_snowflake() {
    let ranking = SiamStrategy::Ja3FingerprintBlock.transport_ranking();
    assert_eq!(ranking[0], "snowflake");
}

#[test]
fn transport_ranking_nin_prefers_webtunnel() {
    let ranking = SiamStrategy::NinFullIsolation.transport_ranking();
    assert_eq!(ranking[0], "webtunnel");
}

#[test]
fn port_dwell_minutes_decreases_with_escalation() {
    let passive = SiamStrategy::PassiveSniBlocklist.port_dwell_minutes();
    let nin = SiamStrategy::NinFullIsolation.port_dwell_minutes();
    assert!(nin < passive);
    assert_eq!(passive, 60);
    assert_eq!(nin, 5);
}

#[test]
fn composite_score_weights_sum_to_one() {
    let w = (COMPOSITE_WEIGHT_ANTI_AI_PERMILLE + COMPOSITE_WEIGHT_ECH_PERMILLE + COMPOSITE_WEIGHT_HIST_PERMILLE) as f64
        / 1000.0;
    assert!((w - 1.0).abs() < 1e-9);
}

#[test]
fn select_transport_returns_top_ranked_when_no_history() {
    let t = select_transport(SiamStrategy::Ja3FingerprintBlock, &Vec::new(), fixed_now());
    assert_eq!(t, "snowflake");
}

#[test]
fn select_transport_skips_transport_on_cooldown() {
    let now = fixed_now();
    let last_used = vec![("snowflake".to_string(), now - 5 * 60)];
    let t = select_transport(SiamStrategy::Ja3FingerprintBlock, &last_used, now);
    assert_eq!(t, "webtunnel");
}

#[test]
fn select_transport_returns_top_when_all_on_cooldown() {
    let now = fixed_now();
    let last_used: Vec<(String, i64)> = SiamStrategy::Ja3FingerprintBlock
        .transport_ranking()
        .iter()
        .map(|t| (t.to_string(), now - 60))
        .collect();
    let t = select_transport(SiamStrategy::Ja3FingerprintBlock, &last_used, now);
    assert_eq!(t, "snowflake");
}

#[test]
fn port_hopping_schedule_has_six_entries() {
    let schedule = port_hopping_schedule(SiamStrategy::PassiveSniBlocklist, fixed_now());
    assert_eq!(schedule.len(), 6);
    assert_eq!(schedule[0].0, 443);
    assert_eq!(schedule[5].0, 2096);
}

#[test]
fn port_hopping_schedule_dwell_increments() {
    let now = fixed_now();
    let schedule = port_hopping_schedule(SiamStrategy::Ja3FingerprintBlock, now);
    assert_eq!(schedule[0].1, now + 15 * 60);
    assert_eq!(schedule[5].1, now + 90 * 60);
}

#[test]
fn preferred_transports_for_ultra_stealth_excludes_vanilla() {
    let transports = preferred_transports_for_tier(CensorshipTier::UltraStealth);
    assert!(transports.contains(&"webtunnel"));
    assert!(transports.contains(&"snowflake"));
    assert!(!transports.contains(&"vanilla"));
}

#[test]
fn preferred_ports_for_ultra_stealth_omits_port_80() {
    let ports = preferred_ports_for_tier(CensorshipTier::UltraStealth);
    assert!(ports.contains(&443));
    assert!(!ports.contains(&80));
}

#[test]
fn irst_offset_constant_is_3h30m() {
    assert_eq!(IRST_OFFSET_SECS, 12_600);
}

#[test]
fn irst_hour_conversion_is_3h30_ahead_of_utc() {
    assert_eq!(utc_to_irst_hour(utc(2026, 6, 24, 12, 0)), 15);
    assert_eq!(utc_to_irst_hour(utc(2026, 6, 24, 20, 30)), 0);
}

#[test]
fn tier_classification_matches_default_config_windows() {
    let cfg = IrstTierConfig::default();
    assert_eq!(classify_tier(utc(2026, 6, 24, 17, 30), &cfg), CensorshipTier::UltraStealth);
    assert_eq!(classify_tier(utc(2026, 6, 24, 15, 30), &cfg), CensorshipTier::HighStealth);
    assert_eq!(classify_tier(utc(2026, 6, 24, 21, 0), &cfg), CensorshipTier::HighStealth);
    assert_eq!(classify_tier(utc(2026, 6, 24, 0, 30), &cfg), CensorshipTier::Relaxed);
    assert_eq!(classify_tier(utc(2026, 6, 24, 6, 30), &cfg), CensorshipTier::Normal);
}

#[test]
fn next_transport_skips_recently_failed() {
    let now = utc(2026, 6, 24, 17, 30);
    let tier = classify_tier(now, &IrstTierConfig::default());
    let recent = vec![("webtunnel".to_string(), now - 5 * 60)];
    assert_eq!(next_transport(tier, &recent, now, 10), "snowflake");
}

#[test]
fn next_transport_returns_top_preference_when_all_on_cooldown() {
    let now = utc(2026, 6, 24, 17, 30);
    let tier = classify_tier(now, &IrstTierConfig::default());
    let recent: Vec<(String, i64)> =
        preferred_transports_for_tier(tier).iter().map(|t| (t.to_string(), now - 60)).collect();
    assert_eq!(next_transport(tier, &recent, now, 10), "webtunnel");
}

#[test]
fn irst_hour_of_instants_before_1970() {
    assert_eq!(utc_to_irst_hour(-12_600), 0);
    assert_eq!(utc_to_irst_hour(-12_601), 23);
}

#[test]
fn predict_strategy_default_is_passive() {
    assert_eq!(predict_strategy(&ForecastInput::default()), SiamStrategy::PassiveSniBlocklist);
}

#[test]
fn predict_strategy_nin_detected_short_circuits() {
    let input = ForecastInput { nin_detected: true, ..Default::default() };
    assert_eq!(predict_strategy(&input), SiamStrategy::NinFullIsolation);
}

#[test]
fn predict_strategy_high_bridge_failure_escalates_to_length_analysis() {
    // A failure rate of 0.95.
    let input = ForecastInput { bridge_failure_rate_permille: 950, ..Default::default() };
    assert_eq!(predict_strategy(&input), SiamStrategy::ProtocolLengthDistribution);
}

#[test]
fn predict_strategy_confirmed_anomaly_high_escalates_to_ja3() {
    let input = ForecastInput { confirmed_count: 50, anomaly_count: 200, ..Default::default() };
    assert_eq!(predict_strategy(&input), SiamStrategy::Ja3FingerprintBlock);
}

#[test]
fn predict_strategy_anomaly_only_escalates_to_active_sni() {
    let input = ForecastInput { anomaly_count: 100, ..Default::default() };
    assert_eq!(predict_strategy(&input), SiamStrategy::ActiveSniFiltering);
}

#[test]
fn predict_strategy_confirmed_only_escalates_to_active_sni() {
    let input = ForecastInput { confirmed_count: 20, ..Default::default() };
    assert_eq!(predict_strategy(&input), SiamStrategy::ActiveSniFiltering);
}

#[test]
fn predict_strategy_just_below_thresholds_stays_passive() {
    let input = ForecastInput { anomaly_count: 99, confirmed_count: 19, bridge_failure_rate_permille: 949, ..Default::default() };
    assert_eq!(predict_strategy(&input), SiamStrategy::PassiveSniBlocklist);
}

#[test]
fn classify_composite_thresholds() {
    assert_eq!(classify_composite(750), "priority");
    assert_eq!(classify_composite(700), "priority");
    assert_eq!(classify_composite(500), "neutral");
    assert_eq!(classify_composite(300), "neutral");
    assert_eq!(classify_composite(290), "avoid");
    assert_eq!(classify_composite(0), "avoid");
}

#[test]
fn shield_recommend_returns_complete_json() {
    let shield = Shield::new(fixed_now(), 0);
    let input = ForecastInput {
        anomaly_count: 250,
        confirmed_count: 60,
        failure_count: 10,
        window_hours: 24,
        bridge_failure_rate_permille: 300,
        nin_detected: false,
    };
    let rec = shield.recommend(&input, &Vec::new()).unwrap();
    assert_eq!(rec.predicted_strategy.as_snake_str(), "ja3_fingerprint_block");
    assert_eq!(rec.recommended_transport, "snowflake");
    assert_eq!(rec.port_dwell_minutes, 15);
    assert_eq!(rec.cooldown_minutes, 15);
    assert_eq!(rec.port_hopping_schedule.len(), 6);
    assert_eq!(COMPOSITE_WEIGHT_ANTI_AI_PERMILLE, 400);
    assert_eq!(COMPOSITE_WEIGHT_ECH_PERMILLE, 350);
    assert_eq!(COMPOSITE_WEIGHT_HIST_PERMILLE, 250);
    assert_eq!(rec.generated_at, "2026-06-28T12:00:00+00:00");
    assert_eq!(rec.port_hopping_schedule[0], (443, "2026-06-28T12:15:00+00:00".to_string()));
    assert_eq!(rec.port_hopping_schedule[5], (2096, "2026-06-28T13:30:00+00:00".to_string()));
}

#[test]
fn shield_recommend_nin_case() {
    let shield = Shield::new(fixed_now(), 0);
    let input = ForecastInput { nin_detected: true, ..Default::default() };
    let rec = shield.recommend(&input, &Vec::new()).unwrap();
    assert_eq!(rec.predicted_strategy.as_snake_str(), "nin_full_isolation");
    assert_eq!(rec.recommended_transport, "webtunnel");
    assert_eq!(rec.port_dwell_minutes, 5);
}

#[test]
fn boost_applied_when_ooni_history_shows_high_success_rate() {
    let records = vec![ooni("snowflake", 22, 0, true), ooni("snowflake", 22, -1, true), ooni("snowflake", 22, -2, true), ooni("snowflake", 22, -3, false)];
    let h = irst_history("1.2.3.4:443", "snowflake", &records, 22, 7);
    assert_eq!((h.successes, h.total), (3, 4));
    assert_eq!(h.verdict, HistoryVerdict::Boost);
}

#[test]
fn penalty_applied_when_ooni_history_shows_low_success_rate() {
    let records = vec![ooni("vanilla", 22, 0, false), ooni("vanilla", 22, -1, false), ooni("vanilla", 22, -2, false)];
    let h = irst_history("1.2.3.4:443", "vanilla", &records, 22, 7);
    assert_eq!(h.verdict, HistoryVerdict::Penalty);
}

#[test]
fn no_adjustment_with_fewer_than_three_samples() {
    let records = vec![ooni("snowflake", 22, 0, true), ooni("snowflake", 22, -1, true)];
    let h = irst_history("1.2.3.4:443", "snowflake", &records, 22, 7);
    assert_eq!(h.verdict, HistoryVerdict::TooFewSamples);
}

#[test]
fn boost_respects_window_days_filter() {
    let records = vec![ooni("snowflake", 22, -10, true), ooni("snowflake", 22, -1, true), ooni("snowflake", 22, -2, true)];
    let h = irst_history("1.2.3.4:443", "snowflake", &records, 22, 7);
    assert_eq!(h.total, 2);
    assert_eq!(h.verdict, HistoryVerdict::TooFewSamples);
}

#[test]
fn boost_ignores_records_for_different_irst_hour() {
    let records = vec![ooni("snowflake", 10, 0, true), ooni("snowflake", 10, -1, true), ooni("snowflake", 10, -2, true)];
    let h = irst_history("1.2.3.4:443", "snowflake", &records, 22, 7);
    assert_eq!(h.total, 0);
    assert_eq!(h.verdict, HistoryVerdict::TooFewSamples);
}

#[test]
fn history_verdict_thresholds_are_seventy_and_thirty_percent() {
    let mk = |s: usize, f: usize| {
        let mut v = Vec::new();
        for _ in 0..s {
            v.push(ooni("obfs4", 3, 0, true));
        }
        for _ in 0..f {
            v.push(ooni("obfs4", 3, 0, false));
        }
        irst_history("1.2.3.4:443", "obfs4", &v, 3, 0).verdict
    };
    assert_eq!(mk(7, 3), HistoryVerdict::Boost);
    assert_eq!(mk(6, 4), HistoryVerdict::NoAdjustment);
    assert_eq!(mk(3, 7), HistoryVerdict::NoAdjustment);
    assert_eq!(mk(2, 8), HistoryVerdict::Penalty);
    // Future records and other transports do not count.
    let v = vec![ooni("obfs4", 3, 1, true), ooni("snowflake", 3, 0, true)];
    assert_eq!(irst_history("1.2.3.4:443", "obfs4", &v, 3, 0).total, 0);
}
