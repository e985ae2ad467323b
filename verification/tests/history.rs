use torshield::history::{iso_timestamp, HistoryManager, MAX_PROBES_PER_BRIDGE, PROBE_RETENTION_DAYS};

/// 2026-06-28T12:00:00Z
const NOW_SECS: i64 = 1_782_648_000;
const NANOS_PER_SEC: i128 = 1_000_000_000;

fn fixed_manager() -> HistoryManager {
    HistoryManager::at(NOW_SECS, 0).expect("instant renders")
}

fn instant(secs: i64) -> i128 {
    i128::from(secs) * NANOS_PER_SEC
}

const LINE: &str = "obfs4 1.2.3.4:443";

/// The instants of the probes a test has recorded, kept in step with the
/// manager's log: sorted, newer than the retention cutoff, at most the
/// bound.
struct LogInstants(Vec<i128>);

impl LogInstants {
    fn new() -> Self {
        LogInstants(Vec::new())
    }

    fn record(&mut self, at: i128) {
        self.0.push(at);
        self.0.sort();
        let cutoff = instant(NOW_SECS - PROBE_RETENTION_DAYS * 86_400);
        self.0.retain(|t| *t > cutoff);
        while self.0.len() > MAX_PROBES_PER_BRIDGE {
            self.0.remove(0);
        }
    }

    fn test_now(&mut self, mgr: &mut HistoryManager, passed: bool, latency_ms: Option<i64>) {
        let before = self.0.clone();
        mgr.update_test(LINE, passed, latency_ms, &before);
        self.record(instant(NOW_SECS));
    }

    fn probe_at(&mut self, mgr: &mut HistoryManager, secs: i64, passed: bool, latency_ms: Option<i64>) {
        let before = self.0.clone();
        mgr.record_probe_at(LINE, secs, 0, passed, latency_ms, &before);
        self.record(instant(secs));
    }
}

#[test]
fn normalize_key_strips_bridge_prefix_and_lowercases() {
    assert_eq!(HistoryManager::normalize_key("  Bridge OBFS4 1.2.3.4:443  "), "obfs4 1.2.3.4:443");
    assert_eq!(HistoryManager::normalize_key("obfs4 1.2.3.4:443"), "obfs4 1.2.3.4:443");
    assert_eq!(HistoryManager::normalize_key(""), "");
}

#[test]
fn add_bridge_inserts_new_record_with_correct_fields() {
    let mut mgr = fixed_manager();
    mgr.add_bridge("obfs4 1.2.3.4:443 cert=abc", "obfs4");
    let all = mgr.get_all();
    assert_eq!(all.len(), 1);
    let (_, rec) = &all[0];
    assert_eq!(rec.transport, "obfs4");
    assert_eq!(rec.score, 0);
    assert!(rec.test_pass.is_none());
    assert!(!rec.first_seen.is_empty());
}

#[test]
fn add_bridge_updates_existing_record() {
    let mut mgr = fixed_manager();
    mgr.add_bridge("obfs4 1.2.3.4:443", "obfs4");
    mgr.add_bridge("OBFS4 1.2.3.4:443", "obfs4"); // same key after normalization
    let all = mgr.get_all();
    assert_eq!(all.len(), 1); // deduplicated
}

#[test]
fn update_test_records_pass_and_latency() {
    let mut mgr = fixed_manager();
    mgr.add_bridge("obfs4 1.2.3.4:443", "obfs4");
    mgr.update_test("obfs4 1.2.3.4:443", true, Some(42), &Vec::new());
    let tested = mgr.get_tested(true);
    assert_eq!(tested.len(), 1);
    assert_eq!(tested[0].latency_ms, Some(42));
}

#[test]
fn update_score_sets_score() {
    let mut mgr = fixed_manager();
    mgr.add_bridge("obfs4 1.2.3.4:443", "obfs4");
    mgr.update_score("obfs4 1.2.3.4:443", 75);
    let all = mgr.get_all();
    assert_eq!(all[0].1.score, 75);
}

#[test]
fn get_by_transport_filters_case_insensitive() {
    let mut mgr = fixed_manager();
    mgr.add_bridge("obfs4 1.2.3.4:443", "obfs4");
    mgr.add_bridge("snowflake 5.6.7.8:1", "snowflake");
    assert_eq!(mgr.get_by_transport("OBFS4").len(), 1);
    assert_eq!(mgr.get_by_transport("snowflake").len(), 1);
    assert_eq!(mgr.get_by_transport("vanilla").len(), 0);
}

#[test]
fn purge_old_removes_stale_entries() {
    let mut mgr = fixed_manager();
    mgr.add_bridge("obfs4 1.2.3.4:443", "obfs4");
    // Its last-seen time taken as 100 days ago; purge what is older than 30 days.
    let last_seen = vec![instant(NOW_SECS - 100 * 86_400)];
    let removed = mgr.purge_old(&last_seen, instant(NOW_SECS - 30 * 86_400));
    assert_eq!(removed, 1);
    assert_eq!(mgr.get_all().len(), 0);
}

#[test]
fn purge_old_keeps_recent_entries() {
    let mut mgr = fixed_manager();
    mgr.add_bridge("obfs4 1.2.3.4:443", "obfs4");
    mgr.add_bridge("vanilla 9.9.9.9:9001", "vanilla");
    // Keys in order: "obfs4 ..." then "vanilla ...".
    let last_seen = vec![instant(NOW_SECS), instant(NOW_SECS - 100 * 86_400)];
    let removed = mgr.purge_old(&last_seen, instant(NOW_SECS - 30 * 86_400));
    assert_eq!(removed, 1);
    let all = mgr.get_all();
    assert_eq!(all.len(), 1);
    assert_eq!(all[0].0, "obfs4 1.2.3.4:443");
}

#[test]
fn get_recent_keeps_only_records_first_seen_after_the_cutoff() {
    let mut mgr = fixed_manager();
    mgr.add_bridge("obfs4 1.2.3.4:443", "obfs4");
    mgr.add_bridge("snowflake 5.6.7.8:1", "snowflake");
    let first_seen = vec![instant(NOW_SECS - 80 * 3_600), instant(NOW_SECS - 3_600)];
    let recent = mgr.get_recent(&first_seen, instant(NOW_SECS - 72 * 3_600));
    assert_eq!(recent.len(), 1);
    assert_eq!(recent[0].transport, "snowflake");
}

#[test]
fn update_test_appends_probe_and_keeps_single_record_fields() {
    let mut mgr = fixed_manager();
    mgr.add_bridge("obfs4 1.2.3.4:443", "obfs4");
    let mut log = LogInstants::new();
    log.test_now(&mut mgr, true, Some(50));
    log.test_now(&mut mgr, false, Some(90));

    // Single-record fields hold the latest result.
    let all = mgr.get_all();
    assert_eq!(all.len(), 1);
    let (_, rec) = &all[0];
    assert_eq!(rec.test_pass, Some(false));
    assert_eq!(rec.latency_ms, Some(90));
    // The probe log keeps both observations.
    let probes = mgr.probe_history("obfs4 1.2.3.4:443");
    assert_eq!(probes.len(), 2);
    assert!(probes[0].passed);
    assert_eq!(probes[0].latency_ms, Some(50));
    assert!(!probes[1].passed);
    assert_eq!(probes[1].latency_ms, Some(90));
}

#[test]
fn probe_history_bounded_by_max_probes_drops_oldest() {
    let mut mgr = fixed_manager();
    mgr.add_bridge(LINE, "obfs4");
    let overflow = MAX_PROBES_PER_BRIDGE + 10;
    let mut log = LogInstants::new();
    for i in 0..overflow {
        let secs = NOW_SECS - 60 * (overflow - i) as i64;
        log.probe_at(&mut mgr, secs, true, Some(i as i64));
    }
    let probes = mgr.probe_history(LINE);
    assert_eq!(probes.len(), MAX_PROBES_PER_BRIDGE);
    // Oldest 10 dropped: first retained probe is the 11th recorded.
    assert_eq!(probes[0].latency_ms, Some(10));
    // Newest retained.
    assert_eq!(probes.last().unwrap().latency_ms, Some((overflow - 1) as i64));
}

#[test]
fn probe_history_pruned_by_retention_days() {
    let mut mgr = fixed_manager();
    mgr.add_bridge(LINE, "obfs4");
    let mut log = LogInstants::new();
    // A 100-day-old probe is beyond the 90-day retention.
    log.probe_at(&mut mgr, NOW_SECS - 100 * 86_400, true, Some(10));
    // A fresh probe triggers the prune on write.
    log.test_now(&mut mgr, true, Some(20));
    let probes = mgr.probe_history(LINE);
    assert_eq!(probes.len(), 1);
    assert_eq!(probes[0].latency_ms, Some(20));
    assert!(probes[0].timestamp.contains("2026-06-28"));
}

#[test]
fn record_probe_at_sorts_out_of_order_replays() {
    let mut mgr = fixed_manager();
    mgr.add_bridge(LINE, "obfs4");
    let mut log = LogInstants::new();
    log.probe_at(&mut mgr, NOW_SECS - 60, true, Some(2));
    log.probe_at(&mut mgr, NOW_SECS - 120, false, Some(1));
    let probes = mgr.probe_history(LINE);
    assert_eq!(probes.len(), 2);
    assert_eq!(probes[0].latency_ms, Some(1));
    assert_eq!(probes[1].latency_ms, Some(2));
    assert_eq!(probes[0].timestamp, iso_timestamp(NOW_SECS - 120, 0).unwrap());
}

#[test]
fn record_probe_at_leaves_latest_result_alone() {
    let mut mgr = fixed_manager();
    mgr.add_bridge(LINE, "obfs4");
    let mut log = LogInstants::new();
    log.test_now(&mut mgr, false, Some(7));
    log.probe_at(&mut mgr, NOW_SECS - 30, true, Some(3));
    let all = mgr.get_all();
    assert_eq!(all[0].1.test_pass, Some(false));
    assert_eq!(all[0].1.latency_ms, Some(7));
    assert_eq!(mgr.probe_history(LINE).len(), 2);
}

#[test]
fn recording_on_unknown_bridge_changes_nothing() {
    let mut mgr = fixed_manager();
    mgr.add_bridge(LINE, "obfs4");
    mgr.update_test("vanilla 9.9.9.9:9001", true, Some(1), &Vec::new());
    mgr.record_probe_at("vanilla 9.9.9.9:9001", NOW_SECS, 0, true, Some(1), &Vec::new());
    let all = mgr.get_all();
    assert_eq!(all.len(), 1);
    assert!(all[0].1.test_pass.is_none());
    assert!(mgr.probe_history(LINE).is_empty());
}

#[test]
fn get_stats_returns_correct_counts() {
    let mut mgr = fixed_manager();
    mgr.add_bridge("obfs4 1.2.3.4:443", "obfs4");
    mgr.add_bridge("snowflake 5.6.7.8:1", "snowflake");
    mgr.add_bridge("vanilla 9.10.11.12:9001", "vanilla");
    mgr.update_test("obfs4 1.2.3.4:443", true, None, &Vec::new());
    mgr.update_test("snowflake 5.6.7.8:1", false, None, &Vec::new());
    let stats = mgr.get_stats();
    assert_eq!(stats.total, 3);
    assert_eq!(stats.tested, 2);
    assert_eq!(stats.passing, 1);
    assert_eq!(
        stats.by_transport,
        vec![("obfs4".to_string(), 1), ("snowflake".to_string(), 1), ("vanilla".to_string(), 1)]
    );
}

#[test]
fn timestamps_are_written_with_offset_and_optional_micros() {
    assert_eq!(iso_timestamp(NOW_SECS, 0).unwrap(), "2026-06-28T12:00:00+00:00");
    assert_eq!(iso_timestamp(NOW_SECS, 1_500).unwrap(), "2026-06-28T12:00:00.000001+00:00");
    assert_eq!(iso_timestamp(NOW_SECS, 999).unwrap(), "2026-06-28T12:00:00+00:00");
    assert_eq!(fixed_manager().now_iso(), "2026-06-28T12:00:00+00:00");
}
