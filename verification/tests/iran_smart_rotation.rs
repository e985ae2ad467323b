use torshield::iran_smart_rotation::{
    ip_of_line, plan_rotation, plan_summary, prefix_of, select_rotation, sort_candidates, transport_of, transport_rank,
    Candidate, MAX_PER_PREFIX,
};

fn scaled(score: f64) -> i64 {
    (score.clamp(0.0, 1.0) * 1_000_000_000.0).round() as i64
}

fn cand(ordinal: usize, raw: &str, transport: &str, score: f64) -> Candidate {
    Candidate {
        line: raw.trim().to_string(),
        transport: transport_of(Some(transport), None, raw),
        prefix: prefix_of(&ip_of_line(raw)),
        scaled_score: scaled(score),
        ordinal,
    }
}

#[test]
fn plans_alternate_transports_for_dpi_wave_resilience() {
    let cands = vec![
        cand(0, "obfs4 203.0.113.1:443 AAAA cert=AAAA iat-mode=0", "obfs4", 0.99),
        cand(1, "obfs4 203.0.113.2:443 BBBB cert=BBBB iat-mode=0", "obfs4", 0.98),
        cand(2, "snowflake 192.0.2.1:1 CCCC", "snowflake", 0.01),
    ];
    let plan = plan_rotation(cands, 3, 0);
    assert_eq!(plan.len(), 3);
    assert_ne!(plan[0].transport, plan[1].transport);
}

#[test]
fn caps_entries_per_asn_prefix() {
    let cands: Vec<Candidate> = (1..=6)
        .map(|i| cand(i - 1, &format!("obfs4 198.51.100.{i}:443 FFFF{i} cert=C{i} iat-mode=0"), "obfs4", 0.9))
        .collect();
    let plan = plan_rotation(cands, 3, 0);
    assert_eq!(plan.len(), MAX_PER_PREFIX);
    let prefixes: std::collections::BTreeSet<&str> = plan.iter().map(|c| c.prefix.as_str()).collect();
    assert_eq!(prefixes.len(), 1);
}

#[test]
fn escalated_censorship_promotes_fronting_transports() {
    let cands = vec![
        cand(0, "obfs4 203.0.113.9:443 DDDD cert=DDDD iat-mode=0", "obfs4", 0.9),
        cand(1, "webtunnel 203.0.113.10:443 EEEE", "webtunnel", 0.9),
    ];
    let plan = plan_rotation(cands, 5, 0);
    assert_eq!(plan[0].transport, "webtunnel");
}

#[test]
fn deterministic_for_identical_input() {
    let make = || {
        vec![
            cand(0, "obfs4 203.0.113.1:443 AAAA cert=AAAA iat-mode=0", "obfs4", 0.5),
            cand(1, "snowflake 192.0.2.9:2 BBBB", "snowflake", 0.5),
            cand(2, "webtunnel 192.0.2.10:3 CCCC", "webtunnel", 0.5),
        ]
    };
    assert_eq!(plan_rotation(make(), 4, 10), plan_rotation(make(), 4, 10));
}

#[test]
fn prefixes_collapse_addresses() {
    assert_eq!(prefix_of("203.0.113.7"), "203.0.113");
    assert_eq!(prefix_of("2001:db8:1:2:3::4"), "2001:db8:1:2");
    assert_eq!(prefix_of("2001:db8::1"), "2001:db8::1");
    assert_eq!(prefix_of("bridge.example"), "bridge.example");
    assert_eq!(prefix_of(""), "unknown");
    assert_eq!(ip_of_line("webtunnel [2001:db8::1]:443 X"), "2001:db8::1");
    assert_eq!(ip_of_line("obfs4 1.2.3.4:443 X"), "1.2.3.4");
    assert_eq!(ip_of_line("obfs4"), "");
}

#[test]
fn transport_comes_from_fields_then_line() {
    assert_eq!(transport_of(Some("  OBFS4 "), Some("x"), "snowflake a b"), "obfs4");
    assert_eq!(transport_of(Some("  "), Some("WebTunnel"), "snowflake a b"), "webtunnel");
    assert_eq!(transport_of(None, None, "Snowflake 1.2.3.4:1"), "snowflake");
    assert_eq!(transport_of(None, None, "   "), "unknown");
}

#[test]
fn ranks_follow_censorship_level() {
    assert_eq!(transport_rank("obfs4", 1), 0);
    assert_eq!(transport_rank("obfs4", 4), 3);
    assert_eq!(transport_rank("snowflake", 5), 0);
    assert_eq!(transport_rank("conjure", 2), 5);
}

#[test]
fn sorting_uses_score_then_rank_then_ordinal() {
    let cands = vec![
        cand(0, "vanilla 10.0.0.1:1 A", "vanilla", 0.5),
        cand(1, "obfs4 10.0.1.1:1 B", "obfs4", 0.5),
        cand(2, "snowflake 10.0.2.1:1 C", "snowflake", 0.7),
        cand(3, "obfs4 10.0.3.1:1 D", "obfs4", 0.5),
    ];
    let sorted = sort_candidates(cands, 2);
    let order: Vec<usize> = sorted.iter().map(|c| c.ordinal).collect();
    assert_eq!(order, vec![2, 1, 3, 0]);
}

#[test]
fn second_pass_fills_with_deferred_and_cap_is_honoured() {
    let cands = vec![
        cand(0, "obfs4 10.0.0.1:1 A", "obfs4", 0.9),
        cand(1, "obfs4 10.0.1.1:1 B", "obfs4", 0.8),
        cand(2, "obfs4 10.0.2.1:1 C", "obfs4", 0.7),
    ];
    let sorted = sort_candidates(cands.clone(), 1);
    let plan = select_rotation(sorted, 0);
    let order: Vec<usize> = plan.iter().map(|c| c.ordinal).collect();
    assert_eq!(order, vec![0, 1, 2]);
    let sorted = sort_candidates(cands, 1);
    assert_eq!(select_rotation(sorted, 2).len(), 2);
}

#[test]
fn plan_summary_counts_transports_and_prefixes() {
    let plan = vec![
        cand(0, "obfs4 1.2.3.4:443 cert=a", "obfs4", 0.9),
        cand(1, "snowflake 5.6.7.8:1", "snowflake", 0.8),
        cand(2, "obfs4 1.2.3.9:443 cert=b", "obfs4", 0.7),
        cand(3, "webtunnel 9.9.9.9:443", "webtunnel", 0.6),
    ];
    let (histogram, prefixes) = plan_summary(&plan);
    assert_eq!(
        histogram,
        vec![("obfs4".to_string(), 2), ("snowflake".to_string(), 1), ("webtunnel".to_string(), 1)]
    );
    assert_eq!(prefixes.len(), 3);
    assert_eq!(prefixes.iter().map(|(_, n)| n).sum::<usize>(), 4);
    assert_eq!(plan_summary(&Vec::new()), (Vec::new(), Vec::new()));
}
