use torshield::formatter::{cut_pack_body, iran_pack_body, iran_pack_body_at, standard_files, ExportRecord};
use torshield::timefmt::rfc3339_at;

fn rec(transport: &str, raw: &str, ipv6: bool, recent: bool, test_pass: Option<bool>) -> ExportRecord {
    ExportRecord { transport: transport.to_string(), raw: raw.to_string(), ipv6, recent, test_pass }
}

#[test]
fn standard_files_split_by_family_window_and_test() {
    let records = vec![
        rec("obfs4", "Bridge obfs4 1.2.3.4:443 A", false, true, Some(true)),
        rec("obfs4", "obfs4 [2001:db8::1]:443 B", true, false, None),
        rec("obfs4", "", false, true, Some(true)),
        rec("snowflake", " snowflake 192.0.2.3:1 C ", false, false, Some(false)),
    ];
    let files = standard_files(&records, 72);
    assert_eq!(files.len(), 30);
    let names: Vec<&str> = files[..6].iter().map(|f| f.name.as_str()).collect();
    assert_eq!(
        names,
        vec!["obfs4.txt", "obfs4_ipv6.txt", "obfs4_72h.txt", "obfs4_72h_ipv6.txt", "obfs4_tested.txt", "obfs4_ipv6_tested.txt"]
    );
    assert_eq!(files[0].lines, vec!["obfs4 1.2.3.4:443 A".to_string()]);
    assert_eq!(files[1].lines, vec!["obfs4 [2001:db8::1]:443 B".to_string()]);
    assert_eq!(files[2].lines, vec!["obfs4 1.2.3.4:443 A".to_string()]);
    assert!(files[3].lines.is_empty());
    assert_eq!(files[4].lines, vec!["obfs4 1.2.3.4:443 A".to_string()]);
    assert_eq!(files[18].name, "snowflake.txt");
    assert_eq!(files[18].lines, vec!["snowflake 192.0.2.3:1 C".to_string()]);
    assert!(files[22].lines.is_empty());
    assert_eq!(files[29].name, "meek_lite_ipv6_tested.txt");
}

#[test]
fn iran_pack_keeps_scorer_order_and_skips_empty_lines() {
    let raws = vec!["Bridge b 2".to_string(), "".to_string(), "a 1".to_string(), "   ".to_string()];
    let body = iran_pack_body("2026-06-30 12:00 UTC", &raws);
    assert_eq!(
        body,
        "# Tor Bridge Iran Pack \u{2014} sorted by Iran effectiveness score\n# Generated: 2026-06-30 12:00 UTC\n# Usage: paste lines below into Tor Browser \u{2192} Settings \u{2192} Connection \u{2192} Bridges\n\nb 2\na 1\n"
    );
}

#[test]
fn cut_pack_has_its_header() {
    let body = cut_pack_body(&vec!["snowflake x".to_string()]);
    assert!(body.starts_with("# Bridges for Iranian Internet Cut (شبکه ملی)\n"));
    assert!(body.ends_with("# Priority: Snowflake > WebTunnel (CDN) > obfs4 port 443\n\nsnowflake x\n"));
}

#[test]
fn iran_pack_body_at_stamps_the_utc_minute() {
    // 2026-06-28T12:34:56Z
    let raws = vec!["obfs4 1.2.3.4:443 cert=abc".to_string()];
    let body = iran_pack_body_at(1_782_650_096, &raws).expect("instant renders");
    assert_eq!(body, iran_pack_body("2026-06-28 12:34 UTC", &raws));
    assert!(iran_pack_body_at(i64::MAX, &raws).is_none());
}

#[test]
fn rfc3339_at_renders_utc_instants() {
    assert_eq!(rfc3339_at(1_782_650_096, 0).unwrap(), "2026-06-28T12:34:56+00:00");
    assert_eq!(rfc3339_at(0, 500_000_000).unwrap(), "1970-01-01T00:00:00.500+00:00");
    assert!(rfc3339_at(i64::MAX, 0).is_none());
}
