use torshield::failsafe_bridges::{
    all_raw_bridges, bridge_dir_from_args, fallback_transports_for_name, is_populated_txt, required_protocol_txt_names, transport_for_filename, transport_map,
    transports, HistoryEntry,
};

fn entry(transport: &str, raw: &str) -> HistoryEntry {
    HistoryEntry { transport: Some(transport.to_string()), raw: Some(raw.to_string()) }
}

fn history_fixture() -> Vec<HistoryEntry> {
    vec![
        entry("obfs4", " obfs4 1.2.3.4:443 cert=XYZ "),
        entry("obfs4", "obfs4 5.6.7.8:444 cert=ABC"),
        entry("webtunnel", "webtunnel 9.9.9.9:443 url=x"),
        entry("unknown", "ignored"),
        HistoryEntry { transport: None, raw: None },
        entry("obfs4", ""),
    ]
}

#[test]
fn transport_for_filename_infers_every_family() {
    assert_eq!(transport_for_filename("obfs4_72h.txt"), Some("obfs4"));
    assert_eq!(transport_for_filename("webtunnel_ipv6_tested.txt"), Some("webtunnel"));
    assert_eq!(transport_for_filename("vanilla_tested.txt"), Some("vanilla"));
    assert_eq!(transport_for_filename("snowflake_ipv6.txt"), Some("snowflake"));
    assert_eq!(transport_for_filename("meek_lite.txt"), Some("meek_lite"));
    assert_eq!(transport_for_filename("meek-azure.txt"), Some("meek-azure"));
    assert_eq!(transport_for_filename("conjure_72h.txt"), Some("conjure"));
    assert_eq!(transport_for_filename("iran_likely_working_obfs4.txt"), Some("obfs4"));
    assert_eq!(transport_for_filename("tested_global_webtunnel.txt"), Some("webtunnel"));
    assert_eq!(transport_for_filename("iran_blocked.txt"), None);
}

#[test]
fn required_protocol_names_cover_all_family_variants() {
    let names = required_protocol_txt_names();
    for expected in [
        "obfs4.txt",
        "obfs4_72h.txt",
        "obfs4_ipv6.txt",
        "obfs4_72h_ipv6.txt",
        "obfs4_ipv6_72h.txt",
        "obfs4_ipv6_tested.txt",
        "obfs4_tested.txt",
        "vanilla.txt",
        "vanilla_ipv6_72h.txt",
        "webtunnel_72h_ipv6.txt",
        "snowflake_ipv6_tested.txt",
        "meek_lite_72h_ipv6.txt",
        "conjure.txt",
        "conjure_72h.txt",
        "conjure_tested.txt",
        "meek-azure.txt",
        "meek-azure_72h.txt",
        "meek-azure_tested.txt",
        "iran_likely_working_all.txt",
        "iran_likely_working_nin.txt",
        "tested_global_obfs4.txt",
    ] {
        assert!(names.contains(&expected.to_string()), "missing {expected}");
    }
}

#[test]
fn transport_map_groups_and_trims() {
    let map = transport_map(&history_fixture());
    let obfs4 = &map.iter().find(|(t, _)| *t == "obfs4").expect("obfs4 entry").1;
    assert_eq!(
        obfs4,
        &vec!["obfs4 1.2.3.4:443 cert=XYZ".to_string(), "obfs4 5.6.7.8:444 cert=ABC".to_string()]
    );
    let snowflake = &map.iter().find(|(t, _)| *t == "snowflake").expect("entry").1;
    assert!(snowflake.is_empty());
    assert_eq!(map.len(), transports().len());
}

#[test]
fn all_raw_bridges_skips_non_dicts_and_empty() {
    let all = all_raw_bridges(&history_fixture());
    assert_eq!(all.len(), 4);
    assert!(all.contains(&"webtunnel 9.9.9.9:443 url=x".to_string()));
    assert!(all.contains(&"ignored".to_string()));
}

#[test]
fn required_names_are_sorted_and_unique() {
    let names = required_protocol_txt_names();
    let mut sorted = names.clone();
    sorted.sort();
    sorted.dedup();
    assert_eq!(names, sorted);
}

#[test]
fn bridge_dir_defaults_to_bridge() {
    assert_eq!(bridge_dir_from_args(&vec!["prog".to_string()]), "bridge");
    assert_eq!(bridge_dir_from_args(&vec!["prog".to_string(), "/tmp/b".to_string()]), "/tmp/b");
}

#[test]
fn fallback_transports_follow_the_file_name() {
    assert_eq!(fallback_transports_for_name("iran_likely_working_all.txt"), transports());
    assert_eq!(fallback_transports_for_name("iran_likely_working_nin.txt"), vec!["snowflake", "webtunnel"]);
    assert_eq!(fallback_transports_for_name("obfs4_ipv6.txt"), vec!["obfs4"]);
    assert_eq!(fallback_transports_for_name("meek-azure.txt"), vec!["meek-azure"]);
    assert!(fallback_transports_for_name("notes.txt").is_empty());
}

#[test]
fn populated_files_are_text_files_other_than_the_blocked_list() {
    assert!(is_populated_txt("obfs4.txt"));
    assert!(is_populated_txt("iran_likely_working_all.txt"));
    assert!(!is_populated_txt("iran_blocked.txt"));
    assert!(!is_populated_txt("obfs4.json"));
}
