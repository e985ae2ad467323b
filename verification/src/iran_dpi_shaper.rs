//! Offline scoring of how well a bridge line would evade SIAM/NGFW
//! filtering: the transport, port and iat-mode read from the line, the
//! eight per-layer scores (in thousandths), the evasion flags, and the
//! human-readable recommendation for a bypass tier.
//!
//! The weighted aggregate of the layer scores is a floating-point sum and
//! is left to the caller.
use vstd::prelude::*;
use crate::text::{has_sub, lowercase_of, to_lowercase, to_chars, contains_str, chars_eq, eq_ignore_ascii_case,
    eq_ignore_ascii_case_str};
use crate::patterns::{regex_captures, regex_captures_result, regex_is_match, regex_matches};
use crate::netaddr::{u16_spec, i64_spec, parse_u16, parse_i64};

verus! {

// ───────────────────────────── bypass tiers ─────────────────────────────

/// How well a bridge evades filtering, best first.
#[derive(Debug, Clone, Copy, PartialEq, Eq, Structural)]
pub enum BypassTier {
    Phantom,
    Stealth,
    Covert,
    Exposed,
    Detected,
}

impl BypassTier {
    pub open spec fn name(self) -> Seq<char> {
        match self {
            BypassTier::Phantom => "PHANTOM"@,
            BypassTier::Stealth => "STEALTH"@,
            BypassTier::Covert => "COVERT"@,
            BypassTier::Exposed => "EXPOSED"@,
            BypassTier::Detected => "DETECTED"@,
        }
    }

    /// The tier's upper-case name.
    pub fn as_str(self) -> (s: &'static str)
        ensures
            s@ == self.name(),
    {
        match self {
            BypassTier::Phantom => "PHANTOM",
            BypassTier::Stealth => "STEALTH",
            BypassTier::Covert => "COVERT",
            BypassTier::Exposed => "EXPOSED",
            BypassTier::Detected => "DETECTED",
        }
    }
}

// ───────────────────────────── tables ─────────────────────────────

/// Per-transport evasion scores in thousandths (kept as reference data;
/// the layer functions carry their own values).
pub fn transport_siam_scores() -> (t: Vec<(&'static str, u16)>)
    ensures
        t@ == seq![("snowflake", 970u16), ("webtunnel", 930u16), ("meek_lite", 850u16), ("obfs4", 700u16),
            ("vanilla", 30u16), ("unknown", 200u16)],
{
    let t = vec![("snowflake", 970u16), ("webtunnel", 930u16), ("meek_lite", 850u16), ("obfs4", 700u16),
        ("vanilla", 30u16), ("unknown", 200u16)];
    assert(t@ =~= seq![("snowflake", 970u16), ("webtunnel", 930u16), ("meek_lite", 850u16), ("obfs4", 700u16),
        ("vanilla", 30u16), ("unknown", 200u16)]);
    t
}

/// JA3 hashes seen blocked by SIAM (Censored Planet and ICLab campaigns).
pub open spec fn blocked_ja3_spec() -> Seq<&'static str> {
    seq![
        "e7d705a3286e19ea42f587b344ee6865",
        "6734f37431670b3ab4292b8f60f29984",
        "51523dc8c3d26b21defdcbe4ab87c9e0",
        "bd0bf25947d4a37404f0424edf4db9ad",
        "a0e9f5d64349fb13191bc781f81f42e1",
        "7dcce5b76c8b17472d024758970a406b",
    ]
}

/// JA3 hashes seen blocked by SIAM.
pub fn iran_siam_blocked_ja3() -> (t: Vec<&'static str>)
    ensures
        t@ == blocked_ja3_spec(),
{
    let t = vec![
        "e7d705a3286e19ea42f587b344ee6865",
        "6734f37431670b3ab4292b8f60f29984",
        "51523dc8c3d26b21defdcbe4ab87c9e0",
        "bd0bf25947d4a37404f0424edf4db9ad",
        "a0e9f5d64349fb13191bc781f81f42e1",
        "7dcce5b76c8b17472d024758970a406b",
    ];
    assert(t@ =~= blocked_ja3_spec());
    t
}

/// Ports SIAM lets through.
pub const SIAM_SAFE_PORTS: [u16; 12] = [443, 80, 8080, 8443, 2053, 2083, 2087, 2096, 993, 995, 465, 1194];

/// Ports the NGFW blocks (the Tor defaults).
pub const NGFW_BLOCKED_PORTS: [u16; 6] = [9001, 9030, 9050, 9051, 9150, 9151];

/// CDN name patterns (case-insensitive) that SIAM cannot block without
/// collateral damage.
pub open spec fn cdn_patterns_spec() -> Seq<&'static str> {
    seq![
        "(?i)fastly\\.net",
        "(?i)arvancloud\\.(com|ir)",
        "(?i)b-cdn\\.net",
        "(?i)cloudfront\\.net",
        "(?i)azureedge\\.net",
        "(?i)ajax\\.aspnetcdn\\.com",
        "(?i)googlevideo\\.com",
        "(?i)gstatic\\.com",
        "(?i)cloudflare\\.com",
        "(?i)\\.msecnd\\.net",
        "(?i)global\\.ssl\\.fastly\\.net",
    ]
}

/// CDN name patterns (case-insensitive).
pub fn cdn_siam_bypass_patterns() -> (t: Vec<&'static str>)
    ensures
        t@ == cdn_patterns_spec(),
{
    let t = vec![
        "(?i)fastly\\.net",
        "(?i)arvancloud\\.(com|ir)",
        "(?i)b-cdn\\.net",
        "(?i)cloudfront\\.net",
        "(?i)azureedge\\.net",
        "(?i)ajax\\.aspnetcdn\\.com",
        "(?i)googlevideo\\.com",
        "(?i)gstatic\\.com",
        "(?i)cloudflare\\.com",
        "(?i)\\.msecnd\\.net",
        "(?i)global\\.ssl\\.fastly\\.net",
    ];
    assert(t@ =~= cdn_patterns_spec());
    t
}

/// Some CDN pattern matches the line.
pub open spec fn cdn_match_spec(line: Seq<char>) -> bool {
    exists|i: int| 0 <= i < cdn_patterns_spec().len() && regex_matches(#[trigger] cdn_patterns_spec()[i]@, line)
}

/// Whether the line names one of the bypass CDNs.
pub fn matches_cdn(line: &str) -> (b: bool)
    ensures
        b == cdn_match_spec(line@),
{
    let pats = cdn_siam_bypass_patterns();
    let mut i: usize = 0;
    while i < pats.len()
        invariant
            i <= pats.len(),
            pats@ == cdn_patterns_spec(),
            forall|j: int| 0 <= j < i ==> !regex_matches(#[trigger] cdn_patterns_spec()[j]@, line@),
        decreases pats.len() - i,
    {
        match regex_is_match(pats[i], line) {
            Some(true) => {
                return true;
            },
            _ => {},
        }
        i += 1;
    }
    false
}

// ───────────────────────────── extractors ─────────────────────────────

/// The transport a line names, judged on its lower-cased text: snowflake,
/// then webtunnel (or an `url=https` parameter), then obfs4, then meek;
/// vanilla otherwise.
pub open spec fn transport_of(line: Seq<char>) -> Seq<char> {
    let l = lowercase_of(line);
    if has_sub(l, "snowflake"@) {
        "snowflake"@
    } else if has_sub(l, "webtunnel"@) || has_sub(l, "url=https"@) {
        "webtunnel"@
    } else if has_sub(l, "obfs4"@) {
        "obfs4"@
    } else if has_sub(l, "meek"@) {
        "meek_lite"@
    } else {
        "vanilla"@
    }
}

/// Transport detection by marker, on the lower-cased line: a line that
/// mentions `snowflake` is a Snowflake line whatever else it carries (a
/// broker `url=https` parameter included); failing that, `webtunnel` or an
/// `url=https` parameter marks WebTunnel; then `obfs4`; then `meek`; a
/// line with none of these is vanilla.
pub proof fn law_transport_markers_in_priority(line: Seq<char>)
    ensures
        has_sub(lowercase_of(line), "snowflake"@) ==> transport_of(line) == "snowflake"@,
        !has_sub(lowercase_of(line), "snowflake"@) && (has_sub(lowercase_of(line), "webtunnel"@) || has_sub(
            lowercase_of(line),
            "url=https"@,
        )) ==> transport_of(line) == "webtunnel"@,
        !has_sub(lowercase_of(line), "snowflake"@) && !has_sub(lowercase_of(line), "webtunnel"@) && !has_sub(
            lowercase_of(line),
            "url=https"@,
        ) && has_sub(lowercase_of(line), "obfs4"@) ==> transport_of(line) == "obfs4"@,
        !has_sub(lowercase_of(line), "snowflake"@) && !has_sub(lowercase_of(line), "webtunnel"@) && !has_sub(
            lowercase_of(line),
            "url=https"@,
        ) && !has_sub(lowercase_of(line), "obfs4"@) && has_sub(lowercase_of(line), "meek"@) ==> transport_of(line)
            == "meek_lite"@,
        !has_sub(lowercase_of(line), "snowflake"@) && !has_sub(lowercase_of(line), "webtunnel"@) && !has_sub(
            lowercase_of(line),
            "url=https"@,
        ) && !has_sub(lowercase_of(line), "obfs4"@) && !has_sub(lowercase_of(line), "meek"@) ==> transport_of(line)
            == "vanilla"@,
{
}

/// The transport a bridge line names.
pub fn detect_transport(line: &str) -> (t: &'static str)
    ensures
        t@ == transport_of(line@),
{
    let lower = to_lowercase(line);
    let l = to_chars(lower.as_str());
    if contains_str(&l, "snowflake") {
        "snowflake"
    } else if contains_str(&l, "webtunnel") || contains_str(&l, "url=https") {
        "webtunnel"
    } else if contains_str(&l, "obfs4") {
        "obfs4"
    } else if contains_str(&l, "meek") {
        "meek_lite"
    } else {
        "vanilla"
    }
}

pub open spec fn https_url_pattern() -> Seq<char> {
    "(?i)https?://([^/:\\s]+)(?::(\\d+))?"@
}

pub open spec fn ip4_port_pattern() -> Seq<char> {
    "(\\d{1,3}(?:\\.\\d{1,3}){3}):(\\d{2,5})"@
}

pub open spec fn iat_mode_pattern() -> Seq<char> {
    "iat-mode=(\\d+)"@
}

/// Group `i` of a capture, `None` when the group does not exist or did
/// not take part.
pub open spec fn group(groups: Seq<Option<Seq<char>>>, i: int) -> Option<Seq<char>> {
    if 0 <= i < groups.len() {
        groups[i]
    } else {
        None
    }
}

/// The port parsed from a captured group, if it parses as a `u16`.
pub open spec fn port_of_group(g: Option<Seq<char>>) -> Option<u16> {
    match g {
        Some(t) => match u16_spec(t) {
            Some(v) => Some(v as u16),
            None => None,
        },
        None => None,
    }
}

/// The port a line names: that of its first `http(s)://` URL (443 when the
/// URL has none), else that of its first `ipv4:port`.
pub open spec fn port_spec(line: Seq<char>) -> Option<u16> {
    match regex_captures_result(https_url_pattern(), line) {
        Some(groups) => match group(groups, 2) {
            Some(t) => port_of_group(Some(t)),
            None => Some(443u16),
        },
        None => match regex_captures_result(ip4_port_pattern(), line) {
            Some(groups) => port_of_group(group(groups, 2)),
            None => None,
        },
    }
}

fn group_of(groups: &Vec<Option<String>>, i: usize) -> (r: Option<Vec<char>>)
    ensures
        match r {
            Some(v) => group(
                groups@.map_values(|g: Option<String>| match g {
                    Some(s) => Some(s@),
                    None => None,
                }),
                i as int,
            ) == Some(v@),
            None => group(
                groups@.map_values(|g: Option<String>| match g {
                    Some(s) => Some(s@),
                    None => None,
                }),
                i as int,
            ) is None,
        },
{
    if i < groups.len() {
        match &groups[i] {
            Some(s) => Some(to_chars(s.as_str())),
            None => None,
        }
    } else {
        None
    }
}

/// The port a bridge line names.
pub fn get_port(line: &str) -> (p: Option<u16>)
    ensures
        p == port_spec(line@),
{
    match regex_captures("(?i)https?://([^/:\\s]+)(?::(\\d+))?", line) {
        Some(groups) => {
            return match group_of(&groups, 2) {
                Some(t) => parse_u16(&t),
                None => Some(443),
            };
        },
        None => {},
    }
    match regex_captures("(\\d{1,3}(?:\\.\\d{1,3}){3}):(\\d{2,5})", line) {
        Some(groups) => match group_of(&groups, 2) {
            Some(t) => parse_u16(&t),
            None => None,
        },
        None => None,
    }
}

/// The obfs4 `iat-mode=N` value of a line; 0 when absent or out of range.
pub open spec fn iat_mode_spec(line: Seq<char>) -> i64 {
    match regex_captures_result(iat_mode_pattern(), line) {
        Some(groups) => match group(groups, 1) {
            Some(t) => match i64_spec(t) {
                Some(v) => v as i64,
                None => 0,
            },
            None => 0,
        },
        None => 0,
    }
}

/// The obfs4 iat-mode of a bridge line.
pub fn get_iat_mode(line: &str) -> (m: i64)
    ensures
        m == iat_mode_spec(line@),
{
    match regex_captures("iat-mode=(\\d+)", line) {
        Some(groups) => match group_of(&groups, 1) {
            Some(t) => match parse_i64(&t) {
                Some(v) => v,
                None => 0,
            },
            None => 0,
        },
        None => 0,
    }
}

// ───────────────────────────── layers ─────────────────────────────

/// The JA3 hash is on the blocklist (ASCII case ignored).
pub open spec fn ja3_blocked(hash: Seq<char>) -> bool {
    exists|i: int| 0 <= i < 6 && eq_ignore_ascii_case(#[trigger] blocked_ja3_spec()[i]@, hash)
}

/// Layer scores in thousandths, per layer (L1 packet length … L8 AS graph).
pub open spec fn packet_length_score(transport: Seq<char>, iat: i64) -> u16 {
    if transport == "snowflake"@ || transport == "webtunnel"@ {
        1000
    } else if transport == "meek_lite"@ {
        900
    } else if transport == "obfs4"@ {
        if iat >= 1 { 850 } else { 750 }
    } else {
        20
    }
}

pub open spec fn iat_timing_score(transport: Seq<char>, iat: i64) -> u16 {
    if transport == "snowflake"@ {
        980
    } else if transport == "webtunnel"@ {
        950
    } else if transport == "meek_lite"@ {
        880
    } else if transport == "obfs4"@ {
        if iat == 1 { 780 } else if iat == 2 { 920 } else { 550 }
    } else {
        50
    }
}

pub open spec fn flow_score(transport: Seq<char>, iat: i64) -> u16 {
    if transport == "snowflake"@ || transport == "webtunnel"@ {
        960
    } else if transport == "meek_lite"@ {
        820
    } else if transport == "obfs4"@ {
        if iat >= 1 { 800 } else { 680 }
    } else {
        40
    }
}

pub open spec fn ja3_score(ja3: Option<Seq<char>>) -> u16 {
    match ja3 {
        None => 750,
        Some(h) => if ja3_blocked(h) { 20 } else { 900 },
    }
}

pub open spec fn cert_sni_score(transport: Seq<char>, cdn: bool) -> u16 {
    if transport == "webtunnel"@ {
        if cdn { 970 } else { 850 }
    } else if transport == "meek_lite"@ {
        920
    } else if transport == "snowflake"@ {
        980
    } else if transport == "obfs4"@ {
        600
    } else {
        50
    }
}

pub open spec fn alpn_score(transport: Seq<char>, port: Option<u16>) -> u16 {
    if transport == "webtunnel"@ {
        960
    } else if transport == "meek_lite"@ || transport == "snowflake"@ {
        900
    } else if transport == "obfs4"@ {
        if port == Some(443u16) { 450 } else { 650 }
    } else {
        30
    }
}

pub open spec fn temporal_score(transport: Seq<char>, iat: i64) -> u16 {
    if transport == "snowflake"@ || transport == "webtunnel"@ || transport == "meek_lite"@ {
        950
    } else if transport == "obfs4"@ {
        if iat == 2 { 880 } else if iat == 1 { 720 } else { 500 }
    } else {
        20
    }
}

pub open spec fn as_graph_score(cdn: bool) -> u16 {
    if cdn { 950 } else { 550 }
}

pub open spec fn in_ports(ports: Seq<u16>, p: u16) -> bool {
    exists|i: int| 0 <= i < ports.len() && ports[i] == p
}

/// The port's effect: `Some(true)` for an NGFW-blocked port, `Some(false)`
/// for a SIAM-safe one, `None` otherwise.
pub open spec fn port_class(port: Option<u16>) -> Option<bool> {
    match port {
        Some(p) => if in_ports(NGFW_BLOCKED_PORTS@, p) {
            Some(true)
        } else if in_ports(SIAM_SAFE_PORTS@, p) {
            Some(false)
        } else {
            None
        },
        None => None,
    }
}

/// What the layer analysis of a line yields: transport, port, the eight
/// layer scores in thousandths, and the evasion flags in order.
#[derive(Debug, Clone, PartialEq, Eq)]
pub struct SiamLayers {
    pub bridge_line: String,
    pub transport: &'static str,
    pub port: Option<u16>,
    pub layer_scores: Vec<u16>,
    pub evasion_flags: Vec<String>,
}

/// The labels of the eight layers, in order.
pub open spec fn layer_label_texts() -> Seq<Seq<char>> {
    seq![
        "L1_packet_length"@,
        "L2_iat_timing"@,
        "L3_flow_features"@,
        "L4_ja3_tls"@,
        "L5_cert_sni"@,
        "L6_alpn_anomaly"@,
        "L7_temporal"@,
        "L8_as_graph"@,
    ]
}

/// The labels of the eight layers, in order.
pub fn layer_labels() -> (t: Vec<&'static str>)
    ensures
        t@.map_values(|l: &'static str| l@) == layer_label_texts(),
{
    let t = vec![
        "L1_packet_length",
        "L2_iat_timing",
        "L3_flow_features",
        "L4_ja3_tls",
        "L5_cert_sni",
        "L6_alpn_anomaly",
        "L7_temporal",
        "L8_as_graph",
    ];
    assert(t@.map_values(|l: &'static str| l@) =~= layer_label_texts());
    t
}

/// The certificate/SNI score after the port adjustment: -300 (floored at
/// 0) on a blocked port, +50 (capped at 1000) on a safe one.
pub open spec fn adjusted_cert_sni(base: u16, port: Option<u16>) -> u16 {
    match port_class(port) {
        Some(true) => if base >= 300 { (base - 300) as u16 } else { 0 },
        Some(false) => if base + 50 <= 1000 { (base + 50) as u16 } else { 1000 },
        None => base,
    }
}

/// The ALPN score after the port adjustment: -200 (floored at 0) on a
/// blocked port.
pub open spec fn adjusted_alpn(base: u16, port: Option<u16>) -> u16 {
    match port_class(port) {
        Some(true) => if base >= 200 { (base - 200) as u16 } else { 0 },
        _ => base,
    }
}

pub open spec fn ja3_flags(ja3: Option<Seq<char>>) -> Seq<Seq<char>> {
    match ja3 {
        None => seq![],
        Some(h) => if ja3_blocked(h) { seq!["ja3_in_iran_siam_blocklist"@] } else { seq!["ja3_not_in_siam_blocklist"@] },
    }
}

pub open spec fn sni_flags(t: Seq<char>, cdn: bool) -> Seq<Seq<char>> {
    if t == "webtunnel"@ {
        if cdn { seq!["cdn_cert_sni_match"@] } else { seq!["webtunnel_non_cdn_sni"@] }
    } else if t == "meek_lite"@ {
        seq!["meek_cdn_cert"@]
    } else if t == "snowflake"@ {
        seq!["snowflake_dtls_no_tls_cert"@]
    } else if t == "obfs4"@ {
        seq!["obfs4_no_sni"@]
    } else {
        seq![]
    }
}

pub open spec fn asn_flags(cdn: bool) -> Seq<Seq<char>> {
    if cdn { seq!["cdn_asn_bypass_layer8"@] } else { seq![] }
}

pub open spec fn port_flags(port: Option<u16>) -> Seq<Seq<char>> {
    match port_class(port) {
        Some(true) => seq!["ngfw_blocked_port"@],
        Some(false) => seq!["siam_safe_port"@],
        None => seq![],
    }
}

pub open spec fn iat_flags(t: Seq<char>, iat: i64) -> Seq<Seq<char>> {
    if t == "obfs4"@ {
        if iat == 2 {
            seq!["obfs4_iat_mode_2_max_evasion"@]
        } else if iat == 1 {
            seq!["obfs4_iat_mode_1_evasion"@]
        } else {
            seq!["obfs4_iat_mode_0_detectable"@]
        }
    } else {
        seq![]
    }
}

/// The flags of a line, in order: JA3 verdict (when a hash is given),
/// certificate/SNI, CDN AS, port, and for obfs4 the iat-mode verdict.
pub open spec fn flags_spec(line: Seq<char>, ja3: Option<Seq<char>>) -> Seq<Seq<char>> {
    let t = transport_of(line);
    ja3_flags(ja3) + sni_flags(t, cdn_match_spec(line)) + asn_flags(cdn_match_spec(line)) + port_flags(port_spec(line))
        + iat_flags(t, iat_mode_spec(line))
}

/// The eight layer scores of a line, in thousandths.
pub open spec fn scores_spec(line: Seq<char>, ja3: Option<Seq<char>>) -> Seq<u16> {
    let t = transport_of(line);
    let cdn = cdn_match_spec(line);
    let iat = iat_mode_spec(line);
    let port = port_spec(line);
    seq![
        packet_length_score(t, iat),
        iat_timing_score(t, iat),
        flow_score(t, iat),
        ja3_score(ja3),
        adjusted_cert_sni(cert_sni_score(t, cdn), port),
        adjusted_alpn(alpn_score(t, port), port),
        temporal_score(t, iat),
        as_graph_score(cdn),
    ]
}

fn in_port_list(ports: &[u16], p: u16) -> (b: bool)
    ensures
        b == in_ports(ports@, p),
{
    let mut i: usize = 0;
    while i < ports.len()
        invariant
            i <= ports.len(),
            forall|j: int| 0 <= j < i ==> ports@[j] != p,
        decreases ports.len() - i,
    {
        if ports[i] == p {
            return true;
        }
        i += 1;
    }
    false
}

fn is_blocked_ja3(hash: &str) -> (b: bool)
    ensures
        b == ja3_blocked(hash@),
{
    let table = iran_siam_blocked_ja3();
    let mut i: usize = 0;
    while i < table.len()
        invariant
            i <= table.len(),
            table@ == blocked_ja3_spec(),
            forall|j: int| 0 <= j < i ==> !eq_ignore_ascii_case(#[trigger] blocked_ja3_spec()[j]@, hash@),
        decreases table.len() - i,
    {
        if eq_ignore_ascii_case_str(table[i], hash) {
            return true;
        }
        i += 1;
    }
    false
}

fn str_is(a: &'static str, b: &str) -> (r: bool)
    ensures
        r == (a@ == b@),
{
    let av = to_chars(a);
    let bv = to_chars(b);
    chars_eq(&av, &bv)
}

fn packet_length_exec(t: &str, iat: i64) -> (r: u16)
    ensures
        r == packet_length_score(t@, iat),
{
    if str_is("snowflake", t) || str_is("webtunnel", t) {
        1000
    } else if str_is("meek_lite", t) {
        900
    } else if str_is("obfs4", t) {
        if iat >= 1 { 850 } else { 750 }
    } else {
        20
    }
}

fn iat_timing_exec(t: &str, iat: i64) -> (r: u16)
    ensures
        r == iat_timing_score(t@, iat),
{
    if str_is("snowflake", t) {
        980
    } else if str_is("webtunnel", t) {
        950
    } else if str_is("meek_lite", t) {
        880
    } else if str_is("obfs4", t) {
        if iat == 1 { 780 } else if iat == 2 { 920 } else { 550 }
    } else {
        50
    }
}

fn flow_exec(t: &str, iat: i64) -> (r: u16)
    ensures
        r == flow_score(t@, iat),
{
    if str_is("snowflake", t) || str_is("webtunnel", t) {
        960
    } else if str_is("meek_lite", t) {
        820
    } else if str_is("obfs4", t) {
        if iat >= 1 { 800 } else { 680 }
    } else {
        40
    }
}

fn cert_sni_exec(t: &str, cdn: bool) -> (r: u16)
    ensures
        r == cert_sni_score(t@, cdn),
{
    if str_is("webtunnel", t) {
        if cdn { 970 } else { 850 }
    } else if str_is("meek_lite", t) {
        920
    } else if str_is("snowflake", t) {
        980
    } else if str_is("obfs4", t) {
        600
    } else {
        50
    }
}

fn alpn_exec(t: &str, port: Option<u16>) -> (r: u16)
    ensures
        r == alpn_score(t@, port),
{
    if str_is("webtunnel", t) {
        960
    } else if str_is("meek_lite", t) || str_is("snowflake", t) {
        900
    } else if str_is("obfs4", t) {
        if port == Some(443u16) { 450 } else { 650 }
    } else {
        30
    }
}

fn temporal_exec(t: &str, iat: i64) -> (r: u16)
    ensures
        r == temporal_score(t@, iat),
{
    if str_is("snowflake", t) || str_is("webtunnel", t) || str_is("meek_lite", t) {
        950
    } else if str_is("obfs4", t) {
        if iat == 2 { 880 } else if iat == 1 { 720 } else { 500 }
    } else {
        20
    }
}

fn port_class_exec(port: Option<u16>) -> (r: Option<bool>)
    ensures
        r == port_class(port),
{
    match port {
        Some(p) => {
            if in_port_list(&NGFW_BLOCKED_PORTS, p) {
                Some(true)
            } else if in_port_list(&SIAM_SAFE_PORTS, p) {
                Some(false)
            } else {
                None
            }
        },
        None => None,
    }
}

fn push_flag(flags: &mut Vec<String>, f: &str)
    ensures
        final(flags)@.map_values(|x: String| x@) == old(flags)@.map_values(|x: String| x@).push(f@),
{
    flags.push(String::from_str(f));
    assert(flags@.map_values(|x: String| x@) =~= old(flags)@.map_values(|x: String| x@).push(f@));
}

fn push_ja3_flags(flags: &mut Vec<String>, ja3_hash: Option<&str>)
    ensures
        final(flags)@.map_values(|x: String| x@) == old(flags)@.map_values(|x: String| x@) + ja3_flags(
            match ja3_hash {
                Some(h) => Some(h@),
                None => None,
            },
        ),
{
    match ja3_hash {
        Some(h) => {
            if is_blocked_ja3(h) {
                push_flag(flags, "ja3_in_iran_siam_blocklist");
            } else {
                push_flag(flags, "ja3_not_in_siam_blocklist");
            }
        },
        None => {},
    }
    assert(flags@.map_values(|x: String| x@) =~= old(flags)@.map_values(|x: String| x@) + ja3_flags(
        match ja3_hash {
            Some(h) => Some(h@),
            None => None,
        },
    ));
}

fn push_sni_flags(flags: &mut Vec<String>, t: &str, cdn: bool)
    ensures
        final(flags)@.map_values(|x: String| x@) == old(flags)@.map_values(|x: String| x@) + sni_flags(t@, cdn),
{
    if str_is("webtunnel", t) {
        if cdn {
            push_flag(flags, "cdn_cert_sni_match");
        } else {
            push_flag(flags, "webtunnel_non_cdn_sni");
        }
    } else if str_is("meek_lite", t) {
        push_flag(flags, "meek_cdn_cert");
    } else if str_is("snowflake", t) {
        push_flag(flags, "snowflake_dtls_no_tls_cert");
    } else if str_is("obfs4", t) {
        push_flag(flags, "obfs4_no_sni");
    }
    assert(flags@.map_values(|x: String| x@) =~= old(flags)@.map_values(|x: String| x@) + sni_flags(t@, cdn));
}

fn push_tail_flags(flags: &mut Vec<String>, t: &str, cdn: bool, iat: i64, port: Option<u16>)
    ensures
        final(flags)@.map_values(|x: String| x@) == old(flags)@.map_values(|x: String| x@) + asn_flags(cdn)
            + port_flags(port) + iat_flags(t@, iat),
{
    let ghost f0 = flags@.map_values(|x: String| x@);
    if cdn {
        push_flag(flags, "cdn_asn_bypass_layer8");
    }
    assert(flags@.map_values(|x: String| x@) =~= f0 + asn_flags(cdn));
    let ghost f1 = flags@.map_values(|x: String| x@);
    match port_class_exec(port) {
        Some(true) => push_flag(flags, "ngfw_blocked_port"),
        Some(false) => push_flag(flags, "siam_safe_port"),
        None => {},
    }
    assert(flags@.map_values(|x: String| x@) =~= f1 + port_flags(port));
    let ghost f2 = flags@.map_values(|x: String| x@);
    if str_is("obfs4", t) {
        if iat == 2 {
            push_flag(flags, "obfs4_iat_mode_2_max_evasion");
        } else if iat == 1 {
            push_flag(flags, "obfs4_iat_mode_1_evasion");
        } else {
            push_flag(flags, "obfs4_iat_mode_0_detectable");
        }
    }
    assert(flags@.map_values(|x: String| x@) =~= f2 + iat_flags(t@, iat));
    assert(f0 + asn_flags(cdn) + port_flags(port) + iat_flags(t@, iat) =~= f2 + iat_flags(t@, iat));
}

fn evasion_flags(line: &str, ja3_hash: Option<&str>, t: &str, cdn: bool, iat: i64, port: Option<u16>) -> (f: Vec<
    String,
>)
    requires
        t@ == transport_of(line@),
        cdn == cdn_match_spec(line@),
        iat == iat_mode_spec(line@),
        port == port_spec(line@),
    ensures
        f@.map_values(|x: String| x@) == flags_spec(
            line@,
            match ja3_hash {
                Some(h) => Some(h@),
                None => None,
            },
        ),
{
    let mut flags: Vec<String> = Vec::new();
    assert(flags@.map_values(|x: String| x@) =~= Seq::<Seq<char>>::empty());
    push_ja3_flags(&mut flags, ja3_hash);
    let ghost f1 = flags@.map_values(|x: String| x@);
    push_sni_flags(&mut flags, t, cdn);
    let ghost f2 = flags@.map_values(|x: String| x@);
    push_tail_flags(&mut flags, t, cdn, iat, port);
    let ghost j = match ja3_hash {
        Some(h) => Some(h@),
        None => None::<Seq<char>>,
    };
    assert(Seq::<Seq<char>>::empty() + ja3_flags(j) =~= ja3_flags(j));
    assert(flags@.map_values(|x: String| x@) =~= flags_spec(line@, j));
    flags
}

/// The layer analysis of a (trimmed) bridge line and its optional JA3 hash.
pub fn analyze_layers(line: &str, ja3_hash: Option<&str>) -> (a: SiamLayers)
    ensures
        a.bridge_line@ == line@,
        a.transport@ == transport_of(line@),
        a.port == port_spec(line@),
        a.layer_scores@ == scores_spec(
            line@,
            match ja3_hash {
                Some(h) => Some(h@),
                None => None,
            },
        ),
        a.evasion_flags@.map_values(|f: String| f@) == flags_spec(
            line@,
            match ja3_hash {
                Some(h) => Some(h@),
                None => None,
            },
        ),
{
    let transport = detect_transport(line);
    let port = get_port(line);
    let iat = get_iat_mode(line);
    let cdn = matches_cdn(line);
    let l4: u16 = match ja3_hash {
        None => 750,
        Some(h) => if is_blocked_ja3(h) { 20 } else { 900 },
    };
    let l5_base = cert_sni_exec(transport, cdn);
    let l6_base = alpn_exec(transport, port);
    let (l5, l6) = match port_class_exec(port) {
        Some(true) => (
            if l5_base >= 300 { l5_base - 300 } else { 0 },
            if l6_base >= 200 { l6_base - 200 } else { 0 },
        ),
        Some(false) => (if l5_base + 50 <= 1000 { l5_base + 50 } else { 1000 }, l6_base),
        None => (l5_base, l6_base),
    };
    let scores = vec![
        packet_length_exec(transport, iat),
        iat_timing_exec(transport, iat),
        flow_exec(transport, iat),
        l4,
        l5,
        l6,
        temporal_exec(transport, iat),
        if cdn { 950u16 } else { 550u16 },
    ];
    let flags = evasion_flags(line, ja3_hash, transport, cdn, iat, port);
    assert(scores@ =~= scores_spec(
        line@,
        match ja3_hash {
            Some(h) => Some(h@),
            None => None,
        },
    ));
    SiamLayers { bridge_line: String::from_str(line), transport, port, layer_scores: scores, evasion_flags: flags }
}

// ───────────────────────────── recommendation ─────────────────────────────

pub open spec fn has_flag(flags: Seq<String>, f: Seq<char>) -> bool {
    exists|i: int| 0 <= i < flags.len() && #[trigger] flags[i]@ == f
}

/// The advice for a tier (Persian and English); Stealth and Covert refine
/// it by the obfs4 iat-mode and blocked-port flags.
pub open spec fn recommendation_spec(transport: Seq<char>, tier: BypassTier, flags: Seq<String>) -> Seq<char> {
    match tier {
        BypassTier::Phantom => "✅ بهترین انتخاب — کاملاً شبیه ترافیک معمولی | Best choice: fully traffic-disguised"@,
        BypassTier::Stealth => if transport == "obfs4"@ && has_flag(flags, "obfs4_iat_mode_1_evasion"@) {
            "✅ خوب — obfs4 IAT-1 فعال | Good: obfs4 IAT-1 timing randomisation active"@
        } else {
            "✅ خوب — از اکثر لایه‌های SIAM عبور می‌کند | Good: bypasses most SIAM layers"@
        },
        BypassTier::Covert => if has_flag(flags, "ngfw_blocked_port"@) {
            "⚠️ پورت مسدود — سعی کنید از پورت 443 استفاده کنید | Blocked port: try port 443"@
        } else if transport == "obfs4"@ && has_flag(flags, "obfs4_iat_mode_0_detectable"@) {
            "⚠️ obfs4 IAT-0 — پیکربندی iat-mode=2 برای عملکرد بهتر | Add iat-mode=2 for better evasion"@
        } else {
            "⚠️ متوسط — برخی لایه‌های SIAM تشخیص می‌دهند | Moderate: some SIAM layers detect"@
        },
        BypassTier::Exposed => "❌ ضعیف — اکثر لایه‌های SIAM تشخیص می‌دهند | Poor: most SIAM layers detect"@,
        BypassTier::Detected => "🚫 بلاک می‌شود — سیستم SIAM کاملاً تشخیص می‌دهد | Will be blocked by SIAM system"@,
    }
}

fn flag_present(flags: &Vec<String>, f: &str) -> (b: bool)
    ensures
        b == has_flag(flags@, f@),
{
    let fv = to_chars(f);
    let mut i: usize = 0;
    while i < flags.len()
        invariant
            i <= flags.len(),
            fv@ == f@,
            forall|j: int| 0 <= j < i ==> flags@[j]@ != f@,
        decreases flags.len() - i,
    {
        let t = to_chars(flags[i].as_str());
        if chars_eq(&t, &fv) {
            return true;
        }
        i += 1;
    }
    false
}

/// The human-readable advice for a scored bridge. The port is accepted but
/// does not enter the advice.
pub fn build_recommendation(transport: &str, tier: BypassTier, port: Option<u16>, flags: &Vec<String>) -> (s:
    String)
    ensures
        s@ == recommendation_spec(transport@, tier, flags@),
{
    let is_obfs4 = str_is("obfs4", transport);
    match tier {
        BypassTier::Phantom => String::from_str(
            "✅ بهترین انتخاب — کاملاً شبیه ترافیک معمولی | Best choice: fully traffic-disguised",
        ),
        BypassTier::Stealth => {
            if is_obfs4 && flag_present(flags, "obfs4_iat_mode_1_evasion") {
                String::from_str("✅ خوب — obfs4 IAT-1 فعال | Good: obfs4 IAT-1 timing randomisation active")
            } else {
                String::from_str("✅ خوب — از اکثر لایه‌های SIAM عبور می‌کند | Good: bypasses most SIAM layers")
            }
        },
        BypassTier::Covert => {
            if flag_present(flags, "ngfw_blocked_port") {
                String::from_str("⚠️ پورت مسدود — سعی کنید از پورت 443 استفاده کنید | Blocked port: try port 443")
            } else if is_obfs4 && flag_present(flags, "obfs4_iat_mode_0_detectable") {
                String::from_str(
                    "⚠️ obfs4 IAT-0 — پیکربندی iat-mode=2 برای عملکرد بهتر | Add iat-mode=2 for better evasion",
                )
            } else {
                String::from_str("⚠️ متوسط — برخی لایه‌های SIAM تشخیص می‌دهند | Moderate: some SIAM layers detect")
            }
        },
        BypassTier::Exposed => String::from_str(
            "❌ ضعیف — اکثر لایه‌های SIAM تشخیص می‌دهند | Poor: most SIAM layers detect",
        ),
        BypassTier::Detected => String::from_str(
            "🚫 بلاک می‌شود — سیستم SIAM کاملاً تشخیص می‌دهد | Will be blocked by SIAM system",
        ),
    }
}

/// The tier of an overall score given in ten-thousandths (the score
/// rounded to four decimals): PHANTOM from 0.88, STEALTH from 0.72,
/// COVERT from 0.55, EXPOSED from 0.30, else DETECTED.
pub fn tier_for_score(overall_e4: u32) -> (t: BypassTier)
    ensures
        t == (if overall_e4 >= 8800 {
            BypassTier::Phantom
        } else if overall_e4 >= 7200 {
            BypassTier::Stealth
        } else if overall_e4 >= 5500 {
            BypassTier::Covert
        } else if overall_e4 >= 3000 {
            BypassTier::Exposed
        } else {
            BypassTier::Detected
        }),
{
    if overall_e4 >= 8800 {
        BypassTier::Phantom
    } else if overall_e4 >= 7200 {
        BypassTier::Stealth
    } else if overall_e4 >= 5500 {
        BypassTier::Covert
    } else if overall_e4 >= 3000 {
        BypassTier::Exposed
    } else {
        BypassTier::Detected
    }
}

/// The number of layers scoring at least 0.70.
pub fn layers_bypassed(scores: &Vec<u16>) -> (n: u8)
    requires
        scores@.len() <= 255,
    ensures
        n == scores@.filter(|s: u16| s >= 700).len(),
{
    let mut n: u8 = 0;
    let mut i: usize = 0;
    while i < scores.len()
        invariant
            i <= scores.len() <= 255,
            n == scores@.take(i as int).filter(|s: u16| s >= 700).len(),
            n <= i,
        decreases scores.len() - i,
    {
        proof {
            assert(scores@.take(i + 1) =~= scores@.take(i as int).push(scores@[i as int]));
            scores@.take(i as int).lemma_filter_push(scores@[i as int], |s: u16| s >= 700);
            scores@.take(i as int).filter(|s: u16| s >= 700).lemma_filter_len(|s: u16| s >= 700);
        }
        if scores[i] >= 700 {
            n += 1;
        }
        i += 1;
    }
    assert(scores@.take(scores.len() as int) =~= scores@);
    n
}

} // verus!
