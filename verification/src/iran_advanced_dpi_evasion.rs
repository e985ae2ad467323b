//! Evasion-strategy selection against deep packet inspection: browser TLS
//! fingerprint rotation, CDN fronting, TCP fragmentation, padding and
//! traffic morphing, ECH/GREASE, QUIC preference and multi-path routes.
//!
//! Pure decision logic: every function is determined by its arguments.
use vstd::prelude::*;
use crate::text::{decimal, digit_char, join, push_str, push_char, push_decimal, char_from_digit, push_joined_strs,
    push_joined_strings, to_chars, chars_eq};

verus! {

// ───────────────────────────── tables ─────────────────────────────

/// TLS parameters that match a real browser.
#[derive(Debug, Clone, Copy, PartialEq, Eq)]
pub struct BrowserTlsProfile {
    pub name: &'static str,
    pub user_agent: &'static str,
    pub ja3: &'static str,
    pub tls_version: &'static str,
    pub cipher_suites: &'static [&'static str],
    pub signature: &'static str,
}

/// A CDN domain for domain fronting; its reliability in Iran is given in
/// thousandths (`980` stands for `0.98`).
#[derive(Debug, Clone, Copy, PartialEq, Eq)]
pub struct CdnFrontingDomain {
    pub domain: &'static str,
    pub provider: &'static str,
    pub iran_reliability_permille: u16,
    pub note: &'static str,
}

/// A protocol whose traffic shape is mimicked; packet sizes in bytes.
#[derive(Debug, Clone, Copy, PartialEq, Eq)]
pub struct MorphProtocol {
    pub name: &'static str,
    pub padding_min: u16,
    pub padding_max: u16,
    pub packet_size_mean: u32,
    pub packet_size_std: u32,
    pub description: &'static str,
}

/// One route of the multi-path routing table.
#[derive(Debug, Clone, Copy, PartialEq, Eq)]
pub struct MultiPathRoute {
    pub name: &'static str,
    pub transport: &'static str,
    pub port: u16,
    pub cdn: &'static str,
    pub priority: u32,
    pub protocol: &'static str,
}

/// Status of a multi-path route, as monitored elsewhere.
#[derive(Debug, Clone, Copy, PartialEq, Eq, Structural)]
pub enum RouteStatus {
    Active,
    Degraded,
    Blocked,
    Unknown,
}

impl RouteStatus {
    pub open spec fn label(self) -> Seq<char> {
        match self {
            RouteStatus::Active => "active"@,
            RouteStatus::Degraded => "degraded"@,
            RouteStatus::Blocked => "blocked"@,
            RouteStatus::Unknown => "unknown"@,
        }
    }

    /// The status's lower-case name.
    pub fn as_str(&self) -> (s: &'static str)
        ensures
            s@ == self.label(),
    {
        match self {
            RouteStatus::Active => "active",
            RouteStatus::Degraded => "degraded",
            RouteStatus::Blocked => "blocked",
            RouteStatus::Unknown => "unknown",
        }
    }
}

/// TCP fragment sizes in bytes, largest last.
pub const TCP_FRAGMENT_SIZES: [u16; 6] = [64, 128, 256, 512, 1024, 1460];

/// Padding options for traffic morphing, in bytes.
pub const PADDING_OPTIONS: [u16; 7] = [0, 32, 64, 128, 256, 512, 1024];

/// The browser profiles, in rotation order.
pub open spec fn tls_profiles_spec() -> Seq<BrowserTlsProfile> {
    seq![
        BrowserTlsProfile {
            name: "chrome_120",
            user_agent: "Mozilla/5.0 (Windows NT 10.0; Win64; x64) AppleWebKit/537.36 (KHTML, like Gecko) Chrome/120.0.0.0 Safari/537.36",
            ja3: "771,4865-4866-4867-49195-49199-49196-49200-52393-52392-49171-49172-156-157-47-53,0-23-65281-10-11-35-16-5-13-18-51-45-43-27-17513,29-23-24,0",
            tls_version: "TLSv1.3",
            cipher_suites: &["TLS_AES_128_GCM_SHA256", "TLS_AES_256_GCM_SHA384", "TLS_CHACHA20_POLY1305_SHA256"],
            signature: "chrome",
        },
        BrowserTlsProfile {
            name: "firefox_120",
            user_agent: "Mozilla/5.0 (Windows NT 10.0; Win64; x64; rv:120.0) Gecko/20100101 Firefox/120.0",
            ja3: "771,4865-4867-4866-49195-49199-52393-52392-49196-49200-49162-49161-49171-49172-156-157-47-53,0-23-65281-10-11-35-16-5-13-18-51-45-43-27-17513-21,29-23-24-25-256-257,0",
            tls_version: "TLSv1.3",
            cipher_suites: &["TLS_AES_128_GCM_SHA256", "TLS_CHACHA20_POLY1305_SHA256", "TLS_AES_256_GCM_SHA384"],
            signature: "firefox",
        },
        BrowserTlsProfile {
            name: "safari_17",
            user_agent: "Mozilla/5.0 (Macintosh; Intel Mac OS X 14_2) AppleWebKit/605.1.15 (KHTML, like Gecko) Version/17.2 Safari/605.1.15",
            ja3: "771,4865-4866-4867-49195-49199-49196-49200-52393-52392-49171-49172-156-157-47-53,0-23-65281-10-11-16-5-13-18-51-45-43-27-21,29-23-24,0",
            tls_version: "TLSv1.3",
            cipher_suites: &["TLS_AES_128_GCM_SHA256", "TLS_AES_256_GCM_SHA384"],
            signature: "safari",
        },
        BrowserTlsProfile {
            name: "edge_120",
            user_agent: "Mozilla/5.0 (Windows NT 10.0; Win64; x64) AppleWebKit/537.36 (KHTML, like Gecko) Chrome/120.0.0.0 Safari/537.36 Edg/120.0.0.0",
            ja3: "771,4865-4866-4867-49195-49199-49196-49200-52393-52392-49171-49172-156-157-47-53,0-23-65281-10-11-35-16-5-13-18-51-45-43-27-17513-21,29-23-24,0",
            tls_version: "TLSv1.3",
            cipher_suites: &["TLS_AES_128_GCM_SHA256", "TLS_AES_256_GCM_SHA384", "TLS_CHACHA20_POLY1305_SHA256"],
            signature: "chrome",
        },
    ]
}

/// The browser profiles, in rotation order.
pub fn browser_tls_profiles() -> (t: Vec<BrowserTlsProfile>)
    ensures
        t@ == tls_profiles_spec(),
{
    let t = vec![
        BrowserTlsProfile {
            name: "chrome_120",
            user_agent: "Mozilla/5.0 (Windows NT 10.0; Win64; x64) AppleWebKit/537.36 (KHTML, like Gecko) Chrome/120.0.0.0 Safari/537.36",
            ja3: "771,4865-4866-4867-49195-49199-49196-49200-52393-52392-49171-49172-156-157-47-53,0-23-65281-10-11-35-16-5-13-18-51-45-43-27-17513,29-23-24,0",
            tls_version: "TLSv1.3",
            cipher_suites: &["TLS_AES_128_GCM_SHA256", "TLS_AES_256_GCM_SHA384", "TLS_CHACHA20_POLY1305_SHA256"],
            signature: "chrome",
        },
        BrowserTlsProfile {
            name: "firefox_120",
            user_agent: "Mozilla/5.0 (Windows NT 10.0; Win64; x64; rv:120.0) Gecko/20100101 Firefox/120.0",
            ja3: "771,4865-4867-4866-49195-49199-52393-52392-49196-49200-49162-49161-49171-49172-156-157-47-53,0-23-65281-10-11-35-16-5-13-18-51-45-43-27-17513-21,29-23-24-25-256-257,0",
            tls_version: "TLSv1.3",
            cipher_suites: &["TLS_AES_128_GCM_SHA256", "TLS_CHACHA20_POLY1305_SHA256", "TLS_AES_256_GCM_SHA384"],
            signature: "firefox",
        },
        BrowserTlsProfile {
            name: "safari_17",
            user_agent: "Mozilla/5.0 (Macintosh; Intel Mac OS X 14_2) AppleWebKit/605.1.15 (KHTML, like Gecko) Version/17.2 Safari/605.1.15",
            ja3: "771,4865-4866-4867-49195-49199-49196-49200-52393-52392-49171-49172-156-157-47-53,0-23-65281-10-11-16-5-13-18-51-45-43-27-21,29-23-24,0",
            tls_version: "TLSv1.3",
            cipher_suites: &["TLS_AES_128_GCM_SHA256", "TLS_AES_256_GCM_SHA384"],
            signature: "safari",
        },
        BrowserTlsProfile {
            name: "edge_120",
            user_agent: "Mozilla/5.0 (Windows NT 10.0; Win64; x64) AppleWebKit/537.36 (KHTML, like Gecko) Chrome/120.0.0.0 Safari/537.36 Edg/120.0.0.0",
            ja3: "771,4865-4866-4867-49195-49199-49196-49200-52393-52392-49171-49172-156-157-47-53,0-23-65281-10-11-35-16-5-13-18-51-45-43-27-17513-21,29-23-24,0",
            tls_version: "TLSv1.3",
            cipher_suites: &["TLS_AES_128_GCM_SHA256", "TLS_AES_256_GCM_SHA384", "TLS_CHACHA20_POLY1305_SHA256"],
            signature: "chrome",
        },
    ];
    assert(t@ =~= tls_profiles_spec());
    t
}

/// The CDN fronting domains.
pub open spec fn cdn_domains_spec() -> Seq<CdnFrontingDomain> {
    seq![
        CdnFrontingDomain {
            domain: "azure.microsoft.com",
            provider: "Azure",
            iran_reliability_permille: 980,
            note: "Azure CDN (azurefd.net) — hardest for Iran to block without breaking Microsoft services",
        },
        CdnFrontingDomain {
            domain: "cloudflare.com",
            provider: "Cloudflare",
            iran_reliability_permille: 950,
            note: "Cloudflare — widely used by Iranian businesses; blocking would cause massive collateral damage",
        },
        CdnFrontingDomain {
            domain: "fastly.net",
            provider: "Fastly",
            iran_reliability_permille: 850,
            note: "Fastly — used by many news sites; partially accessible",
        },
        CdnFrontingDomain {
            domain: "akamai.net",
            provider: "Akamai",
            iran_reliability_permille: 800,
            note: "Akamai — legacy CDN, still functional in Iran",
        },
        CdnFrontingDomain {
            domain: "arvancloud.ir",
            provider: "Arvan Cloud",
            iran_reliability_permille: 990,
            note: "Arvan Cloud — Iranian CDN provider; not blocked domestically but may be monitored",
        },
        CdnFrontingDomain {
            domain: "gcore.com",
            provider: "G-Core",
            iran_reliability_permille: 750,
            note: "G-Core Labs — EU-based CDN; partially accessible in Iran",
        },
    ]
}

/// The CDN fronting domains.
pub fn cdn_fronting_domains() -> (t: Vec<CdnFrontingDomain>)
    ensures
        t@ == cdn_domains_spec(),
{
    let t = vec![
        CdnFrontingDomain {
            domain: "azure.microsoft.com",
            provider: "Azure",
            iran_reliability_permille: 980,
            note: "Azure CDN (azurefd.net) — hardest for Iran to block without breaking Microsoft services",
        },
        CdnFrontingDomain {
            domain: "cloudflare.com",
            provider: "Cloudflare",
            iran_reliability_permille: 950,
            note: "Cloudflare — widely used by Iranian businesses; blocking would cause massive collateral damage",
        },
        CdnFrontingDomain {
            domain: "fastly.net",
            provider: "Fastly",
            iran_reliability_permille: 850,
            note: "Fastly — used by many news sites; partially accessible",
        },
        CdnFrontingDomain {
            domain: "akamai.net",
            provider: "Akamai",
            iran_reliability_permille: 800,
            note: "Akamai — legacy CDN, still functional in Iran",
        },
        CdnFrontingDomain {
            domain: "arvancloud.ir",
            provider: "Arvan Cloud",
            iran_reliability_permille: 990,
            note: "Arvan Cloud — Iranian CDN provider; not blocked domestically but may be monitored",
        },
        CdnFrontingDomain {
            domain: "gcore.com",
            provider: "G-Core",
            iran_reliability_permille: 750,
            note: "G-Core Labs — EU-based CDN; partially accessible in Iran",
        },
    ];
    assert(t@ =~= cdn_domains_spec());
    t
}

/// The morphing profiles: https, websocket, grpc, videocall.
pub open spec fn morph_protocols_spec() -> Seq<MorphProtocol> {
    seq![
        MorphProtocol {
            name: "https",
            padding_min: 0,
            padding_max: 256,
            packet_size_mean: 1400,
            packet_size_std: 200,
            description: "Standard HTTPS — most common protocol, lowest suspicion",
        },
        MorphProtocol {
            name: "websocket",
            padding_min: 0,
            padding_max: 512,
            packet_size_mean: 400,
            packet_size_std: 150,
            description: "WebSocket — smaller packets, bidirectional pattern",
        },
        MorphProtocol {
            name: "grpc",
            padding_min: 0,
            padding_max: 1024,
            packet_size_mean: 800,
            packet_size_std: 300,
            description: "gRPC/HTTP2 — multiplexed streams, variable packet sizes",
        },
        MorphProtocol {
            name: "videocall",
            padding_min: 64,
            padding_max: 2048,
            packet_size_mean: 600,
            packet_size_std: 400,
            description: "Video call (WebRTC) — highly variable packet sizes and timing",
        },
    ]
}

/// The morphing profiles: https, websocket, grpc, videocall.
pub fn morph_protocols() -> (t: Vec<MorphProtocol>)
    ensures
        t@ == morph_protocols_spec(),
{
    let t = vec![
        MorphProtocol {
            name: "https",
            padding_min: 0,
            padding_max: 256,
            packet_size_mean: 1400,
            packet_size_std: 200,
            description: "Standard HTTPS — most common protocol, lowest suspicion",
        },
        MorphProtocol {
            name: "websocket",
            padding_min: 0,
            padding_max: 512,
            packet_size_mean: 400,
            packet_size_std: 150,
            description: "WebSocket — smaller packets, bidirectional pattern",
        },
        MorphProtocol {
            name: "grpc",
            padding_min: 0,
            padding_max: 1024,
            packet_size_mean: 800,
            packet_size_std: 300,
            description: "gRPC/HTTP2 — multiplexed streams, variable packet sizes",
        },
        MorphProtocol {
            name: "videocall",
            padding_min: 64,
            padding_max: 2048,
            packet_size_mean: 600,
            packet_size_std: 400,
            description: "Video call (WebRTC) — highly variable packet sizes and timing",
        },
    ];
    assert(t@ =~= morph_protocols_spec());
    t
}

/// The multi-path routes, in priority order.
pub open spec fn routes_spec() -> Seq<MultiPathRoute> {
    seq![
        MultiPathRoute { name: "primary_tls", transport: "webtunnel", port: 443, cdn: "Cloudflare", priority: 0, protocol: "https" },
        MultiPathRoute { name: "fallback_quic", transport: "hysteria2", port: 443, cdn: "Azure", priority: 1, protocol: "quic" },
        MultiPathRoute { name: "fallback_websocket", transport: "snowflake", port: 443, cdn: "Fastly", priority: 2, protocol: "websocket" },
        MultiPathRoute { name: "fallback_obfs4", transport: "obfs4", port: 8443, cdn: "none", priority: 3, protocol: "obfs4" },
        MultiPathRoute { name: "fallback_meek", transport: "meek_lite", port: 443, cdn: "Azure", priority: 4, protocol: "https" },
    ]
}

/// The multi-path routes, in priority order.
pub fn multi_path_routes() -> (t: Vec<MultiPathRoute>)
    ensures
        t@ == routes_spec(),
{
    let t = vec![
        MultiPathRoute { name: "primary_tls", transport: "webtunnel", port: 443, cdn: "Cloudflare", priority: 0, protocol: "https" },
        MultiPathRoute { name: "fallback_quic", transport: "hysteria2", port: 443, cdn: "Azure", priority: 1, protocol: "quic" },
        MultiPathRoute { name: "fallback_websocket", transport: "snowflake", port: 443, cdn: "Fastly", priority: 2, protocol: "websocket" },
        MultiPathRoute { name: "fallback_obfs4", transport: "obfs4", port: 8443, cdn: "none", priority: 3, protocol: "obfs4" },
        MultiPathRoute { name: "fallback_meek", transport: "meek_lite", port: 443, cdn: "Azure", priority: 4, protocol: "https" },
    ];
    assert(t@ =~= routes_spec());
    t
}

// ───────────────────────────── sets of texts ─────────────────────────────

/// Whether `s` is one of the texts in `set`.
pub open spec fn text_in(set: Seq<String>, s: Seq<char>) -> bool {
    exists|i: int| 0 <= i < set.len() && #[trigger] set[i]@ == s
}

fn contains_text(set: &Vec<String>, s: &str) -> (b: bool)
    ensures
        b == text_in(set@, s@),
{
    let sv = to_chars(s);
    let mut i: usize = 0;
    while i < set.len()
        invariant
            i <= set.len(),
            sv@ == s@,
            forall|j: int| 0 <= j < i ==> set@[j]@ != s@,
        decreases set.len() - i,
    {
        let t = to_chars(set[i].as_str());
        if chars_eq(&t, &sv) {
            return true;
        }
        i += 1;
    }
    false
}

// ───────────────────────────── TLS profile ─────────────────────────────

/// Whether the profile's JA3 is not among those seen.
pub open spec fn ja3_unseen(p: BrowserTlsProfile, seen: Seq<String>) -> bool {
    !text_in(seen, p.ja3@)
}

/// The first index at or after `k` whose JA3 is unseen, or the length.
pub open spec fn first_unseen(profiles: Seq<BrowserTlsProfile>, seen: Seq<String>, k: int) -> int
    decreases profiles.len() - k,
{
    if k < 0 || k >= profiles.len() {
        profiles.len() as int
    } else if ja3_unseen(profiles[k], seen) {
        k
    } else {
        first_unseen(profiles, seen, k + 1)
    }
}

/// The profile index chosen for `hour`: the hour's own profile
/// (`hour % len`) when its JA3 is unseen, else the first unseen one, else
/// the hour's own profile anyway.
pub open spec fn tls_choice(profiles: Seq<BrowserTlsProfile>, hour: u32, seen: Seq<String>) -> int {
    let idx = hour as int % profiles.len() as int;
    if ja3_unseen(profiles[idx], seen) {
        idx
    } else if first_unseen(profiles, seen, 0) < profiles.len() {
        first_unseen(profiles, seen, 0)
    } else {
        idx
    }
}

/// The profile for `hour`, avoiding JA3 fingerprints seen recently;
/// `None` only for an empty profile list.
pub fn select_tls_profile<'a>(
    profiles: &'a [BrowserTlsProfile],
    hour: u32,
    previous_ja3_seen: &Vec<String>,
) -> (r: Option<&'a BrowserTlsProfile>)
    ensures
        match r {
            Some(p) => profiles@.len() > 0 && *p == profiles@[tls_choice(profiles@, hour, previous_ja3_seen@)],
            None => profiles@.len() == 0,
        },
{
    if profiles.len() == 0 {
        return None;
    }
    let idx = (hour as usize) % profiles.len();
    assert(idx as int == hour as int % profiles@.len() as int);
    let preferred = &profiles[idx];
    if !contains_text(previous_ja3_seen, preferred.ja3) {
        return Some(preferred);
    }
    let mut i: usize = 0;
    while i < profiles.len()
        invariant
            i <= profiles@.len(),
            0 <= idx < profiles@.len(),
            idx as int == hour as int % profiles@.len() as int,
            *preferred == profiles@[idx as int],
            !ja3_unseen(profiles@[idx as int], previous_ja3_seen@),
            first_unseen(profiles@, previous_ja3_seen@, 0) == first_unseen(profiles@, previous_ja3_seen@, i as int),
        decreases profiles.len() - i,
    {
        if !contains_text(previous_ja3_seen, profiles[i].ja3) {
            return Some(&profiles[i]);
        }
        i += 1;
    }
    Some(preferred)
}

proof fn lemma_first_unseen(profiles: Seq<BrowserTlsProfile>, seen: Seq<String>, k: int)
    requires
        0 <= k <= profiles.len(),
    ensures
        k <= first_unseen(profiles, seen, k) <= profiles.len(),
        first_unseen(profiles, seen, k) < profiles.len() ==> !text_in(
            seen,
            profiles[first_unseen(profiles, seen, k)].ja3@,
        ),
        forall|j: int| k <= j < first_unseen(profiles, seen, k) ==> text_in(seen, #[trigger] profiles[j].ja3@),
    decreases profiles.len() - k,
{
    if k < profiles.len() && !ja3_unseen(profiles[k], seen) {
        lemma_first_unseen(profiles, seen, k + 1);
    }
}

/// The profile chosen for an hour: the hour's own profile (`hour` modulo
/// the number of profiles) when its JA3 has not been seen; otherwise the
/// earliest profile whose JA3 has not been seen; the hour's own profile
/// again only when every JA3 has been seen. In particular a seen JA3 is
/// chosen only when no profile's JA3 is unseen.
pub proof fn law_tls_choice_avoids_seen_fingerprints(profiles: Seq<BrowserTlsProfile>, hour: u32, seen: Seq<String>)
    requires
        profiles.len() > 0,
    ensures
        0 <= tls_choice(profiles, hour, seen) < profiles.len(),
        !text_in(seen, profiles[hour as int % profiles.len() as int].ja3@) ==> tls_choice(profiles, hour, seen)
            == hour as int % profiles.len() as int,
        (exists|j: int| 0 <= j < profiles.len() && !text_in(seen, #[trigger] profiles[j].ja3@)) ==> !text_in(
            seen,
            profiles[tls_choice(profiles, hour, seen)].ja3@,
        ),
        text_in(seen, profiles[hour as int % profiles.len() as int].ja3@) ==> forall|j: int|
            0 <= j < tls_choice(profiles, hour, seen) ==> text_in(seen, #[trigger] profiles[j].ja3@),
        (forall|j: int| 0 <= j < profiles.len() ==> text_in(seen, #[trigger] profiles[j].ja3@)) ==> tls_choice(
            profiles,
            hour,
            seen,
        ) == hour as int % profiles.len() as int,
{
    lemma_first_unseen(profiles, seen, 0);
    let f = first_unseen(profiles, seen, 0);
    if exists|j: int| 0 <= j < profiles.len() && !text_in(seen, #[trigger] profiles[j].ja3@) {
        let j = choose|j: int| 0 <= j < profiles.len() && !text_in(seen, #[trigger] profiles[j].ja3@);
        if f == profiles.len() {
            assert(text_in(seen, profiles[j].ja3@));
        }
    }
    if forall|j: int| 0 <= j < profiles.len() ==> text_in(seen, #[trigger] profiles[j].ja3@) {
        if f < profiles.len() {
            assert(text_in(seen, profiles[f].ja3@));
        }
    }
}

// ───────────────────────────── CDN fronting ─────────────────────────────

/// Whether a CDN domain is reliable enough and not blocked.
pub open spec fn cdn_eligible(d: CdnFrontingDomain, blocked: Seq<String>, min_permille: u16) -> bool {
    d.iran_reliability_permille >= min_permille && !text_in(blocked, d.domain@)
}

/// Index `i` is the pick among the first `k` domains: eligible, no
/// eligible domain more reliable, and none after it as reliable.
pub open spec fn cdn_best_among(
    table: Seq<CdnFrontingDomain>,
    blocked: Seq<String>,
    min_permille: u16,
    i: int,
    k: int,
) -> bool {
    &&& 0 <= i < k <= table.len()
    &&& cdn_eligible(table[i], blocked, min_permille)
    &&& forall|j: int|
        0 <= j < k && cdn_eligible(#[trigger] table[j], blocked, min_permille)
            ==> table[j].iran_reliability_permille <= table[i].iran_reliability_permille
    &&& forall|j: int|
        i < j < k && cdn_eligible(#[trigger] table[j], blocked, min_permille)
            ==> table[j].iran_reliability_permille < table[i].iran_reliability_permille
}

/// The domain picked from the fronting table: the one index that is best
/// among all of them, if any domain is eligible.
pub open spec fn cdn_pick(blocked: Seq<String>, min_permille: u16) -> Option<CdnFrontingDomain> {
    if exists|i: int| cdn_best_among(cdn_domains_spec(), blocked, min_permille, i, 6) {
        Some(cdn_domains_spec()[choose|i: int| cdn_best_among(cdn_domains_spec(), blocked, min_permille, i, 6)])
    } else {
        None
    }
}

proof fn lemma_cdn_best_unique(blocked: Seq<String>, min_permille: u16, i: int, j: int)
    requires
        cdn_best_among(cdn_domains_spec(), blocked, min_permille, i, 6),
        cdn_best_among(cdn_domains_spec(), blocked, min_permille, j, 6),
    ensures
        i == j,
{
    let t = cdn_domains_spec();
    if i < j {
        assert(t[j].iran_reliability_permille < t[i].iran_reliability_permille);
        assert(t[i].iran_reliability_permille <= t[j].iran_reliability_permille);
    } else if j < i {
        assert(t[i].iran_reliability_permille < t[j].iran_reliability_permille);
        assert(t[j].iran_reliability_permille <= t[i].iran_reliability_permille);
    }
}

/// The most reliable domain at or above `min_reliability_permille` that is
/// not blocked (the last such one on a tie); `None` when there is none.
pub fn select_cdn_fronting_domain(blocked_domains: &Vec<String>, min_reliability_permille: u16) -> (r:
    Option<CdnFrontingDomain>)
    ensures
        r == cdn_pick(blocked_domains@, min_reliability_permille),
        match r {
            Some(d) => exists|i: int|
                cdn_best_among(cdn_domains_spec(), blocked_domains@, min_reliability_permille, i, 6)
                    && d == #[trigger] cdn_domains_spec()[i],
            None => forall|j: int|
                0 <= j < 6 ==> !cdn_eligible(#[trigger] cdn_domains_spec()[j], blocked_domains@, min_reliability_permille),
        },
{
    let table = cdn_fronting_domains();
    let ghost t = table@;
    let mut best: Option<usize> = None;
    let mut k: usize = 0;
    while k < table.len()
        invariant
            k <= table.len() == 6,
            t == table@,
            t == cdn_domains_spec(),
            match best {
                Some(i) => cdn_best_among(t, blocked_domains@, min_reliability_permille, i as int, k as int),
                None => forall|j: int|
                    0 <= j < k ==> !cdn_eligible(#[trigger] t[j], blocked_domains@, min_reliability_permille),
            },
        decreases table.len() - k,
    {
        let d = table[k];
        let eligible = d.iran_reliability_permille >= min_reliability_permille && !contains_text(
            blocked_domains,
            d.domain,
        );
        if eligible {
            let take = match best {
                Some(i) => d.iran_reliability_permille >= table[i].iran_reliability_permille,
                None => true,
            };
            if take {
                best = Some(k);
            }
        }
        k += 1;
    }
    match best {
        Some(i) => {
            proof {
                let c = choose|c: int| cdn_best_among(cdn_domains_spec(), blocked_domains@, min_reliability_permille, c, 6);
                lemma_cdn_best_unique(blocked_domains@, min_reliability_permille, i as int, c);
            }
            Some(table[i])
        },
        None => {
            assert(!exists|c: int| cdn_best_among(cdn_domains_spec(), blocked_domains@, min_reliability_permille, c, 6));
            None
        },
    }
}

// ───────────────────────────── fragmentation, padding, morphing ─────────────────────────────

/// The TCP fragment size for a censorship level: 1460 bytes up to level 1,
/// 1024 at 2, 512 at 3, 64 above.
pub open spec fn fragmentation_size_spec(censorship_level: u32) -> u16 {
    if censorship_level <= 1 {
        1460
    } else if censorship_level == 2 {
        1024
    } else if censorship_level == 3 {
        512
    } else {
        64
    }
}

/// Smaller fragments at higher censorship levels, to defeat reassembly.
pub fn select_fragmentation_size(censorship_level: u32) -> (size: u16)
    ensures
        size == fragmentation_size_spec(censorship_level),
{
    let n = TCP_FRAGMENT_SIZES.len();
    let idx: usize = if censorship_level <= 1 {
        n - 1
    } else if censorship_level == 2 {
        n - 2
    } else if censorship_level == 3 {
        n - 3
    } else {
        0
    };
    let idx = if idx < n - 1 { idx } else { n - 1 };
    TCP_FRAGMENT_SIZES[idx]
}

/// The extra padding for a censorship level.
pub open spec fn extra_padding(censorship_level: u32) -> u16 {
    if censorship_level == 0 {
        0
    } else if censorship_level == 1 {
        32
    } else if censorship_level == 2 {
        64
    } else if censorship_level == 3 {
        128
    } else {
        256
    }
}

/// The protocol's minimum padding plus the level's extra, capped at the
/// protocol's maximum.
pub open spec fn padding_size_spec(p: MorphProtocol, censorship_level: u32) -> u16 {
    let want = p.padding_min + extra_padding(censorship_level);
    if want <= p.padding_max {
        want as u16
    } else {
        p.padding_max
    }
}

/// Padding in bytes: more at higher censorship levels, never above the
/// protocol's maximum. The seed does not enter the choice.
pub fn select_padding_size(morph_protocol: &MorphProtocol, censorship_level: u32, seed: u64) -> (padding:
    u16)
    requires
        morph_protocol.padding_min + extra_padding(censorship_level) <= u16::MAX,
    ensures
        padding == padding_size_spec(*morph_protocol, censorship_level),
{
    let base_padding = morph_protocol.padding_min;
    let extra: u16 = if censorship_level == 0 {
        0
    } else if censorship_level == 1 {
        32
    } else if censorship_level == 2 {
        64
    } else if censorship_level == 3 {
        128
    } else {
        256
    };
    let want = base_padding + extra;
    let max_allowed = morph_protocol.padding_max;
    if want <= max_allowed {
        want
    } else {
        max_allowed
    }
}

/// Index into [`morph_protocols_spec`]: videocall for snowflake, grpc for
/// webtunnel, websocket from level 3 up, else https.
pub open spec fn morph_choice(transport: Seq<char>, censorship_level: u32) -> int {
    if transport == "snowflake"@ {
        3
    } else if transport == "webtunnel"@ {
        2
    } else if censorship_level >= 3 {
        1
    } else {
        0
    }
}

/// The protocol whose traffic shape a transport should mimic.
pub fn select_morph_protocol(transport: &str, censorship_level: u32) -> (p: MorphProtocol)
    ensures
        p == morph_protocols_spec()[morph_choice(transport@, censorship_level)],
{
    let table = morph_protocols();
    let t = to_chars(transport);
    if eq_text(&t, "snowflake") {
        return table[3];
    }
    if eq_text(&t, "webtunnel") {
        return table[2];
    }
    if censorship_level >= 3 {
        return table[1];
    }
    table[0]
}

fn eq_text(v: &Vec<char>, s: &str) -> (b: bool)
    ensures
        b == (v@ == s@),
{
    let sv = to_chars(s);
    chars_eq(v, &sv)
}

// ───────────────────────────── routes ─────────────────────────────

/// The status last recorded for `name` (a later entry overrides an earlier one).
pub open spec fn status_of(statuses: Seq<(String, RouteStatus)>, name: Seq<char>) -> Option<RouteStatus>
    decreases statuses.len(),
{
    if statuses.len() == 0 {
        None
    } else if statuses.last().0@ == name {
        Some(statuses.last().1)
    } else {
        status_of(statuses.drop_last(), name)
    }
}

/// Whether a route's recorded status is `Blocked`.
pub open spec fn route_blocked(statuses: Seq<(String, RouteStatus)>, name: Seq<char>) -> bool {
    status_of(statuses, name) == Some(RouteStatus::Blocked)
}

/// The routes of `routes` that are not blocked, in order.
pub open spec fn unblocked_routes(routes: Seq<MultiPathRoute>, statuses: Seq<(String, RouteStatus)>) -> Seq<
    MultiPathRoute,
>
    decreases routes.len(),
{
    if routes.len() == 0 {
        Seq::empty()
    } else if route_blocked(statuses, routes.last().name@) {
        unblocked_routes(routes.drop_last(), statuses)
    } else {
        unblocked_routes(routes.drop_last(), statuses).push(routes.last())
    }
}

/// The routes that are not blocked, in priority order (a route with no
/// recorded status counts as usable).
pub fn select_active_routes(route_statuses: &Vec<(String, RouteStatus)>) -> (r: Vec<MultiPathRoute>)
    ensures
        r@ == unblocked_routes(routes_spec(), route_statuses@),
        forall|i: int, j: int| 0 <= i < j < r@.len() ==> r@[i].priority < r@[j].priority,
{
    let table = multi_path_routes();
    let mut r: Vec<MultiPathRoute> = Vec::new();
    let mut k: usize = 0;
    while k < table.len()
        invariant
            k <= table.len(),
            table@ == routes_spec(),
            r@ == unblocked_routes(table@.take(k as int), route_statuses@),
            forall|i: int, j: int| 0 <= i < j < r@.len() ==> r@[i].priority < r@[j].priority,
            forall|i: int| 0 <= i < r@.len() ==> r@[i].priority < k,
        decreases table.len() - k,
    {
        assert(table@.take(k + 1).drop_last() =~= table@.take(k as int));
        let route = table[k];
        assert(route.priority == k);
        let status = status_for(route_statuses, route.name);
        let blocked = match status {
            Some(s) => s == RouteStatus::Blocked,
            None => false,
        };
        if !blocked {
            r.push(route);
        }
        k += 1;
    }
    assert(table@.take(table.len() as int) =~= table@);
    r
}

fn status_for(statuses: &Vec<(String, RouteStatus)>, name: &str) -> (r: Option<RouteStatus>)
    ensures
        r == status_of(statuses@, name@),
{
    let nv = to_chars(name);
    let mut k: usize = statuses.len();
    assert(statuses@.take(k as int) =~= statuses@);
    while k > 0
        invariant
            k <= statuses.len(),
            nv@ == name@,
            status_of(statuses@, name@) == status_of(statuses@.take(k as int), name@),
        decreases k,
    {
        assert(statuses@.take(k as int).drop_last() =~= statuses@.take(k - 1));
        let t = to_chars(statuses[k - 1].0.as_str());
        if chars_eq(&t, &nv) {
            return Some(statuses[k - 1].1);
        }
        k -= 1;
    }
    None
}

// ───────────────────────────── ECH and QUIC ─────────────────────────────

/// `(use_ech, use_grease)`: ECH with GREASE after an ECH block; plain ECH
/// behind a CDN or from level 2 up; otherwise neither.
pub open spec fn ech_usage_spec(censorship_level: u32, has_cdn: bool, ech_previously_blocked: bool) -> (bool, bool) {
    if ech_previously_blocked {
        (true, true)
    } else if has_cdn {
        (true, false)
    } else if censorship_level >= 2 {
        (true, false)
    } else {
        (false, false)
    }
}

/// Whether to use ECH, and GREASE with it, for a connection.
pub fn decide_ech_usage(censorship_level: u32, cdn_domain: Option<&str>, ech_previously_blocked: bool) -> (r: (
    bool,
    bool,
))
    ensures
        r == ech_usage_spec(censorship_level, cdn_domain is Some, ech_previously_blocked),
{
    if ech_previously_blocked {
        return (true, true);
    }
    if cdn_domain.is_some() {
        return (true, false);
    }
    if censorship_level >= 2 {
        return (true, false);
    }
    (false, false)
}

/// Whether QUIC/HTTP3 should be preferred: from level 2 up, unless QUIC
/// was blocked before.
pub fn prefer_quic(censorship_level: u32, quic_previously_blocked: bool) -> (b: bool)
    ensures
        b == (!quic_previously_blocked && censorship_level >= 2),
{
    if quic_previously_blocked {
        return false;
    }
    censorship_level >= 2
}

// ───────────────────────────── the strategy ─────────────────────────────

/// A complete evasion recommendation for one bridge connection.
#[derive(Debug, Clone, PartialEq, Eq)]
pub struct EvasionStrategy {
    pub bridge_line: String,
    pub transport: String,
    pub tls_profile: String,
    pub cdn_fronting_domain: Option<String>,
    pub fragmentation_size: u16,
    pub padding_size: u16,
    pub morph_protocol: String,
    pub use_ech: bool,
    pub use_grease: bool,
    pub quic_preferred: bool,
    pub route_priority: Vec<String>,
    pub explanation: Vec<String>,
}

/// The digits after the point of `r / 1000`, without trailing zeros.
pub open spec fn thousandths(r: nat) -> Seq<char> {
    let d1 = r / 100;
    let d2 = (r / 10) % 10;
    let d3 = r % 10;
    if d3 != 0 {
        seq![digit_char(d1), digit_char(d2), digit_char(d3)]
    } else if d2 != 0 {
        seq![digit_char(d1), digit_char(d2)]
    } else {
        seq![digit_char(d1)]
    }
}

/// How `{}` prints the number `p / 1000` (`980` prints as `0.98`).
pub open spec fn permille_text(p: nat) -> Seq<char> {
    if p % 1000 == 0 {
        decimal(p / 1000)
    } else {
        decimal(p / 1000) + "."@ + thousandths(p % 1000)
    }
}

fn push_permille(s: &mut String, p: u16)
    ensures
        final(s)@ == old(s)@ + permille_text(p as nat),
{
    push_decimal(s, (p / 1000) as u64);
    let r = p % 1000;
    if r != 0 {
        push_str(s, ".");
        let d1 = (r / 100) as u32;
        let d2 = ((r / 10) % 10) as u32;
        let d3 = (r % 10) as u32;
        push_char(s, char_from_digit(d1));
        if d2 != 0 || d3 != 0 {
            push_char(s, char_from_digit(d2));
        }
        if d3 != 0 {
            push_char(s, char_from_digit(d3));
        }
        proof {
            reveal_strlit(".");
            assert(final(s)@ =~= old(s)@ + permille_text(p as nat));
        }
    }
}

pub open spec fn tls_line(p: BrowserTlsProfile) -> Seq<char> {
    "TLS profile: "@ + p.name@ + " (JA3: "@ + p.ja3@ + ", cipher: "@ + join(
        p.cipher_suites@.map_values(|c: &str| c@),
        ", "@,
    ) + ")"@
}

pub open spec fn cdn_line(d: Option<CdnFrontingDomain>) -> Seq<char> {
    match d {
        Some(d) => "CDN fronting: "@ + d.domain@ + " via "@ + d.provider@ + " (reliability: "@ + permille_text(
            d.iran_reliability_permille as nat,
        ) + ")"@,
        None => "No CDN fronting available (all CDNs blocked or below threshold)"@,
    }
}

pub open spec fn fragmentation_line(size: u16, censorship_level: u32) -> Seq<char> {
    "TCP fragmentation: "@ + decimal(size as nat) + " bytes (censorship level: "@ + decimal(
        censorship_level as nat,
    ) + ")"@
}

pub open spec fn morph_line(p: MorphProtocol, padding: u16) -> Seq<char> {
    "Traffic morphing: "@ + p.name@ + " protocol with "@ + decimal(padding as nat) + " byte padding"@
}

pub open spec fn ech_line(use_ech: bool, use_grease: bool) -> Seq<char> {
    if use_ech && use_grease {
        "ECH enabled with GREASE extensions (previous ECH block detected)"@
    } else if use_ech {
        "ECH enabled (SNI encrypted)"@
    } else {
        "ECH not used (low censorship level, no CDN)"@
    }
}

pub open spec fn quic_line(quic_preferred: bool) -> Seq<char> {
    if quic_preferred {
        "QUIC/HTTP3 preferred (harder to DPI than TCP+TLS)"@
    } else {
        "TCP+TLS used (QUIC not suitable or blocked)"@
    }
}

pub open spec fn route_line(names: Seq<Seq<char>>) -> Seq<char> {
    "Route priority: "@ + join(names, " > "@)
}

/// The profile the strategy uses for an hour and a set of seen JA3s.
pub open spec fn strategy_profile(irst_hour: u32, seen: Seq<String>) -> BrowserTlsProfile {
    tls_profiles_spec()[tls_choice(tls_profiles_spec(), irst_hour, seen)]
}

/// The morphing profile the strategy uses.
pub open spec fn strategy_morph(transport: Seq<char>, censorship_level: u32) -> MorphProtocol {
    morph_protocols_spec()[morph_choice(transport, censorship_level)]
}

/// The names of the usable routes, in priority order.
pub open spec fn strategy_routes(statuses: Seq<(String, RouteStatus)>) -> Seq<Seq<char>> {
    unblocked_routes(routes_spec(), statuses).map_values(|r: MultiPathRoute| r.name@)
}

/// Minimum CDN reliability for fronting, in thousandths.
pub const MIN_CDN_RELIABILITY_PERMILLE: u16 = 700;

/// The complete recommendation: the hour's TLS profile (avoiding seen
/// JA3s), the most reliable unblocked CDN of reliability at least 0.7, the
/// level's fragment size, the transport's morphing profile and padding,
/// ECH/GREASE and QUIC choices, the usable routes, and one explanation
/// line per decision. The seed does not enter the choice.
pub fn generate_evasion_strategy(
    bridge_line: &str,
    transport: &str,
    censorship_level: u32,
    irst_hour: u32,
    previous_ja3_seen: &Vec<String>,
    blocked_cdn_domains: &Vec<String>,
    route_statuses: &Vec<(String, RouteStatus)>,
    ech_previously_blocked: bool,
    quic_previously_blocked: bool,
    seed: u64,
) -> (st: EvasionStrategy)
    ensures
        st.bridge_line@ == bridge_line@,
        st.transport@ == transport@,
        st.tls_profile@ == strategy_profile(irst_hour, previous_ja3_seen@).name@,
        match cdn_pick(blocked_cdn_domains@, MIN_CDN_RELIABILITY_PERMILLE) {
            Some(d) => st.cdn_fronting_domain matches Some(x) && x@ == d.domain@,
            None => st.cdn_fronting_domain is None,
        },
        st.fragmentation_size == fragmentation_size_spec(censorship_level),
        st.morph_protocol@ == strategy_morph(transport@, censorship_level).name@,
        st.padding_size == padding_size_spec(strategy_morph(transport@, censorship_level), censorship_level),
        (st.use_ech, st.use_grease) == ech_usage_spec(
            censorship_level,
            cdn_pick(blocked_cdn_domains@, MIN_CDN_RELIABILITY_PERMILLE) is Some,
            ech_previously_blocked,
        ),
        st.quic_preferred == (!quic_previously_blocked && censorship_level >= 2),
        st.route_priority@.map_values(|x: String| x@) == strategy_routes(route_statuses@),
        st.explanation@.map_values(|x: String| x@) == seq![
            tls_line(strategy_profile(irst_hour, previous_ja3_seen@)),
            cdn_line(cdn_pick(blocked_cdn_domains@, MIN_CDN_RELIABILITY_PERMILLE)),
            fragmentation_line(fragmentation_size_spec(censorship_level), censorship_level),
            morph_line(
                strategy_morph(transport@, censorship_level),
                padding_size_spec(strategy_morph(transport@, censorship_level), censorship_level),
            ),
            ech_line(st.use_ech, st.use_grease),
            quic_line(st.quic_preferred),
            route_line(strategy_routes(route_statuses@)),
        ],
{
    let mut explanation: Vec<String> = Vec::new();

    let profiles = browser_tls_profiles();
    let tls_profile = match select_tls_profile(profiles.as_slice(), irst_hour, previous_ja3_seen) {
        Some(p) => *p,
        None => profiles[0],
    };
    let mut l1 = String::new();
    push_str(&mut l1, "TLS profile: ");
    push_str(&mut l1, tls_profile.name);
    push_str(&mut l1, " (JA3: ");
    push_str(&mut l1, tls_profile.ja3);
    push_str(&mut l1, ", cipher: ");
    push_joined_strs(&mut l1, tls_profile.cipher_suites, ", ");
    push_str(&mut l1, ")");
    explanation.push(l1);

    let cdn_domain = select_cdn_fronting_domain(blocked_cdn_domains, MIN_CDN_RELIABILITY_PERMILLE);
    let mut l2 = String::new();
    match cdn_domain {
        Some(cdn) => {
            push_str(&mut l2, "CDN fronting: ");
            push_str(&mut l2, cdn.domain);
            push_str(&mut l2, " via ");
            push_str(&mut l2, cdn.provider);
            push_str(&mut l2, " (reliability: ");
            push_permille(&mut l2, cdn.iran_reliability_permille);
            push_str(&mut l2, ")");
        },
        None => {
            push_str(&mut l2, "No CDN fronting available (all CDNs blocked or below threshold)");
        },
    }
    explanation.push(l2);

    let frag_size = select_fragmentation_size(censorship_level);
    let mut l3 = String::new();
    push_str(&mut l3, "TCP fragmentation: ");
    push_decimal(&mut l3, frag_size as u64);
    push_str(&mut l3, " bytes (censorship level: ");
    push_decimal(&mut l3, censorship_level as u64);
    push_str(&mut l3, ")");
    explanation.push(l3);

    let morph_protocol = select_morph_protocol(transport, censorship_level);
    let padding_size = select_padding_size(&morph_protocol, censorship_level, seed);
    let mut l4 = String::new();
    push_str(&mut l4, "Traffic morphing: ");
    push_str(&mut l4, morph_protocol.name);
    push_str(&mut l4, " protocol with ");
    push_decimal(&mut l4, padding_size as u64);
    push_str(&mut l4, " byte padding");
    explanation.push(l4);

    let cdn_name: Option<&str> = match cdn_domain {
        Some(d) => Some(d.domain),
        None => None,
    };
    let (use_ech, use_grease) = decide_ech_usage(censorship_level, cdn_name, ech_previously_blocked);
    let l5 = if use_ech {
        if use_grease {
            String::from_str("ECH enabled with GREASE extensions (previous ECH block detected)")
        } else {
            String::from_str("ECH enabled (SNI encrypted)")
        }
    } else {
        String::from_str("ECH not used (low censorship level, no CDN)")
    };
    explanation.push(l5);

    let quic_preferred = prefer_quic(censorship_level, quic_previously_blocked);
    let l6 = if quic_preferred {
        String::from_str("QUIC/HTTP3 preferred (harder to DPI than TCP+TLS)")
    } else {
        String::from_str("TCP+TLS used (QUIC not suitable or blocked)")
    };
    explanation.push(l6);

    let active_routes = select_active_routes(route_statuses);
    let mut route_names: Vec<String> = Vec::new();
    for i in 0..active_routes.len()
        invariant
            route_names.len() == i,
            forall|j: int| 0 <= j < i ==> #[trigger] route_names@[j]@ == active_routes@[j].name@,
    {
        route_names.push(String::from_str(active_routes[i].name));
    }
    assert(route_names@.map_values(|x: String| x@) =~= active_routes@.map_values(|r: MultiPathRoute| r.name@));
    let mut l7 = String::new();
    push_str(&mut l7, "Route priority: ");
    push_joined_strings(&mut l7, &route_names, " > ");
    explanation.push(l7);

    proof {
        assert(explanation@.map_values(|x: String| x@) =~= seq![
            tls_line(strategy_profile(irst_hour, previous_ja3_seen@)),
            cdn_line(cdn_pick(blocked_cdn_domains@, MIN_CDN_RELIABILITY_PERMILLE)),
            fragmentation_line(fragmentation_size_spec(censorship_level), censorship_level),
            morph_line(
                strategy_morph(transport@, censorship_level),
                padding_size_spec(strategy_morph(transport@, censorship_level), censorship_level),
            ),
            ech_line(use_ech, use_grease),
            quic_line(quic_preferred),
            route_line(strategy_routes(route_statuses@)),
        ]);
    }

    EvasionStrategy {
        bridge_line: String::from_str(bridge_line),
        transport: String::from_str(transport),
        tls_profile: String::from_str(tls_profile.name),
        cdn_fronting_domain: match cdn_domain {
            Some(d) => Some(String::from_str(d.domain)),
            None => None,
        },
        fragmentation_size: frag_size,
        padding_size,
        morph_protocol: String::from_str(morph_protocol.name),
        use_ech,
        use_grease,
        quic_preferred,
        route_priority: route_names,
        explanation,
    }
}

// ───────────────────────────── laws ─────────────────────────────

/// A higher censorship level never gets a larger TCP fragment.
pub proof fn law_fragments_shrink_with_censorship(a: u32, b: u32)
    requires
        a <= b,
    ensures
        fragmentation_size_spec(b) <= fragmentation_size_spec(a),
{
}

/// For a fixed morphing profile, a higher censorship level never gets less
/// padding, and padding never exceeds the profile's maximum.
pub proof fn law_padding_grows_with_censorship(p: MorphProtocol, a: u32, b: u32)
    requires
        a <= b,
    ensures
        padding_size_spec(p, a) <= padding_size_spec(p, b),
        padding_size_spec(p, b) <= p.padding_max,
{
}

/// No recommended route is one whose recorded status is `Blocked`, and
/// every route not blocked is recommended.
pub proof fn law_routes_exclude_exactly_the_blocked(
    routes: Seq<MultiPathRoute>,
    statuses: Seq<(String, RouteStatus)>,
    x: MultiPathRoute,
)
    ensures
        unblocked_routes(routes, statuses).contains(x) <==> (routes.contains(x) && !route_blocked(statuses, x.name@)),
    decreases routes.len(),
{
    if routes.len() > 0 {
        let d = routes.drop_last();
        let l = routes.last();
        let p = unblocked_routes(d, statuses);
        let u = unblocked_routes(routes, statuses);
        law_routes_exclude_exactly_the_blocked(d, statuses, x);
        assert(routes =~= d.push(l));
        assert(routes.contains(x) <==> (d.contains(x) || x == l)) by {
            if routes.contains(x) {
                let k = choose|k: int| 0 <= k < routes.len() && routes[k] == x;
                if k < d.len() {
                    assert(d[k] == x);
                }
            }
            if d.contains(x) {
                let k = choose|k: int| 0 <= k < d.len() && d[k] == x;
                assert(routes[k] == x);
            }
            if x == l {
                assert(routes[routes.len() - 1] == x);
            }
        }
        if !route_blocked(statuses, l.name@) {
            assert(u == p.push(l));
            assert(u.contains(x) <==> (p.contains(x) || x == l)) by {
                if u.contains(x) {
                    let k = choose|k: int| 0 <= k < u.len() && u[k] == x;
                    if k < p.len() {
                        assert(p[k] == x);
                    }
                }
                if p.contains(x) {
                    let k = choose|k: int| 0 <= k < p.len() && p[k] == x;
                    assert(u[k] == x);
                }
                if x == l {
                    assert(u[u.len() - 1] == x);
                }
            }
        }
    }
}

/// After an ECH block, ECH is kept and GREASE is added, whatever else holds.
pub proof fn law_ech_block_adds_grease(censorship_level: u32, has_cdn: bool)
    ensures
        ech_usage_spec(censorship_level, has_cdn, true) == (true, true),
{
}

} // verus!
