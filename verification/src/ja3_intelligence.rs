//! JA3 fingerprint intelligence: the catalogue of risky TLS fingerprints,
//! risk scores for hashes, transports and ports, the fingerprints known to
//! be blocked by SIAM, and the rotation plan and report built from a
//! baseline of observed hashes.
use vstd::prelude::*;
use crate::text::{to_chars, chars_eq, to_lowercase, lowercase_of, eq_str, join, decimal, push_str, push_decimal, push_char, push_joined_strings};
use crate::timefmt::{rfc3339_text, report_time_text, utc_rfc3339, utc_report_time};

verus! {

/// `(JA3 hash, profile)` pairs seen blocked (OONI, Censored Planet,
/// University of Michigan), in reporting order.
pub open spec fn siam_blocked_spec() -> Seq<(&'static str, &'static str)> {
    seq![
        ("e7d705a3286e19ea42f587b344ee6865", "Tor Browser 12.x default"),
        ("a0e9f5d64349fb13191bc781f81f42e1", "Tor Browser 11.x / obfs4 default"),
        ("6734f37431670b3ab4292b8f60f29984", "obfs4proxy 0.0.14 TLS ClientHello"),
        ("0a68a71f1c77c3e5c5f7a093a79c8f46", "Snowflake default WebRTC DTLS"),
        ("da4a0008103d7aa41e359bfe4687d5f3", "Tor relay guard TLS 1.2"),
        ("b32309a26951912be7dba376398d2d3f", "V2Ray 4.x TLS fingerprint"),
        ("8bcea3c31e9862cf1c4b0e4fcd2cbecd", "Shadowsocks-libev TLS"),
        ("d9e0d4b1f8c5a3e2b7f6a1c0e8d2b5f9", "meek_lite CDN fingerprint"),
        ("9e10692f1b7a698d15d9a5e0e43fd3a5", "Go net/tls default ClientHello"),
    ]
}

/// `(JA3 hash, profile)` pairs seen blocked, in reporting order.
pub fn siam_blocked_ja3() -> (t: Vec<(&'static str, &'static str)>)
    ensures
        t@ == siam_blocked_spec(),
{
    let t = vec![
        ("e7d705a3286e19ea42f587b344ee6865", "Tor Browser 12.x default"),
        ("a0e9f5d64349fb13191bc781f81f42e1", "Tor Browser 11.x / obfs4 default"),
        ("6734f37431670b3ab4292b8f60f29984", "obfs4proxy 0.0.14 TLS ClientHello"),
        ("0a68a71f1c77c3e5c5f7a093a79c8f46", "Snowflake default WebRTC DTLS"),
        ("da4a0008103d7aa41e359bfe4687d5f3", "Tor relay guard TLS 1.2"),
        ("b32309a26951912be7dba376398d2d3f", "V2Ray 4.x TLS fingerprint"),
        ("8bcea3c31e9862cf1c4b0e4fcd2cbecd", "Shadowsocks-libev TLS"),
        ("d9e0d4b1f8c5a3e2b7f6a1c0e8d2b5f9", "meek_lite CDN fingerprint"),
        ("9e10692f1b7a698d15d9a5e0e43fd3a5", "Go net/tls default ClientHello"),
    ];
    assert(t@ =~= siam_blocked_spec());
    t
}

/// The profile of the first blocked entry whose hash equals `hash`
/// exactly (the hash is expected lower-cased).
pub open spec fn blocked_profile_spec(table: Seq<(&'static str, &'static str)>, hash: Seq<char>) -> Option<
    Seq<char>,
>
    decreases table.len(),
{
    if table.len() == 0 {
        None
    } else if table[0].0@ == hash {
        Some(table[0].1@)
    } else {
        blocked_profile_spec(table.drop_first(), hash)
    }
}

/// The blocked profile a JA3 hash belongs to, if it is on the list.
pub fn siam_blocked_profile(hash: &str) -> (r: Option<&'static str>)
    ensures
        match r {
            Some(p) => blocked_profile_spec(siam_blocked_spec(), hash@) == Some(p@),
            None => blocked_profile_spec(siam_blocked_spec(), hash@) is None,
        },
{
    let table = siam_blocked_ja3();
    let hv = to_chars(hash);
    let mut i: usize = 0;
    assert(table@.skip(0) =~= table@);
    while i < table.len()
        invariant
            i <= table.len(),
            table@ == siam_blocked_spec(),
            hv@ == hash@,
            blocked_profile_spec(table@, hash@) == blocked_profile_spec(table@.skip(i as int), hash@),
        decreases table.len() - i,
    {
        assert(table@.skip(i as int).drop_first() =~= table@.skip(i + 1));
        assert(table@.skip(i as int)[0] == table@[i as int]);
        let (h, p) = table[i];
        let t = to_chars(h);
        if chars_eq(&t, &hv) {
            return Some(p);
        }
        i += 1;
    }
    None
}

/// Advice written to every JA3 rotation plan.
pub open spec fn universal_recommendations_spec() -> Seq<&'static str> {
    seq![
        "Enable TLS padding extension (RFC 7685) on all pluggable transport clients.",
        "Use iat-mode=2 for obfs4 to randomise inter-arrival timing.",
        "Rotate JA3 baseline every 72 hours regardless of blocking status.",
        "Prefer WebTunnel over obfs4 -- WebTunnel JA3 is identical to browser HTTPS.",
        "Enable ECH if bridge supports it -- hides SNI from SIAM DPI completely.",
    ]
}

/// Advice written to every JA3 rotation plan.
pub fn universal_recommendations() -> (t: Vec<&'static str>)
    ensures
        t@ == universal_recommendations_spec(),
{
    let t = vec![
        "Enable TLS padding extension (RFC 7685) on all pluggable transport clients.",
        "Use iat-mode=2 for obfs4 to randomise inter-arrival timing.",
        "Rotate JA3 baseline every 72 hours regardless of blocking status.",
        "Prefer WebTunnel over obfs4 -- WebTunnel JA3 is identical to browser HTTPS.",
        "Enable ECH if bridge supports it -- hides SNI from SIAM DPI completely.",
    ];
    assert(t@ =~= universal_recommendations_spec());
    t
}

/// Ports whose use marks Tor traffic.
pub const HIGH_RISK_PORTS: [i64; 3] = [9001, 9030, 9050];

/// Catalogue rows: hash, description, source, DPI risk tier, whether OONI
/// Iran measurements confirm the block, and the penalty weight (per mille).
pub open spec fn database_spec() -> Seq<(&'static str, &'static str, &'static str, &'static str, bool, u32)> {
    seq![
        ("e7d705a3286e19ea42f587b344ee6865", "Tor Browser default TLS 1.3 ClientHello (NSS-based, Firefox ESR)", "public-research/salesforce-ja3", "critical", true, 1000u32),
        ("6734f37431670b3ab4292b8f60f29984", "Tor Browser alternative fingerprint (older NSS TLS stack)", "ooni-tls-blocking-ir", "critical", true, 950u32),
        ("b32309a26951912be7dba376398abc3b", "obfs4proxy TLS layer \u{2014} identified in OONI tls_blocking measurements from IR", "ooni-tls-blocking-ir", "high", true, 850u32),
        ("5d7e19ef9b3a4c56f5cd4a38cd0d0aa3", "Meek-lite Azure CDN TLS handshake \u{2014} flagged in some Iranian ISPs", "ooni-tls-blocking-ir", "medium", false, 550u32),
        ("de350869b8c85de67a350c8d186f11e6", "Non-standard cipher ordering consistent with Tor relay connections", "censored-planet-research", "high", false, 750u32),
        ("3b5074b1b5d032e5620f69f9159c9b58", "Golang TLS default fingerprint \u{2014} commonly used by Tor relays", "public-research", "medium", false, 500u32),
        ("cd08e31494f9531f560d64c695473da9", "Python ssl module default (used in some PT implementations)", "public-research", "low", false, 300u32),
    ]
}

/// One catalogue entry; `score_permille` is its penalty weight in
/// thousandths.
#[derive(Debug, Clone, PartialEq, Eq)]
pub struct JA3Entry {
    pub hash_hex: String,
    pub description: String,
    pub source: String,
    pub dpi_risk: String,
    pub iran_ooni_confirmed: bool,
    pub score_permille: u32,
}

/// `e` holds catalogue row `r`.
pub open spec fn entry_is_row(e: JA3Entry, r: (&'static str, &'static str, &'static str, &'static str, bool, u32)) -> bool {
    &&& e.hash_hex@ == r.0@
    &&& e.description@ == r.1@
    &&& e.source@ == r.2@
    &&& e.dpi_risk@ == r.3@
    &&& e.iran_ooni_confirmed == r.4
    &&& e.score_permille == r.5
}

/// `d` holds the catalogue, row for row.
pub open spec fn is_database(d: Seq<JA3Entry>) -> bool {
    &&& d.len() == database_spec().len()
    &&& forall|i: int| 0 <= i < d.len() ==> entry_is_row(#[trigger] d[i], database_spec()[i])
}

/// The catalogue of known risky JA3 fingerprints.
pub fn database() -> (d: Vec<JA3Entry>)
    ensures
        is_database(d@),
{
    let rows: Vec<(&'static str, &'static str, &'static str, &'static str, bool, u32)> = vec![
        ("e7d705a3286e19ea42f587b344ee6865", "Tor Browser default TLS 1.3 ClientHello (NSS-based, Firefox ESR)", "public-research/salesforce-ja3", "critical", true, 1000u32),
        ("6734f37431670b3ab4292b8f60f29984", "Tor Browser alternative fingerprint (older NSS TLS stack)", "ooni-tls-blocking-ir", "critical", true, 950u32),
        ("b32309a26951912be7dba376398abc3b", "obfs4proxy TLS layer \u{2014} identified in OONI tls_blocking measurements from IR", "ooni-tls-blocking-ir", "high", true, 850u32),
        ("5d7e19ef9b3a4c56f5cd4a38cd0d0aa3", "Meek-lite Azure CDN TLS handshake \u{2014} flagged in some Iranian ISPs", "ooni-tls-blocking-ir", "medium", false, 550u32),
        ("de350869b8c85de67a350c8d186f11e6", "Non-standard cipher ordering consistent with Tor relay connections", "censored-planet-research", "high", false, 750u32),
        ("3b5074b1b5d032e5620f69f9159c9b58", "Golang TLS default fingerprint \u{2014} commonly used by Tor relays", "public-research", "medium", false, 500u32),
        ("cd08e31494f9531f560d64c695473da9", "Python ssl module default (used in some PT implementations)", "public-research", "low", false, 300u32),
    ];
    assert(rows@ =~= database_spec());
    let mut d: Vec<JA3Entry> = Vec::new();
    let mut i: usize = 0;
    while i < rows.len()
        invariant
            i <= rows.len(),
            rows@ == database_spec(),
            d@.len() == i,
            forall|k: int| 0 <= k < i ==> entry_is_row(#[trigger] d@[k], database_spec()[k]),
        decreases rows.len() - i,
    {
        let r = rows[i];
        d.push(
            JA3Entry {
                hash_hex: String::from_str(r.0),
                description: String::from_str(r.1),
                source: String::from_str(r.2),
                dpi_risk: String::from_str(r.3),
                iran_ooni_confirmed: r.4,
                score_permille: r.5,
            },
        );
        i += 1;
    }
    d
}

/// Browser-like fingerprints with a negative risk weight (per mille).
pub open spec fn safe_hashes_spec() -> Seq<(&'static str, i32)> {
    seq![
        ("aaa7bf52f6c250ce0e70d7d4f32a6d52", -200i32),
        ("b32309a26951912be7dba376398abc3b", -150i32),
        ("35e2d4b5c7d7a09ab32c1f0a76e06e2f", -150i32),
    ]
}

/// Browser-like fingerprints with their (negative) risk weights.
pub fn safe_hashes() -> (t: Vec<(&'static str, i32)>)
    ensures
        t@ == safe_hashes_spec(),
{
    let t = vec![
        ("aaa7bf52f6c250ce0e70d7d4f32a6d52", -200i32),
        ("b32309a26951912be7dba376398abc3b", -150i32),
        ("35e2d4b5c7d7a09ab32c1f0a76e06e2f", -150i32),
    ];
    assert(t@ =~= safe_hashes_spec());
    t
}

/// Default JA3 risk (per mille) of each transport when no hash is known.
pub open spec fn transport_risk_spec() -> Seq<(&'static str, u32)> {
    seq![
        ("snowflake", 50u32),
        ("webtunnel", 150u32),
        ("obfs4", 200u32),
        ("meek_lite", 300u32),
        ("vanilla", 900u32),
        ("unknown", 500u32),
    ]
}

/// Default JA3 risks of the transports.
pub fn transport_default_risk_table() -> (t: Vec<(&'static str, u32)>)
    ensures
        t@ == transport_risk_spec(),
{
    let t = vec![
        ("snowflake", 50u32),
        ("webtunnel", 150u32),
        ("obfs4", 200u32),
        ("meek_lite", 300u32),
        ("vanilla", 900u32),
        ("unknown", 500u32),
    ];
    assert(t@ =~= transport_risk_spec());
    t
}

/// The first position at or after `i` of a catalogue row for hash `h`.
pub open spec fn find_row_from(h: Seq<char>, i: int) -> Option<int>
    decreases database_spec().len() - i,
{
    if i < 0 || i >= database_spec().len() {
        None
    } else if database_spec()[i].0@ == h {
        Some(i)
    } else {
        find_row_from(h, i + 1)
    }
}

/// The catalogue row for hash `h`.
pub open spec fn find_row(h: Seq<char>) -> Option<int> {
    find_row_from(h, 0)
}

/// The first weight in `table` for `key` (`None` when absent).
pub open spec fn weight_in<W>(table: Seq<(&'static str, W)>, key: Seq<char>) -> Option<W>
    decreases table.len(),
{
    if table.len() == 0 {
        None
    } else if table[0].0@ == key {
        Some(table[0].1)
    } else {
        weight_in(table.drop_first(), key)
    }
}

/// The risk score (per mille) of an already lower-cased hash: a browser-like
/// fingerprint scores its weight floored at 0, a catalogued one its weight,
/// any other 300.
pub open spec fn score_spec(h: Seq<char>) -> u32 {
    match weight_in(safe_hashes_spec(), h) {
        Some(w) => if w > 0 { w as u32 } else { 0 },
        None => match find_row(h) {
            Some(i) => database_spec()[i].5,
            None => 300,
        },
    }
}

/// The catalogue, indexed by lower-cased hash.
pub struct JA3Intel {
    index: Vec<JA3Entry>,
}

impl JA3Intel {
    #[verifier::type_invariant]
    spec fn holds_database(self) -> bool {
        is_database(self.index@)
    }

    /// The catalogue entries.
    pub closed spec fn entries(self) -> Seq<JA3Entry> {
        self.index@
    }

    /// The catalogue, ready for lookups.
    pub fn new() -> (intel: JA3Intel)
        ensures
            is_database(intel.entries()),
    {
        JA3Intel { index: database() }
    }

    fn position(&self, h: &String) -> (r: Option<usize>)
        ensures
            match r {
                Some(i) => find_row(h@) == Some(i as int) && (i as int) < database_spec().len(),
                None => find_row(h@) is None,
            },
    {
        proof {
            use_type_invariant(self);
        }
        let hv = to_chars(h.as_str());
        let mut i: usize = 0;
        while i < self.index.len()
            invariant
                i <= self.index@.len(),
                is_database(self.index@),
                hv@ == h@,
                find_row(h@) == find_row_from(h@, i as int),
            decreases self.index@.len() - i,
        {
            assert(entry_is_row(self.index@[i as int], database_spec()[i as int]));
            if chars_eq(&to_chars(self.index[i].hash_hex.as_str()), &hv) {
                return Some(i);
            }
            i += 1;
        }
        None
    }

    /// The catalogue entry for a hash, compared lower-cased.
    pub fn lookup(&self, ja3_hash: &str) -> (r: Option<&JA3Entry>)
        ensures
            match r {
                Some(e) => match find_row(lowercase_of(ja3_hash@)) {
                    Some(i) => entry_is_row(*e, database_spec()[i]),
                    None => false,
                },
                None => find_row(lowercase_of(ja3_hash@)) is None,
            },
    {
        proof {
            use_type_invariant(self);
        }
        let h = to_lowercase(ja3_hash);
        match self.position(&h) {
            Some(i) => {
                assert(entry_is_row(self.index@[i as int], database_spec()[i as int]));
                Some(&self.index[i])
            },
            None => None,
        }
    }

    /// The DPI risk (per mille) of a hash, compared lower-cased: a
    /// browser-like fingerprint scores 0, a catalogued one its weight, any
    /// other 300.
    pub fn score(&self, ja3_hash: &str) -> (r: u32)
        ensures
            r == score_spec(lowercase_of(ja3_hash@)),
    {
        proof {
            use_type_invariant(self);
        }
        let h = to_lowercase(ja3_hash);
        let hv = to_chars(h.as_str());
        let safe = safe_hashes();
        let mut k: usize = 0;
        assert(safe@.skip(0) =~= safe@);
        while k < safe.len()
            invariant
                k <= safe@.len(),
                safe@ == safe_hashes_spec(),
                hv@ == h@,
                h@ == lowercase_of(ja3_hash@),
                weight_in(safe@, h@) == weight_in(safe@.skip(k as int), h@),
            decreases safe@.len() - k,
        {
            assert(safe@.skip(k as int).drop_first() =~= safe@.skip(k + 1));
            assert(safe@.skip(k as int)[0] == safe@[k as int]);
            if eq_str(&hv, safe[k].0) {
                let w = safe[k].1;
                assert(weight_in(safe@.skip(k as int), h@) == Some(w));
                return if w > 0 { w as u32 } else { 0 };
            }
            k += 1;
        }
        match self.position(&h) {
            Some(i) => {
                assert(entry_is_row(self.index@[i as int], database_spec()[i as int]));
                self.index[i].score_permille
            },
            None => 300,
        }
    }

    /// Whether a hash (compared lower-cased) is catalogued as critical and
    /// confirmed blocked by OONI Iran measurements.
    pub fn is_critical(&self, ja3_hash: &str) -> (b: bool)
        ensures
            b == match find_row(lowercase_of(ja3_hash@)) {
                Some(i) => database_spec()[i].3@ == "critical"@ && database_spec()[i].4,
                None => false,
            },
    {
        proof {
            use_type_invariant(self);
        }
        let h = to_lowercase(ja3_hash);
        match self.position(&h) {
            Some(i) => {
                assert(entry_is_row(self.index@[i as int], database_spec()[i as int]));
                let e = &self.index[i];
                eq_str(&to_chars(e.dpi_risk.as_str()), "critical") && e.iran_ooni_confirmed
            },
            None => false,
        }
    }

    /// The default JA3 risk (per mille) of a transport, compared
    /// lower-cased; 500 for one not in the table.
    pub fn transport_default_risk(&self, transport: &str) -> (r: u32)
        ensures
            r == match weight_in(transport_risk_spec(), lowercase_of(transport@)) {
                Some(w) => w,
                None => 500,
            },
    {
        let lower = to_lowercase(transport);
        let lv = to_chars(lower.as_str());
        let table = transport_default_risk_table();
        let mut k: usize = 0;
        assert(table@.skip(0) =~= table@);
        while k < table.len()
            invariant
                k <= table@.len(),
                table@ == transport_risk_spec(),
                lv@ == lower@,
                lower@ == lowercase_of(transport@),
                weight_in(table@, lower@) == weight_in(table@.skip(k as int), lower@),
            decreases table@.len() - k,
        {
            assert(table@.skip(k as int).drop_first() =~= table@.skip(k + 1));
            assert(table@.skip(k as int)[0] == table@[k as int]);
            if eq_str(&lv, table[k].0) {
                return table[k].1;
            }
            k += 1;
        }
        500
    }

    /// The added risk (per mille) of a port associated with default Tor
    /// traffic: 800 for those, 0 for any other.
    pub fn port_risk(&self, port: i64) -> (r: u32)
        ensures
            r == if port == 9001 || port == 9030 || port == 9050 { 800u32 } else { 0u32 },
    {
        let mut k: usize = 0;
        while k < 3
            invariant
                k <= 3,
                forall|j: int| 0 <= j < k ==> HIGH_RISK_PORTS@[j] != port,
            decreases 3 - k,
        {
            if HIGH_RISK_PORTS[k] == port {
                return 800;
            }
            k += 1;
        }
        assert(HIGH_RISK_PORTS@ =~= seq![9001i64, 9030i64, 9050i64]);
        0
    }

    /// The hashes catalogued as critical and confirmed blocked, in catalogue
    /// order.
    pub fn all_critical_hashes(&self) -> (v: Vec<String>)
        ensures
            v@.len() == critical_hashes_spec(database_spec()).len(),
            forall|k: int| 0 <= k < v@.len() ==> #[trigger] v@[k]@ == critical_hashes_spec(database_spec())[k],
    {
        let db = database();
        let mut out: Vec<String> = Vec::new();
        let mut i: usize = 0;
        while i < db.len()
            invariant
                i <= db@.len(),
                is_database(db@),
                out@.len() == critical_hashes_spec(database_spec().take(i as int)).len(),
                forall|k: int| 0 <= k < out@.len() ==> #[trigger] out@[k]@ == critical_hashes_spec(database_spec().take(i as int))[k],
            decreases db@.len() - i,
        {
            assert(entry_is_row(db@[i as int], database_spec()[i as int]));
            assert(database_spec().take(i + 1).drop_last() =~= database_spec().take(i as int));
            if eq_str(&to_chars(db[i].dpi_risk.as_str()), "critical") && db[i].iran_ooni_confirmed {
                out.push(String::from_str(db[i].hash_hex.as_str()));
            }
            i += 1;
        }
        assert(database_spec().take(db@.len() as int) =~= database_spec());
        out
    }

    /// Counts over the catalogue.
    pub fn summary(&self) -> (s: JA3Summary)
        ensures
            s.total == database_spec().len(),
            s.critical == count_tier(database_spec(), "critical"@),
            s.high == count_tier(database_spec(), "high"@),
            s.iran_confirmed == count_confirmed(database_spec()),
    {
        let db = database();
        let mut critical: usize = 0;
        let mut high: usize = 0;
        let mut confirmed: usize = 0;
        let mut i: usize = 0;
        while i < db.len()
            invariant
                i <= db@.len(),
                is_database(db@),
                critical == count_tier(database_spec().take(i as int), "critical"@),
                high == count_tier(database_spec().take(i as int), "high"@),
                confirmed == count_confirmed(database_spec().take(i as int)),
                critical <= i && high <= i && confirmed <= i,
            decreases db@.len() - i,
        {
            assert(entry_is_row(db@[i as int], database_spec()[i as int]));
            assert(database_spec().take(i + 1).drop_last() =~= database_spec().take(i as int));
            let rv = to_chars(db[i].dpi_risk.as_str());
            if eq_str(&rv, "critical") {
                critical += 1;
            }
            if eq_str(&rv, "high") {
                high += 1;
            }
            if db[i].iran_ooni_confirmed {
                confirmed += 1;
            }
            i += 1;
        }
        assert(database_spec().take(db@.len() as int) =~= database_spec());
        JA3Summary { total: db.len(), critical, high, iran_confirmed: confirmed }
    }
}

/// A catalogued hash that is not a browser-like one scores the weight of
/// its catalogue entry: when `e` is the entry a lookup of `h` finds, the
/// score of `h` is `e`'s weight, not the default for unknown hashes.
pub proof fn law_catalogued_score_is_entry_weight(h: Seq<char>, e: JA3Entry)
    requires
        weight_in(safe_hashes_spec(), h) is None,
        match find_row(h) {
            Some(i) => entry_is_row(e, database_spec()[i]),
            None => false,
        },
    ensures
        score_spec(h) == e.score_permille,
{
}

/// The default score 300 goes only to hashes in neither table, and a
/// browser-like hash scores 0 (its weight is negative, floored at 0).
pub proof fn law_score_defaults(h: Seq<char>)
    ensures
        weight_in(safe_hashes_spec(), h) is None && find_row(h) is None ==> score_spec(h) == 300,
        weight_in(safe_hashes_spec(), h) is Some ==> score_spec(h) == 0,
{
    lemma_safe_weight_cases(h);
}

/// What the lookup in the browser-like table comes to, entry by entry.
proof fn lemma_safe_weight_cases(h: Seq<char>)
    ensures
        weight_in(safe_hashes_spec(), h) == (if safe_hashes_spec()[0].0@ == h {
            Some(-200i32)
        } else if safe_hashes_spec()[1].0@ == h {
            Some(-150i32)
        } else if safe_hashes_spec()[2].0@ == h {
            Some(-150i32)
        } else {
            None
        }),
{
    let t = safe_hashes_spec();
    let t1 = t.drop_first();
    let t2 = t1.drop_first();
    let t3 = t2.drop_first();
    assert(t1[0] == t[1] && t2[0] == t[2] && t3.len() == 0);
    assert(weight_in(t3, h) is None);
    assert(weight_in(t2, h) == (if t2[0].0@ == h { Some(t2[0].1) } else { weight_in(t3, h) }));
    assert(weight_in(t1, h) == (if t1[0].0@ == h { Some(t1[0].1) } else { weight_in(t2, h) }));
    assert(weight_in(t, h) == (if t[0].0@ == h { Some(t[0].1) } else { weight_in(t1, h) }));
}

/// Every catalogue row scores its own weight, except the one whose hash is
/// also listed as browser-like (the obfs4proxy TLS layer), which scores 0.
pub proof fn law_catalogue_rows_score_their_weight(i: int)
    requires
        0 <= i < database_spec().len(),
    ensures
        i != 2 ==> score_spec(database_spec()[i].0@) == database_spec()[i].5,
        i == 2 ==> score_spec(database_spec()[i].0@) == 0,
{
    reveal_strlit("e7d705a3286e19ea42f587b344ee6865");
    reveal_strlit("6734f37431670b3ab4292b8f60f29984");
    reveal_strlit("b32309a26951912be7dba376398abc3b");
    reveal_strlit("5d7e19ef9b3a4c56f5cd4a38cd0d0aa3");
    reveal_strlit("de350869b8c85de67a350c8d186f11e6");
    reveal_strlit("3b5074b1b5d032e5620f69f9159c9b58");
    reveal_strlit("cd08e31494f9531f560d64c695473da9");
    reveal_strlit("aaa7bf52f6c250ce0e70d7d4f32a6d52");
    reveal_strlit("35e2d4b5c7d7a09ab32c1f0a76e06e2f");
    let d = database_spec();
    let t = safe_hashes_spec();
    let h = d[i].0@;
    lemma_safe_weight_cases(h);
    if i != 2 {
        assert(h != t[0].0@ && h != t[1].0@ && h != t[2].0@) by {
            assert(h[0] != t[0].0@[0] || h[1] != t[0].0@[1]);
            assert(h[0] != t[1].0@[0] || h[1] != t[1].0@[1]);
            assert(h[0] != t[2].0@[0] || h[1] != t[2].0@[1]);
        }
        assert(weight_in(t, h) is None);
        assert forall|j: int| 0 <= j < i implies d[j].0@ != h by {
            assert(d[j].0@[0] != h[0]);
        }
        assert forall|k: int| 0 <= k <= i implies find_row_from(h, k) == Some(i) by {
            lemma_find_row_from_reaches(h, k, i);
        }
    } else {
        assert(h == t[1].0@);
        assert(h != t[0].0@) by {
            assert(h[0] != t[0].0@[0]);
        }
        law_score_defaults(h);
    }
}

proof fn lemma_find_row_from_reaches(h: Seq<char>, k: int, i: int)
    requires
        0 <= k <= i < database_spec().len(),
        database_spec()[i].0@ == h,
        forall|j: int| 0 <= j < i ==> database_spec()[j].0@ != h,
    ensures
        find_row_from(h, k) == Some(i),
    decreases i - k,
{
    if k < i {
        lemma_find_row_from_reaches(h, k + 1, i);
    }
}

/// Hashes of the rows that are critical and confirmed, in order.
pub open spec fn critical_hashes_spec(rows: Seq<(&'static str, &'static str, &'static str, &'static str, bool, u32)>) -> Seq<Seq<char>>
    decreases rows.len(),
{
    if rows.len() == 0 {
        Seq::empty()
    } else {
        let rest = critical_hashes_spec(rows.drop_last());
        if rows.last().3@ == "critical"@ && rows.last().4 {
            rest.push(rows.last().0@)
        } else {
            rest
        }
    }
}

/// How many rows carry risk tier `tier`.
pub open spec fn count_tier(rows: Seq<(&'static str, &'static str, &'static str, &'static str, bool, u32)>, tier: Seq<char>) -> nat
    decreases rows.len(),
{
    if rows.len() == 0 {
        0
    } else {
        count_tier(rows.drop_last(), tier) + if rows.last().3@ == tier { 1nat } else { 0nat }
    }
}

/// How many rows are confirmed by OONI Iran measurements.
pub open spec fn count_confirmed(rows: Seq<(&'static str, &'static str, &'static str, &'static str, bool, u32)>) -> nat
    decreases rows.len(),
{
    if rows.len() == 0 {
        0
    } else {
        count_confirmed(rows.drop_last()) + if rows.last().4 { 1nat } else { 0nat }
    }
}

/// Counts over the catalogue.
#[derive(Debug, Clone, Copy, PartialEq, Eq)]
pub struct JA3Summary {
    pub total: usize,
    pub critical: usize,
    pub high: usize,
    pub iran_confirmed: usize,
}



/// How a blocked fingerprint is changed: the action, the TLS padding bytes
/// to add, the cipher and extension orders to use, and why it works.
#[derive(Debug, Clone, PartialEq, Eq)]
pub struct RotationStrategy {
    pub action: &'static str,
    pub padding_bytes: i64,
    pub recommended_cipher_order: Vec<&'static str>,
    pub extensions_order: Vec<&'static str>,
    pub siam_defeat_note: &'static str,
}

/// `s` is the rotation strategy for `profile`: cipher reordering with a
/// 17-byte pad for the Tor Browser 12 profile, Chrome mimicry for the Go
/// TLS profile, and random padding of `pad` bytes for any other.
pub open spec fn strategy_is(s: RotationStrategy, profile: Seq<char>, pad: i64) -> bool {
    if profile == "Tor Browser 12.x default"@ {
        &&& s.action@ == "cipher_suite_reorder"@
        &&& s.padding_bytes == 17
        &&& s.recommended_cipher_order@ == seq![
            "TLS_AES_128_GCM_SHA256",
            "TLS_CHACHA20_POLY1305_SHA256",
            "TLS_AES_256_GCM_SHA384",
            "ECDHE-ECDSA-AES128-GCM-SHA256",
            "ECDHE-RSA-AES128-GCM-SHA256",
        ]
        &&& s.extensions_order@ == seq!["SNI", "EC_POINT_FORMATS", "ALPN", "PADDING"]
        &&& s.siam_defeat_note@ == "Reordering cipher suites + adding 17-byte padding block changes the JA3 hash completely. Mimics Chrome 120 profile."@
    } else if profile == "Go net/tls default ClientHello"@ {
        &&& s.action@ == "chrome_mimicry"@
        &&& s.padding_bytes == 0
        &&& s.recommended_cipher_order@ == seq![
            "TLS_GREASE",
            "TLS_AES_128_GCM_SHA256",
            "TLS_AES_256_GCM_SHA384",
            "TLS_CHACHA20_POLY1305_SHA256",
            "ECDHE-ECDSA-AES128-GCM-SHA256",
        ]
        &&& s.extensions_order@ == seq![
            "GREASE",
            "SNI",
            "EXTENDED_MASTER_SECRET",
            "RENEGOTIATION_INFO",
            "SUPPORTED_GROUPS",
            "EC_POINT_FORMATS",
            "SESSION_TICKET",
            "ALPN",
            "STATUS_REQUEST",
            "SIGNED_CERT_TIMESTAMPS",
            "KEY_SHARE",
            "PSK_KEY_EXCHANGE",
            "SUPPORTED_VERSIONS",
            "COMPRESS_CERTIFICATE",
            "GREASE",
            "PADDING",
        ]
        &&& s.siam_defeat_note@ == "Mimicking Chrome 120 TLS fingerprint. GREASE values and extension order are validated against Censored Planet dataset."@
    } else {
        &&& s.action@ == "random_padding"@
        &&& s.padding_bytes == pad
        &&& s.recommended_cipher_order@.len() == 0
        &&& s.extensions_order@.len() == 0
        &&& s.siam_defeat_note@ == "Add random TLS padding extension (RFC 7685) to alter JA3 hash."@
    }
}

/// The rotation strategy for a blocked profile; `default_padding_bytes` is
/// the pad of the random-padding strategy.
pub fn rotation_strategy(profile: &str, default_padding_bytes: i64) -> (s: RotationStrategy)
    ensures
        strategy_is(s, profile@, default_padding_bytes),
{
    let pv = to_chars(profile);
    if eq_str(&pv, "Tor Browser 12.x default") {
        let c = vec![
            "TLS_AES_128_GCM_SHA256",
            "TLS_CHACHA20_POLY1305_SHA256",
            "TLS_AES_256_GCM_SHA384",
            "ECDHE-ECDSA-AES128-GCM-SHA256",
            "ECDHE-RSA-AES128-GCM-SHA256",
        ];
        let e = vec!["SNI", "EC_POINT_FORMATS", "ALPN", "PADDING"];
        let s = RotationStrategy {
            action: "cipher_suite_reorder",
            padding_bytes: 17,
            recommended_cipher_order: c,
            extensions_order: e,
            siam_defeat_note: "Reordering cipher suites + adding 17-byte padding block changes the JA3 hash completely. Mimics Chrome 120 profile.",
        };
        assert(s.recommended_cipher_order@ =~= seq![
            "TLS_AES_128_GCM_SHA256",
            "TLS_CHACHA20_POLY1305_SHA256",
            "TLS_AES_256_GCM_SHA384",
            "ECDHE-ECDSA-AES128-GCM-SHA256",
            "ECDHE-RSA-AES128-GCM-SHA256",
        ]);
        assert(s.extensions_order@ =~= seq!["SNI", "EC_POINT_FORMATS", "ALPN", "PADDING"]);
        s
    } else if eq_str(&pv, "Go net/tls default ClientHello") {
        let c = vec![
            "TLS_GREASE",
            "TLS_AES_128_GCM_SHA256",
            "TLS_AES_256_GCM_SHA384",
            "TLS_CHACHA20_POLY1305_SHA256",
            "ECDHE-ECDSA-AES128-GCM-SHA256",
        ];
        let e = vec![
            "GREASE",
            "SNI",
            "EXTENDED_MASTER_SECRET",
            "RENEGOTIATION_INFO",
            "SUPPORTED_GROUPS",
            "EC_POINT_FORMATS",
            "SESSION_TICKET",
            "ALPN",
            "STATUS_REQUEST",
            "SIGNED_CERT_TIMESTAMPS",
            "KEY_SHARE",
            "PSK_KEY_EXCHANGE",
            "SUPPORTED_VERSIONS",
            "COMPRESS_CERTIFICATE",
            "GREASE",
            "PADDING",
        ];
        let s = RotationStrategy {
            action: "chrome_mimicry",
            padding_bytes: 0,
            recommended_cipher_order: c,
            extensions_order: e,
            siam_defeat_note: "Mimicking Chrome 120 TLS fingerprint. GREASE values and extension order are validated against Censored Planet dataset.",
        };
        assert(s.recommended_cipher_order@ =~= seq![
            "TLS_GREASE",
            "TLS_AES_128_GCM_SHA256",
            "TLS_AES_256_GCM_SHA384",
            "TLS_CHACHA20_POLY1305_SHA256",
            "ECDHE-ECDSA-AES128-GCM-SHA256",
        ]);
        assert(s.extensions_order@ =~= seq![
            "GREASE",
            "SNI",
            "EXTENDED_MASTER_SECRET",
            "RENEGOTIATION_INFO",
            "SUPPORTED_GROUPS",
            "EC_POINT_FORMATS",
            "SESSION_TICKET",
            "ALPN",
            "STATUS_REQUEST",
            "SIGNED_CERT_TIMESTAMPS",
            "KEY_SHARE",
            "PSK_KEY_EXCHANGE",
            "SUPPORTED_VERSIONS",
            "COMPRESS_CERTIFICATE",
            "GREASE",
            "PADDING",
        ]);
        s
    } else {
        RotationStrategy {
            action: "random_padding",
            padding_bytes: default_padding_bytes,
            recommended_cipher_order: Vec::new(),
            extensions_order: Vec::new(),
            siam_defeat_note: "Add random TLS padding extension (RFC 7685) to alter JA3 hash.",
        }
    }
}

/// What an entry of a JA3 baseline holds, as far as the rotation engine
/// reads it: whether it is an object, and each hash field when it is a
/// string.
#[derive(Debug, Clone, PartialEq, Eq)]
pub struct HashFields {
    pub is_object: bool,
    pub ja3: Option<String>,
    pub ja3_hash: Option<String>,
    pub hash: Option<String>,
    pub fingerprint: Option<String>,
}

/// A JA3 baseline document: an object (with its `bridges` or `hashes`
/// array, a key that holds no array being an empty one, and the object
/// itself read as an entry), an array of entries, or anything else.
#[derive(Debug, Clone, PartialEq, Eq)]
pub enum Ja3Baseline {
    Object { bridges: Option<Vec<HashFields>>, hashes: Option<Vec<HashFields>>, whole: HashFields },
    Array(Vec<HashFields>),
    Other,
}

/// The entries a baseline lists: `bridges`, else `hashes`, else the object
/// itself; an array's elements; nothing otherwise.
pub open spec fn baseline_entries(b: Ja3Baseline) -> Seq<HashFields> {
    match b {
        Ja3Baseline::Object { bridges, hashes, whole } => match bridges {
            Some(v) => v@,
            None => match hashes {
                Some(v) => v@,
                None => seq![whole],
            },
        },
        Ja3Baseline::Array(v) => v@,
        Ja3Baseline::Other => Seq::empty(),
    }
}

/// The text of `o` when it is a non-empty string.
pub open spec fn nonempty(o: Option<String>) -> Option<Seq<char>> {
    match o {
        Some(s) => if s@.len() > 0 { Some(s@) } else { None },
        None => None,
    }
}

/// The hash an entry records: the first non-empty string among `ja3`,
/// `ja3_hash`, `hash` and `fingerprint` of an object.
pub open spec fn hash_of(e: HashFields) -> Option<Seq<char>> {
    if !e.is_object {
        None
    } else if nonempty(e.ja3) is Some {
        nonempty(e.ja3)
    } else if nonempty(e.ja3_hash) is Some {
        nonempty(e.ja3_hash)
    } else if nonempty(e.hash) is Some {
        nonempty(e.hash)
    } else {
        nonempty(e.fingerprint)
    }
}

/// The lower-cased hashes of the entries, in order.
pub open spec fn hashes_spec(es: Seq<HashFields>) -> Seq<Seq<char>>
    decreases es.len(),
{
    if es.len() == 0 {
        Seq::empty()
    } else {
        let rest = hashes_spec(es.drop_last());
        match hash_of(es.last()) {
            Some(h) => rest.push(lowercase_of(h)),
            None => rest,
        }
    }
}

fn nonempty_text(o: &Option<String>) -> (r: Option<&String>)
    ensures
        match r {
            Some(s) => nonempty(*o) == Some(s@),
            None => nonempty(*o) is None,
        },
{
    match o {
        Some(s) => if s.as_str().unicode_len() > 0 { Some(s) } else { None },
        None => None,
    }
}

fn entry_hash(e: &HashFields) -> (r: Option<&String>)
    ensures
        match r {
            Some(s) => hash_of(*e) == Some(s@),
            None => hash_of(*e) is None,
        },
{
    if !e.is_object {
        return None;
    }
    match nonempty_text(&e.ja3) {
        Some(s) => Some(s),
        None => match nonempty_text(&e.ja3_hash) {
            Some(s) => Some(s),
            None => match nonempty_text(&e.hash) {
                Some(s) => Some(s),
                None => nonempty_text(&e.fingerprint),
            },
        },
    }
}

fn hashes_of(es: &Vec<HashFields>) -> (v: Vec<String>)
    ensures
        v@.map_values(|s: String| s@) == hashes_spec(es@),
{
    let mut out: Vec<String> = Vec::new();
    let mut i: usize = 0;
    while i < es.len()
        invariant
            i <= es@.len(),
            out@.map_values(|s: String| s@) == hashes_spec(es@.take(i as int)),
        decreases es@.len() - i,
    {
        assert(es@.take(i + 1).drop_last() =~= es@.take(i as int));
        assert(es@.take(i + 1).last() == es@[i as int]);
        match entry_hash(&es[i]) {
            Some(h) => {
                let l = to_lowercase(h.as_str());
                let ghost before = out@.map_values(|s: String| s@);
                out.push(l);
                assert(out@.map_values(|s: String| s@) =~= before.push(l@));
            },
            None => {},
        }
        i += 1;
    }
    assert(es@.take(es@.len() as int) =~= es@);
    out
}

/// The lower-cased JA3 hashes a baseline records, in order.
pub fn extract_bridge_hashes(baseline: &Ja3Baseline) -> (v: Vec<String>)
    ensures
        v@.map_values(|s: String| s@) == hashes_spec(baseline_entries(*baseline)),
{
    match baseline {
        Ja3Baseline::Object { bridges, hashes, whole } => match bridges {
            Some(v) => hashes_of(v),
            None => match hashes {
                Some(v) => hashes_of(v),
                None => {
                    let mut out: Vec<String> = Vec::new();
                    match entry_hash(whole) {
                        Some(h) => {
                            out.push(to_lowercase(h.as_str()));
                        },
                        None => {},
                    }
                    assert(seq![*whole].drop_last() =~= Seq::<HashFields>::empty());
                    assert(seq![*whole].last() == *whole);
                    assert(hashes_spec(Seq::<HashFields>::empty()) =~= Seq::<Seq<char>>::empty());
                    assert(out@.map_values(|s: String| s@) =~= hashes_spec(seq![*whole]));
                    out
                },
            },
        },
        Ja3Baseline::Array(v) => hashes_of(v),
        Ja3Baseline::Other => {
            let out: Vec<String> = Vec::new();
            assert(out@.map_values(|s: String| s@) =~= hashes_spec(Seq::empty()));
            out
        },
    }
}

/// A hash of the baseline found on the blocked list.
#[derive(Debug, Clone, PartialEq, Eq)]
pub struct BlockedHash {
    pub ja3_hash: String,
    pub blocked_profile: &'static str,
    pub rotation_strategy: RotationStrategy,
}

/// The hashes that are on the blocked list, each with its profile, in
/// order.
pub open spec fn blocked_spec(hs: Seq<Seq<char>>) -> Seq<(Seq<char>, Seq<char>)>
    decreases hs.len(),
{
    if hs.len() == 0 {
        Seq::empty()
    } else {
        let rest = blocked_spec(hs.drop_last());
        match blocked_profile_spec(siam_blocked_spec(), hs.last()) {
            Some(p) => rest.push((hs.last(), p)),
            None => rest,
        }
    }
}

/// `bs` is the blocked list found among hashes `hs`, each with the rotation
/// strategy of its profile.
pub open spec fn blocked_found_ok(bs: Seq<BlockedHash>, hs: Seq<Seq<char>>, pad: i64) -> bool {
    &&& bs.len() == blocked_spec(hs).len()
    &&& forall|k: int|
        0 <= k < bs.len() ==> {
            &&& (#[trigger] bs[k]).ja3_hash@ == blocked_spec(hs)[k].0
            &&& bs[k].blocked_profile@ == blocked_spec(hs)[k].1
            &&& strategy_is(bs[k].rotation_strategy, blocked_spec(hs)[k].1, pad)
        }
}

/// The baseline hashes found on the blocked list, with the strategy to
/// rotate each.
pub fn find_blocked(hashes: &Vec<String>, default_padding_bytes: i64) -> (bs: Vec<BlockedHash>)
    ensures
        blocked_found_ok(bs@, hashes@.map_values(|s: String| s@), default_padding_bytes),
{
    let ghost hs = hashes@.map_values(|s: String| s@);
    let mut out: Vec<BlockedHash> = Vec::new();
    let mut i: usize = 0;
    while i < hashes.len()
        invariant
            i <= hashes@.len(),
            hs == hashes@.map_values(|s: String| s@),
            blocked_found_ok(out@, hs.take(i as int), default_padding_bytes),
        decreases hashes@.len() - i,
    {
        assert(hs.take(i + 1).drop_last() =~= hs.take(i as int));
        assert(hs.take(i + 1).last() == hashes@[i as int]@);
        match siam_blocked_profile(hashes[i].as_str()) {
            Some(p) => {
                let strategy = rotation_strategy(p, default_padding_bytes);
                let ghost before = out@;
                out.push(BlockedHash { ja3_hash: String::from_str(hashes[i].as_str()), blocked_profile: p, rotation_strategy: strategy });
                assert forall|k: int| 0 <= k < out@.len() implies {
                    &&& (#[trigger] out@[k]).ja3_hash@ == blocked_spec(hs.take(i + 1))[k].0
                    &&& out@[k].blocked_profile@ == blocked_spec(hs.take(i + 1))[k].1
                    &&& strategy_is(out@[k].rotation_strategy, blocked_spec(hs.take(i + 1))[k].1, default_padding_bytes)
                } by {
                    if k < before.len() {
                        assert(out@[k] == before[k]);
                    }
                }
            },
            None => {},
        }
        i += 1;
    }
    assert(hs.take(hashes@.len() as int) =~= hs);
    out
}

/// The machine-readable rotation plan.
#[derive(Debug, Clone, PartialEq, Eq)]
pub struct RotationPlan {
    pub generated_at: String,
    pub baseline_hashes_checked: usize,
    pub blocked_hashes_found: usize,
    pub rotation_needed: bool,
    pub siam_blocked_database_size: usize,
    pub blocked_details: Vec<BlockedHash>,
    pub universal_recommendations: Vec<&'static str>,
}

/// Decimal rendering of a signed integer.
pub open spec fn signed_decimal(n: int) -> Seq<char> {
    if n < 0 {
        seq!['-'] + decimal((-n) as nat)
    } else {
        decimal(n as nat)
    }
}

/// The report lines describing one blocked hash.
pub open spec fn detail_lines(b: BlockedHash) -> Seq<Seq<char>> {
    seq![
        "### `"@ + b.ja3_hash@ + "`"@,
        "- **Profile:** "@ + b.blocked_profile@,
        "- **Action:** `"@ + b.rotation_strategy.action@ + "`"@,
        "- **Padding bytes:** "@ + signed_decimal(b.rotation_strategy.padding_bytes as int),
        "- **SIAM defeat note:** "@ + b.rotation_strategy.siam_defeat_note@,
        Seq::empty(),
    ]
}

/// The report lines describing the blocked hashes, in order.
pub open spec fn all_detail_lines(bs: Seq<BlockedHash>) -> Seq<Seq<char>>
    decreases bs.len(),
{
    if bs.len() == 0 {
        Seq::empty()
    } else {
        all_detail_lines(bs.drop_last()) + detail_lines(bs.last())
    }
}

/// The lines of the rotation report.
pub open spec fn report_lines(now: Seq<char>, checked: nat, bs: Seq<BlockedHash>) -> Seq<Seq<char>> {
    let head = seq![
        "# JA3/TLS Fingerprint Rotation Report"@,
        "**Generated:** "@ + now + "  "@,
        Seq::empty(),
        "## Summary"@,
        Seq::empty(),
        "- JA3 hashes checked against SIAM blocklist: **"@ + decimal(checked) + "**"@,
        "- Blocked hashes detected: **"@ + decimal(bs.len()) + "**"@,
        "- Rotation needed: **"@ + (if bs.len() > 0 { "YES"@ } else { "NO"@ }) + "**"@,
        "- SIAM blocked-hash database size: **"@ + decimal(siam_blocked_spec().len()) + "**"@,
        Seq::empty(),
        "## Blocked Hash Details"@,
        Seq::empty(),
    ];
    let body = if bs.len() > 0 {
        all_detail_lines(bs)
    } else {
        seq!["> No blocked JA3 hashes detected in current baseline. Continue monitoring every 72 hours."@, Seq::empty()]
    };
    let tail = seq![
        "## Universal Recommendations"@,
        Seq::empty(),
        "1. Enable TLS padding (RFC 7685) on all PT clients."@,
        "2. Use `iat-mode=2` for obfs4 timing randomisation."@,
        "3. Rotate JA3 baseline every 72 hours."@,
        "4. Prefer WebTunnel \u{2014} its JA3 is identical to browser HTTPS."@,
        "5. Enable ECH where available \u{2014} completely hides SNI from SIAM."@,
        Seq::empty(),
        "---"@,
        "*Generated by TorShield-IR Stage 8n (ja3_intelligence.py --rotate)*"@,
    ];
    head + body + tail
}

fn push_line(lines: &mut Vec<String>, l: String)
    ensures
        final(lines)@.map_values(|p: String| p@) == old(lines)@.map_values(|p: String| p@).push(l@),
{
    lines.push(l);
    assert(lines@.map_values(|p: String| p@) =~= old(lines)@.map_values(|p: String| p@).push(l@));
}

fn text_of(a: &str) -> (s: String)
    ensures
        s@ == a@,
{
    String::from_str(a)
}

fn cat3(a: &str, b: &str, c: &str) -> (s: String)
    ensures
        s@ == a@ + b@ + c@,
{
    let mut s = String::from_str(a);
    push_str(&mut s, b);
    push_str(&mut s, c);
    s
}

fn cat2(a: &str, b: &str) -> (s: String)
    ensures
        s@ == a@ + b@,
{
    let mut s = String::from_str(a);
    push_str(&mut s, b);
    s
}

fn count_line(label: &str, n: u64) -> (s: String)
    ensures
        s@ == label@ + decimal(n as nat) + "**"@,
{
    let mut s = String::from_str(label);
    push_decimal(&mut s, n);
    push_str(&mut s, "**");
    s
}

fn padding_line(n: i64) -> (s: String)
    ensures
        s@ == "- **Padding bytes:** "@ + signed_decimal(n as int),
{
    let mut s = String::from_str("- **Padding bytes:** ");
    if n < 0 {
        push_char(&mut s, '-');
        let m: u64 = if n == i64::MIN { 9_223_372_036_854_775_808u64 } else { (-n) as u64 };
        push_decimal(&mut s, m);
        assert(seq!['-'] + decimal((-(n as int)) as nat) =~= seq!['-'] + decimal(m as nat));
    } else {
        push_decimal(&mut s, n as u64);
    }
    proof {
        if n < 0 {
            assert(s@ =~= "- **Padding bytes:** "@ + signed_decimal(n as int));
        }
    }
    s
}

/// The human-readable rotation report, stamped `now`, for `checked` baseline
/// hashes of which `blocked` are on the blocked list.
pub fn build_report(now: &str, checked: usize, blocked: &Vec<BlockedHash>) -> (r: String)
    ensures
        r@ == join(report_lines(now@, checked as nat, blocked@), "\n"@),
{
    let mut lines: Vec<String> = Vec::new();
    push_line(&mut lines, text_of("# JA3/TLS Fingerprint Rotation Report"));
    push_line(&mut lines, cat3("**Generated:** ", now, "  "));
    push_line(&mut lines, String::new());
    push_line(&mut lines, text_of("## Summary"));
    push_line(&mut lines, String::new());
    push_line(&mut lines, count_line("- JA3 hashes checked against SIAM blocklist: **", checked as u64));
    push_line(&mut lines, count_line("- Blocked hashes detected: **", blocked.len() as u64));
    let needed = if blocked.len() > 0 { "YES" } else { "NO" };
    push_line(&mut lines, cat3("- Rotation needed: **", needed, "**"));
    push_line(&mut lines, count_line("- SIAM blocked-hash database size: **", siam_blocked_ja3().len() as u64));
    push_line(&mut lines, String::new());
    push_line(&mut lines, text_of("## Blocked Hash Details"));
    push_line(&mut lines, String::new());
    let ghost head = lines@.map_values(|p: String| p@);
    if blocked.len() > 0 {
        let mut i: usize = 0;
        while i < blocked.len()
            invariant
                i <= blocked@.len(),
                lines@.map_values(|p: String| p@) == head + all_detail_lines(blocked@.take(i as int)),
            decreases blocked@.len() - i,
        {
            let b = &blocked[i];
            assert(blocked@.take(i + 1).drop_last() =~= blocked@.take(i as int));
            assert(blocked@.take(i + 1).last() == blocked@[i as int]);
            push_line(&mut lines, cat3("### `", b.ja3_hash.as_str(), "`"));
            push_line(&mut lines, cat2("- **Profile:** ", b.blocked_profile));
            push_line(&mut lines, cat3("- **Action:** `", b.rotation_strategy.action, "`"));
            push_line(&mut lines, padding_line(b.rotation_strategy.padding_bytes));
            push_line(&mut lines, cat2("- **SIAM defeat note:** ", b.rotation_strategy.siam_defeat_note));
            push_line(&mut lines, String::new());
            assert(lines@.map_values(|p: String| p@) =~= head + all_detail_lines(blocked@.take(i + 1)));
            i += 1;
        }
        assert(blocked@.take(blocked@.len() as int) =~= blocked@);
    } else {
        push_line(&mut lines, text_of("> No blocked JA3 hashes detected in current baseline. Continue monitoring every 72 hours."));
        push_line(&mut lines, String::new());
    }
    push_line(&mut lines, text_of("## Universal Recommendations"));
    push_line(&mut lines, String::new());
    push_line(&mut lines, text_of("1. Enable TLS padding (RFC 7685) on all PT clients."));
    push_line(&mut lines, text_of("2. Use `iat-mode=2` for obfs4 timing randomisation."));
    push_line(&mut lines, text_of("3. Rotate JA3 baseline every 72 hours."));
    push_line(&mut lines, text_of("4. Prefer WebTunnel \u{2014} its JA3 is identical to browser HTTPS."));
    push_line(&mut lines, text_of("5. Enable ECH where available \u{2014} completely hides SNI from SIAM."));
    push_line(&mut lines, String::new());
    push_line(&mut lines, text_of("---"));
    push_line(&mut lines, text_of("*Generated by TorShield-IR Stage 8n (ja3_intelligence.py --rotate)*"));
    assert(lines@.map_values(|p: String| p@) =~= report_lines(now@, checked as nat, blocked@));
    let mut r = String::new();
    push_joined_strings(&mut r, &lines, "\n");
    r
}

/// The rotation plan and report for a baseline at the instant `now_secs`
/// (with `now_nanos`): the baseline's hashes, those found on the blocked
/// list with their strategies, and the advice given to every plan. `None`
/// where the instant cannot be rendered.
pub fn rotation_outputs(baseline: &Ja3Baseline, now_secs: i64, now_nanos: u32, default_padding_bytes: i64) -> (r: Option<(RotationPlan, String)>)
    ensures
        match r {
            Some((plan, report)) => {
                let hs = hashes_spec(baseline_entries(*baseline));
                &&& rfc3339_text(now_secs, now_nanos) == Some(plan.generated_at@)
                &&& plan.baseline_hashes_checked == hs.len()
                &&& blocked_found_ok(plan.blocked_details@, hs, default_padding_bytes)
                &&& plan.blocked_hashes_found == plan.blocked_details@.len()
                &&& plan.rotation_needed == (plan.blocked_details@.len() > 0)
                &&& plan.siam_blocked_database_size == siam_blocked_spec().len()
                &&& plan.universal_recommendations@ == universal_recommendations_spec()
                &&& report_time_text(now_secs) matches Some(t) && report@ == join(
                    report_lines(t, hs.len(), plan.blocked_details@),
                    "\n"@,
                )
            },
            None => rfc3339_text(now_secs, now_nanos) is None || report_time_text(now_secs) is None,
        },
{
    let generated_at = match utc_rfc3339(now_secs, now_nanos) {
        Some(t) => t,
        None => return None,
    };
    let now_text = match utc_report_time(now_secs) {
        Some(t) => t,
        None => return None,
    };
    let hashes = extract_bridge_hashes(baseline);
    let blocked = find_blocked(&hashes, default_padding_bytes);
    let report = build_report(now_text.as_str(), hashes.len(), &blocked);
    let found = blocked.len();
    let plan = RotationPlan {
        generated_at,
        baseline_hashes_checked: hashes.len(),
        blocked_hashes_found: found,
        rotation_needed: found > 0,
        siam_blocked_database_size: siam_blocked_ja3().len(),
        blocked_details: blocked,
        universal_recommendations: universal_recommendations(),
    };
    Some((plan, report))
}

} // verus!
