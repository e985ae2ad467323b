//! National-network (NIN) shutdown handling: which international and
//! domestic endpoints are probed, how their reachability is read, and
//! recognition of next-generation proxy protocols in a bridge line.
use vstd::prelude::*;
use crate::patterns::{regex_is_match, regex_matches};
use crate::iran_smart_rotation::ascii_lower;
use crate::text::{to_chars, string_of, ascii_lower_char, eq_str};

verus! {

/// International probes: reachable normally, cut during a shutdown.
pub open spec fn intl_probes_spec() -> Seq<(&'static str, u16)> {
    seq![("1.1.1.1", 53u16), ("8.8.8.8", 53u16), ("208.67.222.222", 53u16), ("9.9.9.9", 53u16), ("104.16.0.1", 443u16)]
}

/// International probes, as `(host, port)`.
pub fn intl_probes() -> (t: Vec<(&'static str, u16)>)
    ensures
        t@ == intl_probes_spec(),
{
    let t = vec![("1.1.1.1", 53u16), ("8.8.8.8", 53u16), ("208.67.222.222", 53u16), ("9.9.9.9", 53u16), ("104.16.0.1", 443u16)];
    assert(t@ =~= intl_probes_spec());
    t
}

/// Domestic probes, which may survive a shutdown.
pub fn local_probes() -> (t: Vec<(&'static str, u16)>)
    ensures
        t@ == seq![("4.2.2.4", 53u16), ("185.51.200.2", 53u16)],
{
    let t = vec![("4.2.2.4", 53u16), ("185.51.200.2", 53u16)];
    assert(t@ =~= seq![("4.2.2.4", 53u16), ("185.51.200.2", 53u16)]);
    t
}

/// `(international_ok, nin_likely_active)` from the international probe
/// results: reachable when one probe connected, a shutdown likely otherwise.
pub fn nin_status_from(intl_results: &Vec<bool>) -> (r: (bool, bool))
    ensures
        r.0 == (exists|i: int| 0 <= i < intl_results@.len() && intl_results@[i]),
        r.1 == !r.0,
{
    let mut i: usize = 0;
    while i < intl_results.len()
        invariant
            i <= intl_results.len(),
            forall|j: int| 0 <= j < i ==> !intl_results@[j],
        decreases intl_results.len() - i,
    {
        if intl_results[i] {
            return (true, false);
        }
        i += 1;
    }
    (false, true)
}

/// Next-generation protocols and the pattern that marks each, in the
/// order they are tried.
pub open spec fn nextgen_spec() -> Seq<(&'static str, &'static str)> {
    seq![
        ("hysteria2", "hysteria2://"),
        ("hysteria", "hysteria://"),
        ("reality", "reality"),
        ("vless", "vless://"),
        ("vmess", "vmess://"),
        ("trojan", "trojan://"),
        ("shadowsocks", "ss://"),
    ]
}

/// Next-generation protocols and their patterns.
pub fn nextgen_patterns() -> (t: Vec<(&'static str, &'static str)>)
    ensures
        t@ == nextgen_spec(),
{
    let t = vec![
        ("hysteria2", "hysteria2://"),
        ("hysteria", "hysteria://"),
        ("reality", "reality"),
        ("vless", "vless://"),
        ("vmess", "vmess://"),
        ("trojan", "trojan://"),
        ("shadowsocks", "ss://"),
    ];
    assert(t@ =~= nextgen_spec());
    t
}

/// The first protocol of `table` whose pattern matches `lower`.
pub open spec fn first_nextgen(table: Seq<(&'static str, &'static str)>, lower: Seq<char>) -> Option<Seq<char>>
    decreases table.len(),
{
    if table.len() == 0 {
        None
    } else if regex_matches(table[0].1@, lower) {
        Some(table[0].0@)
    } else {
        first_nextgen(table.drop_first(), lower)
    }
}

/// The next-generation protocol a bridge line uses, judged on its ASCII
/// lower-cased text; `None` for an ordinary Tor bridge.
pub fn detect_nextgen(bridge_line: &str) -> (r: Option<&'static str>)
    ensures
        match r {
            Some(p) => first_nextgen(nextgen_spec(), ascii_lower(bridge_line@)) == Some(p@),
            None => first_nextgen(nextgen_spec(), ascii_lower(bridge_line@)) is None,
        },
{
    let v = to_chars(bridge_line);
    let mut lower: Vec<char> = Vec::new();
    let mut k: usize = 0;
    while k < v.len()
        invariant
            k <= v.len(),
            lower@ == ascii_lower(v@.take(k as int)),
        decreases v.len() - k,
    {
        let c = v[k];
        let l = if 'A' <= c && c <= 'Z' { ((c as u32) + 32) as u8 as char } else { c };
        assert(l == ascii_lower_char(c)) by {
            if 'A' <= c && c <= 'Z' {
                assert(((c as u32) + 32) as u8 as char == ((c as u32) + 32) as char);
            }
        }
        lower.push(l);
        assert(ascii_lower(v@.take(k + 1)) =~= ascii_lower(v@.take(k as int)).push(l));
        k += 1;
    }
    assert(v@.take(v.len() as int) =~= v@);
    let text = string_of(&lower);
    let table = nextgen_patterns();
    let mut i: usize = 0;
    assert(table@.skip(0) =~= table@);
    while i < table.len()
        invariant
            i <= table.len(),
            table@ == nextgen_spec(),
            text@ == ascii_lower(bridge_line@),
            first_nextgen(table@, text@) == first_nextgen(table@.skip(i as int), text@),
        decreases table.len() - i,
    {
        assert(table@.skip(i as int).drop_first() =~= table@.skip(i + 1));
        assert(table@.skip(i as int)[0] == table@[i as int]);
        let (proto, pattern) = table[i];
        match regex_is_match(pattern, text.as_str()) {
            Some(true) => {
                return Some(proto);
            },
            _ => {},
        }
        i += 1;
    }
    None
}


/// Survivability weight (per mille) of a transport during a shutdown.
pub open spec fn transport_weight_spec(t: Seq<char>) -> u32 {
    if t == "snowflake"@ {
        1000
    } else if t == "webtunnel"@ {
        950
    } else if t == "meek_lite"@ {
        900
    } else if t == "obfs4"@ {
        400
    } else if t == "vanilla"@ {
        100
    } else {
        300
    }
}

/// CDN networks that may stay reachable during a shutdown: ASN, operator
/// and survivability weight (per mille).
pub open spec fn cdn_asns_spec() -> Seq<(&'static str, &'static str, u32)> {
    seq![
        ("AS13335", "Cloudflare", 1000u32),
        ("AS54113", "Fastly", 900u32),
        ("AS16509", "AWS CloudFront", 850u32),
        ("AS8075", "Microsoft Azure", 800u32),
        ("AS15169", "Google GCP", 750u32),
        ("AS20940", "Akamai", 800u32),
        ("AS200000", "ArvanCloud IR", 950u32),
        ("AS202468", "ArvanCloud Global", 700u32),
    ]
}

/// The CDN networks with their weights.
pub fn cdn_asns() -> (t: Vec<(&'static str, &'static str, u32)>)
    ensures
        t@ == cdn_asns_spec(),
{
    let t = vec![
        ("AS13335", "Cloudflare", 1000u32),
        ("AS54113", "Fastly", 900u32),
        ("AS16509", "AWS CloudFront", 850u32),
        ("AS8075", "Microsoft Azure", 800u32),
        ("AS15169", "Google GCP", 750u32),
        ("AS20940", "Akamai", 800u32),
        ("AS200000", "ArvanCloud IR", 950u32),
        ("AS202468", "ArvanCloud Global", 700u32),
    ];
    assert(t@ =~= cdn_asns_spec());
    t
}

/// Ports that survive best, with their weights (per mille).
pub open spec fn preferred_ports_spec() -> Seq<(u16, u32)> {
    seq![(443u16, 1000u32), (2053u16, 950u32), (2083u16, 900u32), (2087u16, 900u32), (8443u16, 800u32), (80u16, 500u32)]
}

/// The preferred ports with their weights.
pub fn preferred_ports() -> (t: Vec<(u16, u32)>)
    ensures
        t@ == preferred_ports_spec(),
{
    let t = vec![(443u16, 1000u32), (2053u16, 950u32), (2083u16, 900u32), (2087u16, 900u32), (8443u16, 800u32), (80u16, 500u32)];
    assert(t@ =~= preferred_ports_spec());
    t
}

/// The weight of the first entry of `table` for the CDN network `asn` (0
/// when it is not one).
pub open spec fn asn_weight_in(table: Seq<(&'static str, &'static str, u32)>, asn: Seq<char>) -> u32
    decreases table.len(),
{
    if table.len() == 0 {
        0
    } else if table[0].0@ == asn {
        table[0].2
    } else {
        asn_weight_in(table.drop_first(), asn)
    }
}

/// The weight of the CDN network `asn` (0 when it is not one).
pub open spec fn asn_weight_spec(asn: Seq<char>) -> u32 {
    asn_weight_in(cdn_asns_spec(), asn)
}

/// The weight of the first entry of `table` for `port` (0 when none).
pub open spec fn port_weight_in(table: Seq<(u16, u32)>, port: u16) -> u32
    decreases table.len(),
{
    if table.len() == 0 {
        0
    } else if table[0].0 == port {
        table[0].1
    } else {
        port_weight_in(table.drop_first(), port)
    }
}

/// The weight of `port` (0 when it is not a preferred one).
pub open spec fn port_weight_spec(port: u16) -> u32 {
    port_weight_in(preferred_ports_spec(), port)
}

/// The weights (per mille) that a bridge's shutdown survivability is built
/// from: its transport, its CDN network and its port. The score is
/// `0.50 * transport + 0.30 * composite + 0.30 * asn + 0.20 * port`, capped
/// at 1.
#[derive(Debug, Clone, Copy, PartialEq, Eq)]
pub struct NinWeights {
    pub transport_permille: u32,
    pub asn_permille: u32,
    pub port_permille: u32,
}

/// The survivability weights of a bridge record's transport, ASN and port.
pub fn nin_weights(transport: &str, asn: &str, port: u16) -> (w: NinWeights)
    ensures
        w.transport_permille == transport_weight_spec(transport@),
        w.asn_permille == asn_weight_spec(asn@),
        w.port_permille == port_weight_spec(port),
{
    let tv = to_chars(transport);
    let transport_permille: u32 = if eq_str(&tv, "snowflake") {
        1000
    } else if eq_str(&tv, "webtunnel") {
        950
    } else if eq_str(&tv, "meek_lite") {
        900
    } else if eq_str(&tv, "obfs4") {
        400
    } else if eq_str(&tv, "vanilla") {
        100
    } else {
        300
    };
    let av = to_chars(asn);
    let asns = cdn_asns();
    let mut asn_permille: u32 = 0;
    let mut i: usize = 0;
    assert(asns@.skip(0) =~= asns@);
    while i < asns.len()
        invariant_except_break
            asn_permille == 0,
        invariant
            i <= asns.len(),
            asns@ == cdn_asns_spec(),
            av@ == asn@,
            asn_weight_spec(asn@) == asn_weight_in(asns@.skip(i as int), asn@),
        ensures
            asn_permille == asn_weight_spec(asn@),
        decreases asns.len() - i,
    {
        assert(asns@.skip(i as int).drop_first() =~= asns@.skip(i + 1));
        assert(asns@.skip(i as int)[0] == asns@[i as int]);
        if eq_str(&av, asns[i].0) {
            asn_permille = asns[i].2;
            break;
        }
        i += 1;
    }
    let ports = preferred_ports();
    let mut port_permille: u32 = 0;
    let mut k: usize = 0;
    assert(ports@.skip(0) =~= ports@);
    while k < ports.len()
        invariant_except_break
            port_permille == 0,
        invariant
            k <= ports.len(),
            ports@ == preferred_ports_spec(),
            port_weight_spec(port) == port_weight_in(ports@.skip(k as int), port),
        ensures
            port_permille == port_weight_spec(port),
        decreases ports.len() - k,
    {
        assert(ports@.skip(k as int).drop_first() =~= ports@.skip(k + 1));
        assert(ports@.skip(k as int)[0] == ports@[k as int]);
        if ports[k].0 == port {
            port_permille = ports[k].1;
            break;
        }
        k += 1;
    }
    NinWeights { transport_permille, asn_permille, port_permille }
}

/// `a` ranks before `b`: a higher score, or an equal score and an earlier
/// position.
pub open spec fn ranks_before(scores: Seq<u64>, a: usize, b: usize) -> bool {
    scores[a as int] > scores[b as int] || (scores[a as int] == scores[b as int] && a < b)
}

/// The positions of `scores` from the highest score down, equal scores in
/// their original order.
pub fn rank_by_score(scores: &Vec<u64>) -> (order: Vec<usize>)
    ensures
        order@.len() == scores@.len(),
        forall|k: int| 0 <= k < order@.len() ==> order@[k] < scores@.len(),
        forall|k: int, l: int| 0 <= k < l < order@.len() ==> ranks_before(scores@, #[trigger] order@[k], #[trigger] order@[l]),
        forall|j: usize| j < scores@.len() ==> order@.contains(j),
{
    let mut out: Vec<usize> = Vec::new();
    let mut i: usize = 0;
    while i < scores.len()
        invariant
            i <= scores.len(),
            out@.len() == i,
            forall|k: int| 0 <= k < out@.len() ==> out@[k] < i,
            forall|k: int, l: int| 0 <= k < l < out@.len() ==> ranks_before(scores@, #[trigger] out@[k], #[trigger] out@[l]),
            forall|j: usize| j < i ==> out@.contains(j),
        decreases scores.len() - i,
    {
        let s = scores[i];
        let mut p: usize = 0;
        while p < out.len() && scores[out[p]] >= s
            invariant
                p <= out@.len(),
                i < scores@.len(),
                s == scores@[i as int],
                forall|k: int| 0 <= k < out@.len() ==> out@[k] < i,
                forall|k: int| 0 <= k < p ==> scores@[#[trigger] out@[k] as int] >= s,
            decreases out@.len() - p,
        {
            p += 1;
        }
        let ghost old_out = out@;
        proof {
            if p < old_out.len() {
                assert forall|k: int| p <= k < old_out.len() implies scores@[#[trigger] old_out[k] as int] < s by {
                    if k > p {
                        assert(ranks_before(scores@, old_out[p as int], old_out[k]));
                    }
                }
            }
        }
        out.insert(p, i);
        proof {
            let no = out@;
            assert(no =~= old_out.insert(p as int, i));
            assert forall|k: int, l: int| 0 <= k < l < no.len() implies ranks_before(scores@, #[trigger] no[k], #[trigger] no[l]) by {
                if l < p {
                    assert(no[k] == old_out[k] && no[l] == old_out[l]);
                } else if l == p {
                    assert(no[k] == old_out[k]);
                } else if k < p {
                    assert(no[k] == old_out[k] && no[l] == old_out[l - 1]);
                } else if k == p {
                    assert(no[l] == old_out[l - 1]);
                } else {
                    assert(no[k] == old_out[k - 1] && no[l] == old_out[l - 1]);
                }
            }
            assert forall|j: usize| j < i + 1 implies no.contains(j) by {
                if j == i {
                    assert(no[p as int] == i);
                } else {
                    assert(old_out.contains(j));
                    let w = choose|w: int| 0 <= w < old_out.len() && old_out[w] == j;
                    if w < p {
                        assert(no[w] == j);
                    } else {
                        assert(no[w + 1] == j);
                    }
                }
            }
        }
        i += 1;
    }
    out
}

/// Lines of a shutdown emergency pack, taken in rank order: those whose
/// score (in thousandths) is at least 700 and whose line is not empty.
pub open spec fn pack_candidates(ranked: Seq<(String, u32)>) -> Seq<Seq<char>>
    decreases ranked.len(),
{
    if ranked.len() == 0 {
        Seq::empty()
    } else {
        let rest = pack_candidates(ranked.drop_last());
        if ranked.last().1 >= 700 && ranked.last().0@.len() > 0 {
            rest.push(ranked.last().0@)
        } else {
            rest
        }
    }
}

/// Largest emergency pack.
pub const NIN_PACK_LIMIT: usize = 50;

/// The emergency pack of bridge records given in rank order (line, score in
/// thousandths): the first fifty lines that qualify.
pub fn nin_pack(ranked: &Vec<(String, u32)>) -> (pack: Vec<String>)
    ensures
        pack@.len() == if pack_candidates(ranked@).len() < 50 { pack_candidates(ranked@).len() } else { 50 },
        forall|k: int| 0 <= k < pack@.len() ==> #[trigger] pack@[k]@ == pack_candidates(ranked@)[k],
{
    let mut out: Vec<String> = Vec::new();
    let mut i: usize = 0;
    while i < ranked.len() && out.len() < NIN_PACK_LIMIT
        invariant
            i <= ranked.len(),
            out@.len() <= 50,
            out@.len() == pack_candidates(ranked@.take(i as int)).len(),
            forall|k: int| 0 <= k < out@.len() ==> #[trigger] out@[k]@ == pack_candidates(ranked@.take(i as int))[k],
        decreases ranked.len() - i,
    {
        proof {
            lemma_pack_candidates_prefix(ranked@, i as int);
        }
        let (line, score) = (&ranked[i].0, ranked[i].1);
        if score >= 700 && line.as_str().unicode_len() > 0 {
            out.push(String::from_str(line.as_str()));
        }
        i += 1;
    }
    proof {
        if i == ranked.len() {
            assert(ranked@.take(i as int) =~= ranked@);
        } else {
            lemma_pack_candidates_extends(ranked@, i as int);
        }
    }
    out
}

proof fn lemma_pack_candidates_prefix(s: Seq<(String, u32)>, i: int)
    requires
        0 <= i < s.len(),
    ensures
        pack_candidates(s.take(i + 1)) == if s[i].1 >= 700 && s[i].0@.len() > 0 {
            pack_candidates(s.take(i)).push(s[i].0@)
        } else {
            pack_candidates(s.take(i))
        },
{
    assert(s.take(i + 1).drop_last() =~= s.take(i));
    assert(s.take(i + 1).last() == s[i]);
}

proof fn lemma_pack_candidates_extends(s: Seq<(String, u32)>, i: int)
    requires
        0 <= i <= s.len(),
    ensures
        pack_candidates(s.take(i)).len() <= pack_candidates(s).len(),
        forall|k: int| 0 <= k < pack_candidates(s.take(i)).len() ==> #[trigger] pack_candidates(s.take(i))[k] == pack_candidates(s)[k],
    decreases s.len() - i,
{
    if i < s.len() {
        lemma_pack_candidates_prefix(s, i);
        lemma_pack_candidates_extends(s, i + 1);
        assert forall|k: int| 0 <= k < pack_candidates(s.take(i)).len() implies #[trigger] pack_candidates(s.take(i))[k]
            == pack_candidates(s)[k] by {
            assert(pack_candidates(s.take(i))[k] == pack_candidates(s.take(i + 1))[k]);
        }
    } else {
        assert(s.take(i) =~= s);
    }
}

} // verus!
