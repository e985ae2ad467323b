//! Rejection of bridge lines whose endpoint is a documentation, private,
//! loopback, multicast or otherwise reserved address, with per-range
//! rejection counters.
use vstd::prelude::*;
use crate::text::{trim, starts_with, first_occurrence, ws_tokens, to_chars, trim_chars, starts_with_str,
    split_whitespace, slice_range, find, chars_eq};
use crate::netaddr::{ipv4_spec, ipv6_spec, u16_spec, parse_ipv4, parse_ipv6, parse_u16};

verus! {

/// An IP address by its bits.
#[derive(Debug, Clone, Copy, PartialEq, Eq, Structural)]
pub enum IpAddr {
    V4(u32),
    V6(u128),
}

impl IpAddr {
    /// The IPv4 address `a.b.c.d`.
    pub fn v4(a: u8, b: u8, c: u8, d: u8) -> (ip: IpAddr)
        ensures
            ip == IpAddr::V4((((a as nat * 256 + b) * 256 + c) * 256 + d) as u32),
    {
        IpAddr::V4(((a as u32 * 256 + b as u32) * 256 + c as u32) * 256 + d as u32)
    }
}

/// A reserved IPv4 range.
#[derive(Debug, Clone, Copy, PartialEq, Eq)]
pub struct ReservedCidrV4 {
    pub network: u32,
    pub prefix: u8,
    pub label: &'static str,
}

/// A reserved IPv6 range.
#[derive(Debug, Clone, Copy, PartialEq, Eq)]
pub struct ReservedCidrV6 {
    pub network: u128,
    pub prefix: u8,
    pub label: &'static str,
}

/// Netmask of an IPv4 prefix length.
pub open spec fn mask_v4_spec(prefix: u8) -> u32 {
    if prefix == 0 {
        0
    } else if prefix >= 32 {
        0xffff_ffff
    } else {
        (0xffff_ffffu32 << ((32 - prefix) as u32)) as u32
    }
}

/// Netmask of an IPv6 prefix length.
pub open spec fn mask_v6_spec(prefix: u8) -> u128 {
    if prefix == 0 {
        0
    } else if prefix >= 128 {
        0xffff_ffff_ffff_ffff_ffff_ffff_ffff_ffff
    } else {
        (0xffff_ffff_ffff_ffff_ffff_ffff_ffff_ffffu128 << ((128 - prefix) as u128)) as u128
    }
}

/// Netmask of an IPv4 prefix length.
pub fn mask_v4(prefix: u8) -> (m: u32)
    ensures
        m == mask_v4_spec(prefix),
{
    if prefix == 0 {
        0
    } else if prefix >= 32 {
        u32::MAX
    } else {
        u32::MAX << (32 - prefix as u32)
    }
}

/// Netmask of an IPv6 prefix length.
pub fn mask_v6(prefix: u8) -> (m: u128)
    ensures
        m == mask_v6_spec(prefix),
{
    if prefix == 0 {
        0
    } else if prefix >= 128 {
        u128::MAX
    } else {
        u128::MAX << (128 - prefix as u128)
    }
}

/// The reserved IPv4 ranges, in lookup order: `(network, prefix, label)`.
pub open spec fn v4_table() -> Seq<(u32, u8, Seq<char>)> {
    seq![
        (0x0000_0000u32, 8u8, "CURRENT_NETWORK_RFC1122"@),
        (0x0a00_0000u32, 8u8, "PRIVATE_RFC1918_10"@),
        (0x6440_0000u32, 10u8, "CGNAT_RFC6598"@),
        (0x7f00_0000u32, 8u8, "LOOPBACK_RFC1122"@),
        (0xa9fe_0000u32, 16u8, "LINK_LOCAL_RFC3927"@),
        (0xac10_0000u32, 12u8, "PRIVATE_RFC1918_172"@),
        (0xc000_0000u32, 24u8, "IETF_PROTOCOL_RFC6890"@),
        (0xc000_0200u32, 24u8, "TEST_NET_1_RFC5737"@),
        (0xc058_6300u32, 24u8, "IPV6_TO_IPV4_RELAY_RFC3068"@),
        (0xc0a8_0000u32, 16u8, "PRIVATE_RFC1918_192"@),
        (0xc612_0000u32, 15u8, "BENCHMARKING_RFC2544"@),
        (0xc633_6400u32, 24u8, "TEST_NET_2_RFC5737"@),
        (0xcb00_7100u32, 24u8, "TEST_NET_3_RFC5737"@),
        (0xe000_0000u32, 4u8, "MULTICAST_RFC5771"@),
        (0xf000_0000u32, 4u8, "RESERVED_RFC1112"@),
        (0xffff_ffffu32, 32u8, "LIMITED_BROADCAST_RFC919"@),
    ]
}

/// The reserved IPv6 ranges, in lookup order: `(network, prefix, label)`.
pub open spec fn v6_table() -> Seq<(u128, u8, Seq<char>)> {
    seq![
        (0u128, 128u8, "UNSPECIFIED"@),
        (1u128, 128u8, "LOOPBACK_V6"@),
        (0x0000_0000_0000_0000_0000_ffff_0000_0000u128, 96u8, "IPV4_MAPPED_RFC4291"@),
        (0x0064_ff9b_0000_0000_0000_0000_0000_0000u128, 96u8, "IPV4_IPV6_TRANSLATION_RFC6052"@),
        (0x0100_0000_0000_0000_0000_0000_0000_0000u128, 64u8, "DISCARD_ONLY_RFC6666"@),
        (0x2001_0000_0000_0000_0000_0000_0000_0000u128, 32u8, "TEREDO_RFC4380"@),
        (0x2001_0002_0000_0000_0000_0000_0000_0000u128, 48u8, "BENCHMARKING_V6_RFC5180"@),
        (0x2001_0db8_0000_0000_0000_0000_0000_0000u128, 32u8, "DOCUMENTATION_RFC3849_2001_DB8"@),
        (0x2001_0010_0000_0000_0000_0000_0000_0000u128, 28u8, "DEPRECATED_ORCHID_RFC4843"@),
        (0x2002_0000_0000_0000_0000_0000_0000_0000u128, 16u8, "SIX_TO_FOUR_RFC3056"@),
        (0xfc00_0000_0000_0000_0000_0000_0000_0000u128, 7u8, "UNIQUE_LOCAL_RFC4193"@),
        (0xfe80_0000_0000_0000_0000_0000_0000_0000u128, 10u8, "LINK_LOCAL_V6_RFC4291"@),
        (0xff00_0000_0000_0000_0000_0000_0000_0000u128, 8u8, "MULTICAST_V6_RFC4291"@),
    ]
}

pub open spec fn v4_entry_spec(e: ReservedCidrV4) -> (u32, u8, Seq<char>) {
    (e.network, e.prefix, e.label@)
}

pub open spec fn v6_entry_spec(e: ReservedCidrV6) -> (u128, u8, Seq<char>) {
    (e.network, e.prefix, e.label@)
}

/// The reserved IPv4 ranges, in lookup order.
pub fn reserved_cidr_v4() -> (t: Vec<ReservedCidrV4>)
    ensures
        t@.map_values(|e: ReservedCidrV4| v4_entry_spec(e)) == v4_table(),
{
    let t = vec![
        ReservedCidrV4 { network: 0x0000_0000, prefix: 8, label: "CURRENT_NETWORK_RFC1122" },
        ReservedCidrV4 { network: 0x0a00_0000, prefix: 8, label: "PRIVATE_RFC1918_10" },
        ReservedCidrV4 { network: 0x6440_0000, prefix: 10, label: "CGNAT_RFC6598" },
        ReservedCidrV4 { network: 0x7f00_0000, prefix: 8, label: "LOOPBACK_RFC1122" },
        ReservedCidrV4 { network: 0xa9fe_0000, prefix: 16, label: "LINK_LOCAL_RFC3927" },
        ReservedCidrV4 { network: 0xac10_0000, prefix: 12, label: "PRIVATE_RFC1918_172" },
        ReservedCidrV4 { network: 0xc000_0000, prefix: 24, label: "IETF_PROTOCOL_RFC6890" },
        ReservedCidrV4 { network: 0xc000_0200, prefix: 24, label: "TEST_NET_1_RFC5737" },
        ReservedCidrV4 { network: 0xc058_6300, prefix: 24, label: "IPV6_TO_IPV4_RELAY_RFC3068" },
        ReservedCidrV4 { network: 0xc0a8_0000, prefix: 16, label: "PRIVATE_RFC1918_192" },
        ReservedCidrV4 { network: 0xc612_0000, prefix: 15, label: "BENCHMARKING_RFC2544" },
        ReservedCidrV4 { network: 0xc633_6400, prefix: 24, label: "TEST_NET_2_RFC5737" },
        ReservedCidrV4 { network: 0xcb00_7100, prefix: 24, label: "TEST_NET_3_RFC5737" },
        ReservedCidrV4 { network: 0xe000_0000, prefix: 4, label: "MULTICAST_RFC5771" },
        ReservedCidrV4 { network: 0xf000_0000, prefix: 4, label: "RESERVED_RFC1112" },
        ReservedCidrV4 { network: 0xffff_ffff, prefix: 32, label: "LIMITED_BROADCAST_RFC919" },
    ];
    assert(t@.map_values(|e: ReservedCidrV4| v4_entry_spec(e)) =~= v4_table());
    t
}

/// The reserved IPv6 ranges, in lookup order.
pub fn reserved_cidr_v6() -> (t: Vec<ReservedCidrV6>)
    ensures
        t@.map_values(|e: ReservedCidrV6| v6_entry_spec(e)) == v6_table(),
{
    let t = vec![
        ReservedCidrV6 { network: 0, prefix: 128, label: "UNSPECIFIED" },
        ReservedCidrV6 { network: 1, prefix: 128, label: "LOOPBACK_V6" },
        ReservedCidrV6 { network: 0x0000_0000_0000_0000_0000_ffff_0000_0000, prefix: 96, label: "IPV4_MAPPED_RFC4291" },
        ReservedCidrV6 { network: 0x0064_ff9b_0000_0000_0000_0000_0000_0000, prefix: 96, label: "IPV4_IPV6_TRANSLATION_RFC6052" },
        ReservedCidrV6 { network: 0x0100_0000_0000_0000_0000_0000_0000_0000, prefix: 64, label: "DISCARD_ONLY_RFC6666" },
        ReservedCidrV6 { network: 0x2001_0000_0000_0000_0000_0000_0000_0000, prefix: 32, label: "TEREDO_RFC4380" },
        ReservedCidrV6 { network: 0x2001_0002_0000_0000_0000_0000_0000_0000, prefix: 48, label: "BENCHMARKING_V6_RFC5180" },
        ReservedCidrV6 { network: 0x2001_0db8_0000_0000_0000_0000_0000_0000, prefix: 32, label: "DOCUMENTATION_RFC3849_2001_DB8" },
        ReservedCidrV6 { network: 0x2001_0010_0000_0000_0000_0000_0000_0000, prefix: 28, label: "DEPRECATED_ORCHID_RFC4843" },
        ReservedCidrV6 { network: 0x2002_0000_0000_0000_0000_0000_0000_0000, prefix: 16, label: "SIX_TO_FOUR_RFC3056" },
        ReservedCidrV6 { network: 0xfc00_0000_0000_0000_0000_0000_0000_0000, prefix: 7, label: "UNIQUE_LOCAL_RFC4193" },
        ReservedCidrV6 { network: 0xfe80_0000_0000_0000_0000_0000_0000_0000, prefix: 10, label: "LINK_LOCAL_V6_RFC4291" },
        ReservedCidrV6 { network: 0xff00_0000_0000_0000_0000_0000_0000_0000, prefix: 8, label: "MULTICAST_V6_RFC4291" },
    ];
    assert(t@.map_values(|e: ReservedCidrV6| v6_entry_spec(e)) =~= v6_table());
    t
}

/// Label of the first range of `table` holding `bits`.
pub open spec fn first_v4_match(table: Seq<(u32, u8, Seq<char>)>, bits: u32) -> Option<Seq<char>>
    decreases table.len(),
{
    if table.len() == 0 {
        None
    } else if bits & mask_v4_spec(table[0].1) == table[0].0 {
        Some(table[0].2)
    } else {
        first_v4_match(table.drop_first(), bits)
    }
}

/// Label of the first range of `table` holding `bits`.
pub open spec fn first_v6_match(table: Seq<(u128, u8, Seq<char>)>, bits: u128) -> Option<Seq<char>>
    decreases table.len(),
{
    if table.len() == 0 {
        None
    } else if bits & mask_v6_spec(table[0].1) == table[0].0 {
        Some(table[0].2)
    } else {
        first_v6_match(table.drop_first(), bits)
    }
}

/// Whether `bits` is an IPv4-mapped IPv6 address (`::ffff:a.b.c.d`).
pub open spec fn is_v4_mapped(bits: u128) -> bool {
    bits >> 32u128 == 0xffffu128
}

/// The label of the reserved range holding `ip`, if any. An IPv4-mapped
/// IPv6 address is reserved (as `IPV4_MAPPED_RFC4291`) exactly when the
/// IPv4 address it carries is.
pub open spec fn check_ip_spec(ip: IpAddr) -> Option<Seq<char>> {
    match ip {
        IpAddr::V4(bits) => first_v4_match(v4_table(), bits),
        IpAddr::V6(bits) => if is_v4_mapped(bits) {
            if first_v4_match(v4_table(), (bits & 0xffff_ffffu128) as u32) is Some {
                Some("IPV4_MAPPED_RFC4291"@)
            } else {
                None
            }
        } else {
            first_v6_match(v6_table(), bits)
        },
    }
}

fn check_v4(bits: u32) -> (r: Option<&'static str>)
    ensures
        match r {
            Some(l) => first_v4_match(v4_table(), bits) == Some(l@),
            None => first_v4_match(v4_table(), bits) is None,
        },
{
    let t = reserved_cidr_v4();
    let ghost ts = t@.map_values(|e: ReservedCidrV4| v4_entry_spec(e));
    let mut k: usize = 0;
    assert(ts.skip(0) =~= ts);
    while k < t.len()
        invariant
            k <= t.len(),
            ts == t@.map_values(|e: ReservedCidrV4| v4_entry_spec(e)),
            ts == v4_table(),
            first_v4_match(ts, bits) == first_v4_match(ts.skip(k as int), bits),
        decreases t.len() - k,
    {
        assert(ts.skip(k as int).drop_first() =~= ts.skip(k + 1));
        assert(ts.skip(k as int)[0] == v4_entry_spec(t@[k as int]));
        if bits & mask_v4(t[k].prefix) == t[k].network {
            assert(first_v4_match(ts.skip(k as int), bits) == Some(t@[k as int].label@));
            return Some(t[k].label);
        }
        k += 1;
    }
    None
}

fn check_v6_table(bits: u128) -> (r: Option<&'static str>)
    ensures
        match r {
            Some(l) => first_v6_match(v6_table(), bits) == Some(l@),
            None => first_v6_match(v6_table(), bits) is None,
        },
{
    let t = reserved_cidr_v6();
    let ghost ts = t@.map_values(|e: ReservedCidrV6| v6_entry_spec(e));
    let mut k: usize = 0;
    assert(ts.skip(0) =~= ts);
    while k < t.len()
        invariant
            k <= t.len(),
            ts == t@.map_values(|e: ReservedCidrV6| v6_entry_spec(e)),
            ts == v6_table(),
            first_v6_match(ts, bits) == first_v6_match(ts.skip(k as int), bits),
        decreases t.len() - k,
    {
        assert(ts.skip(k as int).drop_first() =~= ts.skip(k + 1));
        assert(ts.skip(k as int)[0] == v6_entry_spec(t@[k as int]));
        if bits & mask_v6(t[k].prefix) == t[k].network {
            assert(first_v6_match(ts.skip(k as int), bits) == Some(t@[k as int].label@));
            return Some(t[k].label);
        }
        k += 1;
    }
    None
}

/// The label of the reserved range holding `ip` (first in table order), if
/// any; see [`check_ip_spec`] for IPv4-mapped addresses.
pub fn check_ip(ip: IpAddr) -> (r: Option<&'static str>)
    ensures
        match r {
            Some(l) => check_ip_spec(ip) == Some(l@),
            None => check_ip_spec(ip) is None,
        },
{
    match ip {
        IpAddr::V4(bits) => check_v4(bits),
        IpAddr::V6(bits) => {
            if bits >> 32u128 == 0xffffu128 {
                if check_v4((bits & 0xffff_ffffu128) as u32).is_some() {
                    Some("IPV4_MAPPED_RFC4291")
                } else {
                    None
                }
            } else {
                check_v6_table(bits)
            }
        },
    }
}

/// Whether `ip` lies in a documentation or otherwise reserved range.
pub fn is_documentation_or_reserved_ip(ip: IpAddr) -> (b: bool)
    ensures
        b == check_ip_spec(ip) is Some,
{
    check_ip(ip).is_some()
}

/// Whether the IPv4 address with bits `bits` is reserved.
pub fn is_documentation_or_reserved_ipv4(bits: u32) -> (b: bool)
    ensures
        b == first_v4_match(v4_table(), bits) is Some,
{
    check_ip(IpAddr::V4(bits)).is_some()
}

/// Whether the IPv6 address with bits `bits` is reserved.
pub fn is_documentation_or_reserved_ipv6(bits: u128) -> (b: bool)
    ensures
        b == check_ip_spec(IpAddr::V6(bits)) is Some,
{
    check_ip(IpAddr::V6(bits)).is_some()
}

// ───────────────────────────── bridge-line endpoints ─────────────────────────────

/// Characters stripped from the ends of a token: `,` `;` `"`.
pub open spec fn is_punct(c: char) -> bool {
    c == ',' || c == ';' || c == '"'
}

pub open spec fn strip_punct_start(s: Seq<char>) -> Seq<char>
    decreases s.len(),
{
    if s.len() > 0 && is_punct(s[0]) { strip_punct_start(s.drop_first()) } else { s }
}

pub open spec fn strip_punct_end(s: Seq<char>) -> Seq<char>
    decreases s.len(),
{
    if s.len() > 0 && is_punct(s.last()) { strip_punct_end(s.drop_last()) } else { s }
}

/// `s.trim_matches(|c| matches!(c, ',' | ';' | '"'))`.
pub open spec fn trim_punct(s: Seq<char>) -> Seq<char> {
    strip_punct_end(strip_punct_start(s))
}

pub open spec fn has_char(s: Seq<char>, c: char) -> bool {
    exists|i: int| 0 <= i < s.len() && s[i] == c
}

/// Index of the last `c` in `s`.
pub open spec fn last_index_of(s: Seq<char>, c: char) -> Option<int> {
    if has_char(s, c) {
        Some(choose|i: int| 0 <= i < s.len() && s[i] == c && forall|j: int| i < j < s.len() ==> s[j] != c)
    } else {
        None
    }
}

/// A bracketed token `[ipv6]:port` (without its `[`): the address, when
/// the text before the first `]:` is an IPv6 address.
pub open spec fn bracket_endpoint(rest: Seq<char>) -> Option<IpAddr> {
    match first_occurrence(rest, "]:"@) {
        Some(i) => match ipv6_spec(rest.take(i)) {
            Some(v) => Some(IpAddr::V6(v as u128)),
            None => None,
        },
        None => None,
    }
}

/// A token `host:port` split at its last `:`: the address, when the host
/// is a non-empty IPv4 address and the port a non-zero `u16`.
pub open spec fn host_port_endpoint(tok: Seq<char>) -> Option<IpAddr> {
    match last_index_of(tok, ':') {
        Some(i) => {
            let host = tok.take(i);
            let port = tok.skip(i + 1);
            if host.len() > 0 && !has_char(host, ':') && (match u16_spec(port) {
                Some(p) => p != 0,
                None => false,
            }) {
                match ipv4_spec(host) {
                    Some(v) => Some(IpAddr::V4(v as u32)),
                    None => None,
                }
            } else {
                None
            }
        },
        None => None,
    }
}

/// The address a token names as an endpoint: `[ipv6]:port`, or
/// `ipv4:port` with a non-zero port; `None` for any other token.
#[verifier::opaque]
pub open spec fn token_endpoint(tok0: Seq<char>) -> Option<IpAddr> {
    let tok = trim_punct(tok0);
    if tok.len() == 0 || has_char(tok, '=') {
        None
    } else if starts_with(tok, "http://"@) || starts_with(tok, "https://"@) {
        None
    } else if tok[0] == '[' {
        bracket_endpoint(tok.drop_first())
    } else {
        host_port_endpoint(tok)
    }
}

/// The endpoint named by the first token that names one.
pub open spec fn first_endpoint(toks: Seq<Seq<char>>) -> Option<IpAddr>
    decreases toks.len(),
{
    if toks.len() == 0 {
        None
    } else {
        match token_endpoint(toks[0]) {
            Some(ip) => Some(ip),
            None => first_endpoint(toks.drop_first()),
        }
    }
}

/// The tokens of a bridge line (trimmed, without a leading `Bridge `).
pub open spec fn line_tokens(line: Seq<char>) -> Seq<Seq<char>> {
    let t = trim(line);
    ws_tokens(if starts_with(t, "Bridge "@) { t.skip(7) } else { t })
}

/// The reserved range of the first endpoint in a bridge line, if any.
pub open spec fn check_endpoint_spec(line: Seq<char>) -> Option<Seq<char>> {
    match first_endpoint(line_tokens(line)) {
        Some(ip) => check_ip_spec(ip),
        None => None,
    }
}

proof fn lemma_strip_start_step(s: Seq<char>, i: int)
    requires
        0 <= i < s.len(),
        is_punct(s[i]),
    ensures
        strip_punct_start(s.subrange(i, s.len() as int)) == strip_punct_start(s.subrange(i + 1, s.len() as int)),
{
    assert(s.subrange(i, s.len() as int).drop_first() =~= s.subrange(i + 1, s.len() as int));
}

proof fn lemma_strip_end_step(s: Seq<char>, j: int)
    requires
        0 < j <= s.len(),
        is_punct(s[j - 1]),
    ensures
        strip_punct_end(s.subrange(0, j)) == strip_punct_end(s.subrange(0, j - 1)),
{
    assert(s.subrange(0, j).drop_last() =~= s.subrange(0, j - 1));
}

fn is_punct_exec(c: char) -> (b: bool)
    ensures
        b == is_punct(c),
{
    c == ',' || c == ';' || c == '"'
}

fn trim_punct_exec(v: &Vec<char>) -> (r: Vec<char>)
    ensures
        r@ == trim_punct(v@),
{
    let n = v.len();
    let mut lo: usize = 0;
    assert(v@.subrange(0, n as int) =~= v@);
    while lo < n && is_punct_exec(v[lo])
        invariant
            lo <= n == v.len(),
            strip_punct_start(v@) == strip_punct_start(v@.subrange(lo as int, n as int)),
        decreases n - lo,
    {
        proof {
            lemma_strip_start_step(v@, lo as int);
        }
        lo += 1;
    }
    let ghost t = v@.subrange(lo as int, n as int);
    assert(strip_punct_start(v@) == t) by {
        if t.len() > 0 {
            assert(t[0] == v@[lo as int]);
        }
    }
    let mut hi: usize = n;
    assert(t.subrange(0, hi - lo) =~= t);
    while hi > lo && is_punct_exec(v[hi - 1])
        invariant
            lo <= hi <= n == v.len(),
            t == v@.subrange(lo as int, n as int),
            strip_punct_end(t) == strip_punct_end(t.subrange(0, hi - lo)),
        decreases hi,
    {
        proof {
            lemma_strip_end_step(t, (hi - lo) as int);
        }
        hi -= 1;
    }
    let ghost u = t.subrange(0, hi - lo);
    assert(strip_punct_end(t) == u) by {
        if u.len() > 0 {
            assert(u.last() == v@[hi - 1]);
        }
    }
    assert(u =~= v@.subrange(lo as int, hi as int));
    slice_range(v, lo, hi)
}

fn has_char_exec(v: &Vec<char>, c: char) -> (b: bool)
    ensures
        b == has_char(v@, c),
{
    let mut i: usize = 0;
    while i < v.len()
        invariant
            i <= v.len(),
            forall|j: int| 0 <= j < i ==> v@[j] != c,
        decreases v.len() - i,
    {
        if v[i] == c {
            return true;
        }
        i += 1;
    }
    false
}

fn last_index_of_exec(v: &Vec<char>, c: char) -> (r: Option<usize>)
    ensures
        match r {
            Some(i) => last_index_of(v@, c) == Some(i as int) && i < v@.len(),
            None => last_index_of(v@, c) is None,
        },
{
    let mut i: usize = v.len();
    while i > 0
        invariant
            i <= v.len(),
            forall|j: int| i <= j < v@.len() ==> v@[j] != c,
        decreases i,
    {
        if v[i - 1] == c {
            let k = i - 1;
            proof {
                assert(has_char(v@, c)) by {
                    assert(v@[k as int] == c);
                }
                let w = choose|w: int| 0 <= w < v@.len() && v@[w] == c && forall|j: int| w < j < v@.len() ==> v@[j] != c;
                assert(w == k) by {
                    if w < k {
                        assert(v@[k as int] == c);
                    } else if w > k {
                    }
                }
            }
            return Some(k);
        }
        i -= 1;
    }
    None
}

fn bracket_endpoint_exec(rest: &Vec<char>) -> (r: Option<IpAddr>)
    ensures
        r == bracket_endpoint(rest@),
{
    let sep = to_chars("]:");
    match find(rest, &sep) {
        Some(i) => {
            let host = slice_range(rest, 0, i);
            assert(host@ =~= rest@.take(i as int));
            match parse_ipv6(&host) {
                Some(v) => Some(IpAddr::V6(v)),
                None => None,
            }
        },
        None => None,
    }
}

fn host_port_endpoint_exec(tok: &Vec<char>) -> (r: Option<IpAddr>)
    ensures
        r == host_port_endpoint(tok@),
{
    match last_index_of_exec(tok, ':') {
        Some(i) => {
            assert(i < tok.len());
            let host = slice_range(tok, 0, i);
            let port = slice_range(tok, i + 1, tok.len());
            assert(host@ =~= tok@.take(i as int));
            assert(port@ =~= tok@.skip(i + 1));
            let port_ok = match parse_u16(&port) {
                Some(p) => p != 0,
                None => false,
            };
            if host.len() > 0 && !has_char_exec(&host, ':') && port_ok {
                match parse_ipv4(&host) {
                    Some(v) => Some(IpAddr::V4(v)),
                    None => None,
                }
            } else {
                None
            }
        },
        None => None,
    }
}

/// The endpoint a token names, as [`token_endpoint`] defines it.
fn token_endpoint_exec(tok0: &Vec<char>) -> (r: Option<IpAddr>)
    ensures
        r == token_endpoint(tok0@),
{
    reveal(token_endpoint);
    let tok = trim_punct_exec(tok0);
    if tok.len() == 0 || has_char_exec(&tok, '=') {
        return None;
    }
    if starts_with_str(&tok, "http://") || starts_with_str(&tok, "https://") {
        return None;
    }
    if tok[0] == '[' {
        let rest = slice_range(&tok, 1, tok.len());
        assert(rest@ =~= tok@.drop_first());
        return bracket_endpoint_exec(&rest);
    }
    host_port_endpoint_exec(&tok)
}

/// The reserved range of the first endpoint (`ipv4:port` or `[ipv6]:port`)
/// of a bridge line, if that endpoint is reserved; `None` when the first
/// endpoint is routable or the line names none.
pub fn check_endpoint(line: &str) -> (r: Option<&'static str>)
    ensures
        match r {
            Some(l) => check_endpoint_spec(line@) == Some(l@),
            None => check_endpoint_spec(line@) is None,
        },
{
    let v = to_chars(line);
    let t = trim_chars(&v);
    let body = if starts_with_str(&t, "Bridge ") {
        proof {
            reveal_strlit("Bridge ");
        }
        slice_range(&t, 7, t.len())
    } else {
        t
    };
    assert(body@ == if starts_with(trim(line@), "Bridge "@) { trim(line@).skip(7) } else { trim(line@) }) by {
        reveal_strlit("Bridge ");
    }
    let toks = split_whitespace(&body);
    let ghost ts = toks@.map_values(|x: Vec<char>| x@);
    assert(ts == line_tokens(line@));
    let mut k: usize = 0;
    assert(ts.skip(0) =~= ts);
    while k < toks.len()
        invariant
            k <= toks.len(),
            ts == toks@.map_values(|x: Vec<char>| x@),
            ts == line_tokens(line@),
            first_endpoint(ts) == first_endpoint(ts.skip(k as int)),
        decreases toks.len() - k,
    {
        assert(ts.skip(k as int).drop_first() =~= ts.skip(k + 1));
        assert(ts.skip(k as int)[0] == toks@[k as int]@);
        match token_endpoint_exec(&toks[k]) {
            Some(ip) => {
                assert(first_endpoint(ts.skip(k as int)) == Some(ip));
                assert(first_endpoint(line_tokens(line@)) == Some(ip));
                return check_ip(ip);
            },
            None => {},
        }
        k += 1;
    }
    None
}

/// Whether a bridge line's first endpoint lies in a reserved range.
pub fn contains_documentation_or_reserved_endpoint(line: &str) -> (b: bool)
    ensures
        b == check_endpoint_spec(line@) is Some,
{
    check_endpoint(line).is_some()
}


// ───────────────────────────── rejection counters ─────────────────────────────

/// The counter labels: every IPv4 range label, then every IPv6 range label.
pub open spec fn counter_labels() -> Seq<Seq<char>> {
    v4_table().map_values(|e: (u32, u8, Seq<char>)| e.2) + v6_table().map_values(
        |e: (u128, u8, Seq<char>)| e.2,
    )
}

/// `c + 1`, wrapping to 0 past `u64::MAX`.
pub open spec fn wrapping_inc(c: u64) -> u64 {
    if c == u64::MAX {
        0
    } else {
        (c + 1) as u64
    }
}

/// A `(label, count)` entry after one rejection for `reason`.
pub open spec fn bump(e: (Seq<char>, u64), reason: Seq<char>) -> (Seq<char>, u64) {
    if e.0 == reason {
        (e.0, wrapping_inc(e.1))
    } else {
        e
    }
}

/// The entries of `s` whose count is above zero, in order.
pub open spec fn positive_entries(s: Seq<(Seq<char>, u64)>) -> Seq<(Seq<char>, u64)>
    decreases s.len(),
{
    if s.len() == 0 {
        Seq::empty()
    } else if s.last().1 > 0 {
        positive_entries(s.drop_last()).push(s.last())
    } else {
        positive_entries(s.drop_last())
    }
}

/// The count of rejected lines per reserved-range label.
pub struct RejectionCounters {
    counts: Vec<(&'static str, u64)>,
}

pub open spec fn entry_view(e: (&'static str, u64)) -> (Seq<char>, u64) {
    (e.0@, e.1)
}

impl RejectionCounters {
    /// The `(label, count)` entries, in label order.
    pub closed spec fn entries(&self) -> Seq<(Seq<char>, u64)> {
        self.counts@.map_values(|e: (&'static str, u64)| entry_view(e))
    }

    /// A zero count for every reserved-range label.
    pub fn new() -> (c: RejectionCounters)
        ensures
            c.entries() == counter_labels().map_values(|l: Seq<char>| (l, 0u64)),
    {
        let mut counts: Vec<(&'static str, u64)> = Vec::new();
        let t4 = reserved_cidr_v4();
        let ghost l4 = v4_table().map_values(|e: (u32, u8, Seq<char>)| e.2);
        for i in 0..t4.len()
            invariant
                t4@.map_values(|e: ReservedCidrV4| v4_entry_spec(e)) == v4_table(),
                l4 == v4_table().map_values(|e: (u32, u8, Seq<char>)| e.2),
                counts.len() == i,
                forall|j: int| 0 <= j < i ==> #[trigger] entry_view(counts@[j]) == (l4[j], 0u64),
        {
            assert(t4@.map_values(|e: ReservedCidrV4| v4_entry_spec(e))[i as int] == v4_table()[i as int]);
            counts.push((t4[i].label, 0));
        }
        let t6 = reserved_cidr_v6();
        let ghost l6 = v6_table().map_values(|e: (u128, u8, Seq<char>)| e.2);
        let n4 = counts.len();
        for i in 0..t6.len()
            invariant
                t6@.map_values(|e: ReservedCidrV6| v6_entry_spec(e)) == v6_table(),
                l6 == v6_table().map_values(|e: (u128, u8, Seq<char>)| e.2),
                n4 == l4.len(),
                counts.len() == n4 + i,
                forall|j: int| 0 <= j < n4 ==> #[trigger] entry_view(counts@[j]) == (l4[j], 0u64),
                forall|j: int| n4 <= j < n4 + i ==> #[trigger] entry_view(counts@[j]) == (l6[j - n4], 0u64),
        {
            assert(t6@.map_values(|e: ReservedCidrV6| v6_entry_spec(e))[i as int] == v6_table()[i as int]);
            counts.push((t6[i].label, 0));
        }
        let c = RejectionCounters { counts };
        assert(c.entries() =~= counter_labels().map_values(|l: Seq<char>| (l, 0u64)));
        c
    }

    /// Adds one (wrapping) to the counter of `reason`; a label that names
    /// no reserved range changes nothing. The transport only names where
    /// the line came from and is not counted.
    pub fn record_rejection(&mut self, reason: &str, transport: &str)
        ensures
            final(self).entries() == old(self).entries().map_values(|e: (Seq<char>, u64)| bump(e, reason@)),
    {
        let r = to_chars(reason);
        let mut i: usize = 0;
        while i < self.counts.len()
            invariant
                i <= self.counts.len() == old(self).counts.len(),
                r@ == reason@,
                forall|j: int|
                    0 <= j < i ==> #[trigger] entry_view(self.counts@[j]) == bump(
                        entry_view(old(self).counts@[j]),
                        reason@,
                    ),
                forall|j: int| i <= j < self.counts.len() ==> #[trigger] self.counts@[j] == old(self).counts@[j],
            decreases self.counts.len() - i,
        {
            let (label, count) = self.counts[i];
            let lv = to_chars(label);
            if chars_eq(&lv, &r) {
                let next = if count == u64::MAX { 0 } else { count + 1 };
                self.counts.set(i, (label, next));
            }
            i += 1;
        }
        assert(self.entries() =~= old(self).entries().map_values(|e: (Seq<char>, u64)| bump(e, reason@)));
    }

    /// Sets every counter back to zero.
    pub fn reset_rejection_counters(&mut self)
        ensures
            final(self).entries() == old(self).entries().map_values(|e: (Seq<char>, u64)| (e.0, 0u64)),
    {
        let mut i: usize = 0;
        while i < self.counts.len()
            invariant
                i <= self.counts.len() == old(self).counts.len(),
                forall|j: int|
                    0 <= j < i ==> #[trigger] entry_view(self.counts@[j]) == (
                        entry_view(old(self).counts@[j]).0,
                        0u64,
                    ),
                forall|j: int| i <= j < self.counts.len() ==> #[trigger] self.counts@[j] == old(self).counts@[j],
            decreases self.counts.len() - i,
        {
            let (label, _) = self.counts[i];
            self.counts.set(i, (label, 0));
            i += 1;
        }
        assert(self.entries() =~= old(self).entries().map_values(|e: (Seq<char>, u64)| (e.0, 0u64)));
    }

    /// The counters above zero, highest count first (equal counts in no
    /// promised order).
    pub fn rejection_snapshot(&self) -> (r: Vec<(&'static str, u64)>)
        ensures
            forall|i: int, j: int| 0 <= i < j < r@.len() ==> r@[i].1 >= r@[j].1,
            r@.map_values(|e: (&'static str, u64)| entry_view(e)).to_multiset() == positive_entries(
                self.entries(),
            ).to_multiset(),
    {
        let mut r: Vec<(&'static str, u64)> = Vec::new();
        let ghost es = self.entries();
        assert(es.take(0) =~= Seq::<(Seq<char>, u64)>::empty());
        assert(r@.map_values(|e: (&'static str, u64)| entry_view(e)) =~= Seq::<(Seq<char>, u64)>::empty());
        for i in 0..self.counts.len()
            invariant
                es == self.entries(),
                forall|a: int, b: int| 0 <= a < b < r@.len() ==> r@[a].1 >= r@[b].1,
                r@.map_values(|e: (&'static str, u64)| entry_view(e)).to_multiset() == positive_entries(
                    es.take(i as int),
                ).to_multiset(),
        {
            let e = self.counts[i];
            assert(es.take(i + 1).drop_last() =~= es.take(i as int));
            assert(es.take(i + 1).last() == entry_view(e));
            if e.1 > 0 {
                let mut j: usize = 0;
                while j < r.len() && r[j].1 >= e.1
                    invariant
                        j <= r.len(),
                        forall|a: int| 0 <= a < j ==> r@[a].1 >= e.1,
                    decreases r.len() - j,
                {
                    j += 1;
                }
                let ghost old_r = r@;
                r.insert(j, e);
                assert(r@.map_values(|x: (&'static str, u64)| entry_view(x)) =~= old_r.map_values(
                    |x: (&'static str, u64)| entry_view(x),
                ).insert(j as int, entry_view(e)));
                assert(positive_entries(es.take(i + 1)) == positive_entries(es.take(i as int)).push(entry_view(e)));
                proof {
                    vstd::seq_lib::to_multiset_insert(
                        old_r.map_values(|x: (&'static str, u64)| entry_view(x)),
                        j as int,
                        entry_view(e),
                    );
                    vstd::seq_lib::to_multiset_build(positive_entries(es.take(i as int)), entry_view(e));
                }
                assert(r@.map_values(|x: (&'static str, u64)| entry_view(x)).to_multiset() == old_r.map_values(
                    |x: (&'static str, u64)| entry_view(x),
                ).to_multiset().insert(entry_view(e)));
                assert forall|a: int, b: int| 0 <= a < b < r@.len() implies r@[a].1 >= r@[b].1 by {
                    if b < j {
                        assert(r@[a] == old_r[a] && r@[b] == old_r[b]);
                    } else if b == j {
                        assert(r@[a] == old_r[a]);
                    } else if a < j {
                        assert(r@[a] == old_r[a] && r@[b] == old_r[b - 1]);
                    } else if a == j {
                        assert(r@[b] == old_r[b - 1]);
                    } else {
                        assert(r@[a] == old_r[a - 1] && r@[b] == old_r[b - 1]);
                    }
                }
            } else {
                assert(positive_entries(es.take(i + 1)) == positive_entries(es.take(i as int)));
            }
        }
        assert(es.take(self.counts.len() as int) =~= es);
        r
    }
}

/// After a reset no counter is above zero, so the snapshot is empty.
pub proof fn law_reset_empties_snapshot(es: Seq<(Seq<char>, u64)>)
    ensures
        positive_entries(es.map_values(|e: (Seq<char>, u64)| (e.0, 0u64))).len() == 0,
    decreases es.len(),
{
    let z = es.map_values(|e: (Seq<char>, u64)| (e.0, 0u64));
    if es.len() > 0 {
        law_reset_empties_snapshot(es.drop_last());
        assert(z.drop_last() =~= es.drop_last().map_values(|e: (Seq<char>, u64)| (e.0, 0u64)));
    }
}

/// An entry is in the positive entries exactly when it is in `s` with a
/// count above zero.
proof fn lemma_positive_contains(s: Seq<(Seq<char>, u64)>, x: (Seq<char>, u64))
    ensures
        positive_entries(s).contains(x) <==> (s.contains(x) && x.1 > 0),
    decreases s.len(),
{
    if s.len() > 0 {
        lemma_positive_contains(s.drop_last(), x);
        let rest = positive_entries(s.drop_last());
        assert(s =~= s.drop_last().push(s.last()));
        if s.last().1 > 0 {
            assert(positive_entries(s) == rest.push(s.last()));
            if rest.push(s.last()).contains(x) && x != s.last() {
                let w = choose|w: int| 0 <= w < rest.push(s.last()).len() && rest.push(s.last())[w] == x;
                assert(rest[w] == x);
            }
            if rest.contains(x) {
                let w = choose|w: int| 0 <= w < rest.len() && rest[w] == x;
                assert(rest.push(s.last())[w] == x);
            }
            assert(rest.push(s.last())[rest.len() as int] == s.last());
        }
        if s.contains(x) && x != s.last() {
            let w = choose|w: int| 0 <= w < s.len() && s[w] == x;
            assert(s.drop_last()[w] == x);
        }
        if s.drop_last().contains(x) {
            let w = choose|w: int| 0 <= w < s.drop_last().len() && s.drop_last()[w] == x;
            assert(s[w] == x);
        }
        assert(s[s.len() - 1] == s.last());
    }
}

/// Recording a rejection for `reason` adds one (wrapping) to its counter as
/// the snapshot lists it and leaves every other label's listing alone: when
/// `before` is the snapshot of the entries `es` and `after` that of the
/// entries after the rejection, the snapshot lists `(reason, c)` afterwards
/// exactly when some counter of `reason` held `k` with `c` one more than
/// `k`, and `(reason, k)` before exactly when that counter held `k` above
/// zero. A reason that labels no counter leaves the snapshot's content as
/// it was.
pub proof fn law_record_counts_once(
    es: Seq<(Seq<char>, u64)>,
    reason: Seq<char>,
    before: Seq<(Seq<char>, u64)>,
    after: Seq<(Seq<char>, u64)>,
)
    requires
        before.to_multiset() == positive_entries(es).to_multiset(),
        after.to_multiset() == positive_entries(es.map_values(|e: (Seq<char>, u64)| bump(e, reason))).to_multiset(),
    ensures
        forall|l: Seq<char>, c: u64| l != reason ==> (after.contains((l, c)) <==> before.contains((l, c))),
        forall|c: u64|
            after.contains((reason, c)) <==> (c > 0 && exists|k: u64| es.contains((reason, k)) && c == wrapping_inc(k)),
        forall|k: u64| before.contains((reason, k)) <==> (k > 0 && es.contains((reason, k))),
        !es.map_values(|e: (Seq<char>, u64)| e.0).contains(reason) ==> forall|x: (Seq<char>, u64)|
            after.contains(x) <==> before.contains(x),
{
    let bumped = es.map_values(|e: (Seq<char>, u64)| bump(e, reason));
    assert forall|x: (Seq<char>, u64)| #[trigger] after.contains(x) <==> positive_entries(bumped).contains(x) by {
        vstd::seq_lib::to_multiset_contains(after, x);
        vstd::seq_lib::to_multiset_contains(positive_entries(bumped), x);
    }
    assert forall|x: (Seq<char>, u64)| #[trigger] before.contains(x) <==> positive_entries(es).contains(x) by {
        vstd::seq_lib::to_multiset_contains(before, x);
        vstd::seq_lib::to_multiset_contains(positive_entries(es), x);
    }
    assert forall|x: (Seq<char>, u64)| #[trigger] after.contains(x) <==> (bumped.contains(x) && x.1 > 0) by {
        lemma_positive_contains(bumped, x);
    }
    assert forall|x: (Seq<char>, u64)| #[trigger] before.contains(x) <==> (es.contains(x) && x.1 > 0) by {
        lemma_positive_contains(es, x);
    }
    assert forall|x: (Seq<char>, u64)| x.0 != reason implies (#[trigger] bumped.contains(x) <==> es.contains(x)) by {
        if bumped.contains(x) {
            let w = choose|w: int| 0 <= w < bumped.len() && bumped[w] == x;
            assert(es[w] == x);
        }
        if es.contains(x) {
            let w = choose|w: int| 0 <= w < es.len() && es[w] == x;
            assert(bumped[w] == x);
        }
    }
    assert forall|c: u64| #[trigger] bumped.contains((reason, c)) <==> exists|k: u64| es.contains((reason, k)) && c == wrapping_inc(k) by {
        if bumped.contains((reason, c)) {
            let w = choose|w: int| 0 <= w < bumped.len() && bumped[w] == (reason, c);
            assert(es[w].0 == reason);
            assert(es.contains((reason, es[w].1)));
        }
        if exists|k: u64| es.contains((reason, k)) && c == wrapping_inc(k) {
            let k = choose|k: u64| es.contains((reason, k)) && c == wrapping_inc(k);
            let w = choose|w: int| 0 <= w < es.len() && es[w] == (reason, k);
            assert(bumped[w] == (reason, c));
        }
    }
    if !es.map_values(|e: (Seq<char>, u64)| e.0).contains(reason) {
        assert forall|x: (Seq<char>, u64)| after.contains(x) <==> before.contains(x) by {
            if x.0 == reason {
                if es.contains(x) {
                    let w = choose|w: int| 0 <= w < es.len() && es[w] == x;
                    assert(es.map_values(|e: (Seq<char>, u64)| e.0)[w] == reason);
                }
                if bumped.contains(x) {
                    let w = choose|w: int| 0 <= w < bumped.len() && bumped[w] == x;
                    assert(es.map_values(|e: (Seq<char>, u64)| e.0)[w] == reason);
                }
            }
        }
    }
}

/// Whether `line`'s first endpoint is reserved; when it is, the rejection
/// is counted under the range's label.
pub fn reject_if_reserved(counters: &mut RejectionCounters, line: &str, transport: &str) -> (b: bool)
    ensures
        b == check_endpoint_spec(line@) is Some,
        final(counters).entries() == match check_endpoint_spec(line@) {
            Some(l) => old(counters).entries().map_values(|e: (Seq<char>, u64)| bump(e, l)),
            None => old(counters).entries(),
        },
{
    match check_endpoint(line) {
        Some(reason) => {
            counters.record_rejection(reason, transport);
            true
        },
        None => false,
    }
}
} // verus!
