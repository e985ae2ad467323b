//! Rotation planning: choosing an ordered list of bridges that alternates
//! transports (DPI blocks whole transports in waves) and takes at most
//! three bridges from one network prefix (null-routing takes out whole
//! subnets), best-scored first.
//!
//! Scores arrive as integers (the composite score in billionths); reading
//! the bridge records and writing the plan are the caller's.
use vstd::prelude::*;
use crate::text::{ws_tokens, split_whitespace, to_chars, string_of, chars_eq, join, push_str, push_joined_strings,
    ascii_lower_char};
use crate::netaddr::{split_char, split_on};
use crate::ip_guard::{has_char, last_index_of};
use crate::evidence_stamp::{bump_count, count_of, counts_positive, keys_sorted};

verus! {

/// Default maximum size of a rotation plan.
pub const DEFAULT_ROTATION_SIZE: usize = 25;

/// Most bridges taken from one network prefix.
pub const MAX_PER_PREFIX: usize = 3;

// ───────────────────────────── transport preference ─────────────────────────────

/// Preference order at censorship levels 1–3.
pub open spec fn preference_normal() -> Seq<Seq<char>> {
    seq!["obfs4"@, "webtunnel"@, "snowflake"@, "meek_lite"@, "vanilla"@]
}

/// Preference order at levels 4–5: fronting and morphing transports first.
pub open spec fn preference_escalated() -> Seq<Seq<char>> {
    seq!["snowflake"@, "webtunnel"@, "meek_lite"@, "obfs4"@, "vanilla"@]
}

/// First index of `t` in `prefs`, or the length when absent.
pub open spec fn position_in(prefs: Seq<Seq<char>>, t: Seq<char>) -> nat
    decreases prefs.len(),
{
    if prefs.len() == 0 {
        0
    } else if prefs[0] == t {
        0
    } else {
        1 + position_in(prefs.drop_first(), t)
    }
}

/// The rank of a transport at a censorship level (unknown ones rank last).
pub open spec fn rank_spec(transport: Seq<char>, censorship_level: u8) -> nat {
    position_in(if censorship_level >= 4 { preference_escalated() } else { preference_normal() }, transport)
}

/// The rank of a transport in the preference order of a censorship level;
/// transports not listed rank after all listed ones.
pub fn transport_rank(transport: &str, censorship_level: u8) -> (r: usize)
    ensures
        r == rank_spec(transport@, censorship_level),
{
    let prefs: Vec<&str> = if censorship_level >= 4 {
        vec!["snowflake", "webtunnel", "meek_lite", "obfs4", "vanilla"]
    } else {
        vec!["obfs4", "webtunnel", "snowflake", "meek_lite", "vanilla"]
    };
    let ghost ps = prefs@.map_values(|p: &str| p@);
    assert(ps =~= (if censorship_level >= 4 { preference_escalated() } else { preference_normal() }));
    let t = to_chars(transport);
    let mut i: usize = 0;
    assert(ps.skip(0) =~= ps);
    while i < prefs.len()
        invariant
            i <= prefs.len(),
            ps == prefs@.map_values(|p: &str| p@),
            ps == (if censorship_level >= 4 { preference_escalated() } else { preference_normal() }),
            t@ == transport@,
            position_in(ps, transport@) == i + position_in(ps.skip(i as int), transport@),
        decreases prefs.len() - i,
    {
        assert(ps.skip(i as int).drop_first() =~= ps.skip(i + 1));
        assert(ps.skip(i as int)[0] == prefs@[i as int]@);
        let p = to_chars(prefs[i]);
        if chars_eq(&p, &t) {
            return i;
        }
        i += 1;
    }
    assert(ps.skip(i as int).len() == 0);
    i
}

// ───────────────────────────── reading a bridge ─────────────────────────────

/// The network prefix standing for a bridge's AS: an IPv4 address
/// collapses to its first three octets, an IPv6 address to its first four
/// hextets; anything else is kept whole, and an empty address is "unknown".
pub open spec fn prefix_spec(ip: Seq<char>) -> Seq<char> {
    if ip.len() == 0 {
        "unknown"@
    } else if has_char(ip, ':') {
        if split_char(ip, ':').len() >= 4 {
            join(split_char(ip, ':').take(4), ":"@)
        } else {
            ip
        }
    } else if split_char(ip, '.').len() == 4 {
        join(split_char(ip, '.').take(3), "."@)
    } else {
        ip
    }
}

fn has_char_in(v: &Vec<char>, c: char) -> (b: bool)
    ensures
        b == has_char(v@, c),
{
    let mut i: usize = 0;
    while i < v.len()
        invariant
            i <= v.len(),
            forall|j: int| 0 <= j < i ==> v@[j] != c,
        decreases v.len() - i,
    {
        if v[i] == c {
            return true;
        }
        i += 1;
    }
    false
}

fn join_first(parts: &Vec<Vec<char>>, n: usize, sep: &str) -> (s: String)
    requires
        n <= parts.len(),
    ensures
        s@ == join(parts@.map_values(|p: Vec<char>| p@).take(n as int), sep@),
{
    let mut strs: Vec<String> = Vec::new();
    let mut i: usize = 0;
    while i < n
        invariant
            i <= n <= parts.len(),
            strs.len() == i,
            forall|j: int| 0 <= j < i ==> #[trigger] strs@[j]@ == parts@[j]@,
        decreases n - i,
    {
        strs.push(string_of(&parts[i]));
        i += 1;
    }
    assert(strs@.map_values(|x: String| x@) =~= parts@.map_values(|p: Vec<char>| p@).take(n as int));
    let mut s = String::new();
    push_joined_strings(&mut s, &strs, sep);
    s
}

/// The network prefix of an address (see [`prefix_spec`]).
pub fn prefix_of(ip: &str) -> (p: String)
    ensures
        p@ == prefix_spec(ip@),
{
    let v = to_chars(ip);
    if v.len() == 0 {
        return String::from_str("unknown");
    }
    if has_char_in(&v, ':') {
        let parts = split_on(&v, ':');
        if parts.len() >= 4 {
            return join_first(&parts, 4, ":");
        }
        return string_of(&v);
    }
    let parts = split_on(&v, '.');
    if parts.len() == 4 {
        return join_first(&parts, 3, ".");
    }
    string_of(&v)
}

/// The address of a bridge line: its second field, without a trailing
/// `:port` and without surrounding brackets.
pub open spec fn strip_brackets_start(s: Seq<char>) -> Seq<char>
    decreases s.len(),
{
    if s.len() > 0 && (s[0] == '[' || s[0] == ']') {
        strip_brackets_start(s.drop_first())
    } else {
        s
    }
}

pub open spec fn strip_brackets_end(s: Seq<char>) -> Seq<char>
    decreases s.len(),
{
    if s.len() > 0 && (s.last() == '[' || s.last() == ']') {
        strip_brackets_end(s.drop_last())
    } else {
        s
    }
}

pub open spec fn ip_of_line_spec(raw: Seq<char>) -> Seq<char> {
    let toks = ws_tokens(raw);
    let hostport = if toks.len() > 1 { toks[1] } else { Seq::empty() };
    let host = match last_index_of(hostport, ':') {
        Some(i) => hostport.take(i),
        None => hostport,
    };
    strip_brackets_end(strip_brackets_start(host))
}

fn last_colon(v: &Vec<char>) -> (r: Option<usize>)
    ensures
        match r {
            Some(i) => last_index_of(v@, ':') == Some(i as int) && i < v@.len(),
            None => last_index_of(v@, ':') is None,
        },
{
    let mut i: usize = v.len();
    while i > 0
        invariant
            i <= v.len(),
            forall|j: int| i <= j < v@.len() ==> v@[j] != ':',
        decreases i,
    {
        if v[i - 1] == ':' {
            let k = i - 1;
            proof {
                assert(has_char(v@, ':')) by {
                    assert(v@[k as int] == ':');
                }
                let w = choose|w: int| 0 <= w < v@.len() && v@[w] == ':' && forall|j: int| w < j < v@.len() ==> v@[j] != ':';
                assert(w == k) by {
                    if w < k {
                        assert(v@[k as int] == ':');
                    }
                }
            }
            return Some(k);
        }
        i -= 1;
    }
    None
}

/// The address of a bridge line (see [`ip_of_line_spec`]).
pub fn ip_of_line(raw: &str) -> (ip: String)
    ensures
        ip@ == ip_of_line_spec(raw@),
{
    let toks = split_whitespace(&to_chars(raw));
    let ghost ts = toks@.map_values(|t: Vec<char>| t@);
    let hostport: Vec<char> = if toks.len() > 1 {
        assert(ts[1] == toks@[1]@);
        crate::text::slice_range(&toks[1], 0, toks[1].len())
    } else {
        Vec::new()
    };
    assert(hostport@ =~= (if ts.len() > 1 { ts[1] } else { Seq::<char>::empty() }));
    let host: Vec<char> = match last_colon(&hostport) {
        Some(i) => crate::text::slice_range(&hostport, 0, i),
        None => crate::text::slice_range(&hostport, 0, hostport.len()),
    };
    assert(host@ =~= match last_index_of(hostport@, ':') {
        Some(i) => hostport@.take(i),
        None => hostport@,
    });
    let n = host.len();
    let mut lo: usize = 0;
    assert(host@.subrange(0, n as int) =~= host@);
    while lo < n && (host[lo] == '[' || host[lo] == ']')
        invariant
            lo <= n == host.len(),
            strip_brackets_start(host@) == strip_brackets_start(host@.subrange(lo as int, n as int)),
        decreases n - lo,
    {
        assert(host@.subrange(lo as int, n as int).drop_first() =~= host@.subrange(lo + 1, n as int));
        lo += 1;
    }
    let ghost t = host@.subrange(lo as int, n as int);
    assert(strip_brackets_start(host@) == t) by {
        if t.len() > 0 {
            assert(t[0] == host@[lo as int]);
        }
    }
    let mut hi: usize = n;
    assert(t.subrange(0, (hi - lo) as int) =~= t);
    while hi > lo && (host[hi - 1] == '[' || host[hi - 1] == ']')
        invariant
            lo <= hi <= n == host.len(),
            t == host@.subrange(lo as int, n as int),
            strip_brackets_end(t) == strip_brackets_end(t.subrange(0, hi - lo)),
        decreases hi,
    {
        assert(t.subrange(0, hi - lo).drop_last() =~= t.subrange(0, hi - lo - 1));
        hi -= 1;
    }
    let ghost u = t.subrange(0, hi - lo);
    assert(strip_brackets_end(t) == u) by {
        if u.len() > 0 {
            assert(u.last() == host@[hi - 1]);
        }
    }
    assert(u =~= host@.subrange(lo as int, hi as int));
    crate::text::string_of_range(&host, lo, hi)
}

/// ASCII lower-casing of a text.
pub open spec fn ascii_lower(s: Seq<char>) -> Seq<char> {
    s.map_values(|c: char| ascii_lower_char(c))
}

fn ascii_lower_string(v: &Vec<char>) -> (s: String)
    ensures
        s@ == ascii_lower(v@),
{
    let mut out: Vec<char> = Vec::new();
    let mut i: usize = 0;
    while i < v.len()
        invariant
            i <= v.len(),
            out@ == ascii_lower(v@.take(i as int)),
        decreases v.len() - i,
    {
        let c = v[i];
        let l = if 'A' <= c && c <= 'Z' { ((c as u32) + 32) as u8 as char } else { c };
        assert(l == ascii_lower_char(c)) by {
            if 'A' <= c && c <= 'Z' {
                assert(((c as u32) + 32) as u8 as char == ((c as u32) + 32) as char);
            }
        }
        out.push(l);
        assert(ascii_lower(v@.take(i + 1)) =~= ascii_lower(v@.take(i as int)).push(l));
        i += 1;
    }
    assert(v@.take(v.len() as int) =~= v@);
    string_of(&out)
}

/// The transport of a bridge record: its `transport` field, else its
/// `type` field (trimmed, ASCII lower-cased, when not blank), else the
/// first word of its line lower-cased, else "unknown".
pub open spec fn transport_of_spec(transport_field: Option<Seq<char>>, type_field: Option<Seq<char>>, raw: Seq<
    char,
>) -> Seq<char> {
    if transport_field is Some && crate::text::trim(transport_field.unwrap()).len() > 0 {
        ascii_lower(crate::text::trim(transport_field.unwrap()))
    } else if type_field is Some && crate::text::trim(type_field.unwrap()).len() > 0 {
        ascii_lower(crate::text::trim(type_field.unwrap()))
    } else if ws_tokens(raw).len() > 0 {
        ascii_lower(ws_tokens(raw)[0])
    } else {
        "unknown"@
    }
}

/// The transport of a bridge record from its text fields (see
/// [`transport_of_spec`]).
pub fn transport_of(transport_field: Option<&str>, type_field: Option<&str>, raw: &str) -> (t: String)
    ensures
        t@ == transport_of_spec(
            match transport_field {
                Some(f) => Some(f@),
                None => None,
            },
            match type_field {
                Some(f) => Some(f@),
                None => None,
            },
            raw@,
        ),
{
    match transport_field {
        Some(f) => {
            let t = crate::text::trim_chars(&to_chars(f));
            if t.len() > 0 {
                return ascii_lower_string(&t);
            }
        },
        None => {},
    }
    match type_field {
        Some(f) => {
            let t = crate::text::trim_chars(&to_chars(f));
            if t.len() > 0 {
                return ascii_lower_string(&t);
            }
        },
        None => {},
    }
    let toks = split_whitespace(&to_chars(raw));
    if toks.len() > 0 {
        assert(toks@.map_values(|t: Vec<char>| t@)[0] == toks@[0]@);
        ascii_lower_string(&toks[0])
    } else {
        let u = String::from_str("unknown");
        proof {
            reveal_strlit("unknown");
        }
        u
    }
}

// ───────────────────────────── candidates and their order ─────────────────────────────

/// A rotation candidate: its trimmed line, transport, network prefix, the
/// composite score in billionths, and its index in the input (the last
/// tie-breaker).
#[derive(Debug, Clone, PartialEq, Eq)]
pub struct Candidate {
    pub line: String,
    pub transport: String,
    pub prefix: String,
    pub scaled_score: i64,
    pub ordinal: usize,
}

/// `a` goes before `b`: higher score, then better-ranked transport, then
/// lower ordinal.
pub open spec fn key_lt(a: Candidate, b: Candidate, censorship_level: u8) -> bool {
    let ra = rank_spec(a.transport@, censorship_level);
    let rb = rank_spec(b.transport@, censorship_level);
    a.scaled_score > b.scaled_score || (a.scaled_score == b.scaled_score && (ra < rb || (ra == rb && a.ordinal
        < b.ordinal)))
}

/// No candidate goes before one ahead of it.
pub open spec fn sorted_by_key(s: Seq<Candidate>, censorship_level: u8) -> bool {
    forall|i: int, j: int| 0 <= i < j < s.len() ==> !key_lt(#[trigger] s[j], #[trigger] s[i], censorship_level)
}

fn key_less(a: &Candidate, b: &Candidate, censorship_level: u8) -> (r: bool)
    ensures
        r == key_lt(*a, *b, censorship_level),
{
    let ra = transport_rank(a.transport.as_str(), censorship_level);
    let rb = transport_rank(b.transport.as_str(), censorship_level);
    a.scaled_score > b.scaled_score || (a.scaled_score == b.scaled_score && (ra < rb || (ra == rb && a.ordinal
        < b.ordinal)))
}

/// The candidates in plan order: a permutation of the input, sorted by
/// score (highest first), transport rank, then ordinal.
pub fn sort_candidates(cands: Vec<Candidate>, censorship_level: u8) -> (r: Vec<Candidate>)
    ensures
        sorted_by_key(r@, censorship_level),
        r@.to_multiset() == cands@.to_multiset(),
{
    broadcast use vstd::multiset::group_multiset_axioms;

    let ghost orig = cands@;
    let mut rest = cands;
    let mut r: Vec<Candidate> = Vec::new();
    proof {
        vstd::seq_lib::to_multiset_len(r@);
        vstd::multiset::lemma_multiset_empty_len(r@.to_multiset());
    }
    while rest.len() > 0
        invariant
            sorted_by_key(r@, censorship_level),
            r@.to_multiset().add(rest@.to_multiset()) == orig.to_multiset(),
        decreases rest.len(),
    {
        let ghost old_rest = rest@;
        let ghost old_ms = r@.to_multiset();
        let x = rest.remove(0);
        proof {
            vstd::seq_lib::to_multiset_remove(old_rest, 0);
            vstd::seq_lib::to_multiset_contains(old_rest, x);
            assert(old_rest[0] == x);
            assert(old_rest.contains(x));
        }
        let mut p: usize = 0;
        while p < r.len() && !key_less(&x, &r[p], censorship_level)
            invariant
                p <= r.len(),
                forall|k: int| 0 <= k < p ==> !key_lt(x, #[trigger] r@[k], censorship_level),
            decreases r.len() - p,
        {
            p += 1;
        }
        let ghost old_r = r@;
        r.insert(p, x);
        proof {
            vstd::seq_lib::to_multiset_insert(old_r, p as int, x);
            assert forall|i: int, j: int| 0 <= i < j < r@.len() implies !key_lt(
                #[trigger] r@[j],
                #[trigger] r@[i],
                censorship_level,
            ) by {
                if j < p {
                    assert(r@[i] == old_r[i] && r@[j] == old_r[j]);
                } else if j == p {
                    assert(r@[i] == old_r[i]);
                } else if i < p {
                    assert(r@[i] == old_r[i] && r@[j] == old_r[j - 1]);
                } else if i == p {
                    assert(r@[j] == old_r[j - 1]);
                    assert(key_lt(x, old_r[p as int], censorship_level));
                    if j - 1 > p {
                        assert(!key_lt(old_r[j - 1], old_r[p as int], censorship_level));
                    }
                } else {
                    assert(r@[i] == old_r[i - 1] && r@[j] == old_r[j - 1]);
                }
            }
            assert(r@.to_multiset() == old_ms.insert(x));
            assert(rest@.to_multiset() == old_rest.to_multiset().remove(x));
            assert(r@.to_multiset().add(rest@.to_multiset()) =~= old_ms.add(old_rest.to_multiset()));
        }
    }
    proof {
        vstd::seq_lib::to_multiset_len(rest@);
        vstd::multiset::lemma_multiset_empty_len(rest@.to_multiset());
        assert(r@.to_multiset().add(rest@.to_multiset()) =~= r@.to_multiset());
    }
    r
}

// ───────────────────────────── diversity-constrained selection ─────────────────────────────

/// How many of `c` lie in network prefix `p`.
pub open spec fn prefix_count(c: Seq<Candidate>, p: Seq<char>) -> nat
    decreases c.len(),
{
    if c.len() == 0 {
        0
    } else {
        prefix_count(c.drop_last(), p) + if c.last().prefix@ == p { 1nat } else { 0nat }
    }
}

/// Whether the first pass defers `x`: its prefix is full, or it has the
/// transport of the last bridge chosen.
pub open spec fn defers(chosen: Seq<Candidate>, x: Candidate) -> bool {
    prefix_count(chosen, x.prefix@) >= 3 || (chosen.len() > 0 && chosen.last().transport@ == x.transport@)
}

/// The first pass over the sorted candidates, up to a plan size of `cap`:
/// `(chosen, deferred)`. Once the plan is full the rest is ignored.
pub open spec fn first_pass(s: Seq<Candidate>, cap: nat) -> (Seq<Candidate>, Seq<Candidate>)
    decreases s.len(),
{
    if s.len() == 0 {
        (Seq::empty(), Seq::empty())
    } else {
        let (c, d) = first_pass(s.drop_last(), cap);
        let x = s.last();
        if c.len() >= cap {
            (c, d)
        } else if defers(c, x) {
            (c, d.push(x))
        } else {
            (c.push(x), d)
        }
    }
}

/// The second pass: deferred candidates fill the remaining slots, in
/// order, as long as their prefix is not full (transports may now repeat).
pub open spec fn second_pass(d: Seq<Candidate>, c: Seq<Candidate>, cap: nat) -> Seq<Candidate>
    decreases d.len(),
{
    if d.len() == 0 {
        c
    } else {
        let c1 = second_pass(d.drop_last(), c, cap);
        let x = d.last();
        if c1.len() >= cap || prefix_count(c1, x.prefix@) >= 3 {
            c1
        } else {
            c1.push(x)
        }
    }
}

/// The plan size bound: `max_entries`, or no bound for 0.
pub open spec fn plan_cap(max_entries: usize) -> nat {
    if max_entries == 0 { usize::MAX as nat } else { max_entries as nat }
}

/// The plan chosen from sorted candidates.
pub open spec fn rotation_spec(s: Seq<Candidate>, cap: nat) -> Seq<Candidate> {
    let (c, d) = first_pass(s, cap);
    if c.len() < cap { second_pass(d, c, cap) } else { c }
}

fn count_prefix(c: &Vec<Candidate>, p: &Vec<char>) -> (n: usize)
    ensures
        n == prefix_count(c@, p@),
{
    let mut n: usize = 0;
    let mut i: usize = 0;
    while i < c.len()
        invariant
            i <= c.len(),
            n == prefix_count(c@.take(i as int), p@),
            n <= i,
        decreases c.len() - i,
    {
        assert(c@.take(i + 1).drop_last() =~= c@.take(i as int));
        let q = to_chars(c[i].prefix.as_str());
        if chars_eq(&q, p) {
            n += 1;
        }
        i += 1;
    }
    assert(c@.take(c.len() as int) =~= c@);
    n
}

fn same_text(a: &String, b: &String) -> (r: bool)
    ensures
        r == (a@ == b@),
{
    let x = to_chars(a.as_str());
    let y = to_chars(b.as_str());
    chars_eq(&x, &y)
}

/// The plan taken from candidates already in plan order: a first pass
/// that defers a candidate whose prefix already has three bridges or whose
/// transport repeats the last one chosen, then a second pass over the
/// deferred ones that only honours the prefix limit; at most `max_entries`
/// bridges (no bound for 0).
pub fn select_rotation(sorted: Vec<Candidate>, max_entries: usize) -> (chosen: Vec<Candidate>)
    ensures
        chosen@ == rotation_spec(sorted@, plan_cap(max_entries)),
{
    let cap: usize = if max_entries == 0 { usize::MAX } else { max_entries };
    let ghost s = sorted@;
    let mut rest = sorted;
    let mut chosen: Vec<Candidate> = Vec::new();
    let mut deferred: Vec<Candidate> = Vec::new();
    let mut k: usize = 0;
    assert(s.skip(0) =~= s);
    assert(s.len() == rest.len());
    while rest.len() > 0
        invariant
            k <= s.len(),
            s.len() <= usize::MAX,
            rest@ == s.skip(k as int),
            cap == plan_cap(max_entries),
            (chosen@, deferred@) == first_pass(s.take(k as int), cap as nat),
        decreases rest.len(),
    {
        assert(s.take(k + 1).drop_last() =~= s.take(k as int));
        let x = rest.remove(0);
        assert(x == s[k as int]);
        assert(rest@ =~= s.skip(k + 1));
        assert(s.take(k + 1).last() == x);
        if chosen.len() < cap {
            let p = to_chars(x.prefix.as_str());
            let used = count_prefix(&chosen, &p);
            let same_transport = chosen.len() > 0 && same_text(&chosen[chosen.len() - 1].transport, &x.transport);
            if used >= MAX_PER_PREFIX || same_transport {
                deferred.push(x);
            } else {
                chosen.push(x);
            }
        }
        k += 1;
    }
    assert(s.take(k as int) =~= s);
    if chosen.len() < cap {
        let ghost d = deferred@;
        let ghost c0 = chosen@;
        let mut j: usize = 0;
        assert(d.skip(0) =~= d);
        assert(d.len() == deferred.len());
        while deferred.len() > 0
            invariant
                j <= d.len(),
                d.len() <= usize::MAX,
                deferred@ == d.skip(j as int),
                cap == plan_cap(max_entries),
                chosen@ == second_pass(d.take(j as int), c0, cap as nat),
            decreases deferred.len(),
        {
            assert(d.take(j + 1).drop_last() =~= d.take(j as int));
            let x = deferred.remove(0);
            assert(x == d[j as int]);
            assert(deferred@ =~= d.skip(j + 1));
            assert(d.take(j + 1).last() == x);
            if chosen.len() < cap {
                let p = to_chars(x.prefix.as_str());
                if count_prefix(&chosen, &p) < MAX_PER_PREFIX {
                    chosen.push(x);
                }
            }
            j += 1;
        }
        assert(d.take(j as int) =~= d);
    }
    chosen
}

/// The rotation plan of the candidates: sorted into plan order, then
/// selected (see [`sort_candidates`] and [`select_rotation`]).
pub fn plan_rotation(cands: Vec<Candidate>, censorship_level: u8, max_entries: usize) -> (plan: Vec<Candidate>)
    ensures
        exists|s: Seq<Candidate>|
            sorted_by_key(s, censorship_level) && s.to_multiset() == cands@.to_multiset() && plan@ == rotation_spec(
                s,
                plan_cap(max_entries),
            ),
{
    let sorted = sort_candidates(cands, censorship_level);
    let ghost s = sorted@;
    let plan = select_rotation(sorted, max_entries);
    assert(sorted_by_key(s, censorship_level) && s.to_multiset() == cands@.to_multiset() && plan@ == rotation_spec(
        s,
        plan_cap(max_entries),
    ));
    plan
}

/// How many of `c` have transport `t`.
pub open spec fn transport_tally(c: Seq<Candidate>, t: Seq<char>) -> nat
    decreases c.len(),
{
    if c.len() == 0 {
        0
    } else {
        transport_tally(c.drop_last(), t) + if c.last().transport@ == t { 1nat } else { 0nat }
    }
}

proof fn lemma_tallies_bounded(c: Seq<Candidate>, k: Seq<char>)
    ensures
        transport_tally(c, k) <= c.len(),
        prefix_count(c, k) <= c.len(),
    decreases c.len(),
{
    if c.len() > 0 {
        lemma_tallies_bounded(c.drop_last(), k);
    }
}

/// The summary of a plan: the number of its bridges per transport, and per
/// network prefix, each label once in label order with a count above zero
/// (so the second list's length is the number of distinct prefixes).
pub fn plan_summary(plan: &Vec<Candidate>) -> (r: (Vec<(String, usize)>, Vec<(String, usize)>))
    ensures
        keys_sorted(r.0@),
        counts_positive(r.0@),
        forall|t: Seq<char>| #[trigger] count_of(r.0@, t) == transport_tally(plan@, t),
        keys_sorted(r.1@),
        counts_positive(r.1@),
        forall|p: Seq<char>| #[trigger] count_of(r.1@, p) == prefix_count(plan@, p),
{
    let mut hist: Vec<(String, usize)> = Vec::new();
    let mut prefixes: Vec<(String, usize)> = Vec::new();
    let mut i: usize = 0;
    while i < plan.len()
        invariant
            i <= plan@.len(),
            keys_sorted(hist@),
            counts_positive(hist@),
            forall|t: Seq<char>| #[trigger] count_of(hist@, t) == transport_tally(plan@.take(i as int), t),
            keys_sorted(prefixes@),
            counts_positive(prefixes@),
            forall|p: Seq<char>| #[trigger] count_of(prefixes@, p) == prefix_count(plan@.take(i as int), p),
        decreases plan@.len() - i,
    {
        let ghost before = plan@.take(i as int);
        proof {
            assert(plan@.take(i + 1).drop_last() =~= before);
            assert(plan@.take(i + 1).last() == plan@[i as int]);
            lemma_tallies_bounded(before, plan@[i as int].transport@);
            lemma_tallies_bounded(before, plan@[i as int].prefix@);
        }
        bump_count(&mut hist, plan[i].transport.as_str());
        bump_count(&mut prefixes, plan[i].prefix.as_str());
        i += 1;
    }
    assert(plan@.take(plan@.len() as int) =~= plan@);
    (hist, prefixes)
}

// ───────────────────────────── laws ─────────────────────────────

proof fn lemma_prefix_count_push(c: Seq<Candidate>, x: Candidate, p: Seq<char>)
    ensures
        prefix_count(c.push(x), p) == prefix_count(c, p) + if x.prefix@ == p { 1nat } else { 0nat },
{
    assert(c.push(x).drop_last() =~= c);
}

proof fn lemma_first_pass_bounds(s: Seq<Candidate>, cap: nat)
    ensures
        forall|p: Seq<char>| #[trigger] prefix_count(first_pass(s, cap).0, p) <= 3,
        first_pass(s, cap).0.len() <= cap,
        forall|i: int|
            0 <= i < first_pass(s, cap).0.len() - 1 ==> (#[trigger] first_pass(s, cap).0[i]).transport@
                != first_pass(s, cap).0[i + 1].transport@,
        forall|x: Candidate| #[trigger] first_pass(s, cap).0.contains(x) ==> s.contains(x),
        forall|x: Candidate| #[trigger] first_pass(s, cap).1.contains(x) ==> s.contains(x),
    decreases s.len(),
{
    if s.len() > 0 {
        lemma_first_pass_bounds(s.drop_last(), cap);
        let (c, d) = first_pass(s.drop_last(), cap);
        let x = s.last();
        assert forall|y: Candidate| s.drop_last().contains(y) implies s.contains(y) by {
            let k = choose|k: int| 0 <= k < s.drop_last().len() && s.drop_last()[k] == y;
            assert(s[k] == y);
        }
        assert(s.contains(x)) by {
            assert(s[s.len() - 1] == x);
        }
        if c.len() < cap && !defers(c, x) {
            let c2 = c.push(x);
            assert forall|p: Seq<char>| #[trigger] prefix_count(c2, p) <= 3 by {
                lemma_prefix_count_push(c, x, p);
            }
            assert forall|i: int| 0 <= i < c2.len() - 1 implies (#[trigger] c2[i]).transport@ != c2[i + 1].transport@ by {
                if i < c.len() - 1 {
                    assert(c2[i] == c[i] && c2[i + 1] == c[i + 1]);
                } else {
                    assert(c2[i] == c.last() && c2[i + 1] == x);
                }
            }
            assert forall|y: Candidate| #[trigger] c2.contains(y) implies s.contains(y) by {
                let k = choose|k: int| 0 <= k < c2.len() && c2[k] == y;
                if k < c.len() {
                    assert(c[k] == y);
                    assert(c.contains(y));
                }
            }
        } else if c.len() < cap {
            let d2 = d.push(x);
            assert forall|y: Candidate| #[trigger] d2.contains(y) implies s.contains(y) by {
                let k = choose|k: int| 0 <= k < d2.len() && d2[k] == y;
                if k < d.len() {
                    assert(d[k] == y);
                    assert(d.contains(y));
                }
            }
        }
    }
}

proof fn lemma_second_pass_bounds(d: Seq<Candidate>, c: Seq<Candidate>, cap: nat)
    requires
        forall|p: Seq<char>| #[trigger] prefix_count(c, p) <= 3,
        c.len() <= cap,
    ensures
        forall|p: Seq<char>| #[trigger] prefix_count(second_pass(d, c, cap), p) <= 3,
        second_pass(d, c, cap).len() <= cap,
        forall|x: Candidate| #[trigger] second_pass(d, c, cap).contains(x) ==> c.contains(x) || d.contains(x),
    decreases d.len(),
{
    if d.len() > 0 {
        lemma_second_pass_bounds(d.drop_last(), c, cap);
        let c1 = second_pass(d.drop_last(), c, cap);
        let x = d.last();
        assert forall|y: Candidate| d.drop_last().contains(y) implies d.contains(y) by {
            let k = choose|k: int| 0 <= k < d.drop_last().len() && d.drop_last()[k] == y;
            assert(d[k] == y);
        }
        if !(c1.len() >= cap || prefix_count(c1, x.prefix@) >= 3) {
            let c2 = c1.push(x);
            assert forall|p: Seq<char>| #[trigger] prefix_count(c2, p) <= 3 by {
                lemma_prefix_count_push(c1, x, p);
            }
            assert forall|y: Candidate| #[trigger] c2.contains(y) implies c.contains(y) || d.contains(y) by {
                let k = choose|k: int| 0 <= k < c2.len() && c2[k] == y;
                if k < c1.len() {
                    assert(c1[k] == y);
                    assert(c1.contains(y));
                } else {
                    assert(d[d.len() - 1] == y);
                }
            }
        }
    }
}

/// A plan never takes more than three bridges from one network prefix,
/// never exceeds its size bound, and holds only candidates it was given.
pub proof fn law_plan_respects_limits(s: Seq<Candidate>, cap: nat, p: Seq<char>, x: Candidate)
    ensures
        prefix_count(rotation_spec(s, cap), p) <= 3,
        rotation_spec(s, cap).len() <= cap,
        rotation_spec(s, cap).contains(x) ==> s.contains(x),
{
    lemma_first_pass_bounds(s, cap);
    let (c, d) = first_pass(s, cap);
    if c.len() < cap {
        lemma_second_pass_bounds(d, c, cap);
    }
}

/// In the first pass no two consecutive bridges share a transport.
pub proof fn law_first_pass_alternates_transports(s: Seq<Candidate>, cap: nat, i: int)
    requires
        0 <= i < first_pass(s, cap).0.len() - 1,
    ensures
        first_pass(s, cap).0[i].transport@ != first_pass(s, cap).0[i + 1].transport@,
{
    lemma_first_pass_bounds(s, cap);
}

/// When the first pass alone fills the plan (or every candidate survives
/// it), the whole plan alternates transports.
pub proof fn law_plan_alternates_when_nothing_deferred(s: Seq<Candidate>, cap: nat, i: int)
    requires
        first_pass(s, cap).1.len() == 0 || first_pass(s, cap).0.len() >= cap,
        0 <= i < rotation_spec(s, cap).len() - 1,
    ensures
        rotation_spec(s, cap)[i].transport@ != rotation_spec(s, cap)[i + 1].transport@,
{
    lemma_first_pass_bounds(s, cap);
    let (c, d) = first_pass(s, cap);
    if c.len() < cap {
        assert(d.len() == 0);
        assert(second_pass(d, c, cap) == c);
    }
}

} // verus!
