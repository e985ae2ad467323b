//! Bridge prioritisation for Iran: what a bridge record's port, transport
//! and reachability are read as, Python-style integer parsing, hour
//! windows, and the priority order of scored records.
use vstd::prelude::*;
use crate::text::{trim, to_chars, trim_chars, slice_range, string_of, to_lowercase, lowercase_of, eq_str};
use crate::patterns::{regex_is_match, regex_captures, regex_captures_result, regex_match_result};
use crate::netaddr::{is_digit, all_digits, dec_value, i64_spec, parse_i64};

verus! {

/// The sign and the digit part of a trimmed integer text.
pub open spec fn sign_split(t: Seq<char>) -> (bool, Seq<char>) {
    if t.len() > 0 && t[0] == '-' {
        (true, t.skip(1))
    } else if t.len() > 0 && t[0] == '+' {
        (false, t.skip(1))
    } else {
        (false, t)
    }
}

/// Digits with single underscores between them: only digits and `_`,
/// neither first nor last an underscore, no two underscores in a row.
pub open spec fn underscored_digits(d: Seq<char>) -> bool {
    &&& d.len() > 0
    &&& d[0] != '_'
    &&& d.last() != '_'
    &&& forall|i: int| 0 <= i < d.len() ==> is_digit(#[trigger] d[i]) || d[i] == '_'
    &&& forall|i: int| 0 <= i < d.len() - 1 ==> !(#[trigger] d[i] == '_' && d[i + 1] == '_')
}

/// The digits of `d` without its underscores.
pub open spec fn without_underscores(d: Seq<char>) -> Seq<char>
    decreases d.len(),
{
    if d.len() == 0 {
        Seq::empty()
    } else if d.last() == '_' {
        without_underscores(d.drop_last())
    } else {
        without_underscores(d.drop_last()).push(d.last())
    }
}

/// Python's `int(text)` for an `i64`: surrounding whitespace, an optional
/// sign, digits grouped by single underscores; `None` where Python raises,
/// and for magnitudes above `i64::MAX`.
pub open spec fn python_int_spec(s: Seq<char>) -> Option<int> {
    let (neg, d) = sign_split(trim(s));
    if underscored_digits(d) && dec_value(without_underscores(d)) <= 0x7fff_ffff_ffff_ffff {
        Some(if neg { -dec_value(without_underscores(d)) } else { dec_value(without_underscores(d)) as int })
    } else {
        None
    }
}

proof fn lemma_without_underscores_digits(d: Seq<char>)
    requires
        forall|i: int| 0 <= i < d.len() ==> is_digit(#[trigger] d[i]) || d[i] == '_',
    ensures
        all_digits(without_underscores(d)),
    decreases d.len(),
{
    if d.len() > 0 {
        assert forall|i: int| 0 <= i < d.drop_last().len() implies is_digit(#[trigger] d.drop_last()[i])
            || d.drop_last()[i] == '_' by {
            assert(d.drop_last()[i] == d[i]);
        }
        lemma_without_underscores_digits(d.drop_last());
        let w = without_underscores(d.drop_last());
        if d.last() != '_' {
            assert(is_digit(d[d.len() - 1]));
            assert forall|i: int| 0 <= i < w.push(d.last()).len() implies is_digit(#[trigger] w.push(d.last())[i]) by {
                if i < w.len() {
                    assert(w.push(d.last())[i] == w[i]);
                }
            }
        }
    }
}

/// Python's `int(text)` on a string, within `i64`.
pub fn python_int_str(s: &str) -> (r: Option<i64>)
    ensures
        match r {
            Some(v) => python_int_spec(s@) == Some(v as int),
            None => python_int_spec(s@) is None,
        },
{
    let t = trim_chars(&to_chars(s));
    let (neg, d) = if t.len() > 0 && t[0] == '-' {
        (true, slice_range(&t, 1, t.len()))
    } else if t.len() > 0 && t[0] == '+' {
        (false, slice_range(&t, 1, t.len()))
    } else {
        (false, slice_range(&t, 0, t.len()))
    };
    assert(t@.subrange(0, t@.len() as int) =~= t@);
    assert((neg, d@) == sign_split(trim(s@))) by {
        if t@.len() > 0 && (t@[0] == '-' || t@[0] == '+') {
            assert(d@ =~= t@.skip(1));
        }
    }
    if d.len() == 0 || d[0] == '_' || d[d.len() - 1] == '_' {
        return None;
    }
    let mut clean: Vec<char> = Vec::new();
    let mut prev_underscore = false;
    let mut k: usize = 0;
    while k < d.len()
        invariant
            0 < d.len(),
            k <= d.len(),
            sign_split(trim(s@)) == (neg, d@),
            d@[0] != '_',
            d@.last() != '_',
            clean@ == without_underscores(d@.take(k as int)),
            prev_underscore == (k > 0 && d@[k - 1] == '_'),
            forall|i: int| 0 <= i < k ==> is_digit(#[trigger] d@[i]) || d@[i] == '_',
            forall|i: int| 0 <= i < k - 1 ==> !(#[trigger] d@[i] == '_' && d@[i + 1] == '_'),
        decreases d.len() - k,
    {
        let c = d[k];
        assert(d@.take(k + 1).drop_last() =~= d@.take(k as int));
        assert(d@.take(k + 1).last() == c);
        if c == '_' {
            if prev_underscore {
                assert(d@[k - 1] == '_' && d@[k - 1 + 1] == '_');
                assert(!underscored_digits(d@));
                return None;
            }
            prev_underscore = true;
        } else {
            if !('0' <= c && c <= '9') {
                assert(!is_digit(d@[k as int]) && d@[k as int] != '_');
                assert(!underscored_digits(d@));
                return None;
            }
            prev_underscore = false;
            clean.push(c);
        }
        k += 1;
    }
    assert(d@.take(d.len() as int) =~= d@);
    assert(underscored_digits(d@));
    proof {
        lemma_without_underscores_digits(d@);
    }
    let parsed = parse_i64(&clean);
    proof {
        let w = without_underscores(d@);
        if w.len() > 0 {
            assert(w[0] != '+' && w[0] != '-') by {
                assert(is_digit(w[0]));
            }
        }
        assert(crate::netaddr::i64_digits(w) == w);
    }
    match parsed {
        Some(v) => {
            proof {
                assert(without_underscores(d@).len() > 0) by {
                    if without_underscores(d@).len() == 0 {
                        assert(i64_spec(without_underscores(d@)) is None);
                    }
                }
            }
            if neg {
                Some(-v)
            } else {
                Some(v)
            }
        },
        None => None,
    }
}

/// Whether `hour` lies in the window from `start` to `end`, inclusive; a
/// window whose start lies after its end wraps past midnight, and one whose
/// start equals its end covers every hour.
pub fn within_window(hour: i64, start: i64, end: i64) -> (b: bool)
    ensures
        b == (if start == end {
            true
        } else if start < end {
            start <= hour <= end
        } else {
            hour >= start || hour <= end
        }),
{
    if start == end {
        return true;
    }
    if start < end {
        start <= hour && hour <= end
    } else {
        hour >= start || hour <= end
    }
}


/// The `port` field of a bridge record: absent, `null`, a boolean, a
/// number (as Python's `int()` takes it), a string, or another value.
#[derive(Debug, Clone, PartialEq, Eq)]
pub enum PortField {
    Missing,
    Null,
    Bool(bool),
    Number(i64),
    Text(String),
    Other,
}

/// What the prioritiser reads of a bridge record: its line fields (when
/// strings), `port`, `transport` (when a string), and the boolean
/// reachability fields (when booleans).
#[derive(Debug, Clone, PartialEq, Eq)]
pub struct PriorityRecord {
    pub raw: Option<String>,
    pub line: Option<String>,
    pub bridge_line: Option<String>,
    pub port: PortField,
    pub transport: Option<String>,
    pub reachable: Option<bool>,
    pub test_pass: Option<bool>,
    pub success: Option<bool>,
    pub is_reachable: Option<bool>,
}

/// The text of a non-empty string field.
pub open spec fn nonempty_text(f: Option<String>) -> Option<Seq<char>> {
    match f {
        Some(s) => if s@.len() > 0 { Some(s@) } else { None },
        None => None,
    }
}

/// The record's bridge line: the first non-empty of `raw`, `line` and
/// `bridge_line`, else empty.
pub open spec fn raw_line_spec(r: PriorityRecord) -> Seq<char> {
    match nonempty_text(r.raw) {
        Some(t) => t,
        None => match nonempty_text(r.line) {
            Some(t) => t,
            None => match nonempty_text(r.bridge_line) {
                Some(t) => t,
                None => Seq::empty(),
            },
        },
    }
}

fn first_nonempty(f: &Option<String>) -> (r: Option<&String>)
    ensures
        match r {
            Some(s) => nonempty_text(*f) == Some(s@),
            None => nonempty_text(*f) is None,
        },
{
    match f {
        Some(s) => if s.as_str().unicode_len() > 0 { Some(s) } else { None },
        None => None,
    }
}

fn raw_line(r: &PriorityRecord) -> (t: String)
    ensures
        t@ == raw_line_spec(*r),
{
    match first_nonempty(&r.raw) {
        Some(s) => String::from_str(s.as_str()),
        None => match first_nonempty(&r.line) {
            Some(s) => String::from_str(s.as_str()),
            None => match first_nonempty(&r.bridge_line) {
                Some(s) => String::from_str(s.as_str()),
                None => String::new(),
            },
        },
    }
}

/// Python's `int()` of the port field; `None` where it raises.
pub open spec fn port_int(f: PortField) -> Option<int> {
    match f {
        PortField::Bool(b) => Some(if b { 1int } else { 0int }),
        PortField::Number(n) => Some(n as int),
        PortField::Text(s) => python_int_spec(s@),
        _ => None,
    }
}

/// The pattern of an endpoint in a bridge line: a bracketed or plain host,
/// a colon, and a port of two to five digits.
pub open spec fn endpoint_pattern() -> Seq<char> {
    "(?P<host>\\[[^\\]]+\\]|[^\\s:]+):(?P<port>[0-9]{2,5})"@
}

/// The port found in the line's endpoint match (its `port` group), 0 when
/// there is none.
pub open spec fn port_of_captures(caps: Option<Seq<Option<Seq<char>>>>) -> int {
    match caps {
        Some(groups) => if groups.len() > 2 {
            match groups[2] {
                Some(p) => match python_int_spec(p) {
                    Some(n) => n,
                    None => 0,
                },
                None => 0,
            }
        } else {
            0
        },
        None => 0,
    }
}

/// The port of a record: its `port` field when present (neither `null`
/// nor an empty string) and a valid port; otherwise the port of the first
/// endpoint in its bridge line; otherwise 0.
pub open spec fn port_spec(r: PriorityRecord) -> int {
    let from_field = match r.port {
        PortField::Missing | PortField::Null => None,
        PortField::Text(s) => if s@.len() == 0 { None } else { port_int(r.port) },
        _ => port_int(r.port),
    };
    match from_field {
        Some(p) => if 0 < p <= 65535 { p } else { port_of_captures(regex_captures_result(endpoint_pattern(), raw_line_spec(r))) },
        None => port_of_captures(regex_captures_result(endpoint_pattern(), raw_line_spec(r))),
    }
}

/// The port in the groups of an endpoint match (see [`port_of_captures`]).
pub fn port_from_captures(caps: &Option<Vec<Option<String>>>) -> (p: i64)
    ensures
        p == port_of_captures(match caps {
            Some(g) => Some(g@.map_values(|x: Option<String>| match x {
                Some(s) => Some(s@),
                None => None,
            })),
            None => None,
        }),
{
    match caps {
        Some(groups) => {
            if groups.len() > 2 {
                match &groups[2] {
                    Some(p) => match python_int_str(p.as_str()) {
                        Some(n) => n,
                        None => 0,
                    },
                    None => 0,
                }
            } else {
                0
            }
        },
        None => 0,
    }
}

/// The port of a record (see [`port_spec`]).
pub fn extract_port(r: &PriorityRecord) -> (p: i64)
    ensures
        p == port_spec(*r),
{
    let from_field: Option<i64> = match &r.port {
        PortField::Missing => None,
        PortField::Null => None,
        PortField::Bool(b) => Some(if *b { 1 } else { 0 }),
        PortField::Number(n) => Some(*n),
        PortField::Text(s) => if s.as_str().unicode_len() == 0 { None } else { python_int_str(s.as_str()) },
        PortField::Other => None,
    };
    match from_field {
        Some(p) => {
            if 0 < p && p <= 65535 {
                return p;
            }
        },
        None => {},
    }
    let line = raw_line(r);
    let caps = regex_captures("(?P<host>\\[[^\\]]+\\]|[^\\s:]+):(?P<port>[0-9]{2,5})", line.as_str());
    port_from_captures(&caps)
}

/// Transports recognised by name, in the order they are tried.
pub open spec fn supported_transports() -> Seq<(&'static str, &'static str)> {
    seq![
        ("snowflake", "\\bsnowflake\\b"),
        ("webtunnel", "\\bwebtunnel\\b"),
        ("obfs4", "\\bobfs4\\b"),
        ("meek_lite", "\\bmeek_lite\\b"),
        ("vanilla", "\\bvanilla\\b"),
    ]
}

/// The first transport of `table` whose whole word occurs in `text`.
pub open spec fn first_word_match(table: Seq<(&'static str, &'static str)>, text: Seq<char>) -> Option<Seq<char>>
    decreases table.len(),
{
    if table.len() == 0 {
        None
    } else if regex_match_result(table[0].1@, text) == Some(true) {
        Some(table[0].0@)
    } else {
        first_word_match(table.drop_first(), text)
    }
}

/// The transport of a record: its non-blank `transport` field trimmed and
/// lower-cased; otherwise the first supported transport named as a whole
/// word in its lower-cased bridge line; otherwise `unknown`.
pub open spec fn transport_spec(r: PriorityRecord) -> Seq<char> {
    match r.transport {
        Some(t) if trim(t@).len() > 0 => lowercase_of(trim(t@)),
        _ => match first_word_match(supported_transports(), lowercase_of(raw_line_spec(r))) {
            Some(name) => name,
            None => "unknown"@,
        },
    }
}

/// The transport of a record (see [`transport_spec`]).
pub fn extract_transport(r: &PriorityRecord) -> (t: String)
    ensures
        t@ == transport_spec(*r),
{
    match &r.transport {
        Some(field) => {
            let trimmed = string_of(&trim_chars(&to_chars(field.as_str())));
            if trimmed.as_str().unicode_len() > 0 {
                return to_lowercase(trimmed.as_str());
            }
        },
        None => {},
    }
    let line = raw_line(r);
    let lower = to_lowercase(line.as_str());
    let table: Vec<(&'static str, &'static str)> = vec![
        ("snowflake", "\\bsnowflake\\b"),
        ("webtunnel", "\\bwebtunnel\\b"),
        ("obfs4", "\\bobfs4\\b"),
        ("meek_lite", "\\bmeek_lite\\b"),
        ("vanilla", "\\bvanilla\\b"),
    ];
    assert(table@ =~= supported_transports());
    let mut i: usize = 0;
    assert(table@.skip(0) =~= table@);
    while i < table.len()
        invariant
            i <= table@.len(),
            table@ == supported_transports(),
            lower@ == lowercase_of(raw_line_spec(*r)),
            match r.transport {
                Some(t) => trim(t@).len() == 0,
                None => true,
            },
            first_word_match(table@, lower@) == first_word_match(table@.skip(i as int), lower@),
        decreases table@.len() - i,
    {
        assert(table@.skip(i as int).drop_first() =~= table@.skip(i + 1));
        assert(table@.skip(i as int)[0] == table@[i as int]);
        let (name, pattern) = table[i];
        if regex_is_match(pattern, lower.as_str()) == Some(true) {
            return String::from_str(name);
        }
        i += 1;
    }
    String::from_str("unknown")
}

/// The reachability a record states directly: the first of `reachable`,
/// `test_pass`, `success` and `is_reachable` that is a boolean.
pub open spec fn stated_reachability(r: PriorityRecord) -> Option<bool> {
    if r.reachable is Some {
        r.reachable
    } else if r.test_pass is Some {
        r.test_pass
    } else if r.success is Some {
        r.success
    } else {
        r.is_reachable
    }
}

/// The reachability a record states directly (see [`stated_reachability`]);
/// `None` sends the caller on to the reachability metadata.
pub fn reachability_flag(r: &PriorityRecord) -> (b: Option<bool>)
    ensures
        b == stated_reachability(*r),
{
    if r.reachable.is_some() {
        r.reachable
    } else if r.test_pass.is_some() {
        r.test_pass
    } else if r.success.is_some() {
        r.success
    } else {
        r.is_reachable
    }
}

/// `a` is ranked before `b` in priority order: a higher score (in
/// ten-thousandths), or an equal score and an earlier position.
pub open spec fn priority_before(scores: Seq<u64>, a: int, b: int) -> bool {
    scores[a] > scores[b] || (scores[a] == scores[b] && a < b)
}

/// The priority order of scored records (scores in ten-thousandths, in
/// record order): positions from the highest score down, ties in record
/// order. Every record keeps its place in the result.
pub fn priority_order(scores: &Vec<u64>) -> (order: Vec<usize>)
    ensures
        order@.len() == scores@.len(),
        forall|j: usize| j < scores@.len() ==> order@.contains(j),
        forall|k: int, l: int|
            0 <= k < l < order@.len() ==> priority_before(scores@, #[trigger] order@[k] as int, #[trigger] order@[l] as int),
{
    let order = crate::iran_nin_bypass::rank_by_score(scores);
    assert forall|k: int, l: int|
        0 <= k < l < order@.len() implies priority_before(scores@, #[trigger] order@[k] as int, #[trigger] order@[l] as int) by {
        assert(crate::iran_nin_bypass::ranks_before(scores@, order@[k], order@[l]));
    }
    order
}


/// How well a transport survives Iranian filtering, per mille: snowflake
/// 1000, webtunnel 920, meek_lite 840, obfs4 760, vanilla 180, any other
/// 300.
pub open spec fn transport_score_spec(t: Seq<char>) -> u32 {
    if t == "snowflake"@ {
        1000
    } else if t == "webtunnel"@ {
        920
    } else if t == "meek_lite"@ {
        840
    } else if t == "obfs4"@ {
        760
    } else if t == "vanilla"@ {
        180
    } else {
        300
    }
}

/// The transport's survival score, per mille (see [`transport_score_spec`]).
pub fn transport_score_permille(transport: &str) -> (s: u32)
    ensures
        s == transport_score_spec(transport@),
{
    let v = to_chars(transport);
    if eq_str(&v, "snowflake") {
        1000
    } else if eq_str(&v, "webtunnel") {
        920
    } else if eq_str(&v, "meek_lite") {
        840
    } else if eq_str(&v, "obfs4") {
        760
    } else if eq_str(&v, "vanilla") {
        180
    } else {
        300
    }
}

/// Nanoseconds in an hour.
pub const NANOS_PER_HOUR: i128 = 3_600_000_000_000;

/// The recency score, per mille, of a timestamp `age` nanoseconds old
/// (negative for one in the future): 1000 within a day, 750 within three
/// days, 500 within a week, 250 within thirty days, 50 beyond.
pub open spec fn recency_spec(age: int) -> u32 {
    if age <= 24 * NANOS_PER_HOUR {
        1000
    } else if age <= 72 * NANOS_PER_HOUR {
        750
    } else if age <= 7 * 24 * NANOS_PER_HOUR {
        500
    } else if age <= 30 * 24 * NANOS_PER_HOUR {
        250
    } else {
        50
    }
}

/// How recent a record is, per mille, from the age of its freshest
/// timestamp in nanoseconds (see [`recency_spec`]); 0 when it has none.
pub fn recency_permille(age_nanos: Option<i128>) -> (s: u32)
    ensures
        s == match age_nanos {
            None => 0u32,
            Some(a) => recency_spec(a as int),
        },
{
    match age_nanos {
        None => 0,
        Some(a) => {
            if a <= 24 * NANOS_PER_HOUR {
                1000
            } else if a <= 72 * NANOS_PER_HOUR {
                750
            } else if a <= 7 * 24 * NANOS_PER_HOUR {
                500
            } else if a <= 30 * 24 * NANOS_PER_HOUR {
                250
            } else {
                50
            }
        },
    }
}

/// A fresher timestamp never scores lower on recency.
pub proof fn law_recency_is_monotone(a: int, b: int)
    requires
        a <= b,
    ensures
        recency_spec(a) >= recency_spec(b),
{
}

} // verus!
