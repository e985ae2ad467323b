//! Per-bridge test evidence: the highest tier of test a result entry
//! evidences, the result it records, how an entry is stamped with both
//! (and with the time it was tested), and the tally of a stamping pass.
//!
//! A tier is never claimed beyond what was observed.
use vstd::prelude::*;
use crate::text::{has_sub, to_chars, contains_str, string_of, chars_eq};
use crate::iran_smart_rotation::ascii_lower;
use crate::ordering::lex_lt;

verus! {

/// Label of a pluggable-transport-level verification.
pub const TIER_2_PT_HANDSHAKE: &'static str = "tier_2_pt_handshake";
/// Label of a TCP/TLS-level observation.
pub const TIER_1_TCP: &'static str = "tier_1_tcp";
/// Label of an entry with no probe observation.
pub const TIER_UNTESTED: &'static str = "untested";

/// Result tags.
pub const RESULT_WORKING: &'static str = "tested_working";
pub const RESULT_FAILING: &'static str = "tested_failing";
pub const RESULT_UNTESTED: &'static str = "untested (rate-limited)";

/// What a result entry records, as far as stamping reads it: each field is
/// `Some` only when the entry holds it with that type; `tcp_reachable_set`
/// says whether the key is present at all, whatever its value, and
/// `tested_at` holds the entry's timestamp when it has one. An entry that
/// is not an object is read as holding nothing.
#[derive(Debug, Clone, PartialEq, Eq)]
pub struct EntryEvidence {
    pub is_object: bool,
    pub transport_capable: Option<bool>,
    pub probe_method: Option<String>,
    pub probe_status: Option<String>,
    pub tcp_reachable_set: bool,
    pub tcp_reachable: Option<bool>,
    pub ooni_checked: Option<bool>,
    pub tested_at: Option<String>,
    pub test_tier: Option<String>,
    pub test_result: Option<String>,
}

/// Markers of a pluggable-transport-level probe.
pub open spec fn pt_markers() -> Seq<Seq<char>> {
    seq!["handshake"@, "webtunnel"@, "obfs4"@, "snowflake"@, "ws_101"@, "pt_ok"@, "upgrade"@]
}

/// The text of an optional string, empty when absent.
pub open spec fn text_or_empty(s: Option<String>) -> Seq<char> {
    match s {
        Some(t) => t@,
        None => Seq::empty(),
    }
}

/// The text of an optional string.
pub open spec fn text_of_opt(s: Option<String>) -> Option<Seq<char>> {
    match s {
        Some(t) => Some(t@),
        None => None,
    }
}

/// Some marker occurs in the lower-cased probe method or status.
pub open spec fn has_pt_marker(e: EntryEvidence) -> bool {
    exists|i: int|
        0 <= i < pt_markers().len() && (has_sub(ascii_lower(text_or_empty(e.probe_method)), #[trigger] pt_markers()[i])
            || has_sub(ascii_lower(text_or_empty(e.probe_status)), pt_markers()[i]))
}

/// The highest tier of test the entry evidences.
pub open spec fn tier_spec(e: EntryEvidence) -> Seq<char> {
    if !e.is_object {
        "untested"@
    } else if e.transport_capable == Some(true) || has_pt_marker(e) {
        "tier_2_pt_handshake"@
    } else if e.tcp_reachable_set || e.ooni_checked == Some(true) {
        "tier_1_tcp"@
    } else {
        "untested"@
    }
}

/// The result the entry records.
pub open spec fn result_spec(e: EntryEvidence) -> Seq<char> {
    if !e.is_object {
        "untested (rate-limited)"@
    } else if e.transport_capable == Some(true) || e.tcp_reachable == Some(true) {
        "tested_working"@
    } else if e.tcp_reachable == Some(false) {
        "tested_failing"@
    } else {
        "untested (rate-limited)"@
    }
}

fn lower_text(s: &Option<String>) -> (v: Vec<char>)
    ensures
        v@ == ascii_lower(text_or_empty(*s)),
{
    let src: Vec<char> = match s {
        Some(t) => to_chars(t.as_str()),
        None => Vec::new(),
    };
    let mut out: Vec<char> = Vec::new();
    let mut k: usize = 0;
    while k < src.len()
        invariant
            k <= src.len(),
            src@ == text_or_empty(*s),
            out@ == ascii_lower(src@.take(k as int)),
        decreases src.len() - k,
    {
        let c = src[k];
        let l = if 'A' <= c && c <= 'Z' { ((c as u32) + 32) as u8 as char } else { c };
        assert(l == crate::text::ascii_lower_char(c)) by {
            if 'A' <= c && c <= 'Z' {
                assert(((c as u32) + 32) as u8 as char == ((c as u32) + 32) as char);
            }
        }
        out.push(l);
        assert(ascii_lower(src@.take(k + 1)) =~= ascii_lower(src@.take(k as int)).push(l));
        k += 1;
    }
    assert(src@.take(src.len() as int) =~= src@);
    out
}

/// The highest tier of test the entry evidences: a transport-level check
/// (transport capable, or a handshake marker in the probe method or
/// status), else a TCP observation (the `tcp_reachable` key, or an OONI
/// check), else untested.
pub fn derive_tier(e: &EntryEvidence) -> (t: &'static str)
    ensures
        t@ == tier_spec(*e),
{
    if !e.is_object {
        return TIER_UNTESTED;
    }
    if e.transport_capable == Some(true) {
        return TIER_2_PT_HANDSHAKE;
    }
    let method = lower_text(&e.probe_method);
    let status = lower_text(&e.probe_status);
    let markers: Vec<&str> = vec!["handshake", "webtunnel", "obfs4", "snowflake", "ws_101", "pt_ok", "upgrade"];
    let ghost ms = markers@.map_values(|m: &str| m@);
    assert(ms =~= pt_markers());
    let mut i: usize = 0;
    while i < markers.len()
        invariant
            i <= markers.len(),
            ms == markers@.map_values(|m: &str| m@),
            ms == pt_markers(),
            e.is_object,
            method@ == ascii_lower(text_or_empty(e.probe_method)),
            status@ == ascii_lower(text_or_empty(e.probe_status)),
            forall|j: int|
                0 <= j < i ==> !(has_sub(method@, #[trigger] pt_markers()[j]) || has_sub(status@, pt_markers()[j])),
        decreases markers.len() - i,
    {
        assert(ms[i as int] == markers@[i as int]@);
        if contains_str(&method, markers[i]) || contains_str(&status, markers[i]) {
            return TIER_2_PT_HANDSHAKE;
        }
        i += 1;
    }
    if e.tcp_reachable_set || e.ooni_checked == Some(true) {
        return TIER_1_TCP;
    }
    TIER_UNTESTED
}

/// The result the entry records: working on a positive observation,
/// failing on an explicit unreachable, else untested.
pub fn derive_result(e: &EntryEvidence) -> (r: &'static str)
    ensures
        r@ == result_spec(*e),
{
    if !e.is_object {
        return RESULT_UNTESTED;
    }
    if e.transport_capable == Some(true) || e.tcp_reachable == Some(true) {
        return RESULT_WORKING;
    }
    if e.tcp_reachable == Some(false) {
        return RESULT_FAILING;
    }
    RESULT_UNTESTED
}

/// Whether stamping `e` for a run stamped `ts` adds or changes anything:
/// a missing `tested_at` (with a non-empty run timestamp), or a tier or
/// result that differs from the one derived.
pub open spec fn would_change(e: EntryEvidence, ts: Seq<char>) -> bool {
    e.is_object && ((e.tested_at is None && ts.len() > 0) || text_of_opt(e.test_tier) != Some(
        tier_spec(e),
    ) || text_of_opt(e.test_result) != Some(result_spec(e)))
}

/// `e2` records the same observations as `e`.
pub open spec fn same_observations(e: EntryEvidence, e2: EntryEvidence) -> bool {
    &&& e2.is_object == e.is_object
    &&& e2.transport_capable == e.transport_capable
    &&& e2.probe_method == e.probe_method
    &&& e2.probe_status == e.probe_status
    &&& e2.tcp_reachable_set == e.tcp_reachable_set
    &&& e2.tcp_reachable == e.tcp_reachable
    &&& e2.ooni_checked == e.ooni_checked
}

/// `e2` is `e` stamped for a run stamped `ts`, and `changed` says whether
/// that added or changed a field. An entry that is not an object is left
/// alone; an object keeps its observations and its `tested_at` (which is
/// set to `ts` only when missing and `ts` is non-empty) and carries the
/// derived tier and result.
pub open spec fn stamped_ok(e: EntryEvidence, e2: EntryEvidence, ts: Seq<char>, changed: bool) -> bool {
    &&& changed == would_change(e, ts)
    &&& if !e.is_object {
        e2 == e
    } else {
        &&& same_observations(e, e2)
        &&& !(e.tested_at is None && ts.len() > 0) ==> e2.tested_at == e.tested_at
        &&& text_of_opt(e2.tested_at) == (if e.tested_at is None && ts.len() > 0 {
            Some(ts)
        } else {
            text_of_opt(e.tested_at)
        })
        &&& text_of_opt(e2.test_tier) == Some(tier_spec(e))
        &&& text_of_opt(e2.test_result) == Some(result_spec(e))
        &&& text_of_opt(e.test_tier) == Some(tier_spec(e)) ==> e2.test_tier == e.test_tier
        &&& text_of_opt(e.test_result) == Some(result_spec(e)) ==> e2.test_result == e.test_result
    }
}

fn same_as(s: &Option<String>, t: &'static str) -> (b: bool)
    ensures
        b == (text_of_opt(*s) == Some(t@)),
{
    match s {
        Some(x) => {
            let a = to_chars(x.as_str());
            let b = to_chars(t);
            chars_eq(&a, &b)
        },
        None => false,
    }
}

/// Stamps one entry with `tested_at` (the run timestamp, unless the entry
/// already has one), `test_tier` and `test_result`; returns whether any
/// field was added or changed.
pub fn stamp_entry(entry: &mut EntryEvidence, run_timestamp: &str) -> (changed: bool)
    ensures
        stamped_ok(*old(entry), *final(entry), run_timestamp@, changed),
{
    if !entry.is_object {
        return false;
    }
    let tier = derive_tier(entry);
    let result = derive_result(entry);
    let mut changed = false;
    if entry.tested_at.is_none() && run_timestamp.unicode_len() > 0 {
        entry.tested_at = Some(String::from_str(run_timestamp));
        changed = true;
    }
    if !same_as(&entry.test_tier, tier) {
        entry.test_tier = Some(String::from_str(tier));
        changed = true;
    }
    if !same_as(&entry.test_result, result) {
        entry.test_result = Some(String::from_str(result));
        changed = true;
    }
    changed
}

/// Stamping an entry a second time for the same run changes nothing.
pub proof fn law_stamping_is_idempotent(
    e: EntryEvidence,
    ts: Seq<char>,
    e2: EntryEvidence,
    c1: bool,
    e3: EntryEvidence,
    c2: bool,
)
    requires
        stamped_ok(e, e2, ts, c1),
        stamped_ok(e2, e3, ts, c2),
    ensures
        !c2,
        e3 == e2,
{
    if e.is_object {
        assert(tier_spec(e2) == tier_spec(e));
        assert(result_spec(e2) == result_spec(e));
    }
}

/// The tally of a stamping pass: entries changed, and entries per tier and
/// per result (each label once, in label order).
#[derive(Debug, Clone, PartialEq, Eq)]
pub struct StampSummary {
    pub stamped: usize,
    pub tiers: Vec<(String, usize)>,
    pub results: Vec<(String, usize)>,
}

/// Labels strictly increasing.
pub open spec fn keys_sorted(m: Seq<(String, usize)>) -> bool {
    forall|i: int, j: int| 0 <= i < j < m.len() ==> lex_lt(#[trigger] m[i].0@, #[trigger] m[j].0@)
}

/// The count recorded for `key` (0 when absent).
pub open spec fn count_of(m: Seq<(String, usize)>, key: Seq<char>) -> nat
    decreases m.len(),
{
    if m.len() == 0 {
        0
    } else if m.last().0@ == key {
        m.last().1 as nat
    } else {
        count_of(m.drop_last(), key)
    }
}

proof fn lemma_count_of_absent(m: Seq<(String, usize)>, key: Seq<char>)
    requires
        forall|i: int| 0 <= i < m.len() ==> m[i].0@ != key,
    ensures
        count_of(m, key) == 0,
    decreases m.len(),
{
    if m.len() > 0 {
        lemma_count_of_absent(m.drop_last(), key);
    }
}

proof fn lemma_count_of_at(m: Seq<(String, usize)>, key: Seq<char>, k: int)
    requires
        0 <= k < m.len(),
        m[k].0@ == key,
        forall|i: int| 0 <= i < m.len() && i != k ==> m[i].0@ != key,
    ensures
        count_of(m, key) == m[k].1,
    decreases m.len(),
{
    if k < m.len() - 1 {
        lemma_count_of_at(m.drop_last(), key, k);
    } else {
        assert forall|i: int| 0 <= i < m.drop_last().len() implies m.drop_last()[i].0@ != key by {
            assert(m.drop_last()[i] == m[i]);
        }
    }
}

proof fn lemma_sorted_distinct(m: Seq<(String, usize)>, i: int, j: int)
    requires
        keys_sorted(m),
        0 <= i < m.len(),
        0 <= j < m.len(),
        i != j,
    ensures
        m[i].0@ != m[j].0@,
{
    if i < j {
        assert(lex_lt(m[i].0@, m[j].0@));
        crate::ordering::lemma_lex_irreflexive(m[i].0@);
    } else {
        assert(lex_lt(m[j].0@, m[i].0@));
        crate::ordering::lemma_lex_irreflexive(m[j].0@);
    }
}

/// Adds one to the count of `key`, inserting it in label order when new.
pub fn bump_count(m: &mut Vec<(String, usize)>, key: &str)
    requires
        keys_sorted(old(m)@),
        count_of(old(m)@, key@) < usize::MAX,
    ensures
        keys_sorted(final(m)@),
        count_of(final(m)@, key@) == count_of(old(m)@, key@) + 1,
        forall|other: Seq<char>| other != key@ ==> count_of(final(m)@, other) == count_of(old(m)@, other),
        counts_positive(old(m)@) ==> counts_positive(final(m)@),
{
    let kv = to_chars(key);
    let mut p: usize = 0;
    while p < m.len() && crate::ordering::lex_less(&to_chars(m[p].0.as_str()), &kv)
        invariant
            p <= m.len(),
            m@ == old(m)@,
            kv@ == key@,
            forall|i: int| 0 <= i < p ==> lex_lt(#[trigger] m@[i].0@, key@),
        decreases m.len() - p,
    {
        p += 1;
    }
    let ghost m0 = m@;
    proof {
        assert forall|i: int| 0 <= i < p implies m0[i].0@ != key@ by {
            crate::ordering::lemma_lex_irreflexive(key@);
        }
    }
    if p < m.len() && chars_eq(&to_chars(m[p].0.as_str()), &kv) {
        proof {
            assert forall|i: int| 0 <= i < m0.len() && i != p implies m0[i].0@ != key@ by {
                lemma_sorted_distinct(m0, i, p as int);
            }
            lemma_count_of_at(m0, key@, p as int);
        }
        let (k, c) = m.remove(p);
        m.insert(p, (k, c + 1));
        proof {
            assert(m@ =~= m0.update(p as int, (m0[p as int].0, (m0[p as int].1 + 1) as usize)));
            assert forall|i: int, j: int| 0 <= i < j < m@.len() implies lex_lt(#[trigger] m@[i].0@, #[trigger] m@[j].0@) by {
                assert(m@[i].0 == m0[i].0 && m@[j].0 == m0[j].0);
            }
            assert forall|i: int| 0 <= i < m@.len() && i != p implies m@[i].0@ != key@ by {
                assert(m@[i] == m0[i]);
            }
            lemma_count_of_at(m@, key@, p as int);
            assert(counts_positive(m0) ==> counts_positive(m@)) by {
                if counts_positive(m0) {
                    assert forall|i: int| 0 <= i < m@.len() implies #[trigger] m@[i].1 > 0 by {
                        if i != p {
                            assert(m@[i] == m0[i]);
                        }
                    }
                }
            }
            assert forall|other: Seq<char>| other != key@ implies count_of(m@, other) == count_of(m0, other) by {
                lemma_count_other_update(m0, p as int, (m0[p as int].0, (m0[p as int].1 + 1) as usize), other);
            }
        }
    } else {
        proof {
            if p < m0.len() {
                crate::ordering::lemma_lex_total(m0[p as int].0@, key@);
            }
            assert forall|i: int| p <= i < m0.len() implies lex_lt(key@, #[trigger] m0[i].0@) by {
                if i > p {
                    crate::ordering::lemma_lex_transitive(key@, m0[p as int].0@, m0[i].0@);
                }
            }
            assert forall|i: int| 0 <= i < m0.len() implies m0[i].0@ != key@ by {
                if i >= p {
                    crate::ordering::lemma_lex_irreflexive(key@);
                }
            }
            lemma_count_of_absent(m0, key@);
        }
        let s = string_of(&kv);
        m.insert(p, (s, 1));
        proof {
            let nm = m@;
            assert(nm =~= m0.insert(p as int, nm[p as int]));
            assert forall|i: int, j: int| 0 <= i < j < nm.len() implies lex_lt(#[trigger] nm[i].0@, #[trigger] nm[j].0@) by {
                if j < p {
                    assert(nm[i] == m0[i] && nm[j] == m0[j]);
                } else if j == p {
                    assert(nm[i] == m0[i]);
                } else if i < p {
                    assert(nm[i] == m0[i] && nm[j] == m0[j - 1]);
                    crate::ordering::lemma_lex_transitive(m0[i].0@, key@, m0[j - 1].0@);
                } else if i == p {
                    assert(nm[j] == m0[j - 1]);
                } else {
                    assert(nm[i] == m0[i - 1] && nm[j] == m0[j - 1]);
                }
            }
            assert forall|i: int| 0 <= i < nm.len() && i != p implies nm[i].0@ != key@ by {
                if i < p {
                    assert(nm[i] == m0[i]);
                } else {
                    assert(nm[i] == m0[i - 1]);
                }
            }
            lemma_count_of_at(nm, key@, p as int);
            assert(counts_positive(m0) ==> counts_positive(nm)) by {
                if counts_positive(m0) {
                    assert forall|i: int| 0 <= i < nm.len() implies #[trigger] nm[i].1 > 0 by {
                        if i < p {
                            assert(nm[i] == m0[i]);
                        } else if i > p {
                            assert(nm[i] == m0[i - 1]);
                        }
                    }
                }
            }
            assert forall|other: Seq<char>| other != key@ implies count_of(nm, other) == count_of(m0, other) by {
                lemma_count_other_insert(m0, p as int, nm[p as int], other);
            }
        }
    }
}

proof fn lemma_count_other_update(m: Seq<(String, usize)>, p: int, x: (String, usize), other: Seq<char>)
    requires
        0 <= p < m.len(),
        x.0@ == m[p].0@,
        other != x.0@,
    ensures
        count_of(m.update(p, x), other) == count_of(m, other),
    decreases m.len(),
{
    if p < m.len() - 1 {
        assert(m.update(p, x).drop_last() =~= m.drop_last().update(p, x));
        lemma_count_other_update(m.drop_last(), p, x, other);
    } else {
        assert(m.update(p, x).drop_last() =~= m.drop_last());
    }
}

proof fn lemma_count_other_insert(m: Seq<(String, usize)>, p: int, x: (String, usize), other: Seq<char>)
    requires
        0 <= p <= m.len(),
        other != x.0@,
    ensures
        count_of(m.insert(p, x), other) == count_of(m, other),
    decreases m.len(),
{
    if p < m.len() {
        assert(m.insert(p, x).drop_last() =~= m.drop_last().insert(p, x));
        assert(m.insert(p, x).last() == m.last());
        lemma_count_other_insert(m.drop_last(), p, x, other);
    } else {
        assert(m.insert(p, x).drop_last() =~= m);
    }
}

impl StampSummary {
    /// An empty tally.
    pub fn new() -> (s: StampSummary)
        ensures
            s.stamped == 0,
            s.tiers@.len() == 0,
            s.results@.len() == 0,
    {
        StampSummary { stamped: 0, tiers: Vec::new(), results: Vec::new() }
    }

    /// Counts one entry of a pass: whether stamping changed it, its tier
    /// and its result.
    pub fn record(&mut self, changed: bool, tier: &str, result: &str)
        requires
            keys_sorted(old(self).tiers@),
            keys_sorted(old(self).results@),
            old(self).stamped < usize::MAX,
            count_of(old(self).tiers@, tier@) < usize::MAX,
            count_of(old(self).results@, result@) < usize::MAX,
        ensures
            keys_sorted(final(self).tiers@),
            keys_sorted(final(self).results@),
            final(self).stamped == old(self).stamped + if changed { 1usize } else { 0usize },
            count_of(final(self).tiers@, tier@) == count_of(old(self).tiers@, tier@) + 1,
            forall|t: Seq<char>| t != tier@ ==> count_of(final(self).tiers@, t) == count_of(old(self).tiers@, t),
            count_of(final(self).results@, result@) == count_of(old(self).results@, result@) + 1,
            forall|r: Seq<char>| r != result@ ==> count_of(final(self).results@, r) == count_of(old(self).results@, r),
            counts_positive(old(self).tiers@) ==> counts_positive(final(self).tiers@),
            counts_positive(old(self).results@) ==> counts_positive(final(self).results@),
    {
        if changed {
            self.stamped = self.stamped + 1;
        }
        bump_count(&mut self.tiers, tier);
        bump_count(&mut self.results, result);
    }
}

/// What a results document holds, as far as stamping reads it:
/// `generated_at` when it is a string, and `bridges` when it is an array.
#[derive(Debug, Clone, PartialEq, Eq)]
pub struct ResultsDoc {
    pub is_object: bool,
    pub generated_at: Option<String>,
    pub bridges: Option<Vec<EntryEvidence>>,
    pub evidence_scope: Option<String>,
}

/// The run timestamp of a pass: the document's non-empty `generated_at`,
/// else the fallback.
pub open spec fn run_timestamp_spec(generated_at: Option<String>, fallback: Seq<char>) -> Seq<char> {
    match generated_at {
        Some(g) => if g@.len() > 0 { g@ } else { fallback },
        None => fallback,
    }
}

/// The run timestamp of a pass (see [`run_timestamp_spec`]).
pub fn run_timestamp(generated_at: &Option<String>, fallback: &str) -> (t: String)
    ensures
        t@ == run_timestamp_spec(*generated_at, fallback@),
{
    match generated_at {
        Some(g) => {
            if g.as_str().unicode_len() > 0 {
                String::from_str(g.as_str())
            } else {
                String::from_str(fallback)
            }
        },
        None => String::from_str(fallback),
    }
}

/// How many of the entries stamping changes.
pub open spec fn changed_tally(s: Seq<EntryEvidence>, ts: Seq<char>) -> nat
    decreases s.len(),
{
    if s.len() == 0 {
        0
    } else {
        changed_tally(s.drop_last(), ts) + if would_change(s.last(), ts) { 1nat } else { 0nat }
    }
}

/// How many of the entries evidence the tier `label`.
pub open spec fn tier_tally(s: Seq<EntryEvidence>, label: Seq<char>) -> nat
    decreases s.len(),
{
    if s.len() == 0 {
        0
    } else {
        tier_tally(s.drop_last(), label) + if tier_spec(s.last()) == label { 1nat } else { 0nat }
    }
}

/// How many of the entries record the result `label`.
pub open spec fn result_tally(s: Seq<EntryEvidence>, label: Seq<char>) -> nat
    decreases s.len(),
{
    if s.len() == 0 {
        0
    } else {
        result_tally(s.drop_last(), label) + if result_spec(s.last()) == label { 1nat } else { 0nat }
    }
}

proof fn lemma_tallies_bounded(s: Seq<EntryEvidence>, ts: Seq<char>, label: Seq<char>)
    ensures
        changed_tally(s, ts) <= s.len(),
        tier_tally(s, label) <= s.len(),
        result_tally(s, label) <= s.len(),
    decreases s.len(),
{
    if s.len() > 0 {
        lemma_tallies_bounded(s.drop_last(), ts, label);
    }
}

/// Every count in the tally is positive: a label appears only once an
/// entry carried it.
pub open spec fn counts_positive(m: Seq<(String, usize)>) -> bool {
    forall|i: int| 0 <= i < m.len() ==> #[trigger] m[i].1 > 0
}

/// Stamps every entry of the document's `bridges` for the run (see
/// [`run_timestamp_spec`]), tallies the entries changed and the entries per
/// tier and per result, and declares the scope of the evidence on an
/// object document.
pub fn stamp_results(doc: &mut ResultsDoc, fallback_timestamp: &str) -> (summary: StampSummary)
    ensures
        final(doc).is_object == old(doc).is_object,
        final(doc).generated_at == old(doc).generated_at,
        final(doc).evidence_scope == if old(doc).is_object {
            Some(final(doc).evidence_scope->0)
        } else {
            old(doc).evidence_scope
        },
        old(doc).is_object ==> final(doc).evidence_scope->0@ == EVIDENCE_SCOPE@,
        keys_sorted(summary.tiers@),
        keys_sorted(summary.results@),
        counts_positive(summary.tiers@),
        counts_positive(summary.results@),
        match old(doc).bridges {
            None => {
                &&& final(doc).bridges is None
                &&& summary.stamped == 0
                &&& summary.tiers@.len() == 0
                &&& summary.results@.len() == 0
            },
            Some(b) => {
                let ts = run_timestamp_spec(old(doc).generated_at, fallback_timestamp@);
                &&& final(doc).bridges is Some
                &&& final(doc).bridges->0@.len() == b@.len()
                &&& forall|i: int|
                    0 <= i < b@.len() ==> stamped_ok(
                        b@[i],
                        #[trigger] final(doc).bridges->0@[i],
                        ts,
                        would_change(b@[i], ts),
                    )
                &&& summary.stamped == changed_tally(b@, ts)
                &&& forall|label: Seq<char>| count_of(summary.tiers@, label) == tier_tally(b@, label)
                &&& forall|label: Seq<char>| count_of(summary.results@, label) == result_tally(b@, label)
            },
        },
{
    let ts = run_timestamp(&doc.generated_at, fallback_timestamp);
    let mut summary = StampSummary::new();
    let taken = doc.bridges.take();
    match taken {
        None => {},
        Some(mut rest) => {
            let ghost orig = rest@;
            let mut out: Vec<EntryEvidence> = Vec::new();
            let n = rest.len();
            while rest.len() > 0
                invariant
                    n == orig.len(),
                    out@.len() + rest@.len() == n,
                    rest@ == orig.subrange(out@.len() as int, n as int),
                    forall|i: int|
                        0 <= i < out@.len() ==> stamped_ok(
                            orig[i],
                            #[trigger] out@[i],
                            ts@,
                            would_change(orig[i], ts@),
                        ),
                    keys_sorted(summary.tiers@),
                    keys_sorted(summary.results@),
                    counts_positive(summary.tiers@),
                    counts_positive(summary.results@),
                    summary.stamped == changed_tally(orig.take(out@.len() as int), ts@),
                    forall|label: Seq<char>|
                        count_of(summary.tiers@, label) == tier_tally(orig.take(out@.len() as int), label),
                    forall|label: Seq<char>|
                        count_of(summary.results@, label) == result_tally(
                            orig.take(out@.len() as int),
                            label,
                        ),
                decreases rest@.len(),
            {
                let k = out.len();
                let ghost pre = orig.take(k as int);
                let ghost post = orig.take(k as int + 1);
                let mut e = rest.remove(0);
                assert(e == orig[k as int]);
                let tier = derive_tier(&e);
                let result = derive_result(&e);
                let changed = stamp_entry(&mut e, ts.as_str());
                proof {
                    assert(post.drop_last() =~= pre);
                    assert(post.last() == orig[k as int]);
                    lemma_tallies_bounded(pre, ts@, tier@);
                    lemma_tallies_bounded(pre, ts@, result@);
                    assert(pre.len() == k);
                    assert(k < n);
                }
                summary.record(changed, tier, result);
                out.push(e);
                proof {
                    assert(rest@ =~= orig.subrange(out@.len() as int, n as int));
                    assert forall|i: int|
                        0 <= i < out@.len() implies stamped_ok(
                        orig[i],
                        #[trigger] out@[i],
                        ts@,
                        would_change(orig[i], ts@),
                    ) by {
                        if i < k {
                        }
                    }
                }
            }
            proof {
                assert(orig.take(n as int) =~= orig);
            }
            doc.bridges = Some(out);
        },
    }
    if doc.is_object {
        doc.evidence_scope = Some(String::from_str(EVIDENCE_SCOPE));
    }
    summary
}

/// What a stamped document declares about the scope of its evidence.
pub const EVIDENCE_SCOPE: &'static str = "runner-side probe observations; tiers and results are per-observation and do not assert Iranian reachability or full circuits";

} // verus!
