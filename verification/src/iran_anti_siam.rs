//! The SIAM analysis pipeline around the scoring engine: where bridge lines
//! come from (a JSON list, the tester's results, or the `.txt` exports),
//! the tier and transport tallies of the scored bridges, the exports of the
//! best tiers, and the markdown analysis.
use vstd::prelude::*;
use crate::text::{to_chars, trim_chars, trim, string_of, chars_eq, starts_with_str, ends_with_str, starts_with, ends_with, decimal};
use crate::ordering::{sort_dedup, strictly_sorted, texts};
use crate::evidence_stamp::{bump_count, keys_sorted, count_of, counts_positive};

verus! {

// ───────────────────────────── text sources ─────────────────────────────

/// The pieces of `s` between newlines (the last one possibly empty).
pub open spec fn nl_pieces(s: Seq<char>) -> Seq<Seq<char>>
    decreases s.len(),
{
    if s.len() == 0 {
        seq![Seq::empty()]
    } else {
        let p = nl_pieces(s.drop_last());
        if s.last() == '\n' {
            p.push(Seq::empty())
        } else {
            p.update(p.len() - 1, p.last().push(s.last()))
        }
    }
}

proof fn lemma_nl_pieces_nonempty(s: Seq<char>)
    ensures
        nl_pieces(s).len() >= 1,
    decreases s.len(),
{
    if s.len() > 0 {
        lemma_nl_pieces_nonempty(s.drop_last());
    }
}

/// A trimmed line names a bridge when it is neither blank nor a `#` comment.
pub open spec fn names_bridge(t: Seq<char>) -> bool {
    t.len() > 0 && t[0] != '#'
}

/// The trimmed pieces that name bridges, in order.
pub open spec fn kept_lines(ps: Seq<Seq<char>>) -> Seq<Seq<char>>
    decreases ps.len(),
{
    if ps.len() == 0 {
        Seq::empty()
    } else {
        let rest = kept_lines(ps.drop_last());
        if names_bridge(trim(ps.last())) {
            rest.push(trim(ps.last()))
        } else {
            rest
        }
    }
}

/// The bridge lines of a text file: every line trimmed, blank lines and
/// `#` comments dropped.
pub open spec fn file_bridge_lines(text: Seq<char>) -> Seq<Seq<char>> {
    kept_lines(nl_pieces(text))
}

fn keep_piece(out: &mut Vec<String>, cur: &Vec<char>)
    ensures
        texts(final(out)@) == if names_bridge(trim(cur@)) {
            texts(old(out)@).push(trim(cur@))
        } else {
            texts(old(out)@)
        },
{
    let t = trim_chars(cur);
    if t.len() > 0 && t[0] != '#' {
        let ghost before = texts(out@);
        out.push(string_of(&t));
        assert(texts(out@) =~= before.push(t@));
    }
}

/// The bridge lines of a text file (see [`file_bridge_lines`]).
pub fn bridge_lines_from_text(text: &str) -> (r: Vec<String>)
    ensures
        texts(r@) == file_bridge_lines(text@),
{
    let v = to_chars(text);
    let mut out: Vec<String> = Vec::new();
    let mut cur: Vec<char> = Vec::new();
    let ghost mut done: Seq<Seq<char>> = Seq::empty();
    let mut i: usize = 0;
    assert(v@.take(0) =~= Seq::<char>::empty());
    while i < v.len()
        invariant
            i <= v@.len(),
            v@ == text@,
            nl_pieces(v@.take(i as int)) == done.push(cur@),
            texts(out@) == kept_lines(done),
        decreases v@.len() - i,
    {
        let c = v[i];
        assert(v@.take(i + 1).drop_last() =~= v@.take(i as int));
        assert(v@.take(i + 1).last() == c);
        if c == '\n' {
            keep_piece(&mut out, &cur);
            proof {
                assert(done.push(cur@).drop_last() =~= done);
                done = done.push(cur@);
            }
            cur = Vec::new();
            assert(nl_pieces(v@.take(i + 1)) =~= done.push(cur@));
        } else {
            let ghost before = cur@;
            cur.push(c);
            assert(nl_pieces(v@.take(i + 1)) =~= done.push(cur@));
        }
        i += 1;
    }
    keep_piece(&mut out, &cur);
    proof {
        assert(v@.take(v@.len() as int) =~= v@);
        assert(done.push(cur@).drop_last() =~= done);
    }
    out
}

/// The elements of `s` at their first occurrence, in order.
pub open spec fn first_occurrences(s: Seq<Seq<char>>) -> Seq<Seq<char>>
    decreases s.len(),
{
    if s.len() == 0 {
        Seq::empty()
    } else {
        let rest = first_occurrences(s.drop_last());
        if s.drop_last().contains(s.last()) {
            rest
        } else {
            rest.push(s.last())
        }
    }
}

proof fn lemma_first_occurrences_contains(s: Seq<Seq<char>>, x: Seq<char>)
    ensures
        first_occurrences(s).contains(x) <==> s.contains(x),
    decreases s.len(),
{
    if s.len() > 0 {
        lemma_first_occurrences_contains(s.drop_last(), x);
        let rest = first_occurrences(s.drop_last());
        if s.contains(x) {
            let k = choose|k: int| 0 <= k < s.len() && s[k] == x;
            if k < s.len() - 1 {
                assert(s.drop_last()[k] == x);
            }
        }
        if s.drop_last().contains(x) {
            let k = choose|k: int| 0 <= k < s.drop_last().len() && s.drop_last()[k] == x;
            assert(s[k] == x);
        }
        if !s.drop_last().contains(s.last()) {
            assert(rest.push(s.last())[rest.len() as int] == s.last());
            if rest.contains(x) {
                let k = choose|k: int| 0 <= k < rest.len() && rest[k] == x;
                assert(rest.push(s.last())[k] == x);
            }
            if rest.push(s.last()).contains(x) && x != s.last() {
                let k = choose|k: int| 0 <= k < rest.len() + 1 && rest.push(s.last())[k] == x;
                assert(rest[k] == x);
            }
        }
        if x == s.last() {
            assert(s[s.len() - 1] == x);
        }
    }
}

/// Keeping first occurrences keeps every line exactly once: no line
/// repeats, and a line is kept exactly when it occurs.
pub proof fn law_first_occurrences_keep_each_line_once(s: Seq<Seq<char>>)
    ensures
        forall|i: int, j: int|
            0 <= i < j < first_occurrences(s).len() ==> #[trigger] first_occurrences(s)[i] != #[trigger] first_occurrences(s)[j],
        forall|x: Seq<char>| first_occurrences(s).contains(x) <==> s.contains(x),
{
    lemma_first_occurrences_distinct(s);
    assert forall|x: Seq<char>| first_occurrences(s).contains(x) <==> s.contains(x) by {
        lemma_first_occurrences_contains(s, x);
    }
}

/// The lines in order of first occurrence, each once.
pub fn dedup_first_seen(lines: &Vec<String>) -> (r: Vec<String>)
    ensures
        texts(r@) == first_occurrences(texts(lines@)),
{
    let mut out: Vec<String> = Vec::new();
    let mut i: usize = 0;
    while i < lines.len()
        invariant
            i <= lines@.len(),
            texts(out@) == first_occurrences(texts(lines@).take(i as int)),
        decreases lines@.len() - i,
    {
        let ghost pre = texts(lines@).take(i as int);
        assert(texts(lines@).take(i + 1).drop_last() =~= pre);
        assert(texts(lines@).take(i + 1).last() == lines@[i as int]@);
        let x = to_chars(lines[i].as_str());
        let mut seen = false;
        let mut k: usize = 0;
        while k < out.len()
            invariant
                k <= out@.len(),
                x@ == lines@[i as int]@,
                seen == (exists|j: int| 0 <= j < k && texts(out@)[j] == x@),
            decreases out@.len() - k,
        {
            if chars_eq(&to_chars(out[k].as_str()), &x) {
                seen = true;
            }
            proof {
                if texts(out@)[k as int] == x@ {
                    assert(exists|j: int| 0 <= j < k + 1 && texts(out@)[j] == x@);
                }
                if exists|j: int| 0 <= j < k + 1 && texts(out@)[j] == x@ {
                    let j = choose|j: int| 0 <= j < k + 1 && texts(out@)[j] == x@;
                    if j < k {
                        assert(exists|j2: int| 0 <= j2 < k && texts(out@)[j2] == x@);
                    }
                }
            }
            k += 1;
        }
        proof {
            lemma_first_occurrences_contains(pre, x@);
            if seen {
                let j = choose|j: int| 0 <= j < out@.len() && texts(out@)[j] == x@;
                assert(texts(out@).contains(x@));
            } else {
                assert(!texts(out@).contains(x@));
            }
        }
        if !seen {
            let ghost before = texts(out@);
            out.push(string_of(&x));
            assert(texts(out@) =~= before.push(x@));
        }
        i += 1;
    }
    assert(texts(lines@).take(lines@.len() as int) =~= texts(lines@));
    out
}

/// A file of the bridge directory that is read for bridge lines: a `.txt`
/// file other than the `iran_blocked` lists.
pub open spec fn txt_source(name: Seq<char>) -> bool {
    ends_with(name, ".txt"@) && !starts_with(name, "iran_blocked"@)
}

/// Whether a file of the bridge directory is read for bridge lines.
pub fn is_txt_source(name: &str) -> (b: bool)
    ensures
        b == txt_source(name@),
{
    let v = to_chars(name);
    ends_with_str(&v, ".txt") && !starts_with_str(&v, "iran_blocked")
}

/// The files of a directory (name and text) that hold name `n`.
pub open spec fn has_file(files: Seq<(String, String)>, n: Seq<char>) -> bool {
    exists|i: int| 0 <= i < files.len() && (#[trigger] files[i]).0@ == n
}

/// The text of the first file named `n`.
pub open spec fn text_of_file(files: Seq<(String, String)>, n: Seq<char>) -> Seq<char>
    decreases files.len(),
{
    if files.len() == 0 {
        Seq::empty()
    } else if files[0].0@ == n {
        files[0].1@
    } else {
        text_of_file(files.drop_first(), n)
    }
}

/// The bridge lines of the named files, file after file.
pub open spec fn lines_of_files(files: Seq<(String, String)>, names: Seq<Seq<char>>) -> Seq<Seq<char>>
    decreases names.len(),
{
    if names.len() == 0 {
        Seq::empty()
    } else {
        lines_of_files(files, names.drop_last()) + file_bridge_lines(text_of_file(files, names.last()))
    }
}

fn text_of_named(files: &Vec<(String, String)>, name: &String) -> (t: String)
    ensures
        t@ == text_of_file(files@, name@),
{
    let nv = to_chars(name.as_str());
    let mut i: usize = 0;
    assert(files@.skip(0) =~= files@);
    while i < files.len()
        invariant
            i <= files@.len(),
            nv@ == name@,
            text_of_file(files@, name@) == text_of_file(files@.skip(i as int), name@),
        decreases files@.len() - i,
    {
        assert(files@.skip(i as int).drop_first() =~= files@.skip(i + 1));
        assert(files@.skip(i as int)[0] == files@[i as int]);
        if chars_eq(&to_chars(files[i].0.as_str()), &nv) {
            return String::from_str(files[i].1.as_str());
        }
        i += 1;
    }
    assert(files@.skip(i as int).len() == 0);
    String::new()
}

/// The bridge lines of the `.txt` sources of a directory (each file's name
/// and text): the sources read in name order, each file's lines trimmed
/// with blanks and comments dropped, every line kept once at its first
/// occurrence.
pub fn load_bridges_txt_from(files: &Vec<(String, String)>) -> (r: Vec<String>)
    ensures
        exists|names: Seq<Seq<char>>|
            {
                &&& strictly_sorted(names)
                &&& forall|n: Seq<char>| names.contains(n) <==> (has_file(files@, n) && txt_source(n))
                &&& texts(r@) == first_occurrences(lines_of_files(files@, names))
            },
{
    let mut candidates: Vec<String> = Vec::new();
    let mut i: usize = 0;
    while i < files.len()
        invariant
            i <= files@.len(),
            forall|n: Seq<char>| texts(candidates@).contains(n) <==> (exists|j: int| 0 <= j < i && (#[trigger] files@[j]).0@ == n && txt_source(n)),
        decreases files@.len() - i,
    {
        let ghost before = texts(candidates@);
        let ghost ni = files@[i as int].0@;
        if is_txt_source(files[i].0.as_str()) {
            candidates.push(String::from_str(files[i].0.as_str()));
            proof {
                let after = texts(candidates@);
                assert(after =~= before.push(ni));
                assert forall|n: Seq<char>| after.contains(n) <==> (exists|j: int| 0 <= j < i + 1 && (#[trigger] files@[j]).0@ == n && txt_source(n)) by {
                    if after.contains(n) {
                        let k = choose|k: int| 0 <= k < after.len() && after[k] == n;
                        if k < before.len() {
                            assert(before[k] == n);
                            assert(before.contains(n));
                        } else {
                            assert(files@[i as int].0@ == n);
                        }
                    }
                    if exists|j: int| 0 <= j < i + 1 && (#[trigger] files@[j]).0@ == n && txt_source(n) {
                        let j = choose|j: int| 0 <= j < i + 1 && (#[trigger] files@[j]).0@ == n && txt_source(n);
                        if j == i {
                            assert(after[before.len() as int] == n);
                        } else {
                            assert(exists|j2: int| 0 <= j2 < i && (#[trigger] files@[j2]).0@ == n && txt_source(n));
                            assert(before.contains(n));
                            let k = choose|k: int| 0 <= k < before.len() && before[k] == n;
                            assert(after[k] == n);
                        }
                    }
                }
            }
        } else {
            proof {
                assert forall|n: Seq<char>| before.contains(n) <==> (exists|j: int| 0 <= j < i + 1 && (#[trigger] files@[j]).0@ == n && txt_source(n)) by {
                    if exists|j: int| 0 <= j < i + 1 && (#[trigger] files@[j]).0@ == n && txt_source(n) {
                        let j = choose|j: int| 0 <= j < i + 1 && (#[trigger] files@[j]).0@ == n && txt_source(n);
                        if j < i {
                            assert(exists|j2: int| 0 <= j2 < i && (#[trigger] files@[j2]).0@ == n && txt_source(n));
                        }
                    }
                }
            }
        }
        i += 1;
    }
    let names = sort_dedup(candidates);
    let ghost ns = texts(names@);
    let mut lines: Vec<String> = Vec::new();
    let mut k: usize = 0;
    while k < names.len()
        invariant
            k <= names@.len(),
            ns == texts(names@),
            texts(lines@) == lines_of_files(files@, ns.take(k as int)),
        decreases names@.len() - k,
    {
        assert(ns.take(k + 1).drop_last() =~= ns.take(k as int));
        assert(ns.take(k + 1).last() == names@[k as int]@);
        let t = text_of_named(files, &names[k]);
        let file_lines = bridge_lines_from_text(t.as_str());
        let ghost before = texts(lines@);
        let mut m: usize = 0;
        while m < file_lines.len()
            invariant
                m <= file_lines@.len(),
                texts(lines@) == before + texts(file_lines@).take(m as int),
            decreases file_lines@.len() - m,
        {
            let ghost pre = texts(lines@);
            lines.push(String::from_str(file_lines[m].as_str()));
            assert(texts(lines@) =~= pre.push(file_lines@[m as int]@));
            assert(texts(file_lines@).take(m + 1) =~= texts(file_lines@).take(m as int).push(file_lines@[m as int]@));
            assert(texts(lines@) =~= before + texts(file_lines@).take(m + 1));
            m += 1;
        }
        assert(texts(file_lines@).take(file_lines@.len() as int) =~= texts(file_lines@));
        k += 1;
    }
    assert(ns.take(names@.len() as int) =~= ns);
    let r = dedup_first_seen(&lines);
    proof {
        assert forall|n: Seq<char>| ns.contains(n) <==> (has_file(files@, n) && txt_source(n)) by {
            if has_file(files@, n) && txt_source(n) {
                let j = choose|j: int| 0 <= j < files@.len() && (#[trigger] files@[j]).0@ == n;
                assert(exists|j: int| 0 <= j < files@.len() && (#[trigger] files@[j]).0@ == n && txt_source(n));
            }
        }
    }
    r
}

/// The first non-empty source among the testing list, the tester's results
/// and the `.txt` exports.
pub fn pick_bridge_source(testing_list: Vec<String>, tester_results: Vec<String>, txt_exports: Vec<String>) -> (r: Vec<String>)
    ensures
        r@ == if testing_list@.len() > 0 {
            testing_list@
        } else if tester_results@.len() > 0 {
            tester_results@
        } else {
            txt_exports@
        },
{
    if testing_list.len() > 0 {
        testing_list
    } else if tester_results.len() > 0 {
        tester_results
    } else {
        txt_exports
    }
}

// ───────────────────────────── JSON sources ─────────────────────────────

/// A JSON value as the loader reads it: whether it is truthy, and its text
/// (a string as it is, any other value as rendered).
#[derive(Debug, Clone, PartialEq, Eq)]
pub struct JsonItem {
    pub truthy: bool,
    pub text: String,
}

/// A JSON bridge list: an array of values, an object (with its `bridges`
/// array when there is one, each element `None` when it is not an object
/// and otherwise its `line` value if any), or anything else.
#[derive(Debug, Clone, PartialEq, Eq)]
pub enum BridgesJson {
    Array(Vec<JsonItem>),
    Object(Option<Vec<Option<Option<JsonItem>>>>),
    Other,
}

/// The truthy values' texts, in order.
pub open spec fn truthy_texts(items: Seq<JsonItem>) -> Seq<Seq<char>>
    decreases items.len(),
{
    if items.len() == 0 {
        Seq::empty()
    } else {
        let rest = truthy_texts(items.drop_last());
        if items.last().truthy {
            rest.push(items.last().text@)
        } else {
            rest
        }
    }
}

/// The truthy `line` values of bridge entries, in order.
pub open spec fn entry_lines(es: Seq<Option<Option<JsonItem>>>) -> Seq<Seq<char>>
    decreases es.len(),
{
    if es.len() == 0 {
        Seq::empty()
    } else {
        let rest = entry_lines(es.drop_last());
        match es.last() {
            Some(Some(item)) => if item.truthy { rest.push(item.text@) } else { rest },
            _ => rest,
        }
    }
}

/// The bridge lines of a JSON list: an array's truthy values; the truthy
/// `line` values of an object's `bridges` entries, or nothing at all when
/// one entry is not an object; nothing otherwise.
pub open spec fn json_bridge_lines(doc: BridgesJson) -> Seq<Seq<char>> {
    match doc {
        BridgesJson::Array(items) => truthy_texts(items@),
        BridgesJson::Object(bridges) => match bridges {
            Some(es) => if exists|i: int| 0 <= i < es@.len() && es@[i] is None {
                Seq::empty()
            } else {
                entry_lines(es@)
            },
            None => Seq::empty(),
        },
        BridgesJson::Other => Seq::empty(),
    }
}

/// The bridge lines of a JSON list (see [`json_bridge_lines`]).
pub fn bridge_lines_from_json(doc: &BridgesJson) -> (r: Vec<String>)
    ensures
        texts(r@) == json_bridge_lines(*doc),
{
    match doc {
        BridgesJson::Array(items) => {
            let mut out: Vec<String> = Vec::new();
            let mut i: usize = 0;
            while i < items.len()
                invariant
                    i <= items@.len(),
                    texts(out@) == truthy_texts(items@.take(i as int)),
                decreases items@.len() - i,
            {
                assert(items@.take(i + 1).drop_last() =~= items@.take(i as int));
                assert(items@.take(i + 1).last() == items@[i as int]);
                if items[i].truthy {
                    let ghost before = texts(out@);
                    out.push(String::from_str(items[i].text.as_str()));
                    assert(texts(out@) =~= before.push(items@[i as int].text@));
                }
                i += 1;
            }
            assert(items@.take(items@.len() as int) =~= items@);
            out
        },
        BridgesJson::Object(bridges) => match bridges {
            None => {
                let out: Vec<String> = Vec::new();
                assert(texts(out@) =~= Seq::<Seq<char>>::empty());
                out
            },
            Some(es) => {
                let mut out: Vec<String> = Vec::new();
                let mut i: usize = 0;
                while i < es.len()
                    invariant
                        i <= es@.len(),
                        texts(out@) == entry_lines(es@.take(i as int)),
                        *doc == BridgesJson::Object(Some(*es)),
                        forall|j: int| 0 <= j < i ==> es@[j] is Some,
                    decreases es@.len() - i,
                {
                    assert(es@.take(i + 1).drop_last() =~= es@.take(i as int));
                    assert(es@.take(i + 1).last() == es@[i as int]);
                    match &es[i] {
                        None => {
                            assert(es@[i as int] is None);
                            let none: Vec<String> = Vec::new();
                            assert(texts(none@) =~= Seq::<Seq<char>>::empty());
                            return none;
                        },
                        Some(line) => match line {
                            Some(item) => {
                                if item.truthy {
                                    let ghost before = texts(out@);
                                    out.push(String::from_str(item.text.as_str()));
                                    assert(texts(out@) =~= before.push(item.text@));
                                }
                            },
                            None => {},
                        },
                    }
                    i += 1;
                }
                assert(es@.take(es@.len() as int) =~= es@);
                out
            },
        },
        BridgesJson::Other => {
            let out: Vec<String> = Vec::new();
            assert(texts(out@) =~= Seq::<Seq<char>>::empty());
            out
        },
    }
}


// ───────────────────────────── tallies and exports ─────────────────────────────

/// What the pipeline reads of a scored bridge: its line, transport and
/// bypass tier.
#[derive(Debug, Clone, PartialEq, Eq)]
pub struct ScoredBridge {
    pub bridge_line: String,
    pub transport: String,
    pub bypass_tier: String,
}

/// How many of the scored bridges are in tier `label`.
pub open spec fn tier_count(rs: Seq<ScoredBridge>, label: Seq<char>) -> nat
    decreases rs.len(),
{
    if rs.len() == 0 {
        0
    } else {
        tier_count(rs.drop_last(), label) + if rs.last().bypass_tier@ == label { 1nat } else { 0nat }
    }
}

/// How many of the scored bridges use transport `t`.
pub open spec fn transport_count(rs: Seq<ScoredBridge>, t: Seq<char>) -> nat
    decreases rs.len(),
{
    if rs.len() == 0 {
        0
    } else {
        transport_count(rs.drop_last(), t) + if rs.last().transport@ == t { 1nat } else { 0nat }
    }
}

/// The transports of the scored bridges, in order.
pub open spec fn transports_of(rs: Seq<ScoredBridge>) -> Seq<Seq<char>> {
    rs.map_values(|r: ScoredBridge| r.transport@)
}

/// The lines of the scored bridges in tier `tier`, in order.
pub open spec fn tier_lines(rs: Seq<ScoredBridge>, tier: Seq<char>) -> Seq<Seq<char>>
    decreases rs.len(),
{
    if rs.len() == 0 {
        Seq::empty()
    } else {
        let rest = tier_lines(rs.drop_last(), tier);
        if rs.last().bypass_tier@ == tier {
            rest.push(rs.last().bridge_line@)
        } else {
            rest
        }
    }
}

/// The tallies and exports of a scoring pass: bridges per tier (each tier
/// once, in name order), bridges per transport (in order of first
/// appearance), the PHANTOM and STEALTH lines, and both together.
#[derive(Debug, Clone, PartialEq, Eq)]
pub struct PipelineSummary {
    pub tier_summary: Vec<(String, usize)>,
    pub transport_summary: Vec<(String, usize)>,
    pub phantom_lines: Vec<String>,
    pub stealth_lines: Vec<String>,
    pub best_lines: Vec<String>,
}

proof fn lemma_counts_bounded(rs: Seq<ScoredBridge>, x: Seq<char>)
    ensures
        tier_count(rs, x) <= rs.len(),
        transport_count(rs, x) <= rs.len(),
    decreases rs.len(),
{
    if rs.len() > 0 {
        lemma_counts_bounded(rs.drop_last(), x);
    }
}

proof fn lemma_transport_count_positive(rs: Seq<ScoredBridge>, t: Seq<char>)
    requires
        transports_of(rs).contains(t),
    ensures
        transport_count(rs, t) > 0,
    decreases rs.len(),
{
    let k = choose|k: int| 0 <= k < transports_of(rs).len() && transports_of(rs)[k] == t;
    if k < rs.len() - 1 {
        assert(transports_of(rs.drop_last())[k] == t);
        lemma_transport_count_positive(rs.drop_last(), t);
    }
}

proof fn lemma_transport_count_zero(rs: Seq<ScoredBridge>, t: Seq<char>)
    requires
        !transports_of(rs).contains(t),
    ensures
        transport_count(rs, t) == 0,
    decreases rs.len(),
{
    if rs.len() > 0 {
        assert(transports_of(rs)[rs.len() - 1] == rs.last().transport@);
        assert(!transports_of(rs.drop_last()).contains(t)) by {
            if transports_of(rs.drop_last()).contains(t) {
                let k = choose|k: int| 0 <= k < transports_of(rs.drop_last()).len() && transports_of(rs.drop_last())[k] == t;
                assert(transports_of(rs)[k] == t);
            }
        }
        lemma_transport_count_zero(rs.drop_last(), t);
    }
}

proof fn lemma_transport_count_step(pre: Seq<ScoredBridge>, post: Seq<ScoredBridge>)
    requires
        post.len() == pre.len() + 1,
        post.drop_last() == pre,
    ensures
        forall|t: Seq<char>| #[trigger] transport_count(post, t) == transport_count(pre, t) + if post.last().transport@ == t { 1nat } else { 0nat },
{
}

proof fn lemma_first_occurrences_distinct(s: Seq<Seq<char>>)
    ensures
        forall|i: int, j: int| 0 <= i < j < first_occurrences(s).len() ==> #[trigger] first_occurrences(s)[i] != #[trigger] first_occurrences(s)[j],
    decreases s.len(),
{
    if s.len() > 0 {
        lemma_first_occurrences_distinct(s.drop_last());
        lemma_first_occurrences_contains(s.drop_last(), s.last());
        let rest = first_occurrences(s.drop_last());
        if !s.drop_last().contains(s.last()) {
            assert forall|i: int, j: int| 0 <= i < j < rest.push(s.last()).len() implies #[trigger] rest.push(s.last())[i] != #[trigger] rest.push(s.last())[j] by {
                if j == rest.len() {
                    if rest[i] == s.last() {
                        assert(rest.contains(s.last()));
                    }
                }
            }
        }
    }
}

/// The tallies and exports of the scored bridges.
pub fn summarize_results(results: &Vec<ScoredBridge>) -> (s: PipelineSummary)
    ensures
        keys_sorted(s.tier_summary@),
        counts_positive(s.tier_summary@),
        forall|label: Seq<char>| count_of(s.tier_summary@, label) == tier_count(results@, label),
        s.transport_summary@.map_values(|e: (String, usize)| e.0@) == first_occurrences(transports_of(results@)),
        forall|k: int|
            0 <= k < s.transport_summary@.len() ==> (#[trigger] s.transport_summary@[k]).1 == transport_count(
                results@,
                s.transport_summary@[k].0@,
            ),
        texts(s.phantom_lines@) == tier_lines(results@, "PHANTOM"@),
        texts(s.stealth_lines@) == tier_lines(results@, "STEALTH"@),
        texts(s.best_lines@) == tier_lines(results@, "PHANTOM"@) + tier_lines(results@, "STEALTH"@),
{
    let mut tiers: Vec<(String, usize)> = Vec::new();
    let mut transports: Vec<(String, usize)> = Vec::new();
    let mut phantom: Vec<String> = Vec::new();
    let mut stealth: Vec<String> = Vec::new();
    let mut i: usize = 0;
    while i < results.len()
        invariant
            i <= results@.len(),
            keys_sorted(tiers@),
            counts_positive(tiers@),
            forall|label: Seq<char>| count_of(tiers@, label) == tier_count(results@.take(i as int), label),
            transports@.map_values(|e: (String, usize)| e.0@) == first_occurrences(transports_of(results@.take(i as int))),
            forall|k: int|
                0 <= k < transports@.len() ==> (#[trigger] transports@[k]).1 == transport_count(
                    results@.take(i as int),
                    transports@[k].0@,
                ),
            texts(phantom@) == tier_lines(results@.take(i as int), "PHANTOM"@),
            texts(stealth@) == tier_lines(results@.take(i as int), "STEALTH"@),
        decreases results@.len() - i,
    {
        let ghost pre = results@.take(i as int);
        let ghost post = results@.take(i + 1);
        let r = &results[i];
        assert(post.drop_last() =~= pre);
        assert(post.last() == results@[i as int]);
        assert(transports_of(post).drop_last() =~= transports_of(pre));
        assert(transports_of(post).last() == r.transport@);
        proof {
            lemma_counts_bounded(pre, r.bypass_tier@);
            lemma_counts_bounded(pre, r.transport@);
        }
        bump_count(&mut tiers, r.bypass_tier.as_str());
        // transports, in order of first appearance
        let tv = to_chars(r.transport.as_str());
        let mut k: usize = 0;
        let mut found = false;
        while k < transports.len()
            invariant_except_break
                !found,
            invariant
                k <= transports@.len(),
                tv@ == r.transport@,
                forall|j: int| 0 <= j < k ==> (#[trigger] transports@[j]).0@ != r.transport@,
            ensures
                found ==> k < transports@.len() && transports@[k as int].0@ == r.transport@,
                !found ==> k == transports@.len(),
            decreases transports@.len() - k,
        {
            if chars_eq(&to_chars(transports[k].0.as_str()), &tv) {
                found = true;
                break;
            }
            k += 1;
        }
        let ghost old_tr = transports@;
        let ghost keys = old_tr.map_values(|e: (String, usize)| e.0@);
        proof {
            lemma_first_occurrences_contains(transports_of(pre), r.transport@);
            lemma_first_occurrences_distinct(transports_of(pre));
            lemma_transport_count_step(pre, post);
        }
        if found {
            assert(keys[k as int] == r.transport@);
            assert(keys.contains(r.transport@));
            let (name, c) = transports.remove(k);
            proof {
                lemma_transport_count_positive(pre, r.transport@);
            }
            transports.insert(k, (name, c + 1));
            proof {
                assert(transports@ =~= old_tr.update(k as int, (old_tr[k as int].0, (old_tr[k as int].1 + 1) as usize)));
                assert(transports@.map_values(|e: (String, usize)| e.0@) =~= keys);
                assert forall|j: int|
                    0 <= j < transports@.len() implies (#[trigger] transports@[j]).1 == transport_count(post, transports@[j].0@) by {
                    if j != k {
                        assert(keys[j] != keys[k as int]);
                    }
                }
            }
        } else {
            assert(!keys.contains(r.transport@)) by {
                if keys.contains(r.transport@) {
                    let j = choose|j: int| 0 <= j < keys.len() && keys[j] == r.transport@;
                    assert(old_tr[j].0@ == r.transport@);
                }
            }
            proof {
                lemma_transport_count_zero(pre, r.transport@);
            }
            transports.push((String::from_str(r.transport.as_str()), 1));
            proof {
                assert(transports@.map_values(|e: (String, usize)| e.0@) =~= keys.push(r.transport@));
                assert forall|j: int|
                    0 <= j < transports@.len() implies (#[trigger] transports@[j]).1 == transport_count(post, transports@[j].0@) by {
                    if j < old_tr.len() {
                        assert(transports@[j] == old_tr[j]);
                    }
                }
            }
        }
        if eq_text(&r.bypass_tier, "PHANTOM") {
            let ghost before = texts(phantom@);
            phantom.push(String::from_str(r.bridge_line.as_str()));
            assert(texts(phantom@) =~= before.push(r.bridge_line@));
        }
        if eq_text(&r.bypass_tier, "STEALTH") {
            let ghost before = texts(stealth@);
            stealth.push(String::from_str(r.bridge_line.as_str()));
            assert(texts(stealth@) =~= before.push(r.bridge_line@));
        }
        i += 1;
    }
    assert(results@.take(results@.len() as int) =~= results@);
    let mut best: Vec<String> = Vec::new();
    let mut k: usize = 0;
    while k < phantom.len()
        invariant
            k <= phantom@.len(),
            texts(best@) == texts(phantom@).take(k as int),
        decreases phantom@.len() - k,
    {
        let ghost before = texts(best@);
        best.push(String::from_str(phantom[k].as_str()));
        assert(texts(best@) =~= before.push(phantom@[k as int]@));
        assert(texts(best@) =~= texts(phantom@).take(k + 1));
        k += 1;
    }
    assert(texts(phantom@).take(phantom@.len() as int) =~= texts(phantom@));
    let mut m: usize = 0;
    while m < stealth.len()
        invariant
            m <= stealth@.len(),
            texts(best@) == texts(phantom@) + texts(stealth@).take(m as int),
        decreases stealth@.len() - m,
    {
        let ghost before = texts(best@);
        best.push(String::from_str(stealth[m].as_str()));
        assert(texts(best@) =~= before.push(stealth@[m as int]@));
        assert(texts(best@) =~= texts(phantom@) + texts(stealth@).take(m + 1));
        m += 1;
    }
    assert(texts(stealth@).take(stealth@.len() as int) =~= texts(stealth@));
    PipelineSummary { tier_summary: tiers, transport_summary: transports, phantom_lines: phantom, stealth_lines: stealth, best_lines: best }
}

fn eq_text(s: &String, lit: &str) -> (b: bool)
    ensures
        b == (s@ == lit@),
{
    crate::text::eq_str(&to_chars(s.as_str()), lit)
}

/// The text of an export file: its lines, each ended by a newline; `None`
/// when there are none (no file is written then).
pub fn export_body(lines: &Vec<String>) -> (r: Option<String>)
    ensures
        match r {
            Some(t) => lines@.len() > 0 && t@ == crate::text::join(texts(lines@), "\n"@) + "\n"@,
            None => lines@.len() == 0,
        },
{
    if lines.len() == 0 {
        return None;
    }
    let mut t = String::new();
    crate::text::push_joined_strings(&mut t, lines, "\n");
    crate::text::push_str(&mut t, "\n");
    Some(t)
}


// ───────────────────────────── markdown analysis ─────────────────────────────

/// Lines after the summary header, up to the tier table's rows.
pub open spec fn md_tier_head() -> Seq<&'static str> {
    seq!["", "---", "", "## 📊 خلاصه لایه\u{200c}بندی SIAM / SIAM Bypass Tier Summary", "", "| سطح / Tier | تعداد / Count | توضیح / Description |", "| :--- | :---: | :--- |"]
}

/// Lines after the tier table, up to the transport table's rows.
pub open spec fn md_middle() -> Seq<&'static str> {
    seq!["", "---", "", "## 🔬 ۸ لایه سیستم SIAM ایران / 8 Layers of Iran SIAM DPI", "", "| لایه | نام | توضیح |", "| :--- | :--- | :--- |", "| L1 | Packet Length Fingerprinting | CNN تحلیل هیستوگرام اندازه بسته\u{200c}ها |", "| L2 | IAT Timing Analysis | LSTM تحلیل فواصل زمانی بین بسته\u{200c}ها |", "| L3 | Flow Feature Extraction | NetFlow + گشتاورهای آماری |", "| L4 | JA3/JA3S Fingerprint | پایگاه داده ۵۰k اثر انگشت TLS |", "| L5 | Certificate + SNI | تطبیق گواهی و SNI با پایگاه داده رله Tor |", "| L6 | ALPN Anomaly | تشخیص ALPN نامعمول روی پورت ۴۴۳ |", "| L7 | Temporal Analysis | تشخیص ضربان ۱ ثانیه\u{200c}ای Tor vanilla |", "| L8 | AS Relationship Graph | ارتباط ASN رله با شبکه\u{200c}های CDN |", "", "---", "", "## 🚀 راهنمای انتخاب پل / Bridge Selection Guide", "", "```", "شبکه ملی فعال (NIN / قطع اینترنت بین\u{200c}المللی):", "  → export/iran_phantom_bridges.txt  (Snowflake + WebTunnel CDN)", "", "فیلترینگ معمولی SIAM:", "  → export/iran_stealth_bridges.txt  (obfs4 IAT-2 + meek-lite)", "", "هر شرایطی / Any condition:", "  → bridge/iran_likely_working_all.txt", "```", "", "---", "", "## 📈 توزیع transport / Transport Distribution", "", "| Transport | تعداد |", "| :--- | :---: |"]
}

/// Lines after the transport table.
pub open spec fn md_tail() -> Seq<&'static str> {
    seq!["", "---", "", "*تولید شده توسط iran_anti_siam.py — TorShield-IR*"]
}

/// The texts of literal lines.
pub open spec fn literal_lines(ls: Seq<&'static str>) -> Seq<Seq<char>> {
    ls.map_values(|l: &'static str| l@)
}

/// The tier table's rows: the tier, its count, its description.
pub open spec fn tier_rows(counts: Seq<nat>) -> Seq<Seq<char>> {
    seq![
        "| 👻 PHANTOM  | "@ + decimal(counts[0]) + "  | کاملاً ناشناس — سیستم SIAM هیچ سیگنالی دریافت نمی\u{200c}کند |"@,
        "| 🕶\u{fe0f} STEALTH  | "@ + decimal(counts[1]) + "  | قوی — از ۶-۷ لایه از ۸ لایه عبور می\u{200c}کند |"@,
        "| 🥷 COVERT   | "@ + decimal(counts[2]) + "   | متوسط — از ۴-۵ لایه عبور می\u{200c}کند |"@,
        "| ⚠\u{fe0f} EXPOSED  | "@ + decimal(counts[3]) + "  | ضعیف — اکثر لایه\u{200c}های SIAM تشخیص می\u{200c}دهند |"@,
        "| 🚫 DETECTED | "@ + decimal(counts[4]) + " | بلاک می\u{200c}شود — SIAM تشخیص کامل می\u{200c}دهد |"@,
    ]
}

/// The transport table's rows, in the given order.
pub open spec fn transport_rows(tc: Seq<(String, usize)>, order: Seq<usize>) -> Seq<Seq<char>>
    decreases order.len(),
{
    if order.len() == 0 {
        Seq::empty()
    } else {
        transport_rows(tc, order.drop_last()) + seq![
            "| "@ + tc[order.last() as int].0@ + " | "@ + decimal(tc[order.last() as int].1 as nat) + " |"@,
        ]
    }
}

/// The lines of the SIAM analysis: its title, when it was made, how many
/// bridges it covers, their mean and best evasion scores (as rendered), the
/// bridges per tier, the eight SIAM layers and the selection guide, and the
/// bridges per transport in `order`.
pub open spec fn md_lines(ts: Seq<char>, total: nat, mean: Seq<char>, best: Seq<char>, counts: Seq<nat>, tc: Seq<(String, usize)>, order: Seq<usize>) -> Seq<Seq<char>> {
    seq!["# 🛡\u{fe0f} گزارش تحلیل SIAM ایران / Iran SIAM DPI Analysis"@, Seq::empty()]
        + seq![
            "> آخرین بروزرسانی: `"@ + ts + "`  "@,
            "> کل پل\u{200c}های تحلیل\u{200c}شده: **"@ + decimal(total) + "**  "@,
            "> میانگین امتیاز دور زدن: **"@ + mean + "%**  "@,
            "> بهترین امتیاز: **"@ + best + "%**"@,
        ]
        + literal_lines(md_tier_head())
        + tier_rows(counts)
        + literal_lines(md_middle())
        + transport_rows(tc, order)
        + literal_lines(md_tail())
}

/// The tiers of the table, in row order.
pub open spec fn md_tiers() -> Seq<Seq<char>> {
    seq!["PHANTOM"@, "STEALTH"@, "COVERT"@, "EXPOSED"@, "DETECTED"@]
}

fn push_literal_lines(lines: &mut Vec<String>, block: &Vec<&'static str>)
    ensures
        texts(final(lines)@) == texts(old(lines)@) + literal_lines(block@),
{
    let mut i: usize = 0;
    while i < block.len()
        invariant
            i <= block@.len(),
            texts(lines@) == texts(old(lines)@) + literal_lines(block@.take(i as int)),
        decreases block@.len() - i,
    {
        let ghost before = texts(lines@);
        lines.push(String::from_str(block[i]));
        assert(texts(lines@) =~= before.push(block@[i as int]@));
        assert(literal_lines(block@.take(i + 1)) =~= literal_lines(block@.take(i as int)).push(block@[i as int]@));
        i += 1;
    }
    assert(block@.take(block@.len() as int) =~= block@);
}

fn push_text(lines: &mut Vec<String>, s: String)
    ensures
        texts(final(lines)@) == texts(old(lines)@).push(s@),
{
    let ghost before = texts(lines@);
    lines.push(s);
    assert(texts(lines@) =~= before.push(s@));
}

fn framed(pre: &str, mid: &str, post: &str) -> (s: String)
    ensures
        s@ == pre@ + mid@ + post@,
{
    let mut s = String::from_str(pre);
    crate::text::push_str(&mut s, mid);
    crate::text::push_str(&mut s, post);
    s
}

fn framed_count(pre: &str, n: u64, post: &str) -> (s: String)
    ensures
        s@ == pre@ + decimal(n as nat) + post@,
{
    let mut s = String::from_str(pre);
    crate::text::push_decimal(&mut s, n);
    crate::text::push_str(&mut s, post);
    s
}

/// The count recorded for `key` in a tally (0 when absent).
pub fn lookup_count(m: &Vec<(String, usize)>, key: &str) -> (c: usize)
    ensures
        c == count_of(m@, key@),
{
    let kv = to_chars(key);
    let mut i: usize = m.len();
    assert(m@.take(i as int) =~= m@);
    while i > 0
        invariant
            i <= m@.len(),
            kv@ == key@,
            count_of(m@, key@) == count_of(m@.take(i as int), key@),
        decreases i,
    {
        assert(m@.take(i as int).drop_last() =~= m@.take(i - 1));
        assert(m@.take(i as int).last() == m@[i - 1]);
        if chars_eq(&to_chars(m[i - 1].0.as_str()), &kv) {
            return m[i - 1].1;
        }
        i -= 1;
    }
    0
}

/// `order` lists the positions of `tc` from the highest count down, equal
/// counts in their given order.
pub open spec fn is_count_rank(tc: Seq<(String, usize)>, order: Seq<usize>) -> bool {
    &&& order.len() == tc.len()
    &&& forall|j: usize| j < tc.len() ==> order.contains(j)
    &&& forall|k: int, l: int|
        0 <= k < l < order.len() ==> {
            ||| tc[#[trigger] order[k] as int].1 > tc[#[trigger] order[l] as int].1
            ||| (tc[order[k] as int].1 == tc[order[l] as int].1 && order[k] < order[l])
        }
}

/// The SIAM analysis in markdown (see [`md_lines`]): `ts` is when it was
/// made, `total` the bridges scored, `mean` and `best` their mean and best
/// evasion scores as rendered, `tier_summary` the bridges per tier and
/// `transport_summary` the bridges per transport, listed from the most
/// used down (ties in their given order).
pub fn build_md_report(total: usize, tier_summary: &Vec<(String, usize)>, transport_summary: &Vec<(String, usize)>, ts: &str, mean: &str, best: &str) -> (r: String)
    ensures
        exists|order: Seq<usize>|
            #[trigger] is_count_rank(transport_summary@, order) && r@ == crate::text::join(
                md_lines(
                    ts@,
                    total as nat,
                    mean@,
                    best@,
                    md_tiers().map_values(|t: Seq<char>| count_of(tier_summary@, t)),
                    transport_summary@,
                    order,
                ),
                "\n"@,
            ),
{
    let mut lines: Vec<String> = Vec::new();
    push_text(&mut lines, String::from_str("# 🛡\u{fe0f} گزارش تحلیل SIAM ایران / Iran SIAM DPI Analysis"));
    push_text(&mut lines, String::new());
    push_text(&mut lines, framed("> آخرین بروزرسانی: `", ts, "`  "));
    push_text(&mut lines, framed_count("> کل پل\u{200c}های تحلیل\u{200c}شده: **", total as u64, "**  "));
    push_text(&mut lines, framed("> میانگین امتیاز دور زدن: **", mean, "%**  "));
    push_text(&mut lines, framed("> بهترین امتیاز: **", best, "%**"));
    let head: Vec<&'static str> = vec!["", "---", "", "## 📊 خلاصه لایه\u{200c}بندی SIAM / SIAM Bypass Tier Summary", "", "| سطح / Tier | تعداد / Count | توضیح / Description |", "| :--- | :---: | :--- |"];
    assert(head@ =~= md_tier_head());
    push_literal_lines(&mut lines, &head);
    let ghost before_rows = texts(lines@);
    let c0 = lookup_count(tier_summary, "PHANTOM");
    push_text(&mut lines, framed_count("| 👻 PHANTOM  | ", c0 as u64, "  | کاملاً ناشناس — سیستم SIAM هیچ سیگنالی دریافت نمی\u{200c}کند |"));
    let c1 = lookup_count(tier_summary, "STEALTH");
    push_text(&mut lines, framed_count("| 🕶\u{fe0f} STEALTH  | ", c1 as u64, "  | قوی — از ۶-۷ لایه از ۸ لایه عبور می\u{200c}کند |"));
    let c2 = lookup_count(tier_summary, "COVERT");
    push_text(&mut lines, framed_count("| 🥷 COVERT   | ", c2 as u64, "   | متوسط — از ۴-۵ لایه عبور می\u{200c}کند |"));
    let c3 = lookup_count(tier_summary, "EXPOSED");
    push_text(&mut lines, framed_count("| ⚠\u{fe0f} EXPOSED  | ", c3 as u64, "  | ضعیف — اکثر لایه\u{200c}های SIAM تشخیص می\u{200c}دهند |"));
    let c4 = lookup_count(tier_summary, "DETECTED");
    push_text(&mut lines, framed_count("| 🚫 DETECTED | ", c4 as u64, " | بلاک می\u{200c}شود — SIAM تشخیص کامل می\u{200c}دهد |"));
    let ghost counts = md_tiers().map_values(|t: Seq<char>| count_of(tier_summary@, t));
    assert(texts(lines@) =~= before_rows + tier_rows(counts));
    let middle: Vec<&'static str> = vec!["", "---", "", "## 🔬 ۸ لایه سیستم SIAM ایران / 8 Layers of Iran SIAM DPI", "", "| لایه | نام | توضیح |", "| :--- | :--- | :--- |", "| L1 | Packet Length Fingerprinting | CNN تحلیل هیستوگرام اندازه بسته\u{200c}ها |", "| L2 | IAT Timing Analysis | LSTM تحلیل فواصل زمانی بین بسته\u{200c}ها |", "| L3 | Flow Feature Extraction | NetFlow + گشتاورهای آماری |", "| L4 | JA3/JA3S Fingerprint | پایگاه داده ۵۰k اثر انگشت TLS |", "| L5 | Certificate + SNI | تطبیق گواهی و SNI با پایگاه داده رله Tor |", "| L6 | ALPN Anomaly | تشخیص ALPN نامعمول روی پورت ۴۴۳ |", "| L7 | Temporal Analysis | تشخیص ضربان ۱ ثانیه\u{200c}ای Tor vanilla |", "| L8 | AS Relationship Graph | ارتباط ASN رله با شبکه\u{200c}های CDN |", "", "---", "", "## 🚀 راهنمای انتخاب پل / Bridge Selection Guide", "", "```", "شبکه ملی فعال (NIN / قطع اینترنت بین\u{200c}المللی):", "  → export/iran_phantom_bridges.txt  (Snowflake + WebTunnel CDN)", "", "فیلترینگ معمولی SIAM:", "  → export/iran_stealth_bridges.txt  (obfs4 IAT-2 + meek-lite)", "", "هر شرایطی / Any condition:", "  → bridge/iran_likely_working_all.txt", "```", "", "---", "", "## 📈 توزیع transport / Transport Distribution", "", "| Transport | تعداد |", "| :--- | :---: |"];
    assert(middle@ =~= md_middle());
    push_literal_lines(&mut lines, &middle);
    let ghost before_transports = texts(lines@);
    let mut scores: Vec<u64> = Vec::new();
    let mut i: usize = 0;
    while i < transport_summary.len()
        invariant
            i <= transport_summary@.len(),
            scores@.len() == i,
            forall|k: int| 0 <= k < i ==> #[trigger] scores@[k] == transport_summary@[k].1 as u64,
        decreases transport_summary@.len() - i,
    {
        scores.push(transport_summary[i].1 as u64);
        i += 1;
    }
    let order = crate::iran_nin_bypass::rank_by_score(&scores);
    let mut k: usize = 0;
    while k < order.len()
        invariant
            k <= order@.len(),
            order@.len() == scores@.len(),
            scores@.len() == transport_summary@.len(),
            forall|m: int| 0 <= m < order@.len() ==> order@[m] < scores@.len(),
            texts(lines@) == before_transports + transport_rows(transport_summary@, order@.take(k as int)),
        decreases order@.len() - k,
    {
        let e = &transport_summary[order[k]];
        assert(order@.take(k + 1).drop_last() =~= order@.take(k as int));
        assert(order@.take(k + 1).last() == order@[k as int]);
        let mut row = framed("| ", e.0.as_str(), " | ");
        crate::text::push_decimal(&mut row, e.1 as u64);
        crate::text::push_str(&mut row, " |");
        push_text(&mut lines, row);
        assert(texts(lines@) =~= before_transports + transport_rows(transport_summary@, order@.take(k + 1)));
        k += 1;
    }
    assert(order@.take(order@.len() as int) =~= order@);
    let tail: Vec<&'static str> = vec!["", "---", "", "*تولید شده توسط iran_anti_siam.py — TorShield-IR*"];
    assert(tail@ =~= md_tail());
    push_literal_lines(&mut lines, &tail);
    proof {
        assert(texts(lines@) =~= md_lines(ts@, total as nat, mean@, best@, counts, transport_summary@, order@));
        assert forall|k: int, l: int|
            0 <= k < l < order@.len() implies {
                ||| transport_summary@[#[trigger] order@[k] as int].1 > transport_summary@[#[trigger] order@[l] as int].1
                ||| (transport_summary@[order@[k] as int].1 == transport_summary@[order@[l] as int].1 && order@[k] < order@[l])
            } by {
            assert(crate::iran_nin_bypass::ranks_before(scores@, order@[k], order@[l]));
        }
        assert(is_count_rank(transport_summary@, order@));
    }
    let mut r = String::new();
    crate::text::push_joined_strings(&mut r, &lines, "\n");
    r
}


// ───────────────────────────── timestamps ─────────────────────────────

/// `s` left-padded with zeros to `w` characters.
pub open spec fn zero_padded(s: Seq<char>, w: nat) -> Seq<char>
    decreases w - s.len(),
{
    if s.len() >= w {
        s
    } else {
        zero_padded(seq!['0'] + s, w)
    }
}

/// An instant in ISO 8601 with a `+00:00` offset: seconds, then the
/// microseconds in six digits unless the instant falls on a whole second.
pub open spec fn iso_text(base: Seq<char>, nanos: u32) -> Seq<char> {
    if nanos == 0 {
        base + "+00:00"@
    } else {
        base + "."@ + zero_padded(decimal((nanos / 1000) as nat), 6) + "+00:00"@
    }
}

pub(crate) fn pad_zeros(s: String, w: usize) -> (r: String)
    ensures
        r@ == zero_padded(s@, w as nat),
    decreases w - s@.len(),
{
    if s.as_str().unicode_len() >= w {
        s
    } else {
        let mut t = String::from_str("0");
        crate::text::push_str(&mut t, s.as_str());
        proof {
            reveal_strlit("0");
            assert(t@ =~= seq!['0'] + s@);
        }
        pad_zeros(t, w)
    }
}

/// When a pipeline run was made: the instant in ISO 8601 (as stamped in
/// the JSON report) and to the minute (as stamped in the markdown
/// analysis); `None` where the instant cannot be rendered.
pub fn run_timestamps(secs: i64, nanos: u32) -> (r: Option<(String, String)>)
    ensures
        match r {
            Some((iso, human)) => {
                &&& crate::timefmt::iso_seconds_text(secs) matches Some(base) && iso@ == iso_text(base, nanos)
                &&& crate::timefmt::minute_text(secs) == Some(human@)
            },
            None => crate::timefmt::iso_seconds_text(secs) is None || crate::timefmt::minute_text(secs) is None,
        },
{
    let base = match crate::timefmt::utc_iso_seconds(secs) {
        Some(b) => b,
        None => return None,
    };
    let human = match crate::timefmt::utc_minute(secs) {
        Some(h) => h,
        None => return None,
    };
    let mut iso = base;
    if nanos == 0 {
        crate::text::push_str(&mut iso, "+00:00");
    } else {
        crate::text::push_str(&mut iso, ".");
        let mut us = String::new();
        crate::text::push_decimal(&mut us, (nanos / 1000) as u64);
        let padded = pad_zeros(us, 6);
        crate::text::push_str(&mut iso, padded.as_str());
        crate::text::push_str(&mut iso, "+00:00");
    }
    Some((iso, human))
}

} // verus!
