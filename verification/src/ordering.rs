//! Lexicographic order on strings (the order of `String`'s `Ord`: code
//! point by code point, which is also UTF-8 byte order) and a verified
//! sort-and-deduplicate of string lists.
use vstd::prelude::*;
use crate::text::to_chars;

verus! {

/// `a < b` in the order of `str`'s `Ord`.
pub open spec fn lex_lt(a: Seq<char>, b: Seq<char>) -> bool
    decreases a.len(),
{
    if a.len() == 0 {
        b.len() > 0
    } else if b.len() == 0 {
        false
    } else if a[0] != b[0] {
        a[0] < b[0]
    } else {
        lex_lt(a.drop_first(), b.drop_first())
    }
}

pub proof fn lemma_lex_irreflexive(a: Seq<char>)
    ensures
        !lex_lt(a, a),
    decreases a.len(),
{
    if a.len() > 0 {
        lemma_lex_irreflexive(a.drop_first());
    }
}

pub proof fn lemma_lex_asymmetric(a: Seq<char>, b: Seq<char>)
    requires
        lex_lt(a, b),
    ensures
        !lex_lt(b, a),
    decreases a.len(),
{
    if a.len() > 0 && b.len() > 0 && a[0] == b[0] {
        lemma_lex_asymmetric(a.drop_first(), b.drop_first());
    }
}

pub proof fn lemma_lex_transitive(a: Seq<char>, b: Seq<char>, c: Seq<char>)
    requires
        lex_lt(a, b),
        lex_lt(b, c),
    ensures
        lex_lt(a, c),
    decreases a.len(),
{
    if a.len() > 0 && b.len() > 0 && c.len() > 0 && a[0] == b[0] && b[0] == c[0] {
        lemma_lex_transitive(a.drop_first(), b.drop_first(), c.drop_first());
    }
}

pub proof fn lemma_lex_total(a: Seq<char>, b: Seq<char>)
    requires
        a != b,
    ensures
        lex_lt(a, b) || lex_lt(b, a),
    decreases a.len(),
{
    if a.len() == 0 && b.len() == 0 {
        assert(a =~= b);
    }
    if a.len() > 0 && b.len() > 0 && a[0] != b[0] {
    }
    if a.len() > 0 && b.len() > 0 && a[0] == b[0] {
        if a.drop_first() == b.drop_first() {
            assert(a =~= b) by {
                assert(a.drop_first().len() == a.len() - 1);
                assert(b.drop_first().len() == b.len() - 1);
                assert(a.len() == b.len());
                assert forall|i: int| 0 <= i < a.len() implies a[i] == b[i] by {
                    if i > 0 {
                        assert(a[i] == a.drop_first()[i - 1]);
                        assert(b[i] == b.drop_first()[i - 1]);
                    }
                }
            }
        } else {
            lemma_lex_total(a.drop_first(), b.drop_first());
        }
    }
}

/// Whether `a < b` lexicographically.
pub fn lex_less(a: &Vec<char>, b: &Vec<char>) -> (r: bool)
    ensures
        r == lex_lt(a@, b@),
{
    let mut i: usize = 0;
    assert(a@.skip(0) =~= a@);
    assert(b@.skip(0) =~= b@);
    while i < a.len() && i < b.len()
        invariant
            i <= a.len(),
            i <= b.len(),
            lex_lt(a@, b@) == lex_lt(a@.skip(i as int), b@.skip(i as int)),
        decreases a.len() - i,
    {
        if a[i] != b[i] {
            return a[i] < b[i];
        }
        assert(a@.skip(i as int).drop_first() =~= a@.skip(i + 1));
        assert(b@.skip(i as int).drop_first() =~= b@.skip(i + 1));
        i += 1;
    }
    i < b.len()
}

fn string_less(s: &String, xv: &Vec<char>) -> (b: bool)
    ensures
        b == lex_lt(s@, xv@),
{
    let sv = to_chars(s.as_str());
    lex_less(&sv, xv)
}

pub proof fn lemma_push_contains<T>(s: Seq<T>, e: T, y: T)
    ensures
        s.push(e).contains(y) <==> (s.contains(y) || y == e),
{
    if s.push(e).contains(y) {
        let k = choose|k: int| 0 <= k < s.push(e).len() && s.push(e)[k] == y;
        if k < s.len() {
            assert(s[k] == y);
        }
    }
    if s.contains(y) {
        let k = choose|k: int| 0 <= k < s.len() && s[k] == y;
        assert(s.push(e)[k] == y);
    }
    if y == e {
        assert(s.push(e)[s.len() as int] == y);
    }
}

pub proof fn lemma_insert_contains<T>(s: Seq<T>, p: int, e: T, y: T)
    requires
        0 <= p <= s.len(),
    ensures
        s.insert(p, e).contains(y) <==> (s.contains(y) || y == e),
{
    let t = s.insert(p, e);
    if t.contains(y) {
        let k = choose|k: int| 0 <= k < t.len() && t[k] == y;
        if k < p {
            assert(s[k] == y);
        } else if k > p {
            assert(s[k - 1] == y);
        }
    }
    if s.contains(y) {
        let k = choose|k: int| 0 <= k < s.len() && s[k] == y;
        if k < p {
            assert(t[k] == y);
        } else {
            assert(t[k + 1] == y);
        }
    }
    if y == e {
        assert(t[p] == y);
    }
}

/// Strictly increasing: sorted with no duplicates.
pub open spec fn strictly_sorted(s: Seq<Seq<char>>) -> bool {
    forall|i: int, j: int| 0 <= i < j < s.len() ==> lex_lt(#[trigger] s[i], #[trigger] s[j])
}

/// The texts of a list of strings.
pub open spec fn texts(v: Seq<String>) -> Seq<Seq<char>> {
    v.map_values(|s: String| s@)
}

/// Sorts `v` and removes duplicates (`sorted(set(v))`).
pub fn sort_dedup(v: Vec<String>) -> (r: Vec<String>)
    ensures
        strictly_sorted(texts(r@)),
        forall|x: Seq<char>| texts(r@).contains(x) <==> texts(v@).contains(x),
{
    let mut r: Vec<String> = Vec::new();
    let mut n: usize = 0;
    while n < v.len()
        invariant
            n <= v.len(),
            strictly_sorted(texts(r@)),
            forall|x: Seq<char>| texts(r@).contains(x) <==> texts(v@.take(n as int)).contains(x),
        decreases v.len() - n,
    {
        let x = v[n].clone();
        let xv = to_chars(x.as_str());
        let ghost xs = x@;
        // position of the first element not below x
        let mut p: usize = 0;
        while p < r.len() && string_less(&r[p], &xv)
            invariant
                p <= r.len(),
                xv@ == xs,
                forall|k: int| 0 <= k < p ==> lex_lt(#[trigger] texts(r@)[k], xs),
            decreases r.len() - p,
        {
            p += 1;
        }
        let ghost old_r = texts(r@);
        let mut dup = false;
        if p < r.len() {
            let rv = to_chars(r[p].as_str());
            dup = crate::text::chars_eq(&rv, &xv);
        }
        assert(texts(v@.take(n + 1)) =~= texts(v@.take(n as int)).push(xs));
        if !dup {
            r.insert(p, x);
            proof {
                let nr = texts(r@);
                assert(nr =~= old_r.insert(p as int, xs));
                if p < old_r.len() {
                    lemma_lex_total(old_r[p as int], xs);
                    assert(lex_lt(xs, old_r[p as int]));
                }
                assert forall|i: int, j: int| 0 <= i < j < nr.len() implies lex_lt(#[trigger] nr[i], #[trigger] nr[j]) by {
                    if j < p {
                    } else if i < p && j == p {
                    } else if i < p && j > p {
                        assert(lex_lt(old_r[i], old_r[j - 1]));
                    } else if i == p {
                        if j - 1 > p {
                            lemma_lex_transitive(xs, old_r[p as int], old_r[j - 1]);
                        }
                    } else {
                        assert(lex_lt(old_r[i - 1], old_r[j - 1]));
                    }
                }
                assert forall|y: Seq<char>| nr.contains(y) <==> texts(v@.take(n + 1)).contains(y) by {
                    lemma_insert_contains(old_r, p as int, xs, y);
                    lemma_push_contains(texts(v@.take(n as int)), xs, y);
                }
            }
        } else {
            proof {
                assert(old_r[p as int] == xs);
                assert(old_r.contains(xs));
                assert forall|y: Seq<char>| texts(r@).contains(y) <==> texts(v@.take(n + 1)).contains(y) by {
                    lemma_push_contains(texts(v@.take(n as int)), xs, y);
                }
            }
        }
        n += 1;
    }
    assert(v@.take(v.len() as int) =~= v@);
    r
}

} // verus!
