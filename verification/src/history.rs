//! The bridge history database: one record per bridge, keyed by the
//! normalised bridge line, holding when the bridge was first and last seen,
//! its latest test result, its score, and a bounded log of probe
//! observations.
//!
//! Reading and writing the database file, and reading instants out of
//! timestamp text, are the caller's; instants are given in nanoseconds
//! since the Unix epoch.
use vstd::prelude::*;
use crate::text::{trim, starts_with, ascii_lower_char, eq_ignore_ascii_case, to_chars, trim_chars, starts_with_str,
    slice_range, string_of, push_char, eq_ignore_ascii_case_str};
use crate::ordering::{lex_lt, lex_less, lemma_lex_irreflexive, lemma_lex_transitive, lemma_lex_total};
use crate::evidence_stamp::{keys_sorted, count_of, counts_positive, bump_count};

verus! {

/// One timestamped probe observation of a bridge.
#[derive(Debug)]
pub struct ProbeRecord {
    pub timestamp: String,
    pub passed: bool,
    pub latency_ms: Option<i64>,
}

/// What a probe observation says: its timestamp text, outcome and latency.
pub open spec fn probe_view(p: ProbeRecord) -> (Seq<char>, bool, Option<i64>) {
    (p.timestamp@, p.passed, p.latency_ms)
}

/// The observations of a probe log, in order.
pub open spec fn probes_view(ps: Seq<ProbeRecord>) -> Seq<(Seq<char>, bool, Option<i64>)> {
    ps.map_values(|p: ProbeRecord| probe_view(p))
}

/// One bridge's history record.
#[derive(Debug)]
pub struct BridgeRecord {
    pub raw: String,
    pub transport: String,
    pub first_seen: String,
    pub last_seen: String,
    pub test_pass: Option<bool>,
    pub test_time: Option<String>,
    pub latency_ms: Option<i64>,
    pub score: i64,
    /// Probe observations, oldest first.
    pub probes: Vec<ProbeRecord>,
}

/// The text of an optional string.
pub open spec fn opt_text(o: Option<String>) -> Option<Seq<char>> {
    match o {
        Some(s) => Some(s@),
        None => None,
    }
}

/// `a` and `b` hold the same values.
pub open spec fn same_record(a: BridgeRecord, b: BridgeRecord) -> bool {
    &&& a.raw@ == b.raw@
    &&& a.transport@ == b.transport@
    &&& a.first_seen@ == b.first_seen@
    &&& a.last_seen@ == b.last_seen@
    &&& a.test_pass == b.test_pass
    &&& opt_text(a.test_time) == opt_text(b.test_time)
    &&& a.latency_ms == b.latency_ms
    &&& a.score == b.score
    &&& probes_view(a.probes@) == probes_view(b.probes@)
}

fn copy_text(s: &String) -> (r: String)
    ensures
        r@ == s@,
{
    s.clone()
}

fn copy_opt_text(o: &Option<String>) -> (r: Option<String>)
    ensures
        opt_text(r) == opt_text(*o),
{
    match o {
        Some(s) => Some(copy_text(s)),
        None => None,
    }
}

fn copy_probe(p: &ProbeRecord) -> (r: ProbeRecord)
    ensures
        probe_view(r) == probe_view(*p),
{
    ProbeRecord { timestamp: copy_text(&p.timestamp), passed: p.passed, latency_ms: p.latency_ms }
}

fn copy_probes(ps: &Vec<ProbeRecord>) -> (r: Vec<ProbeRecord>)
    ensures
        probes_view(r@) == probes_view(ps@),
{
    let mut r: Vec<ProbeRecord> = Vec::new();
    let mut i: usize = 0;
    while i < ps.len()
        invariant
            i <= ps.len(),
            r@.len() == i,
            probes_view(r@) == probes_view(ps@.take(i as int)),
        decreases ps.len() - i,
    {
        let ghost before = r@;
        let p = copy_probe(&ps[i]);
        r.push(p);
        assert(probes_view(r@) =~= probes_view(ps@.take(i + 1))) by {
            assert(r@ =~= before.push(p));
            assert(ps@.take(i + 1) =~= ps@.take(i as int).push(ps@[i as int]));
            assert forall|k: int| 0 <= k < i implies probe_view(#[trigger] r@[k]) == probe_view(ps@[k]) by {
                assert(probe_view(before[k]) == probes_view(before)[k]);
                assert(probes_view(ps@.take(i as int))[k] == probe_view(ps@[k]));
            }
        }
        i += 1;
    }
    assert(ps@.take(ps.len() as int) =~= ps@);
    r
}

fn copy_record(b: &BridgeRecord) -> (r: BridgeRecord)
    ensures
        same_record(r, *b),
{
    BridgeRecord {
        raw: copy_text(&b.raw),
        transport: copy_text(&b.transport),
        first_seen: copy_text(&b.first_seen),
        last_seen: copy_text(&b.last_seen),
        test_pass: b.test_pass,
        test_time: copy_opt_text(&b.test_time),
        latency_ms: b.latency_ms,
        score: b.score,
        probes: copy_probes(&b.probes),
    }
}

// ───────────────────────────── keys ─────────────────────────────

/// The database key of a bridge line: the trimmed line without a leading
/// `Bridge ` prefix, ASCII-lower-cased.
pub open spec fn key_spec(line: Seq<char>) -> Seq<char> {
    let t = trim(line);
    let s = if starts_with(t, "Bridge "@) { t.skip(7) } else { t };
    s.map_values(|c: char| ascii_lower_char(c))
}

fn ascii_lowercase(v: &Vec<char>) -> (r: String)
    ensures
        r@ == v@.map_values(|c: char| ascii_lower_char(c)),
{
    let mut r = String::new();
    let mut i: usize = 0;
    while i < v.len()
        invariant
            i <= v.len(),
            r@ == v@.take(i as int).map_values(|c: char| ascii_lower_char(c)),
        decreases v.len() - i,
    {
        let x = v[i];
        let lx = if 'A' <= x && x <= 'Z' { ((x as u32) + 32) as u8 as char } else { x };
        assert(lx == ascii_lower_char(x)) by {
            if 'A' <= x && x <= 'Z' {
                assert(((x as u32) + 32) as u8 as char == ((x as u32) + 32) as char);
            }
        }
        push_char(&mut r, lx);
        assert(r@ =~= v@.take(i + 1).map_values(|c: char| ascii_lower_char(c)));
        i += 1;
    }
    assert(v@.take(v.len() as int) =~= v@);
    r
}

/// The sorted entries of the database have strictly increasing keys.
pub open spec fn keys_increasing(db: Seq<(String, BridgeRecord)>) -> bool {
    forall|i: int, j: int| 0 <= i < j < db.len() ==> lex_lt(#[trigger] db[i].0@, #[trigger] db[j].0@)
}

/// Some entry has key `k`.
pub open spec fn has_key(db: Seq<(String, BridgeRecord)>, k: Seq<char>) -> bool {
    exists|i: int| 0 <= i < db.len() && (#[trigger] db[i]).0@ == k
}

/// `new` is a fresh record for `raw` over `transport`, first and last seen
/// at `now`.
pub open spec fn fresh_record(r: BridgeRecord, raw: Seq<char>, transport: Seq<char>, now: Seq<char>) -> bool {
    &&& r.raw@ == raw
    &&& r.transport@ == transport
    &&& r.first_seen@ == now
    &&& r.last_seen@ == now
    &&& r.test_pass is None
    &&& r.test_time is None
    &&& r.latency_ms is None
    &&& r.score == 0
    &&& r.probes@.len() == 0
}

/// `db2` is `db` with the record at `i` replaced by one satisfying `f`
/// (keys unchanged).
pub open spec fn changed_at(
    db: Seq<(String, BridgeRecord)>,
    db2: Seq<(String, BridgeRecord)>,
    i: int,
) -> bool {
    &&& 0 <= i < db.len()
    &&& db2.len() == db.len()
    &&& db2[i].0@ == db[i].0@
    &&& forall|j: int| 0 <= j < db.len() && j != i ==> (#[trigger] db2[j]).0@ == db[j].0@ && same_record(db2[j].1, db[j].1)
}

/// `db2` is `db` with entry `(k, _)` inserted at `p`, keeping the keys
/// increasing.
pub open spec fn inserted_at(db: Seq<(String, BridgeRecord)>, db2: Seq<(String, BridgeRecord)>, p: int, k: Seq<char>) -> bool {
    &&& 0 <= p <= db.len()
    &&& db2.len() == db.len() + 1
    &&& db2[p].0@ == k
    &&& forall|j: int| 0 <= j < p ==> (#[trigger] db2[j]).0@ == db[j].0@ && same_record(db2[j].1, db[j].1)
    &&& forall|j: int| p < j < db2.len() ==> (#[trigger] db2[j]).0@ == db[j - 1].0@ && same_record(db2[j].1, db[j - 1].1)
}

/// Largest number of probe observations kept per bridge.
pub const MAX_PROBES_PER_BRIDGE: usize = 2160;
/// Probe observations older than this many days are pruned.
pub const PROBE_RETENTION_DAYS: i64 = 90;

/// Probe observations older than [`PROBE_RETENTION_DAYS`], in
/// nanoseconds.
pub const PROBE_RETENTION_NANOS: i128 = 7_776_000_000_000_000;

/// The history database at a given instant.
pub struct HistoryManager {
    db: Vec<(String, BridgeRecord)>,
    now_iso: String,
    now_at: i128,
}

/// Where `key` is, or where it would go, among increasing keys.
fn locate(db: &Vec<(String, BridgeRecord)>, key: &Vec<char>) -> (r: (usize, bool))
    requires
        keys_increasing(db@),
    ensures
        r.0 <= db@.len(),
        r.1 ==> r.0 < db@.len() && db@[r.0 as int].0@ == key@,
        !r.1 ==> !has_key(db@, key@),
        forall|j: int| 0 <= j < r.0 ==> lex_lt(#[trigger] db@[j].0@, key@),
        forall|j: int| r.0 <= j < db@.len() && !(r.1 && j == r.0) ==> lex_lt(key@, #[trigger] db@[j].0@),
{
    let mut p: usize = 0;
    while p < db.len() && lex_less(&to_chars(db[p].0.as_str()), key)
        invariant
            p <= db@.len(),
            keys_increasing(db@),
            forall|j: int| 0 <= j < p ==> lex_lt(#[trigger] db@[j].0@, key@),
        decreases db.len() - p,
    {
        p += 1;
    }
    let found = p < db.len() && crate::text::chars_eq(&to_chars(db[p].0.as_str()), key);
    proof {
        if p < db@.len() {
            // db[p] is not below key; the ones after db[p] are above it.
            assert(!lex_lt(db@[p as int].0@, key@));
            if db@[p as int].0@ != key@ {
                lemma_lex_total(db@[p as int].0@, key@);
            }
            assert forall|j: int| p <= j < db@.len() && !(found && j == p) implies lex_lt(key@, #[trigger] db@[j].0@) by {
                if j > p {
                    assert(lex_lt(db@[p as int].0@, db@[j].0@));
                    if db@[p as int].0@ == key@ {
                    } else {
                        lemma_lex_transitive(key@, db@[p as int].0@, db@[j].0@);
                    }
                }
            }
        }
        if !found {
            assert forall|i: int| 0 <= i < db@.len() implies (#[trigger] db@[i]).0@ != key@ by {
                if i < p {
                    lemma_lex_irreflexive(key@);
                } else {
                    lemma_lex_irreflexive(key@);
                }
            }
        }
    }
    (p, found)
}

impl HistoryManager {
    /// The entries, in increasing key order.
    pub closed spec fn entries(&self) -> Seq<(String, BridgeRecord)> {
        self.db@
    }

    /// The instant of the manager, as stamped on records.
    pub closed spec fn now_text(&self) -> Seq<char> {
        self.now_iso@
    }

    /// Keys strictly increasing, and the instant late enough for the
    /// retention window to start at or after `i128::MIN`.
    #[verifier::type_invariant]
    spec fn well_formed(self) -> bool {
        &&& keys_increasing(self.db@)
        &&& self.now_at >= i128::MIN + PROBE_RETENTION_NANOS
    }

    /// The instant of the manager, in nanoseconds since the epoch.
    pub closed spec fn now_instant(&self) -> i128 {
        self.now_at
    }

    /// An empty database at the instant written `now_iso`.
    pub fn new(now_iso: &str, now_at: i128) -> (h: HistoryManager)
        requires
            now_at >= i128::MIN + PROBE_RETENTION_NANOS,
        ensures
            h.entries().len() == 0,
            h.now_text() == now_iso@,
            h.now_instant() == now_at,
    {
        HistoryManager { db: Vec::new(), now_iso: String::from_str(now_iso), now_at }
    }

    /// The instant of the manager as text.
    pub fn now_iso(&self) -> (t: String)
        ensures
            t@ == self.now_text(),
    {
        copy_text(&self.now_iso)
    }

    /// Number of records.
    pub fn len(&self) -> (n: usize)
        ensures
            n == self.entries().len(),
    {
        self.db.len()
    }

    /// The database key of a bridge line (see [`key_spec`]).
    pub fn normalize_key(line: &str) -> (k: String)
        ensures
            k@ == key_spec(line@),
    {
        let t = trim_chars(&to_chars(line));
        if starts_with_str(&t, "Bridge ") {
            proof {
                reveal_strlit("Bridge ");
            }
            ascii_lowercase(&slice_range(&t, 7, t.len()))
        } else {
            ascii_lowercase(&t)
        }
    }
}


// ───────────────────────────── record updates ─────────────────────────────

/// `b` is `a` seen again: its raw line replaced and last seen at `now`.
pub open spec fn seen_again(a: BridgeRecord, b: BridgeRecord, raw: Seq<char>, now: Seq<char>) -> bool {
    &&& b.raw@ == raw
    &&& b.last_seen@ == now
    &&& b.transport@ == a.transport@
    &&& b.first_seen@ == a.first_seen@
    &&& b.test_pass == a.test_pass
    &&& opt_text(b.test_time) == opt_text(a.test_time)
    &&& b.latency_ms == a.latency_ms
    &&& b.score == a.score
    &&& probes_view(b.probes@) == probes_view(a.probes@)
}

/// `b` is `a` with its score set to `score`.
pub open spec fn rescored(a: BridgeRecord, b: BridgeRecord, score: i64) -> bool {
    &&& b.raw@ == a.raw@
    &&& b.last_seen@ == a.last_seen@
    &&& b.transport@ == a.transport@
    &&& b.first_seen@ == a.first_seen@
    &&& b.test_pass == a.test_pass
    &&& opt_text(b.test_time) == opt_text(a.test_time)
    &&& b.latency_ms == a.latency_ms
    &&& b.score == score
    &&& probes_view(b.probes@) == probes_view(a.probes@)
}

/// `b` keeps `a`'s line, transport, sightings and score.
pub open spec fn same_identity(a: BridgeRecord, b: BridgeRecord) -> bool {
    &&& b.raw@ == a.raw@
    &&& b.last_seen@ == a.last_seen@
    &&& b.transport@ == a.transport@
    &&& b.first_seen@ == a.first_seen@
    &&& b.score == a.score
}

/// The timestamp texts of a probe log.
pub open spec fn stamps(ps: Seq<ProbeRecord>) -> Seq<Seq<char>> {
    ps.map_values(|p: ProbeRecord| p.timestamp@)
}

/// `b`'s probe log is `a`'s with `probe` appended, then pruned (see
/// [`pruned`]); `at` gives the instant of each probe of the appended log
/// and `cutoff` the retention limit. It never holds more than
/// [`MAX_PROBES_PER_BRIDGE`] probes.
pub open spec fn log_appended(
    a: BridgeRecord,
    b: BridgeRecord,
    probe: (Seq<char>, bool, Option<i64>),
    at: Seq<i128>,
    cutoff: i128,
) -> bool {
    &&& b.probes@.len() <= MAX_PROBES_PER_BRIDGE
    &&& exists|order: Seq<usize>|
        is_text_order(stamps(a.probes@).push(probe.0), order) && probes_view(b.probes@) == pruned(
            probes_view(a.probes@).push(probe),
            at,
            cutoff,
            order,
        )
}

/// `b` is `a` with the observation `probe` added to its pruned log and
/// its latest result left alone.
pub open spec fn probe_added(
    a: BridgeRecord,
    b: BridgeRecord,
    probe: (Seq<char>, bool, Option<i64>),
    at: Seq<i128>,
    cutoff: i128,
) -> bool {
    &&& same_identity(a, b)
    &&& b.test_pass == a.test_pass
    &&& opt_text(b.test_time) == opt_text(a.test_time)
    &&& b.latency_ms == a.latency_ms
    &&& log_appended(a, b, probe, at, cutoff)
}

/// `b` is `a` after a test at `now`: the latest result and time set, the
/// latency replaced when one was measured, and the observation added to
/// the pruned log.
pub open spec fn test_recorded(
    a: BridgeRecord,
    b: BridgeRecord,
    passed: bool,
    latency_ms: Option<i64>,
    now: Seq<char>,
    at: Seq<i128>,
    cutoff: i128,
) -> bool {
    &&& same_identity(a, b)
    &&& b.test_pass == Some(passed)
    &&& opt_text(b.test_time) == Some(now)
    &&& b.latency_ms == (if latency_ms is Some { latency_ms } else { a.latency_ms })
    &&& log_appended(a, b, (now, passed, latency_ms), at, cutoff)
}

/// `db2` holds the same entries as `db`.
pub open spec fn same_entries(db: Seq<(String, BridgeRecord)>, db2: Seq<(String, BridgeRecord)>) -> bool {
    &&& db2.len() == db.len()
    &&& forall|j: int| 0 <= j < db.len() ==> (#[trigger] db2[j]).0@ == db[j].0@ && same_record(db2[j].1, db[j].1)
}

/// The positions of the entries whose record satisfies `f`, in order.
pub open spec fn picked(db: Seq<(String, BridgeRecord)>, f: spec_fn(BridgeRecord) -> bool) -> Seq<int>
    decreases db.len(),
{
    if db.len() == 0 {
        Seq::empty()
    } else {
        let rest = picked(db.drop_last(), f);
        if f(db.last().1) {
            rest.push(db.len() - 1)
        } else {
            rest
        }
    }
}

/// `res` holds copies of the records at positions `idx` of `db`.
pub open spec fn copies_at(res: Seq<BridgeRecord>, db: Seq<(String, BridgeRecord)>, idx: Seq<int>) -> bool {
    &&& res.len() == idx.len()
    &&& forall|k: int| 0 <= k < idx.len() ==> 0 <= #[trigger] idx[k] < db.len() && same_record(res[k], db[idx[k]].1)
}

proof fn lemma_picked_bounds(db: Seq<(String, BridgeRecord)>, f: spec_fn(BridgeRecord) -> bool)
    ensures
        picked(db, f).len() <= db.len(),
        forall|k: int| 0 <= k < picked(db, f).len() ==> 0 <= #[trigger] picked(db, f)[k] < db.len(),
    decreases db.len(),
{
    if db.len() > 0 {
        lemma_picked_bounds(db.drop_last(), f);
    }
}

proof fn lemma_picked_weaker(db: Seq<(String, BridgeRecord)>, f: spec_fn(BridgeRecord) -> bool, g: spec_fn(BridgeRecord) -> bool)
    requires
        forall|b: BridgeRecord| #[trigger] f(b) ==> g(b),
    ensures
        picked(db, f).len() <= picked(db, g).len(),
    decreases db.len(),
{
    if db.len() > 0 {
        lemma_picked_weaker(db.drop_last(), f, g);
    }
}

proof fn lemma_picked_prefix(db: Seq<(String, BridgeRecord)>, f: spec_fn(BridgeRecord) -> bool, i: int)
    requires
        0 <= i < db.len(),
    ensures
        picked(db.take(i + 1), f) == if f(db[i].1) { picked(db.take(i), f).push(i) } else { picked(db.take(i), f) },
{
    assert(db.take(i + 1).drop_last() =~= db.take(i));
    assert(db.take(i + 1).last() == db[i]);
}

fn collect_where(db: &Vec<(String, BridgeRecord)>, Ghost(f): Ghost<spec_fn(BridgeRecord) -> bool>, tester: impl Fn(&BridgeRecord) -> bool) -> (res: Vec<BridgeRecord>)
    requires
        forall|r: &BridgeRecord| #[trigger] tester.requires((r,)),
        forall|r: &BridgeRecord, b: bool| tester.ensures((r,), b) ==> b == f(*r),
    ensures
        copies_at(res@, db@, picked(db@, f)),
{
    let mut res: Vec<BridgeRecord> = Vec::new();
    let mut i: usize = 0;
    while i < db.len()
        invariant
            i <= db.len(),
            forall|r: &BridgeRecord| #[trigger] tester.requires((r,)),
            forall|r: &BridgeRecord, b: bool| tester.ensures((r,), b) ==> b == f(*r),
            copies_at(res@, db@, picked(db@.take(i as int), f)),
        decreases db.len() - i,
    {
        proof {
            lemma_picked_prefix(db@, f, i as int);
            lemma_picked_bounds(db@.take(i as int), f);
        }
        let keep = tester(&db[i].1);
        if keep {
            let c = copy_record(&db[i].1);
            res.push(c);
        }
        proof {
            let ix = picked(db@.take(i + 1), f);
            assert forall|k: int| 0 <= k < ix.len() implies 0 <= #[trigger] ix[k] < db@.len() && same_record(res@[k], db@[ix[k]].1) by {
                if k < picked(db@.take(i as int), f).len() {
                    assert(ix[k] == picked(db@.take(i as int), f)[k]);
                    assert(db@.take(i as int)[ix[k]] == db@[ix[k]]);
                }
            }
        }
        i += 1;
    }
    assert(db@.take(db@.len() as int) =~= db@);
    res
}

/// The summary counts of the database.
#[derive(Debug)]
pub struct HistoryStats {
    pub total: usize,
    pub tested: usize,
    pub passing: usize,
    /// Records per transport, by transport name in increasing order.
    pub by_transport: Vec<(String, usize)>,
    pub updated: String,
}

impl HistoryManager {
    fn take_db(&mut self) -> (db: Vec<(String, BridgeRecord)>)
        ensures
            db@ == old(self).entries(),
            keys_increasing(db@),
            final(self).now_text() == old(self).now_text(),
            final(self).now_instant() == old(self).now_instant(),
            final(self).now_instant() >= i128::MIN + PROBE_RETENTION_NANOS,
            final(self).entries().len() == 0,
    {
        proof {
            use_type_invariant(&*self);
        }
        let mut db: Vec<(String, BridgeRecord)> = Vec::new();
        std::mem::swap(&mut db, &mut self.db);
        db
    }

    /// Registers a bridge line as seen now: a new record for a new key
    /// (first and last seen now, untested, score 0), else the record's raw
    /// line is replaced and it is last seen now. A line whose key is empty
    /// is ignored.
    pub fn add_bridge(&mut self, line: &str, transport: &str)
        ensures
            final(self).now_text() == old(self).now_text(),
            key_spec(line@).len() == 0 ==> same_entries(old(self).entries(), final(self).entries()),
            key_spec(line@).len() > 0 && has_key(old(self).entries(), key_spec(line@)) ==> exists|i: int|
                changed_at(old(self).entries(), final(self).entries(), i) && old(self).entries()[i].0@ == key_spec(line@)
                    && seen_again(old(self).entries()[i].1, final(self).entries()[i].1, trim(line@), old(self).now_text()),
            key_spec(line@).len() > 0 && !has_key(old(self).entries(), key_spec(line@)) ==> exists|p: int|
                inserted_at(old(self).entries(), final(self).entries(), p, key_spec(line@))
                    && fresh_record(final(self).entries()[p].1, trim(line@), transport@, old(self).now_text()),
            key_spec(line@).len() > 0 ==> has_key(final(self).entries(), key_spec(line@)),
            final(self).entries().len() == old(self).entries().len() + if key_spec(line@).len() == 0 || has_key(
                old(self).entries(),
                key_spec(line@),
            ) {
                0int
            } else {
                1int
            },
    {
        let key = HistoryManager::normalize_key(line);
        let kv = to_chars(key.as_str());
        if kv.len() == 0 {
            proof {
                use_type_invariant(&*self);
            }
            return;
        }
        let mut db = self.take_db();
        let ghost d0 = db@;
        let raw = string_of(&trim_chars(&to_chars(line)));
        let (p, found) = locate(&db, &kv);
        if found {
            let old_rec = copy_record(&db[p].1);
            let rec = BridgeRecord {
                raw,
                transport: old_rec.transport,
                first_seen: old_rec.first_seen,
                last_seen: copy_text(&self.now_iso),
                test_pass: old_rec.test_pass,
                test_time: old_rec.test_time,
                latency_ms: old_rec.latency_ms,
                score: old_rec.score,
                probes: old_rec.probes,
            };
            let k = copy_text(&db[p].0);
            db.set(p, (k, rec));
            proof {
                assert(changed_at(d0, db@, p as int));
                assert(seen_again(d0[p as int].1, db@[p as int].1, trim(line@), self.now_iso@));
                assert forall|i: int, j: int| 0 <= i < j < db@.len() implies lex_lt(#[trigger] db@[i].0@, #[trigger] db@[j].0@) by {
                    assert(lex_lt(d0[i].0@, d0[j].0@));
                }
            }
        } else {
            let rec = BridgeRecord {
                raw,
                transport: String::from_str(transport),
                first_seen: copy_text(&self.now_iso),
                last_seen: copy_text(&self.now_iso),
                test_pass: None,
                test_time: None,
                latency_ms: None,
                score: 0,
                probes: Vec::new(),
            };
            db.insert(p, (key, rec));
            proof {
                assert forall|j: int| p < j < db@.len() implies (#[trigger] db@[j]).0@ == d0[j - 1].0@ && same_record(db@[j].1, d0[j - 1].1) by {
                    assert(db@[j] == d0[j - 1]);
                }
                assert forall|j: int| 0 <= j < p implies (#[trigger] db@[j]).0@ == d0[j].0@ && same_record(db@[j].1, d0[j].1) by {
                    assert(db@[j] == d0[j]);
                }
                assert(inserted_at(d0, db@, p as int, kv@));
                assert(fresh_record(db@[p as int].1, trim(line@), transport@, self.now_iso@));
                assert forall|i: int, j: int| 0 <= i < j < db@.len() implies lex_lt(#[trigger] db@[i].0@, #[trigger] db@[j].0@) by {
                    if j < p {
                        assert(lex_lt(d0[i].0@, d0[j].0@));
                    } else if j == p {
                    } else if i < p {
                        lemma_lex_transitive(d0[i].0@, kv@, d0[j - 1].0@);
                    } else if i == p {
                    } else {
                        assert(lex_lt(d0[i - 1].0@, d0[j - 1].0@));
                    }
                }
            }
        }
        let ghost dn = db@;
        self.db = db;
        assert(self.entries() == dn);
    }
}

/// Whether `key` has a record, and where.
fn find_key(db: &Vec<(String, BridgeRecord)>, key: &Vec<char>) -> (r: Option<usize>)
    requires
        keys_increasing(db@),
    ensures
        match r {
            Some(i) => i < db@.len() && db@[i as int].0@ == key@,
            None => !has_key(db@, key@),
        },
{
    let (p, found) = locate(db, key);
    if found {
        Some(p)
    } else {
        None
    }
}

impl HistoryManager {
    fn put_back(&mut self, db: Vec<(String, BridgeRecord)>, d0: Ghost<Seq<(String, BridgeRecord)>>, p: usize)
        requires
            old(self).now_instant() >= i128::MIN + PROBE_RETENTION_NANOS,
            keys_increasing(d0@),
            changed_at(d0@, db@, p as int),
        ensures
            final(self).entries() == db@,
            final(self).now_text() == old(self).now_text(),
            final(self).now_instant() == old(self).now_instant(),
    {
        proof {
            assert forall|i: int, j: int| 0 <= i < j < db@.len() implies lex_lt(#[trigger] db@[i].0@, #[trigger] db@[j].0@) by {
                assert(lex_lt(d0@[i].0@, d0@[j].0@));
            }
        }
        self.db = db;
    }

    /// Sets the score of the line's record; nothing when there is none.
    pub fn update_score(&mut self, line: &str, score: i64)
        ensures
            final(self).now_text() == old(self).now_text(),
            !has_key(old(self).entries(), key_spec(line@)) ==> same_entries(old(self).entries(), final(self).entries()),
            has_key(old(self).entries(), key_spec(line@)) ==> exists|i: int|
                changed_at(old(self).entries(), final(self).entries(), i) && old(self).entries()[i].0@ == key_spec(line@)
                    && rescored(old(self).entries()[i].1, final(self).entries()[i].1, score),
    {
        let key = HistoryManager::normalize_key(line);
        let kv = to_chars(key.as_str());
        let mut db = self.take_db();
        let ghost d0 = db@;
        match find_key(&db, &kv) {
            Some(p) => {
                let mut rec = copy_record(&db[p].1);
                rec.score = score;
                let k = copy_text(&db[p].0);
                db.set(p, (k, rec));
                assert(changed_at(d0, db@, p as int));
                assert(rescored(d0[p as int].1, db@[p as int].1, score));
                self.put_back(db, Ghost(d0), p);
            },
            None => {
                self.db = db;
            },
        }
    }

    /// Records a test of the line's bridge at the manager's instant: the
    /// latest result and time, the latency when one was measured, and the
    /// observation added to its probe log, which is then pruned: sorted by
    /// timestamp, cleared of probes older than [`PROBE_RETENTION_DAYS`]
    /// before the manager's instant, and cut to the newest
    /// [`MAX_PROBES_PER_BRIDGE`]. `probe_at[i]` is the instant the `i`-th
    /// probe of the record's log denotes. Nothing happens when there is no
    /// record.
    pub fn update_test(&mut self, line: &str, passed: bool, latency_ms: Option<i64>, probe_at: &Vec<i128>)
        requires
            forall|i: int|
                0 <= i < old(self).entries().len() && (#[trigger] old(self).entries()[i]).0@ == key_spec(line@)
                    ==> probe_at@.len() == old(self).entries()[i].1.probes@.len(),
        ensures
            final(self).now_text() == old(self).now_text(),
            final(self).now_instant() == old(self).now_instant(),
            !has_key(old(self).entries(), key_spec(line@)) ==> same_entries(old(self).entries(), final(self).entries()),
            has_key(old(self).entries(), key_spec(line@)) ==> exists|i: int|
                changed_at(old(self).entries(), final(self).entries(), i) && old(self).entries()[i].0@ == key_spec(line@)
                    && test_recorded(
                    old(self).entries()[i].1,
                    final(self).entries()[i].1,
                    passed,
                    latency_ms,
                    old(self).now_text(),
                    probe_at@.push(old(self).now_instant()),
                    (old(self).now_instant() - PROBE_RETENTION_NANOS) as i128,
                ),
    {
        let key = HistoryManager::normalize_key(line);
        let kv = to_chars(key.as_str());
        let mut db = self.take_db();
        let ghost d0 = db@;
        match find_key(&db, &kv) {
            Some(p) => {
                let mut rec = copy_record(&db[p].1);
                rec.test_pass = Some(passed);
                rec.test_time = Some(copy_text(&self.now_iso));
                if latency_ms.is_some() {
                    rec.latency_ms = latency_ms;
                }
                let probe = ProbeRecord { timestamp: copy_text(&self.now_iso), passed, latency_ms };
                assert(probe_view(probe) == (self.now_iso@, passed, latency_ms));
                assert(d0[p as int].0@ == key_spec(line@));
                let ghost op = db@[p as int].1.probes@;
                let cutoff = self.now_at - PROBE_RETENTION_NANOS;
                let log = append_pruned(&db[p].1.probes, probe, probe_at, self.now_at, cutoff);
                let ghost lv = log@;
                let ghost at_all = probe_at@.push(self.now_at);
                let ghost pr = (self.now_iso@, passed, latency_ms);
                let ghost order = choose|o: Seq<usize>|
                    is_text_order(stamps(op).push(self.now_iso@), o) && probes_view(lv) == pruned(
                        probes_view(op).push(pr),
                        at_all,
                        cutoff,
                        o,
                    );
                rec.probes = log;
                let k = copy_text(&db[p].0);
                db.set(p, (k, rec));
                proof {
                    assert(op == d0[p as int].1.probes@);
                    assert(db@[p as int].1.probes@ == lv);
                    assert(is_text_order(stamps(d0[p as int].1.probes@).push(pr.0), order));
                    assert(probes_view(db@[p as int].1.probes@) == pruned(probes_view(d0[p as int].1.probes@).push(pr), at_all, cutoff, order));
                    assert(cutoff == (self.now_at - PROBE_RETENTION_NANOS) as i128);
                }
                assert(changed_at(d0, db@, p as int));
                assert(same_identity(d0[p as int].1, db@[p as int].1));
                assert(log_appended(d0[p as int].1, db@[p as int].1, pr, at_all, cutoff));
                assert(test_recorded(d0[p as int].1, db@[p as int].1, passed, latency_ms, self.now_iso@, at_all, cutoff));
                self.put_back(db, Ghost(d0), p);
            },
            None => {
                self.db = db;
            },
        }
    }

    /// Adds an observation at the instant `secs`, `nanos` (stamped as
    /// [`iso_timestamp`] writes it) to the line's probe log, leaving its
    /// latest result alone, then prunes the log as [`Self::update_test`]
    /// does. Nothing happens when there is no record or the instant cannot
    /// be rendered.
    pub fn record_probe_at(&mut self, line: &str, secs: i64, nanos: u32, passed: bool, latency_ms: Option<i64>, probe_at: &Vec<i128>)
        requires
            forall|i: int|
                0 <= i < old(self).entries().len() && (#[trigger] old(self).entries()[i]).0@ == key_spec(line@)
                    ==> probe_at@.len() == old(self).entries()[i].1.probes@.len(),
        ensures
            final(self).now_text() == old(self).now_text(),
            final(self).now_instant() == old(self).now_instant(),
            !has_key(old(self).entries(), key_spec(line@)) || probe_stamp(secs, nanos) is None ==> same_entries(
                old(self).entries(),
                final(self).entries(),
            ),
            has_key(old(self).entries(), key_spec(line@)) && probe_stamp(secs, nanos) is Some ==> exists|i: int|
                changed_at(old(self).entries(), final(self).entries(), i) && old(self).entries()[i].0@ == key_spec(line@)
                    && probe_added(
                    old(self).entries()[i].1,
                    final(self).entries()[i].1,
                    (probe_stamp(secs, nanos)->0, passed, latency_ms),
                    probe_at@.push((secs * 1_000_000_000 + nanos) as i128),
                    (old(self).now_instant() - PROBE_RETENTION_NANOS) as i128,
                ),
    {
        let key = HistoryManager::normalize_key(line);
        let kv = to_chars(key.as_str());
        let stamp = match iso_timestamp(secs, nanos) {
            Some(t) => t,
            None => {
                proof {
                    use_type_invariant(&*self);
                }
                return;
            },
        };
        let mut db = self.take_db();
        let ghost d0 = db@;
        match find_key(&db, &kv) {
            Some(p) => {
                let rec0 = copy_record(&db[p].1);
                let probe = ProbeRecord { timestamp: stamp, passed, latency_ms };
                assert(probe_view(probe) == (probe_stamp(secs, nanos)->0, passed, latency_ms));
                assert(d0[p as int].0@ == key_spec(line@));
                let at = secs as i128 * 1_000_000_000 + nanos as i128;
                let ghost op = db@[p as int].1.probes@;
                let cutoff = self.now_at - PROBE_RETENTION_NANOS;
                let log = append_pruned(&db[p].1.probes, probe, probe_at, at, cutoff);
                let ghost lv = log@;
                let ghost at_all = probe_at@.push(at);
                let ghost pr = (probe_stamp(secs, nanos)->0, passed, latency_ms);
                let ghost order = choose|o: Seq<usize>|
                    is_text_order(stamps(op).push(pr.0), o) && probes_view(lv) == pruned(
                        probes_view(op).push(pr),
                        at_all,
                        cutoff,
                        o,
                    );
                let rec = BridgeRecord {
                    raw: rec0.raw,
                    transport: rec0.transport,
                    first_seen: rec0.first_seen,
                    last_seen: rec0.last_seen,
                    test_pass: rec0.test_pass,
                    test_time: rec0.test_time,
                    latency_ms: rec0.latency_ms,
                    score: rec0.score,
                    probes: log,
                };
                let k = copy_text(&db[p].0);
                db.set(p, (k, rec));
                proof {
                    assert(op == d0[p as int].1.probes@);
                    assert(db@[p as int].1.probes@ == lv);
                    assert(is_text_order(stamps(d0[p as int].1.probes@).push(pr.0), order));
                    assert(probes_view(db@[p as int].1.probes@) == pruned(probes_view(d0[p as int].1.probes@).push(pr), at_all, cutoff, order));
                    assert(cutoff == (self.now_at - PROBE_RETENTION_NANOS) as i128);
                    assert(at == (secs * 1_000_000_000 + nanos) as i128);
                }
                assert(changed_at(d0, db@, p as int));
                assert(log_appended(d0[p as int].1, db@[p as int].1, pr, at_all, cutoff));
                assert(probe_added(d0[p as int].1, db@[p as int].1, pr, at_all, cutoff));
                self.put_back(db, Ghost(d0), p);
            },
            None => {
                self.db = db;
            },
        }
    }

    /// The probe log of the line's bridge, oldest first; empty when there
    /// is no record.
    pub fn probe_history(&self, line: &str) -> (r: Vec<ProbeRecord>)
        ensures
            has_key(self.entries(), key_spec(line@)) ==> exists|i: int|
                0 <= i < self.entries().len() && self.entries()[i].0@ == key_spec(line@)
                    && probes_view(r@) == probes_view(self.entries()[i].1.probes@),
            !has_key(self.entries(), key_spec(line@)) ==> r@.len() == 0,
    {
        proof {
            use_type_invariant(self);
        }
        let key = HistoryManager::normalize_key(line);
        let kv = to_chars(key.as_str());
        match find_key(&self.db, &kv) {
            Some(p) => copy_probes(&self.db[p].1.probes),
            None => Vec::new(),
        }
    }

    /// Every entry (key and record), in increasing key order.
    pub fn get_all(&self) -> (r: Vec<(String, BridgeRecord)>)
        ensures
            same_entries(self.entries(), r@),
            keys_increasing(r@),
    {
        proof {
            use_type_invariant(self);
        }
        let mut r: Vec<(String, BridgeRecord)> = Vec::new();
        let mut i: usize = 0;
        while i < self.db.len()
            invariant
                i <= self.db@.len(),
                r@.len() == i,
                forall|j: int| 0 <= j < i ==> (#[trigger] r@[j]).0@ == self.db@[j].0@ && same_record(r@[j].1, self.db@[j].1),
            decreases self.db@.len() - i,
        {
            r.push((copy_text(&self.db[i].0), copy_record(&self.db[i].1)));
            i += 1;
        }
        proof {
            assert forall|a: int, b: int| 0 <= a < b < r@.len() implies lex_lt(#[trigger] r@[a].0@, #[trigger] r@[b].0@) by {
                assert(lex_lt(self.db@[a].0@, self.db@[b].0@));
            }
        }
        r
    }

    /// The records whose transport equals `transport` ignoring ASCII case,
    /// in key order.
    pub fn get_by_transport(&self, transport: &str) -> (r: Vec<BridgeRecord>)
        ensures
            copies_at(r@, self.entries(), picked(self.entries(), |b: BridgeRecord| eq_ignore_ascii_case(b.transport@, transport@))),
    {
        let f = |b: &BridgeRecord| -> (m: bool)
            ensures
                m == eq_ignore_ascii_case(b.transport@, transport@),
            { eq_ignore_ascii_case_str(b.transport.as_str(), transport) };
        collect_where(&self.db, Ghost(|b: BridgeRecord| eq_ignore_ascii_case(b.transport@, transport@)), f)
    }

    /// The records whose latest test result is `passed`, in key order.
    pub fn get_tested(&self, passed: bool) -> (r: Vec<BridgeRecord>)
        ensures
            copies_at(r@, self.entries(), picked(self.entries(), |b: BridgeRecord| b.test_pass == Some(passed))),
    {
        let f = |b: &BridgeRecord| -> (m: bool)
            ensures
                m == (b.test_pass == Some(passed)),
            {
                match b.test_pass {
                    Some(x) => x == passed,
                    None => false,
                }
            };
        collect_where(&self.db, Ghost(|b: BridgeRecord| b.test_pass == Some(passed)), f)
    }
}

/// The positions whose instant is after `cutoff`, in order.
pub open spec fn after_cutoff(at: Seq<i128>, cutoff: i128) -> Seq<int>
    decreases at.len(),
{
    if at.len() == 0 {
        Seq::empty()
    } else {
        let rest = after_cutoff(at.drop_last(), cutoff);
        if at.last() > cutoff {
            rest.push(at.len() - 1)
        } else {
            rest
        }
    }
}

proof fn lemma_after_cutoff_bounds(at: Seq<i128>, cutoff: i128)
    ensures
        after_cutoff(at, cutoff).len() <= at.len(),
        forall|k: int| 0 <= k < after_cutoff(at, cutoff).len() ==> 0 <= #[trigger] after_cutoff(at, cutoff)[k] < at.len(),
        forall|k: int, l: int| 0 <= k < l < after_cutoff(at, cutoff).len() ==> #[trigger] after_cutoff(at, cutoff)[k] < #[trigger] after_cutoff(at, cutoff)[l],
    decreases at.len(),
{
    if at.len() > 0 {
        lemma_after_cutoff_bounds(at.drop_last(), cutoff);
    }
}

proof fn lemma_after_cutoff_prefix(at: Seq<i128>, cutoff: i128, i: int)
    requires
        0 <= i < at.len(),
    ensures
        after_cutoff(at.take(i + 1), cutoff) == if at[i] > cutoff { after_cutoff(at.take(i), cutoff).push(i) } else { after_cutoff(at.take(i), cutoff) },
{
    assert(at.take(i + 1).drop_last() =~= at.take(i));
    assert(at.take(i + 1).last() == at[i]);
}

impl HistoryManager {
    /// Adds or replaces the record under `key` as it is (loading a stored
    /// database).
    pub fn insert_record(&mut self, key: String, rec: BridgeRecord)
        ensures
            final(self).now_text() == old(self).now_text(),
            has_key(old(self).entries(), key@) ==> exists|i: int|
                changed_at(old(self).entries(), final(self).entries(), i) && old(self).entries()[i].0@ == key@
                    && final(self).entries()[i].1 == rec,
            !has_key(old(self).entries(), key@) ==> exists|p: int|
                inserted_at(old(self).entries(), final(self).entries(), p, key@) && final(self).entries()[p].1 == rec,
    {
        let kv = to_chars(key.as_str());
        let mut db = self.take_db();
        let ghost d0 = db@;
        let (p, found) = locate(&db, &kv);
        if found {
            let k = copy_text(&db[p].0);
            db.set(p, (k, rec));
            assert(changed_at(d0, db@, p as int));
            self.put_back(db, Ghost(d0), p);
        } else {
            db.insert(p, (key, rec));
            proof {
                assert forall|j: int| p < j < db@.len() implies (#[trigger] db@[j]).0@ == d0[j - 1].0@ && same_record(db@[j].1, d0[j - 1].1) by {
                    assert(db@[j] == d0[j - 1]);
                }
                assert forall|j: int| 0 <= j < p implies (#[trigger] db@[j]).0@ == d0[j].0@ && same_record(db@[j].1, d0[j].1) by {
                    assert(db@[j] == d0[j]);
                }
                assert(inserted_at(d0, db@, p as int, kv@));
                assert forall|i: int, j: int| 0 <= i < j < db@.len() implies lex_lt(#[trigger] db@[i].0@, #[trigger] db@[j].0@) by {
                    if j < p {
                        assert(lex_lt(d0[i].0@, d0[j].0@));
                    } else if j == p {
                    } else if i < p {
                        lemma_lex_transitive(d0[i].0@, kv@, d0[j - 1].0@);
                    } else if i == p {
                    } else {
                        assert(lex_lt(d0[i - 1].0@, d0[j - 1].0@));
                    }
                }
            }
            let ghost dn = db@;
            self.db = db;
            assert(self.entries() == dn);
        }
    }

    /// The records first seen after `cutoff`, in key order;
    /// `first_seen_at[i]` is the instant that the first-seen time of the
    /// `i`-th record denotes.
    pub fn get_recent(&self, first_seen_at: &Vec<i128>, cutoff: i128) -> (r: Vec<BridgeRecord>)
        requires
            first_seen_at@.len() == self.entries().len(),
        ensures
            copies_at(r@, self.entries(), after_cutoff(first_seen_at@, cutoff)),
    {
        let mut res: Vec<BridgeRecord> = Vec::new();
        let mut i: usize = 0;
        while i < self.db.len()
            invariant
                i <= self.db@.len(),
                first_seen_at@.len() == self.db@.len(),
                copies_at(res@, self.db@, after_cutoff(first_seen_at@.take(i as int), cutoff)),
            decreases self.db@.len() - i,
        {
            proof {
                lemma_after_cutoff_prefix(first_seen_at@, cutoff, i as int);
                lemma_after_cutoff_bounds(first_seen_at@.take(i as int), cutoff);
            }
            if first_seen_at[i] > cutoff {
                res.push(copy_record(&self.db[i].1));
            }
            i += 1;
        }
        assert(first_seen_at@.take(first_seen_at@.len() as int) =~= first_seen_at@);
        res
    }

    /// Removes the records last seen at or before `cutoff`; returns how
    /// many were removed. `last_seen_at[i]` is the instant that the
    /// last-seen time of the `i`-th record denotes.
    pub fn purge_old(&mut self, last_seen_at: &Vec<i128>, cutoff: i128) -> (removed: usize)
        requires
            last_seen_at@.len() == old(self).entries().len(),
        ensures
            final(self).now_text() == old(self).now_text(),
            final(self).entries().len() == after_cutoff(last_seen_at@, cutoff).len(),
            forall|k: int| 0 <= k < final(self).entries().len() ==> {
                let j = #[trigger] after_cutoff(last_seen_at@, cutoff)[k];
                &&& 0 <= j < old(self).entries().len()
                &&& final(self).entries()[k].0@ == old(self).entries()[j].0@
                &&& same_record(final(self).entries()[k].1, old(self).entries()[j].1)
            },
            removed == old(self).entries().len() - final(self).entries().len(),
    {
        let db = self.take_db();
        let ghost d0 = db@;
        let n = db.len();
        let mut kept: Vec<(String, BridgeRecord)> = Vec::new();
        let mut i: usize = 0;
        while i < db.len()
            invariant
                i <= db@.len(),
                db@ == d0,
                keys_increasing(d0),
                last_seen_at@.len() == d0.len(),
                kept@.len() == after_cutoff(last_seen_at@.take(i as int), cutoff).len(),
                forall|k: int| 0 <= k < kept@.len() ==> {
                    let j = #[trigger] after_cutoff(last_seen_at@.take(i as int), cutoff)[k];
                    &&& 0 <= j < i
                    &&& kept@[k].0@ == d0[j].0@
                    &&& same_record(kept@[k].1, d0[j].1)
                },
            decreases db@.len() - i,
        {
            proof {
                lemma_after_cutoff_prefix(last_seen_at@, cutoff, i as int);
                lemma_after_cutoff_bounds(last_seen_at@.take(i as int), cutoff);
            }
            if last_seen_at[i] > cutoff {
                kept.push((copy_text(&db[i].0), copy_record(&db[i].1)));
            }
            i += 1;
        }
        assert(last_seen_at@.take(last_seen_at@.len() as int) =~= last_seen_at@);
        proof {
            lemma_after_cutoff_bounds(last_seen_at@, cutoff);
            let ix = after_cutoff(last_seen_at@, cutoff);
            assert forall|a: int, b: int| 0 <= a < b < kept@.len() implies lex_lt(#[trigger] kept@[a].0@, #[trigger] kept@[b].0@) by {
                assert(ix[a] < ix[b]);
                assert(lex_lt(d0[ix[a]].0@, d0[ix[b]].0@));
            }
        }
        let m = kept.len();
        self.db = kept;
        n - m
    }
}

/// The records over transport `t`.
pub open spec fn of_transport(t: Seq<char>) -> spec_fn(BridgeRecord) -> bool {
    |b: BridgeRecord| b.transport@ == t
}

/// How many records are over transport `t`.
pub open spec fn transport_count(db: Seq<(String, BridgeRecord)>, t: Seq<char>) -> nat {
    picked(db, of_transport(t)).len()
}

impl HistoryManager {
    /// The summary of the database: how many records, how many were
    /// tested, how many passed their latest test, how many per transport
    /// (by name, in increasing order), stamped with the manager's instant.
    pub fn get_stats(&self) -> (st: HistoryStats)
        ensures
            st.total == self.entries().len(),
            st.tested == picked(self.entries(), |b: BridgeRecord| b.test_pass is Some).len(),
            st.passing == picked(self.entries(), |b: BridgeRecord| b.test_pass == Some(true)).len(),
            keys_sorted(st.by_transport@),
            counts_positive(st.by_transport@),
            forall|t: Seq<char>| #[trigger] count_of(st.by_transport@, t) == transport_count(self.entries(), t),
            st.updated@ == self.now_text(),
            st.passing <= st.tested <= st.total,
    {
        let ghost db = self.db@;
        let ghost f_tested = |b: BridgeRecord| b.test_pass is Some;
        let ghost f_pass = |b: BridgeRecord| b.test_pass == Some(true);
        let mut tested: usize = 0;
        let mut passing: usize = 0;
        let mut by: Vec<(String, usize)> = Vec::new();
        let mut i: usize = 0;
        while i < self.db.len()
            invariant
                i <= db.len(),
                db == self.db@,
                f_tested == (|b: BridgeRecord| b.test_pass is Some),
                f_pass == (|b: BridgeRecord| b.test_pass == Some(true)),
                tested == picked(db.take(i as int), f_tested).len(),
                passing == picked(db.take(i as int), f_pass).len(),
                keys_sorted(by@),
                counts_positive(by@),
                forall|t: Seq<char>| #[trigger] count_of(by@, t) == transport_count(db.take(i as int), t),
            decreases db.len() - i,
        {
            proof {
                lemma_picked_prefix(db, f_tested, i as int);
                lemma_picked_prefix(db, f_pass, i as int);
                lemma_picked_bounds(db.take(i as int), f_tested);
                lemma_picked_bounds(db.take(i as int), f_pass);
                let t0 = db[i as int].1.transport@;
                lemma_picked_bounds(db.take(i as int), of_transport(t0));
                assert forall|t: Seq<char>| #[trigger] transport_count(db.take(i + 1), t)
                    == transport_count(db.take(i as int), t) + if t == t0 { 1nat } else { 0nat } by {
                    lemma_picked_prefix(db, of_transport(t), i as int);
                }
            }
            let rec = &self.db[i].1;
            if rec.test_pass.is_some() {
                tested = tested + 1;
            }
            if rec.test_pass == Some(true) {
                passing = passing + 1;
            }
            bump_count(&mut by, rec.transport.as_str());
            i += 1;
        }
        assert(db.take(db.len() as int) =~= db);
        proof {
            lemma_picked_weaker(db, f_pass, f_tested);
            lemma_picked_bounds(db, f_tested);
        }
        HistoryStats { total: self.db.len(), tested, passing, by_transport: by, updated: copy_text(&self.now_iso) }
    }
}

// ───────────────────────────── probe log pruning ─────────────────────────────

/// `a` sorts before `b` by timestamp text: a smaller text, or the same
/// text and an earlier position.
pub open spec fn text_before(ts: Seq<Seq<char>>, a: usize, b: usize) -> bool {
    lex_lt(ts[a as int], ts[b as int]) || (ts[a as int] == ts[b as int] && a < b)
}

/// `order` lists every position of `ts` once, by timestamp text, equal
/// texts in their given order.
pub open spec fn is_text_order(ts: Seq<Seq<char>>, order: Seq<usize>) -> bool {
    &&& order.len() == ts.len()
    &&& forall|k: int| 0 <= k < order.len() ==> #[trigger] order[k] < ts.len()
    &&& forall|k: int, l: int| 0 <= k < l < order.len() ==> text_before(ts, #[trigger] order[k], #[trigger] order[l])
    &&& forall|j: usize| j < ts.len() ==> order.contains(j)
}

fn rank_by_text(ts: &Vec<Vec<char>>) -> (order: Vec<usize>)
    ensures
        is_text_order(ts@.map_values(|t: Vec<char>| t@), order@),
{
    let ghost tv = ts@.map_values(|t: Vec<char>| t@);
    let mut out: Vec<usize> = Vec::new();
    let mut i: usize = 0;
    while i < ts.len()
        invariant
            i <= ts.len(),
            tv == ts@.map_values(|t: Vec<char>| t@),
            out@.len() == i,
            forall|k: int| 0 <= k < out@.len() ==> #[trigger] out@[k] < i,
            forall|k: int, l: int| 0 <= k < l < out@.len() ==> text_before(tv, #[trigger] out@[k], #[trigger] out@[l]),
            forall|j: usize| j < i ==> out@.contains(j),
        decreases ts.len() - i,
    {
        // Scan from the back: an already sorted log costs one comparison per probe.
        let mut p: usize = out.len();
        while p > 0 && lex_less(&ts[i], &ts[out[p - 1]])
            invariant
                p <= out@.len(),
                i < ts@.len(),
                tv == ts@.map_values(|t: Vec<char>| t@),
                forall|k: int| 0 <= k < out@.len() ==> #[trigger] out@[k] < i,
                forall|k: int| p <= k < out@.len() ==> lex_lt(tv[i as int], tv[#[trigger] out@[k] as int]),
            decreases p,
        {
            p -= 1;
        }
        let ghost old_out = out@;
        proof {
            assert(tv[i as int] == ts@[i as int]@);
            if p > 0 {
                let q = (p - 1) as int;
                assert(tv[old_out[q] as int] == ts@[old_out[q] as int]@);
                assert(!lex_lt(tv[i as int], tv[old_out[q] as int]));
                if tv[old_out[q] as int] != tv[i as int] {
                    lemma_lex_total(tv[old_out[q] as int], tv[i as int]);
                }
                assert forall|k: int| 0 <= k < p implies lex_lt(tv[#[trigger] old_out[k] as int], tv[i as int]) || tv[old_out[k] as int] == tv[i as int] by {
                    if k < q {
                        assert(text_before(tv, old_out[k], old_out[q]));
                        if lex_lt(tv[old_out[k] as int], tv[old_out[q] as int]) {
                            if lex_lt(tv[old_out[q] as int], tv[i as int]) {
                                lemma_lex_transitive(tv[old_out[k] as int], tv[old_out[q] as int], tv[i as int]);
                            }
                        } else if lex_lt(tv[old_out[q] as int], tv[i as int]) {
                        }
                    }
                }
            }
        }
        out.insert(p, i);
        proof {
            let no = out@;
            assert(no =~= old_out.insert(p as int, i));
            assert forall|k: int, l: int| 0 <= k < l < no.len() implies text_before(tv, #[trigger] no[k], #[trigger] no[l]) by {
                if l < p {
                    assert(no[k] == old_out[k] && no[l] == old_out[l]);
                } else if l == p {
                    assert(no[k] == old_out[k]);
                } else if k < p {
                    assert(no[k] == old_out[k] && no[l] == old_out[l - 1]);
                } else if k == p {
                    assert(no[l] == old_out[l - 1]);
                } else {
                    assert(no[k] == old_out[k - 1] && no[l] == old_out[l - 1]);
                }
            }
            assert forall|j: usize| j < i + 1 implies no.contains(j) by {
                if j == i {
                    assert(no[p as int] == i);
                } else {
                    assert(old_out.contains(j));
                    let w = choose|w: int| 0 <= w < old_out.len() && old_out[w] == j;
                    if w < p {
                        assert(no[w] == j);
                    } else {
                        assert(no[w + 1] == j);
                    }
                }
            }
        }
        i += 1;
    }
    out
}

/// The positions of `order` whose instant is after `cutoff`, in order.
pub open spec fn kept_positions(order: Seq<usize>, at: Seq<i128>, cutoff: i128) -> Seq<usize>
    decreases order.len(),
{
    if order.len() == 0 {
        Seq::empty()
    } else {
        let rest = kept_positions(order.drop_last(), at, cutoff);
        if at[order.last() as int] > cutoff {
            rest.push(order.last())
        } else {
            rest
        }
    }
}

/// The last `n` elements of `s` (all of them when there are fewer).
pub open spec fn newest<A>(s: Seq<A>, n: nat) -> Seq<A> {
    if s.len() > n {
        s.skip(s.len() - n)
    } else {
        s
    }
}

/// The probe log `probes` (with `at[i]` the instant of the `i`-th probe)
/// pruned: sorted by timestamp text (equal texts in their order), those at
/// or before `cutoff` dropped, and only the newest
/// [`MAX_PROBES_PER_BRIDGE`] kept.
pub open spec fn pruned(probes: Seq<(Seq<char>, bool, Option<i64>)>, at: Seq<i128>, cutoff: i128, order: Seq<usize>) -> Seq<(Seq<char>, bool, Option<i64>)> {
    newest(kept_positions(order, at, cutoff).map_values(|j: usize| probes[j as int]), MAX_PROBES_PER_BRIDGE as nat)
}

fn prune_log(probes: &Vec<ProbeRecord>, at: &Vec<i128>, cutoff: i128) -> (r: Vec<ProbeRecord>)
    requires
        at@.len() == probes@.len(),
    ensures
        r@.len() <= MAX_PROBES_PER_BRIDGE,
        exists|order: Seq<usize>|
            is_text_order(probes@.map_values(|p: ProbeRecord| p.timestamp@), order) && probes_view(r@) == pruned(
                probes_view(probes@),
                at@,
                cutoff,
                order,
            ),
{
    let mut ts: Vec<Vec<char>> = Vec::new();
    let mut i: usize = 0;
    while i < probes.len()
        invariant
            i <= probes@.len(),
            ts@.len() == i,
            forall|k: int| 0 <= k < i ==> (#[trigger] ts@[k])@ == probes@[k].timestamp@,
        decreases probes@.len() - i,
    {
        ts.push(to_chars(probes[i].timestamp.as_str()));
        i += 1;
    }
    assert(ts@.map_values(|t: Vec<char>| t@) =~= probes@.map_values(|p: ProbeRecord| p.timestamp@));
    let order = rank_by_text(&ts);
    let ghost pv = probes_view(probes@);
    let mut kept: Vec<ProbeRecord> = Vec::new();
    let mut k: usize = 0;
    while k < order.len()
        invariant
            k <= order@.len(),
            order@.len() == probes@.len(),
            at@.len() == probes@.len(),
            pv == probes_view(probes@),
            forall|m: int| 0 <= m < order@.len() ==> #[trigger] order@[m] < probes@.len(),
            probes_view(kept@) == kept_positions(order@.take(k as int), at@, cutoff).map_values(|j: usize| pv[j as int]),
        decreases order@.len() - k,
    {
        assert(order@.take(k + 1).drop_last() =~= order@.take(k as int));
        assert(order@.take(k + 1).last() == order@[k as int]);
        let j = order[k];
        if at[j] > cutoff {
            let ghost before = kept@;
            let c = copy_probe(&probes[j]);
            kept.push(c);
            assert(probes_view(kept@) =~= probes_view(before).push(pv[j as int]));
        }
        k += 1;
    }
    assert(order@.take(order@.len() as int) =~= order@);
    if kept.len() > MAX_PROBES_PER_BRIDGE {
        let start = kept.len() - MAX_PROBES_PER_BRIDGE;
        let mut r: Vec<ProbeRecord> = Vec::new();
        let mut m: usize = start;
        while m < kept.len()
            invariant
                start <= m <= kept@.len(),
                r@.len() == m - start,
                forall|q: int| 0 <= q < r@.len() ==> probe_view(#[trigger] r@[q]) == probe_view(kept@[q + start]),
            decreases kept@.len() - m,
        {
            r.push(copy_probe(&kept[m]));
            m += 1;
        }
        assert(probes_view(r@) =~= probes_view(kept@).skip(start as int));
        assert(probes_view(r@) == pruned(pv, at@, cutoff, order@));
        r
    } else {
        assert(probes_view(kept@) == pruned(pv, at@, cutoff, order@));
        kept
    }
}

/// The probe log `probes` with `probe` appended and then pruned;
/// `probe_at` holds the instants of `probes` and `probe_instant` that of
/// `probe`.
fn append_pruned(probes: &Vec<ProbeRecord>, probe: ProbeRecord, probe_at: &Vec<i128>, probe_instant: i128, cutoff: i128) -> (r: Vec<ProbeRecord>)
    requires
        probe_at@.len() == probes@.len(),
    ensures
        r@.len() <= MAX_PROBES_PER_BRIDGE,
        exists|order: Seq<usize>|
            is_text_order(stamps(probes@).push(probe.timestamp@), order) && probes_view(r@) == pruned(
                probes_view(probes@).push(probe_view(probe)),
                probe_at@.push(probe_instant),
                cutoff,
                order,
            ),
{
    let mut log = copy_probes(probes);
    let ghost pv = probe_view(probe);
    let ghost before = log@;
    log.push(probe);
    proof {
        assert(probes_view(log@) =~= probes_view(probes@).push(pv)) by {
            assert(log@ =~= before.push(probe));
            assert forall|k: int| 0 <= k < probes@.len() implies probe_view(#[trigger] log@[k]) == probe_view(probes@[k]) by {
                assert(probes_view(before)[k] == probes_view(probes@)[k]);
            }
        }
        assert(log@.map_values(|p: ProbeRecord| p.timestamp@) =~= stamps(probes@).push(probe.timestamp@)) by {
            assert forall|k: int| 0 <= k < probes@.len() implies (#[trigger] log@[k]).timestamp@ == probes@[k].timestamp@ by {
                assert(probes_view(log@)[k] == probes_view(probes@)[k]);
            }
        }
    }
    let mut at: Vec<i128> = Vec::new();
    let mut i: usize = 0;
    while i < probe_at.len()
        invariant
            i <= probe_at@.len(),
            at@ == probe_at@.take(i as int),
        decreases probe_at@.len() - i,
    {
        at.push(probe_at[i]);
        assert(probe_at@.take(i + 1) =~= probe_at@.take(i as int).push(probe_at@[i as int]));
        i += 1;
    }
    assert(probe_at@.take(probe_at@.len() as int) =~= probe_at@);
    at.push(probe_instant);
    prune_log(&log, &at, cutoff)
}

// ───────────────────────────── timestamps ─────────────────────────────

/// How the database writes an instant: ISO 8601 seconds with a `+00:00`
/// offset, with six digits of microseconds unless they are zero.
pub open spec fn stamp_text(base: Seq<char>, nanos: u32) -> Seq<char> {
    if nanos / 1000 == 0 {
        base + "+00:00"@
    } else {
        base + "."@ + crate::iran_anti_siam::zero_padded(crate::text::decimal((nanos / 1000) as nat), 6) + "+00:00"@
    }
}

/// The stamp of the instant `secs`, `nanos`; `None` where it cannot be
/// rendered.
pub open spec fn probe_stamp(secs: i64, nanos: u32) -> Option<Seq<char>> {
    match crate::timefmt::iso_seconds_text(secs) {
        Some(base) => Some(stamp_text(base, nanos)),
        None => None,
    }
}

/// The instant (unix seconds and nanoseconds) as the database writes it;
/// `None` where it cannot be rendered.
pub fn iso_timestamp(secs: i64, nanos: u32) -> (r: Option<String>)
    ensures
        opt_text(r) == probe_stamp(secs, nanos),
        match r {
            Some(t) => crate::timefmt::iso_seconds_text(secs) matches Some(base) && t@ == stamp_text(base, nanos),
            None => crate::timefmt::iso_seconds_text(secs) is None,
        },
{
    let base = match crate::timefmt::utc_iso_seconds(secs) {
        Some(b) => b,
        None => return None,
    };
    let mut t = base;
    let micros = nanos / 1000;
    if micros == 0 {
        crate::text::push_str(&mut t, "+00:00");
    } else {
        crate::text::push_str(&mut t, ".");
        let mut us = String::new();
        crate::text::push_decimal(&mut us, micros as u64);
        let padded = crate::iran_anti_siam::pad_zeros(us, 6);
        crate::text::push_str(&mut t, padded.as_str());
        crate::text::push_str(&mut t, "+00:00");
    }
    Some(t)
}

impl HistoryManager {
    /// An empty database at the instant (unix seconds and nanoseconds);
    /// `None` where the instant cannot be rendered.
    pub fn at(secs: i64, nanos: u32) -> (h: Option<HistoryManager>)
        ensures
            match h {
                Some(m) => {
                    &&& m.entries().len() == 0
                    &&& m.now_instant() == secs * 1_000_000_000 + nanos
                    &&& crate::timefmt::iso_seconds_text(secs) matches Some(base) && m.now_text() == stamp_text(base, nanos)
                },
                None => crate::timefmt::iso_seconds_text(secs) is None,
            },
    {
        match iso_timestamp(secs, nanos) {
            Some(t) => Some(HistoryManager::new(t.as_str(), secs as i128 * 1_000_000_000 + nanos as i128)),
            None => None,
        }
    }
}
} // verus!
