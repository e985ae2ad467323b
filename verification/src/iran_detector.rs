//! Detection of national-network (NIN) isolation: the decisions taken on
//! the outcome of TCP probes against international resolvers and domestic
//! gateways, the 30-second verdict cache, strategy advice, and the
//! interference classification of failing international probes.
//!
//! The probes themselves, the clock and the event file are the caller's:
//! these functions take their results as plain values.
use vstd::prelude::*;
use crate::text::{trim, push_str, to_chars, trim_chars, string_of};

verus! {

// ───────────────────────────── probe targets ─────────────────────────────

/// The international DNS resolvers probed: Google, Cloudflare, OpenDNS, Quad9.
pub open spec fn international_probes_spec() -> Seq<(&'static str, u16)> {
    seq![("8.8.8.8", 53u16), ("1.1.1.1", 53u16), ("208.67.222.222", 53u16), ("9.9.9.9", 53u16)]
}

/// The domestic gateways probed: the IRNIC portal and a known NIN resolver.
pub open spec fn nin_probes_spec() -> Seq<(&'static str, u16)> {
    seq![("10.10.34.34", 80u16), ("185.51.200.2", 80u16)]
}

/// The international DNS resolvers probed, as `(host, port)`.
pub fn international_probes() -> (t: Vec<(&'static str, u16)>)
    ensures
        t@ == international_probes_spec(),
{
    let t = vec![("8.8.8.8", 53u16), ("1.1.1.1", 53u16), ("208.67.222.222", 53u16), ("9.9.9.9", 53u16)];
    assert(t@ =~= international_probes_spec());
    t
}

/// The domestic gateways probed, as `(host, port)`.
pub fn nin_probes() -> (t: Vec<(&'static str, u16)>)
    ensures
        t@ == nin_probes_spec(),
{
    let t = vec![("10.10.34.34", 80u16), ("185.51.200.2", 80u16)];
    assert(t@ =~= nin_probes_spec());
    t
}

/// Budget of one probe, in milliseconds.
pub const PROBE_TIMEOUT_MS: u64 = 3000;

/// Whether some probe succeeded.
pub open spec fn any_ok(results: Seq<bool>) -> bool {
    exists|i: int| 0 <= i < results.len() && results[i]
}

/// `(international_ok, nin_active)` from the probe results: international
/// reachability when one international probe connected; an internet cut
/// when a domestic probe connected and no international one did.
pub fn connectivity_verdict(international: &Vec<bool>, nin: &Vec<bool>) -> (r: (bool, bool))
    ensures
        r.0 == any_ok(international@),
        r.1 == (any_ok(nin@) && !any_ok(international@)),
{
    let int_ok = any_true(international);
    let nin_ok = any_true(nin);
    (int_ok, nin_ok && !int_ok)
}

fn any_true(v: &Vec<bool>) -> (b: bool)
    ensures
        b == any_ok(v@),
{
    let mut i: usize = 0;
    while i < v.len()
        invariant
            i <= v.len(),
            forall|j: int| 0 <= j < i ==> !v@[j],
        decreases v.len() - i,
    {
        if v[i] {
            return true;
        }
        i += 1;
    }
    false
}

// ───────────────────────────── advice ─────────────────────────────

pub open spec fn cut_advice() -> Seq<char> {
    "Internet cut detected (شبکه ملی فعال). Use: export/iran_cut_pack.txt → Snowflake, then WebTunnel (CDN-fronted). Avoid vanilla/obfs4 — their IPs are unreachable during cuts."@
}

pub open spec fn open_advice() -> Seq<char> {
    "International internet reachable. Use: export/iran_pack.txt → obfs4 (port 443) or WebTunnel for best performance."@
}

/// The bridge pack and transports to use, by whether an internet cut is active.
pub fn recommend_strategy(nin_active: bool) -> (s: String)
    ensures
        s@ == if nin_active { cut_advice() } else { open_advice() },
{
    if nin_active {
        String::from_str(
            "Internet cut detected (شبکه ملی فعال). Use: export/iran_cut_pack.txt → Snowflake, then WebTunnel (CDN-fronted). Avoid vanilla/obfs4 — their IPs are unreachable during cuts.",
        )
    } else {
        String::from_str(
            "International internet reachable. Use: export/iran_pack.txt → obfs4 (port 443) or WebTunnel for best performance.",
        )
    }
}

/// The two pieces of advice differ.
pub proof fn law_advice_branches_differ()
    ensures
        cut_advice() != open_advice(),
{
    reveal_strlit(
        "Internet cut detected (شبکه ملی فعال). Use: export/iran_cut_pack.txt → Snowflake, then WebTunnel (CDN-fronted). Avoid vanilla/obfs4 — their IPs are unreachable during cuts.",
    );
    reveal_strlit(
        "International internet reachable. Use: export/iran_pack.txt → obfs4 (port 443) or WebTunnel for best performance.",
    );
    assert(cut_advice()[6] != open_advice()[6]);
}

// ───────────────────────────── the verdict cache ─────────────────────────────

/// How long a verdict is reused, in nanoseconds (30 s).
pub const CACHE_TTL_NANOS: u128 = 30_000_000_000;

/// Whether a verdict taken `elapsed_nanos` ago may be reused: never on a
/// forced refresh or before any check, else while strictly under 30 s.
pub fn cache_still_valid(elapsed_nanos: Option<u128>, force_refresh: bool) -> (b: bool)
    ensures
        b == (!force_refresh && match elapsed_nanos {
            Some(e) => e < CACHE_TTL_NANOS,
            None => false,
        }),
{
    if force_refresh {
        return false;
    }
    match elapsed_nanos {
        Some(elapsed) => elapsed < CACHE_TTL_NANOS,
        None => false,
    }
}

/// The NIN detector's state: where events go, and the cached verdict with
/// the monotonic time (in nanoseconds) it was taken at.
pub struct NinDetector {
    events_path: String,
    export_path: String,
    cached: bool,
    last_check_nanos: Option<u128>,
}

impl NinDetector {
    pub closed spec fn events_path_spec(&self) -> Seq<char> {
        self.events_path@
    }

    pub closed spec fn export_path_spec(&self) -> Seq<char> {
        self.export_path@
    }

    /// The cached verdict.
    pub closed spec fn cached_spec(&self) -> bool {
        self.cached
    }

    /// When the cached verdict was taken, if ever.
    pub closed spec fn last_check_spec(&self) -> Option<u128> {
        self.last_check_nanos
    }

    /// A detector that has not checked yet. The export path is kept but
    /// nothing reads it.
    pub fn new(events_path: &str, export_path: &str) -> (d: NinDetector)
        ensures
            d.events_path_spec() == events_path@,
            d.export_path_spec() == export_path@,
            !d.cached_spec(),
            d.last_check_spec() is None,
    {
        NinDetector {
            events_path: String::from_str(events_path),
            export_path: String::from_str(export_path),
            cached: false,
            last_check_nanos: None,
        }
    }

    /// A detector writing to `data/nin_events.json`.
    pub fn with_defaults() -> (d: NinDetector)
        ensures
            d.events_path_spec() == "data/nin_events.json"@,
            d.export_path_spec() == "export/iran_cut_pack.txt"@,
            !d.cached_spec(),
            d.last_check_spec() is None,
    {
        NinDetector::new("data/nin_events.json", "export/iran_cut_pack.txt")
    }

    /// Where detection events are appended.
    pub fn events_path(&self) -> (p: String)
        ensures
            p@ == self.events_path_spec(),
    {
        string_of(&to_chars(self.events_path.as_str()))
    }

    /// The cached verdict if it may be reused at monotonic time `now_nanos`
    /// (the time since the check saturates at zero); `None` when a new
    /// probe round is due.
    pub fn cached_verdict(&self, now_nanos: u128, force_refresh: bool) -> (r: Option<bool>)
        ensures
            r == (if !force_refresh && self.last_check_spec() is Some && (if now_nanos
                >= self.last_check_spec().unwrap() {
                now_nanos - self.last_check_spec().unwrap()
            } else {
                0
            }) < CACHE_TTL_NANOS {
                Some(self.cached_spec())
            } else {
                None
            }),
    {
        let elapsed: Option<u128> = match self.last_check_nanos {
            Some(t) => Some(if now_nanos >= t { now_nanos - t } else { 0 }),
            None => None,
        };
        if cache_still_valid(elapsed, force_refresh) {
            Some(self.cached)
        } else {
            None
        }
    }

    /// Stores the verdict of a probe round taken at `now_nanos`; returns
    /// whether a cut was detected, that is whether the detection event is
    /// to be recorded and notified.
    pub fn record_check(&mut self, nin_active: bool, now_nanos: u128) -> (notify: bool)
        ensures
            notify == nin_active,
            final(self).cached_spec() == nin_active,
            final(self).last_check_spec() == Some(now_nanos),
            final(self).events_path_spec() == old(self).events_path_spec(),
            final(self).export_path_spec() == old(self).export_path_spec(),
    {
        self.cached = nin_active;
        self.last_check_nanos = Some(now_nanos);
        nin_active
    }
}

/// A verdict recorded at `t` is reused for a non-forced query before
/// `t + 30 s` and not from then on.
pub proof fn law_cache_window(t: u128, now: u128)
    requires
        now >= t,
    ensures
        (now - t < CACHE_TTL_NANOS) <==> (now < t + CACHE_TTL_NANOS),
{
}

/// The message sent when an isolation is detected.
pub const TELEGRAM_TEXT: &'static str = "TorShield-IR: NIN isolation detected. Switched to iran_cut_pack.";

pub open spec fn telegram_url_spec(token: Seq<char>) -> Seq<char> {
    "https://api.telegram.org/bot"@ + token + "/sendMessage"@
}

/// The Telegram send URL for a bot token and chat id (both trimmed);
/// `None` when either is empty, in which case nothing is sent.
pub fn telegram_send_url(token: &str, chat_id: &str) -> (r: Option<String>)
    ensures
        match r {
            Some(u) => trim(token@).len() > 0 && trim(chat_id@).len() > 0 && u@ == telegram_url_spec(trim(token@)),
            None => trim(token@).len() == 0 || trim(chat_id@).len() == 0,
        },
{
    let t = trim_chars(&to_chars(token));
    let c = trim_chars(&to_chars(chat_id));
    if t.len() == 0 || c.len() == 0 {
        return None;
    }
    let mut u = String::from_str("https://api.telegram.org/bot");
    let ts = string_of(&t);
    push_str(&mut u, ts.as_str());
    push_str(&mut u, "/sendMessage");
    Some(u)
}

// ───────────────────────────── probe telemetry ─────────────────────────────

/// How a single probe ended.
#[derive(Debug, Clone, Copy, PartialEq, Eq, Structural)]
pub enum ProbeOutcome {
    /// Connected (and, for an HTTPS probe, completed the TLS handshake).
    Connected,
    /// No answer within the budget: passive black-holing.
    Timeout,
    /// Reset or refused: an active in-path reset.
    Refused,
    /// Name resolution failed or was poisoned.
    DnsFailure,
    /// Connected, then the TLS handshake was torn down (SNI filtering).
    TlsHandshakeFail,
}

/// Telemetry of one probe; `anchor_group` buckets correlated anchors, and
/// `elapsed_nanos` is the probe's duration.
#[derive(Debug, Clone, PartialEq, Eq)]
pub struct ProbeResult {
    pub host: String,
    pub port: u16,
    pub international: bool,
    pub anchor_group: u8,
    pub outcome: ProbeOutcome,
    pub elapsed_nanos: u128,
}

impl ProbeResult {
    pub fn new(
        host: &str,
        port: u16,
        international: bool,
        anchor_group: u8,
        outcome: ProbeOutcome,
        elapsed_nanos: u128,
    ) -> (r: ProbeResult)
        ensures
            r.host@ == host@,
            r.port == port,
            r.international == international,
            r.anchor_group == anchor_group,
            r.outcome == outcome,
            r.elapsed_nanos == elapsed_nanos,
    {
        ProbeResult { host: String::from_str(host), port, international, anchor_group, outcome, elapsed_nanos }
    }
}

/// How international reachability is interfered with.
#[derive(Debug, Clone, Copy, PartialEq, Eq, Structural)]
pub enum InterferenceKind {
    NoInterference,
    Timeout,
    ActiveReset,
    DnsInterference,
    TlsHandshakeFail,
    Mixed,
}

/// The anchor groups of one class of probes (international or domestic):
/// each group once, in order of first appearance, and those with a probe
/// that connected.
#[derive(Debug, Clone, PartialEq, Eq)]
pub struct AnchorGroups {
    pub seen: Vec<u8>,
    pub ok: Vec<u8>,
}

/// Group `g` has a probe of the class.
pub open spec fn group_seen(results: Seq<ProbeResult>, international: bool, g: u8) -> bool {
    exists|i: int|
        0 <= i < results.len() && #[trigger] results[i].international == international && results[i].anchor_group == g
}

/// Group `g` has a probe of the class that connected.
pub open spec fn group_ok(results: Seq<ProbeResult>, international: bool, g: u8) -> bool {
    exists|i: int|
        0 <= i < results.len() && #[trigger] results[i].international == international && results[i].anchor_group == g
            && results[i].outcome == ProbeOutcome::Connected
}

proof fn lemma_groups_push(pre: Seq<ProbeResult>, x: ProbeResult, international: bool, g: u8)
    ensures
        group_seen(pre.push(x), international, g) <==> (group_seen(pre, international, g) || (x.international
            == international && x.anchor_group == g)),
        group_ok(pre.push(x), international, g) <==> (group_ok(pre, international, g) || (x.international
            == international && x.anchor_group == g && x.outcome == ProbeOutcome::Connected)),
{
    let post = pre.push(x);
    if group_seen(post, international, g) {
        let i = choose|i: int|
            0 <= i < post.len() && #[trigger] post[i].international == international && post[i].anchor_group == g;
        if i < pre.len() {
            assert(pre[i] == post[i]);
        }
    }
    if group_seen(pre, international, g) {
        let i = choose|i: int|
            0 <= i < pre.len() && #[trigger] pre[i].international == international && pre[i].anchor_group == g;
        assert(post[i] == pre[i]);
    }
    if x.international == international && x.anchor_group == g {
        assert(post[pre.len() as int] == x);
    }
    if group_ok(post, international, g) {
        let i = choose|i: int|
            0 <= i < post.len() && #[trigger] post[i].international == international && post[i].anchor_group == g
                && post[i].outcome == ProbeOutcome::Connected;
        if i < pre.len() {
            assert(pre[i] == post[i]);
        }
    }
    if group_ok(pre, international, g) {
        let i = choose|i: int|
            0 <= i < pre.len() && #[trigger] pre[i].international == international && pre[i].anchor_group == g
                && pre[i].outcome == ProbeOutcome::Connected;
        assert(post[i] == pre[i]);
    }
}

proof fn lemma_push_contains(s: Seq<u8>, a: u8, b: u8)
    ensures
        s.push(a).contains(b) <==> (s.contains(b) || a == b),
{
    if s.push(a).contains(b) {
        let i = choose|i: int| 0 <= i < s.push(a).len() && s.push(a)[i] == b;
        if i < s.len() {
            assert(s[i] == b);
        }
    }
    if s.contains(b) {
        let i = choose|i: int| 0 <= i < s.len() && s[i] == b;
        assert(s.push(a)[i] == b);
    }
    if a == b {
        assert(s.push(a)[s.len() as int] == b);
    }
}

fn contains_u8(v: &Vec<u8>, g: u8) -> (b: bool)
    ensures
        b == v@.contains(g),
{
    let mut i: usize = 0;
    while i < v.len()
        invariant
            i <= v.len(),
            forall|j: int| 0 <= j < i ==> v@[j] != g,
        decreases v.len() - i,
    {
        if v[i] == g {
            proof {
                assert(v@[i as int] == g);
            }
            return true;
        }
        i += 1;
    }
    false
}

/// The distinct anchor groups of a class and those among them that
/// connected; the success share weighs each group once.
pub fn anchor_groups(results: &Vec<ProbeResult>, international: bool) -> (a: AnchorGroups)
    ensures
        a.seen@.no_duplicates(),
        a.ok@.no_duplicates(),
        forall|g: u8| a.seen@.contains(g) <==> group_seen(results@, international, g),
        forall|g: u8| a.ok@.contains(g) <==> group_ok(results@, international, g),
{
    let mut seen: Vec<u8> = Vec::new();
    let mut ok: Vec<u8> = Vec::new();
    let mut k: usize = 0;
    while k < results.len()
        invariant
            k <= results.len(),
            seen@.no_duplicates(),
            ok@.no_duplicates(),
            forall|g: u8| seen@.contains(g) <==> group_seen(results@.take(k as int), international, g),
            forall|g: u8| ok@.contains(g) <==> group_ok(results@.take(k as int), international, g),
        decreases results.len() - k,
    {
        let r = &results[k];
        let ghost pre = results@.take(k as int);
        let ghost post = results@.take(k + 1);
        assert(post =~= pre.push(results@[k as int]));
        let ghost s0 = seen@;
        let ghost o0 = ok@;
        if r.international == international {
            let g = r.anchor_group;
            if !contains_u8(&seen, g) {
                seen.push(g);
            }
            if r.outcome == ProbeOutcome::Connected && !contains_u8(&ok, g) {
                ok.push(g);
            }
        }
        assert forall|g: u8| seen@.contains(g) <==> group_seen(post, international, g) by {
            lemma_groups_push(pre, results@[k as int], international, g);
            lemma_push_contains(s0, results@[k as int].anchor_group, g);
        }
        assert forall|g: u8| ok@.contains(g) <==> group_ok(post, international, g) by {
            lemma_groups_push(pre, results@[k as int], international, g);
            lemma_push_contains(o0, results@[k as int].anchor_group, g);
        }
        k += 1;
    }
    assert(results@.take(results.len() as int) =~= results@);
    AnchorGroups { seen, ok }
}

/// Some probe of the class connected.
pub open spec fn class_ok(results: Seq<ProbeResult>, international: bool) -> bool {
    exists|i: int|
        0 <= i < results.len() && #[trigger] results[i].international == international && results[i].outcome
            == ProbeOutcome::Connected
}

/// `(international_ok, nin_active)` from probe telemetry, with the same
/// meaning as [`connectivity_verdict`]: a class counts as reachable when
/// one of its anchor groups connected.
pub fn assessment_flags(results: &Vec<ProbeResult>) -> (r: (bool, bool))
    ensures
        r.0 == class_ok(results@, true),
        r.1 == (class_ok(results@, false) && !class_ok(results@, true)),
{
    let mut int_ok = false;
    let mut dom_ok = false;
    let mut k: usize = 0;
    while k < results.len()
        invariant
            k <= results.len(),
            int_ok == class_ok(results@.take(k as int), true),
            dom_ok == class_ok(results@.take(k as int), false),
        decreases results.len() - k,
    {
        let ghost pre = results@.take(k as int);
        let ghost post = results@.take(k + 1);
        assert(post =~= pre.push(results@[k as int]));
        let r = &results[k];
        if r.outcome == ProbeOutcome::Connected {
            if r.international {
                int_ok = true;
            } else {
                dom_ok = true;
            }
        }
        proof {
            assert(post[k as int] == results@[k as int]);
            if class_ok(post, true) && !class_ok(pre, true) {
                let i = choose|i: int|
                    0 <= i < post.len() && #[trigger] post[i].international == true && post[i].outcome == ProbeOutcome::Connected;
                if i < k {
                    assert(pre[i] == post[i]);
                }
            }
            if class_ok(pre, true) {
                let i = choose|i: int|
                    0 <= i < pre.len() && #[trigger] pre[i].international == true && pre[i].outcome == ProbeOutcome::Connected;
                assert(post[i] == pre[i]);
            }
            if class_ok(post, false) && !class_ok(pre, false) {
                let i = choose|i: int|
                    0 <= i < post.len() && #[trigger] post[i].international == false && post[i].outcome == ProbeOutcome::Connected;
                if i < k {
                    assert(pre[i] == post[i]);
                }
            }
            if class_ok(pre, false) {
                let i = choose|i: int|
                    0 <= i < pre.len() && #[trigger] pre[i].international == false && pre[i].outcome == ProbeOutcome::Connected;
                assert(post[i] == pre[i]);
            }
        }
        k += 1;
    }
    assert(results@.take(results.len() as int) =~= results@);
    (int_ok, dom_ok && !int_ok)
}

// ───────────────────────────── interference classification ─────────────────────────────

/// The interference a failed probe outcome stands for.
pub open spec fn failure_kind(o: ProbeOutcome) -> InterferenceKind {
    match o {
        ProbeOutcome::Connected => InterferenceKind::NoInterference,
        ProbeOutcome::Timeout => InterferenceKind::Timeout,
        ProbeOutcome::Refused => InterferenceKind::ActiveReset,
        ProbeOutcome::DnsFailure => InterferenceKind::DnsInterference,
        ProbeOutcome::TlsHandshakeFail => InterferenceKind::TlsHandshakeFail,
    }
}

pub open spec fn intl_at(results: Seq<ProbeResult>, i: int) -> bool {
    0 <= i < results.len() && results[i].international
}

/// No interference without international probes or when one of them
/// connected; otherwise the single failure kind they share, or `Mixed`
/// when they failed in different ways. Domestic probes never count.
pub open spec fn interference_spec(results: Seq<ProbeResult>) -> InterferenceKind {
    if !(exists|i: int| intl_at(results, i)) || class_ok(results, true) {
        InterferenceKind::NoInterference
    } else {
        let i0 = choose|i: int| intl_at(results, i);
        if forall|j: int| intl_at(results, j) ==> #[trigger] results[j].outcome == results[i0].outcome {
            failure_kind(results[i0].outcome)
        } else {
            InterferenceKind::Mixed
        }
    }
}

/// How the international path is interfered with, judged from the failing
/// international probes.
pub fn classify_interference(results: &Vec<ProbeResult>) -> (k: InterferenceKind)
    ensures
        k == interference_spec(results@),
{
    let mut first: Option<ProbeOutcome> = None;
    let mut first_idx: usize = 0;
    let mut uniform = true;
    let mut any_ok = false;
    let mut k: usize = 0;
    while k < results.len()
        invariant
            k <= results.len(),
            match first {
                None => forall|j: int| 0 <= j < k ==> !intl_at(results@, j),
                Some(o) => first_idx < k && intl_at(results@, first_idx as int) && results@[first_idx as int].outcome == o
                    && (uniform <==> forall|j: int|
                    0 <= j < k && intl_at(results@, j) ==> #[trigger] results@[j].outcome == o),
            },
            first is None ==> uniform,
            any_ok == exists|j: int| 0 <= j < k && intl_at(results@, j) && #[trigger] results@[j].outcome == ProbeOutcome::Connected,
        decreases results.len() - k,
    {
        let r = &results[k];
        assert(intl_at(results@, k as int) == r.international);
        if r.international {
            if r.outcome == ProbeOutcome::Connected {
                any_ok = true;
            }
            match first {
                None => {
                    first = Some(r.outcome);
                    first_idx = k;
                },
                Some(o) => {
                    if r.outcome != o {
                        uniform = false;
                    }
                },
            }
        }
        proof {
            if first is None {
                assert forall|j: int| 0 <= j < k + 1 implies !intl_at(results@, j) by {
                    if j == k {
                        assert(!r.international);
                    }
                }
            }
        }
        k += 1;
    }
    proof {
        if any_ok {
            let j = choose|j: int| 0 <= j < k && intl_at(results@, j) && #[trigger] results@[j].outcome == ProbeOutcome::Connected;
            assert(results@[j].international == true && results@[j].outcome == ProbeOutcome::Connected);
        }
        if class_ok(results@, true) {
            let j = choose|j: int| 0 <= j < results@.len() && #[trigger] results@[j].international == true && results@[j].outcome == ProbeOutcome::Connected;
            assert(intl_at(results@, j));
        }
    }
    match first {
        None => InterferenceKind::NoInterference,
        Some(o) => {
            if any_ok {
                InterferenceKind::NoInterference
            } else {
                proof {
                    let i0 = choose|i: int| intl_at(results@, i);
                    assert(results@[i0].outcome != ProbeOutcome::Connected);
                    if uniform {
                        assert(results@[i0].outcome == o);
                    } else {
                        let j = choose|j: int| !(intl_at(results@, j) ==> #[trigger] results@[j].outcome == o);
                        if results@[i0].outcome == o {
                            assert(!(intl_at(results@, j) ==> results@[j].outcome == results@[i0].outcome));
                        } else {
                            assert(!(intl_at(results@, first_idx as int) ==> results@[first_idx as int].outcome
                                == results@[i0].outcome));
                        }
                    }
                }
                if uniform {
                    match o {
                        ProbeOutcome::Connected => InterferenceKind::NoInterference,
                        ProbeOutcome::Timeout => InterferenceKind::Timeout,
                        ProbeOutcome::Refused => InterferenceKind::ActiveReset,
                        ProbeOutcome::DnsFailure => InterferenceKind::DnsInterference,
                        ProbeOutcome::TlsHandshakeFail => InterferenceKind::TlsHandshakeFail,
                    }
                } else {
                    InterferenceKind::Mixed
                }
            }
        },
    }
}

/// Without international probes there is no interference to report,
/// whatever the domestic probes say.
pub proof fn law_no_international_probe_no_interference(results: Seq<ProbeResult>)
    requires
        forall|i: int| 0 <= i < results.len() ==> !(#[trigger] results[i]).international,
    ensures
        interference_spec(results) == InterferenceKind::NoInterference,
{
    assert(!(exists|i: int| intl_at(results, i)));
}

/// An international probe that connected, at whatever position, means the
/// international path is not blocked: no interference.
pub proof fn law_connected_international_probe_no_interference(results: Seq<ProbeResult>, i: int)
    requires
        0 <= i < results.len(),
        results[i].international,
        results[i].outcome == ProbeOutcome::Connected,
    ensures
        interference_spec(results) == InterferenceKind::NoInterference,
{
    assert(results[i].international == true);
    assert(class_ok(results, true));
}

/// When every international probe failed in the same way, the verdict is
/// the interference that failure stands for: all timed out is passive
/// black-holing (`Timeout`), all refused is an active reset, all failing
/// name resolution is DNS interference, all torn down in the TLS handshake
/// is TLS handshake interference.
pub proof fn law_uniform_failure_gives_its_kind(results: Seq<ProbeResult>, i: int)
    requires
        0 <= i < results.len(),
        results[i].international,
        results[i].outcome != ProbeOutcome::Connected,
        forall|j: int| 0 <= j < results.len() && (#[trigger] results[j]).international ==> results[j].outcome
            == results[i].outcome,
    ensures
        interference_spec(results) == failure_kind(results[i].outcome),
        results[i].outcome == ProbeOutcome::Timeout ==> interference_spec(results) == InterferenceKind::Timeout,
        results[i].outcome == ProbeOutcome::Refused ==> interference_spec(results) == InterferenceKind::ActiveReset,
        results[i].outcome == ProbeOutcome::DnsFailure ==> interference_spec(results)
            == InterferenceKind::DnsInterference,
        results[i].outcome == ProbeOutcome::TlsHandshakeFail ==> interference_spec(results)
            == InterferenceKind::TlsHandshakeFail,
{
    assert(intl_at(results, i));
    if class_ok(results, true) {
        let k = choose|k: int|
            0 <= k < results.len() && #[trigger] results[k].international == true && results[k].outcome
                == ProbeOutcome::Connected;
        assert(results[k].outcome == results[i].outcome);
    }
    let i0 = choose|i: int| intl_at(results, i);
    assert(results[i0].outcome == results[i].outcome);
    assert forall|j: int| intl_at(results, j) implies #[trigger] results[j].outcome == results[i0].outcome by {
        assert(results[j].international);
    }
}

/// When no international probe connected and two of them failed in
/// different ways, the verdict is `Mixed`.
pub proof fn law_different_failures_are_mixed(results: Seq<ProbeResult>, i: int, j: int)
    requires
        0 <= i < results.len(),
        0 <= j < results.len(),
        results[i].international,
        results[j].international,
        results[i].outcome != results[j].outcome,
        forall|m: int| 0 <= m < results.len() && (#[trigger] results[m]).international ==> results[m].outcome
            != ProbeOutcome::Connected,
    ensures
        interference_spec(results) == InterferenceKind::Mixed,
{
    assert(intl_at(results, i) && intl_at(results, j));
    if class_ok(results, true) {
        let k = choose|k: int|
            0 <= k < results.len() && #[trigger] results[k].international == true && results[k].outcome
                == ProbeOutcome::Connected;
        assert(results[k].international);
    }
    let i0 = choose|i: int| intl_at(results, i);
    if forall|m: int| intl_at(results, m) ==> #[trigger] results[m].outcome == results[i0].outcome {
        assert(results[i].outcome == results[i0].outcome);
        assert(results[j].outcome == results[i0].outcome);
    }
}

// ───────────────────────────── transports and the generator ─────────────────────────────

/// Pluggable transports ranked by the adaptive router.
#[derive(Debug, Clone, Copy, PartialEq, Eq, Hash, Structural)]
pub enum Transport {
    Snowflake,
    DomainFrontedWebTunnel,
    Ech,
    WebTunnel,
    Obfs4,
    Vanilla,
}

impl Transport {
    pub open spec fn tie_rank(self) -> u8 {
        match self {
            Transport::Snowflake => 0,
            Transport::DomainFrontedWebTunnel => 1,
            Transport::Ech => 2,
            Transport::WebTunnel => 3,
            Transport::Obfs4 => 4,
            Transport::Vanilla => 5,
        }
    }

    /// Fixed tie-break priority (lower is preferred), favouring
    /// censorship-resistant transports.
    pub fn tie_break(self) -> (r: u8)
        ensures
            r == self.tie_rank(),
    {
        match self {
            Transport::Snowflake => 0,
            Transport::DomainFrontedWebTunnel => 1,
            Transport::Ech => 2,
            Transport::WebTunnel => 3,
            Transport::Obfs4 => 4,
            Transport::Vanilla => 5,
        }
    }
}

/// Distinct transports never share a tie-break priority.
pub proof fn law_tie_break_is_injective(a: Transport, b: Transport)
    ensures
        a.tie_rank() == b.tie_rank() ==> a == b,
{
}

/// The transports, in tie-break order.
pub fn all_transports() -> (t: Vec<Transport>)
    ensures
        t@.len() == 6,
        forall|i: int| 0 <= i < 6 ==> (#[trigger] t@[i]).tie_rank() == i,
{
    vec![
        Transport::Snowflake,
        Transport::DomainFrontedWebTunnel,
        Transport::Ech,
        Transport::WebTunnel,
        Transport::Obfs4,
        Transport::Vanilla,
    ]
}

/// A ranked transport list and why.
#[derive(Debug, Clone, PartialEq, Eq)]
pub struct StrategyRecommendation {
    pub ranked: Vec<Transport>,
    pub rationale: String,
}



/// The state after one splitmix64 step.
pub open spec fn splitmix_next_state(state: u64) -> u64 {
    vstd::wrapping::u64_specs::wrapping_add(state, 0x9E37_79B9_7F4A_7C15)
}

/// The splitmix64 output for an advanced state.
pub open spec fn splitmix_output(z0: u64) -> u64 {
    let z1 = vstd::wrapping::u64_specs::wrapping_mul(z0 ^ (z0 >> 30u64), 0xBF58_476D_1CE4_E5B9);
    let z2 = vstd::wrapping::u64_specs::wrapping_mul(z1 ^ (z1 >> 27u64), 0x94D0_49BB_1331_11EB);
    z2 ^ (z2 >> 31u64)
}

/// One step of the splitmix64 generator: advances the state by the golden
/// gamma (wrapping) and returns the mixed output.
pub fn splitmix64(state: &mut u64) -> (r: u64)
    ensures
        *final(state) == splitmix_next_state(*old(state)),
        r == splitmix_output(*final(state)),
{
    *state = state.wrapping_add(0x9E37_79B9_7F4A_7C15);
    let mut z = *state;
    z = (z ^ (z >> 30)).wrapping_mul(0xBF58_476D_1CE4_E5B9);
    z = (z ^ (z >> 27)).wrapping_mul(0x94D0_49BB_1331_11EB);
    z ^ (z >> 31)
}

} // verus!
