//! Validation of Cloudflare AI Gateway slot URLs: endpoint-type detection,
//! format checks, the `/workers-ai/` → `/compat/` fix, and per-slot results.
use vstd::prelude::*;
use crate::text::{has_sub, ends_with, first_occurrence, lowercase_of, to_chars, to_lowercase, contains_str, find,
    string_of, string_of_range, starts_with, starts_with_str, slice_range, push_str};
use crate::patterns::{regex_matches, regex_is_match, regex_captures, regex_captures_result};

verus! {

/// Kind of AI endpoint a slot URL points at.
#[derive(Debug, Clone, Copy, PartialEq, Eq, Structural)]
pub enum EndpointType {
    Compat,
    WorkersAi,
    Direct,
    Unknown,
}

impl EndpointType {
    pub open spec fn name(self) -> Seq<char> {
        match self {
            EndpointType::Compat => "compat"@,
            EndpointType::WorkersAi => "workers-ai"@,
            EndpointType::Direct => "direct"@,
            EndpointType::Unknown => "unknown"@,
        }
    }

    /// Stable name.
    pub fn as_str(&self) -> (s: &'static str)
        ensures
            s@ == self.name(),
    {
        match self {
            EndpointType::Compat => "compat",
            EndpointType::WorkersAi => "workers-ai",
            EndpointType::Direct => "direct",
            EndpointType::Unknown => "unknown",
        }
    }
}

/// Suffix of the OpenAI-compatible gateway route.
pub const COMPAT_SUFFIX: &'static str = "/compat/chat/completions";
/// Suffix of the Workers-AI gateway route (answers HTTP 400 for chat calls).
pub const WORKERS_AI_SUFFIX: &'static str = "/workers-ai/v1/chat/completions";

/// Gateway URL shape: account id (32 hex digits) and gateway slug.
pub const GATEWAY_URL_PATTERN: &'static str = "(?i)^https://gateway\\.ai\\.cloudflare\\.com/v1/([0-9a-f]{32})/([a-zA-Z0-9_-]+)";
/// Direct Workers-AI API URL shape.
pub const DIRECT_URL_PATTERN: &'static str = "(?i)^https://api\\.cloudflare\\.com/client/v4/accounts/([0-9a-f]{32})/ai";

// ───────────────────────────── specifications ─────────────────────────────

/// The part of `s` before the first occurrence of `sep` (`s.split(sep).next()`).
pub open spec fn before_first(s: Seq<char>, sep: Seq<char>) -> Seq<char> {
    match first_occurrence(s, sep) {
        Some(i) => s.take(i),
        None => s,
    }
}

/// The part of `s` from the first occurrence of `p` on (`&s[s.find(p)..]`).
pub open spec fn from_first(s: Seq<char>, p: Seq<char>) -> Seq<char> {
    match first_occurrence(s, p) {
        Some(i) => s.skip(i),
        None => s,
    }
}

/// Last `n` characters of `s` (Python's `s[-n:]`).
pub open spec fn suffix_spec(s: Seq<char>, n: nat) -> Seq<char> {
    if s.len() <= n { s } else { s.skip(s.len() - n) }
}

/// Endpoint type of an already lower-cased URL.
pub open spec fn endpoint_type_of_lower(l: Seq<char>) -> EndpointType {
    if has_sub(l, "gateway.ai.cloudflare.com"@) {
        if has_sub(l, "/compat/"@) {
            EndpointType::Compat
        } else if has_sub(l, "/workers-ai/"@) {
            EndpointType::WorkersAi
        } else {
            EndpointType::Compat
        }
    } else if has_sub(l, "api.cloudflare.com"@) {
        EndpointType::Direct
    } else {
        EndpointType::Unknown
    }
}

/// Endpoint type of `url` (the checks run on its lower-cased form).
pub open spec fn endpoint_type_spec(url: Seq<char>) -> EndpointType {
    endpoint_type_of_lower(lowercase_of(url))
}

/// `(is_valid, error_message)` for `url` of type `t`.
pub open spec fn url_format_spec(url: Seq<char>, t: EndpointType) -> (bool, Seq<char>) {
    if !starts_with(url, "https://"@) {
        (false, "URL must start with https://"@)
    } else {
        match t {
            EndpointType::Compat | EndpointType::WorkersAi => {
                let base = before_first(before_first(url, "/compat/"@), "/workers-ai/"@);
                if regex_matches(GATEWAY_URL_PATTERN@, base) {
                    (true, Seq::empty())
                } else {
                    (false, "Gateway URL doesn't match CF AI Gateway pattern"@)
                }
            },
            EndpointType::Direct => {
                if regex_matches(DIRECT_URL_PATTERN@, url) {
                    (true, Seq::empty())
                } else {
                    (false, "Direct URL doesn't match CF Workers AI pattern"@)
                }
            },
            EndpointType::Unknown => (true, Seq::empty()),
        }
    }
}

/// The corrected URL for `url` of type `t`.
pub open spec fn recommended_url_spec(url: Seq<char>, t: EndpointType) -> Seq<char> {
    match t {
        EndpointType::Direct | EndpointType::Compat => url,
        EndpointType::WorkersAi => before_first(url, "/workers-ai"@) + COMPAT_SUFFIX@,
        EndpointType::Unknown => {
            if has_sub(url, "gateway.ai.cloudflare.com"@) {
                match regex_captures_result(GATEWAY_URL_PATTERN@, url) {
                    Some(g) => if g.len() > 2 && g[1] is Some && g[2] is Some {
                        "https://gateway.ai.cloudflare.com/v1/"@ + g[1].unwrap() + "/"@ + g[2].unwrap()
                            + COMPAT_SUFFIX@
                    } else {
                        url
                    },
                    None => url,
                }
            } else {
                url
            }
        },
    }
}

/// The route suffix reported for `url`.
pub open spec fn suffix_of_url(url: Seq<char>) -> Seq<char> {
    if has_sub(url, "/compat/chat/completions"@) {
        "/compat/chat/completions"@
    } else if has_sub(url, "/workers-ai/v1/chat/completions"@) {
        "/workers-ai/v1/chat/completions"@
    } else if has_sub(url, "/workers-ai"@) {
        from_first(url, "/workers-ai"@)
    } else {
        "<bare>"@
    }
}

// ───────────────────────────── executable functions ─────────────────────────────

/// Python's `s[-n:]`: the last `n` characters of `s` (all of it if shorter).
pub fn python_str_suffix(s: &str, n: usize) -> (r: String)
    ensures
        r@ == suffix_spec(s@, n as nat),
{
    let v = to_chars(s);
    let start = if v.len() > n { v.len() - n } else { 0 };
    let r = string_of_range(&v, start, v.len());
    assert(r@ =~= suffix_spec(s@, n as nat));
    r
}

/// `s.split(sep).next()`: `s` up to the first `sep`.
fn before_first_exec(s: &Vec<char>, sep: &str) -> (r: Vec<char>)
    ensures
        r@ == before_first(s@, sep@),
{
    let sv = to_chars(sep);
    match find(s, &sv) {
        Some(i) => slice_range(s, 0, i),
        None => s.clone(),
    }
}

/// Endpoint type of a slot URL.
pub fn detect_endpoint_type(url: &str) -> (t: EndpointType)
    ensures
        t == endpoint_type_spec(url@),
{
    let lower = to_lowercase(url);
    let l = to_chars(lower.as_str());
    if contains_str(&l, "gateway.ai.cloudflare.com") {
        if contains_str(&l, "/compat/") {
            EndpointType::Compat
        } else if contains_str(&l, "/workers-ai/") {
            EndpointType::WorkersAi
        } else {
            EndpointType::Compat
        }
    } else if contains_str(&l, "api.cloudflare.com") {
        EndpointType::Direct
    } else {
        EndpointType::Unknown
    }
}

/// Format check of `url` as an endpoint of type `endpoint_type`:
/// `(is_valid, error_message)`.
pub fn validate_url_format(url: &str, endpoint_type: EndpointType) -> (r: (bool, String))
    ensures
        (r.0, r.1@) == url_format_spec(url@, endpoint_type),
{
    let v = to_chars(url);
    if !starts_with_str(&v, "https://") {
        return (false, String::from_str("URL must start with https://"));
    }
    match endpoint_type {
        EndpointType::Compat | EndpointType::WorkersAi => {
            let b1 = before_first_exec(&v, "/compat/");
            let b2 = before_first_exec(&b1, "/workers-ai/");
            let base = string_of(&b2);
            if regex_is_match(GATEWAY_URL_PATTERN, base.as_str()) == Some(true) {
                (true, String::new())
            } else {
                (false, String::from_str("Gateway URL doesn't match CF AI Gateway pattern"))
            }
        },
        EndpointType::Direct => {
            if regex_is_match(DIRECT_URL_PATTERN, url) == Some(true) {
                (true, String::new())
            } else {
                (false, String::from_str("Direct URL doesn't match CF Workers AI pattern"))
            }
        },
        EndpointType::Unknown => (true, String::new()),
    }
}

/// The URL the slot should use instead of `url`.
pub fn build_recommended_url(url: &str, endpoint_type: EndpointType) -> (r: String)
    ensures
        r@ == recommended_url_spec(url@, endpoint_type),
{
    match endpoint_type {
        EndpointType::Direct | EndpointType::Compat => String::from_str(url),
        EndpointType::WorkersAi => {
            let v = to_chars(url);
            let base = before_first_exec(&v, "/workers-ai");
            let mut r = string_of(&base);
            push_str(&mut r, COMPAT_SUFFIX);
            r
        },
        EndpointType::Unknown => {
            let v = to_chars(url);
            if contains_str(&v, "gateway.ai.cloudflare.com") {
                if let Some(groups) = regex_captures(GATEWAY_URL_PATTERN, url) {
                    if groups.len() > 2 {
                        match (&groups[1], &groups[2]) {
                            (Some(account_id), Some(slug)) => {
                                let mut r = String::from_str("https://gateway.ai.cloudflare.com/v1/");
                                push_str(&mut r, account_id.as_str());
                                push_str(&mut r, "/");
                                push_str(&mut r, slug.as_str());
                                push_str(&mut r, COMPAT_SUFFIX);
                                return r;
                            },
                            _ => {},
                        }
                    }
                }
            }
            String::from_str(url)
        },
    }
}

/// The route suffix of `url`, `"<bare>"` when it has none.
pub fn extract_suffix(url: &str) -> (r: String)
    ensures
        r@ == suffix_of_url(url@),
{
    let v = to_chars(url);
    if contains_str(&v, "/compat/chat/completions") {
        return String::from_str("/compat/chat/completions");
    }
    if contains_str(&v, "/workers-ai/v1/chat/completions") {
        return String::from_str("/workers-ai/v1/chat/completions");
    }
    let p = to_chars("/workers-ai");
    if let Some(idx) = find(&v, &p) {
        let r = string_of_range(&v, idx, v.len());
        assert(r@ =~= from_first(url@, "/workers-ai"@));
        return r;
    }
    String::from_str("<bare>")
}

/// `s.trim_end_matches('/')`.
pub open spec fn strip_trailing_slashes(s: Seq<char>) -> Seq<char>
    decreases s.len(),
{
    if s.len() > 0 && s.last() == '/' {
        strip_trailing_slashes(s.drop_last())
    } else {
        s
    }
}

fn strip_trailing_slashes_exec(s: &str) -> (r: Vec<char>)
    ensures
        r@ == strip_trailing_slashes(s@),
{
    let v = to_chars(s);
    let mut hi = v.len();
    assert(v@.take(hi as int) =~= v@);
    while hi > 0 && v[hi - 1] == '/'
        invariant
            hi <= v.len(),
            v@ == s@,
            strip_trailing_slashes(s@) == strip_trailing_slashes(v@.take(hi as int)),
        decreases hi,
    {
        assert(v@.take(hi as int).drop_last() =~= v@.take(hi - 1));
        hi -= 1;
    }
    slice_range(&v, 0, hi)
}

/// Outcome of one reachability probe of a slot.
#[derive(Debug, Clone, Copy, PartialEq, Eq)]
pub struct ProbeReachability {
    pub is_reachable: bool,
    /// Round-trip time of the probe, microseconds.
    pub latency_us: u64,
}

/// Validation result of one gateway slot.
#[derive(Debug, Clone)]
pub struct EndpointValidationResult {
    pub slot_index: i64,
    pub url: String,
    pub endpoint_type: EndpointType,
    pub is_valid: bool,
    pub is_reachable: bool,
    pub detected_suffix: String,
    pub recommended_url: String,
    pub error_message: String,
    /// Probe round-trip time, microseconds.
    pub probe_latency_us: u64,
    /// Validation time, unix milliseconds.
    pub validated_at_ms: u64,
}

fn copy_result(r: &EndpointValidationResult) -> (c: EndpointValidationResult)
    ensures
        c == *r,
{
    EndpointValidationResult {
        slot_index: r.slot_index,
        url: r.url.clone(),
        endpoint_type: r.endpoint_type,
        is_valid: r.is_valid,
        is_reachable: r.is_reachable,
        detected_suffix: r.detected_suffix.clone(),
        recommended_url: r.recommended_url.clone(),
        error_message: r.error_message.clone(),
        probe_latency_us: r.probe_latency_us,
        validated_at_ms: r.validated_at_ms,
    }
}

/// The result recorded for a slot while validation is switched off.
pub open spec fn disabled_result_ok(r: EndpointValidationResult, slot: i64, url: Seq<char>, now_ms: u64) -> bool {
    &&& r.slot_index == slot
    &&& r.url@ == url
    &&& r.endpoint_type == EndpointType::Unknown
    &&& r.is_valid
    &&& r.is_reachable
    &&& r.detected_suffix@ == "validation_disabled"@
    &&& r.recommended_url@ == Seq::<char>::empty()
    &&& r.error_message@ == Seq::<char>::empty()
    &&& r.probe_latency_us == 0
    &&& r.validated_at_ms == now_ms
}

/// The result recorded for slot `slot` holding `gateway_url`.
pub open spec fn slot_result_ok(r: EndpointValidationResult, slot: i64, gateway_url: Seq<char>, probe: ProbeReachability, now_ms: u64) -> bool {
    let url = strip_trailing_slashes(gateway_url);
    let t = endpoint_type_spec(url);
    let f = url_format_spec(url, t);
    &&& r.slot_index == slot
    &&& r.url@ == url
    &&& r.endpoint_type == t
    &&& r.is_valid == f.0
    &&& r.error_message@ == f.1
    &&& r.recommended_url@ == recommended_url_spec(url, t)
    &&& r.detected_suffix@ == suffix_of_url(url)
    &&& r.is_reachable == probe.is_reachable
    &&& r.probe_latency_us == probe.latency_us
    &&& r.validated_at_ms == now_ms
}

/// The URL a slot's reachability probe should target.
pub open spec fn probe_target_spec(gateway_url: Seq<char>) -> Seq<char> {
    let url = strip_trailing_slashes(gateway_url);
    let rec = recommended_url_spec(url, endpoint_type_spec(url));
    if rec.len() == 0 { url } else { rec }
}

/// Index of the first recorded result for `slot`.
pub open spec fn slot_position(results: Seq<(i64, EndpointValidationResult)>, slot: i64) -> Option<int> {
    if exists|k: int| 0 <= k < results.len() && results[k].0 == slot {
        Some(choose|k: int| 0 <= k < results.len() && results[k].0 == slot
            && forall|j: int| 0 <= j < k ==> results[j].0 != slot)
    } else {
        None
    }
}

fn find_slot(results: &Vec<(i64, EndpointValidationResult)>, slot: i64) -> (r: Option<usize>)
    ensures
        match r {
            Some(k) => slot_position(results@, slot) == Some(k as int) && k < results@.len(),
            None => slot_position(results@, slot) is None,
        },
{
    let mut k: usize = 0;
    while k < results.len()
        invariant
            k <= results.len(),
            forall|j: int| 0 <= j < k ==> results@[j].0 != slot,
        decreases results.len() - k,
    {
        if results[k].0 == slot {
            let ghost c = choose|m: int| 0 <= m < results@.len() && results@[m].0 == slot
                && forall|j: int| 0 <= j < m ==> results@[j].0 != slot;
            assert(c == k as int) by {
                assert(results@[k as int].0 == slot);
                if c < k {
                } else if c > k {
                }
            }
            return Some(k);
        }
        k += 1;
    }
    None
}

/// Validates gateway slot URLs and keeps one result per slot, in the order
/// the slots were first validated.
pub struct EndpointValidator {
    results: Vec<(i64, EndpointValidationResult)>,
    enabled: bool,
    probe_timeout_ms: u64,
}

impl EndpointValidator {
    pub closed spec fn results_spec(&self) -> Seq<(i64, EndpointValidationResult)> {
        self.results@
    }

    pub closed spec fn enabled_spec(&self) -> bool {
        self.enabled
    }

    pub closed spec fn timeout_spec(&self) -> u64 {
        self.probe_timeout_ms
    }

    /// A validator with no results; `enabled` is the value of the
    /// `ENABLE_ENDPOINT_VALIDATION` switch.
    pub fn new(enabled: bool) -> (v: Self)
        ensures
            v.results_spec().len() == 0,
            v.enabled_spec() == enabled,
            v.timeout_spec() == 8000,
    {
        EndpointValidator { results: Vec::new(), enabled, probe_timeout_ms: 8000 }
    }

    /// Whether validation is switched on.
    pub fn is_enabled(&self) -> (b: bool)
        ensures
            b == self.enabled_spec(),
    {
        self.enabled
    }

    /// Probe deadline, milliseconds.
    pub fn probe_timeout_ms(&self) -> (t: u64)
        ensures
            t == self.timeout_spec(),
    {
        self.probe_timeout_ms
    }

    /// Recorded `(slot, result)` pairs in insertion order.
    pub fn results(&self) -> (r: &Vec<(i64, EndpointValidationResult)>)
        ensures
            r@ == self.results_spec(),
    {
        &self.results
    }

    /// The URL whose reachability decides `is_reachable` for `gateway_url`:
    /// the recommended URL, or the trimmed URL when there is none.
    pub fn probe_target(gateway_url: &str) -> (t: String)
        ensures
            t@ == probe_target_spec(gateway_url@),
    {
        let uv = strip_trailing_slashes_exec(gateway_url);
        let url = string_of(&uv);
        let t = detect_endpoint_type(url.as_str());
        let rec = build_recommended_url(url.as_str(), t);
        if rec.as_str().unicode_len() == 0 {
            url
        } else {
            rec
        }
    }

    /// Validates slot `slot_index` holding `gateway_url`, given the outcome
    /// of probing [`Self::probe_target`] and the current time, and records
    /// the result (replacing an earlier result of the same slot in place).
    /// While validation is switched off a permissive result is returned and
    /// nothing is recorded.
    pub fn validate_slot_url(&mut self, slot_index: i64, gateway_url: &str, probe: ProbeReachability, now_ms: u64) -> (r: EndpointValidationResult)
        ensures
            final(self).enabled_spec() == old(self).enabled_spec(),
            !old(self).enabled_spec() ==> disabled_result_ok(r, slot_index, gateway_url@, now_ms)
                && final(self).results_spec() == old(self).results_spec(),
            old(self).enabled_spec() ==> slot_result_ok(r, slot_index, gateway_url@, probe, now_ms)
                && final(self).results_spec() == match slot_position(old(self).results_spec(), slot_index) {
                    Some(k) => old(self).results_spec().update(k, (slot_index, r)),
                    None => old(self).results_spec().push((slot_index, r)),
                },
    {
        if !self.enabled {
            return EndpointValidationResult {
                slot_index,
                url: String::from_str(gateway_url),
                endpoint_type: EndpointType::Unknown,
                is_valid: true,
                is_reachable: true,
                detected_suffix: String::from_str("validation_disabled"),
                recommended_url: String::new(),
                error_message: String::new(),
                probe_latency_us: 0,
                validated_at_ms: now_ms,
            };
        }
        let uv = strip_trailing_slashes_exec(gateway_url);
        let url = string_of(&uv);
        let endpoint_type = detect_endpoint_type(url.as_str());
        let (is_valid, format_error) = validate_url_format(url.as_str(), endpoint_type);
        let recommended_url = build_recommended_url(url.as_str(), endpoint_type);
        let detected_suffix = extract_suffix(url.as_str());
        let result = EndpointValidationResult {
            slot_index,
            url,
            endpoint_type,
            is_valid,
            is_reachable: probe.is_reachable,
            detected_suffix,
            recommended_url,
            error_message: format_error,
            probe_latency_us: probe.latency_us,
            validated_at_ms: now_ms,
        };
        match find_slot(&self.results, slot_index) {
            Some(k) => {
                self.results.set(k, (slot_index, copy_result(&result)));
            },
            None => {
                self.results.push((slot_index, copy_result(&result)));
            },
        }
        result
    }

    /// The recommended URL recorded for `slot_index`, unless none was
    /// recorded or it is empty.
    pub fn get_recommended_url(&self, slot_index: i64) -> (r: Option<String>)
        ensures
            match slot_position(self.results_spec(), slot_index) {
                Some(k) => {
                    let rec = self.results_spec()[k].1.recommended_url@;
                    if rec.len() == 0 { r is None } else { r is Some && r.unwrap()@ == rec }
                },
                None => r is None,
            },
    {
        match find_slot(&self.results, slot_index) {
            Some(k) => {
                let rec = &self.results[k].1.recommended_url;
                if rec.as_str().unicode_len() == 0 {
                    None
                } else {
                    Some(rec.clone())
                }
            },
            None => None,
        }
    }
}

/// Number of recorded results satisfying `pred`.
pub open spec fn count_results(rs: Seq<(i64, EndpointValidationResult)>, pred: spec_fn(EndpointValidationResult) -> bool) -> nat
    decreases rs.len(),
{
    if rs.len() == 0 {
        0
    } else {
        count_results(rs.drop_last(), pred) + if pred(rs.last().1) { 1nat } else { 0nat }
    }
}

/// Tallies behind the validation summary.
#[derive(Debug, Clone, Copy, PartialEq, Eq)]
pub struct ValidationCounts {
    pub total_slots_validated: usize,
    pub valid_urls: usize,
    pub reachable_endpoints: usize,
    pub workers_ai_bug_detected: usize,
}

impl EndpointValidator {
    /// Counts of validated, valid, reachable and `/workers-ai/` slots.
    pub fn validation_counts(&self) -> (c: ValidationCounts)
        ensures
            c.total_slots_validated == self.results_spec().len(),
            c.valid_urls == count_results(self.results_spec(), |r: EndpointValidationResult| r.is_valid),
            c.reachable_endpoints == count_results(self.results_spec(), |r: EndpointValidationResult| r.is_reachable),
            c.workers_ai_bug_detected == count_results(self.results_spec(),
                |r: EndpointValidationResult| r.endpoint_type == EndpointType::WorkersAi),
    {
        let ghost rs = self.results@;
        let mut valid: usize = 0;
        let mut reachable: usize = 0;
        let mut workers: usize = 0;
        let mut k: usize = 0;
        while k < self.results.len()
            invariant
                k <= self.results@.len(),
                rs == self.results@,
                valid == count_results(rs.take(k as int), |r: EndpointValidationResult| r.is_valid),
                reachable == count_results(rs.take(k as int), |r: EndpointValidationResult| r.is_reachable),
                workers == count_results(rs.take(k as int),
                    |r: EndpointValidationResult| r.endpoint_type == EndpointType::WorkersAi),
                valid <= k && reachable <= k && workers <= k,
            decreases self.results.len() - k,
        {
            assert(rs.take(k + 1).drop_last() =~= rs.take(k as int));
            let r = &self.results[k].1;
            if r.is_valid {
                valid += 1;
            }
            if r.is_reachable {
                reachable += 1;
            }
            if r.endpoint_type == EndpointType::WorkersAi {
                workers += 1;
            }
            k += 1;
        }
        assert(rs.take(k as int) =~= rs);
        ValidationCounts {
            total_slots_validated: self.results.len(),
            valid_urls: valid,
            reachable_endpoints: reachable,
            workers_ai_bug_detected: workers,
        }
    }
}

/// A `/workers-ai/` slot URL is always redirected to the compat route.
pub proof fn law_workers_ai_recommendation_uses_compat(url: Seq<char>)
    ensures
        ends_with(recommended_url_spec(url, EndpointType::WorkersAi), COMPAT_SUFFIX@),
{
    let r = recommended_url_spec(url, EndpointType::WorkersAi);
    let b = before_first(url, "/workers-ai"@);
    assert(r.subrange(r.len() - COMPAT_SUFFIX@.len(), r.len() as int) =~= COMPAT_SUFFIX@);
}


/// The name of the environment variable holding slot `i`'s gateway URL.
pub open spec fn gateway_var(i: nat) -> Seq<char> {
    "CF_AI_GATEWAY_URL_"@ + crate::text::decimal(i)
}

/// The slots among the first `n` whose gateway URL is set and not blank,
/// each with its trimmed URL, in slot order.
pub open spec fn configured_slots(env: Seq<(String, String)>, n: nat) -> Seq<(i64, Seq<char>)>
    decreases n,
{
    if n == 0 {
        Seq::empty()
    } else {
        let rest = configured_slots(env, (n - 1) as nat);
        let url = match crate::feature_flags::env_value(env, gateway_var(n)) {
            Some(v) => crate::text::trim(v),
            None => Seq::empty(),
        };
        if url.len() > 0 {
            rest.push((n as i64, url))
        } else {
            rest
        }
    }
}

/// The gateway slots to validate: slots 1 to 11 whose
/// `CF_AI_GATEWAY_URL_<n>` is set and not blank, with their trimmed URLs.
pub fn gateway_slots(env: &Vec<(String, String)>) -> (slots: Vec<(i64, String)>)
    ensures
        slots@.map_values(|e: (i64, String)| (e.0, e.1@)) == configured_slots(env@, 11),
{
    let mut out: Vec<(i64, String)> = Vec::new();
    let mut i: u64 = 1;
    while i <= 11
        invariant
            1 <= i <= 12,
            out@.map_values(|e: (i64, String)| (e.0, e.1@)) == configured_slots(env@, (i - 1) as nat),
        decreases 12 - i,
    {
        let mut name = String::from_str("CF_AI_GATEWAY_URL_");
        crate::text::push_decimal(&mut name, i);
        let url = match crate::feature_flags::env_get(env, name.as_str()) {
            Some(v) => string_of(&crate::text::trim_chars(&to_chars(v.as_str()))),
            None => String::new(),
        };
        let ghost before = out@.map_values(|e: (i64, String)| (e.0, e.1@));
        if url.as_str().unicode_len() > 0 {
            out.push((i as i64, url));
            assert(out@.map_values(|e: (i64, String)| (e.0, e.1@)) =~= before.push((i as i64, url@)));
        }
        i += 1;
    }
    out
}

} // verus!
