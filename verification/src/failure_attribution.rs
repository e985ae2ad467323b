//! Root-cause attribution of failed bridge probes.
//!
//! Latencies are carried as integer microseconds and durations as integer
//! milliseconds; confidences are per-mille (0..=1000).
use vstd::prelude::*;
use crate::text::{has_sub, lowercase_of, to_lowercase, decimal, to_chars, contains_str, push_decimal, push_str, starts_with};

verus! {

/// Failure categories, from most to least specific evidence.
#[derive(Debug, Clone, Copy, PartialEq, Eq, Structural)]
pub enum FailureCategory {
    Timeout,
    TcpReset,
    TcpRefused,
    TlsFailure,
    HandshakeFailure,
    DnsAnomaly,
    ReachabilityFailure,
    ActiveBlocking,
    Unknown,
}

impl FailureCategory {
    pub open spec fn code_spec(self) -> Seq<char> {
        match self {
            FailureCategory::Timeout => "timeout"@,
            FailureCategory::TcpReset => "tcp_reset"@,
            FailureCategory::TcpRefused => "tcp_refused"@,
            FailureCategory::TlsFailure => "tls_failure"@,
            FailureCategory::HandshakeFailure => "handshake_failure"@,
            FailureCategory::DnsAnomaly => "dns_anomaly"@,
            FailureCategory::ReachabilityFailure => "reachability_failure"@,
            FailureCategory::ActiveBlocking => "active_blocking"@,
            FailureCategory::Unknown => "unknown"@,
        }
    }

    pub open spec fn label_spec(self) -> Seq<char> {
        match self {
            FailureCategory::Timeout => "Timeout — no response received"@,
            FailureCategory::TcpReset => "TCP Reset — actively rejected"@,
            FailureCategory::TcpRefused => "TCP Refused — port closed/filtered"@,
            FailureCategory::TlsFailure => "TLS Failure — handshake or certificate error"@,
            FailureCategory::HandshakeFailure => "Handshake Failure — transport protocol error"@,
            FailureCategory::DnsAnomaly => "DNS Anomaly — resolution failure or unexpected result"@,
            FailureCategory::ReachabilityFailure => "Reachability Failure — TCP OK but probe failed"@,
            FailureCategory::ActiveBlocking => "Active Blocking — pattern matches DPI/censorship"@,
            FailureCategory::Unknown => "Unknown — insufficient evidence to classify"@,
        }
    }

    /// Stable machine-readable code.
    pub fn code(&self) -> (s: &'static str)
        ensures
            s@ == self.code_spec(),
    {
        match self {
            FailureCategory::Timeout => "timeout",
            FailureCategory::TcpReset => "tcp_reset",
            FailureCategory::TcpRefused => "tcp_refused",
            FailureCategory::TlsFailure => "tls_failure",
            FailureCategory::HandshakeFailure => "handshake_failure",
            FailureCategory::DnsAnomaly => "dns_anomaly",
            FailureCategory::ReachabilityFailure => "reachability_failure",
            FailureCategory::ActiveBlocking => "active_blocking",
            FailureCategory::Unknown => "unknown",
        }
    }

    /// Human-readable label for reports and logs.
    pub fn label(&self) -> (s: &'static str)
        ensures
            s@ == self.label_spec(),
    {
        match self {
            FailureCategory::Timeout => "Timeout — no response received",
            FailureCategory::TcpReset => "TCP Reset — actively rejected",
            FailureCategory::TcpRefused => "TCP Refused — port closed/filtered",
            FailureCategory::TlsFailure => "TLS Failure — handshake or certificate error",
            FailureCategory::HandshakeFailure => "Handshake Failure — transport protocol error",
            FailureCategory::DnsAnomaly => "DNS Anomaly — resolution failure or unexpected result",
            FailureCategory::ReachabilityFailure => "Reachability Failure — TCP OK but probe failed",
            FailureCategory::ActiveBlocking => "Active Blocking — pattern matches DPI/censorship",
            FailureCategory::Unknown => "Unknown — insufficient evidence to classify",
        }
    }
}

/// Distinct categories have distinct codes.
pub proof fn law_category_codes_distinct(a: FailureCategory, b: FailureCategory)
    requires
        a != b,
    ensures
        a.code_spec() != b.code_spec(),
{
    reveal_strlit("timeout");
    reveal_strlit("tcp_reset");
    reveal_strlit("tcp_refused");
    reveal_strlit("tls_failure");
    reveal_strlit("handshake_failure");
    reveal_strlit("dns_anomaly");
    reveal_strlit("reachability_failure");
    reveal_strlit("active_blocking");
    reveal_strlit("unknown");
    assert(a.code_spec().len() != b.code_spec().len() || a.code_spec()[0] != b.code_spec()[0]
        || a.code_spec()[4] != b.code_spec()[4]);
}

/// Raw observations collected during one bridge probe attempt; a field is
/// `Some` only when that observation was made.
#[derive(Debug, Clone)]
pub struct ProbeEvidence {
    pub host: Option<String>,
    pub port: Option<u16>,
    pub transport: Option<String>,
    pub tcp_connect_ok: Option<bool>,
    /// TCP connect latency, microseconds.
    pub tcp_latency_us: Option<u64>,
    pub tls_ok: Option<bool>,
    /// TLS handshake latency, microseconds.
    pub tls_latency_us: Option<u64>,
    pub tls_error: Option<String>,
    pub transport_handshake_ok: Option<bool>,
    pub transport_error: Option<String>,
    pub dns_ok: Option<bool>,
    pub dns_error: Option<String>,
    /// Resolved addresses, in text form.
    pub resolved_ips: Option<Vec<String>>,
    /// Probe deadline, milliseconds.
    pub probe_timeout_ms: Option<u64>,
    /// Total probe duration, microseconds.
    pub total_latency_us: Option<u64>,
    pub os_error_code: Option<i32>,
    pub os_error_message: Option<String>,
    pub is_retry: Option<bool>,
    pub retry_attempt: Option<u32>,
}

impl ProbeEvidence {
    /// Evidence with no observation at all.
    pub open spec fn is_blank(self) -> bool {
        &&& self.host is None
        &&& self.port is None
        &&& self.transport is None
        &&& self.tcp_connect_ok is None
        &&& self.tcp_latency_us is None
        &&& self.tls_ok is None
        &&& self.tls_latency_us is None
        &&& self.tls_error is None
        &&& self.transport_handshake_ok is None
        &&& self.transport_error is None
        &&& self.dns_ok is None
        &&& self.dns_error is None
        &&& self.resolved_ips is None
        &&& self.probe_timeout_ms is None
        &&& self.total_latency_us is None
        &&& self.os_error_code is None
        &&& self.os_error_message is None
        &&& self.is_retry is None
        &&& self.retry_attempt is None
    }
}

impl Default for ProbeEvidence {
    fn default() -> (e: Self)
        ensures
            e.is_blank(),
    {
        ProbeEvidence {
            host: None,
            port: None,
            transport: None,
            tcp_connect_ok: None,
            tcp_latency_us: None,
            tls_ok: None,
            tls_latency_us: None,
            tls_error: None,
            transport_handshake_ok: None,
            transport_error: None,
            dns_ok: None,
            dns_error: None,
            resolved_ips: None,
            probe_timeout_ms: None,
            total_latency_us: None,
            os_error_code: None,
            os_error_message: None,
            is_retry: None,
            retry_attempt: None,
        }
    }
}

/// A classified failure: category, per-mille confidence, reason, evidence.
#[derive(Debug, Clone)]
pub struct Attribution {
    pub category: FailureCategory,
    /// Confidence, per mille.
    pub confidence_permille: u32,
    pub reason: String,
    pub evidence: ProbeEvidence,
}

/// The text of an optional string.
pub open spec fn text_of(o: Option<String>) -> Option<Seq<char>> {
    match o {
        Some(s) => Some(s@),
        None => None,
    }
}

/// The lower-cased message names a reset or refusal.
pub open spec fn simple_tcp_signal(m: Seq<char>) -> bool {
    let l = lowercase_of(m);
    has_sub(l, "reset"@) || has_sub(l, "rst"@) || has_sub(l, "refused"@) || has_sub(l, "econnrefused"@)
}

/// The lower-cased message names a TLS-layer failure.
pub open spec fn simple_tls_signal(m: Seq<char>) -> bool {
    let l = lowercase_of(m);
    has_sub(l, "tls"@) || has_sub(l, "ssl"@) || has_sub(l, "certificate"@) || has_sub(l, "unknown ca"@)
        || has_sub(l, "fatal alert"@)
}

/// The evidence `classify_simple` builds from its arguments.
pub open spec fn simple_evidence_ok(e: ProbeEvidence, host: Seq<char>, port: u16, transport: Seq<char>, tcp_ok: Option<bool>, msg: Option<Seq<char>>) -> bool {
    let tcp_fail_msg = tcp_ok == Some(false) && msg is Some;
    let tcp_ok_msg = tcp_ok == Some(true) && msg is Some;
    &&& text_of(e.host) == Some(host)
    &&& e.port == Some(port)
    &&& text_of(e.transport) == Some(transport)
    &&& e.tcp_connect_ok == tcp_ok
    &&& text_of(e.os_error_message) == (if tcp_fail_msg && simple_tcp_signal(msg.unwrap()) { msg } else { None })
    &&& e.tls_ok == (if tcp_ok_msg && simple_tls_signal(msg.unwrap()) { Some(false) } else { None })
    &&& text_of(e.tls_error) == (if tcp_ok_msg && simple_tls_signal(msg.unwrap()) { msg } else { None })
    &&& e.transport_handshake_ok == (if tcp_ok_msg && !simple_tls_signal(msg.unwrap()) { Some(false) } else { None })
    &&& text_of(e.transport_error) == (if tcp_fail_msg || (tcp_ok_msg && !simple_tls_signal(msg.unwrap())) { msg } else { None })
    &&& e.tcp_latency_us is None
    &&& e.tls_latency_us is None
    &&& e.dns_ok is None
    &&& e.dns_error is None
    &&& e.resolved_ips is None
    &&& e.probe_timeout_ms is None
    &&& e.total_latency_us is None
    &&& e.os_error_code is None
    &&& e.is_retry is None
    &&& e.retry_attempt is None
}

fn lower_has_any(l: &Vec<char>, a: &str, b: &str, c: &str, d: &str) -> (r: bool)
    ensures
        r == (has_sub(l@, a@) || has_sub(l@, b@) || has_sub(l@, c@) || has_sub(l@, d@)),
{
    contains_str(l, a) || contains_str(l, b) || contains_str(l, c) || contains_str(l, d)
}

// ───────────────────────────── the classification rules ─────────────────────────────

/// `opt.as_deref().unwrap_or("no details")`.
pub open spec fn detail_of(opt: Option<String>) -> Seq<char> {
    match opt {
        Some(s) => s@,
        None => "no details"@,
    }
}

/// Milliseconds, rounded half to even, of a microsecond count (`{:.0}` of the
/// millisecond value).
pub open spec fn rounded_ms(us: nat) -> nat {
    let q = us / 1000;
    let r = us % 1000;
    if r > 500 || (r == 500 && q % 2 == 1) { q + 1 } else { q }
}

/// The total probe time reached 80% of the deadline.
pub open spec fn near_deadline(e: ProbeEvidence) -> bool {
    match (e.total_latency_us, e.probe_timeout_ms) {
        (Some(lat), Some(t)) => 5 * lat >= 4000 * t,
        _ => false,
    }
}

/// Rendering `"{lat:.0}ms"`-style numbers for timeout reasons.
pub open spec fn lat_ms_text(e: ProbeEvidence) -> Seq<char> {
    decimal(rounded_ms(e.total_latency_us.unwrap() as nat))
}

pub open spec fn deadline_text(e: ProbeEvidence) -> Seq<char> {
    decimal(e.probe_timeout_ms.unwrap() as nat)
}

/// Evidence of a TCP reset (RST).
pub open spec fn reset_signal(e: ProbeEvidence) -> bool {
    (match e.os_error_code {
        Some(c) => c == 104 || c == 10054,
        None => false,
    }) || (match e.os_error_message {
        Some(m) => has_sub(m@, "reset"@) || has_sub(m@, "Connection reset"@) || has_sub(m@, "RST"@),
        None => false,
    })
}

/// Evidence of a refused connection.
pub open spec fn refused_signal(e: ProbeEvidence) -> bool {
    (match e.os_error_code {
        Some(c) => c == 111 || c == 10061,
        None => false,
    }) || (match e.os_error_message {
        Some(m) => has_sub(m@, "refused"@) || has_sub(m@, "Connection refused"@) || has_sub(m@, "ECONNREFUSED"@),
        None => false,
    })
}

/// DNS succeeded but resolved nothing.
pub open spec fn empty_resolution(e: ProbeEvidence) -> bool {
    match e.resolved_ips {
        Some(ips) => ips@.len() == 0 && e.dns_ok == Some(true),
        None => false,
    }
}

/// Category, per-mille confidence and reason the classifier assigns.
pub open spec fn classification(e: ProbeEvidence) -> (FailureCategory, u32, Seq<char>) {
    if e.dns_ok == Some(false) {
        (FailureCategory::DnsAnomaly, 950, "DNS resolution failed: "@ + detail_of(e.dns_error))
    } else if empty_resolution(e) {
        (FailureCategory::DnsAnomaly, 900, "DNS resolved successfully but returned zero addresses"@)
    } else if e.tcp_connect_ok == Some(false) {
        if reset_signal(e) {
            (FailureCategory::TcpReset, 900, "TCP connection reset (RST) — actively rejected"@)
        } else if refused_signal(e) {
            (FailureCategory::TcpRefused, 900, "TCP connection refused — port closed or filtered"@)
        } else if near_deadline(e) {
            (FailureCategory::Timeout, 700, "TCP connect timed out after "@ + lat_ms_text(e) + "ms (deadline was "@
                + deadline_text(e) + "ms)"@)
        } else {
            (FailureCategory::Timeout, 500, "TCP connection failed — cause could not be precisely determined"@)
        }
    } else if e.tcp_connect_ok == Some(true) {
        if e.tls_ok == Some(false) {
            let err = detail_of(e.tls_error);
            let conf: u32 = if has_sub(err, "HandshakeFailure"@) || has_sub(err, "handshake failure"@) { 900 } else { 800 };
            (FailureCategory::TlsFailure, conf, "TLS negotiation failed: "@ + err)
        } else if e.tls_ok == Some(true) {
            if e.transport_handshake_ok == Some(false) {
                (FailureCategory::HandshakeFailure, 850, "Transport handshake failed after TLS: "@ + detail_of(e.transport_error))
            } else {
                (FailureCategory::ReachabilityFailure, 600, "TCP and TLS succeeded but transport validation failed"@)
            }
        } else if e.transport_handshake_ok == Some(false) {
            (FailureCategory::HandshakeFailure, 750, "Transport handshake failed after TCP connect: "@ + detail_of(e.transport_error))
        } else if near_deadline(e) {
            (FailureCategory::Timeout, 650, "Probe timed out during TLS negotiation ("@ + lat_ms_text(e) + "ms / "@
                + deadline_text(e) + "ms)"@)
        } else {
            (FailureCategory::Unknown, 300, "TCP connected but no TLS data — unexpected mid-probe termination"@)
        }
    } else if near_deadline(e) {
        (FailureCategory::Timeout, 800, "Probe timed out before TCP connect ("@ + lat_ms_text(e) + "ms / "@
            + deadline_text(e) + "ms)"@)
    } else {
        (FailureCategory::Unknown, 200, "Insufficient evidence — no TCP probe data available"@)
    }
}

fn opt_contains(o: &Option<String>, p: &str) -> (b: bool)
    ensures
        b == match *o {
            Some(m) => has_sub(m@, p@),
            None => false,
        },
{
    match o {
        Some(m) => {
            let v = to_chars(m.as_str());
            contains_str(&v, p)
        },
        None => false,
    }
}

fn detail_text(o: &Option<String>) -> (s: String)
    ensures
        s@ == detail_of(*o),
{
    match o {
        Some(m) => m.clone(),
        None => String::from_str("no details"),
    }
}

fn is_near_deadline(e: &ProbeEvidence) -> (b: bool)
    ensures
        b == near_deadline(*e),
{
    match (e.total_latency_us, e.probe_timeout_ms) {
        (Some(lat), Some(t)) => 5 * (lat as u128) >= 4000 * (t as u128),
        _ => false,
    }
}

fn rounded_ms_exec(us: u64) -> (r: u64)
    ensures
        r == rounded_ms(us as nat),
{
    let q = us / 1000;
    let r = us % 1000;
    if r > 500 || (r == 500 && q % 2 == 1) {
        q + 1
    } else {
        q
    }
}

/// `head + lat + mid + deadline + "ms)"`.
fn timeout_reason(e: &ProbeEvidence, head: &str, mid: &str) -> (s: String)
    requires
        near_deadline(*e),
    ensures
        s@ == head@ + lat_ms_text(*e) + mid@ + deadline_text(*e) + "ms)"@,
{
    let mut s = String::from_str(head);
    let lat = e.total_latency_us.unwrap();
    let t = e.probe_timeout_ms.unwrap();
    push_decimal(&mut s, rounded_ms_exec(lat));
    push_str(&mut s, mid);
    push_decimal(&mut s, t);
    push_str(&mut s, "ms)");
    s
}

fn prefixed(head: &str, tail: String) -> (s: String)
    ensures
        s@ == head@ + tail@,
{
    let mut s = String::from_str(head);
    push_str(&mut s, tail.as_str());
    s
}

/// Layered root-cause classifier.
pub struct FailureClassifier;

impl FailureClassifier {
    /// Classifies `evidence`, layer by layer: DNS, TCP, TLS, transport
    /// handshake, then timing against the deadline.
    pub fn classify(evidence: ProbeEvidence) -> (a: Attribution)
        ensures
            (a.category, a.confidence_permille, a.reason@) == classification(evidence),
            a.evidence == evidence,
    {
        let e = evidence;
        if e.dns_ok == Some(false) {
            let reason = prefixed("DNS resolution failed: ", detail_text(&e.dns_error));
            return Attribution { category: FailureCategory::DnsAnomaly, confidence_permille: 950, reason, evidence: e };
        }
        let empty = match &e.resolved_ips {
            Some(ips) => ips.len() == 0 && e.dns_ok == Some(true),
            None => false,
        };
        if empty {
            return Attribution {
                category: FailureCategory::DnsAnomaly,
                confidence_permille: 900,
                reason: String::from_str("DNS resolved successfully but returned zero addresses"),
                evidence: e,
            };
        }
        match e.tcp_connect_ok {
            Some(false) => {
                let is_reset = (match e.os_error_code {
                    Some(c) => c == 104 || c == 10054,
                    None => false,
                }) || opt_contains(&e.os_error_message, "reset") || opt_contains(&e.os_error_message, "Connection reset")
                    || opt_contains(&e.os_error_message, "RST");
                if is_reset {
                    return Attribution {
                        category: FailureCategory::TcpReset,
                        confidence_permille: 900,
                        reason: String::from_str("TCP connection reset (RST) — actively rejected"),
                        evidence: e,
                    };
                }
                let is_refused = (match e.os_error_code {
                    Some(c) => c == 111 || c == 10061,
                    None => false,
                }) || opt_contains(&e.os_error_message, "refused") || opt_contains(&e.os_error_message, "Connection refused")
                    || opt_contains(&e.os_error_message, "ECONNREFUSED");
                if is_refused {
                    return Attribution {
                        category: FailureCategory::TcpRefused,
                        confidence_permille: 900,
                        reason: String::from_str("TCP connection refused — port closed or filtered"),
                        evidence: e,
                    };
                }
                if is_near_deadline(&e) {
                    let reason = timeout_reason(&e, "TCP connect timed out after ", "ms (deadline was ");
                    return Attribution { category: FailureCategory::Timeout, confidence_permille: 700, reason, evidence: e };
                }
                Attribution {
                    category: FailureCategory::Timeout,
                    confidence_permille: 500,
                    reason: String::from_str("TCP connection failed — cause could not be precisely determined"),
                    evidence: e,
                }
            },
            Some(true) => {
                match e.tls_ok {
                    Some(false) => {
                        let err = detail_text(&e.tls_error);
                        let ev = to_chars(err.as_str());
                        let is_handshake = contains_str(&ev, "HandshakeFailure") || contains_str(&ev, "handshake failure");
                        let conf: u32 = if is_handshake { 900 } else { 800 };
                        let reason = prefixed("TLS negotiation failed: ", err);
                        Attribution { category: FailureCategory::TlsFailure, confidence_permille: conf, reason, evidence: e }
                    },
                    Some(true) => {
                        if e.transport_handshake_ok == Some(false) {
                            let reason = prefixed("Transport handshake failed after TLS: ", detail_text(&e.transport_error));
                            Attribution { category: FailureCategory::HandshakeFailure, confidence_permille: 850, reason, evidence: e }
                        } else {
                            Attribution {
                                category: FailureCategory::ReachabilityFailure,
                                confidence_permille: 600,
                                reason: String::from_str("TCP and TLS succeeded but transport validation failed"),
                                evidence: e,
                            }
                        }
                    },
                    None => {
                        if e.transport_handshake_ok == Some(false) {
                            let reason = prefixed("Transport handshake failed after TCP connect: ", detail_text(&e.transport_error));
                            return Attribution { category: FailureCategory::HandshakeFailure, confidence_permille: 750, reason, evidence: e };
                        }
                        if is_near_deadline(&e) {
                            let reason = timeout_reason(&e, "Probe timed out during TLS negotiation (", "ms / ");
                            return Attribution { category: FailureCategory::Timeout, confidence_permille: 650, reason, evidence: e };
                        }
                        Attribution {
                            category: FailureCategory::Unknown,
                            confidence_permille: 300,
                            reason: String::from_str("TCP connected but no TLS data — unexpected mid-probe termination"),
                            evidence: e,
                        }
                    },
                }
            },
            None => {
                if is_near_deadline(&e) {
                    let reason = timeout_reason(&e, "Probe timed out before TCP connect (", "ms / ");
                    return Attribution { category: FailureCategory::Timeout, confidence_permille: 800, reason, evidence: e };
                }
                Attribution {
                    category: FailureCategory::Unknown,
                    confidence_permille: 200,
                    reason: String::from_str("Insufficient evidence — no TCP probe data available"),
                    evidence: e,
                }
            },
        }
    }

    /// Classifies a probe from its bare outcome: `tcp_ok` and an optional
    /// error message whose wording decides between reset/refused, TLS and
    /// transport-handshake failures.
    pub fn classify_simple(host: &str, port: u16, transport: &str, tcp_ok: Option<bool>, error_msg: Option<&str>) -> (a: Attribution)
        ensures
            (a.category, a.confidence_permille, a.reason@) == classification(a.evidence),
            simple_evidence_ok(a.evidence, host@, port, transport@, tcp_ok,
                match error_msg { Some(m) => Some(m@), None => None }),
    {
        let mut evidence = ProbeEvidence::default();
        evidence.host = Some(String::from_str(host));
        evidence.port = Some(port);
        evidence.transport = Some(String::from_str(transport));
        evidence.tcp_connect_ok = tcp_ok;
        if tcp_ok == Some(false) {
            if let Some(msg) = error_msg {
                let lower = to_lowercase(msg);
                let lv = to_chars(lower.as_str());
                if lower_has_any(&lv, "reset", "rst", "refused", "econnrefused") {
                    evidence.os_error_message = Some(String::from_str(msg));
                }
                evidence.transport_error = Some(String::from_str(msg));
            }
        }
        if tcp_ok == Some(true) && error_msg.is_some() {
            if let Some(msg) = error_msg {
                let lower = to_lowercase(msg);
                let lv = to_chars(lower.as_str());
                if lower_has_any(&lv, "tls", "ssl", "certificate", "unknown ca") || contains_str(&lv, "fatal alert") {
                    evidence.tls_ok = Some(false);
                    evidence.tls_error = Some(String::from_str(msg));
                } else {
                    evidence.transport_handshake_ok = Some(false);
                    evidence.transport_error = Some(String::from_str(msg));
                }
            }
        }
        Self::classify(evidence)
    }
}


// ───────────────────────────── classification laws ─────────────────────────────

/// Whether the DNS stage let the probe go on: it did not fail, and it did
/// not succeed with an empty address list.
pub open spec fn dns_passed(e: ProbeEvidence) -> bool {
    &&& e.dns_ok != Some(false)
    &&& !resolved_nothing(e)
}

/// DNS reported success with an empty address list.
pub open spec fn resolved_nothing(e: ProbeEvidence) -> bool {
    e.dns_ok == Some(true) && match e.resolved_ips {
        Some(ips) => ips@.len() == 0,
        None => false,
    }
}

/// Whether the probe's total time reached 80% of its deadline, from the
/// raw latency (microseconds) and deadline (milliseconds).
pub open spec fn took_most_of_deadline(e: ProbeEvidence) -> bool {
    match (e.total_latency_us, e.probe_timeout_ms) {
        (Some(lat), Some(t)) => 5 * (lat as int) >= 4000 * (t as int),
        _ => false,
    }
}

proof fn lemma_begins(p: Seq<char>, x: Seq<char>)
    ensures
        starts_with(p + x, p),
{
    assert((p + x).subrange(0, p.len() as int) =~= p);
}

/// A failed DNS resolution is a DNS anomaly at 95% confidence, whatever
/// the later stages report; a successful one that yields no address is
/// one at 90%.
pub proof fn law_dns_failures_are_dns_anomalies(e: ProbeEvidence)
    ensures
        e.dns_ok == Some(false) ==> classification(e).0 == FailureCategory::DnsAnomaly && classification(e).1 == 950
            && starts_with(classification(e).2, "DNS resolution failed: "@),
        e.dns_ok == Some(true) && resolved_nothing(e) ==> classification(e).0
            == FailureCategory::DnsAnomaly && classification(e).1 == 900 && classification(e).2
            == "DNS resolved successfully but returned zero addresses"@,
{
    lemma_begins("DNS resolution failed: "@, detail_of(e.dns_error));
}

/// With no TCP result, a probe that used at least 80% of its deadline
/// timed out before connecting (80% confidence); any other such probe is
/// unknown at 20%.
pub proof fn law_no_tcp_result_is_timeout_or_unknown(e: ProbeEvidence)
    requires
        dns_passed(e),
        e.tcp_connect_ok is None,
    ensures
        took_most_of_deadline(e) ==> classification(e).0 == FailureCategory::Timeout && classification(e).1 == 800
            && starts_with(classification(e).2, "Probe timed out before TCP connect ("@),
        !took_most_of_deadline(e) ==> classification(e).0 == FailureCategory::Unknown && classification(e).1 == 200
            && classification(e).2 == "Insufficient evidence — no TCP probe data available"@,
{
    if took_most_of_deadline(e) {
        lemma_begins("Probe timed out before TCP connect ("@, lat_ms_text(e) + "ms / "@ + deadline_text(e) + "ms)"@);
        assert("Probe timed out before TCP connect ("@ + lat_ms_text(e) + "ms / "@ + deadline_text(e) + "ms)"@
            =~= "Probe timed out before TCP connect ("@ + (lat_ms_text(e) + "ms / "@ + deadline_text(e) + "ms)"@));
    }
}

/// A failed TCP connect is a reset when the OS reports ECONNRESET (104 or
/// 10054), a refusal when it reports ECONNREFUSED (111 or 10061) with no
/// message, and otherwise, with neither code nor message, a timeout: 70%
/// sure when the probe used 80% of its deadline, 50% when not.
pub proof fn law_tcp_failures(e: ProbeEvidence)
    requires
        dns_passed(e),
        e.tcp_connect_ok == Some(false),
    ensures
        e.os_error_code == Some(104i32) || e.os_error_code == Some(10054i32) ==> classification(e).0
            == FailureCategory::TcpReset && classification(e).1 == 900 && classification(e).2
            == "TCP connection reset (RST) — actively rejected"@,
        (e.os_error_code == Some(111i32) || e.os_error_code == Some(10061i32)) && e.os_error_message is None
            ==> classification(e).0 == FailureCategory::TcpRefused && classification(e).1 == 900 && classification(e).2
            == "TCP connection refused — port closed or filtered"@,
        e.os_error_code is None && e.os_error_message is None ==> classification(e).0 == FailureCategory::Timeout
            && classification(e).1 == (if took_most_of_deadline(e) { 700u32 } else { 500u32 }),
        e.os_error_code is None && e.os_error_message is None && took_most_of_deadline(e) ==> starts_with(
            classification(e).2,
            "TCP connect timed out after "@,
        ),
        e.os_error_code is None && e.os_error_message is None && !took_most_of_deadline(e) ==> classification(e).2
            == "TCP connection failed — cause could not be precisely determined"@,
{
    if e.os_error_code is None && e.os_error_message is None && took_most_of_deadline(e) {
        let rest = lat_ms_text(e) + "ms (deadline was "@ + deadline_text(e) + "ms)"@;
        lemma_begins("TCP connect timed out after "@, rest);
        assert("TCP connect timed out after "@ + lat_ms_text(e) + "ms (deadline was "@ + deadline_text(e) + "ms)"@
            =~= "TCP connect timed out after "@ + rest);
    }
}

/// After a TCP connect: a failed TLS negotiation is a TLS failure (80% or
/// 90% sure); after a good TLS negotiation, a failed transport handshake is
/// a handshake failure at 85% and anything else a reachability failure at
/// 60%; with no TLS result, a failed transport handshake is a handshake
/// failure at 75%, else a timeout at 65% when the probe used 80% of its
/// deadline, else unknown at 30%.
pub proof fn law_failures_after_tcp_connect(e: ProbeEvidence)
    requires
        dns_passed(e),
        e.tcp_connect_ok == Some(true),
    ensures
        e.tls_ok == Some(false) ==> classification(e).0 == FailureCategory::TlsFailure && (classification(e).1 == 800
            || classification(e).1 == 900),
        e.tls_ok == Some(true) && e.transport_handshake_ok == Some(false) ==> classification(e).0
            == FailureCategory::HandshakeFailure && classification(e).1 == 850,
        e.tls_ok == Some(true) && e.transport_handshake_ok != Some(false) ==> classification(e).0
            == FailureCategory::ReachabilityFailure && classification(e).1 == 600,
        e.tls_ok is None && e.transport_handshake_ok == Some(false) ==> classification(e).0
            == FailureCategory::HandshakeFailure && classification(e).1 == 750,
        e.tls_ok is None && e.transport_handshake_ok != Some(false) && took_most_of_deadline(e) ==> classification(e).0
            == FailureCategory::Timeout && classification(e).1 == 650,
        e.tls_ok is None && e.transport_handshake_ok != Some(false) && !took_most_of_deadline(e) ==> classification(
            e,
        ).0 == FailureCategory::Unknown && classification(e).1 == 300,
        e.tls_ok == Some(false) ==> starts_with(classification(e).2, "TLS negotiation failed: "@),
        e.tls_ok == Some(true) && e.transport_handshake_ok == Some(false) ==> starts_with(
            classification(e).2,
            "Transport handshake failed after TLS: "@,
        ),
        e.tls_ok == Some(true) && e.transport_handshake_ok != Some(false) ==> classification(e).2
            == "TCP and TLS succeeded but transport validation failed"@,
        e.tls_ok is None && e.transport_handshake_ok == Some(false) ==> starts_with(
            classification(e).2,
            "Transport handshake failed after TCP connect: "@,
        ),
        e.tls_ok is None && e.transport_handshake_ok != Some(false) && took_most_of_deadline(e) ==> starts_with(
            classification(e).2,
            "Probe timed out during TLS negotiation ("@,
        ),
        e.tls_ok is None && e.transport_handshake_ok != Some(false) && !took_most_of_deadline(e) ==> classification(
            e,
        ).2 == "TCP connected but no TLS data — unexpected mid-probe termination"@,
{
    lemma_begins("TLS negotiation failed: "@, detail_of(e.tls_error));
    lemma_begins("Transport handshake failed after TLS: "@, detail_of(e.transport_error));
    lemma_begins("Transport handshake failed after TCP connect: "@, detail_of(e.transport_error));
    if e.tls_ok is None && e.transport_handshake_ok != Some(false) && took_most_of_deadline(e) {
        let rest = lat_ms_text(e) + "ms / "@ + deadline_text(e) + "ms)"@;
        lemma_begins("Probe timed out during TLS negotiation ("@, rest);
        assert("Probe timed out during TLS negotiation ("@ + lat_ms_text(e) + "ms / "@ + deadline_text(e) + "ms)"@
            =~= "Probe timed out during TLS negotiation ("@ + rest);
    }
}

// ───────────────────────────── aggregate statistics ─────────────────────────────

/// The attributions of one category: how many, and their confidences
/// summed (per mille).
#[derive(Debug, Clone, Copy, PartialEq, Eq)]
pub struct CategoryTally {
    pub category: FailureCategory,
    pub count: u64,
    pub confidence_sum_permille: u128,
}

/// How many tallied attributions are of category `c`.
pub open spec fn count_in(ts: Seq<CategoryTally>, c: FailureCategory) -> nat
    decreases ts.len(),
{
    if ts.len() == 0 {
        0
    } else {
        count_in(ts.drop_last(), c) + if ts.last().category == c { ts.last().count as nat } else { 0 }
    }
}

/// The summed confidence (per mille) of the tallied attributions of `c`.
pub open spec fn sum_in(ts: Seq<CategoryTally>, c: FailureCategory) -> nat
    decreases ts.len(),
{
    if ts.len() == 0 {
        0
    } else {
        sum_in(ts.drop_last(), c) + if ts.last().category == c { ts.last().confidence_sum_permille as nat } else { 0 }
    }
}

/// How many attributions are tallied, over all categories.
pub open spec fn counts_total(ts: Seq<CategoryTally>) -> nat
    decreases ts.len(),
{
    if ts.len() == 0 {
        0
    } else {
        counts_total(ts.drop_last()) + ts.last().count as nat
    }
}

/// Each category has at most one tally, and it is not empty.
pub open spec fn tallies_distinct(ts: Seq<CategoryTally>) -> bool {
    &&& forall|i: int, j: int| 0 <= i < j < ts.len() ==> #[trigger] ts[i].category != #[trigger] ts[j].category
    &&& forall|i: int| 0 <= i < ts.len() ==> #[trigger] ts[i].count > 0
}

proof fn lemma_tallies_bounded(ts: Seq<CategoryTally>)
    requires
        forall|i: int| 0 <= i < ts.len() ==> (#[trigger] ts[i]).confidence_sum_permille <= 1000 * ts[i].count,
    ensures
        forall|c: FailureCategory| #[trigger] sum_in(ts, c) <= 1000 * count_in(ts, c),
        forall|c: FailureCategory| #[trigger] count_in(ts, c) <= counts_total(ts),
    decreases ts.len(),
{
    if ts.len() > 0 {
        lemma_tallies_bounded(ts.drop_last());
        assert(ts.drop_last().len() == ts.len() - 1);
        assert forall|i: int| 0 <= i < ts.drop_last().len() implies (#[trigger] ts.drop_last()[i]).confidence_sum_permille
            <= 1000 * ts.drop_last()[i].count by {
            assert(ts.drop_last()[i] == ts[i]);
        }
        assert(ts[ts.len() - 1] == ts.last());
        assert forall|c: FailureCategory| #[trigger] sum_in(ts, c) <= 1000 * count_in(ts, c) by {
            assert(sum_in(ts.drop_last(), c) <= 1000 * count_in(ts.drop_last(), c));
        }
        assert forall|c: FailureCategory| #[trigger] count_in(ts, c) <= counts_total(ts) by {
            assert(count_in(ts.drop_last(), c) <= counts_total(ts.drop_last()));
        }
    }
}

proof fn lemma_other_entries(ts: Seq<CategoryTally>, c: FailureCategory)
    requires
        forall|i: int| 0 <= i < ts.len() ==> (#[trigger] ts[i]).category != c,
    ensures
        count_in(ts, c) == 0,
        sum_in(ts, c) == 0,
    decreases ts.len(),
{
    if ts.len() > 0 {
        assert forall|i: int| 0 <= i < ts.drop_last().len() implies (#[trigger] ts.drop_last()[i]).category != c by {
            assert(ts.drop_last()[i] == ts[i]);
        }
        lemma_other_entries(ts.drop_last(), c);
        assert(ts[ts.len() - 1] == ts.last());
    }
}

proof fn lemma_entry_le_count(ts: Seq<CategoryTally>, k: int)
    requires
        0 <= k < ts.len(),
    ensures
        ts[k].count <= count_in(ts, ts[k].category),
        count_in(ts, ts[k].category) <= counts_total(ts),
    decreases ts.len(),
{
    let c = ts[k].category;
    if k < ts.len() - 1 {
        assert(ts.drop_last()[k] == ts[k]);
        lemma_entry_le_count(ts.drop_last(), k);
    } else {
        lemma_count_le_total(ts.drop_last(), c);
    }
}

proof fn lemma_count_le_total(ts: Seq<CategoryTally>, c: FailureCategory)
    ensures
        count_in(ts, c) <= counts_total(ts),
    decreases ts.len(),
{
    if ts.len() > 0 {
        lemma_count_le_total(ts.drop_last(), c);
    }
}

proof fn lemma_update_at(ts: Seq<CategoryTally>, k: int, t: CategoryTally)
    requires
        0 <= k < ts.len(),
        t.category == ts[k].category,
    ensures
        forall|c: FailureCategory| #[trigger] count_in(ts.update(k, t), c) == count_in(ts, c) - (if c == t.category { ts[k].count as int } else { 0 }) + (if c == t.category { t.count as int } else { 0 }),
        forall|c: FailureCategory| #[trigger] sum_in(ts.update(k, t), c) == sum_in(ts, c) - (if c == t.category { ts[k].confidence_sum_permille as int } else { 0 }) + (if c == t.category { t.confidence_sum_permille as int } else { 0 }),
        counts_total(ts.update(k, t)) == counts_total(ts) - ts[k].count + t.count,
    decreases ts.len(),
{
    let u = ts.update(k, t);
    if k == ts.len() - 1 {
        assert(u.drop_last() =~= ts.drop_last());
        assert(u.last() == t);
    } else {
        assert(u.drop_last() =~= ts.drop_last().update(k, t));
        assert(ts.drop_last()[k] == ts[k]);
        lemma_update_at(ts.drop_last(), k, t);
        assert(u.last() == ts.last());
    }
    assert forall|c: FailureCategory| #[trigger] count_in(u, c) == count_in(ts, c) - (if c == t.category { ts[k].count as int } else { 0 }) + (if c == t.category { t.count as int } else { 0 }) by {
        if k < ts.len() - 1 {
            assert(count_in(u.drop_last(), c) == count_in(ts.drop_last(), c) - (if c == t.category { ts[k].count as int } else { 0 }) + (if c == t.category { t.count as int } else { 0 }));
        }
    }
    assert forall|c: FailureCategory| #[trigger] sum_in(u, c) == sum_in(ts, c) - (if c == t.category { ts[k].confidence_sum_permille as int } else { 0 }) + (if c == t.category { t.confidence_sum_permille as int } else { 0 }) by {
        if k < ts.len() - 1 {
            assert(sum_in(u.drop_last(), c) == sum_in(ts.drop_last(), c) - (if c == t.category { ts[k].confidence_sum_permille as int } else { 0 }) + (if c == t.category { t.confidence_sum_permille as int } else { 0 }));
        }
    }
}

/// Aggregate failure statistics: how many attributions were recorded, and
/// per category how many and their summed confidence.
pub struct FailureStats {
    total: u64,
    tallies: Vec<CategoryTally>,
}

impl Default for FailureStats {
    /// No attribution recorded yet.
    fn default() -> (s: Self)
        ensures
            s.total_spec() == 0,
            s.tallies_spec().len() == 0,
    {
        FailureStats::new()
    }
}

impl FailureStats {
    #[verifier::type_invariant]
    spec fn consistent(self) -> bool {
        &&& self.total as nat == counts_total(self.tallies@)
        &&& tallies_distinct(self.tallies@)
        &&& forall|i: int| 0 <= i < self.tallies@.len() ==> (#[trigger] self.tallies@[i]).confidence_sum_permille <= 1000 * self.tallies@[i].count
    }

    /// How many attributions were recorded.
    pub closed spec fn total_spec(self) -> nat {
        self.total as nat
    }

    /// The per-category tallies, in the order categories first appeared.
    pub closed spec fn tallies_spec(self) -> Seq<CategoryTally> {
        self.tallies@
    }

    /// No attribution recorded yet.
    pub fn new() -> (s: FailureStats)
        ensures
            s.total_spec() == 0,
            s.tallies_spec().len() == 0,
    {
        FailureStats { total: 0, tallies: Vec::new() }
    }

    /// How many attributions were recorded.
    pub fn total(&self) -> (n: u64)
        ensures
            n == self.total_spec(),
            n == counts_total(self.tallies_spec()),
    {
        proof {
            use_type_invariant(self);
        }
        self.total
    }

    /// The per-category tallies, each category once, in the order the
    /// categories first appeared.
    pub fn tallies(&self) -> (t: &Vec<CategoryTally>)
        ensures
            t@ == self.tallies_spec(),
            tallies_distinct(t@),
            counts_total(t@) == self.total_spec(),
    {
        proof {
            use_type_invariant(self);
        }
        &self.tallies
    }

    /// Records one attribution: the total and its category's count grow by
    /// one and its confidence is added to the category's sum; every other
    /// category is unchanged.
    pub fn record(&mut self, attribution: &Attribution)
        requires
            old(self).total_spec() < u64::MAX,
            attribution.confidence_permille <= 1000,
        ensures
            final(self).total_spec() == old(self).total_spec() + 1,
            counts_total(final(self).tallies_spec()) == final(self).total_spec(),
            forall|c: FailureCategory| #[trigger] count_in(final(self).tallies_spec(), c) == count_in(old(self).tallies_spec(), c)
                + if c == attribution.category { 1nat } else { 0nat },
            forall|c: FailureCategory| #[trigger] sum_in(final(self).tallies_spec(), c) == sum_in(old(self).tallies_spec(), c)
                + if c == attribution.category { attribution.confidence_permille as nat } else { 0nat },
    {
        let mut stats = FailureStats::new();
        std::mem::swap(&mut stats, self);
        proof {
            use_type_invariant(&stats);
            lemma_tallies_bounded(stats.tallies@);
        }
        let FailureStats { total, tallies } = stats;
        let mut tallies = tallies;
        let ghost ts = tallies@;
        let c = attribution.category;
        let conf = attribution.confidence_permille;
        let mut k: usize = 0;
        while k < tallies.len()
            invariant
                k <= tallies@.len(),
                tallies@ == ts,
                forall|j: int| 0 <= j < k ==> (#[trigger] ts[j]).category != c,
            ensures
                k <= tallies@.len(),
                tallies@ == ts,
                forall|j: int| 0 <= j < k ==> (#[trigger] ts[j]).category != c,
                k < tallies@.len() ==> ts[k as int].category == c,
            decreases tallies@.len() - k,
        {
            if tallies[k].category == c {
                break;
            }
            k += 1;
        }
        if k < tallies.len() {
            let old_t = tallies[k];
            proof {
                lemma_entry_le_count(ts, k as int);
            }
            let t = CategoryTally {
                category: c,
                count: old_t.count + 1,
                confidence_sum_permille: old_t.confidence_sum_permille + conf as u128,
            };
            tallies.set(k, t);
            proof {
                lemma_update_at(ts, k as int, t);
                assert forall|i: int| 0 <= i < tallies@.len() implies (#[trigger] tallies@[i]).confidence_sum_permille
                    <= 1000 * tallies@[i].count by {
                    if i != k {
                        assert(tallies@[i] == ts[i]);
                    }
                }
                assert forall|i: int, j: int| 0 <= i < j < tallies@.len() implies #[trigger] tallies@[i].category
                    != #[trigger] tallies@[j].category by {
                    assert(tallies@[i].category == ts[i].category);
                    assert(tallies@[j].category == ts[j].category);
                }
            }
        } else {
            let t = CategoryTally { category: c, count: 1, confidence_sum_permille: conf as u128 };
            proof {
                lemma_other_entries(ts, c);
                assert(ts.push(t).drop_last() =~= ts);
            }
            tallies.push(t);
            proof {
                assert forall|i: int| 0 <= i < tallies@.len() implies (#[trigger] tallies@[i]).confidence_sum_permille
                    <= 1000 * tallies@[i].count by {
                    if i < ts.len() {
                        assert(tallies@[i] == ts[i]);
                    }
                }
                assert forall|i: int, j: int| 0 <= i < j < tallies@.len() implies #[trigger] tallies@[i].category
                    != #[trigger] tallies@[j].category by {
                    assert(tallies@[i] == ts[i]);
                    if j < ts.len() {
                        assert(tallies@[j] == ts[j]);
                    }
                }
            }
        }
        *self = FailureStats { total: total + 1, tallies };
    }
}

} // verus!
