//! Evidence sources and verdicts of the evidence-fusion stage.
use vstd::prelude::*;

verus! {

/// Independent evidence sources the pipeline can fuse.
#[derive(Debug, Clone, Copy, PartialEq, Eq, Structural)]
pub enum EvidenceSource {
    Dns,
    Tcp,
    Tls,
    Transport,
    Bootstrap,
    Circuit,
    Regional,
}

impl EvidenceSource {
    pub open spec fn label_spec(self) -> Seq<char> {
        match self {
            EvidenceSource::Dns => "dns"@,
            EvidenceSource::Tcp => "tcp"@,
            EvidenceSource::Tls => "tls"@,
            EvidenceSource::Transport => "transport"@,
            EvidenceSource::Bootstrap => "bootstrap"@,
            EvidenceSource::Circuit => "circuit"@,
            EvidenceSource::Regional => "regional"@,
        }
    }

    /// Stable label for reports.
    pub fn label(&self) -> (s: &'static str)
        ensures
            s@ == self.label_spec(),
    {
        match self {
            EvidenceSource::Dns => "dns",
            EvidenceSource::Tcp => "tcp",
            EvidenceSource::Tls => "tls",
            EvidenceSource::Transport => "transport",
            EvidenceSource::Bootstrap => "bootstrap",
            EvidenceSource::Circuit => "circuit",
            EvidenceSource::Regional => "regional",
        }
    }
}

/// Fused verdict.
#[derive(Debug, Clone, Copy, PartialEq, Eq, Structural)]
pub enum Verdict {
    Healthy,
    Uncertain,
    Unhealthy,
}

impl Verdict {
    pub open spec fn label_spec(self) -> Seq<char> {
        match self {
            Verdict::Healthy => "healthy"@,
            Verdict::Uncertain => "uncertain"@,
            Verdict::Unhealthy => "unhealthy"@,
        }
    }

    /// Stable label for reports.
    pub fn label(&self) -> (s: &'static str)
        ensures
            s@ == self.label_spec(),
    {
        match self {
            Verdict::Healthy => "healthy",
            Verdict::Uncertain => "uncertain",
            Verdict::Unhealthy => "unhealthy",
        }
    }
}

/// The verdict on fused evidence: `Uncertain` while there are fewer
/// observations than `min_evidence_for_verdict`, whatever the confidence;
/// otherwise `Healthy` when the confidence reached the healthy threshold
/// (0.7), `Unhealthy` when it fell to the unhealthy one (0.3), and
/// `Uncertain` between.
pub open spec fn verdict_spec(evidence_count: nat, min_evidence_for_verdict: nat, reached_healthy: bool, fell_to_unhealthy: bool) -> Verdict {
    if evidence_count < min_evidence_for_verdict {
        Verdict::Uncertain
    } else if reached_healthy {
        Verdict::Healthy
    } else if fell_to_unhealthy {
        Verdict::Unhealthy
    } else {
        Verdict::Uncertain
    }
}

/// The verdict on fused evidence (see [`verdict_spec`]).
pub fn fused_verdict(
    evidence_count: usize,
    min_evidence_for_verdict: usize,
    reached_healthy: bool,
    fell_to_unhealthy: bool,
) -> (v: Verdict)
    ensures
        v == verdict_spec(evidence_count as nat, min_evidence_for_verdict as nat, reached_healthy, fell_to_unhealthy),
{
    if evidence_count < min_evidence_for_verdict {
        Verdict::Uncertain
    } else if reached_healthy {
        Verdict::Healthy
    } else if fell_to_unhealthy {
        Verdict::Unhealthy
    } else {
        Verdict::Uncertain
    }
}

/// Fewer observations than the minimum never yield a firm verdict,
/// however strong the fused confidence.
pub proof fn law_thin_evidence_is_uncertain(count: nat, min: nat, healthy: bool, unhealthy: bool)
    requires
        count < min,
    ensures
        verdict_spec(count, min, healthy, unhealthy) == Verdict::Uncertain,
{
}

/// Distinct sources have distinct labels.
pub proof fn law_source_labels_distinct(a: EvidenceSource, b: EvidenceSource)
    requires
        a != b,
    ensures
        a.label_spec() != b.label_spec(),
{
    reveal_strlit("dns");
    reveal_strlit("tcp");
    reveal_strlit("tls");
    reveal_strlit("transport");
    reveal_strlit("bootstrap");
    reveal_strlit("circuit");
    reveal_strlit("regional");
    assert(a.label_spec().len() != b.label_spec().len() || a.label_spec()[0] != b.label_spec()[0]
        || a.label_spec()[1] != b.label_spec()[1]);
}

/// Distinct verdicts have distinct labels.
pub proof fn law_verdict_labels_distinct(a: Verdict, b: Verdict)
    requires
        a != b,
    ensures
        a.label_spec() != b.label_spec(),
{
    reveal_strlit("healthy");
    reveal_strlit("uncertain");
    reveal_strlit("unhealthy");
    assert(a.label_spec()[0] != b.label_spec()[0] || a.label_spec()[2] != b.label_spec()[2]);
}

} // verus!
