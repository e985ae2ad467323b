//! The smart anti-filter: censorship levels, their detection from
//! OONI-style metrics, and the filter's status.
use vstd::prelude::*;
use crate::timefmt::{rfc3339_text, utc_now, utc_rfc3339};

verus! {

/// Severity ladder of observed censorship.
#[derive(Debug, Clone, Copy, PartialEq, Eq, Structural)]
pub enum CensorshipLevel {
    NoFiltering,
    Low,
    Medium,
    High,
    Extreme,
    NationalCut,
}

impl CensorshipLevel {
    /// Numeric level (0 = none … 5 = national cut).
    pub open spec fn level(self) -> int {
        match self {
            CensorshipLevel::NoFiltering => 0,
            CensorshipLevel::Low => 1,
            CensorshipLevel::Medium => 2,
            CensorshipLevel::High => 3,
            CensorshipLevel::Extreme => 4,
            CensorshipLevel::NationalCut => 5,
        }
    }

    pub open spec fn name(self) -> Seq<char> {
        match self {
            CensorshipLevel::NoFiltering => "none"@,
            CensorshipLevel::Low => "low"@,
            CensorshipLevel::Medium => "medium"@,
            CensorshipLevel::High => "high"@,
            CensorshipLevel::Extreme => "extreme"@,
            CensorshipLevel::NationalCut => "national_cut"@,
        }
    }

    /// Stable lower-case name.
    pub fn as_str(&self) -> (s: &'static str)
        ensures
            s@ == self.name(),
    {
        match self {
            CensorshipLevel::NoFiltering => "none",
            CensorshipLevel::Low => "low",
            CensorshipLevel::Medium => "medium",
            CensorshipLevel::High => "high",
            CensorshipLevel::Extreme => "extreme",
            CensorshipLevel::NationalCut => "national_cut",
        }
    }

    /// The level numbered `n`; anything above 4 is a national cut.
    pub open spec fn of_number(n: int) -> Self {
        if n <= 0 {
            CensorshipLevel::NoFiltering
        } else if n == 1 {
            CensorshipLevel::Low
        } else if n == 2 {
            CensorshipLevel::Medium
        } else if n == 3 {
            CensorshipLevel::High
        } else if n == 4 {
            CensorshipLevel::Extreme
        } else {
            CensorshipLevel::NationalCut
        }
    }

    /// Level for a number; anything above 4 is a national cut.
    pub fn from_level(level: u32) -> (l: Self)
        ensures
            l == Self::of_number(level as int),
    {
        match level {
            0 => CensorshipLevel::NoFiltering,
            1 => CensorshipLevel::Low,
            2 => CensorshipLevel::Medium,
            3 => CensorshipLevel::High,
            4 => CensorshipLevel::Extreme,
            _ => CensorshipLevel::NationalCut,
        }
    }
}

/// `from_level` undoes the numbering: every level survives a round trip.
pub proof fn law_from_level_round_trip(l: CensorshipLevel)
    ensures
        CensorshipLevel::of_number(l.level()) == l,
{
}

/// Levels above the top of the ladder all mean a national cut.
pub proof fn law_from_level_saturates(n: int)
    requires
        n >= 5,
    ensures
        CensorshipLevel::of_number(n) == CensorshipLevel::NationalCut,
{
}


/// The censorship level the metrics point to: a national cut when isolation
/// is detected, extreme when 95% or more of probes fail, high on 50
/// confirmed blocks, medium on 100 anomalies or 20 confirmed blocks, low on
/// 10 anomalies or a 30% failure rate, none otherwise. The failure rate is
/// in thousandths.
pub open spec fn detected_level(anomaly_count: u32, confirmed_count: u32, failure_rate_permille: u32, nin_detected: bool) -> CensorshipLevel {
    if nin_detected {
        CensorshipLevel::NationalCut
    } else if failure_rate_permille >= 950 {
        CensorshipLevel::Extreme
    } else if confirmed_count >= 50 {
        CensorshipLevel::High
    } else if anomaly_count >= 100 || confirmed_count >= 20 {
        CensorshipLevel::Medium
    } else if anomaly_count >= 10 || failure_rate_permille >= 300 {
        CensorshipLevel::Low
    } else {
        CensorshipLevel::NoFiltering
    }
}

/// More pressure never detects a milder level: with every count, the
/// failure rate and the isolation signal at least as high, the detected
/// level is at least as high.
pub proof fn law_detection_is_monotone(
    anomaly_a: u32,
    confirmed_a: u32,
    rate_a: u32,
    nin_a: bool,
    anomaly_b: u32,
    confirmed_b: u32,
    rate_b: u32,
    nin_b: bool,
)
    requires
        anomaly_a <= anomaly_b,
        confirmed_a <= confirmed_b,
        rate_a <= rate_b,
        nin_a ==> nin_b,
    ensures
        detected_level(anomaly_a, confirmed_a, rate_a, nin_a).level() <= detected_level(anomaly_b, confirmed_b, rate_b, nin_b).level(),
{
}

/// Transports preferred by default, best first.
pub open spec fn default_transports() -> Seq<Seq<char>> {
    seq!["webtunnel"@, "snowflake"@, "meek_lite"@, "obfs4"@, "vanilla"@]
}

/// The anti-filter's state: the censorship level, DPI intensity (per
/// mille), transports seen blocked, transports preferred, the IRST hour and
/// when the state was taken (unix seconds and nanoseconds).
#[derive(Debug, Clone, PartialEq, Eq)]
pub struct IranSmartAntiFilter {
    pub censorship_level: CensorshipLevel,
    pub dpi_intensity_permille: u32,
    pub blocked_transports: Vec<String>,
    pub preferred_transports: Vec<String>,
    pub irst_hour: u32,
    pub timestamp_secs: i64,
    pub timestamp_nanos: u32,
}

impl Default for IranSmartAntiFilter {
    /// No censorship observed, the default transport preference, taken now.
    fn default() -> (f: IranSmartAntiFilter)
        ensures
            f.censorship_level == CensorshipLevel::NoFiltering,
            f.dpi_intensity_permille == 0,
            f.blocked_transports@.len() == 0,
            f.preferred_transports@.map_values(|t: String| t@) == default_transports(),
            f.irst_hour == 0,
    {
        let mut preferred: Vec<String> = Vec::new();
        preferred.push(String::from_str("webtunnel"));
        preferred.push(String::from_str("snowflake"));
        preferred.push(String::from_str("meek_lite"));
        preferred.push(String::from_str("obfs4"));
        preferred.push(String::from_str("vanilla"));
        assert(preferred@.map_values(|t: String| t@) =~= default_transports());
        let (secs, nanos) = utc_now();
        IranSmartAntiFilter {
            censorship_level: CensorshipLevel::NoFiltering,
            dpi_intensity_permille: 0,
            blocked_transports: Vec::new(),
            preferred_transports: preferred,
            irst_hour: 0,
            timestamp_secs: secs,
            timestamp_nanos: nanos,
        }
    }
}

/// What the anti-filter reports of its state; the timestamp is `None` where
/// the instant cannot be rendered.
#[derive(Debug, Clone, PartialEq, Eq)]
pub struct FilterStatus {
    pub censorship_level: &'static str,
    pub dpi_intensity_permille: u32,
    pub preferred_transports: Vec<String>,
    pub irst_hour: u32,
    pub timestamp: Option<String>,
}

impl IranSmartAntiFilter {
    /// A default anti-filter, taken now.
    pub fn new() -> (f: IranSmartAntiFilter)
        ensures
            f.censorship_level == CensorshipLevel::NoFiltering,
            f.dpi_intensity_permille == 0,
            f.blocked_transports@.len() == 0,
            f.preferred_transports@.map_values(|t: String| t@) == default_transports(),
            f.irst_hour == 0,
    {
        IranSmartAntiFilter::default()
    }

    /// The censorship level the metrics point to (see [`detected_level`]).
    pub fn detect_censorship(anomaly_count: u32, confirmed_count: u32, failure_rate_permille: u32, nin_detected: bool) -> (l: CensorshipLevel)
        ensures
            l == detected_level(anomaly_count, confirmed_count, failure_rate_permille, nin_detected),
    {
        if nin_detected {
            return CensorshipLevel::NationalCut;
        }
        if failure_rate_permille >= 950 {
            return CensorshipLevel::Extreme;
        }
        if confirmed_count >= 50 {
            return CensorshipLevel::High;
        }
        if anomaly_count >= 100 || confirmed_count >= 20 {
            return CensorshipLevel::Medium;
        }
        if anomaly_count >= 10 || failure_rate_permille >= 300 {
            return CensorshipLevel::Low;
        }
        CensorshipLevel::NoFiltering
    }

    /// The preferred transports, best first.
    pub fn preferred_transports(&self) -> (t: &[String])
        ensures
            t@ == self.preferred_transports@,
    {
        self.preferred_transports.as_slice()
    }

    /// The state as reported: level name, intensity, preferred transports,
    /// IRST hour and the RFC 3339 timestamp.
    pub fn get_status(&self) -> (s: FilterStatus)
        ensures
            s.censorship_level@ == self.censorship_level.name(),
            s.dpi_intensity_permille == self.dpi_intensity_permille,
            s.preferred_transports@.map_values(|t: String| t@) == self.preferred_transports@.map_values(|t: String| t@),
            s.irst_hour == self.irst_hour,
            match s.timestamp {
                Some(t) => rfc3339_text(self.timestamp_secs, self.timestamp_nanos) == Some(t@),
                None => rfc3339_text(self.timestamp_secs, self.timestamp_nanos) is None,
            },
    {
        let mut preferred: Vec<String> = Vec::new();
        let mut i: usize = 0;
        while i < self.preferred_transports.len()
            invariant
                i <= self.preferred_transports@.len(),
                preferred@.map_values(|t: String| t@) == self.preferred_transports@.take(i as int).map_values(|t: String| t@),
            decreases self.preferred_transports@.len() - i,
        {
            let ghost before = preferred@.map_values(|t: String| t@);
            preferred.push(String::from_str(self.preferred_transports[i].as_str()));
            assert(preferred@.map_values(|t: String| t@) =~= before.push(self.preferred_transports@[i as int]@));
            assert(self.preferred_transports@.take(i + 1).map_values(|t: String| t@) =~= self.preferred_transports@.take(i as int).map_values(|t: String| t@).push(self.preferred_transports@[i as int]@));
            i += 1;
        }
        assert(self.preferred_transports@.take(self.preferred_transports@.len() as int) =~= self.preferred_transports@);
        FilterStatus {
            censorship_level: self.censorship_level.as_str(),
            dpi_intensity_permille: self.dpi_intensity_permille,
            preferred_transports: preferred,
            irst_hour: self.irst_hour,
            timestamp: utc_rfc3339(self.timestamp_secs, self.timestamp_nanos),
        }
    }
}

} // verus!
