//! Time-of-day (Iran Standard Time) censorship tiers and the transports and
//! ports preferred in each.
use vstd::prelude::*;
use crate::text::to_chars;
use crate::text::chars_eq;

verus! {

/// IRST is UTC+03:30.
pub const IRST_OFFSET_SECS: i32 = 12_600;

/// Censorship intensity tier for an IRST hour.
#[derive(Debug, Clone, Copy, PartialEq, Eq, Structural)]
pub enum CensorshipTier {
    Normal,
    Relaxed,
    HighStealth,
    UltraStealth,
}

impl CensorshipTier {
    pub open spec fn name(self) -> Seq<char> {
        match self {
            CensorshipTier::Normal => "normal"@,
            CensorshipTier::Relaxed => "relaxed"@,
            CensorshipTier::HighStealth => "high_stealth"@,
            CensorshipTier::UltraStealth => "ultra_stealth"@,
        }
    }

    /// Stable lower-case name.
    pub fn as_str(&self) -> (s: &'static str)
        ensures
            s@ == self.name(),
    {
        match self {
            CensorshipTier::Normal => "normal",
            CensorshipTier::Relaxed => "relaxed",
            CensorshipTier::HighStealth => "high_stealth",
            CensorshipTier::UltraStealth => "ultra_stealth",
        }
    }
}

/// IRST hour windows of the tiers.
#[derive(Debug, Clone, PartialEq, Eq)]
pub struct IrstTierConfig {
    pub high_censorship_start: u32,
    pub high_censorship_end: u32,
    pub ultra_stealth_start: u32,
    pub ultra_stealth_end: u32,
}

impl Default for IrstTierConfig {
    /// The default windows: high censorship 18:00–01:00, ultra stealth 20:00–23:59.
    fn default() -> (c: Self)
        ensures
            c.high_censorship_start == 18,
            c.high_censorship_end == 1,
            c.ultra_stealth_start == 20,
            c.ultra_stealth_end == 23,
    {
        IrstTierConfig {
            high_censorship_start: 18,
            high_censorship_end: 1,
            ultra_stealth_start: 20,
            ultra_stealth_end: 23,
        }
    }
}

/// IRST wall-clock hour of the instant `utc_secs` (unix seconds).
pub open spec fn irst_hour_spec(utc_secs: int) -> int {
    ((utc_secs + IRST_OFFSET_SECS) % 86400) / 3600
}

/// The tier of an IRST hour under `cfg`.
pub open spec fn tier_of_hour(hour: int, cfg: IrstTierConfig) -> CensorshipTier {
    if cfg.ultra_stealth_start <= hour <= cfg.ultra_stealth_end {
        CensorshipTier::UltraStealth
    } else if hour >= cfg.high_censorship_start || hour < cfg.high_censorship_end {
        CensorshipTier::HighStealth
    } else if 3 <= hour <= 6 {
        CensorshipTier::Relaxed
    } else {
        CensorshipTier::Normal
    }
}

/// IRST hour (0–23) of the UTC instant `utc_secs` (unix seconds).
pub fn utc_to_irst_hour(utc_secs: i64) -> (h: u32)
    ensures
        h == irst_hour_spec(utc_secs as int),
        h < 24,
{
    let shifted = utc_secs as i128 + IRST_OFFSET_SECS as i128;
    let mut r = shifted % 86400;
    if r < 0 {
        r = r + 86400;
    }
    proof {
        assert(r == (utc_secs + IRST_OFFSET_SECS) % 86400);
    }
    (r / 3600) as u32
}

/// Tier of the UTC instant `utc_secs` under `cfg`.
pub fn classify_tier(utc_secs: i64, cfg: &IrstTierConfig) -> (t: CensorshipTier)
    ensures
        t == tier_of_hour(irst_hour_spec(utc_secs as int), *cfg),
{
    let hour = utc_to_irst_hour(utc_secs);
    if hour >= cfg.ultra_stealth_start && hour <= cfg.ultra_stealth_end {
        return CensorshipTier::UltraStealth;
    }
    if hour >= cfg.high_censorship_start || hour < cfg.high_censorship_end {
        return CensorshipTier::HighStealth;
    }
    if 3 <= hour && hour <= 6 {
        return CensorshipTier::Relaxed;
    }
    CensorshipTier::Normal
}

/// Transports in preference order for a tier.
pub open spec fn preferred_transports_spec(tier: CensorshipTier) -> Seq<Seq<char>> {
    match tier {
        CensorshipTier::UltraStealth => seq!["webtunnel"@, "snowflake"@, "meek_lite"@, "meek-azure"@, "obfs4"@],
        CensorshipTier::HighStealth => seq!["snowflake"@, "webtunnel"@, "meek_lite"@, "meek-azure"@, "obfs4"@, "vanilla"@],
        CensorshipTier::Relaxed => seq!["obfs4"@, "snowflake"@, "webtunnel"@, "vanilla"@, "meek_lite"@],
        CensorshipTier::Normal => seq!["vanilla"@, "obfs4"@, "snowflake"@, "webtunnel"@, "meek_lite"@],
    }
}

/// Ports in preference order for a tier.
pub open spec fn preferred_ports_spec(tier: CensorshipTier) -> Seq<u16> {
    match tier {
        CensorshipTier::UltraStealth => seq![443u16, 8443, 2083, 2087, 2096],
        CensorshipTier::HighStealth => seq![443u16, 8443, 2083, 8080],
        CensorshipTier::Relaxed => seq![443u16, 80, 8080, 8443],
        CensorshipTier::Normal => seq![443u16, 80, 8080, 8443, 2083, 2087, 2096],
    }
}

/// Transports in preference order for a tier.
pub fn preferred_transports_for_tier(tier: CensorshipTier) -> (v: Vec<&'static str>)
    ensures
        v@.map_values(|s: &'static str| s@) == preferred_transports_spec(tier),
{
    let v = match tier {
        CensorshipTier::UltraStealth => vec!["webtunnel", "snowflake", "meek_lite", "meek-azure", "obfs4"],
        CensorshipTier::HighStealth => vec!["snowflake", "webtunnel", "meek_lite", "meek-azure", "obfs4", "vanilla"],
        CensorshipTier::Relaxed => vec!["obfs4", "snowflake", "webtunnel", "vanilla", "meek_lite"],
        CensorshipTier::Normal => vec!["vanilla", "obfs4", "snowflake", "webtunnel", "meek_lite"],
    };
    assert(v@.map_values(|s: &'static str| s@) =~= preferred_transports_spec(tier));
    v
}

/// Ports in preference order for a tier.
pub fn preferred_ports_for_tier(tier: CensorshipTier) -> (v: Vec<u16>)
    ensures
        v@ == preferred_ports_spec(tier),
{
    let v = match tier {
        CensorshipTier::UltraStealth => vec![443, 8443, 2083, 2087, 2096],
        CensorshipTier::HighStealth => vec![443, 8443, 2083, 8080],
        CensorshipTier::Relaxed => vec![443, 80, 8080, 8443],
        CensorshipTier::Normal => vec![443, 80, 8080, 8443, 2083, 2087, 2096],
    };
    assert(v@ =~= preferred_ports_spec(tier));
    v
}

/// One OONI measurement of a bridge at an IRST hour.
#[derive(Debug, Clone, PartialEq, Eq)]
pub struct OoniIstRecord {
    pub bridge_host: String,
    pub transport: String,
    pub irst_hour: u32,
    /// 0 = today, -1 = yesterday, …
    pub day_offset: i64,
    pub success: bool,
}

/// `transport` failed within the last `cooldown_mins` minutes before `now`.
pub open spec fn cooling_down(failures: Seq<(String, i64)>, transport: Seq<char>, now: i64, cooldown_mins: i64) -> bool {
    exists|i: int| 0 <= i < failures.len() && #[trigger] failures[i].0@ == transport
        && now - failures[i].1 < cooldown_mins * 60
}

/// The first preferred transport of `tier` not cooling down, else the top one.
pub open spec fn next_transport_spec(tier: CensorshipTier, failures: Seq<(String, i64)>, now: i64, cooldown_mins: i64) -> Seq<char> {
    let prefs = preferred_transports_spec(tier);
    if exists|k: int| 0 <= k < prefs.len() && !cooling_down(failures, #[trigger] prefs[k], now, cooldown_mins) {
        prefs[choose|k: int| 0 <= k < prefs.len() && !cooling_down(failures, #[trigger] prefs[k], now, cooldown_mins)
            && forall|j: int| 0 <= j < k ==> cooling_down(failures, #[trigger] prefs[j], now, cooldown_mins)]
    } else {
        prefs[0]
    }
}

fn is_cooling_down(failures: &Vec<(String, i64)>, transport: &str, now: i64, cooldown_mins: i64) -> (b: bool)
    ensures
        b == cooling_down(failures@, transport@, now, cooldown_mins),
{
    let tv = to_chars(transport);
    let mut i: usize = 0;
    while i < failures.len()
        invariant
            i <= failures.len(),
            tv@ == transport@,
            forall|j: int| 0 <= j < i ==> !(#[trigger] failures@[j].0@ == transport@ && now - failures@[j].1 < cooldown_mins * 60),
        decreases failures.len() - i,
    {
        let name = to_chars(failures[i].0.as_str());
        if chars_eq(&name, &tv) && (now as i128) - (failures[i].1 as i128) < (cooldown_mins as i128) * 60 {
            return true;
        }
        i += 1;
    }
    false
}

/// Next transport to try in `tier`: the most preferred one that has not
/// failed (unix seconds in `recent_failures`) within `cooldown_mins` of
/// `now`; the top preference when every one is cooling down.
pub fn next_transport(tier: CensorshipTier, recent_failures: &Vec<(String, i64)>, now: i64, cooldown_mins: i64) -> (t: String)
    ensures
        t@ == next_transport_spec(tier, recent_failures@, now, cooldown_mins),
{
    let prefs = preferred_transports_for_tier(tier);
    let ghost ps = preferred_transports_spec(tier);
    assert(prefs@.len() == ps.len());
    let mut k: usize = 0;
    while k < prefs.len()
        invariant
            k <= prefs.len(),
            prefs@.map_values(|s: &'static str| s@) == ps,
            ps == preferred_transports_spec(tier),
            forall|j: int| 0 <= j < k ==> cooling_down(recent_failures@, #[trigger] ps[j], now, cooldown_mins),
        decreases prefs.len() - k,
    {
        assert(prefs@[k as int]@ == ps[k as int]);
        if !is_cooling_down(recent_failures, prefs[k], now, cooldown_mins) {
            let ghost kk = k as int;
            assert(0 <= kk < ps.len() && !cooling_down(recent_failures@, ps[kk], now, cooldown_mins)
                && forall|j: int| 0 <= j < kk ==> cooling_down(recent_failures@, #[trigger] ps[j], now, cooldown_mins));
            let ghost c = choose|m: int| 0 <= m < ps.len() && !cooling_down(recent_failures@, #[trigger] ps[m], now, cooldown_mins)
                && forall|j: int| 0 <= j < m ==> cooling_down(recent_failures@, #[trigger] ps[j], now, cooldown_mins);
            assert(c == kk) by {
                if c < kk {
                    assert(cooling_down(recent_failures@, ps[c], now, cooldown_mins));
                } else if c > kk {
                    assert(cooling_down(recent_failures@, ps[kk], now, cooldown_mins));
                }
            }
            return String::from_str(prefs[k]);
        }
        k += 1;
    }
    assert(prefs@[0]@ == ps[0]);
    String::from_str(prefs[0])
}


/// `r` counts toward the history of `host` over `transport` at IRST hour
/// `hour`: its bridge, transport and hour match and it lies within the last
/// `window_days` days (today included).
pub open spec fn counts_toward(r: OoniIstRecord, host: Seq<char>, transport: Seq<char>, hour: u32, window_days: i64) -> bool {
    &&& r.bridge_host@ == host
    &&& r.transport@ == transport
    &&& r.irst_hour == hour
    &&& r.day_offset <= 0
    &&& r.day_offset >= -window_days
}

/// How many of the records count toward the history (see
/// [`counts_toward`]), and how many of those succeeded.
pub open spec fn history_counts(rs: Seq<OoniIstRecord>, host: Seq<char>, transport: Seq<char>, hour: u32, window_days: i64) -> (nat, nat)
    decreases rs.len(),
{
    if rs.len() == 0 {
        (0, 0)
    } else {
        let (s, t) = history_counts(rs.drop_last(), host, transport, hour, window_days);
        if counts_toward(rs.last(), host, transport, hour, window_days) {
            (if rs.last().success { s + 1 } else { s }, t + 1)
        } else {
            (s, t)
        }
    }
}

/// What a bridge's history at an hour calls for: too few samples (under
/// three), a boost (success rate of 70% or more), a penalty (under 30%),
/// or no adjustment.
#[derive(Debug, Clone, Copy, PartialEq, Eq)]
pub enum HistoryVerdict {
    TooFewSamples,
    Boost,
    Penalty,
    NoAdjustment,
}

/// The verdict for `successes` out of `total` samples.
pub open spec fn verdict_of(successes: nat, total: nat) -> HistoryVerdict {
    if total < 3 {
        HistoryVerdict::TooFewSamples
    } else if 10 * successes >= 7 * total {
        HistoryVerdict::Boost
    } else if 10 * successes < 3 * total {
        HistoryVerdict::Penalty
    } else {
        HistoryVerdict::NoAdjustment
    }
}

/// A bridge's history at an hour: the successes and samples that count
/// toward it and what they call for.
#[derive(Debug, Clone, Copy, PartialEq, Eq)]
pub struct HistorySample {
    pub successes: u32,
    pub total: u32,
    pub verdict: HistoryVerdict,
}

proof fn lemma_history_counts_bounded(rs: Seq<OoniIstRecord>, host: Seq<char>, transport: Seq<char>, hour: u32, window_days: i64)
    ensures
        history_counts(rs, host, transport, hour, window_days).0 <= history_counts(rs, host, transport, hour, window_days).1,
        history_counts(rs, host, transport, hour, window_days).1 <= rs.len(),
    decreases rs.len(),
{
    if rs.len() > 0 {
        lemma_history_counts_bounded(rs.drop_last(), host, transport, hour, window_days);
    }
}

/// The history of `host` over `transport` at IRST hour `hour` within the
/// last `window_days` days, from the OONI records.
pub fn irst_history(host: &str, transport: &str, records: &Vec<OoniIstRecord>, hour: u32, window_days: i64) -> (h: HistorySample)
    requires
        records@.len() <= u32::MAX,
    ensures
        h.successes == history_counts(records@, host@, transport@, hour, window_days).0,
        h.total == history_counts(records@, host@, transport@, hour, window_days).1,
        h.verdict == verdict_of(h.successes as nat, h.total as nat),
{
    let hv = to_chars(host);
    let tv = to_chars(transport);
    let mut successes: u32 = 0;
    let mut total: u32 = 0;
    let mut i: usize = 0;
    while i < records.len()
        invariant
            i <= records@.len(),
            records@.len() <= u32::MAX,
            hv@ == host@,
            tv@ == transport@,
            (successes as nat, total as nat) == history_counts(records@.take(i as int), host@, transport@, hour, window_days),
        decreases records@.len() - i,
    {
        let r = &records[i];
        assert(records@.take(i + 1).drop_last() =~= records@.take(i as int));
        assert(records@.take(i + 1).last() == records@[i as int]);
        proof {
            lemma_history_counts_bounded(records@.take(i as int), host@, transport@, hour, window_days);
        }
        let matches = chars_eq(&to_chars(r.bridge_host.as_str()), &hv) && chars_eq(&to_chars(r.transport.as_str()), &tv)
            && r.irst_hour == hour && r.day_offset <= 0 && (r.day_offset as i128) >= -(window_days as i128);
        if matches {
            total += 1;
            if r.success {
                successes += 1;
            }
        }
        i += 1;
    }
    assert(records@.take(records@.len() as int) =~= records@);
    let verdict = if total < 3 {
        HistoryVerdict::TooFewSamples
    } else if (successes as u64) * 10 >= (total as u64) * 7 {
        HistoryVerdict::Boost
    } else if (successes as u64) * 10 < (total as u64) * 3 {
        HistoryVerdict::Penalty
    } else {
        HistoryVerdict::NoAdjustment
    };
    HistorySample { successes, total, verdict }
}

} // verus!
