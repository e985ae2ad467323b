//! Forecast of the SIAM filtering strategy and the transport / port-hopping
//! plan that answers it.
use vstd::prelude::*;
use crate::timefmt::{rfc3339_text, utc_rfc3339};

verus! {

/// Port-hopping rotation order (all CDN-friendly TLS ports).
pub const PORT_HOPPING_SCHEDULE: [u16; 6] = [443, 8443, 2053, 2083, 2087, 2096];

/// Minutes a transport stays on cooldown after use.
pub const TRANSPORT_COOLDOWN_MINS: i64 = 15;

/// Weights of the composite score, in thousandths: anti-AI evasion, ECH
/// readiness, history.
pub const COMPOSITE_WEIGHT_ANTI_AI_PERMILLE: u32 = 400;
pub const COMPOSITE_WEIGHT_ECH_PERMILLE: u32 = 350;
pub const COMPOSITE_WEIGHT_HIST_PERMILLE: u32 = 250;

/// The composite weights add up to one.
pub proof fn law_composite_weights_sum_to_one()
    ensures
        COMPOSITE_WEIGHT_ANTI_AI_PERMILLE + COMPOSITE_WEIGHT_ECH_PERMILLE + COMPOSITE_WEIGHT_HIST_PERMILLE == 1000,
{
}

/// Error raised on malformed shield input.
#[derive(Debug, Clone, PartialEq, Eq)]
pub enum QuantumDpiShieldError {
    InvalidInput(String),
}

/// Escalation ladder of SIAM filtering strategies, mildest first.
#[derive(Debug, Clone, Copy, PartialEq, Eq, Structural)]
pub enum SiamStrategy {
    PassiveSniBlocklist,
    ActiveSniFiltering,
    Ja3FingerprintBlock,
    ProtocolLengthDistribution,
    NinFullIsolation,
}

impl SiamStrategy {
    /// Position on the escalation ladder (0 = mildest).
    pub open spec fn rank(self) -> int {
        match self {
            SiamStrategy::PassiveSniBlocklist => 0,
            SiamStrategy::ActiveSniFiltering => 1,
            SiamStrategy::Ja3FingerprintBlock => 2,
            SiamStrategy::ProtocolLengthDistribution => 3,
            SiamStrategy::NinFullIsolation => 4,
        }
    }

    pub open spec fn snake_name(self) -> Seq<char> {
        match self {
            SiamStrategy::PassiveSniBlocklist => "passive_sni_blocklist"@,
            SiamStrategy::ActiveSniFiltering => "active_sni_filtering"@,
            SiamStrategy::Ja3FingerprintBlock => "ja3_fingerprint_block"@,
            SiamStrategy::ProtocolLengthDistribution => "protocol_length_distribution"@,
            SiamStrategy::NinFullIsolation => "nin_full_isolation"@,
        }
    }

    /// Transports in preference order for this strategy.
    pub open spec fn ranking(self) -> Seq<Seq<char>> {
        match self {
            SiamStrategy::PassiveSniBlocklist => seq!["obfs4"@, "webtunnel"@, "snowflake"@],
            SiamStrategy::ActiveSniFiltering => seq!["webtunnel"@, "snowflake"@, "obfs4"@],
            SiamStrategy::Ja3FingerprintBlock => seq!["snowflake"@, "webtunnel"@, "obfs4"@],
            SiamStrategy::ProtocolLengthDistribution => seq!["webtunnel"@, "snowflake"@, "obfs4"@],
            SiamStrategy::NinFullIsolation => seq!["webtunnel"@, "snowflake"@, "obfs4"@],
        }
    }

    pub open spec fn dwell(self) -> int {
        match self {
            SiamStrategy::PassiveSniBlocklist => 60,
            SiamStrategy::ActiveSniFiltering => 30,
            SiamStrategy::Ja3FingerprintBlock => 15,
            SiamStrategy::ProtocolLengthDistribution => 10,
            SiamStrategy::NinFullIsolation => 5,
        }
    }

    /// Stable snake-case identifier.
    pub fn as_snake_str(&self) -> (s: &'static str)
        ensures
            s@ == self.snake_name(),
    {
        match self {
            SiamStrategy::PassiveSniBlocklist => "passive_sni_blocklist",
            SiamStrategy::ActiveSniFiltering => "active_sni_filtering",
            SiamStrategy::Ja3FingerprintBlock => "ja3_fingerprint_block",
            SiamStrategy::ProtocolLengthDistribution => "protocol_length_distribution",
            SiamStrategy::NinFullIsolation => "nin_full_isolation",
        }
    }

    /// Transports in preference order for this strategy.
    pub fn transport_ranking(&self) -> (r: Vec<&'static str>)
        ensures
            r@.len() == 3,
            forall|i: int| 0 <= i < 3 ==> #[trigger] r@[i]@ == self.ranking()[i],
    {
        match self {
            SiamStrategy::PassiveSniBlocklist => vec!["obfs4", "webtunnel", "snowflake"],
            SiamStrategy::ActiveSniFiltering => vec!["webtunnel", "snowflake", "obfs4"],
            SiamStrategy::Ja3FingerprintBlock => vec!["snowflake", "webtunnel", "obfs4"],
            SiamStrategy::ProtocolLengthDistribution => vec!["webtunnel", "snowflake", "obfs4"],
            SiamStrategy::NinFullIsolation => vec!["webtunnel", "snowflake", "obfs4"],
        }
    }

    /// Minutes to stay on one port before hopping.
    pub fn port_dwell_minutes(&self) -> (m: i64)
        ensures
            m == self.dwell(),
    {
        match self {
            SiamStrategy::PassiveSniBlocklist => 60,
            SiamStrategy::ActiveSniFiltering => 30,
            SiamStrategy::Ja3FingerprintBlock => 15,
            SiamStrategy::ProtocolLengthDistribution => 10,
            SiamStrategy::NinFullIsolation => 5,
        }
    }
}


/// The most recent use of `transport` recorded in `last_used`, if any
/// (the first entry naming it, as a map lookup would find it).
pub open spec fn last_use_of(last_used: Seq<(String, i64)>, transport: Seq<char>) -> Option<i64>
    decreases last_used.len(),
{
    if last_used.len() == 0 {
        None
    } else if last_used[0].0@ == transport {
        Some(last_used[0].1)
    } else {
        last_use_of(last_used.drop_first(), transport)
    }
}

/// A transport is eligible when it was never used or its cooldown has elapsed.
pub open spec fn eligible(last_used: Seq<(String, i64)>, transport: Seq<char>, now: i64) -> bool {
    match last_use_of(last_used, transport) {
        None => true,
        Some(t) => now - t >= TRANSPORT_COOLDOWN_MINS * 60,
    }
}

/// The transport `select_transport` picks: the best-ranked eligible one, or
/// the top-ranked one when every transport is still cooling down.
pub open spec fn selected_transport(strategy: SiamStrategy, last_used: Seq<(String, i64)>, now: i64) -> Seq<char> {
    let r = strategy.ranking();
    if eligible(last_used, r[0], now) {
        r[0]
    } else if eligible(last_used, r[1], now) {
        r[1]
    } else if eligible(last_used, r[2], now) {
        r[2]
    } else {
        r[0]
    }
}

fn lookup_last_use(last_used: &Vec<(String, i64)>, transport: &str) -> (r: Option<i64>)
    ensures
        r == last_use_of(last_used@, transport@),
{
    let tv = crate::text::to_chars(transport);
    let mut i: usize = 0;
    assert(last_used@.skip(0) =~= last_used@);
    while i < last_used.len()
        invariant
            i <= last_used.len(),
            tv@ == transport@,
            last_use_of(last_used@, transport@) == last_use_of(last_used@.skip(i as int), transport@),
        decreases last_used.len() - i,
    {
        let ghost rest = last_used@.skip(i as int);
        assert(rest.drop_first() =~= last_used@.skip(i + 1));
        let name = crate::text::to_chars(last_used[i].0.as_str());
        if crate::text::chars_eq(&name, &tv) {
            assert(rest[0] == last_used@[i as int]);
            return Some(last_used[i].1);
        }
        i += 1;
    }
    None
}

/// Picks the best-ranked transport for `strategy` whose last use (unix
/// seconds, in `last_used`) is at least [`TRANSPORT_COOLDOWN_MINS`] before
/// `now`; falls back to the top-ranked transport when all are cooling down.
pub fn select_transport(strategy: SiamStrategy, last_used: &Vec<(String, i64)>, now: i64) -> (t: &'static str)
    ensures
        t@ == selected_transport(strategy, last_used@, now),
{
    let ranking = strategy.transport_ranking();
    let mut i: usize = 0;
    while i < 3
        invariant
            i <= 3,
            ranking@.len() == 3,
            forall|k: int| 0 <= k < 3 ==> #[trigger] ranking@[k]@ == strategy.ranking()[k],
            forall|k: int| 0 <= k < i ==> !eligible(last_used@, #[trigger] strategy.ranking()[k], now),
        decreases 3 - i,
    {
        let t = ranking[i];
        let ok = match lookup_last_use(last_used, t) {
            None => true,
            Some(used) => (now as i128) - (used as i128) >= (TRANSPORT_COOLDOWN_MINS * 60) as i128,
        };
        if ok {
            assert(ranking@[i as int]@ == strategy.ranking()[i as int]);
            return t;
        }
        i += 1;
    }
    assert(ranking@[0]@ == strategy.ranking()[0]);
    ranking[0]
}

/// The hop plan: each port of [`PORT_HOPPING_SCHEDULE`] in order, the `i`-th
/// held until `now + (i + 1) * dwell` (unix seconds).
pub fn port_hopping_schedule(strategy: SiamStrategy, now: i64) -> (plan: Vec<(u16, i64)>)
    requires
        now <= i64::MAX - 6 * 60 * 60,
    ensures
        plan@.len() == 6,
        forall|i: int| 0 <= i < 6 ==> #[trigger] plan@[i] == (PORT_HOPPING_SCHEDULE[i], (now + (i + 1) * strategy.dwell() * 60) as i64),
{
    let dwell = strategy.port_dwell_minutes() * 60;
    let mut plan: Vec<(u16, i64)> = Vec::new();
    let mut i: usize = 0;
    while i < 6
        invariant
            i <= 6,
            dwell == strategy.dwell() * 60,
            0 < dwell <= 3600,
            now <= i64::MAX - 6 * 60 * 60,
            plan@.len() == i,
            forall|k: int| 0 <= k < i ==> #[trigger] plan@[k] == (PORT_HOPPING_SCHEDULE[k], (now + (k + 1) * strategy.dwell() * 60) as i64),
        decreases 6 - i,
    {
        assert((i as int + 1) * dwell <= 6 * 3600) by (nonlinear_arith)
            requires i < 6, 0 < dwell <= 3600;
        let until = now + (i as i64 + 1) * dwell;
        assert(until == now + (i + 1) * strategy.dwell() * 60) by (nonlinear_arith)
            requires until == now + (i + 1) * dwell, dwell == strategy.dwell() * 60;
        plan.push((PORT_HOPPING_SCHEDULE[i], until));
        i += 1;
    }
    plan
}

/// The more escalated the strategy, the shorter the dwell on each port.
pub proof fn law_dwell_decreases_with_escalation(a: SiamStrategy, b: SiamStrategy)
    requires
        a.rank() < b.rank(),
    ensures
        b.dwell() < a.dwell(),
{
}


/// OONI measurement counts over the last `window_hours`, the bridge failure
/// rate (per mille) from the circuit-breaker history, and whether national
/// network isolation was detected in the last hour.
#[derive(Debug, Clone, Copy, PartialEq, Eq)]
pub struct ForecastInput {
    pub anomaly_count: u32,
    pub confirmed_count: u32,
    pub failure_count: u32,
    pub window_hours: u32,
    pub bridge_failure_rate_permille: u32,
    pub nin_detected: bool,
}

impl Default for ForecastInput {
    /// No measurements over a 24-hour window.
    fn default() -> (d: ForecastInput)
        ensures
            d == (ForecastInput {
                anomaly_count: 0,
                confirmed_count: 0,
                failure_count: 0,
                window_hours: 24,
                bridge_failure_rate_permille: 0,
                nin_detected: false,
            }),
    {
        ForecastInput {
            anomaly_count: 0,
            confirmed_count: 0,
            failure_count: 0,
            window_hours: 24,
            bridge_failure_rate_permille: 0,
            nin_detected: false,
        }
    }
}

/// The strategy SIAM is expected to use next: isolation when detected, the
/// length-distribution analysis when bridges fail at 95% or more, JA3
/// blocking on 50 confirmed and 200 anomalous measurements, active SNI
/// filtering on 100 anomalous or 20 confirmed ones, the passive blocklist
/// otherwise.
pub open spec fn predicted(input: ForecastInput) -> SiamStrategy {
    if input.nin_detected {
        SiamStrategy::NinFullIsolation
    } else if input.bridge_failure_rate_permille >= 950 {
        SiamStrategy::ProtocolLengthDistribution
    } else if input.confirmed_count >= 50 && input.anomaly_count >= 200 {
        SiamStrategy::Ja3FingerprintBlock
    } else if input.anomaly_count >= 100 || input.confirmed_count >= 20 {
        SiamStrategy::ActiveSniFiltering
    } else {
        SiamStrategy::PassiveSniBlocklist
    }
}

/// The strategy SIAM is expected to use next (see [`predicted`]).
pub fn predict_strategy(input: &ForecastInput) -> (s: SiamStrategy)
    ensures
        s == predicted(*input),
{
    if input.nin_detected {
        return SiamStrategy::NinFullIsolation;
    }
    if input.bridge_failure_rate_permille >= 950 {
        return SiamStrategy::ProtocolLengthDistribution;
    }
    if input.confirmed_count >= 50 && input.anomaly_count >= 200 {
        return SiamStrategy::Ja3FingerprintBlock;
    }
    if input.anomaly_count >= 100 || input.confirmed_count >= 20 {
        return SiamStrategy::ActiveSniFiltering;
    }
    SiamStrategy::PassiveSniBlocklist
}

/// More pressure never predicts a milder strategy: with every count, the
/// failure rate and the isolation signal at least as high, the predicted
/// strategy is at least as escalated.
pub proof fn law_prediction_is_monotone(a: ForecastInput, b: ForecastInput)
    requires
        a.anomaly_count <= b.anomaly_count,
        a.confirmed_count <= b.confirmed_count,
        a.bridge_failure_rate_permille <= b.bridge_failure_rate_permille,
        a.nin_detected ==> b.nin_detected,
    ensures
        predicted(a).rank() <= predicted(b).rank(),
{
}

/// Composite score at or above which a bridge is preferred (per mille).
pub const COMPOSITE_PRIORITY_THRESHOLD_PERMILLE: u32 = 700;
/// Composite score below which a bridge is avoided (per mille).
pub const COMPOSITE_AVOID_THRESHOLD_PERMILLE: u32 = 300;

/// The class of a composite score given in thousandths: `priority` from
/// 700, `avoid` below 300, `neutral` between.
pub fn classify_composite(score_permille: u32) -> (c: &'static str)
    ensures
        c@ == if score_permille >= 700 {
            "priority"@
        } else if score_permille < 300 {
            "avoid"@
        } else {
            "neutral"@
        },
{
    if score_permille >= COMPOSITE_PRIORITY_THRESHOLD_PERMILLE {
        "priority"
    } else if score_permille < COMPOSITE_AVOID_THRESHOLD_PERMILLE {
        "avoid"
    } else {
        "neutral"
    }
}

/// The recommendation of the shield for one instant: the forecast it was
/// made from, the predicted strategy, the transport to use and the
/// ranking it came from, the port dwell, the hop plan (port and the
/// RFC 3339 instant it is held until) and the transport cooldown.
#[derive(Debug, Clone, PartialEq, Eq)]
pub struct ShieldRecommendation {
    pub generated_at: String,
    pub predicted_strategy: SiamStrategy,
    pub recommended_transport: &'static str,
    pub transport_ranking: Vec<&'static str>,
    pub port_dwell_minutes: i64,
    pub port_hopping_schedule: Vec<(u16, String)>,
    pub cooldown_minutes: i64,
    pub forecast_input: ForecastInput,
}

/// The shield, at a given instant (unix seconds and nanoseconds).
#[derive(Debug, Clone, Copy, PartialEq, Eq)]
pub struct Shield {
    pub now_secs: i64,
    pub now_nanos: u32,
}

impl Shield {
    /// The shield at the given instant.
    pub fn new(now_secs: i64, now_nanos: u32) -> (s: Shield)
        ensures
            s.now_secs == now_secs,
            s.now_nanos == now_nanos,
    {
        Shield { now_secs, now_nanos }
    }

    /// The full recommendation for the forecast and the transports' last
    /// uses (unix seconds); `None` where an instant cannot be rendered.
    pub fn recommend(&self, input: &ForecastInput, last_used: &Vec<(String, i64)>) -> (r: Option<ShieldRecommendation>)
        requires
            self.now_secs <= i64::MAX - 6 * 60 * 60,
        ensures
            match r {
                Some(rec) => {
                    let strategy = predicted(*input);
                    &&& rec.predicted_strategy == strategy
                    &&& rec.recommended_transport@ == selected_transport(strategy, last_used@, self.now_secs)
                    &&& rec.transport_ranking@.len() == 3
                    &&& forall|i: int| 0 <= i < 3 ==> #[trigger] rec.transport_ranking@[i]@ == strategy.ranking()[i]
                    &&& rec.port_dwell_minutes == strategy.dwell()
                    &&& rec.cooldown_minutes == TRANSPORT_COOLDOWN_MINS
                    &&& rec.forecast_input == *input
                    &&& rfc3339_text(self.now_secs, self.now_nanos) == Some(rec.generated_at@)
                    &&& rec.port_hopping_schedule@.len() == 6
                    &&& forall|i: int|
                        0 <= i < 6 ==> {
                            &&& (#[trigger] rec.port_hopping_schedule@[i]).0 == PORT_HOPPING_SCHEDULE[i]
                            &&& rfc3339_text(
                                (self.now_secs + (i + 1) * strategy.dwell() * 60) as i64,
                                self.now_nanos,
                            ) == Some(rec.port_hopping_schedule@[i].1@)
                        }
                },
                None => {
                    ||| rfc3339_text(self.now_secs, self.now_nanos) is None
                    ||| exists|i: int|
                        0 <= i < 6 && #[trigger] rfc3339_text(
                            (self.now_secs + (i + 1) * predicted(*input).dwell() * 60) as i64,
                            self.now_nanos,
                        ) is None
                },
            },
    {
        let strategy = predict_strategy(input);
        let transport = select_transport(strategy, last_used, self.now_secs);
        let plan = port_hopping_schedule(strategy, self.now_secs);
        let generated_at = match utc_rfc3339(self.now_secs, self.now_nanos) {
            Some(t) => t,
            None => return None,
        };
        let mut schedule: Vec<(u16, String)> = Vec::new();
        let mut i: usize = 0;
        while i < 6
            invariant
                i <= 6,
                plan@.len() == 6,
                strategy == predicted(*input),
                forall|k: int| 0 <= k < 6 ==> #[trigger] plan@[k] == (PORT_HOPPING_SCHEDULE[k], (self.now_secs + (k + 1) * strategy.dwell() * 60) as i64),
                schedule@.len() == i,
                forall|k: int|
                    0 <= k < i ==> {
                        &&& (#[trigger] schedule@[k]).0 == PORT_HOPPING_SCHEDULE[k]
                        &&& rfc3339_text((self.now_secs + (k + 1) * strategy.dwell() * 60) as i64, self.now_nanos) == Some(schedule@[k].1@)
                    },
            decreases 6 - i,
        {
            let (port, until) = plan[i];
            assert(plan@[i as int] == (PORT_HOPPING_SCHEDULE[i as int], (self.now_secs + (i + 1) * strategy.dwell() * 60) as i64));
            match utc_rfc3339(until, self.now_nanos) {
                Some(t) => {
                    schedule.push((port, t));
                },
                None => {
                    return None;
                },
            }
            i += 1;
        }
        Some(
            ShieldRecommendation {
                generated_at,
                predicted_strategy: strategy,
                recommended_transport: transport,
                transport_ranking: strategy.transport_ranking(),
                port_dwell_minutes: strategy.port_dwell_minutes(),
                port_hopping_schedule: schedule,
                cooldown_minutes: TRANSPORT_COOLDOWN_MINS,
                forecast_input: *input,
            },
        )
    }
}

} // verus!
