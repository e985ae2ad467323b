//! Reading feature flags and tuning parameters from environment values.
//!
//! The environment is handed in as `(name, value)` pairs; when a name
//! occurs more than once the last pair counts, as a map insert would.
use vstd::prelude::*;
use crate::text::{eq_ignore_ascii_case, eq_ignore_ascii_case_str, to_chars, chars_eq, string_of, slice_range, eq_str};
use crate::iran_smart_rotation::ascii_lower;
use crate::netaddr::{i64_spec, parse_i64, split_char, split_on, is_digit, all_digits};

verus! {

/// A value that does not parse as the flag's type.
#[derive(Debug, Clone, PartialEq, Eq)]
pub enum FeatureFlagError {
    InvalidInt { name: &'static str, value: String },
    InvalidFloat { name: &'static str, value: String },
}

impl FeatureFlagError {
    pub open spec fn message(&self) -> Seq<char> {
        match self {
            FeatureFlagError::InvalidInt { name, value } => "invalid integer for "@ + name@ + ": "@ + value@,
            FeatureFlagError::InvalidFloat { name, value } => "invalid float for "@ + name@ + ": "@ + value@,
        }
    }

    /// The error's text: `invalid integer for NAME: VALUE` (or `float`).
    pub fn to_message(&self) -> (s: String)
        ensures
            s@ == self.message(),
    {
        match self {
            FeatureFlagError::InvalidInt { name, value } => {
                let mut s = String::from_str("invalid integer for ");
                s.append(name);
                s.append(": ");
                s.append(value.as_str());
                s
            },
            FeatureFlagError::InvalidFloat { name, value } => {
                let mut s = String::from_str("invalid float for ");
                s.append(name);
                s.append(": ");
                s.append(value.as_str());
                s
            },
        }
    }
}

/// The value the environment gives `name`: that of the last pair naming it.
pub open spec fn env_value(env: Seq<(String, String)>, name: Seq<char>) -> Option<Seq<char>>
    decreases env.len(),
{
    if env.len() == 0 {
        None
    } else if env.last().0@ == name {
        Some(env.last().1@)
    } else {
        env_value(env.drop_last(), name)
    }
}

/// The value of `name`, if the environment sets it.
pub fn env_get(env: &Vec<(String, String)>, name: &str) -> (r: Option<String>)
    ensures
        match r {
            Some(v) => env_value(env@, name@) == Some(v@),
            None => env_value(env@, name@) is None,
        },
{
    let nv = to_chars(name);
    let mut k: usize = env.len();
    assert(env@.take(k as int) =~= env@);
    while k > 0
        invariant
            k <= env.len(),
            nv@ == name@,
            env_value(env@, name@) == env_value(env@.take(k as int), name@),
        decreases k,
    {
        assert(env@.take(k as int).drop_last() =~= env@.take(k - 1));
        let t = to_chars(env[k - 1].0.as_str());
        if chars_eq(&t, &nv) {
            let v = to_chars(env[k - 1].1.as_str());
            return Some(string_of(&v));
        }
        k -= 1;
    }
    None
}

/// A boolean flag: set means "true" in any ASCII case; unset means the default.
pub fn parse_bool(env: &Vec<(String, String)>, name: &str, default: bool) -> (b: bool)
    ensures
        b == match env_value(env@, name@) {
            Some(v) => eq_ignore_ascii_case(v, "true"@),
            None => default,
        },
{
    match env_get(env, name) {
        Some(value) => eq_ignore_ascii_case_str(value.as_str(), "true"),
        None => default,
    }
}

/// An integer flag: the value parsed as an `i64`, the default when unset,
/// and `InvalidInt` (with the raw value) when it does not parse.
pub fn parse_int(env: &Vec<(String, String)>, name: &'static str, default: i64) -> (r: Result<
    i64,
    FeatureFlagError,
>)
    ensures
        match env_value(env@, name@) {
            None => r == Ok::<i64, FeatureFlagError>(default),
            Some(v) => match i64_spec(v) {
                Some(n) => r matches Ok(x) && x == n,
                None => r matches Err(FeatureFlagError::InvalidInt { name: nm, value }) && nm@ == name@ && value@ == v,
            },
        },
{
    match env_get(env, name) {
        Some(value) => {
            let chars = to_chars(value.as_str());
            match parse_i64(&chars) {
                Some(n) => Ok(n),
                None => Err(FeatureFlagError::InvalidInt { name, value }),
            }
        },
        None => Ok(default),
    }
}

/// A text flag: the value, or the default when unset.
pub fn parse_str(env: &Vec<(String, String)>, name: &str, default: &str) -> (s: String)
    ensures
        s@ == match env_value(env@, name@) {
            Some(v) => v,
            None => default@,
        },
{
    match env_get(env, name) {
        Some(v) => v,
        None => String::from_str(default),
    }
}

/// A list flag: the value (or the default when unset) split at every `,`.
pub fn parse_csv(env: &Vec<(String, String)>, name: &str, default: &str) -> (r: Vec<String>)
    ensures
        r@.map_values(|x: String| x@) == split_char(
            match env_value(env@, name@) {
                Some(v) => v,
                None => default@,
            },
            ',',
        ),
{
    let text = match env_get(env, name) {
        Some(v) => v,
        None => String::from_str(default),
    };
    let chars = to_chars(text.as_str());
    let parts = split_on(&chars, ',');
    let mut r: Vec<String> = Vec::new();
    for i in 0..parts.len()
        invariant
            r.len() == i,
            forall|j: int| 0 <= j < i ==> #[trigger] r@[j]@ == parts@[j]@,
    {
        r.push(string_of(&parts[i]));
    }
    assert(r@.map_values(|x: String| x@) =~= parts@.map_values(|p: Vec<char>| p@));
    r
}


/// A number's text without its sign.
pub open spec fn unsigned_part(l: Seq<char>) -> Seq<char> {
    if l.len() > 0 && (l[0] == '+' || l[0] == '-') {
        l.skip(1)
    } else {
        l
    }
}

/// Digits, or digits with one decimal point and a digit on one side at
/// least.
pub open spec fn mantissa_ok(m: Seq<char>) -> bool {
    ||| (m.len() > 0 && all_digits(m))
    ||| exists|p: int|
        0 <= p < m.len() && #[trigger] m[p] == '.' && all_digits(m.take(p)) && all_digits(m.skip(p + 1)) && (p > 0 || m.len()
            > p + 1)
}

/// Nothing, or `e`, an optional sign and digits.
pub open spec fn exponent_ok(x: Seq<char>) -> bool {
    x.len() == 0 || (x[0] == 'e' && unsigned_part(x.skip(1)).len() > 0 && all_digits(unsigned_part(x.skip(1))))
}

/// A mantissa followed by an exponent.
pub open spec fn number_ok(b: Seq<char>) -> bool {
    exists|k: int| 0 <= k <= b.len() && #[trigger] mantissa_ok(b.take(k)) && exponent_ok(b.skip(k))
}

/// The text `str::parse` accepts for a 64-bit float, as its documentation gives the
/// grammar: once ASCII-lower-cased, an optional sign and then `inf`,
/// `infinity`, `nan` or a decimal number with an optional exponent.
pub open spec fn float_syntax(s: Seq<char>) -> bool {
    let b = unsigned_part(ascii_lower(s));
    b == "inf"@ || b == "infinity"@ || b == "nan"@ || number_ok(b)
}

fn digits_only(v: &Vec<char>, lo: usize, hi: usize) -> (b: bool)
    requires
        lo <= hi <= v@.len(),
    ensures
        b == all_digits(v@.subrange(lo as int, hi as int)),
{
    let mut i: usize = lo;
    while i < hi
        invariant
            lo <= i <= hi <= v@.len(),
            all_digits(v@.subrange(lo as int, i as int)),
        decreases hi - i,
    {
        if !(v[i] >= '0' && v[i] <= '9') {
            assert(!is_digit(v@.subrange(lo as int, hi as int)[i - lo]));
            return false;
        }
        assert(v@.subrange(lo as int, i + 1) =~= v@.subrange(lo as int, i as int).push(v[i as int]));
        i += 1;
    }
    true
}

proof fn lemma_mantissa_no_e(m: Seq<char>, i: int)
    requires
        mantissa_ok(m),
        0 <= i < m.len(),
    ensures
        m[i] != 'e',
{
    if !(m.len() > 0 && all_digits(m)) {
        let p = choose|p: int|
            0 <= p < m.len() && #[trigger] m[p] == '.' && all_digits(m.take(p)) && all_digits(m.skip(p + 1)) && (p > 0
                || m.len() > p + 1);
        if i < p {
            assert(m.take(p)[i] == m[i]);
        } else if i > p {
            assert(m.skip(p + 1)[i - p - 1] == m[i]);
        }
    }
}

fn mantissa_check(m: &Vec<char>) -> (b: bool)
    ensures
        b == mantissa_ok(m@),
{
    let mut p: usize = 0;
    while p < m.len() && m[p] != '.'
        invariant
            p <= m@.len(),
            forall|j: int| 0 <= j < p ==> m@[j] != '.',
        decreases m@.len() - p,
    {
        p += 1;
    }
    if p == m.len() {
        let all = digits_only(m, 0, m.len());
        assert(m@.subrange(0, m@.len() as int) =~= m@);
        proof {
            if exists|q: int|
                0 <= q < m@.len() && #[trigger] m@[q] == '.' && all_digits(m@.take(q)) && all_digits(m@.skip(q + 1)) && (q > 0
                    || m@.len() > q + 1) {
                let q = choose|q: int|
                    0 <= q < m@.len() && #[trigger] m@[q] == '.' && all_digits(m@.take(q)) && all_digits(m@.skip(q + 1)) && (q
                        > 0 || m@.len() > q + 1);
                assert(m@[q] != '.');
            }
        }
        return m.len() > 0 && all;
    }
    let before = digits_only(m, 0, p);
    let after = digits_only(m, p + 1, m.len());
    assert(m@.subrange(0, p as int) =~= m@.take(p as int));
    assert(m@.subrange(p + 1, m@.len() as int) =~= m@.skip(p + 1));
    let ok = before && after && (p > 0 || m.len() > p + 1);
    proof {
        assert(!all_digits(m@)) by {
            assert(!is_digit(m@[p as int]));
        }
        if ok {
            assert(m@[p as int] == '.');
        }
        if exists|q: int|
            0 <= q < m@.len() && #[trigger] m@[q] == '.' && all_digits(m@.take(q)) && all_digits(m@.skip(q + 1)) && (q > 0
                || m@.len() > q + 1) {
            let q = choose|q: int|
                0 <= q < m@.len() && #[trigger] m@[q] == '.' && all_digits(m@.take(q)) && all_digits(m@.skip(q + 1)) && (q > 0
                    || m@.len() > q + 1);
            if q > p {
                assert(m@.take(q)[p as int] == '.');
            }
            assert(q == p);
        }
    }
    ok
}

fn exponent_check(x: &Vec<char>) -> (b: bool)
    ensures
        b == exponent_ok(x@),
{
    if x.len() == 0 {
        return true;
    }
    if x[0] != 'e' {
        return false;
    }
    let start: usize = if x.len() > 1 && (x[1] == '+' || x[1] == '-') { 2 } else { 1 };
    assert(unsigned_part(x@.skip(1)) =~= x@.subrange(start as int, x@.len() as int));
    start < x.len() && digits_only(x, start, x.len())
}

/// Whether `s` is text `str::parse` accepts for a 64-bit float (see [`float_syntax`]).
pub fn is_float_text(s: &str) -> (b: bool)
    ensures
        b == float_syntax(s@),
{
    let v = to_chars(s);
    let mut l: Vec<char> = Vec::new();
    let mut i: usize = 0;
    while i < v.len()
        invariant
            i <= v@.len(),
            l@ == ascii_lower(v@.take(i as int)),
        decreases v@.len() - i,
    {
        let c = v[i];
        let lc = if 'A' <= c && c <= 'Z' { ((c as u32) + 32) as u8 as char } else { c };
        assert(lc == crate::text::ascii_lower_char(c)) by {
            if 'A' <= c && c <= 'Z' {
                assert(((c as u32) + 32) as u8 as char == ((c as u32) + 32) as char);
            }
        }
        l.push(lc);
        assert(ascii_lower(v@.take(i + 1)) =~= ascii_lower(v@.take(i as int)).push(lc));
        i += 1;
    }
    assert(v@.take(v@.len() as int) =~= v@);
    let start: usize = if l.len() > 0 && (l[0] == '+' || l[0] == '-') { 1 } else { 0 };
    let b = slice_range(&l, start, l.len());
    assert(b@ =~= unsigned_part(l@));
    if eq_str(&b, "inf") || eq_str(&b, "infinity") || eq_str(&b, "nan") {
        return true;
    }
    let mut k: usize = 0;
    while k < b.len() && b[k] != 'e'
        invariant
            k <= b@.len(),
            forall|j: int| 0 <= j < k ==> b@[j] != 'e',
        decreases b@.len() - k,
    {
        k += 1;
    }
    let m = slice_range(&b, 0, k);
    let x = slice_range(&b, k, b.len());
    assert(m@ =~= b@.take(k as int));
    assert(x@ =~= b@.skip(k as int));
    let ok = mantissa_check(&m) && exponent_check(&x);
    proof {
        if number_ok(b@) {
            let j = choose|j: int| 0 <= j <= b@.len() && #[trigger] mantissa_ok(b@.take(j)) && exponent_ok(b@.skip(j));
            if j < k {
                assert(b@.skip(j)[0] == b@[j]);
            } else if j > k {
                lemma_mantissa_no_e(b@.take(j), k as int);
                assert(b@.take(j)[k as int] == b@[k as int]);
            }
            assert(j == k);
        }
    }
    ok
}

/// A float flag, kept as the text that parses: the value, the default
/// text when unset, and `InvalidFloat` (with the raw value) when it does
/// not parse as a float.
pub fn parse_float(env: &Vec<(String, String)>, name: &'static str, default: &'static str) -> (r: Result<String, FeatureFlagError>)
    ensures
        match env_value(env@, name@) {
            None => r matches Ok(t) && t@ == default@,
            Some(v) => if float_syntax(v) {
                r matches Ok(t) && t@ == v
            } else {
                r matches Err(FeatureFlagError::InvalidFloat { name: nm, value }) && nm@ == name@ && value@ == v
            },
        },
{
    match env_get(env, name) {
        Some(value) => {
            if is_float_text(value.as_str()) {
                Ok(value)
            } else {
                Err(FeatureFlagError::InvalidFloat { name, value })
            }
        },
        None => Ok(String::from_str(default)),
    }
}

/// The value a boolean flag takes.
pub open spec fn bool_flag(env: Seq<(String, String)>, name: Seq<char>, default: bool) -> bool {
    match env_value(env, name) {
        Some(v) => eq_ignore_ascii_case(v, "true"@),
        None => default,
    }
}

/// Whether a numeric setting's value (if set) parses: as an `i64`, or as
/// a float for a float setting.
pub open spec fn setting_ok(env: Seq<(String, String)>, name: Seq<char>, is_float: bool) -> bool {
    match env_value(env, name) {
        Some(v) => if is_float { float_syntax(v) } else { i64_spec(v) is Some },
        None => true,
    }
}

/// The integer a setting takes (its default when unset).
pub open spec fn int_setting(env: Seq<(String, String)>, name: Seq<char>, default: i64) -> int {
    match env_value(env, name) {
        Some(v) => match i64_spec(v) {
            Some(n) => n,
            None => default as int,
        },
        None => default as int,
    }
}

/// The text a float setting takes (its default text when unset).
pub open spec fn float_setting(env: Seq<(String, String)>, name: Seq<char>, default: Seq<char>) -> Seq<char> {
    match env_value(env, name) {
        Some(v) => v,
        None => default,
    }
}

/// The numeric settings in the order they are read: name and whether it is
/// a float.
pub open spec fn numeric_settings() -> Seq<(&'static str, bool)> {
    seq![
        ("CIRCUIT_BREAKER_FAILURE_THRESHOLD", false),
        ("CIRCUIT_BREAKER_COOLDOWN_SECS", true),
        ("CIRCUIT_BREAKER_HALF_OPEN_MAX_PROBES", false),
        ("RETRY_MAX_ATTEMPTS_400", false),
        ("RETRY_MAX_ATTEMPTS_429", false),
        ("RETRY_MAX_ATTEMPTS_5XX", false),
        ("RETRY_BACKOFF_CAP_SECS", true),
        ("SELF_HEAL_TRIGGER_THRESHOLD", false),
        ("SELF_HEAL_COOLDOWN_SECS", true),
        ("MODEL_REGISTRY_REFRESH_HOURS", false),
        ("IRST_HIGH_CENSORSHIP_START", false),
        ("IRST_HIGH_CENSORSHIP_END", false),
        ("IRST_ULTRA_STEALTH_START", false),
        ("IRST_ULTRA_STEALTH_END", false),
        ("LOG_MAX_MB", false),
    ]
}

/// `e` is the error reported for setting `k` of [`numeric_settings`].
pub open spec fn error_for(env: Seq<(String, String)>, e: FeatureFlagError, k: int) -> bool {
    let (name, is_float) = numeric_settings()[k];
    match e {
        FeatureFlagError::InvalidInt { name: nm, value } => !is_float && nm@ == name@ && env_value(env, name@) == Some(value@),
        FeatureFlagError::InvalidFloat { name: nm, value } => is_float && nm@ == name@ && env_value(env, name@) == Some(value@),
    }
}

/// An environment that sets none of the settings leaves every flag on and
/// every numeric setting valid.
pub proof fn law_unset_environment_turns_every_flag_on(env: Seq<(String, String)>, name: Seq<char>, is_float: bool)
    requires
        env.len() == 0,
    ensures
        bool_flag(env, name, true),
        setting_ok(env, name, is_float),
{
}

/// Every feature flag and tuning parameter; float parameters are kept as
/// the decimal text they were given in (or their default text).
#[derive(Debug, Clone, PartialEq, Eq)]
pub struct FeatureFlags {
    pub enable_endpoint_validation: bool,
    pub enable_circuit_breaker: bool,
    pub enable_model_registry: bool,
    pub enable_retry_failover: bool,
    pub enable_self_healing: bool,
    pub enable_structured_logging: bool,
    pub enable_report_generation: bool,
    pub enable_anti_dpi_iran: bool,
    pub enable_utls_evasion: bool,
    pub enable_irst_routing: bool,
    pub enable_compat_path_fix: bool,
    pub enable_telemetry: bool,
    pub circuit_breaker_failure_threshold: i64,
    pub circuit_breaker_cooldown_secs: String,
    pub circuit_breaker_half_open_max_probes: i64,
    pub retry_max_attempts_400: i64,
    pub retry_max_attempts_429: i64,
    pub retry_max_attempts_5xx: i64,
    pub retry_backoff_cap_secs: String,
    pub self_heal_trigger_threshold: i64,
    pub self_heal_cooldown_secs: String,
    pub model_registry_refresh_hours: i64,
    pub irst_high_censorship_start: i64,
    pub irst_high_censorship_end: i64,
    pub irst_ultra_stealth_start: i64,
    pub irst_ultra_stealth_end: i64,
    pub log_max_mb: i64,
    pub provider_fallback_order: Vec<String>,
    pub log_dir: String,
}

impl FeatureFlags {
    /// The flags and parameters the environment sets: every flag defaults
    /// on; a numeric parameter that does not parse is reported, the first
    /// in reading order.
    #[verifier::spinoff_prover]
    #[verifier::rlimit(60)]
    pub fn from_env_map(env: &Vec<(String, String)>) -> (r: Result<FeatureFlags, FeatureFlagError>)
        ensures
            r is Ok <==> (forall|k: int| 0 <= k < numeric_settings().len() ==> setting_ok(env@, #[trigger] numeric_settings()[k].0@, numeric_settings()[k].1)),
            match r {
                Err(e) => exists|k: int|
                    0 <= k < numeric_settings().len() && !setting_ok(env@, #[trigger] numeric_settings()[k].0@, numeric_settings()[k].1)
                        && (forall|j: int| 0 <= j < k ==> setting_ok(env@, #[trigger] numeric_settings()[j].0@, numeric_settings()[j].1))
                        && error_for(env@, e, k),
                Ok(f) => {
                    &&& f.enable_endpoint_validation == bool_flag(env@, "ENABLE_ENDPOINT_VALIDATION"@, true)
                    &&& f.enable_circuit_breaker == bool_flag(env@, "ENABLE_CIRCUIT_BREAKER"@, true)
                    &&& f.enable_model_registry == bool_flag(env@, "ENABLE_MODEL_REGISTRY"@, true)
                    &&& f.enable_retry_failover == bool_flag(env@, "ENABLE_RETRY_FAILOVER"@, true)
                    &&& f.enable_self_healing == bool_flag(env@, "ENABLE_SELF_HEALING"@, true)
                    &&& f.enable_structured_logging == bool_flag(env@, "ENABLE_STRUCTURED_LOGGING"@, true)
                    &&& f.enable_report_generation == bool_flag(env@, "ENABLE_REPORT_GENERATION"@, true)
                    &&& f.enable_anti_dpi_iran == bool_flag(env@, "ENABLE_ANTI_DPI_IRAN"@, true)
                    &&& f.enable_utls_evasion == bool_flag(env@, "ENABLE_UTLS_EVASION"@, true)
                    &&& f.enable_irst_routing == bool_flag(env@, "ENABLE_IRST_ROUTING"@, true)
                    &&& f.enable_compat_path_fix == bool_flag(env@, "ENABLE_COMPAT_PATH_FIX"@, true)
                    &&& f.enable_telemetry == bool_flag(env@, "ENABLE_TELEMETRY"@, true)
                    &&& f.circuit_breaker_failure_threshold == int_setting(env@, "CIRCUIT_BREAKER_FAILURE_THRESHOLD"@, 3)
                    &&& f.circuit_breaker_cooldown_secs@ == float_setting(env@, "CIRCUIT_BREAKER_COOLDOWN_SECS"@, "60.0"@)
                    &&& f.circuit_breaker_half_open_max_probes == int_setting(env@, "CIRCUIT_BREAKER_HALF_OPEN_MAX_PROBES"@, 1)
                    &&& f.retry_max_attempts_400 == int_setting(env@, "RETRY_MAX_ATTEMPTS_400"@, 0)
                    &&& f.retry_max_attempts_429 == int_setting(env@, "RETRY_MAX_ATTEMPTS_429"@, 5)
                    &&& f.retry_max_attempts_5xx == int_setting(env@, "RETRY_MAX_ATTEMPTS_5XX"@, 3)
                    &&& f.retry_backoff_cap_secs@ == float_setting(env@, "RETRY_BACKOFF_CAP_SECS"@, "60.0"@)
                    &&& f.self_heal_trigger_threshold == int_setting(env@, "SELF_HEAL_TRIGGER_THRESHOLD"@, 2)
                    &&& f.self_heal_cooldown_secs@ == float_setting(env@, "SELF_HEAL_COOLDOWN_SECS"@, "300.0"@)
                    &&& f.model_registry_refresh_hours == int_setting(env@, "MODEL_REGISTRY_REFRESH_HOURS"@, 6)
                    &&& f.irst_high_censorship_start == int_setting(env@, "IRST_HIGH_CENSORSHIP_START"@, 18)
                    &&& f.irst_high_censorship_end == int_setting(env@, "IRST_HIGH_CENSORSHIP_END"@, 1)
                    &&& f.irst_ultra_stealth_start == int_setting(env@, "IRST_ULTRA_STEALTH_START"@, 20)
                    &&& f.irst_ultra_stealth_end == int_setting(env@, "IRST_ULTRA_STEALTH_END"@, 23)
                    &&& f.log_max_mb == int_setting(env@, "LOG_MAX_MB"@, 10)
                    &&& f.provider_fallback_order@.map_values(|x: String| x@) == split_char(
                        match env_value(env@, "PROVIDER_FALLBACK_ORDER"@) {
                            Some(v) => v,
                            None => "cloudflare_ai_gateway,cloudflare_workers_ai,cerebras,portkey"@,
                        },
                        ',',
                    )
                    &&& f.log_dir@ == match env_value(env@, "LOG_DIR"@) {
                        Some(v) => v,
                        None => "logs"@,
                    }
                },
            },
    {
        let enable_endpoint_validation = parse_bool(env, "ENABLE_ENDPOINT_VALIDATION", true);
        let enable_circuit_breaker = parse_bool(env, "ENABLE_CIRCUIT_BREAKER", true);
        let enable_model_registry = parse_bool(env, "ENABLE_MODEL_REGISTRY", true);
        let enable_retry_failover = parse_bool(env, "ENABLE_RETRY_FAILOVER", true);
        let enable_self_healing = parse_bool(env, "ENABLE_SELF_HEALING", true);
        let enable_structured_logging = parse_bool(env, "ENABLE_STRUCTURED_LOGGING", true);
        let enable_report_generation = parse_bool(env, "ENABLE_REPORT_GENERATION", true);
        let enable_anti_dpi_iran = parse_bool(env, "ENABLE_ANTI_DPI_IRAN", true);
        let enable_utls_evasion = parse_bool(env, "ENABLE_UTLS_EVASION", true);
        let enable_irst_routing = parse_bool(env, "ENABLE_IRST_ROUTING", true);
        let enable_compat_path_fix = parse_bool(env, "ENABLE_COMPAT_PATH_FIX", true);
        let enable_telemetry = parse_bool(env, "ENABLE_TELEMETRY", true);
        assert(numeric_settings()[0] == ("CIRCUIT_BREAKER_FAILURE_THRESHOLD", false));
        let circuit_breaker_failure_threshold = match parse_int(env, "CIRCUIT_BREAKER_FAILURE_THRESHOLD", 3) {
            Ok(v) => v,
            Err(e) => {
                assert(!setting_ok(env@, numeric_settings()[0].0@, numeric_settings()[0].1));
                return Err(e);
            },
        };
        assert(setting_ok(env@, numeric_settings()[0].0@, numeric_settings()[0].1));
        assert(numeric_settings()[1] == ("CIRCUIT_BREAKER_COOLDOWN_SECS", true));
        let circuit_breaker_cooldown_secs = match parse_float(env, "CIRCUIT_BREAKER_COOLDOWN_SECS", "60.0") {
            Ok(v) => v,
            Err(e) => {
                assert(!setting_ok(env@, numeric_settings()[1].0@, numeric_settings()[1].1));
                return Err(e);
            },
        };
        assert(setting_ok(env@, numeric_settings()[1].0@, numeric_settings()[1].1));
        assert(numeric_settings()[2] == ("CIRCUIT_BREAKER_HALF_OPEN_MAX_PROBES", false));
        let circuit_breaker_half_open_max_probes = match parse_int(env, "CIRCUIT_BREAKER_HALF_OPEN_MAX_PROBES", 1) {
            Ok(v) => v,
            Err(e) => {
                assert(!setting_ok(env@, numeric_settings()[2].0@, numeric_settings()[2].1));
                return Err(e);
            },
        };
        assert(setting_ok(env@, numeric_settings()[2].0@, numeric_settings()[2].1));
        assert(numeric_settings()[3] == ("RETRY_MAX_ATTEMPTS_400", false));
        let retry_max_attempts_400 = match parse_int(env, "RETRY_MAX_ATTEMPTS_400", 0) {
            Ok(v) => v,
            Err(e) => {
                assert(!setting_ok(env@, numeric_settings()[3].0@, numeric_settings()[3].1));
                return Err(e);
            },
        };
        assert(setting_ok(env@, numeric_settings()[3].0@, numeric_settings()[3].1));
        assert(numeric_settings()[4] == ("RETRY_MAX_ATTEMPTS_429", false));
        let retry_max_attempts_429 = match parse_int(env, "RETRY_MAX_ATTEMPTS_429", 5) {
            Ok(v) => v,
            Err(e) => {
                assert(!setting_ok(env@, numeric_settings()[4].0@, numeric_settings()[4].1));
                return Err(e);
            },
        };
        assert(setting_ok(env@, numeric_settings()[4].0@, numeric_settings()[4].1));
        assert(numeric_settings()[5] == ("RETRY_MAX_ATTEMPTS_5XX", false));
        let retry_max_attempts_5xx = match parse_int(env, "RETRY_MAX_ATTEMPTS_5XX", 3) {
            Ok(v) => v,
            Err(e) => {
                assert(!setting_ok(env@, numeric_settings()[5].0@, numeric_settings()[5].1));
                return Err(e);
            },
        };
        assert(setting_ok(env@, numeric_settings()[5].0@, numeric_settings()[5].1));
        assert(numeric_settings()[6] == ("RETRY_BACKOFF_CAP_SECS", true));
        let retry_backoff_cap_secs = match parse_float(env, "RETRY_BACKOFF_CAP_SECS", "60.0") {
            Ok(v) => v,
            Err(e) => {
                assert(!setting_ok(env@, numeric_settings()[6].0@, numeric_settings()[6].1));
                return Err(e);
            },
        };
        assert(setting_ok(env@, numeric_settings()[6].0@, numeric_settings()[6].1));
        assert(numeric_settings()[7] == ("SELF_HEAL_TRIGGER_THRESHOLD", false));
        let self_heal_trigger_threshold = match parse_int(env, "SELF_HEAL_TRIGGER_THRESHOLD", 2) {
            Ok(v) => v,
            Err(e) => {
                assert(!setting_ok(env@, numeric_settings()[7].0@, numeric_settings()[7].1));
                return Err(e);
            },
        };
        assert(setting_ok(env@, numeric_settings()[7].0@, numeric_settings()[7].1));
        assert(numeric_settings()[8] == ("SELF_HEAL_COOLDOWN_SECS", true));
        let self_heal_cooldown_secs = match parse_float(env, "SELF_HEAL_COOLDOWN_SECS", "300.0") {
            Ok(v) => v,
            Err(e) => {
                assert(!setting_ok(env@, numeric_settings()[8].0@, numeric_settings()[8].1));
                return Err(e);
            },
        };
        assert(setting_ok(env@, numeric_settings()[8].0@, numeric_settings()[8].1));
        assert(numeric_settings()[9] == ("MODEL_REGISTRY_REFRESH_HOURS", false));
        let model_registry_refresh_hours = match parse_int(env, "MODEL_REGISTRY_REFRESH_HOURS", 6) {
            Ok(v) => v,
            Err(e) => {
                assert(!setting_ok(env@, numeric_settings()[9].0@, numeric_settings()[9].1));
                return Err(e);
            },
        };
        assert(setting_ok(env@, numeric_settings()[9].0@, numeric_settings()[9].1));
        assert(numeric_settings()[10] == ("IRST_HIGH_CENSORSHIP_START", false));
        let irst_high_censorship_start = match parse_int(env, "IRST_HIGH_CENSORSHIP_START", 18) {
            Ok(v) => v,
            Err(e) => {
                assert(!setting_ok(env@, numeric_settings()[10].0@, numeric_settings()[10].1));
                return Err(e);
            },
        };
        assert(setting_ok(env@, numeric_settings()[10].0@, numeric_settings()[10].1));
        assert(numeric_settings()[11] == ("IRST_HIGH_CENSORSHIP_END", false));
        let irst_high_censorship_end = match parse_int(env, "IRST_HIGH_CENSORSHIP_END", 1) {
            Ok(v) => v,
            Err(e) => {
                assert(!setting_ok(env@, numeric_settings()[11].0@, numeric_settings()[11].1));
                return Err(e);
            },
        };
        assert(setting_ok(env@, numeric_settings()[11].0@, numeric_settings()[11].1));
        assert(numeric_settings()[12] == ("IRST_ULTRA_STEALTH_START", false));
        let irst_ultra_stealth_start = match parse_int(env, "IRST_ULTRA_STEALTH_START", 20) {
            Ok(v) => v,
            Err(e) => {
                assert(!setting_ok(env@, numeric_settings()[12].0@, numeric_settings()[12].1));
                return Err(e);
            },
        };
        assert(setting_ok(env@, numeric_settings()[12].0@, numeric_settings()[12].1));
        assert(numeric_settings()[13] == ("IRST_ULTRA_STEALTH_END", false));
        let irst_ultra_stealth_end = match parse_int(env, "IRST_ULTRA_STEALTH_END", 23) {
            Ok(v) => v,
            Err(e) => {
                assert(!setting_ok(env@, numeric_settings()[13].0@, numeric_settings()[13].1));
                return Err(e);
            },
        };
        assert(setting_ok(env@, numeric_settings()[13].0@, numeric_settings()[13].1));
        assert(numeric_settings()[14] == ("LOG_MAX_MB", false));
        let log_max_mb = match parse_int(env, "LOG_MAX_MB", 10) {
            Ok(v) => v,
            Err(e) => {
                assert(!setting_ok(env@, numeric_settings()[14].0@, numeric_settings()[14].1));
                return Err(e);
            },
        };
        assert(setting_ok(env@, numeric_settings()[14].0@, numeric_settings()[14].1));
        let provider_fallback_order = parse_csv(env, "PROVIDER_FALLBACK_ORDER", "cloudflare_ai_gateway,cloudflare_workers_ai,cerebras,portkey");
        let log_dir = parse_str(env, "LOG_DIR", "logs");
        Ok(FeatureFlags {
            enable_endpoint_validation,
            enable_circuit_breaker,
            enable_model_registry,
            enable_retry_failover,
            enable_self_healing,
            enable_structured_logging,
            enable_report_generation,
            enable_anti_dpi_iran,
            enable_utls_evasion,
            enable_irst_routing,
            enable_compat_path_fix,
            enable_telemetry,
            circuit_breaker_failure_threshold,
            circuit_breaker_cooldown_secs,
            circuit_breaker_half_open_max_probes,
            retry_max_attempts_400,
            retry_max_attempts_429,
            retry_max_attempts_5xx,
            retry_backoff_cap_secs,
            self_heal_trigger_threshold,
            self_heal_cooldown_secs,
            model_registry_refresh_hours,
            irst_high_censorship_start,
            irst_high_censorship_end,
            irst_ultra_stealth_start,
            irst_ultra_stealth_end,
            log_max_mb,
            provider_fallback_order,
            log_dir,
        })
    }
}

} // verus!
