//! Fail-safe population of the per-transport bridge files: which files must
//! exist, which transport each file serves, and the per-transport lines
//! recovered from the bridge history.
use vstd::prelude::*;
use crate::text::{has_sub, trim, to_chars, contains_str, trim_chars, string_of, ends_with, ends_with_str, eq_str};
use crate::ordering::{strictly_sorted, texts, sort_dedup};

verus! {

/// The transport families that get a `<transport>.txt` file.
pub open spec fn transports_spec() -> Seq<Seq<char>> {
    seq!["obfs4"@, "snowflake"@, "meek_lite"@, "webtunnel"@, "vanilla"@, "conjure"@, "meek-azure"@]
}

/// The transport families that get a `<transport>.txt` file.
pub fn transports() -> (v: Vec<&'static str>)
    ensures
        v@.map_values(|s: &'static str| s@) == transports_spec(),
{
    let v = vec!["obfs4", "snowflake", "meek_lite", "webtunnel", "vanilla", "conjure", "meek-azure"];
    assert(v@.map_values(|s: &'static str| s@) =~= transports_spec());
    v
}

/// The transport a bridge file serves, inferred from its name.
pub open spec fn transport_for_filename_spec(name: Seq<char>) -> Option<Seq<char>> {
    if has_sub(name, "obfs4"@) {
        Some("obfs4"@)
    } else if has_sub(name, "webtunnel"@) {
        Some("webtunnel"@)
    } else if has_sub(name, "vanilla"@) {
        Some("vanilla"@)
    } else if has_sub(name, "snowflake"@) {
        Some("snowflake"@)
    } else if has_sub(name, "meek-azure"@) {
        Some("meek-azure"@)
    } else if has_sub(name, "meek"@) {
        Some("meek_lite"@)
    } else if has_sub(name, "conjure"@) {
        Some("conjure"@)
    } else {
        None
    }
}

/// The transport a bridge file serves, inferred from its name.
pub fn transport_for_filename(name: &str) -> (r: Option<&'static str>)
    ensures
        match r {
            Some(t) => transport_for_filename_spec(name@) == Some(t@),
            None => transport_for_filename_spec(name@) is None,
        },
{
    let v = to_chars(name);
    if contains_str(&v, "obfs4") {
        Some("obfs4")
    } else if contains_str(&v, "webtunnel") {
        Some("webtunnel")
    } else if contains_str(&v, "vanilla") {
        Some("vanilla")
    } else if contains_str(&v, "snowflake") {
        Some("snowflake")
    } else if contains_str(&v, "meek-azure") {
        Some("meek-azure")
    } else if contains_str(&v, "meek") {
        Some("meek_lite")
    } else if contains_str(&v, "conjure") {
        Some("conjure")
    } else {
        None
    }
}

/// The transports whose fallback lines fill the file `name`: every
/// transport for the all-working list, Snowflake then WebTunnel for the
/// list meant for a cut of the international internet, else the transport
/// the name names (none when it names none).
pub open spec fn fallback_transports_spec(name: Seq<char>) -> Seq<Seq<char>> {
    if name == "iran_likely_working_all.txt"@ {
        transports_spec()
    } else if name == "iran_likely_working_nin.txt"@ {
        seq!["snowflake"@, "webtunnel"@]
    } else {
        match transport_for_filename_spec(name) {
            Some(t) => seq![t],
            None => Seq::empty(),
        }
    }
}

/// The transports whose fallback lines fill the file `name` (see
/// [`fallback_transports_spec`]).
pub fn fallback_transports_for_name(name: &str) -> (v: Vec<&'static str>)
    ensures
        v@.map_values(|s: &'static str| s@) == fallback_transports_spec(name@),
{
    let nv = to_chars(name);
    if eq_str(&nv, "iran_likely_working_all.txt") {
        transports()
    } else if eq_str(&nv, "iran_likely_working_nin.txt") {
        let v = vec!["snowflake", "webtunnel"];
        assert(v@.map_values(|s: &'static str| s@) =~= fallback_transports_spec(name@));
        v
    } else {
        match transport_for_filename(name) {
            Some(t) => {
                let v = vec![t];
                assert(v@.map_values(|s: &'static str| s@) =~= fallback_transports_spec(name@));
                v
            },
            None => {
                let v: Vec<&'static str> = Vec::new();
                assert(v@.map_values(|s: &'static str| s@) =~= fallback_transports_spec(name@));
                v
            },
        }
    }
}

/// Whether a file found in the bridge directory is one the fail-safe
/// fills: a `.txt` file other than the blocked list.
pub open spec fn is_populated_txt_spec(name: Seq<char>) -> bool {
    ends_with(name, ".txt"@) && name != "iran_blocked.txt"@
}

/// Whether a file found in the bridge directory is one the fail-safe
/// fills (see [`is_populated_txt_spec`]).
pub fn is_populated_txt(name: &str) -> (b: bool)
    ensures
        b == is_populated_txt_spec(name@),
{
    let nv = to_chars(name);
    ends_with_str(&nv, ".txt") && !eq_str(&nv, "iran_blocked.txt")
}

/// The file names of one transport family.
pub open spec fn family_names(stem: Seq<char>, with_ipv6: bool, with_ipv6_72h: bool) -> Seq<Seq<char>> {
    let base = seq![stem + ".txt"@, stem + "_72h.txt"@, stem + "_tested.txt"@];
    let v6 = if with_ipv6 { seq![stem + "_ipv6.txt"@, stem + "_72h_ipv6.txt"@, stem + "_ipv6_tested.txt"@] } else { Seq::empty() };
    let v6_72 = if with_ipv6 && with_ipv6_72h { seq![stem + "_ipv6_72h.txt"@] } else { Seq::empty() };
    base + v6 + v6_72
}

/// Every protocol file the fail-safe guarantees to be non-empty (before
/// sorting and de-duplication).
pub open spec fn required_names_spec() -> Seq<Seq<char>> {
    family_names("obfs4"@, true, true) + family_names("vanilla"@, true, true) + family_names("webtunnel"@, true, true)
        + family_names("snowflake"@, true, false) + family_names("meek_lite"@, true, false)
        + family_names("conjure"@, false, false) + family_names("meek-azure"@, false, false) + seq![
        "iran_likely_working_all.txt"@,
        "iran_likely_working_obfs4.txt"@,
        "iran_likely_working_webtunnel.txt"@,
        "iran_likely_working_vanilla.txt"@,
        "iran_likely_working_snowflake.txt"@,
        "iran_likely_working_nin.txt"@,
        "tested_global_obfs4.txt"@,
        "tested_global_vanilla.txt"@,
        "tested_global_webtunnel.txt"@,
    ]
}

fn name_of(stem: &str, suffix: &str) -> (s: String)
    ensures
        s@ == stem@ + suffix@,
{
    let mut s = String::from_str(stem);
    s.append(suffix);
    s
}

fn push_family(names: &mut Vec<String>, stem: &str, with_ipv6: bool, with_ipv6_72h: bool)
    ensures
        texts(final(names)@) == texts(old(names)@) + family_names(stem@, with_ipv6, with_ipv6_72h),
{
    names.push(name_of(stem, ".txt"));
    names.push(name_of(stem, "_72h.txt"));
    names.push(name_of(stem, "_tested.txt"));
    if with_ipv6 {
        names.push(name_of(stem, "_ipv6.txt"));
        names.push(name_of(stem, "_72h_ipv6.txt"));
        names.push(name_of(stem, "_ipv6_tested.txt"));
        if with_ipv6_72h {
            names.push(name_of(stem, "_ipv6_72h.txt"));
        }
    }
    assert(texts(names@) =~= texts(old(names)@) + family_names(stem@, with_ipv6, with_ipv6_72h));
}

/// Every protocol file name the fail-safe guarantees to be non-empty,
/// sorted and without duplicates.
pub fn required_protocol_txt_names() -> (names: Vec<String>)
    ensures
        strictly_sorted(texts(names@)),
        forall|x: Seq<char>| texts(names@).contains(x) <==> required_names_spec().contains(x),
{
    let mut names: Vec<String> = Vec::new();
    push_family(&mut names, "obfs4", true, true);
    push_family(&mut names, "vanilla", true, true);
    push_family(&mut names, "webtunnel", true, true);
    push_family(&mut names, "snowflake", true, false);
    push_family(&mut names, "meek_lite", true, false);
    push_family(&mut names, "conjure", false, false);
    push_family(&mut names, "meek-azure", false, false);
    let ghost before = texts(names@);
    names.push(String::from_str("iran_likely_working_all.txt"));
    names.push(String::from_str("iran_likely_working_obfs4.txt"));
    names.push(String::from_str("iran_likely_working_webtunnel.txt"));
    names.push(String::from_str("iran_likely_working_vanilla.txt"));
    names.push(String::from_str("iran_likely_working_snowflake.txt"));
    names.push(String::from_str("iran_likely_working_nin.txt"));
    names.push(String::from_str("tested_global_obfs4.txt"));
    names.push(String::from_str("tested_global_vanilla.txt"));
    names.push(String::from_str("tested_global_webtunnel.txt"));
    assert(texts(names@) =~= required_names_spec());
    sort_dedup(names)
}

/// One entry of the bridge history, reduced to what the fail-safe reads:
/// its `transport` and `raw` fields when they hold strings (both `None` for
/// an entry that is not an object).
#[derive(Debug, Clone, PartialEq, Eq)]
pub struct HistoryEntry {
    pub transport: Option<String>,
    pub raw: Option<String>,
}

/// The trimmed raw lines of the entries of `transport`, in history order.
pub open spec fn lines_for(history: Seq<HistoryEntry>, transport: Seq<char>) -> Seq<Seq<char>>
    decreases history.len(),
{
    if history.len() == 0 {
        Seq::empty()
    } else {
        let e = history.last();
        let rest = lines_for(history.drop_last(), transport);
        let t = match e.transport { Some(t) => t@, None => Seq::empty() };
        let raw = match e.raw { Some(r) => r@, None => Seq::empty() };
        if t == transport && raw.len() > 0 { rest.push(trim(raw)) } else { rest }
    }
}

/// The non-empty raw lines of all entries, in history order.
pub open spec fn all_raw_spec(history: Seq<HistoryEntry>) -> Seq<Seq<char>>
    decreases history.len(),
{
    if history.len() == 0 {
        Seq::empty()
    } else {
        let e = history.last();
        let rest = all_raw_spec(history.drop_last());
        match e.raw {
            Some(r) => if r@.len() > 0 { rest.push(r@) } else { rest },
            None => rest,
        }
    }
}

fn lines_for_exec(history: &Vec<HistoryEntry>, transport: &str) -> (r: Vec<String>)
    ensures
        texts(r@) == lines_for(history@, transport@),
{
    let tv = to_chars(transport);
    let mut r: Vec<String> = Vec::new();
    let mut k: usize = 0;
    while k < history.len()
        invariant
            k <= history.len(),
            tv@ == transport@,
            texts(r@) == lines_for(history@.take(k as int), transport@),
        decreases history.len() - k,
    {
        assert(history@.take(k + 1).drop_last() =~= history@.take(k as int));
        let e = &history[k];
        let t = match &e.transport {
            Some(t) => to_chars(t.as_str()),
            None => Vec::new(),
        };
        let raw = match &e.raw {
            Some(x) => to_chars(x.as_str()),
            None => Vec::new(),
        };
        if crate::text::chars_eq(&t, &tv) && raw.len() > 0 {
            let line = trim_chars(&raw);
            r.push(string_of(&line));
        }
        assert(texts(r@) =~= lines_for(history@.take(k + 1), transport@));
        k += 1;
    }
    assert(history@.take(k as int) =~= history@);
    r
}

/// For each transport of [`transports`] (in that order), the trimmed raw
/// lines the history holds for it.
pub fn transport_map(history: &Vec<HistoryEntry>) -> (m: Vec<(&'static str, Vec<String>)>)
    ensures
        m@.len() == transports_spec().len(),
        forall|i: int| 0 <= i < m@.len() ==> (#[trigger] m@[i]).0@ == transports_spec()[i]
            && texts(m@[i].1@) == lines_for(history@, transports_spec()[i]),
{
    let ts = transports();
    let mut m: Vec<(&'static str, Vec<String>)> = Vec::new();
    let mut i: usize = 0;
    while i < ts.len()
        invariant
            i <= ts.len(),
            ts@.map_values(|s: &'static str| s@) == transports_spec(),
            m@.len() == i,
            forall|j: int| 0 <= j < i ==> (#[trigger] m@[j]).0@ == transports_spec()[j]
                && texts(m@[j].1@) == lines_for(history@, transports_spec()[j]),
        decreases ts.len() - i,
    {
        assert(ts@[i as int]@ == transports_spec()[i as int]);
        let lines = lines_for_exec(history, ts[i]);
        m.push((ts[i], lines));
        i += 1;
    }
    m
}

/// Every non-empty raw line of the history, in order (any transport).
pub fn all_raw_bridges(history: &Vec<HistoryEntry>) -> (r: Vec<String>)
    ensures
        texts(r@) == all_raw_spec(history@),
{
    let mut r: Vec<String> = Vec::new();
    let mut k: usize = 0;
    while k < history.len()
        invariant
            k <= history.len(),
            texts(r@) == all_raw_spec(history@.take(k as int)),
        decreases history.len() - k,
    {
        assert(history@.take(k + 1).drop_last() =~= history@.take(k as int));
        match &history[k].raw {
            Some(x) => {
                if x.as_str().unicode_len() > 0 {
                    r.push(x.clone());
                }
            },
            None => {},
        }
        assert(texts(r@) =~= all_raw_spec(history@.take(k + 1)));
        k += 1;
    }
    assert(history@.take(k as int) =~= history@);
    r
}

/// The bridge directory named by the command line (`args[1]`), `"bridge"`
/// by default.
pub fn bridge_dir_from_args(args: &Vec<String>) -> (d: String)
    ensures
        d@ == if args@.len() > 1 { args@[1]@ } else { "bridge"@ },
{
    if args.len() > 1 {
        args[1].clone()
    } else {
        String::from_str("bridge")
    }
}

} // verus!
