//! The text side of exporting bridge files: how a stored bridge line is
//! written out, what a per-transport bridge file holds, when an existing
//! file is kept, and which folder of the distribution archive a file goes
//! to. Reading and writing the files is the caller's.
use vstd::prelude::*;
use crate::text::{trim, starts_with, has_sub, ends_with, decimal, to_chars, trim_chars, starts_with_str, slice_range,
    string_of, push_str, push_char, push_decimal, contains_str, ends_with_str};
use crate::ordering::{sort_dedup, strictly_sorted, texts};

verus! {

/// Transport name and file stem of every exported transport, in export order.
pub open spec fn transport_filenames_spec() -> Seq<(&'static str, &'static str)> {
    seq![("obfs4", "obfs4"), ("webtunnel", "webtunnel"), ("vanilla", "vanilla"), ("snowflake", "snowflake"), (
        "meek_lite",
        "meek_lite",
    )]
}

/// Transport name and file stem of every exported transport.
pub fn transport_filenames() -> (t: Vec<(&'static str, &'static str)>)
    ensures
        t@ == transport_filenames_spec(),
{
    let t = vec![("obfs4", "obfs4"), ("webtunnel", "webtunnel"), ("vanilla", "vanilla"), ("snowflake", "snowflake"), (
        "meek_lite",
        "meek_lite",
    )];
    assert(t@ =~= transport_filenames_spec());
    t
}

/// A stored line as exported: trimmed, without a leading `Bridge `.
pub open spec fn save_line_spec(raw: Seq<char>) -> Seq<char> {
    let t = trim(raw);
    if starts_with(t, "Bridge "@) {
        t.skip(7)
    } else {
        t
    }
}

/// A stored line as exported: trimmed, without a leading `Bridge `.
pub fn save_line(raw: &str) -> (s: String)
    ensures
        s@ == save_line_spec(raw@),
{
    let t = trim_chars(&to_chars(raw));
    if starts_with_str(&t, "Bridge ") {
        proof {
            reveal_strlit("Bridge ");
        }
        string_of(&slice_range(&t, 7, t.len()))
    } else {
        string_of(&t)
    }
}

/// Whether `x` is the trimmed text of one of `lines` and not empty.
pub open spec fn is_clean_line(lines: Seq<String>, x: Seq<char>) -> bool {
    x.len() > 0 && exists|i: int| 0 <= i < lines.len() && trim(#[trigger] lines[i]@) == x
}

/// The lines of a bridge file: every line trimmed, blanks dropped, sorted,
/// each once.
pub fn clean_bridge_lines(lines: &Vec<String>) -> (r: Vec<String>)
    ensures
        strictly_sorted(texts(r@)),
        forall|x: Seq<char>| texts(r@).contains(x) <==> is_clean_line(lines@, x),
{
    let mut kept: Vec<String> = Vec::new();
    let mut k: usize = 0;
    while k < lines.len()
        invariant
            k <= lines.len(),
            forall|x: Seq<char>|
                texts(kept@).contains(x) <==> (x.len() > 0 && exists|i: int|
                    0 <= i < k && trim(#[trigger] lines@[i]@) == x),
        decreases lines.len() - k,
    {
        let t = trim_chars(&to_chars(lines[k].as_str()));
        let ghost old_kept = texts(kept@);
        if t.len() > 0 {
            kept.push(string_of(&t));
        }
        proof {
            assert forall|x: Seq<char>|
                texts(kept@).contains(x) <==> (x.len() > 0 && exists|i: int|
                    0 <= i < k + 1 && trim(#[trigger] lines@[i]@) == x) by {
                if t@.len() > 0 {
                    assert(texts(kept@) =~= old_kept.push(t@));
                    if texts(kept@).contains(x) {
                        let j = choose|j: int| 0 <= j < texts(kept@).len() && texts(kept@)[j] == x;
                        if j < old_kept.len() {
                            assert(old_kept[j] == x);
                            assert(old_kept.contains(x));
                        }
                    }
                    if old_kept.contains(x) {
                        let j = choose|j: int| 0 <= j < old_kept.len() && old_kept[j] == x;
                        assert(texts(kept@)[j] == x);
                    }
                    if x == t@ {
                        assert(texts(kept@)[old_kept.len() as int] == x);
                    }
                } else {
                    assert(texts(kept@) == old_kept);
                }
                if x.len() > 0 && exists|i: int| 0 <= i < k + 1 && trim(#[trigger] lines@[i]@) == x {
                    let i = choose|i: int| 0 <= i < k + 1 && trim(#[trigger] lines@[i]@) == x;
                    if i == k {
                        assert(t@ == x);
                    }
                }
            }
        }
        k += 1;
    }
    sort_dedup(kept)
}

/// The lines joined, each followed by a newline.
pub open spec fn file_body_spec(lines: Seq<Seq<char>>) -> Seq<char>
    decreases lines.len(),
{
    if lines.len() == 0 {
        Seq::empty()
    } else {
        file_body_spec(lines.drop_last()) + lines.last() + seq!['\n']
    }
}

/// The file's text: each line followed by a newline.
pub fn bridge_file_body(lines: &Vec<String>) -> (s: String)
    ensures
        s@ == file_body_spec(texts(lines@)),
{
    let mut s = String::new();
    let mut k: usize = 0;
    while k < lines.len()
        invariant
            k <= lines.len(),
            s@ == file_body_spec(texts(lines@).take(k as int)),
        decreases lines.len() - k,
    {
        assert(texts(lines@).take(k + 1).drop_last() =~= texts(lines@).take(k as int));
        push_str(&mut s, lines[k].as_str());
        push_char(&mut s, '\n');
        k += 1;
    }
    assert(texts(lines@).take(lines.len() as int) =~= texts(lines@));
    s
}

/// Whether an export leaves the file as it is: only when there is nothing
/// to write and the file exists with content (never replace a non-empty
/// file with an empty one).
pub fn keeps_existing_file(clean_count: usize, existing_len: Option<u64>) -> (keep: bool)
    ensures
        keep == (clean_count == 0 && match existing_len {
            Some(n) => n > 0,
            None => false,
        }),
{
    clean_count == 0 && match existing_len {
        Some(n) => n > 0,
        None => false,
    }
}

/// The archive folder of a bridge file: `None` for a file not ending in
/// `.txt`; tested files go to "Tested (Verified)", files of the recent
/// window to "Fresh (Last Nh)", the rest to "Full Archive".
pub open spec fn zip_folder_spec(fname: Seq<char>, recent_hours: u64) -> Option<Seq<char>> {
    if !ends_with(fname, ".txt"@) {
        None
    } else if has_sub(fname, "_tested"@) {
        Some("Tor Bridges/Tested (Verified)"@)
    } else if has_sub(fname, "_"@ + decimal(recent_hours as nat) + "h"@) {
        Some("Tor Bridges/Fresh (Last "@ + decimal(recent_hours as nat) + "h)"@)
    } else {
        Some("Tor Bridges/Full Archive"@)
    }
}

/// The archive folder a bridge file goes to.
pub fn zip_folder(fname: &str, recent_hours: u64) -> (r: Option<String>)
    ensures
        match r {
            Some(f) => zip_folder_spec(fname@, recent_hours) == Some(f@),
            None => zip_folder_spec(fname@, recent_hours) is None,
        },
{
    let f = to_chars(fname);
    if !ends_with_str(&f, ".txt") {
        return None;
    }
    if contains_str(&f, "_tested") {
        return Some(String::from_str("Tor Bridges/Tested (Verified)"));
    }
    let mut marker = String::from_str("_");
    push_decimal(&mut marker, recent_hours);
    push_str(&mut marker, "h");
    let mv = to_chars(marker.as_str());
    if crate::text::contains(&f, &mv) {
        let mut folder = String::from_str("Tor Bridges/Fresh (Last ");
        push_decimal(&mut folder, recent_hours);
        push_str(&mut folder, "h)");
        Some(folder)
    } else {
        Some(String::from_str("Tor Bridges/Full Archive"))
    }
}


/// What exporting reads of a stored bridge: its transport and line, whether
/// its endpoint is IPv6, whether it was first seen within the recent
/// window, and its last test result.
#[derive(Debug, Clone, PartialEq, Eq)]
pub struct ExportRecord {
    pub transport: String,
    pub raw: String,
    pub ipv6: bool,
    pub recent: bool,
    pub test_pass: Option<bool>,
}

/// Which records of a family a file holds.
#[derive(Debug, Clone, Copy, PartialEq, Eq)]
pub enum Selection {
    All,
    Recent,
    Tested,
}

/// `r` goes to the file of `transport`, address family `ipv6` and
/// `selection`: a non-empty line of that transport and family, first seen
/// recently or last tested good where the selection asks it.
pub open spec fn picked(r: ExportRecord, transport: Seq<char>, ipv6: bool, selection: Selection) -> bool {
    &&& r.transport@ == transport
    &&& r.ipv6 == ipv6
    &&& r.raw@.len() > 0
    &&& match selection {
        Selection::All => true,
        Selection::Recent => r.recent,
        Selection::Tested => r.test_pass == Some(true),
    }
}

/// The exported lines of the records picked, in order.
pub open spec fn picked_lines(rs: Seq<ExportRecord>, transport: Seq<char>, ipv6: bool, selection: Selection) -> Seq<Seq<char>>
    decreases rs.len(),
{
    if rs.len() == 0 {
        Seq::empty()
    } else {
        let rest = picked_lines(rs.drop_last(), transport, ipv6, selection);
        if picked(rs.last(), transport, ipv6, selection) {
            rest.push(save_line_spec(rs.last().raw@))
        } else {
            rest
        }
    }
}

/// One file of a standard export: its name and the lines it is built from.
#[derive(Debug, Clone, PartialEq, Eq)]
pub struct ExportFile {
    pub name: String,
    pub lines: Vec<String>,
}

/// The six files of a transport: name suffix, address family, selection.
pub open spec fn file_kinds(recent_hours: u64) -> Seq<(Seq<char>, bool, Selection)> {
    let h = decimal(recent_hours as nat);
    seq![
        (".txt"@, false, Selection::All),
        ("_ipv6.txt"@, true, Selection::All),
        ("_"@ + h + "h.txt"@, false, Selection::Recent),
        ("_"@ + h + "h_ipv6.txt"@, true, Selection::Recent),
        ("_tested.txt"@, false, Selection::Tested),
        ("_ipv6_tested.txt"@, true, Selection::Tested),
    ]
}

fn picked_exec(r: &ExportRecord, transport: &str, ipv6: bool, selection: Selection) -> (b: bool)
    ensures
        b == picked(*r, transport@, ipv6, selection),
{
    let tv = to_chars(r.transport.as_str());
    if !crate::text::eq_str(&tv, transport) || r.ipv6 != ipv6 || r.raw.as_str().unicode_len() == 0 {
        return false;
    }
    match selection {
        Selection::All => true,
        Selection::Recent => r.recent,
        Selection::Tested => match r.test_pass {
            Some(p) => p,
            None => false,
        },
    }
}

fn lines_picked(rs: &Vec<ExportRecord>, transport: &str, ipv6: bool, selection: Selection) -> (v: Vec<String>)
    ensures
        texts(v@) == picked_lines(rs@, transport@, ipv6, selection),
{
    let mut out: Vec<String> = Vec::new();
    let mut i: usize = 0;
    while i < rs.len()
        invariant
            i <= rs@.len(),
            texts(out@) == picked_lines(rs@.take(i as int), transport@, ipv6, selection),
        decreases rs@.len() - i,
    {
        assert(rs@.take(i + 1).drop_last() =~= rs@.take(i as int));
        assert(rs@.take(i + 1).last() == rs@[i as int]);
        if picked_exec(&rs[i], transport, ipv6, selection) {
            let ghost before = texts(out@);
            let l = save_line(rs[i].raw.as_str());
            out.push(l);
            assert(texts(out@) =~= before.push(save_line_spec(rs@[i as int].raw@)));
        }
        i += 1;
    }
    assert(rs@.take(rs@.len() as int) =~= rs@);
    out
}

/// The standard export: for each transport in export order, its six files
/// (all, IPv6, recent, recent IPv6, tested, tested IPv6), each named by the
/// transport's stem and holding the exported lines of the records picked.
pub fn standard_files(records: &Vec<ExportRecord>, recent_hours: u64) -> (files: Vec<ExportFile>)
    ensures
        files@.len() == 30,
        forall|t: int, k: int|
            0 <= t < 5 && 0 <= k < 6 ==> {
                let f = #[trigger] files@[6 * t + k];
                let kind = file_kinds(recent_hours)[k];
                &&& f.name@ == transport_filenames_spec()[t].1@ + kind.0
                &&& texts(f.lines@) == picked_lines(records@, transport_filenames_spec()[t].0@, kind.1, kind.2)
            },
{
    let table = transport_filenames();
    let mut hours = String::new();
    push_decimal(&mut hours, recent_hours);
    let mut recent_suffix = String::from_str("_");
    push_str(&mut recent_suffix, hours.as_str());
    let mut recent_v6_suffix = String::from_str("_");
    push_str(&mut recent_v6_suffix, hours.as_str());
    push_str(&mut recent_suffix, "h.txt");
    push_str(&mut recent_v6_suffix, "h_ipv6.txt");
    let mut files: Vec<ExportFile> = Vec::new();
    let mut t: usize = 0;
    while t < 5
        invariant
            t <= 5,
            table@ == transport_filenames_spec(),
            recent_suffix@ == file_kinds(recent_hours)[2].0,
            recent_v6_suffix@ == file_kinds(recent_hours)[3].0,
            files@.len() == 6 * t,
            forall|u: int, k: int|
                0 <= u < t && 0 <= k < 6 ==> {
                    let f = #[trigger] files@[6 * u + k];
                    let kind = file_kinds(recent_hours)[k];
                    &&& f.name@ == transport_filenames_spec()[u].1@ + kind.0
                    &&& texts(f.lines@) == picked_lines(records@, transport_filenames_spec()[u].0@, kind.1, kind.2)
                },
        decreases 5 - t,
    {
        let (transport, stem) = table[t];
        let ghost start = files@.len();
        let mut k: usize = 0;
        while k < 6
            invariant
                k <= 6,
                t < 5,
                table@ == transport_filenames_spec(),
                transport == transport_filenames_spec()[t as int].0,
                stem == transport_filenames_spec()[t as int].1,
                recent_suffix@ == file_kinds(recent_hours)[2].0,
                recent_v6_suffix@ == file_kinds(recent_hours)[3].0,
                start == 6 * t,
                files@.len() == 6 * t + k,
                forall|u: int, j: int|
                    0 <= u < t && 0 <= j < 6 ==> {
                        let f = #[trigger] files@[6 * u + j];
                        let kind = file_kinds(recent_hours)[j];
                        &&& f.name@ == transport_filenames_spec()[u].1@ + kind.0
                        &&& texts(f.lines@) == picked_lines(records@, transport_filenames_spec()[u].0@, kind.1, kind.2)
                    },
                forall|j: int|
                    0 <= j < k ==> {
                        let f = #[trigger] files@[6 * t + j];
                        let kind = file_kinds(recent_hours)[j];
                        &&& f.name@ == transport_filenames_spec()[t as int].1@ + kind.0
                        &&& texts(f.lines@) == picked_lines(records@, transport_filenames_spec()[t as int].0@, kind.1, kind.2)
                    },
            decreases 6 - k,
        {
            let ghost kind = file_kinds(recent_hours)[k as int];
            let (ipv6, selection) = if k == 0 {
                (false, Selection::All)
            } else if k == 1 {
                (true, Selection::All)
            } else if k == 2 {
                (false, Selection::Recent)
            } else if k == 3 {
                (true, Selection::Recent)
            } else if k == 4 {
                (false, Selection::Tested)
            } else {
                (true, Selection::Tested)
            };
            let mut name = String::from_str(stem);
            if k == 0 {
                push_str(&mut name, ".txt");
            } else if k == 1 {
                push_str(&mut name, "_ipv6.txt");
            } else if k == 2 {
                push_str(&mut name, recent_suffix.as_str());
            } else if k == 3 {
                push_str(&mut name, recent_v6_suffix.as_str());
            } else if k == 4 {
                push_str(&mut name, "_tested.txt");
            } else {
                push_str(&mut name, "_ipv6_tested.txt");
            }
            assert(ipv6 == kind.1 && selection == kind.2);
            let lines = lines_picked(records, transport, ipv6, selection);
            let ghost before = files@;
            files.push(ExportFile { name, lines });
            assert forall|u: int, j: int|
                0 <= u < t && 0 <= j < 6 implies {
                    let f = #[trigger] files@[6 * u + j];
                    let kd = file_kinds(recent_hours)[j];
                    &&& f.name@ == transport_filenames_spec()[u].1@ + kd.0
                    &&& texts(f.lines@) == picked_lines(records@, transport_filenames_spec()[u].0@, kd.1, kd.2)
                } by {
                assert(6 * u + j < 6 * t) by (nonlinear_arith)
                    requires 0 <= u < t, 0 <= j < 6;
                assert(files@[6 * u + j] == before[6 * u + j]);
            }
            assert forall|j: int|
                0 <= j < k + 1 implies {
                    let f = #[trigger] files@[6 * t + j];
                    let kd = file_kinds(recent_hours)[j];
                    &&& f.name@ == transport_filenames_spec()[t as int].1@ + kd.0
                    &&& texts(f.lines@) == picked_lines(records@, transport_filenames_spec()[t as int].0@, kd.1, kd.2)
                } by {
                if j < k {
                    assert(files@[6 * t + j] == before[6 * t + j]);
                }
            }
            k += 1;
        }
        t += 1;
    }
    files
}

/// Header of the Iran pack, stamped `generated`.
pub open spec fn iran_pack_header(generated: Seq<char>) -> Seq<char> {
    "# Tor Bridge Iran Pack \u{2014} sorted by Iran effectiveness score\n"@ + "# Generated: "@ + generated + "\n"@
        + "# Usage: paste lines below into Tor Browser \u{2192} Settings \u{2192} Connection \u{2192} Bridges\n\n"@
}

/// Header of the pack for a cut of the international internet.
pub open spec fn cut_pack_header() -> Seq<char> {
    "# Bridges for Iranian Internet Cut (\u{634}\u{628}\u{6a9}\u{647} \u{645}\u{644}\u{6cc})\n"@
        + "# These bridges are most likely to work when international internet is blocked.\n"@
        + "# Priority: Snowflake > WebTunnel (CDN) > obfs4 port 443\n\n"@
}

/// The exported lines of the stored lines, each on a line of its own;
/// empty stored lines and empty exported lines are left out.
pub open spec fn pack_lines(raws: Seq<Seq<char>>) -> Seq<char>
    decreases raws.len(),
{
    if raws.len() == 0 {
        Seq::empty()
    } else {
        let rest = pack_lines(raws.drop_last());
        let l = save_line_spec(raws.last());
        if raws.last().len() > 0 && l.len() > 0 {
            rest + l + "\n"@
        } else {
            rest
        }
    }
}

fn push_pack_lines(body: &mut String, raws: &Vec<String>)
    ensures
        final(body)@ == old(body)@ + pack_lines(texts(raws@)),
{
    let mut i: usize = 0;
    while i < raws.len()
        invariant
            i <= raws@.len(),
            body@ == old(body)@ + pack_lines(texts(raws@).take(i as int)),
        decreases raws@.len() - i,
    {
        assert(texts(raws@).take(i + 1).drop_last() =~= texts(raws@).take(i as int));
        assert(texts(raws@).take(i + 1).last() == raws@[i as int]@);
        if raws[i].as_str().unicode_len() > 0 {
            let l = save_line(raws[i].as_str());
            if l.as_str().unicode_len() > 0 {
                push_str(body, l.as_str());
                push_str(body, "\n");
            }
        }
        i += 1;
    }
    assert(texts(raws@).take(raws@.len() as int) =~= texts(raws@));
}

/// The Iran pack file: its header stamped `generated`, then the stored
/// lines of the scorer's top bridges in its order.
pub fn iran_pack_body(generated: &str, raws: &Vec<String>) -> (b: String)
    ensures
        b@ == iran_pack_header(generated@) + pack_lines(texts(raws@)),
{
    let mut b = String::from_str("# Tor Bridge Iran Pack \u{2014} sorted by Iran effectiveness score\n");
    push_str(&mut b, "# Generated: ");
    push_str(&mut b, generated);
    push_str(&mut b, "\n");
    push_str(&mut b, "# Usage: paste lines below into Tor Browser \u{2192} Settings \u{2192} Connection \u{2192} Bridges\n\n");
    push_pack_lines(&mut b, raws);
    b
}

/// The Iran pack file stamped with the UTC minute of the unix instant
/// `secs`; `None` when chrono cannot render the instant.
pub fn iran_pack_body_at(secs: i64, raws: &Vec<String>) -> (b: Option<String>)
    ensures
        match b {
            Some(body) => crate::timefmt::minute_text(secs) matches Some(g) && body@ == iran_pack_header(g)
                + pack_lines(texts(raws@)),
            None => crate::timefmt::minute_text(secs) is None,
        },
{
    match crate::timefmt::utc_minute(secs) {
        Some(generated) => Some(iran_pack_body(generated.as_str(), raws)),
        None => None,
    }
}

/// The cut pack file: its header, then the stored lines of the scorer's
/// cut-mode bridges in its order.
pub fn cut_pack_body(raws: &Vec<String>) -> (b: String)
    ensures
        b@ == cut_pack_header() + pack_lines(texts(raws@)),
{
    let mut b = String::from_str("# Bridges for Iranian Internet Cut (\u{634}\u{628}\u{6a9}\u{647} \u{645}\u{644}\u{6cc})\n");
    push_str(&mut b, "# These bridges are most likely to work when international internet is blocked.\n");
    push_str(&mut b, "# Priority: Snowflake > WebTunnel (CDN) > obfs4 port 443\n\n");
    push_pack_lines(&mut b, raws);
    b
}

} // verus!
