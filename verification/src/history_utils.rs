//! Timestamps of legacy bridge-history entries: which timestamp an entry
//! expires by, and which entries a retention cutoff keeps. Reading the
//! instant a timestamp text denotes is the caller's.
use vstd::prelude::*;

verus! {

/// An entry of a legacy history object as far as its timestamps go: a
/// bare timestamp string, an object (with its `first_seen` and `last_seen`
/// fields when they hold strings), or any other value.
#[derive(Debug, Clone, PartialEq, Eq)]
pub enum HistoryValue {
    Text(String),
    Object { first_seen: Option<String>, last_seen: Option<String> },
    Other,
}

/// The text of an optional string.
pub open spec fn opt_text(o: Option<String>) -> Option<Seq<char>> {
    match o {
        Some(s) => Some(s@),
        None => None,
    }
}

/// The timestamp an entry expires by: a string entry is its own
/// timestamp; an object's preferred field (`last_seen`, or `first_seen`
/// when `prefer_last_seen` is false) when it is a non-empty string, else
/// its other field when that is a string (even an empty one); nothing for
/// any other value.
pub open spec fn entry_timestamp_spec(entry: HistoryValue, prefer_last_seen: bool) -> Option<Seq<char>> {
    match entry {
        HistoryValue::Text(s) => Some(s@),
        HistoryValue::Object { first_seen, last_seen } => {
            let (preferred, fallback) = if prefer_last_seen {
                (opt_text(last_seen), opt_text(first_seen))
            } else {
                (opt_text(first_seen), opt_text(last_seen))
            };
            match preferred {
                Some(p) => if p.len() > 0 { Some(p) } else { fallback },
                None => fallback,
            }
        },
        HistoryValue::Other => None,
    }
}

fn copy_opt(o: &Option<String>) -> (r: Option<String>)
    ensures
        opt_text(r) == opt_text(*o),
{
    match o {
        Some(s) => Some(s.clone()),
        None => None,
    }
}

/// The timestamp an entry expires by (see [`entry_timestamp_spec`]).
pub fn history_entry_timestamp(entry: &HistoryValue, prefer_last_seen: bool) -> (r: Option<String>)
    ensures
        opt_text(r) == entry_timestamp_spec(*entry, prefer_last_seen),
{
    match entry {
        HistoryValue::Text(s) => Some(s.clone()),
        HistoryValue::Object { first_seen, last_seen } => {
            let (preferred, fallback) = if prefer_last_seen {
                (last_seen, first_seen)
            } else {
                (first_seen, last_seen)
            };
            match preferred {
                Some(p) => {
                    if p.as_str().unicode_len() > 0 {
                        Some(p.clone())
                    } else {
                        copy_opt(fallback)
                    }
                },
                None => copy_opt(fallback),
            }
        },
        HistoryValue::Other => None,
    }
}

/// Which entries a retention cutoff keeps: those whose expiry instant
/// (`expiry_at[i]` for the `i`-th entry, in nanoseconds) is not before
/// `cutoff`.
pub fn retained(expiry_at: &Vec<i128>, cutoff: i128) -> (keep: Vec<bool>)
    ensures
        keep@.len() == expiry_at@.len(),
        forall|i: int| 0 <= i < keep@.len() ==> #[trigger] keep@[i] == (expiry_at@[i] >= cutoff),
{
    let mut keep: Vec<bool> = Vec::new();
    let mut i: usize = 0;
    while i < expiry_at.len()
        invariant
            i <= expiry_at@.len(),
            keep@.len() == i,
            forall|j: int| 0 <= j < i ==> #[trigger] keep@[j] == (expiry_at@[j] >= cutoff),
        decreases expiry_at@.len() - i,
    {
        keep.push(expiry_at[i] >= cutoff);
        i += 1;
    }
    keep
}

} // verus!
