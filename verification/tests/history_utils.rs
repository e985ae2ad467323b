use torshield::history_utils::{history_entry_timestamp, retained, HistoryValue};

fn s(x: &str) -> Option<String> {
    Some(x.to_string())
}

#[test]
fn string_entries_are_their_own_timestamp() {
    let e = HistoryValue::Text("2026-06-05T07:45:38".to_string());
    assert_eq!(history_entry_timestamp(&e, true), s("2026-06-05T07:45:38"));
    assert_eq!(history_entry_timestamp(&HistoryValue::Text(String::new()), true), s(""));
}

#[test]
fn object_entries_prefer_last_seen_then_first_seen() {
    let e = HistoryValue::Object { first_seen: s("2025-01-01T00:00:00"), last_seen: s("2025-06-01T00:00:00") };
    assert_eq!(history_entry_timestamp(&e, true), s("2025-06-01T00:00:00"));
    assert_eq!(history_entry_timestamp(&e, false), s("2025-01-01T00:00:00"));
}

#[test]
fn empty_preferred_field_falls_back_even_to_an_empty_string() {
    let e = HistoryValue::Object { first_seen: s(""), last_seen: s("") };
    assert_eq!(history_entry_timestamp(&e, true), s(""));
    let e2 = HistoryValue::Object { first_seen: s("2025-01-01T00:00:00"), last_seen: None };
    assert_eq!(history_entry_timestamp(&e2, true), s("2025-01-01T00:00:00"));
    let e3 = HistoryValue::Object { first_seen: None, last_seen: None };
    assert_eq!(history_entry_timestamp(&e3, true), None);
    assert_eq!(history_entry_timestamp(&HistoryValue::Other, true), None);
}

#[test]
fn retention_keeps_entries_not_older_than_the_cutoff() {
    // 2025-01-01, 2026-06-09 and exactly the cutoff, against a cutoff of 2026-06-03T12:00Z (in seconds).
    let cutoff: i128 = 1_780_488_000;
    let keep = retained(&vec![1_735_689_600, 1_780_963_200, cutoff], cutoff);
    assert_eq!(keep, vec![false, true, true]);
}
