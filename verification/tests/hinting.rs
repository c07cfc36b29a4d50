//! Tests of the hint table and the hint-selection rule.
use matika::hints::{hints, matching_hint, CommandHint};

#[test]
fn hint_table_holds_builtin_call_forms() {
    let hs = hints();
    let shown: Vec<(&str, usize)> = hs
        .iter()
        .map(|h| (h.display.as_str(), h.complete_up_to))
        .collect();
    assert_eq!(
        shown,
        vec![("pi()", 4), ("sin()", 4), ("factors()", 8), ("plot()", 5)]
    );
}

#[test]
fn new_records_text_and_completion_length() {
    let h = CommandHint::new("factors()", "factors(");
    assert_eq!(h.display, "factors()");
    assert_eq!(h.complete_up_to, 8);
}

#[test]
fn suffix_strips_typed_prefix() {
    let h = CommandHint::new("factors()", "factors(");
    let s = h.suffix(3);
    assert_eq!(s.display, "tors()");
    assert_eq!(s.complete_up_to, 5);
    let t = h.suffix(9);
    assert_eq!(t.display, "");
    assert_eq!(t.complete_up_to, 0);
}

#[test]
fn matching_hint_picks_first_prefix_match() {
    let hs = hints();
    let h = matching_hint(&hs, "si", 2).expect("a hint should match");
    assert_eq!(h.display, "n()");
    assert_eq!(h.complete_up_to, 2);
}

#[test]
fn matching_hint_declines_empty_or_mid_line() {
    let hs = hints();
    assert!(matching_hint(&hs, "", 0).is_none());
    assert!(matching_hint(&hs, "si", 1).is_none());
    assert!(matching_hint(&hs, "zzz", 3).is_none());
}
