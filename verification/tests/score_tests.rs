use wellness_core::errors::EvalError;
use wellness_core::score::{evaluate, is_valid_range, parse_score_range, Interpretation};

#[test]
fn parses_plain_range() {
    assert_eq!(parse_score_range("10-20"), Some((10, 20)));
}

#[test]
fn parses_range_with_surrounding_whitespace() {
    assert_eq!(parse_score_range(" 10 - 20 "), Some((10, 20)));
    assert_eq!(parse_score_range("\t0-\n9"), Some((0, 9)));
}

#[test]
fn trims_unicode_whitespace_like_str_trim() {
    assert_eq!(parse_score_range("\u{a0}10 -\u{a0}20\u{a0}"), Some((10, 20)));
    assert_eq!(parse_score_range("\u{b}1-2"), Some((1, 2)));
    assert_eq!(parse_score_range("\u{2003}3\u{2003}-\u{3000}4"), Some((3, 4)));
    // Whitespace inside a number still breaks it.
    assert_eq!(parse_score_range("1\u{a0}0-20"), None);
}

#[test]
fn parses_degenerate_and_extreme_ranges() {
    assert_eq!(parse_score_range("0-0"), Some((0, 0)));
    assert_eq!(parse_score_range("4294967295-4294967295"), Some((4294967295, 4294967295)));
}

#[test]
fn parses_inverted_bounds_without_judging_them() {
    // The parser does not enforce lo <= hi; that is the validator's caller's concern.
    assert_eq!(parse_score_range("20-10"), Some((20, 10)));
}

#[test]
fn rejects_non_numeric_text() {
    assert_eq!(parse_score_range("abc"), None);
    assert!(!is_valid_range("abc"));
}

#[test]
fn rejects_extra_separators() {
    assert_eq!(parse_score_range("1-2-3"), None);
    assert!(!is_valid_range("1-2-3"));
}

#[test]
fn rejects_missing_separator() {
    assert_eq!(parse_score_range("5"), None);
    assert!(!is_valid_range("5"));
}

#[test]
fn rejects_empty_and_half_empty_strings() {
    assert_eq!(parse_score_range(""), None);
    assert_eq!(parse_score_range("10-"), None);
    assert_eq!(parse_score_range("-10"), None);
    assert_eq!(parse_score_range("-"), None);
    assert_eq!(parse_score_range(" - "), None);
}

#[test]
fn rejects_trailing_garbage_and_inner_signs() {
    assert_eq!(parse_score_range("10-20x"), None);
    assert_eq!(parse_score_range("1 0-20"), None);
    assert_eq!(parse_score_range("+10-20"), None);
}

#[test]
fn rejects_values_beyond_u32() {
    assert_eq!(parse_score_range("4294967296-1"), None);
    assert_eq!(parse_score_range("1-99999999999999999999"), None);
}

#[test]
fn round_trips_rendered_ranges() {
    for (lo, hi) in [(0u32, 0u32), (1, 1), (10, 20), (99, 100), (0, 4294967295)] {
        let s = format!("{}-{}", lo, hi);
        assert_eq!(parse_score_range(&s), Some((lo, hi)));
        assert!(is_valid_range(&s));
    }
}

fn table(entries: &[(&str, &str)]) -> Vec<(String, String)> {
    entries.iter().map(|(k, v)| (k.to_string(), v.to_string())).collect()
}

#[test]
fn evaluate_matches_first_containing_range() {
    let t = table(&[("10-20", "A"), ("21-30", "B")]);
    assert_eq!(evaluate(15, &t), Ok(Interpretation::Matched("A".to_string())));
    assert_eq!(evaluate(21, &t), Ok(Interpretation::Matched("B".to_string())));
}

#[test]
fn evaluate_is_inclusive_at_both_bounds() {
    let t = table(&[("10-20", "A")]);
    assert_eq!(evaluate(10, &t), Ok(Interpretation::Matched("A".to_string())));
    assert_eq!(evaluate(20, &t), Ok(Interpretation::Matched("A".to_string())));
    assert_eq!(evaluate(9, &t), Ok(Interpretation::NoMatch));
}

#[test]
fn evaluate_reports_no_match_outside_every_range() {
    let t = table(&[("10-20", "A"), ("21-30", "B")]);
    assert_eq!(evaluate(35, &t), Ok(Interpretation::NoMatch));
}

#[test]
fn evaluate_on_empty_table_is_no_match() {
    let t = table(&[]);
    assert_eq!(evaluate(0, &t), Ok(Interpretation::NoMatch));
}

#[test]
fn evaluate_surfaces_corrupt_key_instead_of_no_match() {
    let t = table(&[("10-20", "A"), ("oops", "B")]);
    assert_eq!(evaluate(50, &t), Err(EvalError::ConfigCorrupt));
}

#[test]
fn evaluate_with_corrupt_first_key_is_corrupt() {
    let t = table(&[("oops", "B"), ("10-20", "A")]);
    assert_eq!(evaluate(15, &t), Err(EvalError::ConfigCorrupt));
}

#[test]
fn evaluate_match_before_corrupt_key_still_matches() {
    let t = table(&[("10-20", "A"), ("oops", "B")]);
    assert_eq!(evaluate(15, &t), Ok(Interpretation::Matched("A".to_string())));
}
