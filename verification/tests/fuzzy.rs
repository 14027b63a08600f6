//! The fuzzy matcher: scores, case insensitivity, and highlighting.

use werun_core::fuzzy::{
    calculate_contain_score, calculate_fuzzy_score, count_consecutive_matches,
    find_first_match_position, fuzzy_char_match, fuzzy_match, highlight_matches,
};

#[test]
fn test_fuzzy_match_exact() {
    let (matched, score) = fuzzy_match("chrome", "Google Chrome");
    assert!(matched);
    assert!(score > 100);
}

#[test]
fn test_fuzzy_match_partial() {
    let (matched, score) = fuzzy_match("gc", "Google Chrome");
    assert!(matched);
    assert!(score > 0);
}

#[test]
fn test_fuzzy_match_fail() {
    let (matched, _) = fuzzy_match("xyz", "Google Chrome");
    assert!(!matched);
}

#[test]
fn test_highlight() {
    let highlighted = highlight_matches("gc", "Google Chrome");
    assert!(highlighted.contains('['));
    assert!(highlighted.contains(']'));
}

#[test]
fn substring_score_exact_value() {
    // Base 100, word-boundary bonus 30, length penalty 2 * (13 - 6).
    assert_eq!(fuzzy_match("chrome", "Google Chrome"), (true, 116));
}

#[test]
fn subsequence_score_exact_value() {
    // Base 50, one-long run 10, first match at 0, ratio 20 * 2 / 13 = 3.
    assert_eq!(fuzzy_match("gc", "Google Chrome"), (true, 63));
    // A substring match outranks the subsequence match.
    assert!(63 < 116);
}

#[test]
fn match_is_case_insensitive() {
    assert_eq!(fuzzy_match("GC", "google chrome"), fuzzy_match("gc", "Google Chrome"));
    assert_eq!(fuzzy_match("CHROME", "google chrome"), fuzzy_match("chrome", "GOOGLE CHROME"));
}

#[test]
fn empty_query_matches_everything_with_zero() {
    assert_eq!(fuzzy_match("", "anything at all"), (true, 0));
    assert_eq!(fuzzy_match("", ""), (true, 0));
}

#[test]
fn prefix_bonus_applies() {
    // "go" starts "google chrome": 100 + 50 - 2 * (13 - 2) = 128.
    assert_eq!(fuzzy_match("go", "Google Chrome"), (true, 128));
}

#[test]
fn helper_scores_agree() {
    assert_eq!(calculate_contain_score("chrome", "google chrome"), 116);
    assert_eq!(calculate_fuzzy_score("gc", "google chrome"), 63);
    assert!(fuzzy_char_match("gc", "google chrome"));
    assert!(!fuzzy_char_match("cg", "google chrome"));
    assert_eq!(count_consecutive_matches("gc", "google chrome"), 1);
    assert_eq!(find_first_match_position("gc", "google chrome"), 0);
    assert_eq!(find_first_match_position("z", "google chrome"), 13);
}

#[test]
fn stripping_brackets_reproduces_the_target() {
    let target = "Google Chrome";
    let highlighted = highlight_matches("gc", target);
    let stripped: String = highlighted.chars().filter(|c| *c != '[' && *c != ']').collect();
    assert_eq!(stripped, target);

    let highlighted = highlight_matches("nomatch", "A plain title 123");
    let stripped: String = highlighted.chars().filter(|c| *c != '[' && *c != ']').collect();
    assert_eq!(stripped, "A plain title 123");
}

#[test]
fn highlight_wraps_matched_characters() {
    assert_eq!(highlight_matches("gc", "Google Chrome"), "[G]oogle [C]hrome");
    assert_eq!(highlight_matches("", "Google Chrome"), "Google Chrome");
}
