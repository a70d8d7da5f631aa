use lrcget::text::{normalize_text, text_similarity, title_similarity_ok};
use lrcget::utils::{has_instrumental_marker, instrumental_marker, is_real_synced_text, strip_timestamp};

#[test]
fn normalize_lowercases() {
    assert_eq!(normalize_text("AbC"), "abc");
}

#[test]
fn normalize_strips_punctuation() {
    assert_eq!(normalize_text("a!b"), "ab");
}

#[test]
fn normalize_collapses_whitespace() {
    assert_eq!(normalize_text("  Hello,   World! "), "hello world");
}

#[test]
fn normalize_empty() {
    assert_eq!(normalize_text(""), "");
    assert_eq!(normalize_text("!!!"), "");
}

#[test]
fn similarity_identical_tokens() {
    let (num, den) = text_similarity("hello world", "world  hello");
    assert_eq!((num, den), (2, 2));
}

#[test]
fn similarity_quarter() {
    let (num, den) = text_similarity("alpha beta", "alpha gamma delta");
    assert_eq!((num, den), (1, 4));
}

#[test]
fn similarity_both_empty() {
    let (num, den) = text_similarity("!!!", "???");
    assert_eq!((num, den), (0, 0));
}

#[test]
fn similarity_one_empty() {
    let (num, den) = text_similarity("hello", "!!!");
    assert_eq!((num, den), (0, 1));
}

#[test]
fn similarity_symmetry_concrete() {
    let ab = text_similarity("one two three", "two four");
    let ba = text_similarity("two four", "one two three");
    assert_eq!(ab, ba);
}

#[test]
fn similarity_self_is_one() {
    let (num, den) = text_similarity("Some Song Title", "Some Song Title");
    assert!(den > 0);
    assert_eq!(num, den);
}

#[test]
fn similarity_ignores_case_and_punctuation() {
    let (num, den) = text_similarity("Hello, WORLD!", "hello world");
    assert_eq!((num, den), (2, 2));
}

#[test]
fn threshold_quarter_fails() {
    assert!(!title_similarity_ok("alpha beta", "alpha gamma delta"));
}

#[test]
fn threshold_third_passes() {
    // one shared token of three distinct: 10 * 1 >= 3 * 3
    assert!(title_similarity_ok("alpha beta", "alpha gamma"));
}

#[test]
fn strip_timestamp_basic() {
    assert_eq!(strip_timestamp("[00:01.00] Hello\n[00:02.00]World"), "Hello\nWorld");
}

#[test]
fn strip_timestamp_spaces_after_tag() {
    assert_eq!(strip_timestamp("[00:01.00]    spaced"), "spaced");
}

#[test]
fn strip_timestamp_untagged_line_kept() {
    assert_eq!(strip_timestamp("no brackets here"), "no brackets here");
}

#[test]
fn strip_timestamp_unclosed_bracket_kept() {
    assert_eq!(strip_timestamp("[incomplete"), "[incomplete");
}

#[test]
fn strip_timestamp_empty_lines_kept() {
    assert_eq!(strip_timestamp("[00:01.00] a\n\n[00:02.00] b"), "a\n\nb");
}

#[test]
fn marker_string_value() {
    assert_eq!(instrumental_marker(), "[au: instrumental]");
}

#[test]
fn marker_detected() {
    assert!(has_instrumental_marker("[au: instrumental]"));
    assert!(has_instrumental_marker("[au:instrumental]"));
    assert!(has_instrumental_marker("prefix [au:  instrumental] suffix"));
    assert!(!has_instrumental_marker("[au: instrument]"));
    assert!(!has_instrumental_marker("plain lyrics"));
}

#[test]
fn real_synced_text_is_not_the_marker() {
    assert!(is_real_synced_text("[00:01.00] la"));
    assert!(!is_real_synced_text("[au: instrumental]"));
}
