use scluner::text::{chars_of, contains_substring, eq_lower, join_with_spaces, tokens_of, word_count};

#[test]
fn tokens_of_splits_on_whitespace() {
    let toks = tokens_of("one two  three");
    let words: Vec<&str> = toks.iter().map(|t| t.as_str()).collect();
    assert_eq!(words, vec!["one", "two", "three"]);
}

#[test]
fn tokens_of_handles_edges() {
    assert_eq!(tokens_of("").len(), 0);
    assert_eq!(tokens_of("   ").len(), 0);
    assert_eq!(tokens_of(" lead and trail ").len(), 3);
    assert_eq!(tokens_of("solo").len(), 1);
    assert_eq!(tokens_of("tab\tand\nnewline").len(), 3);
}

#[test]
fn word_count_matches_tokens() {
    assert_eq!(word_count(""), 0);
    assert_eq!(word_count("a b c d"), 4);
    assert_eq!(word_count("  spaced   out  "), 2);
}

#[test]
fn join_with_spaces_rebuilds() {
    let toks = tokens_of("a b c");
    assert_eq!(join_with_spaces(&toks).as_str(), "a b c");
    let empty: Vec<String> = Vec::new();
    assert_eq!(join_with_spaces(&empty).as_str(), "");
    let one = vec![String::from("x")];
    assert_eq!(join_with_spaces(&one).as_str(), "x");
}

#[test]
fn contains_substring_finds_and_rejects() {
    assert!(contains_substring("hello world", "lo wo"));
    assert!(contains_substring("hello", ""));
    assert!(contains_substring("hello", "hello"));
    assert!(!contains_substring("hello", "world"));
    assert!(!contains_substring("hi", "hello"));
    assert!(contains_substring("abcabd", "abd"));
}

#[test]
fn eq_lower_is_case_insensitive_on_ascii() {
    assert!(eq_lower("He", "he"));
    assert!(eq_lower("THEY", "they"));
    assert!(eq_lower("it", "it"));
    assert!(!eq_lower("them", "they"));
    assert!(!eq_lower("he", "He"));
    assert!(!eq_lower("hers", "her"));
}

#[test]
fn chars_of_reads_unicode() {
    let v = chars_of("aé☃");
    assert_eq!(v, vec!['a', 'é', '☃']);
}
