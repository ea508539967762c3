use scluner::corpus::SclunerMessage;
use scluner::mutators::{
    append_emote_attempt, classify, maybe_mutate, misgender_attempt, randomize_pronoun,
    splicer_attempt, DefinedMutators, Paradigm,
};

const SUBJECT: [&str; 4] = ["he", "she", "it", "they"];
const OBJECT: [&str; 4] = ["him", "her", "it", "them"];
const POSSESSIVE: [&str; 4] = ["his", "her", "its", "their"];

#[test]
fn default_allowed_lists_all_three() {
    let d = DefinedMutators::default_allowed();
    assert_eq!(d.len(), 3);
    assert!(matches!(d[0], DefinedMutators::AppendEmote));
    assert!(matches!(d[1], DefinedMutators::MessageSplicer));
    assert!(matches!(d[2], DefinedMutators::Misgendering));
}

#[test]
fn classify_resolves_paradigms_case_insensitively() {
    assert_eq!(classify("he"), Some(Paradigm::Subject));
    assert_eq!(classify("He"), Some(Paradigm::Subject));
    assert_eq!(classify("THEY"), Some(Paradigm::Subject));
    assert_eq!(classify("him"), Some(Paradigm::Object));
    assert_eq!(classify("Them"), Some(Paradigm::Object));
    assert_eq!(classify("his"), Some(Paradigm::Possessive));
    assert_eq!(classify("ITS"), Some(Paradigm::Possessive));
    // Shared forms resolve to the earlier paradigm.
    assert_eq!(classify("it"), Some(Paradigm::Subject));
    assert_eq!(classify("her"), Some(Paradigm::Object));
    assert_eq!(classify("table"), None);
    assert_eq!(classify("hers"), None);
    assert_eq!(classify(""), None);
}

#[test]
fn randomize_pronoun_stays_in_paradigm() {
    for _ in 0..50 {
        let mut toks = vec![String::from("walks"), String::from("him")];
        randomize_pronoun(&mut toks, 1);
        assert_eq!(toks[0].as_str(), "walks");
        assert!(OBJECT.contains(&toks[1].as_str()));
    }
}

#[test]
fn randomize_pronoun_leaves_other_tokens() {
    let mut toks = vec![String::from("rock")];
    randomize_pronoun(&mut toks, 0);
    assert_eq!(toks[0].as_str(), "rock");
}

#[test]
fn misgender_never_touches_pronoun_free_input() {
    for _ in 0..300 {
        assert!(misgender_attempt("nothing to see here").is_none());
        assert!(misgender_attempt("").is_none());
    }
}

#[test]
fn misgender_replaces_the_single_occurrence_on_success() {
    // The mutator applies with probability 1/9, so over this many trials a
    // success is overwhelmingly likely. On success the lone vocabulary token
    // is rewritten within its paradigm (possibly to the same form).
    let mut successes = 0;
    for _ in 0..3000 {
        if let Some(out) = misgender_attempt("look she walks") {
            let toks: Vec<&str> = out.split_whitespace().collect();
            assert_eq!(toks.len(), 3);
            assert_eq!(toks[0], "look");
            assert!(SUBJECT.contains(&toks[1]));
            assert_eq!(toks[2], "walks");
            successes += 1;
        }
    }
    assert!(successes > 0);
}

#[test]
fn misgender_keeps_every_token_in_its_paradigm() {
    let mut successes = 0;
    for _ in 0..3000 {
        if let Some(out) = misgender_attempt("his dog bit him and they laughed") {
            let toks: Vec<&str> = out.split_whitespace().collect();
            assert_eq!(toks.len(), 7);
            assert!(toks[0] == "his" || POSSESSIVE.contains(&toks[0]));
            assert_eq!(toks[1], "dog");
            assert_eq!(toks[2], "bit");
            assert!(toks[3] == "him" || OBJECT.contains(&toks[3]));
            assert_eq!(toks[4], "and");
            assert!(toks[5] == "they" || SUBJECT.contains(&toks[5]));
            assert_eq!(toks[6], "laughed");
            successes += 1;
        }
    }
    assert!(successes > 0);
}

#[test]
fn append_emote_needs_symbols() {
    let none: Vec<String> = Vec::new();
    for _ in 0..300 {
        assert!(append_emote_attempt("hello", &none).is_none());
    }
}

#[test]
fn append_emote_appends_one_symbol() {
    let symbols = vec![String::from(":a:"), String::from(":b:")];
    let mut successes = 0;
    for _ in 0..2000 {
        if let Some(out) = append_emote_attempt("hello", &symbols) {
            assert!(out.as_str() == "hello :a:" || out.as_str() == "hello :b:");
            successes += 1;
        }
    }
    assert!(successes > 0);
}

#[test]
fn splicer_needs_a_corpus() {
    let empty: Vec<SclunerMessage> = Vec::new();
    for _ in 0..300 {
        assert!(splicer_attempt("some words here", &empty).is_none());
    }
}

#[test]
fn splicer_produces_output_eventually() {
    let corpus = vec![
        SclunerMessage::new(1, String::from("alpha beta gamma delta")),
        SclunerMessage::new(2, String::from("one two")),
    ];
    let mut successes = 0;
    for _ in 0..2000 {
        if splicer_attempt("red green blue", &corpus).is_some() {
            successes += 1;
        }
    }
    assert!(successes > 0);
}

#[test]
fn pipeline_with_no_mutators_passes_through() {
    let allowed: Vec<DefinedMutators> = Vec::new();
    let corpus = vec![SclunerMessage::new(1, String::from("stored words"))];
    let symbols = vec![String::from(":x:")];
    for _ in 0..50 {
        let out = maybe_mutate(String::from("original text"), &allowed, &corpus, &symbols);
        assert_eq!(out.as_str(), "original text");
    }
}

#[test]
fn pipeline_attempts_only_enabled_mutators() {
    // With only misgendering enabled and no vocabulary token in the input,
    // no mutator can ever apply, so the pipeline is the identity.
    let allowed = vec![DefinedMutators::Misgendering];
    let corpus = vec![SclunerMessage::new(1, String::from("stored words"))];
    let symbols = vec![String::from(":x:")];
    for _ in 0..300 {
        let out = maybe_mutate(String::from("no matching tokens"), &allowed, &corpus, &symbols);
        assert_eq!(out.as_str(), "no matching tokens");
    }
}

#[test]
fn pipeline_output_is_input_or_a_mutation() {
    let allowed = DefinedMutators::default_allowed();
    let corpus = vec![SclunerMessage::new(1, String::from("spliced material"))];
    let symbols = vec![String::from(":y:")];
    for _ in 0..500 {
        let out = maybe_mutate(String::from("he walks"), &allowed, &corpus, &symbols);
        assert!(!out.as_str().is_empty());
    }
}
