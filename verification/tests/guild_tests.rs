use scluner::corpus::{SclunerMessage, CORPUS_CAP, EVICT_WINDOW_LO};
use scluner::guild::SclunerGuild;
use scluner::mutators::DefinedMutators;

fn msg(user: u64, content: &str) -> SclunerMessage {
    SclunerMessage::new(user, String::from(content))
}

#[test]
fn fresh_scope_has_documented_defaults() {
    let g = SclunerGuild::new(77);
    assert_eq!(g.guild_id, 77);
    assert!(g.messages.is_empty());
    assert!(!g.asleep);
    assert_eq!(g.allowed_mutators, DefinedMutators::default_allowed());
    assert_eq!(g.min_proc, 1);
    assert_eq!(g.max_proc, 4);
    assert_eq!(g.proc_out_of, 18);
    assert!(1 <= g.proc && g.proc < 4);
}

#[test]
fn acceptance_follows_the_admission_filter() {
    let mut g = SclunerGuild::new(1);
    assert!(g.accept_utterance(msg(5, "fine words"), false, true, true));
    assert_eq!(g.messages.len(), 1);
    // Each rejected case leaves the corpus untouched.
    assert!(!g.accept_utterance(msg(5, ""), false, true, true));
    assert!(!g.accept_utterance(msg(5, "mentions"), true, true, true));
    assert!(!g.accept_utterance(msg(5, "not subscribed"), false, false, true));
    assert!(!g.accept_utterance(msg(5, "not permitted"), false, true, false));
    assert_eq!(g.messages.len(), 1);
}

#[test]
fn corpus_never_exceeds_full_capacity() {
    // Run the real constants past their limit: the corpus grows to the cap
    // and stays there, evicting exactly one element per further insert.
    let mut g = SclunerGuild::new(2);
    for i in 0..(CORPUS_CAP + 60) {
        let accepted = g.accept_utterance(msg(i as u64, "steady stream"), false, true, true);
        assert!(accepted);
        assert!(g.messages.len() <= CORPUS_CAP);
    }
    assert_eq!(g.messages.len(), CORPUS_CAP);
    // The window never touches the oldest stretch of the corpus.
    for i in 0..EVICT_WINDOW_LO {
        assert_eq!(g.messages[i].user_id, i as u64);
    }
}

#[test]
fn toggle_sleep_flips_and_reports() {
    let mut g = SclunerGuild::new(3);
    assert!(g.toggle_sleep());
    assert!(g.asleep);
    assert!(!g.toggle_sleep());
    assert!(!g.asleep);
}
