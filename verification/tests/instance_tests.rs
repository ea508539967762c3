use scluner::instance::{InboundEvent, SclunerInstance, SNAPSHOT_INTERVAL_SECS};

fn event(scope: Option<u64>, author: u64, content: &str) -> InboundEvent {
    InboundEvent {
        scope_id: scope,
        author_id: author,
        author_is_bot: false,
        content: String::from(content),
        has_mentions: false,
        addressed: false,
    }
}

fn no_symbols() -> Vec<String> {
    Vec::new()
}

#[test]
fn bot_authors_are_ignored() {
    let mut inst = SclunerInstance::new();
    let mut ev = event(Some(1), 10, "hello");
    ev.author_is_bot = true;
    assert!(inst.handle_event(ev, 0, &no_symbols()).is_none());
    assert_eq!(inst.guilds.len(), 0);
}

#[test]
fn events_outside_a_scope_are_ignored() {
    let mut inst = SclunerInstance::new();
    assert!(inst.handle_event(event(None, 10, "hello"), 0, &no_symbols()).is_none());
}

#[test]
fn escape_phrases_are_ignored() {
    let mut inst = SclunerInstance::new();
    assert!(inst.handle_event(event(Some(1), 10, "please /unscule now"), 0, &no_symbols()).is_none());
    assert!(inst.handle_event(event(Some(1), 10, "::SCL_info"), 0, &no_symbols()).is_none());
    assert_eq!(inst.guilds.len(), 0);
}

#[test]
fn first_event_creates_the_scope() {
    let mut inst = SclunerInstance::new();
    let out = inst.handle_event(event(Some(5), 10, "hi there"), 0, &no_symbols()).unwrap();
    assert_eq!(inst.guilds.len(), 1);
    assert_eq!(inst.guilds[0].guild_id, 5);
    // The author is not whitelisted, so nothing is stored.
    assert!(!out.accepted);
    assert_eq!(inst.guilds[0].messages.len(), 0);
}

#[test]
fn subscribed_author_is_stored() {
    let mut inst = SclunerInstance::new();
    inst.access.toggle_whitelist(10);
    let out = inst.handle_event(event(Some(5), 10, "hi there"), 0, &no_symbols()).unwrap();
    assert!(out.accepted);
    assert_eq!(inst.guilds[0].messages.len(), 1);
    assert_eq!(inst.guilds[0].messages[0].user_id, 10);
    assert_eq!(inst.guilds[0].messages[0].content.as_str(), "hi there");
}

#[test]
fn blacklisted_author_is_not_stored() {
    let mut inst = SclunerInstance::new();
    inst.access.toggle_whitelist(10);
    inst.access.blacklist.push(10);
    let out = inst.handle_event(event(Some(5), 10, "hi there"), 0, &no_symbols()).unwrap();
    assert!(!out.accepted);
}

#[test]
fn mentions_block_admission() {
    let mut inst = SclunerInstance::new();
    inst.access.toggle_whitelist(10);
    let mut ev = event(Some(5), 10, "hey you");
    ev.has_mentions = true;
    let out = inst.handle_event(ev, 0, &no_symbols()).unwrap();
    assert!(!out.accepted);
}

#[test]
fn asleep_scope_does_nothing() {
    let mut inst = SclunerInstance::new();
    inst.access.toggle_whitelist(10);
    inst.handle_event(event(Some(5), 10, "seed"), 0, &no_symbols()).unwrap();
    assert!(inst.guilds[0].toggle_sleep());
    let out = inst.handle_event(event(Some(5), 10, "while asleep"), 0, &no_symbols()).unwrap();
    assert!(!out.accepted);
    assert!(out.reactions.is_empty());
    assert!(out.emissions.is_empty());
    assert!(!out.empty_corpus);
    assert_eq!(inst.guilds[0].messages.len(), 1);
}

#[test]
fn addressed_event_with_empty_corpus_reports_it() {
    let mut inst = SclunerInstance::new();
    let mut ev = event(Some(5), 10, "speak up");
    ev.addressed = true;
    let out = inst.handle_event(ev, 0, &no_symbols()).unwrap();
    assert!(out.empty_corpus);
    assert!(out.emissions.is_empty());
}

#[test]
fn addressed_event_with_corpus_emits() {
    let mut inst = SclunerInstance::new();
    inst.access.toggle_whitelist(10);
    inst.handle_event(event(Some(5), 10, "stored line one"), 0, &no_symbols()).unwrap();
    let mut ev = event(Some(5), 11, "say something");
    ev.addressed = true;
    let out = inst.handle_event(ev, 0, &no_symbols()).unwrap();
    assert!(!out.empty_corpus);
    assert!(out.emissions.len() >= 1);
    for pm in &out.emissions {
        assert!(!pm.text.as_str().is_empty());
    }
}

#[test]
fn snapshot_due_follows_the_interval() {
    let mut inst = SclunerInstance::new();
    let out = inst.handle_event(event(Some(5), 10, "a"), 0, &no_symbols()).unwrap();
    assert!(!out.snapshot_due);
    let out = inst
        .handle_event(event(Some(5), 10, "b"), SNAPSHOT_INTERVAL_SECS, &no_symbols())
        .unwrap();
    assert!(out.snapshot_due);
}

#[test]
fn scopes_stay_separate() {
    let mut inst = SclunerInstance::new();
    inst.access.toggle_whitelist(10);
    inst.handle_event(event(Some(1), 10, "in one"), 0, &no_symbols()).unwrap();
    inst.handle_event(event(Some(2), 10, "in two"), 0, &no_symbols()).unwrap();
    assert_eq!(inst.guilds.len(), 2);
    assert_eq!(inst.guilds[0].messages.len(), 1);
    assert_eq!(inst.guilds[1].messages.len(), 1);
    assert_eq!(inst.guilds[0].messages[0].content.as_str(), "in one");
    assert_eq!(inst.guilds[1].messages[0].content.as_str(), "in two");
}

#[test]
fn proc_config_is_validated() {
    let mut inst = SclunerInstance::new();
    inst.handle_event(event(Some(5), 10, "seed"), 0, &no_symbols()).unwrap();
    let g = &mut inst.guilds[0];
    assert!(g.set_proc_config(1, 3, 10).is_ok());
    assert_eq!(g.min_proc, 1);
    assert_eq!(g.max_proc, 3);
    assert_eq!(g.proc_out_of, 10);
    assert!(g.set_proc_config(1, 3, 0).is_err());
    assert!(g.set_proc_config(5, 3, 10).is_err());
    // A rejected configuration leaves the old one in place.
    assert_eq!(g.min_proc, 1);
    assert_eq!(g.max_proc, 3);
    assert_eq!(g.proc_out_of, 10);
}

#[test]
fn resample_stays_in_range() {
    let mut inst = SclunerInstance::new();
    inst.handle_event(event(Some(5), 10, "seed"), 0, &no_symbols()).unwrap();
    let g = &mut inst.guilds[0];
    assert!(g.set_proc_config(3, 7, 20).is_ok());
    for _ in 0..200 {
        g.resample_proc();
        assert!(3 <= g.proc && g.proc < 7);
    }
    assert!(g.set_proc_config(4, 4, 20).is_ok());
    g.resample_proc();
    assert_eq!(g.proc, 4);
}
