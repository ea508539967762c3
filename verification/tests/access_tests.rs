use scluner::access::{AccessRegistry, OWNER_ID};

#[test]
fn owner_is_recognised() {
    let reg = AccessRegistry::new();
    assert!(reg.is_owner(OWNER_ID));
    assert!(!reg.is_owner(1));
}

#[test]
fn owner_bypasses_blacklist() {
    let mut reg = AccessRegistry::new();
    reg.blacklist.push(OWNER_ID);
    assert!(reg.is_owner(OWNER_ID));
    assert!(reg.is_moderator(OWNER_ID));
    assert!(reg.is_permitted(OWNER_ID));
}

#[test]
fn blacklisted_moderator_is_denied() {
    let mut reg = AccessRegistry::new();
    let user = 42u64;
    assert!(reg.toggle_moderator(user));
    assert!(reg.is_moderator(user));
    reg.blacklist.push(user);
    assert!(!reg.is_moderator(user));
    assert!(!reg.is_permitted(user));
}

#[test]
fn toggle_whitelist_adds_then_removes() {
    let mut reg = AccessRegistry::new();
    let user = 7u64;
    assert!(!reg.is_subscribed(user));
    assert!(reg.toggle_whitelist(user));
    assert!(reg.is_subscribed(user));
    assert!(!reg.toggle_whitelist(user));
    assert!(!reg.is_subscribed(user));
}

#[test]
fn toggle_moderator_adds_then_removes() {
    let mut reg = AccessRegistry::new();
    let user = 9u64;
    assert!(reg.toggle_moderator(user));
    assert!(reg.is_moderator(user));
    assert!(!reg.toggle_moderator(user));
    assert!(!reg.is_moderator(user));
}

#[test]
fn permitted_without_any_listing() {
    let reg = AccessRegistry::new();
    assert!(reg.is_permitted(5));
    assert!(!reg.is_moderator(5));
    assert!(!reg.is_subscribed(5));
}
