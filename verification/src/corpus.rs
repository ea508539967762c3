//! The per-scope corpus: a bounded collection of stored utterances with an
//! admission filter and approximate random eviction from a trailing window.

use vstd::prelude::*;
use vstd::string::*;

use crate::sampling::random_below;
use crate::text::{contains_sub, contains_substring, tokenize, word_count};

verus! {

/// Upper bound on stored utterances per scope.
pub const CORPUS_CAP: usize = 2222;

/// Low end (inclusive) of the index window an eviction victim is drawn from.
pub const EVICT_WINDOW_LO: usize = 1000;

/// Admission rejects content with this many characters or more.
pub const MAX_CONTENT_CHARS: usize = 2000;

/// Admission rejects content with this many whitespace-separated words or more.
pub const MAX_CONTENT_WORDS: usize = 30;

/// One stored utterance: who said it and what was said.
#[derive(Debug)]
pub struct SclunerMessage {
    pub user_id: u64,
    pub content: String,
}

impl SclunerMessage {
    /// Builds an utterance from its parts.
    pub fn new(user_id: u64, content: String) -> (r: Self)
        ensures
            r.user_id == user_id,
            r.content == content,
    {
        SclunerMessage { user_id, content }
    }

    /// A field-for-field copy, equal to the original.
    pub fn duplicate(&self) -> (r: Self)
        ensures
            r == *self,
    {
        SclunerMessage { user_id: self.user_id, content: self.content.clone() }
    }
}

/// Copies a message list element by element; the copy's view equals the
/// original's.
pub fn duplicate_messages(v: &Vec<SclunerMessage>) -> (r: Vec<SclunerMessage>)
    ensures
        r@ == v@,
{
    let mut r: Vec<SclunerMessage> = Vec::new();
    let mut i: usize = 0;
    while i < v.len()
        invariant
            i <= v@.len(),
            r@ == v@.subrange(0, i as int),
        decreases v@.len() - i,
    {
        r.push(v[i].duplicate());
        proof {
            assert(r@ =~= v@.subrange(0, i + 1 as int));
        }
        i += 1;
    }
    proof {
        assert(r@ =~= v@);
    }
    r
}

/// The admission filter: non-empty, short enough in characters and words,
/// no mentions in the originating context, author subscribed and permitted.
/// Content length is measured in characters, not bytes.
pub open spec fn admissible(
    content: Seq<char>,
    has_mentions: bool,
    subscribed: bool,
    permitted: bool,
) -> bool {
    &&& !has_mentions
    &&& subscribed
    &&& permitted
    &&& content.len() > 0
    &&& content.len() < MAX_CONTENT_CHARS
    &&& tokenize(content).len() < MAX_CONTENT_WORDS
}

/// Decides admission for one utterance.
pub fn eligible(content: &str, has_mentions: bool, subscribed: bool, permitted: bool) -> (b: bool)
    ensures
        b == admissible(content@, has_mentions, subscribed, permitted),
{
    if has_mentions || !subscribed || !permitted {
        return false;
    }
    let n = content.unicode_len();
    if n == 0 || n >= MAX_CONTENT_CHARS {
        return false;
    }
    word_count(content) < MAX_CONTENT_WORDS
}

/// The sequence `s` after removing index `j` by swapping the last element in.
pub open spec fn swap_removed(s: Seq<SclunerMessage>, j: int) -> Seq<SclunerMessage> {
    s.update(j, s.last()).drop_last()
}

/// Appends `m`; if the corpus then exceeds `cap`, evicts exactly one element,
/// at an index drawn from the trailing window `[window_lo, cap]`, by
/// swap-with-last. Returns whether an eviction happened.
pub fn corpus_insert(
    corpus: &mut Vec<SclunerMessage>,
    m: SclunerMessage,
    cap: usize,
    window_lo: usize,
) -> (evicted: bool)
    requires
        old(corpus)@.len() <= cap,
        window_lo <= cap,
        cap < usize::MAX,
    ensures
        evicted == (old(corpus)@.len() == cap),
        old(corpus)@.len() < cap ==> final(corpus)@ == old(corpus)@.push(m),
        old(corpus)@.len() == cap ==> exists|j: int|
            window_lo <= j <= cap && final(corpus)@ == #[trigger] swap_removed(
                old(corpus)@.push(m),
                j,
            ),
        final(corpus)@.len() == if old(corpus)@.len() < cap {
            old(corpus)@.len() + 1
        } else {
            cap as nat
        },
{
    corpus.push(m);
    if corpus.len() > cap {
        let j = window_lo + random_below(cap + 1 - window_lo);
        corpus.swap_remove(j);
        proof {
            assert(final(corpus)@ == swap_removed(old(corpus)@.push(m), j as int));
        }
        true
    } else {
        false
    }
}

/// Picks a stored utterance uniformly at random; `None` exactly when the
/// corpus is empty.
pub fn pick_uniform_random(corpus: &Vec<SclunerMessage>) -> (r: Option<SclunerMessage>)
    ensures
        (r is None) == (corpus@.len() == 0),
        r matches Some(m) ==> exists|i: int| 0 <= i < corpus@.len() && m == corpus@[i],
{
    if corpus.len() == 0 {
        None
    } else {
        let i = random_below(corpus.len());
        let m = corpus[i].duplicate();
        proof {
            assert(m == corpus@[i as int]);
        }
        Some(m)
    }
}

/// All stored utterances whose content contains `needle`, in corpus order.
pub fn find_by_content_substring(corpus: &Vec<SclunerMessage>, needle: &str) -> (r: Vec<
    SclunerMessage,
>)
    ensures
        r@ == corpus@.filter(|m: SclunerMessage| contains_sub(m.content@, needle@)),
{
    let ghost pred = |m: SclunerMessage| contains_sub(m.content@, needle@);
    let mut r: Vec<SclunerMessage> = Vec::new();
    let mut i: usize = 0;
    while i < corpus.len()
        invariant
            i <= corpus@.len(),
            pred == (|m: SclunerMessage| contains_sub(m.content@, needle@)),
            r@ == corpus@.subrange(0, i as int).filter(pred),
        decreases corpus@.len() - i,
    {
        let keep = contains_substring(corpus[i].content.as_str(), needle);
        proof {
            reveal(Seq::filter);
            assert(corpus@.subrange(0, i + 1 as int).drop_last() =~= corpus@.subrange(0, i as int));
            assert(corpus@.subrange(0, i + 1 as int).last() == corpus@[i as int]);
        }
        if keep {
            r.push(corpus[i].duplicate());
        }
        i += 1;
    }
    proof {
        assert(corpus@.subrange(0, corpus@.len() as int) =~= corpus@);
    }
    r
}

/// All stored utterances by `user_id`, in corpus order.
pub fn find_by_author(corpus: &Vec<SclunerMessage>, user_id: u64) -> (r: Vec<SclunerMessage>)
    ensures
        r@ == corpus@.filter(|m: SclunerMessage| m.user_id == user_id),
{
    let ghost pred = |m: SclunerMessage| m.user_id == user_id;
    let mut r: Vec<SclunerMessage> = Vec::new();
    let mut i: usize = 0;
    while i < corpus.len()
        invariant
            i <= corpus@.len(),
            pred == (|m: SclunerMessage| m.user_id == user_id),
            r@ == corpus@.subrange(0, i as int).filter(pred),
        decreases corpus@.len() - i,
    {
        proof {
            reveal(Seq::filter);
            assert(corpus@.subrange(0, i + 1 as int).drop_last() =~= corpus@.subrange(0, i as int));
            assert(corpus@.subrange(0, i + 1 as int).last() == corpus@[i as int]);
        }
        if corpus[i].user_id == user_id {
            r.push(corpus[i].duplicate());
        }
        i += 1;
    }
    proof {
        assert(corpus@.subrange(0, corpus@.len() as int) =~= corpus@);
    }
    r
}

/// Removes every stored utterance by `user_id`; reports how many went.
pub fn delete_by_author(corpus: &mut Vec<SclunerMessage>, user_id: u64) -> (removed: usize)
    ensures
        final(corpus)@ == old(corpus)@.filter(|m: SclunerMessage| m.user_id != user_id),
        removed == old(corpus)@.len() - final(corpus)@.len(),
{
    let ghost pred = |m: SclunerMessage| m.user_id != user_id;
    let mut kept: Vec<SclunerMessage> = Vec::new();
    let mut i: usize = 0;
    while i < corpus.len()
        invariant
            i <= corpus@.len(),
            corpus@ == old(corpus)@,
            pred == (|m: SclunerMessage| m.user_id != user_id),
            kept@ == corpus@.subrange(0, i as int).filter(pred),
            kept@.len() <= i,
        decreases corpus@.len() - i,
    {
        proof {
            reveal(Seq::filter);
            assert(corpus@.subrange(0, i + 1 as int).drop_last() =~= corpus@.subrange(0, i as int));
            assert(corpus@.subrange(0, i + 1 as int).last() == corpus@[i as int]);
        }
        if corpus[i].user_id != user_id {
            kept.push(corpus[i].duplicate());
        }
        i += 1;
    }
    proof {
        assert(corpus@.subrange(0, corpus@.len() as int) =~= corpus@);
    }
    let removed = corpus.len() - kept.len();
    *corpus = kept;
    removed
}

/// Removes every stored utterance whose content contains `needle`; reports
/// how many went.
pub fn delete_by_content_substring(corpus: &mut Vec<SclunerMessage>, needle: &str) -> (removed:
    usize)
    ensures
        final(corpus)@ == old(corpus)@.filter(
            |m: SclunerMessage| !contains_sub(m.content@, needle@),
        ),
        removed == old(corpus)@.len() - final(corpus)@.len(),
{
    let ghost pred = |m: SclunerMessage| !contains_sub(m.content@, needle@);
    let mut kept: Vec<SclunerMessage> = Vec::new();
    let mut i: usize = 0;
    while i < corpus.len()
        invariant
            i <= corpus@.len(),
            corpus@ == old(corpus)@,
            pred == (|m: SclunerMessage| !contains_sub(m.content@, needle@)),
            kept@ == corpus@.subrange(0, i as int).filter(pred),
            kept@.len() <= i,
        decreases corpus@.len() - i,
    {
        let is_match = contains_substring(corpus[i].content.as_str(), needle);
        proof {
            reveal(Seq::filter);
            assert(corpus@.subrange(0, i + 1 as int).drop_last() =~= corpus@.subrange(0, i as int));
            assert(corpus@.subrange(0, i + 1 as int).last() == corpus@[i as int]);
        }
        if !is_match {
            kept.push(corpus[i].duplicate());
        }
        i += 1;
    }
    proof {
        assert(corpus@.subrange(0, corpus@.len() as int) =~= corpus@);
    }
    let removed = corpus.len() - kept.len();
    *corpus = kept;
    removed
}

} // verus!
