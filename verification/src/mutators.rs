//! The closed set of text mutators the pipeline can apply to an utterance
//! before it is re-emitted: appending a reaction symbol, splicing with a
//! second stored utterance, and rewriting pronouns within their paradigm.
//! Each mutator succeeds only behind a probability gate; the pipeline tries
//! them in a random order and the first success wins.

use vstd::prelude::*;
use vstd::string::*;

use crate::corpus::SclunerMessage;
use crate::sampling::{random_below, random_ratio, shuffle_mutators};
use crate::text::{join_tokens, join_with_spaces, lower_seq, tokenize, tokens_of};
use crate::text::eq_lower;
use crate::vec_replace;

verus! {

/// Tags for the mutators a scope may enable.
#[derive(Clone, Copy, Debug, PartialEq, Eq, Structural)]
pub enum DefinedMutators {
    AppendEmote,
    MessageSplicer,
    Misgendering,
}

/// The mutator set a fresh or migrated scope starts with.
pub open spec fn default_mutators() -> Seq<DefinedMutators> {
    seq![
        DefinedMutators::AppendEmote,
        DefinedMutators::MessageSplicer,
        DefinedMutators::Misgendering,
    ]
}

impl DefinedMutators {
    /// Every defined mutator, in declaration order.
    pub fn default_allowed() -> (r: Vec<DefinedMutators>)
        ensures
            r@ == default_mutators(),
    {
        let mut r: Vec<DefinedMutators> = Vec::new();
        r.push(DefinedMutators::AppendEmote);
        r.push(DefinedMutators::MessageSplicer);
        r.push(DefinedMutators::Misgendering);
        proof {
            assert(r@ =~= default_mutators());
        }
        r
    }
}

/// The three pronoun paradigms of the closed vocabulary.
#[derive(Clone, Copy, Debug, PartialEq, Eq, Structural)]
pub enum Paradigm {
    Subject,
    Object,
    Possessive,
}

/// The four forms of each paradigm.
pub open spec fn paradigm_forms(p: Paradigm) -> Seq<Seq<char>> {
    match p {
        Paradigm::Subject => seq!["he"@, "she"@, "it"@, "they"@],
        Paradigm::Object => seq!["him"@, "her"@, "it"@, "them"@],
        Paradigm::Possessive => seq!["his"@, "her"@, "its"@, "their"@],
    }
}

/// The paradigm a token belongs to, comparing case-insensitively; forms
/// shared between paradigms resolve to the earlier one (subject, then
/// object, then possessive).
pub open spec fn class_of(t: Seq<char>) -> Option<Paradigm> {
    if paradigm_forms(Paradigm::Subject).contains(lower_seq(t)) {
        Some(Paradigm::Subject)
    } else if paradigm_forms(Paradigm::Object).contains(lower_seq(t)) {
        Some(Paradigm::Object)
    } else if paradigm_forms(Paradigm::Possessive).contains(lower_seq(t)) {
        Some(Paradigm::Possessive)
    } else {
        None
    }
}

/// Whether a token belongs to the pronoun vocabulary.
pub open spec fn is_pronoun_token(t: Seq<char>) -> bool {
    class_of(t) is Some
}

/// Whether any token of `ts` belongs to the pronoun vocabulary.
pub open spec fn has_pronoun(ts: Seq<Seq<char>>) -> bool {
    exists|i: int| 0 <= i < ts.len() && is_pronoun_token(#[trigger] ts[i])
}

/// Decides the paradigm of one token.
pub fn classify(tok: &str) -> (r: Option<Paradigm>)
    ensures
        r == class_of(tok@),
{
    let ghost lt = lower_seq(tok@);
    if eq_lower(tok, "he") || eq_lower(tok, "she") || eq_lower(tok, "it") || eq_lower(tok, "they") {
        proof {
            let f = paradigm_forms(Paradigm::Subject);
            assert(lt == f[0] || lt == f[1] || lt == f[2] || lt == f[3]);
        }
        Some(Paradigm::Subject)
    } else if eq_lower(tok, "him") || eq_lower(tok, "her") || eq_lower(tok, "them") {
        proof {
            let f = paradigm_forms(Paradigm::Subject);
            assert(forall|i: int| 0 <= i < f.len() ==> f[i] != lt);
            let g = paradigm_forms(Paradigm::Object);
            assert(lt == g[0] || lt == g[1] || lt == g[3]);
        }
        Some(Paradigm::Object)
    } else if eq_lower(tok, "his") || eq_lower(tok, "its") || eq_lower(tok, "their") {
        proof {
            let f = paradigm_forms(Paradigm::Subject);
            assert(forall|i: int| 0 <= i < f.len() ==> f[i] != lt);
            let g = paradigm_forms(Paradigm::Object);
            assert(forall|i: int| 0 <= i < g.len() ==> g[i] != lt);
            let h = paradigm_forms(Paradigm::Possessive);
            assert(lt == h[0] || lt == h[2] || lt == h[3]);
        }
        Some(Paradigm::Possessive)
    } else {
        proof {
            let f = paradigm_forms(Paradigm::Subject);
            assert(forall|i: int| 0 <= i < f.len() ==> f[i] != lt);
            let g = paradigm_forms(Paradigm::Object);
            assert(forall|i: int| 0 <= i < g.len() ==> g[i] != lt);
            let h = paradigm_forms(Paradigm::Possessive);
            assert(forall|i: int| 0 <= i < h.len() ==> h[i] != lt);
        }
        None
    }
}

/// The `i`-th form of paradigm `p`.
fn paradigm_form(p: Paradigm, i: usize) -> (r: String)
    requires
        i < 4,
    ensures
        r@ == paradigm_forms(p)[i as int],
{
    match p {
        Paradigm::Subject => {
            if i == 0 {
                String::from_str("he")
            } else if i == 1 {
                String::from_str("she")
            } else if i == 2 {
                String::from_str("it")
            } else {
                String::from_str("they")
            }
        },
        Paradigm::Object => {
            if i == 0 {
                String::from_str("him")
            } else if i == 1 {
                String::from_str("her")
            } else if i == 2 {
                String::from_str("it")
            } else {
                String::from_str("them")
            }
        },
        Paradigm::Possessive => {
            if i == 0 {
                String::from_str("his")
            } else if i == 1 {
                String::from_str("her")
            } else if i == 2 {
                String::from_str("its")
            } else {
                String::from_str("their")
            }
        },
    }
}

/// Replaces the token at `idx` with a uniformly random member of its own
/// paradigm; a token outside the vocabulary is left alone.
pub fn randomize_pronoun(tokens: &mut Vec<String>, idx: usize)
    requires
        idx < old(tokens)@.len(),
    ensures
        final(tokens)@.len() == old(tokens)@.len(),
        forall|j: int|
            0 <= j < old(tokens)@.len() && j != idx ==> final(tokens)@[j] == old(tokens)@[j],
        class_of(old(tokens)@[idx as int]@) matches Some(p) ==> paradigm_forms(p).contains(
            final(tokens)@[idx as int]@,
        ),
        class_of(old(tokens)@[idx as int]@) is None ==> final(tokens)@[idx as int] == old(
            tokens,
        )@[idx as int],
{
    let c = classify(tokens[idx].as_str());
    match c {
        None => {
        },
        Some(p) => {
            let k = random_below(4);
            let f = paradigm_form(p, k);
            let ghost fv = f@;
            vec_replace(tokens, idx, f);
            proof {
                assert(paradigm_forms(p)[k as int] == fv);
                assert(paradigm_forms(p).contains(fv));
            }
        },
    }
}

/// One token may stay as it was or move within its own paradigm.
pub open spec fn token_rewrite_ok(orig_tok: Seq<char>, new_tok: Seq<char>) -> bool {
    ||| new_tok == orig_tok
    ||| (class_of(orig_tok) matches Some(p) && paradigm_forms(p).contains(new_tok))
}

/// `ts` is `orig` with some tokens moved within their own paradigms.
pub open spec fn pronoun_rewrite(orig: Seq<Seq<char>>, ts: Seq<Seq<char>>) -> bool {
    &&& ts.len() == orig.len()
    &&& forall|j: int| 0 <= j < orig.len() ==> token_rewrite_ok(orig[j], #[trigger] ts[j])
}

/// The token at a given position was a vocabulary member and now holds a
/// member of its own paradigm (which may be the same form).
pub open spec fn guaranteed_rewritten(orig_tok: Seq<char>, new_tok: Seq<char>) -> bool {
    class_of(orig_tok) matches Some(p) && paradigm_forms(p).contains(new_tok)
}

/// `out` is the input's tokens, rewritten within their paradigms and
/// rejoined with single spaces — with at least one vocabulary occurrence
/// actually rewritten to a paradigm member.
pub open spec fn misgender_outcome(input: Seq<char>, out: Seq<char>) -> bool {
    exists|ts: Seq<Seq<char>>|
        #[trigger] pronoun_rewrite(tokenize(input), ts) && out == join_tokens(ts) && (exists|j: int|
            0 <= j < ts.len() && #[trigger] guaranteed_rewritten(tokenize(input)[j], ts[j]))
}

/// The misgendering mutator. Behind a probability gate of 1/9 and only for
/// inputs with at least one vocabulary token: one matching occurrence, picked
/// uniformly, is always rewritten within its paradigm (possibly to the same
/// form); every other matching occurrence is rewritten with probability 3/4.
pub fn misgender_attempt(input: &str) -> (r: Option<String>)
    ensures
        !has_pronoun(tokenize(input@)) ==> r is None,
        r matches Some(out) ==> has_pronoun(tokenize(input@)) && misgender_outcome(input@, out@),
{
    if !random_ratio(1, 9) {
        return None;
    }
    let toks = tokens_of(input);
    let ghost orig = toks@.map_values(|t: String| t@);
    let mut indexes: Vec<usize> = Vec::new();
    let mut i: usize = 0;
    while i < toks.len()
        invariant
            orig == toks@.map_values(|t: String| t@),
            orig == tokenize(input@),
            toks@.len() == orig.len(),
            i <= toks@.len(),
            forall|k: int|
                0 <= k < indexes@.len() ==> (#[trigger] indexes@[k] as int) < i
                    && is_pronoun_token(orig[indexes@[k] as int]),
            forall|k1: int, k2: int|
                0 <= k1 < k2 < indexes@.len() ==> indexes@[k1] < indexes@[k2],
            forall|j: int|
                0 <= j < i && is_pronoun_token(#[trigger] orig[j]) ==> indexes@.contains(
                    j as usize,
                ),
        decreases toks@.len() - i,
    {
        let c = classify(toks[i].as_str());
        if c.is_some() {
            let ghost pre = indexes@;
            indexes.push(i);
            proof {
                assert(indexes@[indexes@.len() - 1] == i as usize);
                assert(forall|j: int|
                    0 <= j < i && is_pronoun_token(#[trigger] orig[j]) ==> pre.contains(j as usize));
                assert(forall|x: usize| pre.contains(x) ==> indexes@.contains(x)) by {
                    assert(forall|k: int| 0 <= k < pre.len() ==> indexes@[k] == pre[k]);
                }
                assert(indexes@.contains(i as usize));
            }
        }
        i += 1;
    }
    if indexes.len() == 0 {
        proof {
            if has_pronoun(orig) {
                let j = choose|j: int| 0 <= j < orig.len() && is_pronoun_token(orig[j]);
                assert(indexes@.contains(j as usize));
            }
        }
        return None;
    }
    let ghost toks0 = toks@;
    let gsel = random_below(indexes.len());
    let gidx = indexes[gsel];
    let mut t = toks;
    proof {
        assert(t@[gidx as int]@ == orig[gidx as int]);
    }
    randomize_pronoun(&mut t, gidx);
    proof {
        assert(guaranteed_rewritten(orig[gidx as int], t@[gidx as int]@));
    }
    let mut k: usize = 0;
    while k < indexes.len()
        invariant
            orig == tokenize(input@),
            toks0.map_values(|s: String| s@) == orig,
            toks0.len() == orig.len(),
            gsel < indexes@.len(),
            gidx == indexes@[gsel as int],
            k <= indexes@.len(),
            forall|l: int|
                0 <= l < indexes@.len() ==> (#[trigger] indexes@[l] as int) < orig.len()
                    && is_pronoun_token(orig[indexes@[l] as int]),
            forall|l1: int, l2: int|
                0 <= l1 < l2 < indexes@.len() ==> indexes@[l1] < indexes@[l2],
            t@.len() == orig.len(),
            forall|l: int|
                k <= l < indexes@.len() && l != gsel ==> t@[#[trigger] indexes@[l] as int]
                    == toks0[indexes@[l] as int],
            forall|j: int| 0 <= j < orig.len() ==> token_rewrite_ok(orig[j], #[trigger] t@[j]@),
            guaranteed_rewritten(orig[gidx as int], t@[gidx as int]@),
        decreases indexes@.len() - k,
    {
        if k != gsel {
            let idx = indexes[k];
            if random_ratio(3, 4) {
                proof {
                    assert(idx != gidx);
                    assert(t@[idx as int] == toks0[idx as int]);
                    assert(t@[idx as int]@ == orig[idx as int]);
                }
                randomize_pronoun(&mut t, idx);
            }
        }
        k += 1;
    }
    let out = join_with_spaces(&t);
    proof {
        assert(is_pronoun_token(orig[gidx as int]));
        assert(has_pronoun(orig));
        let ts = t@.map_values(|s: String| s@);
        assert(pronoun_rewrite(orig, ts)) by {
            assert(forall|j: int| 0 <= j < orig.len() ==> token_rewrite_ok(orig[j], #[trigger] ts[j])) by {
                assert(forall|j: int| 0 <= j < orig.len() ==> ts[j] == t@[j]@);
            }
        }
        assert(ts[gidx as int] == t@[gidx as int]@);
        assert(guaranteed_rewritten(orig[gidx as int], ts[gidx as int]));
        assert(out@ == join_tokens(ts));
    }
    Some(out)
}

/// `out` is the input with a space and one of the scope's reaction symbols
/// appended.
pub open spec fn emote_outcome(input: Seq<char>, symbols: Seq<Seq<char>>, out: Seq<char>) -> bool {
    exists|i: int| 0 <= i < symbols.len() && out == input + " "@ + #[trigger] symbols[i]
}

/// The emote mutator. Behind a probability gate of 1/16: appends one of the
/// scope's reaction symbols, chosen uniformly, after a space. Not applicable
/// when the scope has no symbols.
pub fn append_emote_attempt(input: &str, symbols: &Vec<String>) -> (r: Option<String>)
    ensures
        symbols@.len() == 0 ==> r is None,
        r matches Some(out) ==> emote_outcome(
            input@,
            symbols@.map_values(|s: String| s@),
            out@,
        ),
{
    if !random_ratio(1, 16) {
        return None;
    }
    if symbols.len() == 0 {
        return None;
    }
    let i = random_below(symbols.len());
    let mut out = String::from_str(input);
    out.append(" ");
    out.append(symbols[i].as_str());
    proof {
        let views = symbols@.map_values(|s: String| s@);
        assert(views[i as int] == symbols@[i as int]@);
        assert(out@ == input@ + " "@ + views[i as int]);
    }
    Some(out)
}

/// The first `k` tokens (all of them if there are fewer).
pub open spec fn take_toks(ts: Seq<Seq<char>>, k: int) -> Seq<Seq<char>> {
    if k <= ts.len() {
        ts.subrange(0, k)
    } else {
        ts
    }
}

/// Everything after the first `k` tokens (nothing if there are fewer).
pub open spec fn skip_toks(ts: Seq<Seq<char>>, k: int) -> Seq<Seq<char>> {
    if k <= ts.len() {
        ts.subrange(k, ts.len() as int)
    } else {
        Seq::empty()
    }
}

/// The splice of token sequences `a` (the input) and `b` (a sampled
/// utterance) at split point `k`: a prefix of the longer side's tokens
/// followed by a suffix of the shorter side's, each joined with spaces and
/// concatenated directly.
pub open spec fn spliced(a: Seq<Seq<char>>, b: Seq<Seq<char>>, k: int) -> Seq<char> {
    if a.len() > b.len() {
        join_tokens(take_toks(a, k)) + join_tokens(skip_toks(b, k))
    } else {
        join_tokens(take_toks(b, k)) + join_tokens(skip_toks(a, k))
    }
}

/// `out` is the input spliced with some stored utterance at some split point.
pub open spec fn splice_outcome(
    input: Seq<char>,
    corpus: Seq<SclunerMessage>,
    out: Seq<char>,
) -> bool {
    exists|mi: int, k: int|
        0 <= mi < corpus.len() && 0 <= k && out == #[trigger] spliced(
            tokenize(input),
            tokenize(corpus[mi].content@),
            k,
        )
}

/// Clones the first `k` tokens (all of them if there are fewer).
fn take_tokens(ts: &Vec<String>, k: usize) -> (r: Vec<String>)
    ensures
        r@.map_values(|t: String| t@) == take_toks(ts@.map_values(|t: String| t@), k as int),
{
    let stop = if k <= ts.len() {
        k
    } else {
        ts.len()
    };
    let mut r: Vec<String> = Vec::new();
    let mut i: usize = 0;
    while i < stop
        invariant
            stop <= ts@.len(),
            i <= stop,
            r@ == ts@.subrange(0, i as int),
        decreases stop - i,
    {
        r.push(ts[i].clone());
        proof {
            assert(r@ =~= ts@.subrange(0, i + 1 as int));
        }
        i += 1;
    }
    proof {
        let views = ts@.map_values(|t: String| t@);
        assert(r@.map_values(|t: String| t@) =~= take_toks(views, k as int));
    }
    r
}

/// Clones everything after the first `k` tokens (nothing if there are fewer).
fn skip_tokens(ts: &Vec<String>, k: usize) -> (r: Vec<String>)
    ensures
        r@.map_values(|t: String| t@) == skip_toks(ts@.map_values(|t: String| t@), k as int),
{
    let begin = if k <= ts.len() {
        k
    } else {
        ts.len()
    };
    let mut r: Vec<String> = Vec::new();
    let mut i: usize = begin;
    while i < ts.len()
        invariant
            begin <= i <= ts@.len(),
            r@ == ts@.subrange(begin as int, i as int),
        decreases ts@.len() - i,
    {
        r.push(ts[i].clone());
        proof {
            assert(r@ =~= ts@.subrange(begin as int, i + 1 as int));
        }
        i += 1;
    }
    proof {
        let views = ts@.map_values(|t: String| t@);
        assert(r@.map_values(|t: String| t@) =~= skip_toks(views, k as int));
    }
    r
}

/// The splicer mutator. Behind a probability gate of 1/16: tokenizes the
/// input and a second utterance drawn uniformly from the corpus, draws a
/// split point over the longer side, and concatenates the longer side's
/// token prefix with the shorter side's token suffix. Not applicable when
/// the corpus is empty or neither side has a token.
pub fn splicer_attempt(input: &str, corpus: &Vec<SclunerMessage>) -> (r: Option<String>)
    ensures
        corpus@.len() == 0 ==> r is None,
        r matches Some(out) ==> splice_outcome(input@, corpus@, out@),
{
    if !random_ratio(1, 16) {
        return None;
    }
    if corpus.len() == 0 {
        return None;
    }
    let mi = random_below(corpus.len());
    let input_toks = tokens_of(input);
    let other_toks = tokens_of(corpus[mi].content.as_str());
    let ghost a = input_toks@.map_values(|t: String| t@);
    let ghost b = other_toks@.map_values(|t: String| t@);
    let longer_len = if input_toks.len() > other_toks.len() {
        input_toks.len()
    } else {
        other_toks.len()
    };
    if longer_len == 0 {
        return None;
    }
    let k = random_below(longer_len);
    let (prefix, suffix) = if input_toks.len() > other_toks.len() {
        (take_tokens(&input_toks, k), skip_tokens(&other_toks, k))
    } else {
        (take_tokens(&other_toks, k), skip_tokens(&input_toks, k))
    };
    let mut out = join_with_spaces(&prefix);
    let tail = join_with_spaces(&suffix);
    out.append(tail.as_str());
    proof {
        assert(out@ == spliced(a, b, k as int));
        assert(a == tokenize(input@));
        assert(b == tokenize(corpus@[mi as int].content@));
    }
    Some(out)
}

/// Everything `maybe_mutate` may hand back: the input itself, or the result
/// of exactly one mutator that the scope has enabled. An empty `allowed`
/// list forces the input through unchanged.
pub open spec fn mutation_outcome(
    input: Seq<char>,
    corpus: Seq<SclunerMessage>,
    symbols: Seq<Seq<char>>,
    allowed: Seq<DefinedMutators>,
    out: Seq<char>,
) -> bool {
    ||| out == input
    ||| (allowed.contains(DefinedMutators::AppendEmote) && emote_outcome(input, symbols, out))
    ||| (allowed.contains(DefinedMutators::MessageSplicer) && splice_outcome(input, corpus, out))
    ||| (allowed.contains(DefinedMutators::Misgendering) && misgender_outcome(input, out))
}

/// Runs the scope's enabled mutators in a freshly shuffled order; the first
/// one whose attempt succeeds short-circuits the chain, and when none
/// succeeds the input passes through unchanged.
pub fn maybe_mutate(
    input: String,
    allowed: &Vec<DefinedMutators>,
    corpus: &Vec<SclunerMessage>,
    symbols: &Vec<String>,
) -> (r: String)
    ensures
        mutation_outcome(input@, corpus@, symbols@.map_values(|s: String| s@), allowed@, r@),
{
    let mut order: Vec<DefinedMutators> = Vec::new();
    let mut i: usize = 0;
    while i < allowed.len()
        invariant
            i <= allowed@.len(),
            order@ == allowed@.subrange(0, i as int),
        decreases allowed@.len() - i,
    {
        order.push(allowed[i]);
        proof {
            assert(order@ =~= allowed@.subrange(0, i + 1 as int));
        }
        i += 1;
    }
    proof {
        assert(order@ =~= allowed@);
    }
    shuffle_mutators(&mut order);
    let mut j: usize = 0;
    while j < order.len()
        invariant
            j <= order@.len(),
            order@.to_multiset() == allowed@.to_multiset(),
        decreases order@.len() - j,
    {
        proof {
            broadcast use vstd::seq_lib::group_to_multiset_ensures;

            assert(order@.contains(order@[j as int]));
            assert(order@.to_multiset().count(order@[j as int]) > 0);
            assert(allowed@.to_multiset().count(order@[j as int]) > 0);
            assert(allowed@.contains(order@[j as int]));
        }
        let attempt = match order[j] {
            DefinedMutators::AppendEmote => append_emote_attempt(input.as_str(), symbols),
            DefinedMutators::MessageSplicer => splicer_attempt(input.as_str(), corpus),
            DefinedMutators::Misgendering => misgender_attempt(input.as_str()),
        };
        if let Some(out) = attempt {
            return out;
        }
        j += 1;
    }
    input
}

} // verus!
