//! The selection engine: decides whether a qualifying event triggers an
//! emission and plans the multi-message continuation burst. Planning is pure;
//! actually sending the planned messages (and pausing for the planned
//! delays) is the transport's job.

use vstd::prelude::*;
use vstd::string::*;

use crate::corpus::{pick_uniform_random, SclunerMessage};
use crate::guild::SclunerGuild;
use crate::mutators::{maybe_mutate, mutation_outcome, DefinedMutators};
use crate::sampling::{random_below, random_ratio};
use crate::text::{tokenize, word_count};

verus! {

/// Why an emission produced nothing.
#[derive(Clone, Copy, Debug, PartialEq, Eq, Structural)]
pub enum SelectionError {
    /// The scope has no stored utterances to emit.
    EmptyCorpus,
}

/// One planned outbound message and the simulated typing delay before it.
pub struct PlannedMessage {
    pub text: String,
    pub delay_millis: u64,
}

/// Defensive cap on the continuation loop, so a run of lucky coin flips
/// cannot produce an unbounded burst.
pub const MAX_CONTINUATIONS: usize = 50;

/// Simulated typing delay per word, in milliseconds.
pub const DELAY_UNIT_MILLIS: u64 = 100;

/// The simulated typing delay for a text of `words` words: proportional to
/// the word count, saturating only at the machine limit.
pub open spec fn delay_for(words: nat) -> u64 {
    if (DELAY_UNIT_MILLIS as nat) * words > u64::MAX {
        u64::MAX
    } else {
        ((DELAY_UNIT_MILLIS as nat) * words) as u64
    }
}

/// Computes the simulated typing delay for `text`.
pub fn delay_millis_for(text: &str) -> (d: u64)
    ensures
        d == delay_for(tokenize(text@).len()),
{
    let wc = word_count(text);
    let words = wc as u64;
    if words > u64::MAX / DELAY_UNIT_MILLIS {
        u64::MAX
    } else {
        DELAY_UNIT_MILLIS * words
    }
}

/// Decides one emission: forced events always emit; otherwise a weighted
/// coin with probability `proc / proc_out_of` (clamped to certainty when
/// `proc >= proc_out_of`) decides.
pub fn decide_emission(g: &SclunerGuild, forced: bool) -> (emit: bool)
    requires
        g.wf(),
    ensures
        forced ==> emit,
        !forced && g.proc == 0 ==> !emit,
        g.proc >= g.proc_out_of ==> emit,
{
    if forced {
        return true;
    }
    let num = if g.proc > g.proc_out_of {
        g.proc_out_of
    } else {
        g.proc
    };
    random_ratio(num, g.proc_out_of)
}

/// The continuation marker appended to a message when the burst goes on.
pub open spec fn continuation_marker() -> Seq<char> {
    " ..."@
}

/// A planned text: some stored utterance run through the mutation pipeline
/// under the scope's enabled mutators, carrying the continuation marker
/// exactly when `marked` says so.
pub open spec fn emission_text_ok(
    corpus: Seq<SclunerMessage>,
    symbols: Seq<Seq<char>>,
    allowed: Seq<DefinedMutators>,
    t: Seq<char>,
    marked: bool,
) -> bool {
    exists|mi: int, u: Seq<char>|
        0 <= mi < corpus.len() && #[trigger] mutation_outcome(
            corpus[mi].content@,
            corpus,
            symbols,
            allowed,
            u,
        ) && t == (if marked {
            u + continuation_marker()
        } else {
            u
        })
}

/// Every planned message is a mutated stored utterance with the delay its
/// word count dictates; every message but the last carries the continuation
/// marker, the last does not — unless `open` leaves the last one's marker
/// undecided (used while a burst is still being built).
pub open spec fn plan_entries_ok_when(
    corpus: Seq<SclunerMessage>,
    symbols: Seq<Seq<char>>,
    allowed: Seq<DefinedMutators>,
    plan: Seq<PlannedMessage>,
    open: bool,
) -> bool {
    forall|i: int|
        0 <= i < plan.len() ==> emission_text_ok(
            corpus,
            symbols,
            allowed,
            (#[trigger] plan[i]).text@,
            i < plan.len() - 1 || open,
        ) && plan[i].delay_millis == delay_for(tokenize(plan[i].text@).len())
}

/// A finished burst: each message a mutated stored utterance with its
/// dictated delay, the continuation marker on exactly the non-final
/// messages.
pub open spec fn plan_entries_ok(
    corpus: Seq<SclunerMessage>,
    symbols: Seq<Seq<char>>,
    allowed: Seq<DefinedMutators>,
    plan: Seq<PlannedMessage>,
) -> bool {
    plan_entries_ok_when(corpus, symbols, allowed, plan, false)
}

/// Plans one emission burst for a scope: at least one message, at most
/// `MAX_CONTINUATIONS`, each a stored utterance run through the mutation
/// pipeline, each with its simulated typing delay; after each message the
/// burst continues with probability 1/4, and a message that will be followed
/// by another carries the continuation marker. Fails exactly when the corpus
/// is empty.
pub fn plan_emissions(g: &SclunerGuild, symbols: &Vec<String>) -> (r: Result<
    Vec<PlannedMessage>,
    SelectionError,
>)
    requires
        g.wf(),
    ensures
        (r is Err) == (g.messages@.len() == 0),
        r matches Err(e) ==> e == SelectionError::EmptyCorpus,
        r matches Ok(plan) ==> 1 <= plan@.len() <= MAX_CONTINUATIONS,
        r matches Ok(plan) ==> plan_entries_ok(
            g.messages@,
            symbols@.map_values(|s: String| s@),
            g.allowed_mutators@,
            plan@,
        ),
{
    if g.messages.len() == 0 {
        return Err(SelectionError::EmptyCorpus);
    }
    let ghost symviews = symbols@.map_values(|s: String| s@);
    let mut plan: Vec<PlannedMessage> = Vec::new();
    let mut keep_going = true;
    while keep_going && plan.len() < MAX_CONTINUATIONS
        invariant
            g.wf(),
            g.messages@.len() > 0,
            symviews == symbols@.map_values(|s: String| s@),
            plan@.len() <= MAX_CONTINUATIONS,
            plan@.len() >= 1 || keep_going,
            keep_going ==> plan@.len() < MAX_CONTINUATIONS,
            plan_entries_ok_when(g.messages@, symviews, g.allowed_mutators@, plan@, keep_going),
        decreases MAX_CONTINUATIONS - plan@.len() + (if keep_going {
            1int
        } else {
            0int
        }),
    {
        let cont = random_ratio(1, 4) && plan.len() + 1 < MAX_CONTINUATIONS;
        let picked = pick_uniform_random(&g.messages);
        let base = match picked {
            Some(m) => m,
            None => {
                proof {
                    assert(false);
                }
                return Err(SelectionError::EmptyCorpus);
            },
        };
        let ghost base_snapshot = base;
        let mut text = maybe_mutate(base.content, &g.allowed_mutators, &g.messages, symbols);
        let ghost mutated = text@;
        proof {
            let mi = choose|mi: int|
                0 <= mi < g.messages@.len() && base_snapshot == g.messages@[mi];
            assert(mutation_outcome(
                g.messages@[mi].content@,
                g.messages@,
                symviews,
                g.allowed_mutators@,
                mutated,
            ));
        }
        if cont {
            text.append(" ...");
        }
        proof {
            assert(text@ == (if cont {
                mutated + continuation_marker()
            } else {
                mutated
            }));
        }
        let delay = delay_millis_for(text.as_str());
        let ghost plan_pre = plan@;
        plan.push(PlannedMessage { text, delay_millis: delay });
        proof {
            assert(forall|i: int| 0 <= i < plan_pre.len() ==> plan@[i] == plan_pre[i]);
            assert(emission_text_ok(
                g.messages@,
                symviews,
                g.allowed_mutators@,
                plan@[plan@.len() - 1].text@,
                cont,
            ));
        }
        keep_going = cont;
    }
    proof {
        assert(plan@.len() >= 1);
    }
    Ok(plan)
}

/// Defensive cap on the reaction loop.
pub const MAX_REACTIONS: usize = 8;

/// Every planned reaction is one of the scope's symbols.
pub open spec fn reactions_ok(r: Seq<String>, symbols: Seq<String>) -> bool {
    forall|i: int|
        0 <= i < r.len() ==> exists|j: int|
            0 <= j < symbols.len() && (#[trigger] r[i])@ == symbols[j]@
}

/// Plans the reactions to one inbound message: with probability 1/8 a first
/// reaction symbol is drawn, and each reaction is followed by another with
/// probability 1/4, up to the cap. Every planned reaction is one of the
/// scope's symbols; no symbols means no reactions.
pub fn plan_reactions(symbols: &Vec<String>) -> (r: Vec<String>)
    ensures
        r@.len() <= MAX_REACTIONS,
        symbols@.len() == 0 ==> r@.len() == 0,
        reactions_ok(r@, symbols@),
{
    let mut r: Vec<String> = Vec::new();
    if symbols.len() == 0 {
        return r;
    }
    let mut keep = random_ratio(1, 8);
    while keep && r.len() < MAX_REACTIONS
        invariant
            symbols@.len() > 0,
            r@.len() <= MAX_REACTIONS,
            reactions_ok(r@, symbols@),
        decreases MAX_REACTIONS - r@.len() + (if keep {
            1int
        } else {
            0int
        }),
    {
        keep = random_ratio(1, 4);
        let j = random_below(symbols.len());
        let ghost r_pre = r@;
        r.push(symbols[j].clone());
        proof {
            assert(forall|i: int| 0 <= i < r_pre.len() ==> r@[i] == r_pre[i]);
            assert(r@[r@.len() - 1]@ == symbols@[j as int]@);
        }
    }
    r
}

} // verus!
