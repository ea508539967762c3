//! Per-scope state: the corpus, the sleep flag, the enabled mutators and the
//! emission-probability configuration.

use vstd::prelude::*;

use crate::corpus::{
    admissible, corpus_insert, duplicate_messages, eligible, swap_removed, SclunerMessage,
    CORPUS_CAP, EVICT_WINDOW_LO,
};
use crate::mutators::{default_mutators, DefinedMutators};
use crate::sampling::random_below;

verus! {

/// Why a proc configuration was rejected.
#[derive(Clone, Copy, Debug, PartialEq, Eq, Structural)]
pub enum ProcConfigError {
    /// `proc_out_of` was zero, so the emission probability is undefined.
    OutOfZero,
    /// `min_proc` exceeded `max_proc`, so the resampling range is empty.
    MinAboveMax,
}

/// Two scope states that agree field for field (collections compared by
/// their contents).
pub open spec fn guild_like(a: SclunerGuild, b: SclunerGuild) -> bool {
    &&& a.guild_id == b.guild_id
    &&& a.messages@ == b.messages@
    &&& a.asleep == b.asleep
    &&& a.allowed_mutators@ == b.allowed_mutators@
    &&& a.min_proc == b.min_proc
    &&& a.max_proc == b.max_proc
    &&& a.proc_out_of == b.proc_out_of
    &&& a.proc == b.proc
}

/// Copies a mutator list element by element.
pub fn duplicate_mutator_list(v: &Vec<DefinedMutators>) -> (r: Vec<DefinedMutators>)
    ensures
        r@ == v@,
{
    let mut r: Vec<DefinedMutators> = Vec::new();
    let mut i: usize = 0;
    while i < v.len()
        invariant
            i <= v@.len(),
            r@ == v@.subrange(0, i as int),
        decreases v@.len() - i,
    {
        r.push(v[i]);
        proof {
            assert(r@ =~= v@.subrange(0, i + 1 as int));
        }
        i += 1;
    }
    proof {
        assert(r@ =~= v@);
    }
    r
}

/// How the current proc may relate to its old value after an event: either
/// untouched, or freshly drawn from `[min, max)` (a single-point range keeps
/// `min`).
pub open spec fn proc_resample_ok(min: u32, max: u32, old_p: u32, new_p: u32) -> bool {
    ||| new_p == old_p
    ||| (min < max && min <= new_p && new_p < max)
    ||| (min == max && new_p == min)
}

/// One scope's state.
pub struct SclunerGuild {
    pub guild_id: u64,
    pub messages: Vec<SclunerMessage>,
    pub asleep: bool,
    pub allowed_mutators: Vec<DefinedMutators>,
    pub min_proc: u32,
    pub max_proc: u32,
    pub proc_out_of: u32,
    pub proc: u32,
}

impl SclunerGuild {
    /// The scope invariant: a well-defined probability configuration and a
    /// corpus within its capacity.
    pub open spec fn wf(self) -> bool {
        &&& self.proc_out_of > 0
        &&& self.min_proc <= self.max_proc
        &&& self.messages@.len() <= CORPUS_CAP
    }

    /// Fresh scope: empty corpus, awake, all mutators enabled, default proc
    /// configuration with the current proc drawn from its range.
    pub fn new(guild_id: u64) -> (r: Self)
        ensures
            r.wf(),
            r.guild_id == guild_id,
            r.messages@.len() == 0,
            !r.asleep,
            r.allowed_mutators@ == default_mutators(),
            r.min_proc == 1 && r.max_proc == 4 && r.proc_out_of == 18,
            1 <= r.proc < 4,
    {
        let d = random_below(3);
        SclunerGuild {
            guild_id,
            messages: Vec::new(),
            asleep: false,
            allowed_mutators: DefinedMutators::default_allowed(),
            min_proc: 1,
            max_proc: 4,
            proc_out_of: 18,
            proc: 1 + (d as u32),
        }
    }

    /// Sets the emission-probability configuration, rejecting one under which
    /// the probability computation would be undefined.
    pub fn set_proc_config(&mut self, min: u32, max: u32, out_of: u32) -> (r: Result<
        (),
        ProcConfigError,
    >)
        requires
            old(self).wf(),
        ensures
            final(self).wf(),
            (r is Ok) == (out_of > 0 && min <= max),
            out_of == 0 ==> r == Result::<(), ProcConfigError>::Err(ProcConfigError::OutOfZero),
            out_of > 0 && min > max ==> r == Result::<(), ProcConfigError>::Err(
                ProcConfigError::MinAboveMax,
            ),
            r is Ok ==> final(self).min_proc == min && final(self).max_proc == max
                && final(self).proc_out_of == out_of,
            r is Err ==> final(self).min_proc == old(self).min_proc
                && final(self).max_proc == old(self).max_proc
                && final(self).proc_out_of == old(self).proc_out_of,
            final(self).guild_id == old(self).guild_id,
            final(self).messages == old(self).messages,
            final(self).asleep == old(self).asleep,
            final(self).allowed_mutators == old(self).allowed_mutators,
            final(self).proc == old(self).proc,
    {
        if out_of == 0 {
            return Err(ProcConfigError::OutOfZero);
        }
        if min > max {
            return Err(ProcConfigError::MinAboveMax);
        }
        self.min_proc = min;
        self.max_proc = max;
        self.proc_out_of = out_of;
        Ok(())
    }

    /// Flips the sleep flag; returns the new value.
    pub fn toggle_sleep(&mut self) -> (asleep: bool)
        ensures
            final(self).asleep == !old(self).asleep,
            asleep == final(self).asleep,
            final(self).guild_id == old(self).guild_id,
            final(self).messages == old(self).messages,
            final(self).allowed_mutators == old(self).allowed_mutators,
            final(self).min_proc == old(self).min_proc,
            final(self).max_proc == old(self).max_proc,
            final(self).proc_out_of == old(self).proc_out_of,
            final(self).proc == old(self).proc,
    {
        self.asleep = !self.asleep;
        self.asleep
    }

    /// Admits `m` into the corpus if the admission filter passes; on
    /// overflow, evicts one element from the trailing window.
    pub fn accept_utterance(
        &mut self,
        m: SclunerMessage,
        has_mentions: bool,
        subscribed: bool,
        permitted: bool,
    ) -> (accepted: bool)
        requires
            old(self).wf(),
        ensures
            final(self).wf(),
            accepted == admissible(m.content@, has_mentions, subscribed, permitted),
            !accepted ==> *final(self) == *old(self),
            accepted && old(self).messages@.len() < CORPUS_CAP
                ==> final(self).messages@ == old(self).messages@.push(m),
            accepted && old(self).messages@.len() == CORPUS_CAP ==> exists|j: int|
                EVICT_WINDOW_LO <= j <= CORPUS_CAP && final(self).messages@ == #[trigger]
                    swap_removed(old(self).messages@.push(m), j),
            accepted ==> final(self).messages@.len() == if old(self).messages@.len() < CORPUS_CAP {
                old(self).messages@.len() + 1
            } else {
                CORPUS_CAP as nat
            },
            final(self).guild_id == old(self).guild_id,
            final(self).asleep == old(self).asleep,
            final(self).allowed_mutators == old(self).allowed_mutators,
            final(self).min_proc == old(self).min_proc,
            final(self).max_proc == old(self).max_proc,
            final(self).proc_out_of == old(self).proc_out_of,
            final(self).proc == old(self).proc,
    {
        if !eligible(m.content.as_str(), has_mentions, subscribed, permitted) {
            return false;
        }
        corpus_insert(&mut self.messages, m, CORPUS_CAP, EVICT_WINDOW_LO);
        true
    }

    /// A field-for-field copy whose collections hold the same contents.
    pub fn duplicate(&self) -> (r: Self)
        ensures
            guild_like(r, *self),
    {
        SclunerGuild {
            guild_id: self.guild_id,
            messages: duplicate_messages(&self.messages),
            asleep: self.asleep,
            allowed_mutators: duplicate_mutator_list(&self.allowed_mutators),
            min_proc: self.min_proc,
            max_proc: self.max_proc,
            proc_out_of: self.proc_out_of,
            proc: self.proc,
        }
    }

    /// Checks the scope invariant on a value of unknown provenance.
    pub fn check_wf(&self) -> (ok: bool)
        ensures
            ok == self.wf(),
    {
        self.proc_out_of > 0 && self.min_proc <= self.max_proc && self.messages.len() <= CORPUS_CAP
    }

    /// Draws a fresh current proc uniformly from `[min_proc, max_proc)`, or
    /// keeps `min_proc` when the range is a single point.
    pub fn resample_proc(&mut self)
        requires
            old(self).wf(),
        ensures
            final(self).wf(),
            old(self).min_proc < old(self).max_proc ==> old(self).min_proc <= final(self).proc
                < old(self).max_proc,
            old(self).min_proc == old(self).max_proc ==> final(self).proc == old(self).min_proc,
            proc_resample_ok(old(self).min_proc, old(self).max_proc, old(self).proc, final(self).proc),
            final(self).guild_id == old(self).guild_id,
            final(self).messages == old(self).messages,
            final(self).asleep == old(self).asleep,
            final(self).allowed_mutators == old(self).allowed_mutators,
            final(self).min_proc == old(self).min_proc,
            final(self).max_proc == old(self).max_proc,
            final(self).proc_out_of == old(self).proc_out_of,
    {
        if self.min_proc < self.max_proc {
            let span = (self.max_proc - self.min_proc) as usize;
            let d = random_below(span);
            self.proc = self.min_proc + (d as u32);
        } else {
            self.proc = self.min_proc;
        }
    }
}

} // verus!
