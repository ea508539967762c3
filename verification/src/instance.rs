//! The process-wide state and the handling of one inbound event: lazy scope
//! creation, the sleep gate, reaction and emission planning, admission, and
//! wholesale snapshot restore. The caller owns the clock and the transport;
//! this code only decides.

use vstd::prelude::*;
use vstd::string::*;

use crate::access::{spec_is_permitted, spec_is_subscribed, AccessRegistry};
use crate::backup::{check_snapshot_wf, snapshot_wf, RestoreError, SclunerBackup};
use crate::corpus::{admissible, swap_removed, SclunerMessage, CORPUS_CAP, EVICT_WINDOW_LO};
use crate::guild::{proc_resample_ok, SclunerGuild};
use crate::mutators::{default_mutators, DefinedMutators};
use crate::selection::{
    decide_emission, plan_emissions, plan_entries_ok, plan_reactions, reactions_ok,
    PlannedMessage, MAX_CONTINUATIONS, MAX_REACTIONS,
};
use crate::text::{contains_sub, contains_substring};
use crate::vec_replace;

verus! {

/// A snapshot becomes due this many seconds after the last one.
pub const SNAPSHOT_INTERVAL_SECS: u64 = 43200;

/// One inbound chat event, reduced to what the core decides on.
pub struct InboundEvent {
    /// The scope the event arrived in; `None` outside any scope.
    pub scope_id: Option<u64>,
    pub author_id: u64,
    pub author_is_bot: bool,
    pub content: String,
    /// The event carries mentions of other users.
    pub has_mentions: bool,
    /// The event explicitly addresses the process (a mention of it, or a
    /// reply to one of its emissions); such events always emit.
    pub addressed: bool,
}

/// What one handled event asks the transport to do.
pub struct EventOutcome {
    /// A snapshot is overdue and should be taken now.
    pub snapshot_due: bool,
    /// Reaction symbols to attach to the inbound message, in order.
    pub reactions: Vec<String>,
    /// The planned emission burst, in order.
    pub emissions: Vec<PlannedMessage>,
    /// An emission was due but the scope's corpus is empty.
    pub empty_corpus: bool,
    /// The utterance passed admission and was stored.
    pub accepted: bool,
}

/// Events the core does not process at all: bot authors, events outside any
/// scope, and the process's own command or escape phrases.
pub open spec fn event_ignored(ev: InboundEvent) -> bool {
    ||| ev.author_is_bot
    ||| ev.scope_id is None
    ||| contains_sub(ev.content@, "/unscule"@)
    ||| contains_sub(ev.content@, "::SCL_"@)
}

/// Pairwise distinct scope ids.
pub open spec fn ids_unique(gs: Seq<SclunerGuild>) -> bool {
    forall|i: int, j: int|
        0 <= i < gs.len() && 0 <= j < gs.len() && i != j ==> gs[i].guild_id != gs[j].guild_id
}

/// Some scope in `gs` has id `gid`.
pub open spec fn has_scope(gs: Seq<SclunerGuild>, gid: u64) -> bool {
    exists|i: int| 0 <= i < gs.len() && gs[i].guild_id == gid
}

/// The index of the scope with id `gid` (meaningful under `ids_unique` and
/// `has_scope`).
pub open spec fn scope_index(gs: Seq<SclunerGuild>, gid: u64) -> int {
    choose|i: int| 0 <= i < gs.len() && gs[i].guild_id == gid
}

/// Under unique ids, any position holding `gid` is the scope index.
pub proof fn lemma_scope_index(gs: Seq<SclunerGuild>, gid: u64, i: int)
    requires
        ids_unique(gs),
        0 <= i < gs.len(),
        gs[i].guild_id == gid,
    ensures
        has_scope(gs, gid),
        scope_index(gs, gid) == i,
{
    assert(has_scope(gs, gid));
    let j = scope_index(gs, gid);
    assert(0 <= j < gs.len() && gs[j].guild_id == gid);
    if j != i {
        assert(gs[i].guild_id != gs[j].guild_id);
    }
}

/// The corpus of scope `gid` in `gs`, or the empty corpus before the scope
/// exists.
pub open spec fn scope_corpus(gs: Seq<SclunerGuild>, gid: u64) -> Seq<SclunerMessage> {
    if has_scope(gs, gid) {
        gs[scope_index(gs, gid)].messages@
    } else {
        Seq::empty()
    }
}

/// Whether scope `gid` in `gs` is asleep (a scope not yet created is awake).
pub open spec fn scope_asleep(gs: Seq<SclunerGuild>, gid: u64) -> bool {
    has_scope(gs, gid) && gs[scope_index(gs, gid)].asleep
}

/// The mutators scope `gid` in `gs` has enabled (a scope not yet created
/// starts with the default set).
pub open spec fn scope_allowed(gs: Seq<SclunerGuild>, gid: u64) -> Seq<DefinedMutators> {
    if has_scope(gs, gid) {
        gs[scope_index(gs, gid)].allowed_mutators@
    } else {
        default_mutators()
    }
}

/// The whole process state: every scope plus the access registry.
pub struct SclunerInstance {
    pub guilds: Vec<SclunerGuild>,
    pub access: AccessRegistry,
}

impl SclunerInstance {
    /// The state invariant: every scope well-formed, scope ids unique.
    pub open spec fn wf(self) -> bool {
        &&& forall|i: int| 0 <= i < self.guilds@.len() ==> (#[trigger] self.guilds@[i]).wf()
        &&& ids_unique(self.guilds@)
    }

    /// Fresh state: no scopes, empty registry.
    pub fn new() -> (r: Self)
        ensures
            r.wf(),
            r.guilds@.len() == 0,
            r.access.whitelist@.len() == 0,
            r.access.blacklist@.len() == 0,
            r.access.modlist@.len() == 0,
    {
        SclunerInstance { guilds: Vec::new(), access: AccessRegistry::new() }
    }

    /// Finds the scope with id `gid`.
    fn find_guild(&self, gid: u64) -> (r: Option<usize>)
        ensures
            r matches Some(i) ==> i < self.guilds@.len() && self.guilds@[i as int].guild_id
                == gid,
            r is None ==> !has_scope(self.guilds@, gid),
    {
        let mut i: usize = 0;
        while i < self.guilds.len()
            invariant
                i <= self.guilds@.len(),
                forall|j: int| 0 <= j < i ==> self.guilds@[j].guild_id != gid,
            decreases self.guilds@.len() - i,
        {
            if self.guilds[i].guild_id == gid {
                return Some(i);
            }
            i += 1;
        }
        None
    }

    /// Handles one inbound event: filters what the core ignores, creates the
    /// scope lazily, honours the sleep flag, plans reactions and the
    /// emission burst over the corpus as it stood before this event,
    /// resamples the current proc after a successful non-forced emission,
    /// and finally runs admission. Also reports whether a snapshot is
    /// overdue, given the seconds elapsed since the last one.
    pub fn handle_event(
        &mut self,
        ev: InboundEvent,
        elapsed_secs: u64,
        symbols: &Vec<String>,
    ) -> (out: Option<EventOutcome>)
        requires
            old(self).wf(),
        ensures
            final(self).wf(),
            (out is None) == event_ignored(ev),
            out is None ==> *final(self) == *old(self),
            final(self).access == old(self).access,
            out matches Some(o) ==> o.snapshot_due == (elapsed_secs >= SNAPSHOT_INTERVAL_SECS),
            out matches Some(o) ==> o.reactions@.len() <= MAX_REACTIONS && reactions_ok(
                o.reactions@,
                symbols@,
            ),
            out is Some ==> (ev.scope_id matches Some(gid) ==> {
                let prior = scope_corpus(old(self).guilds@, gid);
                let asleep = scope_asleep(old(self).guilds@, gid);
                let o = out->Some_0;
                &&& has_scope(final(self).guilds@, gid)
                &&& final(self).guilds@.len() == old(self).guilds@.len() + (if has_scope(
                    old(self).guilds@,
                    gid,
                ) {
                    0int
                } else {
                    1int
                })
                &&& forall|j: int|
                    0 <= j < old(self).guilds@.len() && old(self).guilds@[j].guild_id != gid
                        ==> final(self).guilds@[j] == old(self).guilds@[j]
                &&& o.accepted == (!asleep && admissible(
                    ev.content@,
                    ev.has_mentions,
                    spec_is_subscribed(old(self).access, ev.author_id),
                    spec_is_permitted(old(self).access, ev.author_id),
                ))
                &&& (asleep ==> o.reactions@.len() == 0 && o.emissions@.len() == 0
                    && !o.empty_corpus)
                &&& o.emissions@.len() <= MAX_CONTINUATIONS
                &&& plan_entries_ok(
                    prior,
                    symbols@.map_values(|s: String| s@),
                    scope_allowed(old(self).guilds@, gid),
                    o.emissions@,
                )
                &&& (ev.addressed && !asleep && prior.len() > 0 ==> o.emissions@.len() >= 1)
                &&& (ev.addressed && !asleep && prior.len() == 0 ==> o.empty_corpus)
                &&& (o.empty_corpus ==> prior.len() == 0 && o.emissions@.len() == 0)
                &&& {
                    let fg = final(self).guilds@[scope_index(final(self).guilds@, gid)];
                    &&& fg.guild_id == gid
                    &&& (o.accepted ==> fg.messages@.len() == (if prior.len() < CORPUS_CAP {
                        prior.len() + 1
                    } else {
                        CORPUS_CAP as nat
                    }))
                    &&& (o.accepted ==> {
                        let m = (SclunerMessage { user_id: ev.author_id, content: ev.content });
                        &&& (prior.len() < CORPUS_CAP ==> fg.messages@ == prior.push(m))
                        &&& (prior.len() == CORPUS_CAP ==> exists|j: int|
                            EVICT_WINDOW_LO <= j <= CORPUS_CAP && fg.messages@ == #[trigger]
                                swap_removed(prior.push(m), j))
                    })
                    &&& (!o.accepted ==> fg.messages@ == prior)
                    &&& (has_scope(old(self).guilds@, gid) ==> {
                        let pg = old(self).guilds@[scope_index(old(self).guilds@, gid)];
                        &&& fg.asleep == pg.asleep
                        &&& fg.allowed_mutators == pg.allowed_mutators
                        &&& fg.min_proc == pg.min_proc
                        &&& fg.max_proc == pg.max_proc
                        &&& fg.proc_out_of == pg.proc_out_of
                        &&& proc_resample_ok(pg.min_proc, pg.max_proc, pg.proc, fg.proc)
                    })
                    &&& (!has_scope(old(self).guilds@, gid) ==> {
                        &&& !fg.asleep
                        &&& fg.allowed_mutators@ == default_mutators()
                        &&& fg.min_proc == 1 && fg.max_proc == 4 && fg.proc_out_of == 18
                        &&& 1 <= fg.proc < 4
                    })
                }
            }),
    {
        if ev.author_is_bot {
            return None;
        }
        let gid = match ev.scope_id {
            None => {
                return None;
            },
            Some(g) => g,
        };
        if contains_substring(ev.content.as_str(), "/unscule") {
            return None;
        }
        if contains_substring(ev.content.as_str(), "::SCL_") {
            return None;
        }
        let snapshot_due = elapsed_secs >= SNAPSHOT_INTERVAL_SECS;
        let subscribed = self.access.is_subscribed(ev.author_id);
        let permitted = self.access.is_permitted(ev.author_id);
        let ghost gs0 = self.guilds@;
        let idx: usize = match self.find_guild(gid) {
            Some(i) => {
                proof {
                    lemma_scope_index(gs0, gid, i as int);
                }
                i
            },
            None => {
                let g = SclunerGuild::new(gid);
                self.guilds.push(g);
                proof {
                    assert(!has_scope(gs0, gid));
                    assert(self.guilds@[gs0.len() as int].guild_id == gid);
                    assert(ids_unique(self.guilds@));
                }
                self.guilds.len() - 1
            },
        };
        let ghost gs1 = self.guilds@;
        proof {
            assert(0 <= idx < gs1.len() && gs1[idx as int].guild_id == gid);
            assert(ids_unique(gs1));
            if has_scope(gs0, gid) {
                assert(gs1 == gs0);
                assert(scope_index(gs0, gid) == idx as int);
            } else {
                assert(gs1[idx as int].messages@.len() == 0);
                assert(!gs1[idx as int].asleep);
            }
        }
        let hollow = SclunerGuild {
            guild_id: gid,
            messages: Vec::new(),
            asleep: false,
            allowed_mutators: Vec::new(),
            min_proc: 0,
            max_proc: 0,
            proc_out_of: 1,
            proc: 0,
        };
        let mut g = vec_replace(&mut self.guilds, idx, hollow);
        let ghost prior_guild = g;
        proof {
            assert(prior_guild == gs1[idx as int]);
            assert(prior_guild.wf());
        }
        if g.asleep {
            let _ = vec_replace(&mut self.guilds, idx, g);
            proof {
                assert(self.guilds@ =~= gs1);
                lemma_scope_index(self.guilds@, gid, idx as int);
                assert(scope_asleep(gs0, gid));
            }
            return Some(
                EventOutcome {
                    snapshot_due,
                    reactions: Vec::new(),
                    emissions: Vec::new(),
                    empty_corpus: false,
                    accepted: false,
                },
            );
        }
        let reactions = plan_reactions(symbols);
        let emit = decide_emission(&g, ev.addressed);
        let mut emissions: Vec<PlannedMessage> = Vec::new();
        let mut empty_corpus = false;
        if emit {
            match plan_emissions(&g, symbols) {
                Ok(p) => {
                    emissions = p;
                    if !ev.addressed {
                        g.resample_proc();
                    }
                },
                Err(_) => {
                    empty_corpus = true;
                },
            }
        }
        let accepted = g.accept_utterance(
            SclunerMessage::new(ev.author_id, ev.content),
            ev.has_mentions,
            subscribed,
            permitted,
        );
        let ghost g_fin = g;
        let _ = vec_replace(&mut self.guilds, idx, g);
        proof {
            assert(self.guilds@ =~= gs1.update(idx as int, g_fin));
            assert(g_fin.guild_id == gid);
            assert(forall|j: int|
                0 <= j < gs1.len() && j != idx ==> self.guilds@[j] == gs1[j]);
            assert(ids_unique(self.guilds@));
            assert(forall|i: int| 0 <= i < self.guilds@.len() ==> (#[trigger] self.guilds@[i]).wf());
            lemma_scope_index(self.guilds@, gid, idx as int);
            assert(g_fin.messages@ == self.guilds@[scope_index(self.guilds@, gid)].messages@);
        }
        Some(EventOutcome { snapshot_due, reactions, emissions, empty_corpus, accepted })
    }

    /// Replaces the whole state with a validated snapshot; an invalid one is
    /// rejected and the prior state is retained.
    pub fn load_backup(&mut self, b: SclunerBackup) -> (r: Result<(), RestoreError>)
        requires
            old(self).wf(),
        ensures
            final(self).wf(),
            (r is Ok) == snapshot_wf(b),
            !snapshot_wf(b) ==> r == Result::<(), RestoreError>::Err(RestoreError::InvalidSnapshot)
                && *final(self) == *old(self),
            r is Ok ==> final(self).guilds == b.guilds_values && final(self).access.whitelist
                == b.whitelist && final(self).access.blacklist == b.blacklist
                && final(self).access.modlist == b.modlist,
    {
        if !check_snapshot_wf(&b) {
            return Err(RestoreError::InvalidSnapshot);
        }
        let SclunerBackup { guilds_keys, guilds_values, whitelist, blacklist, modlist } = b;
        proof {
            assert(ids_unique(guilds_values@)) by {
                assert(forall|i: int, j: int|
                    0 <= i < b.guilds_values@.len() && 0 <= j < b.guilds_values@.len() && i != j
                        ==> b.guilds_values@[i].guild_id != b.guilds_values@[j].guild_id) by {
                    assert(forall|i: int|
                        0 <= i < b.guilds_values@.len() ==> b.guilds_keys@[i] == (#[trigger]
                        b.guilds_values@[i]).guild_id);
                }
            }
        }
        self.guilds = guilds_values;
        self.access.whitelist = whitelist;
        self.access.blacklist = blacklist;
        self.access.modlist = modlist;
        Ok(())
    }
}

} // verus!
