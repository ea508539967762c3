//! The snapshot codec's verified half: projecting the whole state into a
//! plain, serializable shape (parallel key/value sequences plus the three
//! identity lists), validating and applying a restored snapshot, and the
//! total migration from the legacy schema that lacked `allowed_mutators`.
//! Turning a snapshot into bytes and back is the byte transport's job.

use vstd::prelude::*;

use crate::corpus::SclunerMessage;
use crate::guild::{guild_like, SclunerGuild};
use crate::mutators::{default_mutators, DefinedMutators};

verus! {

/// The current snapshot schema: scope keys and scope states as parallel
/// sequences, plus the three identity lists.
pub struct SclunerBackup {
    pub guilds_keys: Vec<u64>,
    pub guilds_values: Vec<SclunerGuild>,
    pub whitelist: Vec<u64>,
    pub blacklist: Vec<u64>,
    pub modlist: Vec<u64>,
}

/// Copies an identity list element by element.
fn copy_ids(v: &Vec<u64>) -> (r: Vec<u64>)
    ensures
        r@ == v@,
{
    let mut r: Vec<u64> = Vec::new();
    let mut i: usize = 0;
    while i < v.len()
        invariant
            i <= v@.len(),
            r@ == v@.subrange(0, i as int),
        decreases v@.len() - i,
    {
        r.push(v[i]);
        proof {
            assert(r@ =~= v@.subrange(0, i + 1 as int));
        }
        i += 1;
    }
    proof {
        assert(r@ =~= v@);
    }
    r
}

/// `b` captures exactly the given state: its keys are the scope ids in
/// order, its values agree with the scopes field for field, and the three
/// lists are copied verbatim.
pub open spec fn snapshot_matches(
    guilds: Seq<SclunerGuild>,
    whitelist: Seq<u64>,
    blacklist: Seq<u64>,
    modlist: Seq<u64>,
    b: SclunerBackup,
) -> bool {
    &&& b.guilds_keys@ == guilds.map_values(|g: SclunerGuild| g.guild_id)
    &&& b.guilds_values@.len() == guilds.len()
    &&& forall|i: int| 0 <= i < guilds.len() ==> guild_like(#[trigger] b.guilds_values@[i], guilds[i])
    &&& b.whitelist@ == whitelist
    &&& b.blacklist@ == blacklist
    &&& b.modlist@ == modlist
}

impl SclunerBackup {
    /// Projects the state into the current snapshot schema.
    pub fn new(
        guilds: &Vec<SclunerGuild>,
        whitelist: &Vec<u64>,
        blacklist: &Vec<u64>,
        modlist: &Vec<u64>,
    ) -> (r: Self)
        ensures
            snapshot_matches(guilds@, whitelist@, blacklist@, modlist@, r),
    {
        let mut keys: Vec<u64> = Vec::new();
        let mut values: Vec<SclunerGuild> = Vec::new();
        let mut i: usize = 0;
        while i < guilds.len()
            invariant
                i <= guilds@.len(),
                keys@ == guilds@.subrange(0, i as int).map_values(|g: SclunerGuild| g.guild_id),
                values@.len() == i,
                forall|j: int| 0 <= j < i ==> guild_like(#[trigger] values@[j], guilds@[j]),
            decreases guilds@.len() - i,
        {
            keys.push(guilds[i].guild_id);
            proof {
                assert(keys@ =~= guilds@.subrange(0, i + 1 as int).map_values(
                    |g: SclunerGuild| g.guild_id,
                ));
            }
            let ghost values_pre = values@;
            values.push(guilds[i].duplicate());
            proof {
                assert(forall|j: int| 0 <= j < values_pre.len() ==> values@[j] == values_pre[j]);
            }
            i += 1;
        }
        proof {
            assert(guilds@.subrange(0, guilds@.len() as int) =~= guilds@);
        }
        SclunerBackup {
            guilds_keys: keys,
            guilds_values: values,
            whitelist: copy_ids(whitelist),
            blacklist: copy_ids(blacklist),
            modlist: copy_ids(modlist),
        }
    }
}

/// A snapshot that restore accepts: keys and values aligned (same length,
/// each key the id of its value), keys pairwise distinct, every scope state
/// within its invariant.
pub open spec fn snapshot_wf(b: SclunerBackup) -> bool {
    &&& b.guilds_keys@.len() == b.guilds_values@.len()
    &&& forall|i: int|
        0 <= i < b.guilds_values@.len() ==> (#[trigger] b.guilds_values@[i]).wf()
            && b.guilds_keys@[i] == b.guilds_values@[i].guild_id
    &&& forall|i: int, j: int|
        0 <= i < b.guilds_keys@.len() && 0 <= j < b.guilds_keys@.len() && i != j
            ==> b.guilds_keys@[i] != b.guilds_keys@[j]
}

/// Checks `snapshot_wf` on a snapshot of unknown provenance.
pub fn check_snapshot_wf(b: &SclunerBackup) -> (ok: bool)
    ensures
        ok == snapshot_wf(*b),
{
    if b.guilds_keys.len() != b.guilds_values.len() {
        return false;
    }
    let n = b.guilds_keys.len();
    let mut i: usize = 0;
    while i < n
        invariant
            n == b.guilds_keys@.len(),
            n == b.guilds_values@.len(),
            i <= n,
            forall|k: int|
                0 <= k < i ==> (#[trigger] b.guilds_values@[k]).wf() && b.guilds_keys@[k]
                    == b.guilds_values@[k].guild_id,
            forall|k: int, l: int| 0 <= k < i && 0 <= l < n && k != l ==> b.guilds_keys@[k]
                != b.guilds_keys@[l],
        decreases n - i,
    {
        if !b.guilds_values[i].check_wf() {
            return false;
        }
        if b.guilds_keys[i] != b.guilds_values[i].guild_id {
            return false;
        }
        let mut j: usize = i + 1;
        while j < n
            invariant
                n == b.guilds_keys@.len(),
                i < n,
                i < j <= n,
                forall|l: int| i < l < j ==> b.guilds_keys@[i as int] != b.guilds_keys@[l],
            decreases n - j,
        {
            if b.guilds_keys[i] == b.guilds_keys[j] {
                return false;
            }
            j += 1;
        }
        proof {
            assert(forall|k: int, l: int|
                0 <= k < i + 1 && 0 <= l < n && k != l ==> b.guilds_keys@[k]
                    != b.guilds_keys@[l]);
        }
        i += 1;
    }
    true
}

/// Why a restore failed.
#[derive(Clone, Copy, Debug, PartialEq, Eq, Structural)]
pub enum RestoreError {
    /// Neither the current nor the legacy schema could be decoded.
    Deserialization,
    /// The decoded snapshot violates the state invariants.
    InvalidSnapshot,
}

/// The legacy schema of one scope, which predates `allowed_mutators`.
pub struct SclunerGuildCompat {
    pub guild_id: u64,
    pub messages: Vec<SclunerMessage>,
    pub asleep: bool,
    pub min_proc: u32,
    pub max_proc: u32,
    pub proc_out_of: u32,
    pub proc: u32,
}

/// `g` is `c` carried over field for field, with the default mutator set
/// injected for the missing field.
pub open spec fn modernised_ok(c: SclunerGuildCompat, g: SclunerGuild) -> bool {
    &&& g.guild_id == c.guild_id
    &&& g.messages == c.messages
    &&& g.asleep == c.asleep
    &&& g.allowed_mutators@ == default_mutators()
    &&& g.min_proc == c.min_proc
    &&& g.max_proc == c.max_proc
    &&& g.proc_out_of == c.proc_out_of
    &&& g.proc == c.proc
}

impl SclunerGuildCompat {
    /// The total migration: carries every stored field over and enables the
    /// default mutator set.
    pub fn modernise(self) -> (r: SclunerGuild)
        ensures
            modernised_ok(self, r),
    {
        SclunerGuild {
            guild_id: self.guild_id,
            messages: self.messages,
            asleep: self.asleep,
            allowed_mutators: DefinedMutators::default_allowed(),
            min_proc: self.min_proc,
            max_proc: self.max_proc,
            proc_out_of: self.proc_out_of,
            proc: self.proc,
        }
    }
}

/// The legacy snapshot schema: like the current one, but its scope states
/// lack `allowed_mutators`.
pub struct SclunerBackupCompat {
    pub guilds_keys: Vec<u64>,
    pub guilds_values: Vec<SclunerGuildCompat>,
    pub whitelist: Vec<u64>,
    pub blacklist: Vec<u64>,
    pub modlist: Vec<u64>,
}

/// `b` is `c` migrated: keys and lists verbatim, every scope state migrated.
pub open spec fn backup_modernised_ok(c: SclunerBackupCompat, b: SclunerBackup) -> bool {
    &&& b.guilds_keys == c.guilds_keys
    &&& b.guilds_values@.len() == c.guilds_values@.len()
    &&& forall|i: int|
        0 <= i < c.guilds_values@.len() ==> modernised_ok(
            c.guilds_values@[i],
            #[trigger] b.guilds_values@[i],
        )
    &&& b.whitelist == c.whitelist
    &&& b.blacklist == c.blacklist
    &&& b.modlist == c.modlist
}

impl SclunerBackupCompat {
    /// Migrates a whole legacy snapshot to the current schema.
    pub fn modernise(self) -> (r: SclunerBackup)
        ensures
            backup_modernised_ok(self, r),
    {
        let mut vals = self.guilds_values;
        let ghost orig = vals@;
        let mut out: Vec<SclunerGuild> = Vec::new();
        while vals.len() > 0
            invariant
                out@.len() + vals@.len() == orig.len(),
                vals@ == orig.subrange(out@.len() as int, orig.len() as int),
                forall|i: int|
                    0 <= i < out@.len() ==> modernised_ok(orig[i], #[trigger] out@[i]),
            decreases vals@.len(),
        {
            let ghost out_pre = out@;
            let c = vals.remove(0);
            proof {
                assert(c == orig[out_pre.len() as int]);
                assert(vals@ =~= orig.subrange(out_pre.len() + 1 as int, orig.len() as int));
            }
            out.push(c.modernise());
            proof {
                assert(forall|i: int| 0 <= i < out_pre.len() ==> out@[i] == out_pre[i]);
            }
        }
        SclunerBackup {
            guilds_keys: self.guilds_keys,
            guilds_values: out,
            whitelist: self.whitelist,
            blacklist: self.blacklist,
            modlist: self.modlist,
        }
    }
}

/// The two-step restore decision: the current schema wins; a decodable
/// legacy snapshot is migrated; with neither, the restore fails and reports
/// it, leaving the caller's state untouched.
pub fn resolve_restore(
    current: Option<SclunerBackup>,
    legacy: Option<SclunerBackupCompat>,
) -> (r: Result<SclunerBackup, RestoreError>)
    ensures
        current matches Some(b) ==> (r matches Ok(out) && out == b),
        current is None ==> (legacy matches Some(c) ==> (r matches Ok(out)
            && backup_modernised_ok(c, out))),
        current is None && legacy is None ==> r == Result::<SclunerBackup, RestoreError>::Err(
            RestoreError::Deserialization,
        ),
{
    match current {
        Some(b) => Ok(b),
        None => match legacy {
            Some(c) => Ok(c.modernise()),
            None => Err(RestoreError::Deserialization),
        },
    }
}

/// A snapshot taken from well-formed state passes restore validation: its
/// keys are pairwise distinct, aligned with its values, and every stored
/// scope state satisfies the scope invariant. Together with the restore
/// contract, the round trip rebuilds the state exactly: scope keys, each
/// scope's fields, and the three identity lists all come back verbatim.
pub proof fn lemma_snapshot_round_trip(
    guilds: Seq<SclunerGuild>,
    whitelist: Seq<u64>,
    blacklist: Seq<u64>,
    modlist: Seq<u64>,
    b: SclunerBackup,
)
    requires
        forall|i: int| 0 <= i < guilds.len() ==> (#[trigger] guilds[i]).wf(),
        forall|i: int, j: int|
            0 <= i < guilds.len() && 0 <= j < guilds.len() && i != j ==> guilds[i].guild_id
                != guilds[j].guild_id,
        snapshot_matches(guilds, whitelist, blacklist, modlist, b),
    ensures
        snapshot_wf(b),
        b.guilds_values@.len() == guilds.len(),
        forall|i: int| 0 <= i < guilds.len() ==> guild_like(#[trigger] b.guilds_values@[i], guilds[i]),
        b.whitelist@ == whitelist,
        b.blacklist@ == blacklist,
        b.modlist@ == modlist,
{
    let keys = guilds.map_values(|g: SclunerGuild| g.guild_id);
    assert(forall|i: int| 0 <= i < guilds.len() ==> keys[i] == (#[trigger] guilds[i]).guild_id);
    assert(forall|i: int|
        0 <= i < b.guilds_values@.len() ==> (#[trigger] b.guilds_values@[i]).wf()
            && b.guilds_keys@[i] == b.guilds_values@[i].guild_id) by {
        assert(forall|i: int|
            0 <= i < guilds.len() ==> guild_like(#[trigger] b.guilds_values@[i], guilds[i]));
    }
}

/// Migration always yields a scope whose enabled mutators are exactly the
/// default set: appending an emote, splicing, and misgendering.
pub proof fn lemma_migration_enables_default_mutators(c: SclunerGuildCompat, g: SclunerGuild)
    requires
        modernised_ok(c, g),
    ensures
        g.allowed_mutators@.to_set() == set![
            DefinedMutators::AppendEmote,
            DefinedMutators::MessageSplicer,
            DefinedMutators::Misgendering,
        ],
{
    let s = g.allowed_mutators@;
    assert(s == default_mutators());
    assert(s[0] == DefinedMutators::AppendEmote);
    assert(s[1] == DefinedMutators::MessageSplicer);
    assert(s[2] == DefinedMutators::Misgendering);
    assert(s.to_set() =~= set![
        DefinedMutators::AppendEmote,
        DefinedMutators::MessageSplicer,
        DefinedMutators::Misgendering,
    ]);
}

} // verus!
