//! The access-control registry: owner, moderators, whitelist and blacklist.
//! Pure membership logic; the owner bypasses every check unconditionally,
//! and blacklist membership revokes moderator and general permission for
//! everyone else.

use vstd::prelude::*;

verus! {

/// The fixed owner identity; bypasses every permission check.
pub const OWNER_ID: u64 = 407991620164911118;

/// The three identity lists permission checks consult.
pub struct AccessRegistry {
    pub whitelist: Vec<u64>,
    pub blacklist: Vec<u64>,
    pub modlist: Vec<u64>,
}

/// `id` is the fixed owner.
pub open spec fn spec_is_owner(id: u64) -> bool {
    id == OWNER_ID
}

/// `id` is the owner, or a listed moderator who is not blacklisted.
pub open spec fn spec_is_moderator(reg: AccessRegistry, id: u64) -> bool {
    spec_is_owner(id) || (reg.modlist@.contains(id) && !reg.blacklist@.contains(id))
}

/// `id` is the owner or not blacklisted.
pub open spec fn spec_is_permitted(reg: AccessRegistry, id: u64) -> bool {
    spec_is_owner(id) || !reg.blacklist@.contains(id)
}

/// `id` is on the whitelist.
pub open spec fn spec_is_subscribed(reg: AccessRegistry, id: u64) -> bool {
    reg.whitelist@.contains(id)
}

/// Linear membership scan.
fn list_contains(v: &Vec<u64>, id: u64) -> (b: bool)
    ensures
        b == v@.contains(id),
{
    let mut i: usize = 0;
    while i < v.len()
        invariant
            i <= v@.len(),
            forall|j: int| 0 <= j < i ==> v@[j] != id,
        decreases v@.len() - i,
    {
        if v[i] == id {
            return true;
        }
        i += 1;
    }
    false
}

/// Removes every occurrence of `id` from the list.
fn list_remove(v: &mut Vec<u64>, id: u64)
    ensures
        final(v)@ == old(v)@.filter(|x: u64| x != id),
{
    let ghost pred = |x: u64| x != id;
    let mut kept: Vec<u64> = Vec::new();
    let mut i: usize = 0;
    while i < v.len()
        invariant
            i <= v@.len(),
            v@ == old(v)@,
            pred == (|x: u64| x != id),
            kept@ == v@.subrange(0, i as int).filter(pred),
        decreases v@.len() - i,
    {
        proof {
            reveal(Seq::filter);
            assert(v@.subrange(0, i + 1 as int).drop_last() =~= v@.subrange(0, i as int));
            assert(v@.subrange(0, i + 1 as int).last() == v@[i as int]);
        }
        if v[i] != id {
            kept.push(v[i]);
        }
        i += 1;
    }
    proof {
        assert(v@.subrange(0, v@.len() as int) =~= v@);
    }
    *v = kept;
}

impl AccessRegistry {
    /// Fresh registry with every list empty.
    pub fn new() -> (r: Self)
        ensures
            r.whitelist@ == Seq::<u64>::empty(),
            r.blacklist@ == Seq::<u64>::empty(),
            r.modlist@ == Seq::<u64>::empty(),
    {
        AccessRegistry { whitelist: Vec::new(), blacklist: Vec::new(), modlist: Vec::new() }
    }

    /// Whether `id` is the fixed owner.
    pub fn is_owner(&self, id: u64) -> (b: bool)
        ensures
            b == spec_is_owner(id),
    {
        id == OWNER_ID
    }

    /// Whether `id` may use moderator commands.
    pub fn is_moderator(&self, id: u64) -> (b: bool)
        ensures
            b == spec_is_moderator(*self, id),
    {
        if id == OWNER_ID {
            return true;
        }
        list_contains(&self.modlist, id) && !list_contains(&self.blacklist, id)
    }

    /// Whether `id` may use the service at all.
    pub fn is_permitted(&self, id: u64) -> (b: bool)
        ensures
            b == spec_is_permitted(*self, id),
    {
        if id == OWNER_ID {
            return true;
        }
        !list_contains(&self.blacklist, id)
    }

    /// Whether `id` has registered on the whitelist.
    pub fn is_subscribed(&self, id: u64) -> (b: bool)
        ensures
            b == spec_is_subscribed(*self, id),
    {
        list_contains(&self.whitelist, id)
    }

    /// Adds `id` to the whitelist if absent, removes it if present; returns
    /// whether it was added.
    pub fn toggle_whitelist(&mut self, id: u64) -> (added: bool)
        ensures
            added == !old(self).whitelist@.contains(id),
            added ==> final(self).whitelist@ == old(self).whitelist@.push(id),
            !added ==> final(self).whitelist@ == old(self).whitelist@.filter(|x: u64| x != id),
            final(self).whitelist@.contains(id) == added,
            final(self).blacklist == old(self).blacklist,
            final(self).modlist == old(self).modlist,
    {
        if list_contains(&self.whitelist, id) {
            list_remove(&mut self.whitelist, id);
            proof {
                lemma_filter_removes(old(self).whitelist@, id);
            }
            false
        } else {
            self.whitelist.push(id);
            proof {
                assert(self.whitelist@[self.whitelist@.len() - 1] == id);
            }
            true
        }
    }

    /// Adds `id` to the moderator list if absent, removes it if present;
    /// returns whether it was added.
    pub fn toggle_moderator(&mut self, id: u64) -> (added: bool)
        ensures
            added == !old(self).modlist@.contains(id),
            added ==> final(self).modlist@ == old(self).modlist@.push(id),
            !added ==> final(self).modlist@ == old(self).modlist@.filter(|x: u64| x != id),
            final(self).modlist@.contains(id) == added,
            final(self).whitelist == old(self).whitelist,
            final(self).blacklist == old(self).blacklist,
    {
        if list_contains(&self.modlist, id) {
            list_remove(&mut self.modlist, id);
            proof {
                lemma_filter_removes(old(self).modlist@, id);
            }
            false
        } else {
            self.modlist.push(id);
            proof {
                assert(self.modlist@[self.modlist@.len() - 1] == id);
            }
            true
        }
    }
}

/// Filtering out `id` leaves a list that no longer contains it.
proof fn lemma_filter_removes(s: Seq<u64>, id: u64)
    ensures
        !s.filter(|x: u64| x != id).contains(id),
{
    broadcast use vstd::seq_lib::group_filter_ensures;

    let pred = |x: u64| x != id;
    if s.filter(pred).contains(id) {
        let k = choose|k: int|
            0 <= k < s.filter(pred).len() && #[trigger] s.filter(pred)[k] == id;
        assert(pred(s.filter(pred)[k]));
    }
}

/// The owner passes every check: owner, moderator and permitted, whatever the
/// lists hold — even with the owner on the blacklist.
pub proof fn lemma_owner_bypasses_all(reg: AccessRegistry)
    ensures
        spec_is_owner(OWNER_ID),
        spec_is_moderator(reg, OWNER_ID),
        spec_is_permitted(reg, OWNER_ID),
{
}

/// Blacklisting revokes moderator standing and general permission for every
/// identity but the owner, whatever the moderator list holds.
pub proof fn lemma_blacklist_revokes(reg: AccessRegistry, id: u64)
    requires
        id != OWNER_ID,
        reg.blacklist@.contains(id),
    ensures
        !spec_is_moderator(reg, id),
        !spec_is_permitted(reg, id),
{
}

} // verus!
