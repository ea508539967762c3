//! Core of a community chat-echo service: per-scope bounded corpora of short
//! utterances, probabilistic re-emission with a chain of text mutators, an
//! access-control registry, and a versioned snapshot of the whole state with
//! backward-compatible migration.
//!
//! Everything here is ordinary data and logic; transport, timers and byte
//! encoding live outside and talk to this crate through plain values.

pub mod access;
pub mod backup;
pub mod corpus;
pub mod guild;
pub mod instance;
pub mod mutators;
mod sampling;
pub mod selection;
pub mod text;

use vstd::prelude::*;

verus! {

/// Replaces the element at `i`, returning the previous one. Stands in for
/// direct index assignment, which cannot be reasoned about here.
pub fn vec_replace<T>(v: &mut Vec<T>, i: usize, x: T) -> (prev: T)
    requires
        i < old(v)@.len(),
    ensures
        prev == old(v)@[i as int],
        final(v)@ == old(v)@.update(i as int, x),
{
    v.push(x);
    let prev = v.swap_remove(i);
    proof {
        assert(v@ =~= old(v)@.update(i as int, x));
    }
    prev
}

} // verus!
