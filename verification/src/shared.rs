//! Callers of a shared cache: what holds when several callers make the same call
//! and take the lock only to look up and to store, never while they compute.

use vstd::prelude::*;
use crate::key::KeyView;
use crate::laws::lemma_stored_is_found;
use crate::store::{Slot, find, put};

verus! {

/// What a caller does while it holds the lock.
pub ghost enum Turn {
    /// A new caller looks the key up. On a miss it goes off to compute.
    Begin,
    /// A caller that missed stores what it computed.
    Complete,
}

/// The shared cache and its callers, between two turns.
pub ghost struct Shared<R> {
    /// What the cache holds.
    pub store: Map<u64, Seq<Slot<R>>>,
    /// How many callers have looked the key up.
    pub callers: nat,
    /// How many callers have missed and not yet stored their result.
    pub computing: nat,
    /// How many times the function was run.
    pub executions: nat,
    /// Whether every caller that has its result has the right one.
    pub faithful: bool,
}

/// A cache that no caller has come to yet.
pub open spec fn untouched<R>(store: Map<u64, Seq<Slot<R>>>) -> Shared<R> {
    Shared { store, callers: 0, computing: 0, executions: 0, faithful: true }
}

/// The state after one turn of a caller of the function at the key `k`, where the
/// function gives the result `v`. A turn to store by a caller that is not
/// computing changes nothing.
pub open spec fn after_turn<R>(s: Shared<R>, turn: Turn, k: KeyView, v: R) -> Shared<R> {
    match turn {
        Turn::Begin => match find(s.store, k) {
            Some(stored) => Shared {
                callers: s.callers + 1,
                faithful: s.faithful && stored == v,
                ..s
            },
            None => Shared {
                callers: s.callers + 1,
                computing: s.computing + 1,
                executions: s.executions + 1,
                ..s
            },
        },
        Turn::Complete => if s.computing > 0 {
            Shared { store: put(s.store, k, v), computing: (s.computing - 1) as nat, ..s }
        } else {
            s
        },
    }
}

/// The state after the given turns, in order.
pub open spec fn after_turns<R>(s: Shared<R>, turns: Seq<Turn>, k: KeyView, v: R) -> Shared<R>
    decreases turns.len(),
{
    if turns.len() == 0 {
        s
    } else {
        after_turn(after_turns(s, turns.drop_last(), k, v), turns.last(), k, v)
    }
}

proof fn lemma_turns_keep<R>(store: Map<u64, Seq<Slot<R>>>, turns: Seq<Turn>, k: KeyView, v: R)
    requires
        find(store, k) is None,
    ensures
        ({
            let s = after_turns(untouched(store), turns, k, v);
            &&& s.faithful
            &&& s.executions <= s.callers
            &&& s.computing <= s.executions
            &&& s.callers >= 1 ==> s.executions >= 1
            &&& find(s.store, k) is None || find(s.store, k) == Some(v)
            &&& s.executions == 0 ==> find(s.store, k) is None
        }),
    decreases turns.len(),
{
    if turns.len() > 0 {
        lemma_turns_keep(store, turns.drop_last(), k, v);
        let before = after_turns(untouched(store), turns.drop_last(), k, v);
        lemma_stored_is_found(before.store, k, v);
    }
}

/// However the turns of the callers fall, every caller that has its result has
/// the right one, and the function is run at least once and at most once for
/// each caller. The cache holds nothing for the key at the start.
pub proof fn lemma_duplicate_work_bound<R>(
    store: Map<u64, Seq<Slot<R>>>,
    turns: Seq<Turn>,
    k: KeyView,
    v: R,
)
    requires
        find(store, k) is None,
    ensures
        after_turns(untouched(store), turns, k, v).faithful,
        after_turns(untouched(store), turns, k, v).executions <= after_turns(
            untouched(store),
            turns,
            k,
            v,
        ).callers,
        after_turns(untouched(store), turns, k, v).callers >= 1 ==> after_turns(
            untouched(store),
            turns,
            k,
            v,
        ).executions >= 1,
{
    lemma_turns_keep(store, turns, k, v);
}

} // verus!
