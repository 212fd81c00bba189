//! The laws the simulation core obeys, stated and proved over the spec
//! functions that the systems' contracts use.
//!
//! Two further laws live directly in the motion integrator's contract: the
//! speed ceiling — in follow and strafe mode a velocity within the maximum
//! stays within it — and the angular-rate clamp — in follow mode, away from
//! the world boundary, the per-frame change of the velocity heading never
//! exceeds the frame's interpolated ceiling.  See `integrate`.

use vstd::prelude::*;
use crate::fx::{sabs, smin};
use crate::components::Hitpoints;
use crate::system::cleanup::{drained, expired, sdrained, sexpired};
use crate::system::collider::{colliding, pairs_sound, sresolve_hp};
use crate::system::inertia::{sboundary, sout, WORLD_H, WORLD_W};
use crate::components::Spatial;
use crate::components::Inertial;
use crate::world::{delete_queued, wf, wlen, Entity, World};

verus! {

/// Faction exclusivity, one direction: every collision event the resolver
/// collects is between entities of differing factions.
pub proof fn lemma_event_factions_differ(w: World, ps: Seq<(usize, usize)>, k: int)
    requires
        pairs_sound(w, ps),
        0 <= k < ps.len(),
    ensures
        w.bounding@[ps[k].0 as int] is Some,
        w.bounding@[ps[k].1 as int] is Some,
        w.bounding@[ps[k].0 as int]->Some_0.faction != w.bounding@[ps[k].1 as int]->Some_0.faction,
{
    assert(colliding(w, ps[k].0 as int, ps[k].1 as int));
}

/// Faction exclusivity, the other direction: a pair of entities sharing a
/// faction never appears among the collected collision events, regardless
/// of overlap.
pub proof fn lemma_faction_exclusivity(w: World, ps: Seq<(usize, usize)>, i: usize, j: usize)
    requires
        pairs_sound(w, ps),
        i < wlen(w),
        j < wlen(w),
        w.bounding@[i as int] is Some,
        w.bounding@[j as int] is Some,
        w.bounding@[i as int]->Some_0.faction == w.bounding@[j as int]->Some_0.faction,
    ensures
        forall|k: int| 0 <= k < ps.len() ==> #[trigger] ps[k] != (i, j),
{
    assert forall|k: int| 0 <= k < ps.len() implies #[trigger] ps[k] != (i, j) by {
        if ps[k] == (i, j) {
            assert(colliding(w, ps[k].0 as int, ps[k].1 as int));
        }
    }
}

/// Mutual damage conservation: resolving one collision event subtracts the
/// lesser of the two current health values from both sides, and at least
/// one side thereby reaches zero or below.
pub proof fn lemma_mutual_damage(hp: Seq<Option<Hitpoints>>, ps: Seq<(usize, usize)>, n: int)
    requires
        0 <= n < ps.len(),
        0 <= ps[n].0 < sresolve_hp(hp, ps, n).len(),
        0 <= ps[n].1 < sresolve_hp(hp, ps, n).len(),
        ps[n].0 != ps[n].1,
        sresolve_hp(hp, ps, n)[ps[n].0 as int] is Some,
        sresolve_hp(hp, ps, n)[ps[n].1 as int] is Some,
        sabs((sresolve_hp(hp, ps, n)[ps[n].0 as int]->Some_0).0 as int) <= 2_000_000_000,
        sabs((sresolve_hp(hp, ps, n)[ps[n].1 as int]->Some_0).0 as int) <= 2_000_000_000,
    ensures
        ({
            let prev = sresolve_hp(hp, ps, n);
            let next = sresolve_hp(hp, ps, n + 1);
            let a = ps[n].0 as int;
            let b = ps[n].1 as int;
            let ha = (prev[a]->Some_0).0 as int;
            let hb = (prev[b]->Some_0).0 as int;
            let d = smin(ha, hb);
            &&& (next[a]->Some_0).0 == ha - d
            &&& (next[b]->Some_0).0 == hb - d
            &&& ((next[a]->Some_0).0 <= 0 || (next[b]->Some_0).0 <= 0)
        }),
{
    let prev = sresolve_hp(hp, ps, n);
    let a = ps[n].0 as int;
    let b = ps[n].1 as int;
    let ha = (prev[a]->Some_0).0 as int;
    let hb = (prev[b]->Some_0).0 as int;
    let d = smin(ha, hb);
    assert(ha - d == 0 || hb - d == 0);
}

/// Boundary reflection: after the boundary step the position lies inside
/// the world rectangle, each velocity component normal to a crossed edge is
/// negated, and each tangential component is preserved.
pub proof fn lemma_boundary_reflection(s: Spatial, i: Inertial)
    requires
        -3_000_000_000 <= s.position.0 <= 3_000_000_000,
        -3_000_000_000 <= s.position.1 <= 3_000_000_000,
        i.v_current.0 > i64::MIN,
        i.v_current.1 > i64::MIN,
    ensures
        0 <= sboundary(s, i).0.position.0 <= WORLD_W,
        0 <= sboundary(s, i).0.position.1 <= WORLD_H,
        sout(s.position.0 as int, WORLD_W as int) != 0 ==> sboundary(s, i).1.v_current.0 == -i.v_current.0,
        sout(s.position.0 as int, WORLD_W as int) == 0 ==> sboundary(s, i).1.v_current.0 == i.v_current.0,
        sout(s.position.1 as int, WORLD_H as int) != 0 ==> sboundary(s, i).1.v_current.1 == -i.v_current.1,
        sout(s.position.1 as int, WORLD_H as int) == 0 ==> sboundary(s, i).1.v_current.1 == i.v_current.1,
{
}

/// Deferred-apply snapshot, second half: an entity that cleanup finds
/// expired or drained is targeted by the queue cleanup leaves behind, so
/// the next maintain removes it.  (The first half — that the entity's
/// components are untouched for the rest of frame N — is the cleanup
/// contract itself: cleanup changes no store.)
pub proof fn lemma_cleanup_marks(w: World, age: int, i: int)
    requires
        wf(w),
        0 <= i < wlen(w),
        expired(w, i, age) || drained(w, i),
    ensures
        ({
            let queue = w.pending_deletes@ + sexpired(w, wlen(w), age) + sdrained(w, wlen(w));
            exists|k: int|
                0 <= k < queue.len() && queue[k] == (Entity {
                    index: i as usize,
                    generation: w.generations@[i],
                })
        }),
{
    let queue = w.pending_deletes@ + sexpired(w, wlen(w), age) + sdrained(w, wlen(w));
    let e = Entity { index: i as usize, generation: w.generations@[i] };
    if expired(w, i, age) {
        lemma_sexpired_contains(w, wlen(w), age, i);
        let k = choose|k: int|
            0 <= k < sexpired(w, wlen(w), age).len() && #[trigger] sexpired(w, wlen(w), age)[k]
                == e;
        assert(queue[w.pending_deletes@.len() + k] == e);
    } else {
        lemma_sdrained_contains(w, wlen(w), i);
        let k = choose|k: int|
            0 <= k < sdrained(w, wlen(w)).len() && #[trigger] sdrained(w, wlen(w))[k] == e;
        assert(queue[w.pending_deletes@.len() + sexpired(w, wlen(w), age).len() + k] == e);
    }
}

/// An expired slot below `n` appears in the expiry list over `n` slots.
proof fn lemma_sexpired_contains(w: World, n: int, age: int, i: int)
    requires
        0 <= i < n,
        expired(w, i, age),
    ensures
        exists|k: int|
            0 <= k < sexpired(w, n, age).len() && sexpired(w, n, age)[k] == (Entity {
                index: i as usize,
                generation: w.generations@[i],
            }),
    decreases n,
{
    let e = Entity { index: i as usize, generation: w.generations@[i] };
    if i == n - 1 {
        assert(sexpired(w, n, age)[sexpired(w, n, age).len() - 1] == e);
    } else {
        lemma_sexpired_contains(w, n - 1, age, i);
        let k = choose|k: int|
            0 <= k < sexpired(w, n - 1, age).len() && #[trigger] sexpired(w, n - 1, age)[k] == e;
        assert(sexpired(w, n, age)[k] == e);
    }
}

/// A drained slot below `n` appears in the drain list over `n` slots.
proof fn lemma_sdrained_contains(w: World, n: int, i: int)
    requires
        0 <= i < n,
        drained(w, i),
    ensures
        exists|k: int|
            0 <= k < sdrained(w, n).len() && sdrained(w, n)[k] == (Entity {
                index: i as usize,
                generation: w.generations@[i],
            }),
    decreases n,
{
    let e = Entity { index: i as usize, generation: w.generations@[i] };
    if i == n - 1 {
        assert(sdrained(w, n)[sdrained(w, n).len() - 1] == e);
    } else {
        lemma_sdrained_contains(w, n - 1, i);
        let k = choose|k: int|
            0 <= k < sdrained(w, n - 1).len() && #[trigger] sdrained(w, n - 1)[k] == e;
        assert(sdrained(w, n)[k] == e);
    }
}

/// A queue that holds an entity's current handle targets it: the next
/// maintain will not keep it alive under the same generation.
pub proof fn lemma_queued_is_deleted(w: World, i: usize)
    requires
        i < wlen(w),
        exists|k: int|
            0 <= k < w.pending_deletes@.len() && w.pending_deletes@[k] == (Entity {
                index: i,
                generation: w.generations@[i as int],
            }),
    ensures
        delete_queued(w, i as int),
{
    let k = choose|k: int|
        0 <= k < w.pending_deletes@.len() && #[trigger] w.pending_deletes@[k] == (Entity {
            index: i,
            generation: w.generations@[i as int],
        });
    assert(w.pending_deletes@[k].index == i);
    assert(w.pending_deletes@[k].generation == w.generations@[i as int]);
}

} // verus!
