//! Cross-cutting laws of the simulation, stated over the public contracts
//! of [`crate::system::System`] and proved once and for all.

use vstd::prelude::*;

use crate::body::Body;
use crate::system::System;
use crate::system::aged_out;
use crate::system::ids_unique;
use crate::system::keep;
use crate::system::keeps_all;
use crate::system::removed_gone;

verus! {

/// Identifier freshness: in a well-formed system every id present lies
/// strictly below the generator, so the id the next insertion stamps
/// exceeds every id present.  Since no operation ever lowers the generator,
/// ids are strictly increasing in insertion order and are never reused,
/// even across intervening evictions.
pub proof fn lemma_next_id_fresh(s: System)
    requires
        s.wf(),
    ensures
        forall|i: int| 0 <= i < s.bodies().len()
            ==> (#[trigger] s.bodies()[i]).id < s.next_id(),
{
}

/// The body stamped by an insertion carries an id strictly greater than
/// every id that was present before it, and the collection stays free of
/// duplicate ids.
pub proof fn lemma_stamped_id_exceeds(pre: System, post: System, b: Body)
    requires
        pre.wf(),
        post.bodies() == pre.bodies().push(b),
        b.id == pre.next_id(),
    ensures
        forall|i: int| 0 <= i < pre.bodies().len()
            ==> (#[trigger] pre.bodies()[i]).id < b.id,
        ids_unique(post.bodies()),
{
    assert forall|i: int, j: int| 0 <= i < j < post.bodies().len()
        implies post.bodies()[i].id != post.bodies()[j].id by {
        if j < pre.bodies().len() {
            assert(post.bodies()[i] == pre.bodies()[i]);
            assert(post.bodies()[j] == pre.bodies()[j]);
        } else {
            assert(post.bodies()[j] == b);
            assert(post.bodies()[i] == pre.bodies()[i]);
            assert(pre.bodies()[i].id < pre.next_id());
        }
    }
}

/// A dust particle that has outlived its age bound is evicted, whatever
/// escape verdicts the kernel produced: no survivor of the eviction pass
/// carries its id.
pub proof fn lemma_aged_dust_evicted(
    pre: Seq<Body>,
    fl: Seq<bool>,
    cur: Seq<Body>,
    j: int,
    t: int,
)
    requires
        removed_gone(pre, fl, cur),
        0 <= j < pre.len(),
        aged_out(pre[j]),
        0 <= t < cur.len(),
    ensures
        cur[t].id != pre[j].id,
{
    assert(!keep(pre[j], fl[j]));
}

/// A body whose position was judged to have left the simulated region is
/// evicted by the pass, whatever its kind and age.
pub proof fn lemma_escaped_evicted(
    pre: Seq<Body>,
    fl: Seq<bool>,
    cur: Seq<Body>,
    j: int,
    t: int,
)
    requires
        removed_gone(pre, fl, cur),
        0 <= j < pre.len(),
        j < fl.len(),
        fl[j],
        0 <= t < cur.len(),
    ensures
        cur[t].id != pre[j].id,
{
    assert(!keep(pre[j], fl[j]));
}

/// A dust particle still within its age bound, whose position was not
/// judged escaped, survives the eviction pass — as does any other body the
/// pass had no cause to remove.
pub proof fn lemma_unremarkable_body_kept(
    pre: Seq<Body>,
    fl: Seq<bool>,
    cur: Seq<Body>,
    j: int,
)
    requires
        keeps_all(pre, fl, cur),
        0 <= j < pre.len(),
        j < fl.len(),
        !aged_out(pre[j]),
        !fl[j],
    ensures
        cur.contains(pre[j]),
{
    assert(keep(pre[j], fl[j]));
}

} // verus!
