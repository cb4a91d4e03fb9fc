//! The simulation: an unordered collection of bodies plus the identifier
//! generator, advanced one tick at a time.

use vstd::prelude::*;

use crate::body::Body;
use crate::body::BodyType;
use crate::body::Vec2;
use crate::body::DUST_MASS_BITS;
use crate::body::MAX_PARTICLE_AGE;
use crate::kernel::Kernel;

verus! {

/// Recoverable failures surfaced to the caller.
#[derive(Clone, Copy, PartialEq, Eq, Structural, Debug)]
pub enum SimError {
    /// A positional lookup beyond the current body count.
    IndexOutOfRange,
}

/// The ids of `s` are pairwise distinct.
pub open spec fn ids_unique(s: Seq<Body>) -> bool {
    forall|i: int, j: int| 0 <= i < j < s.len() ==> s[i].id != s[j].id
}

/// Every id of `s` lies strictly below `bound`.
pub open spec fn ids_below(s: Seq<Body>, bound: u64) -> bool {
    forall|i: int| 0 <= i < s.len() ==> s[i].id < bound
}

/// A dust particle that has exceeded its maximum age; the eviction pass
/// removes such a body no matter where it stands.
pub open spec fn aged_out(b: Body) -> bool {
    b.kind == BodyType::Particle && b.lifetime > MAX_PARTICLE_AGE
}

/// Whether a body survives the eviction pass, given the kernel's verdict on
/// whether its position left the simulated region.
pub open spec fn keep(b: Body, escaped: bool) -> bool {
    !aged_out(b) && !escaped
}

/// `b` is one of the bodies of `pre` that the eviction pass, under the
/// verdicts `prefl`, was to keep.
pub open spec fn kept_in(pre: Seq<Body>, prefl: Seq<bool>, b: Body) -> bool {
    exists|j: int| 0 <= j < pre.len() && b == #[trigger] pre[j] && keep(pre[j], prefl[j])
}

/// Every element of `cur` is one of the bodies of `pre` that the eviction
/// pass was to keep.
pub open spec fn drawn_from_kept(pre: Seq<Body>, prefl: Seq<bool>, cur: Seq<Body>) -> bool {
    forall|t: int| #![trigger cur[t]]
        0 <= t < cur.len() ==> kept_in(pre, prefl, cur[t])
}

/// Every body of `pre` that the eviction pass was to keep is present in
/// `cur`.
pub open spec fn keeps_all(pre: Seq<Body>, prefl: Seq<bool>, cur: Seq<Body>) -> bool {
    forall|j: int| #![trigger pre[j]]
        0 <= j < pre.len() && keep(pre[j], prefl[j]) ==> cur.contains(pre[j])
}

/// No element of `cur` carries the id of a body of `pre` that the eviction
/// pass was to remove.
pub open spec fn removed_gone(pre: Seq<Body>, prefl: Seq<bool>, cur: Seq<Body>) -> bool {
    forall|j: int, t: int| #![trigger pre[j], cur[t]]
        0 <= j < pre.len() && !keep(pre[j], prefl[j]) && 0 <= t < cur.len()
            ==> cur[t].id != pre[j].id
}

/// The pairwise pass touches nothing of a body but its acceleration
/// accumulator.
pub open spec fn agrees_except_accel(a: Body, b: Body) -> bool {
    b.id == a.id && b.kind == a.kind && b.lifetime == a.lifetime && b.mass_bits == a.mass_bits
        && b.pos == a.pos && b.prev_pos == a.prev_pos
}

/// The discrete effect of one integration step on one body: the lifetime
/// counter advances by exactly one, the current position is demoted to
/// previous position, the acceleration accumulator is reset to the zero
/// pattern, and identity, kind and mass are untouched.  The new position is
/// whatever bits the kernel's step formula produced.
pub open spec fn stepped(pre: Body, post: Body) -> bool {
    post.id == pre.id && post.kind == pre.kind && post.mass_bits == pre.mass_bits
        && post.lifetime == pre.lifetime + 1 && post.prev_pos == pre.pos
        && post.accel == Vec2::spec_zero()
}

/// `b` is the integration step of some body of `pre` that was not an
/// aged-out dust particle.
pub open spec fn stepped_from(pre: Seq<Body>, b: Body) -> bool {
    exists|j: int| 0 <= j < pre.len() && stepped(#[trigger] pre[j], b) && !aged_out(pre[j])
}

/// A dust particle as the pairwise pass creates it: newborn, of the fixed
/// dust mass, with an empty acceleration accumulator.  Its position and
/// velocity hold whatever bits the kernel's spawn formula produced.
pub open spec fn newborn(b: Body) -> bool {
    b.kind == BodyType::Particle && b.lifetime == 0 && b.mass_bits == DUST_MASS_BITS
        && b.accel == Vec2::spec_zero()
}

/// How many comets `s` holds; each may shed at most one dust particle per
/// tick.
pub open spec fn comet_count(s: Seq<Body>) -> nat
    decreases s.len(),
{
    if s.len() == 0 {
        0
    } else {
        comet_count(s.drop_last()) + (if s.last().kind == BodyType::Comet {
            1nat
        } else {
            0nat
        })
    }
}

proof fn lemma_comet_count_push(s: Seq<Body>, b: Body)
    ensures
        comet_count(s.push(b)) == comet_count(s) + (if b.kind == BodyType::Comet {
            1nat
        } else {
            0nat
        }),
{
    assert(s.push(b).drop_last() =~= s);
    assert(s.push(b).last() == b);
}

proof fn lemma_comet_count_le_len(s: Seq<Body>)
    ensures
        comet_count(s) <= s.len(),
    decreases s.len(),
{
    if s.len() > 0 {
        lemma_comet_count_le_len(s.drop_last());
    }
}

proof fn lemma_comet_count_remove(s: Seq<Body>, j: int)
    requires
        0 <= j < s.len(),
    ensures
        comet_count(s.remove(j)) + (if s[j].kind == BodyType::Comet {
            1nat
        } else {
            0nat
        }) == comet_count(s),
    decreases s.len(),
{
    if j == s.len() - 1 {
        assert(s.remove(j) =~= s.drop_last());
    } else {
        assert(s.remove(j).drop_last() =~= s.drop_last().remove(j));
        assert(s.remove(j).last() == s.last());
        lemma_comet_count_remove(s.drop_last(), j);
        assert(s.drop_last()[j] == s[j]);
    }
}

proof fn lemma_comet_count_concat(a: Seq<Body>, b: Seq<Body>)
    ensures
        comet_count(a + b) == comet_count(a) + comet_count(b),
    decreases b.len(),
{
    if b.len() == 0 {
        assert(a + b =~= a);
    } else {
        assert((a + b).drop_last() =~= a + b.drop_last());
        assert((a + b).last() == b.last());
        lemma_comet_count_concat(a, b.drop_last());
    }
}

/// Distinct survivors of the eviction pass descend from distinct bodies,
/// so the pass cannot increase the number of comets.
proof fn lemma_drawn_comet_bound(pre: Seq<Body>, fl: Seq<bool>, surv: Seq<Body>)
    requires
        fl.len() == pre.len(),
        ids_unique(pre),
        ids_unique(surv),
        drawn_from_kept(pre, fl, surv),
    ensures
        comet_count(surv) <= comet_count(pre),
    decreases surv.len(),
{
    if surv.len() > 0 {
        let b = surv.last();
        assert(surv[surv.len() - 1] == b);
        assert(kept_in(pre, fl, b));
        let j: int = choose|j: int| 0 <= j < pre.len() && b == pre[j] && keep(pre[j], fl[j]);
        let pre2 = pre.remove(j);
        let fl2 = fl.remove(j);
        let rest = surv.drop_last();
        // the shorter collections still stand in the drawn-from relation
        assert forall|t: int| #![trigger rest[t]]
            0 <= t < rest.len() implies kept_in(pre2, fl2, rest[t]) by {
            assert(rest[t] == surv[t]);
            assert(kept_in(pre, fl, surv[t]));
            let jt: int = choose|jt: int|
                0 <= jt < pre.len() && surv[t] == pre[jt] && keep(pre[jt], fl[jt]);
            assert(surv[t].id != b.id);
            assert(jt != j);
            let jt2: int = if jt < j { jt } else { jt - 1 };
            assert(pre2[jt2] == pre[jt] && fl2[jt2] == fl[jt]);
            assert(0 <= jt2 < pre2.len() && rest[t] == pre2[jt2] && keep(pre2[jt2], fl2[jt2]));
        }
        // and their ids stay pairwise distinct
        assert forall|x: int, y: int| 0 <= x < y < pre2.len()
            implies pre2[x].id != pre2[y].id by {
            let x0: int = if x < j { x } else { x + 1 };
            let y0: int = if y < j { y } else { y + 1 };
            assert(pre2[x] == pre[x0] && pre2[y] == pre[y0]);
        }
        assert forall|x: int, y: int| 0 <= x < y < rest.len()
            implies rest[x].id != rest[y].id by {
            assert(rest[x] == surv[x] && rest[y] == surv[y]);
        }
        lemma_drawn_comet_bound(pre2, fl2, rest);
        lemma_comet_count_remove(pre, j);
    }
}

/// `b`, with the verdict `f`, is what some one slot held as the pass
/// began.
spec fn slot_of(pre: Seq<Body>, prefl: Seq<bool>, b: Body, f: bool) -> bool {
    exists|j: int| 0 <= j < pre.len() && b == #[trigger] pre[j] && f == prefl[j]
}

/// Mid-pass picture: every slot of `cur` holds one of the bodies of `pre`
/// paired with that body's own verdict.
spec fn paired_from(pre: Seq<Body>, prefl: Seq<bool>, cur: Seq<Body>, fl: Seq<bool>) -> bool {
    forall|t: int| #![trigger cur[t]]
        0 <= t < cur.len() ==> slot_of(pre, prefl, cur[t], fl[t])
}

/// The untouched collection is trivially paired with its own verdicts.
proof fn lemma_prune_init(pre: Seq<Body>, prefl: Seq<bool>)
    requires
        prefl.len() == pre.len(),
    ensures
        paired_from(pre, prefl, pre, prefl),
        keeps_all(pre, prefl, pre),
{
    assert forall|t: int| #![trigger pre[t]]
        0 <= t < pre.len() implies slot_of(pre, prefl, pre[t], prefl[t]) by {
        let j0: int = t;
        assert(0 <= j0 < pre.len() && pre[t] == pre[j0] && prefl[t] == prefl[j0]);
    }
    assert forall|j: int| #![trigger pre[j]]
        0 <= j < pre.len() && keep(pre[j], prefl[j]) implies pre.contains(pre[j]) by {
        let t0: int = j;
        assert(0 <= t0 < pre.len() && pre[t0] == pre[j]);
    }
}

/// One swap-removal of a slot that was not to be kept preserves the
/// mid-pass picture: pairing, completeness, and id discipline.
proof fn lemma_prune_step(
    pre: Seq<Body>,
    prefl: Seq<bool>,
    cur0: Seq<Body>,
    fl0: Seq<bool>,
    curn: Seq<Body>,
    fln: Seq<bool>,
    i: int,
    k0: u64,
)
    requires
        prefl.len() == pre.len(),
        ids_unique(pre),
        fl0.len() == cur0.len(),
        0 <= i < cur0.len(),
        curn == cur0.update(i, cur0.last()).drop_last(),
        fln == fl0.update(i, fl0.last()).drop_last(),
        !keep(cur0[i], fl0[i]),
        paired_from(pre, prefl, cur0, fl0),
        keeps_all(pre, prefl, cur0),
        ids_unique(cur0),
        ids_below(cur0, k0),
    ensures
        paired_from(pre, prefl, curn, fln),
        keeps_all(pre, prefl, curn),
        ids_unique(curn),
        ids_below(curn, k0),
        curn.len() == cur0.len() - 1,
        fln.len() == curn.len(),
{
    let ll = cur0.len() as int;
    // every current element still descends from a slot of the old picture
    assert forall|t: int| #![trigger curn[t]]
        0 <= t < curn.len() implies slot_of(pre, prefl, curn[t], fln[t]) by {
        let s: int = if t == i { ll - 1 } else { t };
        assert(cur0[s] == curn[t] && fl0[s] == fln[t]);
        assert(slot_of(pre, prefl, cur0[s], fl0[s]));
    }
    // nothing that was to be kept has been lost
    assert forall|j: int| #![trigger pre[j]]
        0 <= j < pre.len() && keep(pre[j], prefl[j]) implies curn.contains(pre[j]) by {
        let t0: int = choose|t: int| 0 <= t < cur0.len() && cur0[t] == pre[j];
        assert(cur0.contains(pre[j]));
        assert(cur0[t0] == pre[j]);
        if t0 == i {
            // the removed slot cannot hold a body that was to be kept
            assert(slot_of(pre, prefl, cur0[i], fl0[i]));
            let j1: int = choose|j1: int|
                0 <= j1 < pre.len() && cur0[i] == pre[j1] && fl0[i] == prefl[j1];
            assert(pre[j].id == pre[j1].id);
            if j < j1 {
                assert(false);
            } else if j1 < j {
                assert(false);
            } else {
                assert(keep(cur0[i], fl0[i]));
                assert(false);
            }
        } else if t0 == ll - 1 {
            assert(curn[i] == cur0[ll - 1]);
            assert(0 <= i < curn.len() && curn[i] == pre[j]);
        } else {
            assert(curn[t0] == cur0[t0]);
            assert(0 <= t0 < curn.len() && curn[t0] == pre[j]);
        }
    }
    // distinct slots still hold distinct ids
    assert forall|t1: int, t2: int| 0 <= t1 < t2 < curn.len()
        implies curn[t1].id != curn[t2].id by {
        let s1: int = if t1 == i { ll - 1 } else { t1 };
        let s2: int = if t2 == i { ll - 1 } else { t2 };
        assert(curn[t1] == cur0[s1] && curn[t2] == cur0[s2]);
        assert(s1 != s2);
        if s1 < s2 {
            assert(cur0[s1].id != cur0[s2].id);
        } else {
            assert(cur0[s2].id != cur0[s1].id);
        }
    }
    assert forall|t: int| 0 <= t < curn.len() implies #[trigger] curn[t].id < k0 by {
        let s: int = if t == i { ll - 1 } else { t };
        assert(curn[t] == cur0[s]);
    }
}

/// After the pass has examined every slot, the mid-pass picture and the
/// all-kept prefix yield the pass's contract.
proof fn lemma_prune_post(pre: Seq<Body>, prefl: Seq<bool>, cur: Seq<Body>, fl: Seq<bool>)
    requires
        prefl.len() == pre.len(),
        ids_unique(pre),
        fl.len() == cur.len(),
        paired_from(pre, prefl, cur, fl),
        forall|t: int| 0 <= t < cur.len() ==> #[trigger] keep(cur[t], fl[t]),
    ensures
        drawn_from_kept(pre, prefl, cur),
        removed_gone(pre, prefl, cur),
{
    assert forall|t: int| #![trigger cur[t]]
        0 <= t < cur.len() implies kept_in(pre, prefl, cur[t]) by {
        assert(slot_of(pre, prefl, cur[t], fl[t]));
        let j0: int = choose|j: int|
            0 <= j < pre.len() && cur[t] == pre[j] && fl[t] == prefl[j];
        assert(keep(cur[t], fl[t]));
        assert(0 <= j0 < pre.len() && cur[t] == pre[j0] && keep(pre[j0], prefl[j0]));
    }
    assert forall|j: int, t: int| #![trigger pre[j], cur[t]]
        0 <= j < pre.len() && !keep(pre[j], prefl[j]) && 0 <= t < cur.len()
        implies cur[t].id != pre[j].id by {
        assert(slot_of(pre, prefl, cur[t], fl[t]));
        let j1: int = choose|j1: int|
            0 <= j1 < pre.len() && cur[t] == pre[j1] && fl[t] == prefl[j1];
        assert(keep(cur[t], fl[t]));
        assert(keep(pre[j1], prefl[j1]));
        if cur[t].id == pre[j].id {
            assert(pre[j1].id == pre[j].id);
            if j < j1 {
                assert(false);
            } else if j1 < j {
                assert(false);
            }
            assert(j1 == j);
            assert(false);
        }
    }
}

/// The simulation.  Bodies are unordered: eviction swaps the last element
/// into the removed slot, so positional indices are stable only until the
/// next [`System::tick`]; the id is the one stable handle.
pub struct System {
    keygen: u64,
    arr: Vec<Body>,
}

impl System {
    /// The bodies currently owned by the system, in storage order.
    pub closed spec fn bodies(self) -> Seq<Body> {
        self.arr@
    }

    /// The next id to be stamped; monotonically increasing, never reset.
    pub closed spec fn next_id(self) -> u64 {
        self.keygen
    }

    /// The system invariant: ids are pairwise distinct and all lie below the
    /// id generator, so the next stamped id is fresh.
    pub open spec fn wf(self) -> bool {
        ids_unique(self.bodies()) && ids_below(self.bodies(), self.next_id())
    }

    /// An empty system.
    pub fn new() -> (s: System)
        ensures
            s.wf(),
            s.bodies() == Seq::<Body>::empty(),
            s.next_id() == 0,
    {
        System { keygen: 0, arr: Vec::new() }
    }

    /// Inserts a body, stamping it with the next fresh id.  The id generator
    /// increments, so ids are strictly increasing in insertion order and are
    /// never reused, even after intervening evictions.
    pub fn add(&mut self, body: Body)
        requires
            old(self).wf(),
            old(self).next_id() < u64::MAX,
        ensures
            final(self).wf(),
            final(self).next_id() == old(self).next_id() + 1,
            final(self).bodies() == old(self).bodies().push(
                (Body { id: old(self).next_id(), ..body }),
            ),
    {
        let mut b = body;
        b.id = self.keygen;
        self.keygen = self.keygen + 1;
        self.arr.push(b);
    }

    /// The id the next insertion will stamp.  Exposed so a host can see the
    /// generator's position (and guard the far-fetched exhaustion of the id
    /// space) without reaching into the system.
    pub fn upcoming_id(&self) -> (r: u64)
        ensures
            r == self.next_id(),
    {
        self.keygen
    }

    /// The current number of live bodies, truncated to 32 bits as the host
    /// interface demands (the count cannot reach that bound in practice).
    pub fn count(&self) -> (r: u32)
        ensures
            self.bodies().len() < 0x1_0000_0000 ==> r as nat == self.bodies().len(),
    {
        #[verifier::truncate]
        (self.arr.len() as u32)
    }

    /// The eviction pass.  `escaped` holds, slot by slot, the kernel's
    /// verdict on whether the body's position left the simulated region;
    /// [`System::tick`] computes the verdicts and calls this pass first.
    ///
    /// A body is removed exactly when it is an aged-out dust particle or its
    /// verdict is true; everything else survives.  Removal swaps the last
    /// element into the freed slot, so the order of the survivors is not
    /// part of the contract — only which bodies survive is.
    pub fn prune(&mut self, escaped: Vec<bool>)
        requires
            old(self).wf(),
            escaped@.len() == old(self).bodies().len(),
        ensures
            final(self).wf(),
            final(self).next_id() == old(self).next_id(),
            final(self).bodies().len() <= old(self).bodies().len(),
            drawn_from_kept(old(self).bodies(), escaped@, final(self).bodies()),
            keeps_all(old(self).bodies(), escaped@, final(self).bodies()),
            removed_gone(old(self).bodies(), escaped@, final(self).bodies()),
    {
        let mut flags = escaped;
        let ghost pre = self.arr@;
        let ghost prefl = flags@;
        let ghost k0 = self.keygen;
        proof {
            lemma_prune_init(pre, prefl);
        }
        let mut i: usize = 0;
        while i < self.arr.len()
            invariant
                i <= self.arr.len(),
                flags@.len() == self.arr@.len(),
                self.keygen == k0,
                self.arr@.len() <= pre.len(),
                prefl.len() == pre.len(),
                ids_unique(pre),
                ids_below(pre, k0),
                forall|t: int| 0 <= t < i ==> #[trigger] keep(self.arr@[t], flags@[t]),
                paired_from(pre, prefl, self.arr@, flags@),
                keeps_all(pre, prefl, self.arr@),
                ids_unique(self.arr@),
                ids_below(self.arr@, k0),
            decreases self.arr@.len() - i,
        {
            let b = self.arr[i];
            let f = flags[i];
            if (b.kind == BodyType::Particle && b.lifetime > MAX_PARTICLE_AGE) || f {
                let ghost cur0 = self.arr@;
                let ghost fl0 = flags@;
                let ghost ii = i as int;
                self.arr.swap_remove(i);
                flags.swap_remove(i);
                proof {
                    lemma_prune_step(
                        pre, prefl, cur0, fl0, self.arr@, flags@, ii, k0,
                    );
                    assert forall|t: int| 0 <= t < i
                        implies #[trigger] keep(self.arr@[t], flags@[t]) by {
                        assert(self.arr@[t] == cur0[t] && flags@[t] == fl0[t]);
                    }
                }
            } else {
                proof {
                    assert(keep(self.arr@[i as int], flags@[i as int]));
                }
                i += 1;
            }
        }
        proof {
            lemma_prune_post(pre, prefl, self.arr@, flags@);
        }
    }

    /// Collects the kernel's escape verdict for every body, in slot order.
    fn escape_flags<K: Kernel>(&self, k: &K) -> (flags: Vec<bool>)
        ensures
            flags@.len() == self.bodies().len(),
    {
        let mut flags: Vec<bool> = Vec::new();
        let mut i: usize = 0;
        while i < self.arr.len()
            invariant
                i <= self.arr@.len(),
                flags@.len() == i,
            decreases self.arr@.len() - i,
        {
            flags.push(k.escaped(self.arr[i].pos));
            i += 1;
        }
        flags
    }

    /// The pairwise pass: for every unordered pair the kernel's mutual
    /// gravitational kick is accumulated on both ends; against the primary
    /// in slot 0, each comet may shed one dust particle — collected into the
    /// returned pending buffer — and receives the kernel's radiation kick.
    /// Nothing but acceleration accumulators changes.
    fn force_pass<K: Kernel>(&mut self, k: &mut K) -> (pending: Vec<Body>)
        requires
            old(self).wf(),
            old(self).bodies().len() >= 2,
        ensures
            final(self).wf(),
            final(self).next_id() == old(self).next_id(),
            final(self).bodies().len() == old(self).bodies().len(),
            forall|t: int| #![trigger final(self).bodies()[t]]
                0 <= t < final(self).bodies().len() ==> agrees_except_accel(
                    old(self).bodies()[t],
                    final(self).bodies()[t],
                ),
            forall|p: int| 0 <= p < pending@.len() ==> newborn(#[trigger] pending@[p]),
            pending@.len() <= comet_count(
                old(self).bodies().subrange(1, old(self).bodies().len() as int),
            ),
    {
        let n = self.arr.len();
        let ghost pre = self.arr@;
        let ghost k0 = self.keygen;
        let mut pending: Vec<Body> = Vec::new();
        let mut i: usize = 0;
        while i < n - 1
            invariant
                n == self.arr@.len(),
                pre.len() == n,
                n >= 2,
                i <= n - 1,
                self.keygen == k0,
                ids_unique(pre),
                ids_below(pre, k0),
                forall|t: int| #![trigger self.arr@[t]]
                    0 <= t < n ==> agrees_except_accel(pre[t], self.arr@[t]),
                forall|p: int| 0 <= p < pending@.len() ==> newborn(#[trigger] pending@[p]),
                pending@.len() <= comet_count(pre.subrange(1, n as int)),
                i == 0 ==> pending@.len() == 0,
            decreases n - i,
        {
            let mut j: usize = i + 1;
            while j < n
                invariant
                    n == self.arr@.len(),
                    pre.len() == n,
                    n >= 2,
                    i < n,
                    i + 1 <= j <= n,
                    self.keygen == k0,
                    ids_unique(pre),
                    ids_below(pre, k0),
                    forall|t: int| #![trigger self.arr@[t]]
                        0 <= t < n ==> agrees_except_accel(pre[t], self.arr@[t]),
                    forall|p: int| 0 <= p < pending@.len() ==> newborn(#[trigger] pending@[p]),
                    (if i == 0 {
                        pending@.len() <= comet_count(pre.subrange(1, j as int))
                    } else {
                        pending@.len() <= comet_count(pre.subrange(1, n as int))
                    }),
                decreases n - j,
            {
                let bi = self.arr[i];
                let bj = self.arr[j];
                let (ai, aj) = k.gravitate(
                    bi.accel,
                    bj.accel,
                    bi.pos,
                    bj.pos,
                    bi.mass_bits,
                    bj.mass_bits,
                );
                self.arr[i].accel = ai;
                self.arr[j].accel = aj;
                if i == 0 {
                    let b0 = self.arr[0];
                    let bj2 = self.arr[j];
                    if bj2.kind == BodyType::Comet && k.emit_trial(b0.pos, bj2.pos) {
                        let (dq, v) = k.spawn_state(b0.pos, bj2.pos, bj2.prev_pos);
                        let d = Body::dust(bj2.id)
                            .mass(DUST_MASS_BITS)
                            .position(dq.x, dq.y)
                            .velocity(v.x, v.y)
                            .build();
                        proof {
                            assert(agrees_except_accel(pre[j as int], self.arr@[j as int]));
                            assert(pre[j as int].kind == BodyType::Comet);
                        }
                        pending.push(d);
                    }
                    let bj3 = self.arr[j];
                    let r = k.radiate(bj3.accel, b0.pos, bj3.pos, bj3.mass_bits);
                    self.arr[j].accel = r;
                }
                proof {
                    if i == 0 {
                        assert(pre.subrange(1, j as int).push(pre[j as int])
                            =~= pre.subrange(1, j as int + 1));
                        lemma_comet_count_push(pre.subrange(1, j as int), pre[j as int]);
                    }
                }
                j += 1;
            }
            i += 1;
        }
        proof {
            assert forall|t1: int, t2: int| 0 <= t1 < t2 < self.arr@.len()
                implies self.arr@[t1].id != self.arr@[t2].id by {
                assert(agrees_except_accel(pre[t1], self.arr@[t1]));
                assert(agrees_except_accel(pre[t2], self.arr@[t2]));
            }
            assert forall|t: int| 0 <= t < self.arr@.len()
                implies #[trigger] self.arr@[t].id < k0 by {
                assert(agrees_except_accel(pre[t], self.arr@[t]));
            }
        }
        pending
    }

    /// The integration pass: advances every body one step.  A body whose
    /// lifetime is still zero has its previous-position field read as an
    /// initial velocity and is moved by the kernel's seed step; every other
    /// body is moved by the kernel's Verlet step.
    fn integrate<K: Kernel>(&mut self, k: &K)
        requires
            old(self).wf(),
            forall|t: int| 0 <= t < old(self).bodies().len()
                ==> (#[trigger] old(self).bodies()[t]).lifetime < u64::MAX,
        ensures
            final(self).wf(),
            final(self).next_id() == old(self).next_id(),
            final(self).bodies().len() == old(self).bodies().len(),
            forall|t: int| #![trigger final(self).bodies()[t]]
                0 <= t < final(self).bodies().len() ==> stepped(
                    old(self).bodies()[t],
                    final(self).bodies()[t],
                ),
    {
        let ghost pre = self.arr@;
        let ghost k0 = self.keygen;
        let n = self.arr.len();
        let mut i: usize = 0;
        while i < n
            invariant
                n == self.arr@.len(),
                pre.len() == n,
                i <= n,
                self.keygen == k0,
                ids_unique(pre),
                ids_below(pre, k0),
                forall|t: int| i <= t < n ==> self.arr@[t] == #[trigger] pre[t],
                forall|t: int| #![trigger self.arr@[t]]
                    0 <= t < i ==> stepped(pre[t], self.arr@[t]),
                forall|t: int| 0 <= t < pre.len() ==> (#[trigger] pre[t]).lifetime < u64::MAX,
            decreases n - i,
        {
            let p = self.arr[i];
            let qn = if p.lifetime == 0 {
                k.step_first(p.pos, p.prev_pos, p.accel)
            } else {
                k.step_verlet(p.pos, p.prev_pos, p.accel)
            };
            self.arr[i] = Body {
                id: p.id,
                kind: p.kind,
                lifetime: p.lifetime + 1,
                mass_bits: p.mass_bits,
                pos: qn,
                prev_pos: p.pos,
                accel: Vec2::zero(),
            };
            i += 1;
        }
        proof {
            assert forall|t1: int, t2: int| 0 <= t1 < t2 < self.arr@.len()
                implies self.arr@[t1].id != self.arr@[t2].id by {
                assert(stepped(pre[t1], self.arr@[t1]));
                assert(stepped(pre[t2], self.arr@[t2]));
            }
            assert forall|t: int| 0 <= t < self.arr@.len()
                implies #[trigger] self.arr@[t].id < k0 by {
                assert(stepped(pre[t], self.arr@[t]));
            }
        }
    }

    /// One simulation step: the eviction pass first; then, when at least two
    /// bodies survive, the pairwise pass — with fewer the pass is skipped
    /// outright, as iterating unordered pairs over it would be meaningless —
    /// then integration; and last the merge of the dust particles spawned
    /// this tick.  Merging after integration is deliberate: a newborn is
    /// visible but unintegrated for the tick of its birth, and keeps its
    /// spawn position until the next tick moves it through its newborn
    /// branch.
    ///
    /// The contract pins every discrete consequence: survivors are exactly
    /// one integration step beyond bodies the eviction pass kept (their
    /// lifetimes advanced by one); spawned dust is newborn and carries the
    /// fresh, strictly increasing ids; aged-out dust is gone whatever the
    /// kernel said; and a lone body still integrates, with no pairwise pass
    /// and no spawning.
    pub fn tick<K: Kernel>(&mut self, k: &mut K)
        requires
            old(self).wf(),
            forall|t: int| 0 <= t < old(self).bodies().len()
                ==> (#[trigger] old(self).bodies()[t]).lifetime < u64::MAX,
            old(self).next_id() as int + old(self).bodies().len() <= u64::MAX as int,
        ensures
            final(self).wf(),
            old(self).next_id() <= final(self).next_id(),
            // each comet sheds at most one dust particle per tick
            final(self).next_id() as int - old(self).next_id() as int
                <= comet_count(old(self).bodies()),
            final(self).next_id() as int - old(self).next_id() as int
                <= old(self).bodies().len(),
            // every body that has been integrated descends from a kept one
            forall|t: int| #![trigger final(self).bodies()[t]]
                0 <= t < final(self).bodies().len()
                && final(self).bodies()[t].lifetime >= 1
                    ==> stepped_from(old(self).bodies(), final(self).bodies()[t]),
            // every body that has not is dust spawned this tick, under a fresh id
            forall|t: int| #![trigger final(self).bodies()[t]]
                0 <= t < final(self).bodies().len()
                && final(self).bodies()[t].lifetime == 0
                    ==> newborn(final(self).bodies()[t])
                        && old(self).next_id() <= final(self).bodies()[t].id
                        && final(self).bodies()[t].id < final(self).next_id(),
            // dust spawned this tick is stamped in strictly increasing order
            forall|t1: int, t2: int|
                #![trigger final(self).bodies()[t1], final(self).bodies()[t2]]
                0 <= t1 < t2 < final(self).bodies().len()
                && final(self).bodies()[t1].lifetime == 0
                && final(self).bodies()[t2].lifetime == 0
                    ==> final(self).bodies()[t1].id < final(self).bodies()[t2].id,
            // an aged-out dust particle is gone, whatever the kernel said
            forall|j: int, t: int|
                #![trigger old(self).bodies()[j], final(self).bodies()[t]]
                0 <= j < old(self).bodies().len() && aged_out(old(self).bodies()[j])
                && 0 <= t < final(self).bodies().len()
                    ==> final(self).bodies()[t].id != old(self).bodies()[j].id,
            old(self).bodies().len() == 0 ==> final(self).bodies().len() == 0
                && final(self).next_id() == old(self).next_id(),
            // a lone body never spawns and never feels a pairwise pass
            old(self).bodies().len() == 1 ==> final(self).next_id() == old(self).next_id()
                && final(self).bodies().len() <= 1
                && (final(self).bodies().len() == 1 ==> stepped(
                    old(self).bodies()[0],
                    final(self).bodies()[0],
                )),
    {
        let ghost pre = self.bodies();
        let ghost k0 = self.next_id();
        let flags = self.escape_flags(k);
        let ghost fl = flags@;
        self.prune(flags);
        let ghost surv = self.bodies();
        let pending: Vec<Body> = if self.arr.len() >= 2 {
            self.force_pass(k)
        } else {
            Vec::new()
        };
        let ghost mid = self.bodies();
        let ghost pend = pending@;
        proof {
            // survivors keep the lifetimes they entered the tick with
            assert forall|t: int| 0 <= t < self.arr@.len()
                implies (#[trigger] self.arr@[t]).lifetime < u64::MAX by {
                if surv.len() >= 2 {
                    assert(agrees_except_accel(surv[t], self.arr@[t]));
                }
                assert(kept_in(pre, fl, surv[t]));
                let j0: int = choose|j: int|
                    0 <= j < pre.len() && surv[t] == pre[j] && keep(pre[j], fl[j]);
                assert(pre[j0].lifetime < u64::MAX);
            }
            // and the spawn count is bounded by the surviving comets, which
            // descend one-to-one from comets present as the tick began
            if surv.len() >= 2 {
                lemma_comet_count_le_len(surv.subrange(1, surv.len() as int));
                assert(surv =~= surv.subrange(0, 1) + surv.subrange(1, surv.len() as int));
                lemma_comet_count_concat(
                    surv.subrange(0, 1),
                    surv.subrange(1, surv.len() as int),
                );
                lemma_drawn_comet_bound(pre, fl, surv);
            }
            lemma_comet_count_le_len(pre);
            assert(pend.len() <= comet_count(pre));
            assert(pend.len() <= pre.len());
        }
        self.integrate(k);
        let ghost integ = self.bodies();
        let mut t: usize = 0;
        while t < pending.len()
            invariant
                t <= pend.len(),
                pending@ == pend,
                self.arr@.len() == integ.len() + t,
                self.keygen as int == k0 as int + t,
                k0 as int + pend.len() <= u64::MAX as int,
                forall|p: int| 0 <= p < pend.len() ==> newborn(#[trigger] pend[p]),
                self.wf(),
                forall|u: int| 0 <= u < integ.len() ==> self.arr@[u] == #[trigger] integ[u],
                forall|u: int| #![trigger self.arr@[u]]
                    integ.len() <= u < self.arr@.len() ==> newborn(self.arr@[u])
                        && self.arr@[u].id as int == k0 as int + (u - integ.len()),
            decreases pend.len() - t,
        {
            self.add(pending[t]);
            t += 1;
        }
        proof {
            let post = self.arr@;
            // integrated bodies descend from kept ones; spawned dust is newborn
            assert forall|t: int| #![trigger post[t]]
                0 <= t < post.len() && post[t].lifetime >= 1
                implies stepped_from(pre, post[t]) by {
                assert(newborn(post[t]) || t < integ.len());
                assert(post[t] == integ[t]);
                assert(stepped(mid[t], integ[t]));
                if surv.len() >= 2 {
                    assert(agrees_except_accel(surv[t], mid[t]));
                }
                assert(kept_in(pre, fl, surv[t]));
                let j0: int = choose|j: int|
                    0 <= j < pre.len() && surv[t] == pre[j] && keep(pre[j], fl[j]);
                assert(stepped(pre[j0], post[t]));
                assert(!aged_out(pre[j0]));
            }
            // aged-out dust is gone: survivors by the eviction contract,
            // newborns because their ids are fresh
            assert forall|j: int, t: int| #![trigger pre[j], post[t]]
                0 <= j < pre.len() && aged_out(pre[j]) && 0 <= t < post.len()
                implies post[t].id != pre[j].id by {
                assert(!keep(pre[j], fl[j]));
                if t < integ.len() {
                    assert(post[t] == integ[t]);
                    assert(stepped(mid[t], integ[t]));
                    if surv.len() >= 2 {
                        assert(agrees_except_accel(surv[t], mid[t]));
                    }
                    assert(post[t].id == surv[t].id);
                } else {
                    assert(post[t].id >= k0);
                }
            }
            // dust spawned this tick is newborn and carries a fresh id
            assert forall|t: int| #![trigger post[t]]
                0 <= t < post.len() && post[t].lifetime == 0
                implies newborn(post[t]) && k0 <= post[t].id
                    && post[t].id < self.keygen by {
                if t < integ.len() {
                    assert(post[t] == integ[t]);
                    assert(stepped(mid[t], integ[t]));
                }
            }
            // and in strictly increasing stamp order
            assert forall|t1: int, t2: int| #![trigger post[t1], post[t2]]
                0 <= t1 < t2 < post.len() && post[t1].lifetime == 0
                && post[t2].lifetime == 0
                implies post[t1].id < post[t2].id by {
                if t1 < integ.len() {
                    assert(post[t1] == integ[t1]);
                    assert(stepped(mid[t1], integ[t1]));
                }
                if t2 < integ.len() {
                    assert(post[t2] == integ[t2]);
                    assert(stepped(mid[t2], integ[t2]));
                }
            }
            if pre.len() == 1 {
                assert(surv.len() <= 1);
                if post.len() == 1 {
                    assert(stepped(mid[0], integ[0]));
                    assert(kept_in(pre, fl, surv[0]));
                    let j0: int = choose|j: int|
                        0 <= j < pre.len() && surv[0] == pre[j] && keep(pre[j], fl[j]);
                    assert(j0 == 0);
                    assert(stepped(pre[0], post[0]));
                }
            }
        }
    }

    /// A copy of the body at a positional index, valid only until the next
    /// tick.  Fails explicitly when the index is out of range.
    pub fn body(&self, index: usize) -> (r: Result<Body, SimError>)
        ensures
            index < self.bodies().len() ==> r == Ok::<Body, SimError>(self.bodies()[index as int]),
            index >= self.bodies().len() ==> r == Err::<Body, SimError>(SimError::IndexOutOfRange),
    {
        if index < self.arr.len() {
            Ok(self.arr[index])
        } else {
            Err(SimError::IndexOutOfRange)
        }
    }
}

} // verus!
