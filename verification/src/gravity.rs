//! The gravity contributor: from the solver's accelerations to the writes
//! that reach the force accumulators.

use crate::body::Body;
use crate::vector::{Vector2, Vector3};
use vstd::prelude::*;

verus! {

/// One addition to one force accumulator.
#[derive(Clone, Copy, Debug, PartialEq, Eq, Structural)]
pub struct Contribution {
    /// Which accumulator takes the force.
    pub target: usize,
    /// What is added to it.
    pub force: Vector2,
}

/// What the gravity contributor does in one tick.
#[derive(Debug)]
pub struct GravityPlan {
    /// The additions to make, in snapshot order.
    pub writes: Vec<Contribution>,
    /// The snapshot positions of the bodies whose contribution was dropped
    /// because their acceleration was not finite, in ascending order.
    pub discarded: Vec<usize>,
}

/// Why no plan could be made.
#[derive(Clone, Copy, Debug, PartialEq, Eq, Structural)]
pub enum GravityError {
    /// There is not one acceleration per body.
    LengthMismatch,
    /// A body points at an accumulator that does not exist.
    TargetOutOfRange,
}

/// The snapshot positions `0, 1, ..., n - 1`.
pub open spec fn positions(n: nat) -> Seq<usize> {
    Seq::new(n, |k: int| k as usize)
}

/// Tells whether the acceleration at a snapshot position is finite.
pub open spec fn is_kept(accelerations: Seq<Vector3>) -> spec_fn(usize) -> bool {
    |k: usize| accelerations[k as int].finite()
}

/// Tells whether the acceleration at a snapshot position is not finite.
pub open spec fn is_dropped(accelerations: Seq<Vector3>) -> spec_fn(usize) -> bool {
    |k: usize| !accelerations[k as int].finite()
}

/// The write that the body at a snapshot position gives rise to.
pub open spec fn write_at(bodies: Seq<Body>, accelerations: Seq<Vector3>) -> spec_fn(
    usize,
) -> Contribution {
    |k: usize|
        Contribution {
            target: bodies[k as int].external_force_idx,
            force: accelerations[k as int].planar(),
        }
}

/// The writes of the first `n` bodies: one for each body whose acceleration
/// is finite, in snapshot order.
pub open spec fn written_upto(bodies: Seq<Body>, accelerations: Seq<Vector3>, n: nat) -> Seq<
    Contribution,
> {
    positions(n).filter(is_kept(accelerations)).map_values(write_at(bodies, accelerations))
}

/// The positions among the first `n` whose acceleration is not finite.
pub open spec fn discarded_upto(accelerations: Seq<Vector3>, n: nat) -> Seq<usize> {
    positions(n).filter(is_dropped(accelerations))
}

/// The writes of a whole snapshot.
pub open spec fn written(bodies: Seq<Body>, accelerations: Seq<Vector3>) -> Seq<Contribution> {
    written_upto(bodies, accelerations, accelerations.len())
}

/// The discarded positions of a whole snapshot.
pub open spec fn discarded(accelerations: Seq<Vector3>) -> Seq<usize> {
    discarded_upto(accelerations, accelerations.len())
}

/// Every body points at one of `accumulators` accumulators.
pub open spec fn targets_within(bodies: Seq<Body>, accumulators: usize) -> bool {
    forall|k: int| 0 <= k < bodies.len() ==> (#[trigger] bodies[k]).external_force_idx < accumulators
}

/// Taking one more position into account.
pub proof fn lemma_step(bodies: Seq<Body>, accelerations: Seq<Vector3>, n: nat)
    requires
        n < usize::MAX,
    ensures
        written_upto(bodies, accelerations, n + 1) == if accelerations[n as int].finite() {
            written_upto(bodies, accelerations, n).push(
                Contribution {
                    target: bodies[n as int].external_force_idx,
                    force: accelerations[n as int].planar(),
                },
            )
        } else {
            written_upto(bodies, accelerations, n)
        },
        discarded_upto(accelerations, n + 1) == if accelerations[n as int].finite() {
            discarded_upto(accelerations, n)
        } else {
            discarded_upto(accelerations, n).push(n as usize)
        },
{
    let before = positions(n);
    assert(positions(n + 1) =~= before.push(n as usize));
    before.lemma_filter_push(n as usize, is_kept(accelerations));
    before.lemma_filter_push(n as usize, is_dropped(accelerations));
    let kept = before.filter(is_kept(accelerations));
    let f = write_at(bodies, accelerations);
    assert(kept.push(n as usize).map_values(f) =~= kept.map_values(f).push(f(n as usize)));
}

/// No bodies, no gravity: an empty snapshot gives no write and no discard.
pub proof fn lemma_no_bodies_no_writes()
    ensures
        written(Seq::<Body>::empty(), Seq::<Vector3>::empty()) == Seq::<Contribution>::empty(),
        discarded(Seq::<Vector3>::empty()) == Seq::<usize>::empty(),
{
    reveal(Seq::filter);
    assert(positions(0).filter(is_kept(Seq::<Vector3>::empty())) =~= Seq::<usize>::empty());
    assert(positions(0).filter(is_dropped(Seq::<Vector3>::empty())) =~= Seq::<usize>::empty());
    assert(written(Seq::<Body>::empty(), Seq::<Vector3>::empty()) =~= Seq::<
        Contribution,
    >::empty());
}

/// Every write stems from a body whose acceleration is finite: it carries
/// the planar part of that acceleration to that body's accumulator. So no
/// write carries a force that is not finite, and with bodies that point at
/// existing accumulators no write misses.
pub proof fn lemma_writes_are_sound(bodies: Seq<Body>, accelerations: Seq<Vector3>, k: int)
    requires
        bodies.len() == accelerations.len(),
        accelerations.len() <= usize::MAX,
        0 <= k < written(bodies, accelerations).len(),
    ensures
        written(bodies, accelerations)[k].force.finite(),
        exists|i: int|
            0 <= i < bodies.len() && accelerations[i].finite() && written(
                bodies,
                accelerations,
            )[k] == (Contribution {
                target: (#[trigger] bodies[i]).external_force_idx,
                force: accelerations[i].planar(),
            }),
{
    let all = positions(accelerations.len());
    let kept = all.filter(is_kept(accelerations));
    all.lemma_filter_pred(is_kept(accelerations), k);
    all.lemma_filter_contains_rev(is_kept(accelerations), kept[k]);
    let w = choose|w: int| 0 <= w < all.len() && all[w] == kept[k];
    assert(all[w] == w as usize);
    assert(written(bodies, accelerations)[k] == (Contribution {
        target: bodies[w].external_force_idx,
        force: accelerations[w].planar(),
    }));
}

/// With one acceleration for each body and bodies that point at existing
/// accumulators, every write names an accumulator that exists.
pub proof fn lemma_writes_hit(bodies: Seq<Body>, accelerations: Seq<Vector3>, accumulators: usize)
    requires
        bodies.len() == accelerations.len(),
        accelerations.len() <= usize::MAX,
        targets_within(bodies, accumulators),
    ensures
        forall|k: int|
            0 <= k < written(bodies, accelerations).len() ==> (#[trigger] written(
                bodies,
                accelerations,
            )[k]).target < accumulators && written(bodies, accelerations)[k].force.finite(),
{
    assert forall|k: int| 0 <= k < written(bodies, accelerations).len() implies (#[trigger] written(
        bodies,
        accelerations,
    )[k]).target < accumulators && written(bodies, accelerations)[k].force.finite() by {
        lemma_writes_are_sound(bodies, accelerations, k);
    }
}

/// What the list of discarded positions holds for the first `n` bodies:
/// each position whose acceleration is not finite, once, in ascending
/// order, and nothing else.
pub proof fn lemma_discarded_upto(accelerations: Seq<Vector3>, n: nat)
    requires
        n <= accelerations.len(),
        n <= usize::MAX,
    ensures
        forall|i: int|
            0 <= i < discarded_upto(accelerations, n).len() ==> (#[trigger] discarded_upto(
                accelerations,
                n,
            )[i]) < n && !accelerations[discarded_upto(accelerations, n)[i] as int].finite(),
        forall|i: int, j: int|
            0 <= i < j < discarded_upto(accelerations, n).len() ==> (#[trigger] discarded_upto(
                accelerations,
                n,
            )[i]) < (#[trigger] discarded_upto(accelerations, n)[j]),
        forall|k: int|
            0 <= k < n && !(#[trigger] accelerations[k]).finite() ==> discarded_upto(
                accelerations,
                n,
            ).contains(k as usize),
    decreases n,
{
    let now = discarded_upto(accelerations, n);
    if n == 0 {
        reveal(Seq::filter);
        assert(now =~= Seq::<usize>::empty());
    } else {
        let m = (n - 1) as nat;
        let before = discarded_upto(accelerations, m);
        lemma_discarded_upto(accelerations, m);
        lemma_step(Seq::<Body>::empty(), accelerations, m);
        assert forall|k: int| 0 <= k < n && !(#[trigger] accelerations[k]).finite() implies now.contains(
            k as usize,
        ) by {
            if k < m {
                assert(before.contains(k as usize));
                let i = choose|i: int| 0 <= i < before.len() && before[i] == k as usize;
                assert(now[i] == k as usize);
            } else {
                assert(now[now.len() - 1] == k as usize);
            }
        }
    }
}

/// The diagnostic of a discarded contribution comes exactly once for each
/// body whose acceleration is not finite, and for no other body.
pub proof fn lemma_discarded_exactly_once(accelerations: Seq<Vector3>, k: usize)
    requires
        accelerations.len() <= usize::MAX,
    ensures
        discarded(accelerations).to_multiset().count(k) == if k < accelerations.len()
            && !accelerations[k as int].finite() {
            1nat
        } else {
            0nat
        },
{
    let d = discarded(accelerations);
    lemma_discarded_upto(accelerations, accelerations.len());
    d.to_multiset_ensures();
    if d.contains(k) {
        assert(d.no_duplicates());
        d.lemma_multiset_has_no_duplicates();
        assert(d.to_multiset().contains(k));
    }
}

/// Every body of the snapshot is either written for or reported.
pub proof fn lemma_every_body_counted(bodies: Seq<Body>, accelerations: Seq<Vector3>, n: nat)
    requires
        n <= usize::MAX,
    ensures
        written_upto(bodies, accelerations, n).len() + discarded_upto(accelerations, n).len() == n,
    decreases n,
{
    if n == 0 {
        reveal(Seq::filter);
        assert(positions(0).filter(is_kept(accelerations)) =~= Seq::<usize>::empty());
        assert(positions(0).filter(is_dropped(accelerations)) =~= Seq::<usize>::empty());
    } else {
        lemma_every_body_counted(bodies, accelerations, (n - 1) as nat);
        lemma_step(bodies, accelerations, (n - 1) as nat);
    }
}

fn targets_in_range(bodies: &Vec<Body>, accumulators: usize) -> (r: bool)
    ensures
        r == targets_within(bodies@, accumulators),
{
    let mut k: usize = 0;
    while k < bodies.len()
        invariant
            k <= bodies.len(),
            forall|j: int| 0 <= j < k ==> (#[trigger] bodies@[j]).external_force_idx < accumulators,
        decreases bodies.len() - k,
    {
        if bodies[k].external_force_idx >= accumulators {
            return false;
        }
        k += 1;
    }
    true
}

/// Turns the accelerations that the solver computed for a snapshot, already
/// scaled by the gravitational constant, into additions to the force
/// accumulators.
///
/// A body whose acceleration has a component that is not finite contributes
/// nothing this tick; its snapshot position is reported in `discarded`. Every
/// other body contributes the planar part of its acceleration to the
/// accumulator it points at.
pub fn accelerate_particles(
    bodies: &Vec<Body>,
    accelerations: &Vec<Vector3>,
    accumulators: usize,
) -> (r: Result<GravityPlan, GravityError>)
    ensures
        match r {
            Ok(plan) => {
                &&& bodies@.len() == accelerations@.len()
                &&& targets_within(bodies@, accumulators)
                &&& plan.writes@ == written(bodies@, accelerations@)
                &&& plan.discarded@ == discarded(accelerations@)
            },
            Err(GravityError::LengthMismatch) => bodies@.len() != accelerations@.len(),
            Err(GravityError::TargetOutOfRange) => {
                &&& bodies@.len() == accelerations@.len()
                &&& !targets_within(bodies@, accumulators)
            },
        },
{
    if bodies.len() != accelerations.len() {
        return Err(GravityError::LengthMismatch);
    }
    if !targets_in_range(bodies, accumulators) {
        return Err(GravityError::TargetOutOfRange);
    }
    let mut writes: Vec<Contribution> = Vec::new();
    let mut discarded: Vec<usize> = Vec::new();
    let mut k: usize = 0;
    assert(positions(0).filter(is_kept(accelerations@)) =~= Seq::<usize>::empty()) by {
        reveal(Seq::filter);
    }
    assert(positions(0).filter(is_dropped(accelerations@)) =~= Seq::<usize>::empty()) by {
        reveal(Seq::filter);
    }
    assert(written_upto(bodies@, accelerations@, 0) =~= Seq::<Contribution>::empty());
    while k < bodies.len()
        invariant
            k <= bodies.len(),
            bodies.len() == accelerations.len(),
            writes@ == written_upto(bodies@, accelerations@, k as nat),
            discarded@ == discarded_upto(accelerations@, k as nat),
        decreases bodies.len() - k,
    {
        proof {
            lemma_step(bodies@, accelerations@, k as nat);
        }
        let acceleration = accelerations[k];
        if acceleration.is_finite() {
            writes.push(
                Contribution {
                    target: bodies[k].external_force_idx,
                    force: acceleration.truncate(),
                },
            );
        } else {
            discarded.push(k);
        }
        k += 1;
    }
    Ok(GravityPlan { writes, discarded })
}

} // verus!
