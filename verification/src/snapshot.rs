//! The snapshot of the bodies that take part in a tick.

use crate::body::Body;
use crate::gravity::{positions, targets_within, Contribution};
use crate::scalar::Scalar;
use crate::tick::all_known;
use crate::vector::Vector3;
use vstd::prelude::*;

verus! {

/// What the host reports of one entity that owns a force accumulator.
#[derive(Clone, Copy, Debug)]
pub struct Candidate {
    /// Which of the host's force accumulators is the entity's.
    pub handle: usize,
    /// Where the entity is, if the host can tell.
    pub position: Option<Vector3>,
    /// The entity's mass, if it has one of its own.
    pub mass: Option<Scalar>,
}

/// What to do with an entity that has no mass of its own.
#[derive(Clone, Copy, Debug)]
pub enum MassPolicy {
    /// Leave it out of the snapshot.
    Exclude,
    /// Take it in with the given mass.
    Assume(Scalar),
}

/// The bodies of one tick, with the accumulator handle of each at the same
/// position, and the candidates that were left out.
#[derive(Debug)]
pub struct Snapshot {
    pub bodies: Vec<Body>,
    pub handles: Vec<usize>,
    /// Positions, in the list of candidates, of those left out, ascending.
    pub rejected: Vec<usize>,
}

/// The mass that stands for a candidate: its own, or else the one that the
/// policy gives it.
pub open spec fn source_mass(candidate: Candidate, policy: MassPolicy) -> Option<Scalar> {
    match candidate.mass {
        Some(mass) => Some(mass),
        None => match policy {
            MassPolicy::Exclude => None,
            MassPolicy::Assume(mass) => Some(mass),
        },
    }
}

/// The mass that a candidate enters the snapshot with, if any: a mass has
/// to be at least zero, so a negative one and one that is no number count
/// as none.
pub open spec fn mass_of(candidate: Candidate, policy: MassPolicy) -> Option<Scalar> {
    match source_mass(candidate, policy) {
        Some(mass) => if mass.at_least_zero() {
            Some(mass)
        } else {
            None
        },
        None => None,
    }
}

/// A candidate enters the snapshot when it has a position and a mass.
pub open spec fn admitted(candidate: Candidate, policy: MassPolicy) -> bool {
    candidate.position is Some && mass_of(candidate, policy) is Some
}

/// Tells whether the candidate at a position enters the snapshot.
pub open spec fn is_admitted(candidates: Seq<Candidate>, policy: MassPolicy) -> spec_fn(
    usize,
) -> bool {
    |i: usize| admitted(candidates[i as int], policy)
}

/// Tells whether the candidate at a position is left out.
pub open spec fn is_rejected(candidates: Seq<Candidate>, policy: MassPolicy) -> spec_fn(
    usize,
) -> bool {
    |i: usize| !admitted(candidates[i as int], policy)
}

/// The positions, among the first `n` candidates, of those that enter.
pub open spec fn admitted_upto(candidates: Seq<Candidate>, policy: MassPolicy, n: nat) -> Seq<
    usize,
> {
    positions(n).filter(is_admitted(candidates, policy))
}

/// The positions, among the first `n` candidates, of those left out.
pub open spec fn rejected_upto(candidates: Seq<Candidate>, policy: MassPolicy, n: nat) -> Seq<
    usize,
> {
    positions(n).filter(is_rejected(candidates, policy))
}

/// The body that the candidate at position `i` becomes when it is the
/// `k`-th to enter.
pub open spec fn body_at(candidates: Seq<Candidate>, policy: MassPolicy) -> spec_fn(
    int,
    usize,
) -> Body {
    |k: int, i: usize|
        Body {
            position: candidates[i as int].position->Some_0,
            mu: mass_of(candidates[i as int], policy)->Some_0,
            external_force_idx: k as usize,
        }
}

/// The accumulator handle of the candidate at a position.
pub open spec fn handle_at(candidates: Seq<Candidate>) -> spec_fn(usize) -> usize {
    |i: usize| candidates[i as int].handle
}

/// Sends a write from a place in the snapshot to the accumulator behind it.
pub open spec fn to_handle(handles: Seq<usize>) -> spec_fn(Contribution) -> Contribution {
    |write: Contribution| Contribution { target: handles[write.target as int], force: write.force }
}

/// The writes, each sent on to the accumulator behind its place.
pub open spec fn routed(handles: Seq<usize>, writes: Seq<Contribution>) -> Seq<Contribution> {
    writes.map_values(to_handle(handles))
}

impl Snapshot {
    /// Bodies and handles run in parallel, each body points at its own
    /// place, and no mass is below zero.
    pub open spec fn well_formed(self) -> bool {
        &&& self.bodies@.len() == self.handles@.len()
        &&& forall|k: int|
            0 <= k < self.bodies@.len() ==> (#[trigger] self.bodies@[k]).external_force_idx == k
                && self.bodies@[k].mu.at_least_zero()
    }

    /// The snapshot holds, in their order, the candidates that have a
    /// position and a mass, and lists the others as rejected.
    pub open spec fn taken_from(self, candidates: Seq<Candidate>, policy: MassPolicy) -> bool {
        let chosen = admitted_upto(candidates, policy, candidates.len());
        &&& self.bodies@ == chosen.map(body_at(candidates, policy))
        &&& self.handles@ == chosen.map_values(handle_at(candidates))
        &&& self.rejected@ == rejected_upto(candidates, policy, candidates.len())
    }

    /// Sends writes that name places in the snapshot on to the host's
    /// accumulators. There is no answer if a write names a place that the
    /// snapshot does not have.
    pub fn route(&self, writes: &Vec<Contribution>) -> (r: Option<Vec<Contribution>>)
        ensures
            match r {
                Some(out) => all_known(writes@, self.handles.len()) && out@ == routed(
                    self.handles@,
                    writes@,
                ),
                None => !all_known(writes@, self.handles.len()),
            },
    {
        let mut out: Vec<Contribution> = Vec::new();
        let mut k: usize = 0;
        while k < writes.len()
            invariant
                k <= writes.len(),
                all_known(writes@.take(k as int), self.handles.len()),
                out@ == routed(self.handles@, writes@.take(k as int)),
            decreases writes.len() - k,
        {
            let write = writes[k];
            if write.target >= self.handles.len() {
                return None;
            }
            out.push(Contribution { target: self.handles[write.target], force: write.force });
            assert(writes@.take(k + 1) =~= writes@.take(k as int).push(writes@[k as int]));
            assert(out@ =~= routed(self.handles@, writes@.take(k + 1)));
            k += 1;
        }
        assert(writes@.take(k as int) =~= writes@);
        Some(out)
    }
}

/// A snapshot in good order names only accumulators that it has.
pub proof fn lemma_snapshot_targets(snapshot: Snapshot)
    requires
        snapshot.well_formed(),
    ensures
        targets_within(snapshot.bodies@, snapshot.handles.len()),
{
}

/// The snapshot is settled by what the host reports: two snapshots taken
/// from the same candidates under the same policy hold the same bodies, the
/// same handles and the same rejections.
pub proof fn lemma_snapshot_is_settled(
    one: Snapshot,
    other: Snapshot,
    candidates: Seq<Candidate>,
    policy: MassPolicy,
)
    requires
        one.taken_from(candidates, policy),
        other.taken_from(candidates, policy),
    ensures
        one.bodies@ == other.bodies@,
        one.handles@ == other.handles@,
        one.rejected@ == other.rejected@,
{
}

/// A body without mass takes part like any other: with a position it
/// enters the snapshot under either policy, to be accelerated by the rest.
pub proof fn lemma_massless_takes_part(candidate: Candidate, policy: MassPolicy)
    requires
        candidate.position is Some,
        candidate.mass matches Some(mass) && mass.zero(),
    ensures
        admitted(candidate, policy),
        mass_of(candidate, policy) == candidate.mass,
{
}

fn entering_mass(candidate: &Candidate, policy: &MassPolicy) -> (mass: Option<Scalar>)
    ensures
        mass == mass_of(*candidate, *policy),
{
    let source = match candidate.mass {
        Some(mass) => Some(mass),
        None => match policy {
            MassPolicy::Exclude => None,
            MassPolicy::Assume(mass) => Some(*mass),
        },
    };
    match source {
        Some(mass) => if mass.is_at_least_zero() {
            Some(mass)
        } else {
            None
        },
        None => None,
    }
}

/// Builds the snapshot of a tick from what the host reports.
///
/// The candidates that have a position and, under `policy`, a mass that is
/// at least zero become the bodies, in the order in which the host listed them; the `k`-th of
/// them writes to the handle at place `k`. The others are listed as rejected
/// and take no part in the tick.
pub fn build_snapshot(candidates: &Vec<Candidate>, policy: MassPolicy) -> (snapshot: Snapshot)
    ensures
        snapshot.well_formed(),
        snapshot.taken_from(candidates@, policy),
        snapshot.bodies@.len() + snapshot.rejected@.len() == candidates@.len(),
{
    let mut bodies: Vec<Body> = Vec::new();
    let mut handles: Vec<usize> = Vec::new();
    let mut rejected: Vec<usize> = Vec::new();
    let mut i: usize = 0;
    assert(positions(0).filter(is_admitted(candidates@, policy)) =~= Seq::<usize>::empty()) by {
        reveal(Seq::filter);
    }
    assert(positions(0).filter(is_rejected(candidates@, policy)) =~= Seq::<usize>::empty()) by {
        reveal(Seq::filter);
    }
    assert(Seq::<usize>::empty().map(body_at(candidates@, policy)) =~= Seq::<Body>::empty());
    assert(Seq::<usize>::empty().map_values(handle_at(candidates@)) =~= Seq::<usize>::empty());
    while i < candidates.len()
        invariant
            i <= candidates.len(),
            bodies@ == admitted_upto(candidates@, policy, i as nat).map(
                body_at(candidates@, policy),
            ),
            handles@ == admitted_upto(candidates@, policy, i as nat).map_values(
                handle_at(candidates@),
            ),
            rejected@ == rejected_upto(candidates@, policy, i as nat),
            bodies@.len() == handles@.len(),
            bodies@.len() + rejected@.len() == i,
            forall|k: int|
                0 <= k < bodies@.len() ==> (#[trigger] bodies@[k]).external_force_idx == k
                    && bodies@[k].mu.at_least_zero(),
        decreases candidates.len() - i,
    {
        let candidate = &candidates[i];
        let mass = entering_mass(candidate, &policy);
        proof {
            let before = positions(i as nat);
            assert(positions((i + 1) as nat) =~= before.push(i));
            before.lemma_filter_push(i, is_admitted(candidates@, policy));
            before.lemma_filter_push(i, is_rejected(candidates@, policy));
            let chosen = before.filter(is_admitted(candidates@, policy));
            let b = body_at(candidates@, policy);
            let h = handle_at(candidates@);
            assert(chosen.push(i).map(b) =~= chosen.map(b).push(b(chosen.len() as int, i)));
            assert(chosen.push(i).map_values(h) =~= chosen.map_values(h).push(h(i)));
        }
        match (candidate.position, mass) {
            (Some(position), Some(mu)) => {
                let place: usize = bodies.len();
                bodies.push(Body::new(position, mu, place));
                handles.push(candidate.handle);
            },
            _ => {
                rejected.push(i);
            },
        }
        i += 1;
    }
    Snapshot { bodies, handles, rejected }
}

} // verus!
