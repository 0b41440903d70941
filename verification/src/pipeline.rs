//! The gravity contributor as the host calls it once per tick: from the
//! snapshot and the solver's accelerations to the additions in the ledger.

use crate::gravity::{
    accelerate_particles, discarded, lemma_writes_hit, targets_within, written, Contribution,
    GravityError,
};
use crate::snapshot::{routed, Snapshot};
use crate::tick::{refusal, Tick, TickError, TickState};
use crate::vector::Vector3;
use vstd::prelude::*;

verus! {

/// What the gravity contributor did in one tick.
#[derive(Debug)]
pub struct GravityReport {
    /// The additions that went into the ledger, in snapshot order, each
    /// with the host's accumulator as its target.
    pub added: Vec<Contribution>,
    /// The snapshot positions of the bodies whose contribution was dropped
    /// because their acceleration was not finite, in ascending order.
    pub discarded: Vec<usize>,
}

/// Why the gravity contributor added nothing.
#[derive(Clone, Copy, Debug, PartialEq, Eq, Structural)]
pub enum PipelineError {
    /// There is not one acceleration per body.
    LengthMismatch,
    /// A body points at a place that the snapshot does not have.
    TargetOutOfRange,
    /// The tick refused the additions.
    Refused(TickError),
}

/// The additions that gravity makes for a snapshot: a write for each body
/// whose acceleration is finite, sent to the accumulator behind the body.
pub open spec fn gravity_additions(snapshot: Snapshot, accelerations: Seq<Vector3>) -> Seq<
    Contribution,
> {
    routed(snapshot.handles@, written(snapshot.bodies@, accelerations))
}

/// Why gravity adds nothing, when it adds nothing: the first reason that
/// holds.
pub open spec fn failure(state: TickState, snapshot: Snapshot, accelerations: Seq<Vector3>)
    -> PipelineError {
    if snapshot.bodies@.len() != accelerations.len() {
        PipelineError::LengthMismatch
    } else if !targets_within(snapshot.bodies@, snapshot.handles.len()) {
        PipelineError::TargetOutOfRange
    } else {
        PipelineError::Refused(refusal(state, gravity_additions(snapshot, accelerations)))
    }
}

/// Gravity can add for the snapshot: there is one acceleration for each
/// body, each body points at a place of the snapshot, and the tick takes
/// the additions.
pub open spec fn gravity_applies(state: TickState, snapshot: Snapshot, accelerations: Seq<Vector3>)
    -> bool {
    &&& snapshot.bodies@.len() == accelerations.len()
    &&& targets_within(snapshot.bodies@, snapshot.handles.len())
    &&& state.takes(gravity_additions(snapshot, accelerations))
}

/// Runs the gravity contributor: adds to the ledger what the solver's
/// accelerations, already scaled by the gravitational constant, come to for
/// the bodies of the snapshot, and reports the bodies whose contribution
/// was discarded. Either all additions are made or none.
pub fn apply_gravity(tick: &mut Tick, snapshot: &Snapshot, accelerations: &Vec<Vector3>) -> (r:
    Result<GravityReport, PipelineError>)
    ensures
        old(tick).well_formed() ==> final(tick).well_formed(),
        match r {
            Ok(report) => {
                &&& gravity_applies(old(tick)@, *snapshot, accelerations@)
                &&& final(tick)@ == old(tick)@.contribute(
                    gravity_additions(*snapshot, accelerations@),
                )
                &&& report.added@ == gravity_additions(*snapshot, accelerations@)
                &&& report.discarded@ == discarded(accelerations@)
            },
            Err(e) => {
                &&& !gravity_applies(old(tick)@, *snapshot, accelerations@)
                &&& final(tick)@ == old(tick)@
                &&& e == failure(old(tick)@, *snapshot, accelerations@)
            },
        },
{
    let plan = match accelerate_particles(&snapshot.bodies, accelerations, snapshot.handles.len()) {
        Ok(plan) => plan,
        Err(GravityError::LengthMismatch) => {
            return Err(PipelineError::LengthMismatch);
        },
        Err(GravityError::TargetOutOfRange) => {
            return Err(PipelineError::TargetOutOfRange);
        },
    };
    proof {
        assert(accelerations@.len() == accelerations.len());
        lemma_writes_hit(snapshot.bodies@, accelerations@, snapshot.handles.len());
    }
    let added = match snapshot.route(&plan.writes) {
        Some(added) => added,
        None => {
            return Err(PipelineError::TargetOutOfRange);
        },
    };
    match tick.contribute(&added) {
        Ok(()) => Ok(GravityReport { added, discarded: plan.discarded }),
        Err(e) => Err(PipelineError::Refused(e)),
    }
}

/// What gravity adds is finite, whatever the solver gave: a tick that takes
/// additions to the accumulators named never refuses gravity for a value
/// that is not finite.
pub proof fn lemma_gravity_adds_finite(snapshot: Snapshot, accelerations: Seq<Vector3>, k: int)
    requires
        snapshot.bodies@.len() == accelerations.len(),
        0 <= k < gravity_additions(snapshot, accelerations).len(),
    ensures
        gravity_additions(snapshot, accelerations)[k].force.finite(),
{
    assert(snapshot.bodies@.len() == snapshot.bodies.len());
    crate::gravity::lemma_writes_are_sound(snapshot.bodies@, accelerations, k);
}

} // verus!
