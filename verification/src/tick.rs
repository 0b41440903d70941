//! One tick of the force pipeline: the order of its phases and the ledger of
//! what was added to which force accumulator.
//!
//! The ledger keeps the additions as they came. The force that an accumulator
//! holds at integration is the sum, in that order and from zero, of the terms
//! that the ledger lists for it; the host forms the sum.

use crate::gravity::Contribution;
use crate::vector::Vector2;
use vstd::prelude::*;
use vstd::seq_lib::*;

verus! {

/// The three phases of a tick.
#[derive(Clone, Copy, Debug, PartialEq, Eq, Structural)]
pub enum Phase {
    /// Every accumulator goes back to zero.
    Reset,
    /// Contributors add to the accumulators, in any order among themselves.
    Contribute,
    /// The host reads the accumulated forces and advances the bodies.
    Integrate,
}

/// Why the tick refused a step.
#[derive(Clone, Copy, Debug, PartialEq, Eq, Structural)]
pub enum TickError {
    /// The phase may not be entered from where the tick stands.
    OutOfOrder,
    /// A contribution names an accumulator that the tick does not have.
    UnknownTarget,
    /// A contribution is not finite.
    NonFinite,
}

impl Phase {
    /// The place of the phase within a tick.
    pub open spec fn rank(self) -> int {
        match self {
            Phase::Reset => 0,
            Phase::Contribute => 1,
            Phase::Integrate => 2,
        }
    }
}

/// Whether a phase may be entered when the tick stands at `stage` (`None`
/// before the first tick).
///
/// A reset may not follow a contribution, which would be lost. A
/// contribution needs a reset before it, with no integration in between,
/// or the forces of the last tick would count twice. An integration needs
/// a tick that has begun.
pub open spec fn may_enter(stage: Option<Phase>, phase: Phase) -> bool {
    match phase {
        Phase::Reset => stage != Some(Phase::Contribute),
        Phase::Contribute => stage == Some(Phase::Reset) || stage == Some(Phase::Contribute),
        Phase::Integrate => stage is Some,
    }
}

/// Where the tick stands after running the phases in turn, if each of them
/// may be entered.
pub open spec fn run(stage: Option<Phase>, phases: Seq<Phase>) -> Option<Option<Phase>>
    decreases phases.len(),
{
    if phases.len() == 0 {
        Some(stage)
    } else if may_enter(stage, phases[0]) {
        run(Some(phases[0]), phases.drop_first())
    } else {
        None
    }
}

/// Picks the contributions that go to one accumulator.
pub open spec fn aims_at(target: usize) -> spec_fn(Contribution) -> bool {
    |c: Contribution| c.target == target
}

/// The force of a contribution.
pub open spec fn force_of() -> spec_fn(Contribution) -> Vector2 {
    |c: Contribution| c.force
}

/// The terms that a run of contributions adds to one accumulator, in order.
pub open spec fn terms_for(contributions: Seq<Contribution>, target: usize) -> Seq<Vector2> {
    contributions.filter(aims_at(target)).map_values(force_of())
}

/// Every contribution names one of `accumulators` accumulators.
pub open spec fn all_known(contributions: Seq<Contribution>, accumulators: usize) -> bool {
    forall|k: int|
        0 <= k < contributions.len() ==> (#[trigger] contributions[k]).target < accumulators
}

/// Every contribution is finite.
pub open spec fn all_finite(contributions: Seq<Contribution>) -> bool {
    forall|k: int| 0 <= k < contributions.len() ==> (#[trigger] contributions[k]).force.finite()
}

/// What a tick's state comes to: where it stands, how many accumulators it
/// has, and what was added to them since the reset.
pub struct TickState {
    pub stage: Option<Phase>,
    pub accumulators: usize,
    pub ledger: Seq<Contribution>,
}

impl TickState {
    /// The ledger speaks of accumulators that exist and holds finite
    /// forces only.
    pub open spec fn well_formed(self) -> bool {
        all_known(self.ledger, self.accumulators) && all_finite(self.ledger)
    }

    /// The contributions can be taken: the contribution phase is open, the
    /// targets exist and the forces are finite.
    pub open spec fn takes(self, contributions: Seq<Contribution>) -> bool {
        &&& may_enter(self.stage, Phase::Contribute)
        &&& all_known(contributions, self.accumulators)
        &&& all_finite(contributions)
    }

    /// The state after a reset with `bodies` accumulators: nothing has been
    /// added to any of them.
    pub open spec fn reset(self, bodies: usize) -> TickState {
        TickState { stage: Some(Phase::Reset), accumulators: bodies, ledger: Seq::empty() }
    }

    /// The state after the contributions were added, in order.
    pub open spec fn contribute(self, contributions: Seq<Contribution>) -> TickState {
        TickState {
            stage: Some(Phase::Contribute),
            accumulators: self.accumulators,
            ledger: self.ledger + contributions,
        }
    }

    /// The state after integration: the ledger stays as it is.
    pub open spec fn integrate(self) -> TickState {
        TickState { stage: Some(Phase::Integrate), ..self }
    }

    /// The terms accumulated for one accumulator since the reset, in the
    /// order in which they were added.
    pub open spec fn terms(self, target: usize) -> Seq<Vector2> {
        terms_for(self.ledger, target)
    }

    /// A whole tick with one contributor: reset, contribute, integrate.
    pub open spec fn tick(self, bodies: usize, contributions: Seq<Contribution>) -> TickState {
        self.reset(bodies).contribute(contributions).integrate()
    }
}

/// Why a state refuses contributions that it does not take: the first of
/// the three reasons that holds.
pub open spec fn refusal(state: TickState, contributions: Seq<Contribution>) -> TickError {
    if !may_enter(state.stage, Phase::Contribute) {
        TickError::OutOfOrder
    } else if !all_known(contributions, state.accumulators) {
        TickError::UnknownTarget
    } else {
        TickError::NonFinite
    }
}

/// The state of the force pipeline.
#[derive(Debug)]
pub struct Tick {
    /// The phase entered last; `None` before the first tick.
    stage: Option<Phase>,
    /// How many force accumulators the tick was reset with.
    accumulators: usize,
    /// The additions made since the reset, in the order they were made.
    ledger: Vec<Contribution>,
}

impl View for Tick {
    type V = TickState;

    closed spec fn view(&self) -> TickState {
        TickState { stage: self.stage, accumulators: self.accumulators, ledger: self.ledger@ }
    }
}

impl Tick {
    /// The ledger speaks of accumulators that exist and holds finite
    /// forces only. A new tick is so, and every step keeps it so.
    pub open spec fn well_formed(self) -> bool {
        self@.well_formed()
    }

    /// Checks the ledger: each addition names an accumulator of the tick
    /// and is finite.
    pub fn is_well_formed(&self) -> (r: bool)
        ensures
            r == self.well_formed(),
    {
        let mut k: usize = 0;
        while k < self.ledger.len()
            invariant
                k <= self.ledger.len(),
                forall|j: int|
                    0 <= j < k ==> (#[trigger] self.ledger@[j]).target < self.accumulators
                        && self.ledger@[j].force.finite(),
            decreases self.ledger.len() - k,
        {
            if self.ledger[k].target >= self.accumulators || !self.ledger[k].force.is_finite() {
                return false;
            }
            k += 1;
        }
        true
    }

    /// The phase entered last; `None` before the first tick.
    pub fn stage(&self) -> (stage: Option<Phase>)
        ensures
            stage == self@.stage,
    {
        self.stage
    }

    /// How many force accumulators the tick was reset with.
    pub fn accumulators(&self) -> (count: usize)
        ensures
            count == self@.accumulators,
    {
        self.accumulators
    }

    /// The additions made since the reset, in the order they were made.
    pub fn ledger(&self) -> (ledger: &Vec<Contribution>)
        ensures
            ledger@ == self@.ledger,
    {
        &self.ledger
    }

    /// A pipeline that has not run a tick yet.
    pub fn new() -> (tick: Tick)
        ensures
            tick@ == (TickState { stage: None, accumulators: 0, ledger: Seq::empty() }),
            tick.well_formed(),
    {
        Tick { stage: None, accumulators: 0, ledger: Vec::new() }
    }

    /// Tells whether `phase` may be entered now.
    pub fn admits(&self, phase: Phase) -> (r: bool)
        ensures
            r == may_enter(self@.stage, phase),
    {
        match phase {
            Phase::Reset => match self.stage {
                Some(Phase::Contribute) => false,
                _ => true,
            },
            Phase::Contribute => match self.stage {
                Some(Phase::Reset) => true,
                Some(Phase::Contribute) => true,
                _ => false,
            },
            Phase::Integrate => self.stage.is_some(),
        }
    }

    /// The contribution phase: adds the contributions to the ledger, in
    /// order, or refuses them all.
    pub fn contribute(&mut self, contributions: &Vec<Contribution>) -> (r: Result<(), TickError>)
        ensures
            old(self).well_formed() ==> final(self).well_formed(),
            match r {
                Ok(()) => old(self)@.takes(contributions@) && final(self)@ == old(self)@.contribute(
                    contributions@,
                ),
                Err(e) => {
                    &&& final(self)@ == old(self)@
                    &&& !old(self)@.takes(contributions@)
                    &&& e == refusal(old(self)@, contributions@)
                },
            },
    {
        if !self.admits(Phase::Contribute) {
            return Err(TickError::OutOfOrder);
        }
        let mut k: usize = 0;
        while k < contributions.len()
            invariant
                k <= contributions.len(),
                *self == *old(self),
                may_enter(self.stage, Phase::Contribute),
                forall|j: int|
                    0 <= j < k ==> (#[trigger] contributions@[j]).target < self.accumulators,
            decreases contributions.len() - k,
        {
            if contributions[k].target >= self.accumulators {
                return Err(TickError::UnknownTarget);
            }
            k += 1;
        }
        k = 0;
        while k < contributions.len()
            invariant
                k <= contributions.len(),
                *self == *old(self),
                may_enter(self.stage, Phase::Contribute),
                all_known(contributions@, self.accumulators),
                forall|j: int| 0 <= j < k ==> (#[trigger] contributions@[j]).force.finite(),
            decreases contributions.len() - k,
        {
            if !contributions[k].force.is_finite() {
                return Err(TickError::NonFinite);
            }
            k += 1;
        }
        k = 0;
        while k < contributions.len()
            invariant
                k <= contributions.len(),
                self.stage == old(self).stage,
                self.accumulators == old(self).accumulators,
                may_enter(self.stage, Phase::Contribute),
                all_known(contributions@, self.accumulators),
                all_finite(contributions@),
                old(self).well_formed() ==> self@.well_formed(),
                self.ledger@ == old(self).ledger@ + contributions@.take(k as int),
            decreases contributions.len() - k,
        {
            self.ledger.push(contributions[k]);
            assert(contributions@.take(k + 1) =~= contributions@.take(k as int).push(
                contributions@[k as int],
            ));
            k += 1;
        }
        assert(contributions@.take(k as int) =~= contributions@);
        self.stage = Some(Phase::Contribute);
        Ok(())
    }

    /// The integration phase: the ledger is complete, and the host may sum
    /// each accumulator's terms and advance the bodies.
    pub fn integrate(&mut self) -> (r: Result<(), TickError>)
        ensures
            match r {
                Ok(()) => may_enter(old(self)@.stage, Phase::Integrate) && final(self)@ == old(
                    self,
                )@.integrate(),
                Err(e) => e == TickError::OutOfOrder && !may_enter(
                    old(self)@.stage,
                    Phase::Integrate,
                ) && final(self)@ == old(self)@,
            },
    {
        if !self.admits(Phase::Integrate) {
            return Err(TickError::OutOfOrder);
        }
        self.stage = Some(Phase::Integrate);
        Ok(())
    }

    /// The terms accumulated for one accumulator since the reset, in the
    /// order in which they were added.
    pub fn terms_of(&self, target: usize) -> (terms: Vec<Vector2>)
        ensures
            terms@ == self@.terms(target),
    {
        let mut terms: Vec<Vector2> = Vec::new();
        let mut k: usize = 0;
        assert(self.ledger@.take(0) =~= Seq::<Contribution>::empty());
        assert(terms_for(Seq::<Contribution>::empty(), target) =~= Seq::<Vector2>::empty()) by {
            reveal(Seq::filter);
        }
        while k < self.ledger.len()
            invariant
                k <= self.ledger.len(),
                terms@ == terms_for(self.ledger@.take(k as int), target),
            decreases self.ledger.len() - k,
        {
            proof {
                lemma_terms_push(self.ledger@.take(k as int), self.ledger@[k as int], target);
                assert(self.ledger@.take(k + 1) =~= self.ledger@.take(k as int).push(
                    self.ledger@[k as int],
                ));
            }
            if self.ledger[k].target == target {
                terms.push(self.ledger[k].force);
            }
            k += 1;
        }
        assert(self.ledger@.take(k as int) =~= self.ledger@);
        terms
    }
}

/// One more contribution adds its force to the terms of its own target and
/// to no other.
pub proof fn lemma_terms_push(contributions: Seq<Contribution>, next: Contribution, target: usize)
    ensures
        terms_for(contributions.push(next), target) == if next.target == target {
            terms_for(contributions, target).push(next.force)
        } else {
            terms_for(contributions, target)
        },
{
    contributions.lemma_filter_push(next, aims_at(target));
    let chosen = contributions.filter(aims_at(target));
    assert(chosen.push(next).map_values(force_of()) =~= chosen.map_values(force_of()).push(
        next.force,
    ));
}

/// How often a force occurs among the terms of an accumulator: as often as
/// the contribution of that force to that accumulator occurs in the run.
pub proof fn lemma_term_count(contributions: Seq<Contribution>, target: usize, force: Vector2)
    ensures
        terms_for(contributions, target).to_multiset().count(force)
            == contributions.to_multiset().count(Contribution { target, force }),
    decreases contributions.len(),
{
    broadcast use group_to_multiset_ensures;

    if contributions.len() == 0 {
        reveal(Seq::filter);
        assert(terms_for(contributions, target) =~= Seq::<Vector2>::empty());
    } else {
        let init = contributions.drop_last();
        let last = contributions.last();
        assert(contributions =~= init.push(last));
        lemma_term_count(init, target, force);
        lemma_terms_push(init, last, target);
    }
}

/// The order in which contributions are made does not change what an
/// accumulator gathers: two runs that hold the same contributions, in
/// whatever order, give each accumulator the same terms, each as often.
pub proof fn lemma_order_is_immaterial(
    first: Seq<Contribution>,
    second: Seq<Contribution>,
    target: usize,
)
    requires
        first.to_multiset() == second.to_multiset(),
    ensures
        terms_for(first, target).to_multiset() == terms_for(second, target).to_multiset(),
{
    assert forall|force: Vector2|
        terms_for(first, target).to_multiset().count(force) == terms_for(
            second,
            target,
        ).to_multiset().count(force) by {
        lemma_term_count(first, target, force);
        lemma_term_count(second, target, force);
    }
    assert(terms_for(first, target).to_multiset() =~= terms_for(second, target).to_multiset());
}

/// Contributors commute: whichever of two contributors runs first, the tick
/// takes both or refuses one either way, and each accumulator gathers the
/// same terms.
pub proof fn lemma_contributors_commute(
    state: TickState,
    one: Seq<Contribution>,
    other: Seq<Contribution>,
    target: usize,
)
    ensures
        state.takes(one) && state.contribute(one).takes(other) <==> state.takes(other)
            && state.contribute(other).takes(one),
        state.contribute(one).contribute(other).terms(target).to_multiset() == state.contribute(
            other,
        ).contribute(one).terms(target).to_multiset(),
{
    lemma_multiset_commutative(state.ledger, one);
    lemma_multiset_commutative(state.ledger + one, other);
    lemma_multiset_commutative(state.ledger, other);
    lemma_multiset_commutative(state.ledger + other, one);
    assert((state.ledger + one + other).to_multiset() =~= (state.ledger + other
        + one).to_multiset());
    lemma_order_is_immaterial(state.ledger + one + other, state.ledger + other + one, target);
}

/// A tick leaves nothing of the tick before it: run again on the same
/// bodies with the same contributions, it ends in the same state, and so
/// with the same terms in every accumulator. Wherever a tick begins, it ends
/// where a new tick can begin.
pub proof fn lemma_tick_repeats(state: TickState, bodies: usize, contributions: Seq<Contribution>)
    ensures
        state.tick(bodies, contributions).tick(bodies, contributions) == state.tick(
            bodies,
            contributions,
        ),
        state.tick(bodies, contributions).ledger == contributions,
        may_enter(state.tick(bodies, contributions).stage, Phase::Reset),
{
    assert(Seq::<Contribution>::empty() + contributions =~= contributions);
}

/// After a reset no accumulator holds anything, and a tick without
/// contributions leaves it so.
pub proof fn lemma_reset_clears(state: TickState, bodies: usize, target: usize)
    ensures
        state.reset(bodies).terms(target) == Seq::<Vector2>::empty(),
        state.tick(bodies, Seq::empty()).terms(target) == Seq::<Vector2>::empty(),
        state.reset(bodies).well_formed(),
{
    reveal(Seq::filter);
    assert(Seq::<Contribution>::empty() + Seq::<Contribution>::empty() =~= Seq::<
        Contribution,
    >::empty());
    assert(terms_for(Seq::<Contribution>::empty(), target) =~= Seq::<Vector2>::empty());
}

/// No accumulator ever gathers a term that is not finite.
pub proof fn lemma_terms_are_finite(state: TickState, target: usize, k: int)
    requires
        state.well_formed(),
        0 <= k < state.terms(target).len(),
    ensures
        state.terms(target)[k].finite(),
{
    let chosen = state.ledger.filter(aims_at(target));
    state.ledger.lemma_filter_contains_rev(aims_at(target), chosen[k]);
    let w = choose|w: int| 0 <= w < state.ledger.len() && state.ledger[w] == chosen[k];
    assert(state.ledger[w].force.finite());
}

/// Taking contributions keeps the ledger in good order.
pub proof fn lemma_contribute_keeps_order(state: TickState, contributions: Seq<Contribution>)
    requires
        state.well_formed(),
        state.takes(contributions),
    ensures
        state.contribute(contributions).well_formed(),
{
    let after = state.contribute(contributions).ledger;
    assert forall|k: int| 0 <= k < after.len() implies (#[trigger] after[k]).target
        < state.accumulators && after[k].force.finite() by {
        if k < state.ledger.len() {
            assert(after[k] == state.ledger[k]);
        } else {
            assert(after[k] == contributions[k - state.ledger.len()]);
        }
    }
}

/// The reset phase: the tick begins with `bodies` accumulators, each at
/// zero, whatever the ledger held before.
pub fn pre_update_reset_forces(tick: &mut Tick, bodies: usize) -> (r: Result<(), TickError>)
    ensures
        match r {
            Ok(()) => may_enter(old(tick)@.stage, Phase::Reset) && final(tick)@ == old(
                tick,
            )@.reset(bodies),
            Err(e) => e == TickError::OutOfOrder && !may_enter(old(tick)@.stage, Phase::Reset)
                && final(tick)@ == old(tick)@,
        },
{
    if !tick.admits(Phase::Reset) {
        return Err(TickError::OutOfOrder);
    }
    tick.ledger = Vec::new();
    tick.accumulators = bodies;
    tick.stage = Some(Phase::Reset);
    Ok(())
}

/// The contributions that give `force` to each of `players` in turn.
pub open spec fn player_pushes(players: Seq<usize>, force: Vector2) -> Seq<Contribution> {
    players.map_values(|target: usize| Contribution { target, force })
}

/// The player contributor: adds the input force to the accumulator of each
/// player body.
pub fn apply_player_input_force(tick: &mut Tick, players: &Vec<usize>, force: Vector2) -> (r:
    Result<(), TickError>)
    ensures
        old(tick).well_formed() ==> final(tick).well_formed(),
        match r {
            Ok(()) => old(tick)@.takes(player_pushes(players@, force)) && final(tick)@ == old(
                tick,
            )@.contribute(player_pushes(players@, force)),
            Err(e) => {
                &&& final(tick)@ == old(tick)@
                &&& !old(tick)@.takes(player_pushes(players@, force))
                &&& e == refusal(old(tick)@, player_pushes(players@, force))
            },
        },
{
    let mut pushes: Vec<Contribution> = Vec::new();
    let mut k: usize = 0;
    while k < players.len()
        invariant
            k <= players.len(),
            pushes@ == player_pushes(players@.take(k as int), force),
        decreases players.len() - k,
    {
        pushes.push(Contribution { target: players[k], force });
        assert(players@.take(k + 1) =~= players@.take(k as int).push(players@[k as int]));
        assert(pushes@ =~= player_pushes(players@.take(k + 1), force));
        k += 1;
    }
    assert(players@.take(k as int) =~= players@);
    tick.contribute(&pushes)
}

} // verus!
