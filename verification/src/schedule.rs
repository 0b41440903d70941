//! The order in which registered systems run within a tick.

use crate::tick::{may_enter, run, Phase};
use vstd::prelude::*;
use vstd::seq_lib::*;

verus! {

/// A system of the host, registered for one phase of the tick.
#[derive(Clone, Copy, Debug, PartialEq, Eq, Structural)]
pub struct Registration {
    /// The host's name for the system.
    pub system: u32,
    /// The phase in which it runs.
    pub phase: Phase,
}

/// Picks the registrations of one phase.
pub open spec fn in_phase(phase: Phase) -> spec_fn(Registration) -> bool {
    |r: Registration| r.phase == phase
}

/// The phase of a registration.
pub open spec fn phase_of() -> spec_fn(Registration) -> Phase {
    |r: Registration| r.phase
}

/// The execution order: the reset systems, then the contributors, then the
/// integrators, each group in the order of registration.
pub open spec fn ordered(registrations: Seq<Registration>) -> Seq<Registration> {
    registrations.filter(in_phase(Phase::Reset)) + registrations.filter(
        in_phase(Phase::Contribute),
    ) + registrations.filter(in_phase(Phase::Integrate))
}

fn gather(registrations: &Vec<Registration>, phase: Phase, order: &mut Vec<Registration>)
    ensures
        final(order)@ == old(order)@ + registrations@.filter(in_phase(phase)),
{
    let mut k: usize = 0;
    assert(registrations@.take(0).filter(in_phase(phase)) =~= Seq::<Registration>::empty()) by {
        reveal(Seq::filter);
    }
    assert(order@ + Seq::<Registration>::empty() =~= order@);
    while k < registrations.len()
        invariant
            k <= registrations.len(),
            order@ == old(order)@ + registrations@.take(k as int).filter(in_phase(phase)),
        decreases registrations.len() - k,
    {
        proof {
            let seen = registrations@.take(k as int);
            assert(registrations@.take(k + 1) =~= seen.push(registrations@[k as int]));
            seen.lemma_filter_push(registrations@[k as int], in_phase(phase));
        }
        if registrations[k].phase == phase {
            order.push(registrations[k]);
        }
        k += 1;
    }
    assert(registrations@.take(k as int) =~= registrations@);
}

/// Orders the registered systems for execution, in whatever order they were
/// registered.
pub fn execution_order(registrations: &Vec<Registration>) -> (order: Vec<Registration>)
    ensures
        order@ == ordered(registrations@),
{
    let mut order: Vec<Registration> = Vec::new();
    gather(registrations, Phase::Reset, &mut order);
    gather(registrations, Phase::Contribute, &mut order);
    gather(registrations, Phase::Integrate, &mut order);
    assert(order@ =~= ordered(registrations@));
    order
}

/// In the execution order no system runs before a system of an earlier
/// phase: resets come before contributors, contributors before integrators.
pub proof fn lemma_order_follows_phases(registrations: Seq<Registration>, i: int, j: int)
    requires
        0 <= i <= j < ordered(registrations).len(),
    ensures
        ordered(registrations)[i].phase.rank() <= ordered(registrations)[j].phase.rank(),
{
    let a = registrations.filter(in_phase(Phase::Reset));
    let b = registrations.filter(in_phase(Phase::Contribute));
    let c = registrations.filter(in_phase(Phase::Integrate));
    assert forall|k: int| 0 <= k < a.len() implies (#[trigger] a[k]).phase == Phase::Reset by {
        registrations.lemma_filter_pred(in_phase(Phase::Reset), k);
    }
    assert forall|k: int| 0 <= k < b.len() implies (#[trigger] b[k]).phase
        == Phase::Contribute by {
        registrations.lemma_filter_pred(in_phase(Phase::Contribute), k);
    }
    assert forall|k: int| 0 <= k < c.len() implies (#[trigger] c[k]).phase
        == Phase::Integrate by {
        registrations.lemma_filter_pred(in_phase(Phase::Integrate), k);
    }
}

/// The execution order runs every registered system, each as often as it
/// was registered, and no other.
pub proof fn lemma_order_keeps_all(registrations: Seq<Registration>)
    ensures
        ordered(registrations).to_multiset() == registrations.to_multiset(),
    decreases registrations.len(),
{
    broadcast use group_to_multiset_ensures;

    let a = registrations.filter(in_phase(Phase::Reset));
    let b = registrations.filter(in_phase(Phase::Contribute));
    let c = registrations.filter(in_phase(Phase::Integrate));
    lemma_multiset_commutative(a + b, c);
    lemma_multiset_commutative(a, b);
    if registrations.len() == 0 {
        reveal(Seq::filter);
        assert(ordered(registrations) =~= registrations);
    } else {
        let init = registrations.drop_last();
        let x = registrations.last();
        assert(registrations =~= init.push(x));
        lemma_order_keeps_all(init);
        let a0 = init.filter(in_phase(Phase::Reset));
        let b0 = init.filter(in_phase(Phase::Contribute));
        let c0 = init.filter(in_phase(Phase::Integrate));
        lemma_multiset_commutative(a0 + b0, c0);
        lemma_multiset_commutative(a0, b0);
        init.lemma_filter_push(x, in_phase(Phase::Reset));
        init.lemma_filter_push(x, in_phase(Phase::Contribute));
        init.lemma_filter_push(x, in_phase(Phase::Integrate));
        assert(ordered(registrations).to_multiset() =~= ordered(init).to_multiset().insert(x));
        assert(ordered(registrations).to_multiset() =~= registrations.to_multiset());
    }
}

/// Filtering a phase's registrations by a phase gives them back if the
/// phases agree and nothing if they differ.
pub proof fn lemma_filter_by_phase_twice(registrations: Seq<Registration>, p: Phase, q: Phase)
    ensures
        registrations.filter(in_phase(p)).filter(in_phase(q)) == if p == q {
            registrations.filter(in_phase(p))
        } else {
            Seq::<Registration>::empty()
        },
    decreases registrations.len(),
{
    if registrations.len() == 0 {
        reveal(Seq::filter);
        assert(registrations.filter(in_phase(p)) =~= Seq::<Registration>::empty());
        assert(Seq::<Registration>::empty().filter(in_phase(q)) =~= Seq::<Registration>::empty());
    } else {
        let init = registrations.drop_last();
        let x = registrations.last();
        assert(registrations =~= init.push(x));
        lemma_filter_by_phase_twice(init, p, q);
        init.lemma_filter_push(x, in_phase(p));
        init.filter(in_phase(p)).lemma_filter_push(x, in_phase(q));
    }
}

/// Within a phase the systems run in the order in which they were
/// registered.
pub proof fn lemma_order_is_stable(registrations: Seq<Registration>, phase: Phase)
    ensures
        ordered(registrations).filter(in_phase(phase)) == registrations.filter(in_phase(phase)),
{
    let a = registrations.filter(in_phase(Phase::Reset));
    let b = registrations.filter(in_phase(Phase::Contribute));
    let c = registrations.filter(in_phase(Phase::Integrate));
    Seq::filter_distributes_over_add(a + b, c, in_phase(phase));
    Seq::filter_distributes_over_add(a, b, in_phase(phase));
    lemma_filter_by_phase_twice(registrations, Phase::Reset, phase);
    lemma_filter_by_phase_twice(registrations, Phase::Contribute, phase);
    lemma_filter_by_phase_twice(registrations, Phase::Integrate, phase);
    let e = Seq::<Registration>::empty();
    assert(e + e =~= e);
    assert(a + e =~= a);
    assert(e + b =~= b);
    assert(e + c =~= c);
    assert(a + e + e =~= a);
    assert(e + b + e =~= b);
}

/// Running one phase after another, in two stretches.
pub proof fn lemma_run_concat(stage: Option<Phase>, first: Seq<Phase>, second: Seq<Phase>)
    ensures
        run(stage, first + second) == match run(stage, first) {
            Some(reached) => run(reached, second),
            None => None,
        },
    decreases first.len(),
{
    if first.len() == 0 {
        assert(first + second =~= second);
    } else {
        assert((first + second).drop_first() =~= first.drop_first() + second);
        assert((first + second)[0] == first[0]);
        if may_enter(stage, first[0]) {
            lemma_run_concat(Some(first[0]), first.drop_first(), second);
        }
    }
}

/// A stretch of systems of one phase runs through if the phase can be
/// entered, and leaves the tick in that phase.
pub proof fn lemma_run_one_phase(stage: Option<Phase>, systems: Seq<Registration>, phase: Phase)
    requires
        forall|k: int| 0 <= k < systems.len() ==> (#[trigger] systems[k]).phase == phase,
        may_enter(stage, phase),
    ensures
        run(stage, systems.map_values(phase_of())) == if systems.len() == 0 {
            Some(stage)
        } else {
            Some(Some(phase))
        },
    decreases systems.len(),
{
    let phases = systems.map_values(phase_of());
    if systems.len() > 0 {
        assert(phases[0] == systems[0].phase);
        assert(phases.drop_first() =~= systems.drop_first().map_values(phase_of()));
        assert forall|k: int| 0 <= k < systems.drop_first().len() implies (
        #[trigger] systems.drop_first()[k]).phase == phase by {
            assert(systems.drop_first()[k] == systems[k + 1]);
        }
        lemma_run_one_phase(Some(phase), systems.drop_first(), phase);
    }
}

/// However the systems were registered, the tick accepts their execution
/// order: if a reset system is among them and no contribution is pending,
/// every system finds its phase open when its turn comes.
pub proof fn lemma_order_runs(stage: Option<Phase>, registrations: Seq<Registration>)
    requires
        stage != Some(Phase::Contribute),
        exists|k: int|
            0 <= k < registrations.len() && (#[trigger] registrations[k]).phase == Phase::Reset,
    ensures
        run(stage, ordered(registrations).map_values(phase_of())) is Some,
{
    let a = registrations.filter(in_phase(Phase::Reset));
    let b = registrations.filter(in_phase(Phase::Contribute));
    let c = registrations.filter(in_phase(Phase::Integrate));
    assert forall|k: int| 0 <= k < a.len() implies (#[trigger] a[k]).phase == Phase::Reset by {
        registrations.lemma_filter_pred(in_phase(Phase::Reset), k);
    }
    assert forall|k: int| 0 <= k < b.len() implies (#[trigger] b[k]).phase
        == Phase::Contribute by {
        registrations.lemma_filter_pred(in_phase(Phase::Contribute), k);
    }
    assert forall|k: int| 0 <= k < c.len() implies (#[trigger] c[k]).phase
        == Phase::Integrate by {
        registrations.lemma_filter_pred(in_phase(Phase::Integrate), k);
    }
    let w = choose|k: int|
        0 <= k < registrations.len() && (#[trigger] registrations[k]).phase == Phase::Reset;
    registrations.lemma_filter_contains(in_phase(Phase::Reset), w);
    assert(a.len() > 0);
    let pa = a.map_values(phase_of());
    let pb = b.map_values(phase_of());
    let pc = c.map_values(phase_of());
    assert(ordered(registrations).map_values(phase_of()) =~= pa + pb + pc);
    lemma_run_one_phase(stage, a, Phase::Reset);
    lemma_run_concat(stage, pa, pb);
    lemma_run_one_phase(Some(Phase::Reset), b, Phase::Contribute);
    let mid = run(stage, pa + pb)->Some_0;
    assert(mid == Some(Phase::Reset) || mid == Some(Phase::Contribute));
    lemma_run_concat(stage, pa + pb, pc);
    lemma_run_one_phase(mid, c, Phase::Integrate);
}

} // verus!
