use gravity_pipeline::gravity::Contribution;
use gravity_pipeline::scalar::Scalar;
use gravity_pipeline::tick::{
    apply_player_input_force, pre_update_reset_forces, Phase, Tick, TickError,
};
use gravity_pipeline::vector::Vector2;

fn s(value: f32) -> Scalar {
    Scalar::from_bits(value.to_bits())
}

fn v2(x: f32, y: f32) -> Vector2 {
    Vector2::new(s(x), s(y))
}

fn push(target: usize, x: f32, y: f32) -> Contribution {
    Contribution { target, force: v2(x, y) }
}

fn net(tick: &Tick, target: usize) -> (f32, f32) {
    let mut sum = (0.0f32, 0.0f32);
    for term in tick.terms_of(target) {
        sum.0 += f32::from_bits(term.x.to_bits());
        sum.1 += f32::from_bits(term.y.to_bits());
    }
    sum
}

#[test]
fn a_new_pipeline_awaits_its_first_reset() {
    let tick = Tick::new();
    assert_eq!(tick.stage(), None);
    assert_eq!(tick.accumulators(), 0);
    assert!(tick.ledger().is_empty());
    assert!(tick.admits(Phase::Reset));
    assert!(!tick.admits(Phase::Contribute));
    assert!(!tick.admits(Phase::Integrate));
    assert!(tick.is_well_formed());
}

#[test]
fn a_tick_runs_reset_contribute_integrate() {
    let mut tick = Tick::new();
    assert_eq!(pre_update_reset_forces(&mut tick, 2), Ok(()));
    assert_eq!(tick.stage(), Some(Phase::Reset));
    assert_eq!(tick.accumulators(), 2);
    assert_eq!(tick.contribute(&vec![push(0, 1.0, 2.0)]), Ok(()));
    assert_eq!(tick.stage(), Some(Phase::Contribute));
    assert_eq!(tick.integrate(), Ok(()));
    assert_eq!(tick.stage(), Some(Phase::Integrate));
    assert_eq!(*tick.ledger(), vec![push(0, 1.0, 2.0)]);
    assert_eq!(pre_update_reset_forces(&mut tick, 3), Ok(()));
    assert_eq!(tick.stage(), Some(Phase::Reset));
    assert_eq!(tick.accumulators(), 3);
    assert!(tick.ledger().is_empty());
}

#[test]
fn gravity_before_the_reset_is_refused() {
    let mut tick = Tick::new();
    assert_eq!(tick.contribute(&vec![push(0, 1.0, 0.0)]), Err(TickError::OutOfOrder));
    assert_eq!(tick.stage(), None);
    assert!(tick.ledger().is_empty());
    pre_update_reset_forces(&mut tick, 1).unwrap();
    tick.contribute(&vec![push(0, 1.0, 0.0)]).unwrap();
    tick.integrate().unwrap();
    assert_eq!(tick.contribute(&vec![push(0, 1.0, 0.0)]), Err(TickError::OutOfOrder));
    assert_eq!(tick.stage(), Some(Phase::Integrate));
    assert_eq!(*tick.ledger(), vec![push(0, 1.0, 0.0)]);
}

#[test]
fn a_reset_after_a_contribution_is_refused() {
    let mut tick = Tick::new();
    pre_update_reset_forces(&mut tick, 1).unwrap();
    tick.contribute(&vec![push(0, 4.0, 0.0)]).unwrap();
    assert_eq!(pre_update_reset_forces(&mut tick, 1), Err(TickError::OutOfOrder));
    assert_eq!(tick.stage(), Some(Phase::Contribute));
    assert_eq!(tick.accumulators(), 1);
    assert_eq!(*tick.ledger(), vec![push(0, 4.0, 0.0)]);
}

#[test]
fn a_second_reset_before_any_contribution_is_taken() {
    let mut tick = Tick::new();
    assert_eq!(pre_update_reset_forces(&mut tick, 1), Ok(()));
    assert_eq!(pre_update_reset_forces(&mut tick, 4), Ok(()));
    assert_eq!(tick.accumulators(), 4);
}

#[test]
fn integration_needs_a_tick_that_has_begun() {
    let mut tick = Tick::new();
    assert_eq!(tick.integrate(), Err(TickError::OutOfOrder));
    assert_eq!(tick.stage(), None);
    pre_update_reset_forces(&mut tick, 0).unwrap();
    assert_eq!(tick.integrate(), Ok(()));
    assert_eq!(tick.integrate(), Ok(()));
}

#[test]
fn a_contribution_to_an_unknown_accumulator_is_refused_whole() {
    let mut tick = Tick::new();
    pre_update_reset_forces(&mut tick, 2).unwrap();
    let r = tick.contribute(&vec![push(0, 1.0, 1.0), push(2, 1.0, 1.0)]);
    assert_eq!(r, Err(TickError::UnknownTarget));
    assert!(tick.ledger().is_empty());
    assert_eq!(tick.stage(), Some(Phase::Reset));
}

#[test]
fn a_contribution_that_is_not_finite_is_refused_whole() {
    let mut tick = Tick::new();
    pre_update_reset_forces(&mut tick, 2).unwrap();
    tick.contribute(&vec![push(1, 3.0, 0.0)]).unwrap();
    let r = tick.contribute(&vec![push(0, 1.0, 1.0), push(1, f32::NAN, 1.0)]);
    assert_eq!(r, Err(TickError::NonFinite));
    let r = tick.contribute(&vec![push(0, 1.0, f32::INFINITY)]);
    assert_eq!(r, Err(TickError::NonFinite));
    assert_eq!(*tick.ledger(), vec![push(1, 3.0, 0.0)]);
    assert_eq!(net(&tick, 0), (0.0, 0.0));
    assert_eq!(net(&tick, 1), (3.0, 0.0));
    assert!(tick.is_well_formed());
    for write in tick.ledger() {
        assert!(write.force.is_finite());
        assert!(write.target < tick.accumulators());
    }
}

#[test]
fn an_unknown_target_is_reported_before_a_value_that_is_not_finite() {
    let mut tick = Tick::new();
    pre_update_reset_forces(&mut tick, 1).unwrap();
    let r = tick.contribute(&vec![push(0, f32::NAN, 0.0), push(1, 0.0, 0.0)]);
    assert_eq!(r, Err(TickError::UnknownTarget));
    let mut idle = Tick::new();
    let r = idle.contribute(&vec![push(0, f32::NAN, 0.0)]);
    assert_eq!(r, Err(TickError::OutOfOrder));
}

#[test]
fn terms_come_in_the_order_they_were_added() {
    let mut tick = Tick::new();
    pre_update_reset_forces(&mut tick, 3).unwrap();
    tick.contribute(&vec![push(0, 1.0, 0.0), push(2, 2.0, 0.0), push(0, 3.0, 0.0)]).unwrap();
    tick.contribute(&vec![push(2, 4.0, 0.0), push(0, 5.0, 0.0)]).unwrap();
    assert_eq!(tick.terms_of(0), vec![v2(1.0, 0.0), v2(3.0, 0.0), v2(5.0, 0.0)]);
    assert_eq!(tick.terms_of(1), Vec::new());
    assert_eq!(tick.terms_of(2), vec![v2(2.0, 0.0), v2(4.0, 0.0)]);
    assert_eq!(tick.terms_of(3), Vec::new());
    assert_eq!(net(&tick, 0), (9.0, 0.0));
    assert_eq!(net(&tick, 2), (6.0, 0.0));
}

#[test]
fn a_reset_leaves_every_accumulator_at_zero() {
    let mut tick = Tick::new();
    pre_update_reset_forces(&mut tick, 2).unwrap();
    tick.contribute(&vec![push(0, 1.0, 1.0), push(1, 2.0, 2.0)]).unwrap();
    tick.integrate().unwrap();
    pre_update_reset_forces(&mut tick, 2).unwrap();
    assert_eq!(net(&tick, 0), (0.0, 0.0));
    assert_eq!(net(&tick, 1), (0.0, 0.0));
    tick.contribute(&Vec::new()).unwrap();
    tick.integrate().unwrap();
    assert_eq!(net(&tick, 0), (0.0, 0.0));
    assert_eq!(net(&tick, 1), (0.0, 0.0));
}

#[test]
fn contributors_may_run_in_either_order() {
    let gravity = vec![push(0, 0.5, -2.0), push(1, 8.0, 0.25)];
    let player = vec![push(1, 150.0, 0.0)];
    let mut one = Tick::new();
    pre_update_reset_forces(&mut one, 2).unwrap();
    one.contribute(&gravity).unwrap();
    one.contribute(&player).unwrap();
    let mut other = Tick::new();
    pre_update_reset_forces(&mut other, 2).unwrap();
    other.contribute(&player).unwrap();
    other.contribute(&gravity).unwrap();
    assert_eq!(net(&one, 0), (0.5, -2.0));
    assert_eq!(net(&one, 1), (158.0, 0.25));
    assert_eq!(net(&other, 0), net(&one, 0));
    assert_eq!(net(&other, 1), net(&one, 1));
    let mut sorted_one = one.terms_of(1);
    let mut sorted_other = other.terms_of(1);
    sorted_one.sort_by_key(|t| (t.x.to_bits(), t.y.to_bits()));
    sorted_other.sort_by_key(|t| (t.x.to_bits(), t.y.to_bits()));
    assert_eq!(sorted_one, sorted_other);
}

#[test]
fn the_same_tick_twice_ends_in_the_same_state() {
    let gravity = vec![push(0, 0.2, 0.0), push(1, -0.1, 0.0)];
    let mut tick = Tick::new();
    pre_update_reset_forces(&mut tick, 2).unwrap();
    tick.contribute(&gravity).unwrap();
    tick.integrate().unwrap();
    let first = (tick.stage(), tick.accumulators(), tick.ledger().clone());
    let sums = (net(&tick, 0), net(&tick, 1));
    pre_update_reset_forces(&mut tick, 2).unwrap();
    tick.contribute(&gravity).unwrap();
    tick.integrate().unwrap();
    assert_eq!((tick.stage(), tick.accumulators(), tick.ledger().clone()), first);
    assert_eq!((net(&tick, 0), net(&tick, 1)), sums);
    assert_eq!(*tick.ledger(), gravity);
}

#[test]
fn the_player_force_reaches_each_player() {
    let mut tick = Tick::new();
    pre_update_reset_forces(&mut tick, 3).unwrap();
    tick.contribute(&vec![push(2, 1.0, 1.0)]).unwrap();
    assert_eq!(apply_player_input_force(&mut tick, &vec![2, 0], v2(0.0, 150.0)), Ok(()));
    assert_eq!(*tick.ledger(), vec![push(2, 1.0, 1.0), push(2, 0.0, 150.0), push(0, 0.0, 150.0)]);
    assert_eq!(net(&tick, 0), (0.0, 150.0));
    assert_eq!(net(&tick, 1), (0.0, 0.0));
    assert_eq!(net(&tick, 2), (1.0, 151.0));
}

#[test]
fn the_player_force_without_players_only_opens_the_phase() {
    let mut tick = Tick::new();
    pre_update_reset_forces(&mut tick, 1).unwrap();
    assert_eq!(apply_player_input_force(&mut tick, &Vec::new(), v2(1.0, 0.0)), Ok(()));
    assert_eq!(tick.stage(), Some(Phase::Contribute));
    assert!(tick.ledger().is_empty());
}

#[test]
fn the_player_force_is_refused_like_any_contribution() {
    let mut tick = Tick::new();
    assert_eq!(
        apply_player_input_force(&mut tick, &vec![0], v2(1.0, 0.0)),
        Err(TickError::OutOfOrder)
    );
    pre_update_reset_forces(&mut tick, 1).unwrap();
    assert_eq!(
        apply_player_input_force(&mut tick, &vec![0, 1], v2(1.0, 0.0)),
        Err(TickError::UnknownTarget)
    );
    assert_eq!(
        apply_player_input_force(&mut tick, &vec![0], v2(f32::NAN, 0.0)),
        Err(TickError::NonFinite)
    );
    assert!(tick.ledger().is_empty());
    assert_eq!(tick.stage(), Some(Phase::Reset));
}
