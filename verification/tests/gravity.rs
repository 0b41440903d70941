use gravity_pipeline::body::Body;
use gravity_pipeline::gravity::{accelerate_particles, Contribution, GravityError};
use gravity_pipeline::scalar::Scalar;
use gravity_pipeline::vector::{Vector2, Vector3};

fn s(value: f32) -> Scalar {
    Scalar::from_bits(value.to_bits())
}

fn v3(x: f32, y: f32, z: f32) -> Vector3 {
    Vector3::new(s(x), s(y), s(z))
}

fn v2(x: f32, y: f32) -> Vector2 {
    Vector2::new(s(x), s(y))
}

fn body(target: usize) -> Body {
    Body::new(v3(target as f32, 0.0, 0.0), s(1.0), target)
}

#[test]
fn finite_accelerations_are_all_written() {
    let bodies = vec![body(0), body(1)];
    let accelerations = vec![v3(0.2, 0.0, 0.0), v3(-0.1, 0.0, 0.0)];
    let plan = accelerate_particles(&bodies, &accelerations, 2).unwrap();
    assert_eq!(
        plan.writes,
        vec![
            Contribution { target: 0, force: v2(0.2, 0.0) },
            Contribution { target: 1, force: v2(-0.1, 0.0) },
        ]
    );
    assert!(plan.discarded.is_empty());
}

#[test]
fn the_third_component_is_not_written() {
    let bodies = vec![body(0)];
    let plan = accelerate_particles(&bodies, &vec![v3(1.0, 2.0, 3.0)], 1).unwrap();
    assert_eq!(plan.writes, vec![Contribution { target: 0, force: v2(1.0, 2.0) }]);
}

#[test]
fn writes_go_where_the_bodies_point() {
    let bodies = vec![body(2), body(0), body(1)];
    let accelerations = vec![v3(1.0, 0.0, 0.0), v3(2.0, 0.0, 0.0), v3(3.0, 0.0, 0.0)];
    let plan = accelerate_particles(&bodies, &accelerations, 3).unwrap();
    assert_eq!(
        plan.writes,
        vec![
            Contribution { target: 2, force: v2(1.0, 0.0) },
            Contribution { target: 0, force: v2(2.0, 0.0) },
            Contribution { target: 1, force: v2(3.0, 0.0) },
        ]
    );
}

#[test]
fn an_acceleration_that_is_no_number_is_discarded() {
    let bodies = vec![body(0), body(1), body(2)];
    let accelerations = vec![v3(f32::NAN, f32::NAN, f32::NAN), v3(1.0, 1.0, 0.0), v3(0.0, f32::NAN, 0.0)];
    let plan = accelerate_particles(&bodies, &accelerations, 3).unwrap();
    assert_eq!(plan.writes, vec![Contribution { target: 1, force: v2(1.0, 1.0) }]);
    assert_eq!(plan.discarded, vec![0, 2]);
}

#[test]
fn an_infinite_acceleration_is_discarded() {
    let bodies = vec![body(0), body(1), body(2)];
    let accelerations =
        vec![v3(f32::INFINITY, 0.0, 0.0), v3(0.0, f32::NEG_INFINITY, 0.0), v3(0.0, 0.0, f32::INFINITY)];
    let plan = accelerate_particles(&bodies, &accelerations, 3).unwrap();
    assert!(plan.writes.is_empty());
    assert_eq!(plan.discarded, vec![0, 1, 2]);
}

#[test]
fn the_largest_finite_acceleration_is_written() {
    let bodies = vec![body(0)];
    let plan = accelerate_particles(&bodies, &vec![v3(f32::MAX, f32::MIN, 0.0)], 1).unwrap();
    assert_eq!(plan.writes, vec![Contribution { target: 0, force: v2(f32::MAX, f32::MIN) }]);
    assert!(plan.discarded.is_empty());
}

#[test]
fn no_bodies_give_an_empty_plan() {
    let plan = accelerate_particles(&Vec::new(), &Vec::new(), 0).unwrap();
    assert!(plan.writes.is_empty());
    assert!(plan.discarded.is_empty());
    let plan = accelerate_particles(&Vec::new(), &Vec::new(), 5).unwrap();
    assert!(plan.writes.is_empty());
    assert!(plan.discarded.is_empty());
}

#[test]
fn every_body_is_written_for_or_reported() {
    let mut bodies = Vec::new();
    let mut accelerations = Vec::new();
    for k in 0..40usize {
        bodies.push(body(k));
        let x = if k % 4 == 1 { f32::NAN } else { k as f32 };
        let y = if k % 7 == 2 { f32::INFINITY } else { 1.0 };
        accelerations.push(v3(x, y, 0.0));
    }
    let plan = accelerate_particles(&bodies, &accelerations, 40).unwrap();
    assert_eq!(plan.writes.len() + plan.discarded.len(), 40);
    for write in &plan.writes {
        assert!(write.force.is_finite());
        assert!(!plan.discarded.contains(&write.target));
    }
    for k in 0..40usize {
        let reported = plan.discarded.iter().filter(|d| **d == k).count();
        let expected = if k % 4 == 1 || k % 7 == 2 { 1 } else { 0 };
        assert_eq!(reported, expected);
    }
}

#[test]
fn a_missing_acceleration_is_refused() {
    let bodies = vec![body(0), body(1)];
    let r = accelerate_particles(&bodies, &vec![v3(0.0, 0.0, 0.0)], 2);
    assert_eq!(r.unwrap_err(), GravityError::LengthMismatch);
    let r = accelerate_particles(&Vec::new(), &vec![v3(0.0, 0.0, 0.0)], 2);
    assert_eq!(r.unwrap_err(), GravityError::LengthMismatch);
}

#[test]
fn a_body_that_points_nowhere_is_refused() {
    let bodies = vec![body(0), body(2)];
    let accelerations = vec![v3(0.0, 0.0, 0.0), v3(0.0, 0.0, 0.0)];
    let r = accelerate_particles(&bodies, &accelerations, 2);
    assert_eq!(r.unwrap_err(), GravityError::TargetOutOfRange);
    assert!(accelerate_particles(&bodies, &accelerations, 3).is_ok());
}

#[test]
fn a_length_mismatch_is_reported_before_a_bad_target() {
    let bodies = vec![body(9)];
    let r = accelerate_particles(&bodies, &Vec::new(), 1);
    assert_eq!(r.unwrap_err(), GravityError::LengthMismatch);
}
