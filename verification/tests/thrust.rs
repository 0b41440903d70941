use gravity_pipeline::scalar::Scalar;
use gravity_pipeline::thrust::{player_movement_input, Heading, Keys};

fn fuel(value: f32) -> Scalar {
    Scalar::from_bits(value.to_bits())
}

fn keys(up: bool, down: bool, left: bool, right: bool) -> Keys {
    Keys { up, down, left, right }
}

#[test]
fn no_key_gives_no_thrust() {
    assert_eq!(player_movement_input(keys(false, false, false, false), fuel(100.0)), None);
}

#[test]
fn each_key_pushes_along_its_axis() {
    let full = fuel(100.0);
    assert_eq!(
        player_movement_input(keys(true, false, false, false), full),
        Some(Heading { x: 0, y: 1 })
    );
    assert_eq!(
        player_movement_input(keys(false, true, false, false), full),
        Some(Heading { x: 0, y: -1 })
    );
    assert_eq!(
        player_movement_input(keys(false, false, true, false), full),
        Some(Heading { x: -1, y: 0 })
    );
    assert_eq!(
        player_movement_input(keys(false, false, false, true), full),
        Some(Heading { x: 1, y: 0 })
    );
}

#[test]
fn two_keys_give_a_diagonal() {
    let full = fuel(100.0);
    assert_eq!(
        player_movement_input(keys(true, false, false, true), full),
        Some(Heading { x: 1, y: 1 })
    );
    assert_eq!(
        player_movement_input(keys(false, true, true, false), full),
        Some(Heading { x: -1, y: -1 })
    );
}

#[test]
fn opposite_keys_cancel() {
    let full = fuel(100.0);
    assert_eq!(player_movement_input(keys(true, true, false, false), full), None);
    assert_eq!(player_movement_input(keys(false, false, true, true), full), None);
    assert_eq!(player_movement_input(keys(true, true, true, true), full), None);
    assert_eq!(
        player_movement_input(keys(true, true, false, true), full),
        Some(Heading { x: 1, y: 0 })
    );
}

#[test]
fn every_combination_follows_the_axes() {
    for mask in 0u8..16 {
        let k = keys(mask & 1 != 0, mask & 2 != 0, mask & 4 != 0, mask & 8 != 0);
        let x = (k.right as i8) - (k.left as i8);
        let y = (k.up as i8) - (k.down as i8);
        let expected = if x == 0 && y == 0 { None } else { Some(Heading { x, y }) };
        assert_eq!(player_movement_input(k, fuel(1.0)), expected);
    }
}

#[test]
fn an_empty_tank_still_burns_at_zero() {
    let up = keys(true, false, false, false);
    assert_eq!(player_movement_input(up, fuel(0.0)), Some(Heading { x: 0, y: 1 }));
    assert_eq!(player_movement_input(up, fuel(-0.0)), Some(Heading { x: 0, y: 1 }));
}

#[test]
fn negative_fuel_gives_no_thrust() {
    let up = keys(true, false, false, false);
    assert_eq!(player_movement_input(up, fuel(-0.016)), None);
    assert_eq!(player_movement_input(up, fuel(f32::NEG_INFINITY)), None);
}

#[test]
fn fuel_that_is_no_number_gives_no_thrust() {
    let up = keys(true, false, false, false);
    assert_eq!(player_movement_input(up, fuel(f32::NAN)), None);
}
