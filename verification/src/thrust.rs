//! The player's thrust: from the keys held down to the heading of the force.

use crate::scalar::Scalar;
use vstd::prelude::*;

verus! {

/// The four steering keys, each held down or not.
#[derive(Clone, Copy, Debug, PartialEq, Eq, Structural)]
pub struct Keys {
    pub up: bool,
    pub down: bool,
    pub left: bool,
    pub right: bool,
}

/// A direction on the grid: each component is -1, 0 or 1.
#[derive(Clone, Copy, Debug, PartialEq, Eq, Structural)]
pub struct Heading {
    pub x: i8,
    pub y: i8,
}

/// What one axis gives: the key that adds, less the key that takes away.
pub open spec fn axis(plus: bool, minus: bool) -> int {
    (if plus { 1int } else { 0int }) - (if minus { 1int } else { 0int })
}

impl Keys {
    /// Where the keys point. Opposite keys cancel.
    pub open spec fn heading(self) -> Heading {
        Heading { x: axis(self.right, self.left) as i8, y: axis(self.up, self.down) as i8 }
    }
}

impl Heading {
    /// The heading points nowhere.
    pub open spec fn is_still(self) -> bool {
        self.x == 0 && self.y == 0
    }
}

/// The heading of the thrust for this tick, if there is any: the keys must
/// point somewhere and the fuel must be at least zero.
pub open spec fn thrust_of(keys: Keys, fuel: Scalar) -> Option<Heading> {
    if !keys.heading().is_still() && fuel.at_least_zero() {
        Some(keys.heading())
    } else {
        None
    }
}

fn axis_value(plus: bool, minus: bool) -> (v: i8)
    ensures
        v == axis(plus, minus),
        -1 <= v <= 1,
{
    let mut v: i8 = 0;
    if plus {
        v = v + 1;
    }
    if minus {
        v = v - 1;
    }
    v
}

/// Decides whether the player thrusts this tick and in which direction.
///
/// `None` means that the input force is zero and no fuel is burnt. With
/// `Some(heading)` the host burns fuel for the tick and pushes along the
/// normalized heading.
pub fn player_movement_input(keys: Keys, fuel: Scalar) -> (thrust: Option<Heading>)
    ensures
        thrust == thrust_of(keys, fuel),
        thrust matches Some(h) ==> -1 <= h.x <= 1 && -1 <= h.y <= 1 && !h.is_still(),
{
    let y: i8 = axis_value(keys.up, keys.down);
    let x: i8 = axis_value(keys.right, keys.left);
    if x == 0 && y == 0 {
        return None;
    }
    if fuel.is_at_least_zero() {
        Some(Heading { x, y })
    } else {
        None
    }
}

} // verus!
