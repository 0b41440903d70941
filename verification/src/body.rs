//! The record that stands for one body during a tick.

use crate::scalar::Scalar;
use crate::vector::Vector3;
use vstd::prelude::*;

verus! {

/// A point mass as the solver sees it for one tick.
///
/// `external_force_idx` says which force accumulator the body's gravity
/// contribution goes to. It is a position in the tick's snapshot and means
/// nothing once the tick is over.
#[derive(Clone, Copy, Debug, PartialEq, Eq, Structural)]
pub struct Body {
    pub position: Vector3,
    pub mu: Scalar,
    pub external_force_idx: usize,
}

impl Body {
    pub fn new(position: Vector3, mu: Scalar, external_force_idx: usize) -> (body: Body)
        ensures
            body == (Body { position, mu, external_force_idx }),
    {
        Body { position, mu, external_force_idx }
    }
}

} // verus!
