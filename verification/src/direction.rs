use vstd::prelude::*;

verus! {

/// A direction of movement relative to where the player faces.
#[derive(Copy, Clone, PartialEq, Eq, Debug, Structural)]
#[allow(non_camel_case_types)]
pub enum Direction {
    FORWARD,
    BACKWARD,
    LEFT,
    RIGHT,
}

/// Marks a monster entity.
#[derive(Copy, Clone, Default, PartialEq, Eq, Debug, Structural)]
pub struct Monster;

} // verus!
