use vstd::prelude::*;

use crate::types::Point;

verus! {

/// What can go wrong in the physics of a scene.
#[derive(Debug, Clone, Copy, PartialEq, Eq, Structural)]
pub enum PhysicsError {
    /// A box was given a width or height that is not positive (or too large to represent).
    PhysBoxSize,
    /// A position lies outside the range that coordinates can take.
    FieldPosition,
    /// A maximum velocity was negative.
    MaxVelocity,
    /// No cell of the field holds the given point.
    NoFieldCell(Point),
    /// The field holds no cell with the given index.
    FieldIndex(usize),
}

/// The result of a physics operation.
pub type PhysicsResult<T> = Result<T, PhysicsError>;

} // verus!
