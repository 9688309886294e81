//! The simulation core of a tile-like 2D game engine: boxes and passability masks,
//! a field of cells joined by passability edges, entity movement clipped against
//! that field, and a per-tick pipeline of movement, overlap resolution and effects.
//!
//! Lengths are counted in thousandths of a unit ([`types::UNIT`] per unit) and times
//! in milliseconds; a velocity is in thousandths of a unit per second, and health in
//! thousandths of a point.
use vstd::prelude::*;

pub mod effect;
pub mod entity;
pub mod error;
pub mod field;
pub mod physbox;
pub mod registry;
pub mod scene;
pub mod types;

pub use effect::{
    Attack,
    BasicAttack, Cooldown, Effect, EffectSource, EffectTarget, FollowBox, PendingEffect, Target,
    TargetFirstPlayer, TryAction,
};
pub use entity::Entity;
pub use error::{PhysicsError, PhysicsResult};
pub use field::{Cell, CellNeighbors, Field, FieldEdge};
pub use physbox::PhysBox;
pub use registry::EntityRegistry;
pub use scene::Scene;
pub use types::{
    Axis, BoxEdge, HasSolidity, Health, Point, Size, Solidity, Velocity, ENTER_BOTTOM, ENTER_LEFT,
    ENTER_RIGHT, ENTER_TOP, EXIT_BOTTOM, EXIT_LEFT, EXIT_RIGHT, EXIT_TOP, NO_SOLIDITY, SOLID, UNIT,
};

verus! {

} // verus!
