//! The player: which way they face.
use vstd::prelude::*;
use crate::fixed::Vec2;
use crate::fixed::Vec3;
use crate::fixed::UNIT;

verus! {

/// Marks the object that the player steers.
#[derive(Clone, Copy, Debug, PartialEq, Eq, Structural)]
pub struct IsPlayer;

/// The side the player looks at.
#[derive(Clone, Copy, Debug, PartialEq, Eq, Structural)]
pub enum PlayerFacing {
    Left,
    Right,
}

impl PlayerFacing {
    /// The unit vector the player looks along, in the plane of the level.
    pub open spec fn spec_direction_2d(self) -> Vec2 {
        match self {
            PlayerFacing::Left => Vec2 { x: (-UNIT) as i32, y: 0 },
            PlayerFacing::Right => Vec2 { x: UNIT, y: 0 },
        }
    }

    /// The unit vector the player looks along, in space.
    pub fn direction(&self) -> (d: Vec3)
        ensures
            d.x == self.spec_direction_2d().x,
            d.y == 0,
            d.z == 0,
    {
        match self {
            PlayerFacing::Left => Vec3 { x: -UNIT, y: 0, z: 0 },
            PlayerFacing::Right => Vec3 { x: UNIT, y: 0, z: 0 },
        }
    }

    /// The unit vector the player looks along, in the plane of the level.
    pub fn direction_2d(&self) -> (d: Vec2)
        ensures
            d == self.spec_direction_2d(),
    {
        match self {
            PlayerFacing::Left => Vec2 { x: -UNIT, y: 0 },
            PlayerFacing::Right => Vec2 { x: UNIT, y: 0 },
        }
    }
}

} // verus!
