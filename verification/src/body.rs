//! What the physics engine reports of one rigid body, and what it is told.
use vstd::prelude::*;
use crate::fixed::Vec2;
use crate::fixed::WideVec2;

verus! {

/// The orientation of a body, as the two readings the simulation needs.
#[derive(Clone, Copy, Debug, PartialEq, Eq, Structural)]
pub struct Rotation {
    /// Sine of the angle from upright, in thousandths.
    pub sin: i32,
    /// The angle from upright, in thousandths of a radian.
    pub radians: i32,
}

/// One rigid body.
#[derive(Clone, Copy, Debug, PartialEq, Eq, Structural)]
pub struct Body {
    pub position: Vec2,
    pub rotation: Rotation,
    pub linear_velocity: Vec2,
    /// Thousandths of a radian per second.
    pub angular_velocity: i64,
    /// The force that stays applied until it is replaced or cleared.
    pub force: WideVec2,
    /// Thousandths of a mass unit.
    pub mass: i32,
    /// How strongly gravity pulls on this body, in thousandths.
    pub gravity_scale: i32,
}

impl Rotation {
    /// The orientation of a body that stands upright.
    pub fn upright() -> (r: Rotation)
        ensures
            r == (Rotation { sin: 0, radians: 0 }),
    {
        Rotation { sin: 0, radians: 0 }
    }
}

impl Body {
    /// A body at rest and upright at `position`, on which no force acts.
    pub fn at_rest(position: Vec2, mass: i32, gravity_scale: i32) -> (b: Body)
        ensures
            b == (Body {
                position,
                rotation: Rotation { sin: 0, radians: 0 },
                linear_velocity: Vec2 { x: 0, y: 0 },
                angular_velocity: 0,
                force: WideVec2 { x: 0, y: 0 },
                mass,
                gravity_scale,
            }),
    {
        Body {
            position,
            rotation: Rotation::upright(),
            linear_velocity: Vec2::zero(),
            angular_velocity: 0,
            force: WideVec2::zero(),
            mass,
            gravity_scale,
        }
    }
}

} // verus!
