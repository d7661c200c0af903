//! What the player's inputs ask of the player's body.
use vstd::prelude::*;
use crate::player::PlayerFacing;

verus! {

/// The running speed at full input, in units per second.
pub const RUN_SPEED: i32 = 20;

/// The input beyond which the player turns, in thousandths.
pub const TURN_INPUT: i32 = 100;

/// How high above the ground the player floats.
pub const FLOAT_HEIGHT: i32 = 1500;

/// How far below its floating height the player still clings to the ground.
pub const CLING_DISTANCE: i32 = 500;

/// How high the player jumps.
pub const JUMP_HEIGHT: i32 = 5000;

/// What one reading of the inputs asks for.
#[derive(Clone, Copy, Debug, PartialEq, Eq, Structural)]
pub struct Controls {
    /// The horizontal velocity to walk at, in thousandths of a unit per second.
    pub desired_velocity: i64,
    pub facing: PlayerFacing,
    pub jump: bool,
}

/// The side the player faces after a running input of `run` thousandths:
/// the side run to, once the input is at least a tenth; else as before.
pub open spec fn facing_after(facing: PlayerFacing, run: int) -> PlayerFacing {
    if run <= -TURN_INPUT {
        PlayerFacing::Left
    } else if TURN_INPUT <= run {
        PlayerFacing::Right
    } else {
        facing
    }
}

/// What a running input of `run` thousandths of full tilt asks for, with or
/// without the jump input, of a player that faces `facing`.
pub fn apply_controls(facing: PlayerFacing, run: i32, jump: bool) -> (controls: Controls)
    ensures
        controls.desired_velocity == RUN_SPEED * run,
        controls.facing == facing_after(facing, run as int),
        controls.jump == jump,
{
    let turned: PlayerFacing = if run <= -TURN_INPUT {
        PlayerFacing::Left
    } else if TURN_INPUT <= run {
        PlayerFacing::Right
    } else {
        facing
    };
    Controls { desired_velocity: (RUN_SPEED as i64) * (run as i64), facing: turned, jump }
}

} // verus!
