//! The motion controller of a held object: where it should be, how fast it
//! should get there, and the force that makes it so within one step.
use vstd::prelude::*;
use crate::body::Body;
use crate::fixed::div_toward_zero;
use crate::fixed::divide_toward_zero;
use crate::fixed::dot;
use crate::fixed::clamp_length_max;
use crate::fixed::isqrt;
use crate::fixed::length_squared;
use crate::fixed::lemma_div_toward_zero_bound;
use crate::fixed::magnitude;
use crate::fixed::plane_add;
use crate::fixed::plane_sub;
use crate::fixed::with_length;
use crate::fixed::Plane;
use crate::fixed::Vec2;
use crate::fixed::WideVec2;
use crate::fixed::NANOS_PER_SECOND;
use crate::fixed::UNIT;
use crate::picking_up::HeldStatus;

verus! {

/// How far above the picker a carried object is held.
pub const CARRY_HEIGHT: i32 = 3000;

/// The speed of a lift, of a descent and the cap on every approach.
pub const LIFT_SPEED: i32 = 10_000;

/// The vertical gap above which a lift goes straight up, and the distance
/// along the placing direction below which a placement goes straight down.
pub const NEAR: i32 = 500;

/// The square of the distance at which a target counts as reached.
pub const REACHED_SQUARED: i32 = 100_000;

/// How far below the picker's height an object is put down.
pub const PLACE_DEPTH: i32 = 1000;

/// Gravity, gravity scale and mass are each counted in thousandths, and so is
/// the force that is their product: this is what the product is divided by.
pub const THOUSAND_SQUARED: i32 = 1_000_000;

/// Where a held object should be, for each phase of the hold.
pub open spec fn hold_target(status: HeldStatus, picker_position: Vec2, hold_at_offset: Vec2) -> Plane {
    match status {
        HeldStatus::Placed(direction) => (
            picker_position.x + div_toward_zero(3 * direction.x, 2) - hold_at_offset.x,
            picker_position.y + div_toward_zero(3 * direction.y, 2) - hold_at_offset.y - PLACE_DEPTH,
        ),
        _ => (
            picker_position.x - hold_at_offset.x,
            picker_position.y + CARRY_HEIGHT - hold_at_offset.y,
        ),
    }
}

/// The way from a position to a target.
pub open spec fn way_to(target: Plane, position: Vec2) -> Plane {
    plane_sub(target, position.plane())
}

/// Whether the sideways gap is more than twice what one step at full speed covers.
pub open spec fn far_sideways(way: Plane, step: int) -> bool {
    2 * LIFT_SPEED * step < magnitude(way.0) * NANOS_PER_SECOND
}

/// The approach at the capped speed: at exactly that speed while the target is
/// far sideways, at no more than that speed once it is near.
pub open spec fn capped_approach(way: Plane, step: int) -> Plane {
    if far_sideways(way, step) {
        with_length(way, LIFT_SPEED as int)
    } else {
        clamp_length_max(way, LIFT_SPEED as int)
    }
}

/// The velocity that the held object should have after this step.
pub open spec fn desired_velocity(status: HeldStatus, way: Plane, picker_velocity: Vec2, step: int) -> Plane {
    match status {
        HeldStatus::Lifted => if NEAR < way.1 {
            (0, LIFT_SPEED as int)
        } else {
            capped_approach(way, step)
        },
        HeldStatus::Carried => (
            div_toward_zero(way.0 * NANOS_PER_SECOND, 2 * step) + picker_velocity.x,
            div_toward_zero(way.1 * NANOS_PER_SECOND, 2 * step) + picker_velocity.y,
        ),
        HeldStatus::Placed(direction) => if dot(way, direction.plane()) < NEAR * UNIT {
            (0, -LIFT_SPEED)
        } else {
            capped_approach(way, step)
        },
    }
}

/// The force that turns the current velocity into the desired one within one step.
pub open spec fn matching_force(desired: Plane, current: Vec2, step: int) -> Plane {
    (
        div_toward_zero((desired.0 - current.x) * NANOS_PER_SECOND, step),
        div_toward_zero((desired.1 - current.y) * NANOS_PER_SECOND, step),
    )
}

/// The force that cancels gravity on a body.
pub open spec fn anti_gravity(gravity: Vec2, gravity_scale: int, mass: int) -> Plane {
    (
        div_toward_zero(-(gravity.x * gravity_scale * mass), THOUSAND_SQUARED as int),
        div_toward_zero(-(gravity.y * gravity_scale * mass), THOUSAND_SQUARED as int),
    )
}

/// The angular velocity that brings a body upright within one step.
pub open spec fn snap_back(radians: int, step: int) -> int {
    div_toward_zero(-radians * NANOS_PER_SECOND, step)
}

/// Whether the target is reached.
pub open spec fn reached(way: Plane) -> bool {
    length_squared(way) < REACHED_SQUARED
}

/// The whole force on a held object: gravity cancelled, velocity matched.
pub open spec fn hold_force(
    status: HeldStatus,
    hold_at_offset: Vec2,
    held: Body,
    picker_position: Vec2,
    picker_velocity: Vec2,
    step: int,
    gravity: Vec2,
) -> Plane {
    let way = way_to(hold_target(status, picker_position, hold_at_offset), held.position);
    plane_add(
        anti_gravity(gravity, held.gravity_scale as int, held.mass as int),
        matching_force(desired_velocity(status, way, picker_velocity, step), held.linear_velocity, step),
    )
}

/// What one step of the controller commands for one held object.
#[derive(Clone, Copy, Debug, PartialEq, Eq, Structural)]
pub struct HoldCommand {
    pub desired_velocity: WideVec2,
    pub force: WideVec2,
    pub angular_velocity: i64,
    pub reached: bool,
}

proof fn lemma_product_bound(a: int, b: int, bound_a: int, bound_b: int)
    requires
        magnitude(a) <= bound_a,
        magnitude(b) <= bound_b,
    ensures
        magnitude(a * b) <= bound_a * bound_b,
        -(bound_a * bound_b) <= a * b <= bound_a * bound_b,
{
    assert(-(bound_a * bound_b) <= a * b <= bound_a * bound_b) by (nonlinear_arith)
        requires
            -bound_a <= a <= bound_a,
            -bound_b <= b <= bound_b,
    ;
}

/// The product of two values that are small enough for it.
fn times(a: i128, b: i128) -> (p: i128)
    requires
        magnitude(a as int) <= 0x1_0000_0000_0000_0000_0000,
        magnitude(b as int) <= 0x100_0000_0000,
    ensures
        p == a * b,
{
    proof {
        lemma_product_bound(a as int, b as int, 0x1_0000_0000_0000_0000_0000, 0x100_0000_0000);
    }
    a * b
}


/// The bound that every way from a measured position to a hold target keeps.
pub open spec fn way_in_range(way: Plane) -> bool {
    magnitude(way.0) <= 0x4_0000_0000 && magnitude(way.1) <= 0x4_0000_0000
}

fn to_unsigned(a: i128) -> (u: u128)
    requires
        a >= 0,
    ensures
        u == a,
{
    a as u128
}

fn to_signed(a: u64) -> (i: i128)
    ensures
        i == a,
{
    a as i128
}

fn absolute(a: i128) -> (m: i128)
    requires
        a > i128::MIN,
    ensures
        m == magnitude(a as int),
{
    if a >= 0 {
        a
    } else {
        -a
    }
}

fn squared_length(way: WideVec2) -> (l: i128)
    requires
        way_in_range(way.plane()),
    ensures
        l == length_squared(way.plane()),
        0 <= l <= 0x20_0000_0000_0000_0000,
{
    proof {
        lemma_product_bound(way.x as int, way.x as int, 0x4_0000_0000, 0x4_0000_0000);
        lemma_product_bound(way.y as int, way.y as int, 0x4_0000_0000, 0x4_0000_0000);
        assert(way.x * way.x >= 0) by (nonlinear_arith);
        assert(way.y * way.y >= 0) by (nonlinear_arith);
    }
    times(way.x, way.x) + times(way.y, way.y)
}

fn scaled_to_length(way: WideVec2, len: i128) -> (r: WideVec2)
    requires
        way_in_range(way.plane()),
        0 <= len <= 0x10_0000,
    ensures
        r.plane() == with_length(way.plane(), len as int),
        magnitude(r.x as int) <= 0x40_0000_0000_0000,
        magnitude(r.y as int) <= 0x40_0000_0000_0000,
{
    proof {
        lemma_product_bound(way.x as int, len as int, 0x4_0000_0000, 0x10_0000);
        lemma_product_bound(way.y as int, len as int, 0x4_0000_0000, 0x10_0000);
    }
    let norm: i128 = to_signed(isqrt(to_unsigned(squared_length(way))));
    if norm == 0 {
        WideVec2::zero()
    } else {
        WideVec2 {
            x: divide_toward_zero(times(way.x, len), norm),
            y: divide_toward_zero(times(way.y, len), norm),
        }
    }
}

fn approach(way: WideVec2, step: u64) -> (r: WideVec2)
    requires
        way_in_range(way.plane()),
    ensures
        r.plane() == capped_approach(way.plane(), step as int),
        magnitude(r.x as int) <= 0x40_0000_0000_0000,
        magnitude(r.y as int) <= 0x40_0000_0000_0000,
{
    let covered: i128 = times(to_signed(step), 2 * (LIFT_SPEED as i128));
    let gap: i128 = times(absolute(way.x), NANOS_PER_SECOND as i128);
    if covered < gap {
        scaled_to_length(way, LIFT_SPEED as i128)
    } else if squared_length(way) > times(LIFT_SPEED as i128, LIFT_SPEED as i128) {
        scaled_to_length(way, LIFT_SPEED as i128)
    } else {
        way
    }
}

/// The way from `held_position` to the target of the hold.
fn way_to_target(status: HeldStatus, picker_position: Vec2, hold_at_offset: Vec2, held_position: Vec2) -> (way: WideVec2)
    ensures
        way.plane() == way_to(hold_target(status, picker_position, hold_at_offset), held_position),
        way_in_range(way.plane()),
{
    let px: i128 = picker_position.x as i128;
    let py: i128 = picker_position.y as i128;
    let ox: i128 = hold_at_offset.x as i128;
    let oy: i128 = hold_at_offset.y as i128;
    let hx: i128 = held_position.x as i128;
    let hy: i128 = held_position.y as i128;
    match status {
        HeldStatus::Placed(direction) => {
            let reach_x: i128 = divide_toward_zero(3 * (direction.x as i128), 2);
            let reach_y: i128 = divide_toward_zero(3 * (direction.y as i128), 2);
            WideVec2 { x: px + reach_x - ox - hx, y: py + reach_y - oy - (PLACE_DEPTH as i128) - hy }
        },
        _ => WideVec2 { x: px - ox - hx, y: py + (CARRY_HEIGHT as i128) - oy - hy },
    }
}

fn velocity_for(status: HeldStatus, way: WideVec2, picker_velocity: Vec2, step: u64) -> (v: WideVec2)
    requires
        way_in_range(way.plane()),
        step > 0,
    ensures
        v.plane() == desired_velocity(status, way.plane(), picker_velocity, step as int),
        magnitude(v.x as int) <= 0x8_0000_0000_0000_0000,
        magnitude(v.y as int) <= 0x8_0000_0000_0000_0000,
{
    match status {
        HeldStatus::Lifted => {
            if (NEAR as i128) < way.y {
                WideVec2 { x: 0, y: LIFT_SPEED as i128 }
            } else {
                approach(way, step)
            }
        },
        HeldStatus::Carried => {
            let twice: i128 = 2 * to_signed(step);
            let vx: i128 = divide_toward_zero(times(way.x, NANOS_PER_SECOND as i128), twice);
            let vy: i128 = divide_toward_zero(times(way.y, NANOS_PER_SECOND as i128), twice);
            WideVec2 { x: vx + (picker_velocity.x as i128), y: vy + (picker_velocity.y as i128) }
        },
        HeldStatus::Placed(direction) => {
            proof {
                lemma_product_bound(way.x as int, direction.x as int, 0x4_0000_0000, 0x1_0000_0000);
                lemma_product_bound(way.y as int, direction.y as int, 0x4_0000_0000, 0x1_0000_0000);
            }
            let along: i128 = times(way.x, direction.x as i128) + times(way.y, direction.y as i128);
            if along < times(NEAR as i128, UNIT as i128) {
                WideVec2 { x: 0, y: -(LIFT_SPEED as i128) }
            } else {
                approach(way, step)
            }
        },
    }
}

/// One step of the controller for one held object.
///
/// The force cancels gravity on the object and adds what brings its velocity
/// to the desired one within the step; the angular velocity brings it upright
/// within the step; `reached` tells whether the object is at its target.
pub fn hold_command(
    status: HeldStatus,
    hold_at_offset: Vec2,
    held: &Body,
    picker_position: Vec2,
    picker_velocity: Vec2,
    step: u64,
    gravity: Vec2,
) -> (command: HoldCommand)
    requires
        step > 0,
    ensures
        command.desired_velocity.plane() == desired_velocity(
            status,
            way_to(hold_target(status, picker_position, hold_at_offset), held.position),
            picker_velocity,
            step as int,
        ),
        command.force.plane() == hold_force(
            status,
            hold_at_offset,
            *held,
            picker_position,
            picker_velocity,
            step as int,
            gravity,
        ),
        command.angular_velocity == snap_back(held.rotation.radians as int, step as int),
        command.reached == reached(
            way_to(hold_target(status, picker_position, hold_at_offset), held.position),
        ),
{
    let way: WideVec2 = way_to_target(status, picker_position, hold_at_offset, held.position);
    let desired: WideVec2 = velocity_for(status, way, picker_velocity, step);
    let lift: WideVec2 = gravity_cancelling_force(gravity, held.gravity_scale, held.mass);
    let step_wide: i128 = to_signed(step);
    let second: i128 = NANOS_PER_SECOND as i128;
    let boost_x: i128 = divide_toward_zero(times(desired.x - (held.linear_velocity.x as i128), second), step_wide);
    let boost_y: i128 = divide_toward_zero(times(desired.y - (held.linear_velocity.y as i128), second), step_wide);
    proof {
        lemma_product_bound(desired.x - held.linear_velocity.x, 1_000_000_000, 0x10_0000_0000_0000_0000, 1_000_000_000);
        lemma_product_bound(desired.y - held.linear_velocity.y, 1_000_000_000, 0x10_0000_0000_0000_0000, 1_000_000_000);
        lemma_product_bound(held.rotation.radians as int, 1_000_000_000, 0x8000_0000, 1_000_000_000);
    }
    let turn: i128 = divide_toward_zero(times(-(held.rotation.radians as i128), second), step_wide);
    HoldCommand {
        desired_velocity: desired,
        force: WideVec2 { x: lift.x + boost_x, y: lift.y + boost_y },
        angular_velocity: turn as i64,
        reached: squared_length(way) < (REACHED_SQUARED as i128),
    }
}

/// The force that cancels gravity on a body of the given mass and gravity scale.
pub fn gravity_cancelling_force(gravity: Vec2, gravity_scale: i32, mass: i32) -> (force: WideVec2)
    ensures
        force.plane() == anti_gravity(gravity, gravity_scale as int, mass as int),
        magnitude(force.x as int) <= 0x2000_0000_0000_0000_0000_0000,
        magnitude(force.y as int) <= 0x2000_0000_0000_0000_0000_0000,
{
    proof {
        lemma_product_bound(gravity.x as int, gravity_scale as int, 0x8000_0000, 0x8000_0000);
        lemma_product_bound(gravity.y as int, gravity_scale as int, 0x8000_0000, 0x8000_0000);
        lemma_product_bound(gravity.x * gravity_scale, mass as int, 0x4000_0000_0000_0000, 0x8000_0000);
        lemma_product_bound(gravity.y * gravity_scale, mass as int, 0x4000_0000_0000_0000, 0x8000_0000);
        lemma_div_toward_zero_bound(-(gravity.x * gravity_scale * mass), THOUSAND_SQUARED as int);
        lemma_div_toward_zero_bound(-(gravity.y * gravity_scale * mass), THOUSAND_SQUARED as int);
    }
    let pull_x: i128 = times(times(gravity.x as i128, gravity_scale as i128), mass as i128);
    let pull_y: i128 = times(times(gravity.y as i128, gravity_scale as i128), mass as i128);
    WideVec2 {
        x: divide_toward_zero(-pull_x, THOUSAND_SQUARED as i128),
        y: divide_toward_zero(-pull_y, THOUSAND_SQUARED as i128),
    }
}

} // verus!
