//! One tick of the simulation: the pickup controller, then the topple
//! tracker, then the outcome detector.
use vstd::prelude::*;
use crate::camera::has_single_target;
use crate::contacts::collisions_cleared;
use crate::contacts::collisions_initiated;
use crate::contacts::InitialCollisions;
use crate::fixed::Vec2;
use crate::hold_breaking::holds_broken;
use crate::hold_invariants::holds_consistent;
use crate::hold_invariants::lemma_tick_keeps_holds_consistent;
use crate::invariants::lemma_tick_keeps_single_target;
use crate::picking_up::forces_applied;
use crate::topple_detection::fallen_out;
use crate::topple_detection::finish_detected;
use crate::topple_detection::reason_after_finish;
use crate::topple_detection::state_after_finish;
use crate::topple_detection::toppleables_updated;
use crate::world::Handle;
use crate::world::ObjectView;
use crate::world::World;

verus! {

/// What one tick takes in from outside the simulation.
#[derive(Debug)]
pub struct TickInput {
    /// The duration of the step, in nanoseconds.
    pub step: u64,
    pub gravity: Vec2,
    /// The pairs of objects that touch in this step.
    pub collisions: Vec<(Handle, Handle)>,
    /// The height of the lowest solid ground, if any ground is loaded.
    pub lowest_y: Option<i64>,
}

/// The objects after the pickup controller has run.
pub open spec fn held_objects_handled(objects: Seq<ObjectView>, input: TickInput) -> Seq<ObjectView> {
    holds_broken(
        collisions_cleared(
            collisions_initiated(forces_applied(objects, input.step as nat, input.gravity), input.collisions@),
        ),
        input.collisions@,
    )
}

/// The objects after the pickup controller and the topple tracker have run.
pub open spec fn pieces_tracked(objects: Seq<ObjectView>, input: TickInput) -> Seq<ObjectView> {
    fallen_out(toppleables_updated(held_objects_handled(objects, input), input.step as nat), input.lowest_y)
}

/// The objects after one tick.
pub open spec fn ticked(objects: Seq<ObjectView>, input: TickInput) -> Seq<ObjectView> {
    finish_detected(pieces_tracked(objects, input))
}

impl World {
    /// One tick: the pickup controller steers what is held and breaks the
    /// holds that collide, the topple tracker advances every piece, and the
    /// outcome detector judges what the tracker left.
    ///
    /// If pickers and held objects agree before the tick, they agree after
    /// it; if the camera follows exactly one object before, it does after.
    pub fn tick(&mut self, input: &TickInput)
        requires
            old(self).wf(),
        ensures
            final(self).wf(),
            final(self)@ == ticked(old(self)@, *input),
            final(self).game_over_reason == reason_after_finish(
                pieces_tracked(old(self)@, *input),
                old(self).game_over_reason,
            ),
            final(self).next_state == state_after_finish(pieces_tracked(old(self)@, *input), old(self).next_state),
            holds_consistent(old(self)@) ==> holds_consistent(final(self)@),
            has_single_target(old(self)@) ==> has_single_target(final(self)@),
    {
        proof {
            if holds_consistent(self@) {
                lemma_tick_keeps_holds_consistent(self@, *input);
            }
            if has_single_target(self@) {
                lemma_tick_keeps_single_target(self@, *input);
            }
        }
        self.apply_forces_to_held_objects(input.step, input.gravity);
        InitialCollisions::initiate(self, &input.collisions);
        InitialCollisions::clear(self);
        self.break_hold_when_pickable_collides_with_something(&input.collisions);
        self.update_toppleable(input.step);
        self.detect_toppleables_who_fell_out(input.lowest_y);
        self.detect_finish();
    }
}

} // verus!
