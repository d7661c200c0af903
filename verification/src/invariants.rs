//! What holds of the world at every tick.
use vstd::prelude::*;
use crate::camera::has_single_target;
use crate::camera::is_only_target;
use crate::camera::lemma_camera_moved_is_single;
use crate::contacts::collisions_cleared;
use crate::contacts::collisions_initiated;
use crate::hold_breaking::holds_broken;
use crate::picking_up::forces_applied;
use crate::picking_up::pick_up_initiated;
use crate::pipeline::held_objects_handled;
use crate::pipeline::ticked;
use crate::pipeline::TickInput;
use crate::topple_detection::fallen_out;
use crate::topple_detection::finish_detected;
use crate::topple_detection::last_to_fall;
use crate::topple_detection::lemma_first_standing;
use crate::topple_detection::lemma_last_to_fall_in_range;
use crate::topple_detection::pieces_advanced;
use crate::topple_detection::progress;
use crate::topple_detection::topple_step;
use crate::topple_detection::toppleables_updated;
use crate::topple_detection::verdict_of;
use crate::topple_detection::ToppleState;
use crate::topple_detection::Verdict;
use crate::body::Body;
use crate::world::Handle;
use crate::world::ObjectView;

verus! {

/// Whether two tables of objects mark the same objects for the camera.
pub open spec fn same_targets(before: Seq<ObjectView>, after: Seq<ObjectView>) -> bool {
    &&& before.len() == after.len()
    &&& forall|i: int| 0 <= i < before.len() ==> (#[trigger] after[i]).camera_target == before[i].camera_target
}

proof fn lemma_same_targets_keep_single(before: Seq<ObjectView>, after: Seq<ObjectView>)
    requires
        same_targets(before, after),
        has_single_target(before),
    ensures
        has_single_target(after),
{
    let target = choose|target: int| is_only_target(before, target);
    assert forall|i: int| 0 <= i < after.len() implies (#[trigger] after[i].camera_target is Some <==> i
        == target) by {
        assert(after[i].camera_target == before[i].camera_target);
        assert(before[i].camera_target is Some <==> i == target);
    }
    assert(is_only_target(after, target));
}

/// Camera singularity: an object with the camera marker that joins objects
/// without it is the one object that the camera follows.
pub proof fn lemma_first_target_is_single(objects: Seq<ObjectView>, object: ObjectView)
    requires
        forall|i: int| 0 <= i < objects.len() ==> (#[trigger] objects[i]).camera_target is None,
        object.camera_target is Some,
    ensures
        has_single_target(objects.push(object)),
{
    let after = objects.push(object);
    assert forall|i: int| 0 <= i < after.len() implies (#[trigger] after[i].camera_target is Some <==> i
        == objects.len()) by {
        if i < objects.len() {
            assert(objects[i].camera_target is None);
        }
    }
    assert(is_only_target(after, objects.len() as int));
}

/// Camera singularity: an object without the camera marker that joins leaves
/// the camera with the one object that it follows.
pub proof fn lemma_new_object_keeps_single_target(objects: Seq<ObjectView>, object: ObjectView)
    requires
        has_single_target(objects),
        object.camera_target is None,
    ensures
        has_single_target(objects.push(object)),
{
    let after = objects.push(object);
    let target = choose|target: int| is_only_target(objects, target);
    assert forall|i: int| 0 <= i < after.len() implies (#[trigger] after[i].camera_target is Some <==> i
        == target) by {
        if i < objects.len() {
            assert(objects[i].camera_target is Some <==> i == target);
        }
    }
    assert(is_only_target(after, target));
}

/// The topple tracker leaves exactly one object for the camera to follow.
pub proof fn lemma_tracker_keeps_single_target(objects: Seq<ObjectView>, step: nat)
    requires
        has_single_target(objects),
    ensures
        has_single_target(toppleables_updated(objects, step)),
{
    let all = objects.len() as int;
    let advanced = pieces_advanced(objects, step, all);
    lemma_last_to_fall_in_range(objects, all);
    assert(same_targets(objects, advanced));
    lemma_same_targets_keep_single(objects, advanced);
    match last_to_fall(objects, all) {
        Some(target) => {
            lemma_camera_moved_is_single(advanced, target as usize);
        },
        None => {},
    }
}

/// The outcome detector leaves exactly one object for the camera to follow.
pub proof fn lemma_detector_keeps_single_target(objects: Seq<ObjectView>)
    requires
        has_single_target(objects),
    ensures
        has_single_target(finish_detected(objects)),
{
    lemma_first_standing(objects, objects.len() as int);
    match verdict_of(objects) {
        Verdict::Stalled { standing, count } => {
            lemma_camera_moved_is_single(objects, standing);
        },
        _ => {},
    }
}

/// Camera singularity: if exactly one object carries the camera marker before
/// a tick, exactly one does after it.
pub proof fn lemma_tick_keeps_single_target(objects: Seq<ObjectView>, input: TickInput)
    requires
        has_single_target(objects),
    ensures
        has_single_target(ticked(objects, input)),
{
    let steered = forces_applied(objects, input.step as nat, input.gravity);
    assert(same_targets(objects, steered));
    lemma_same_targets_keep_single(objects, steered);
    let snapped = collisions_initiated(steered, input.collisions@);
    assert(same_targets(steered, snapped));
    lemma_same_targets_keep_single(steered, snapped);
    let cleared = collisions_cleared(snapped);
    assert(same_targets(snapped, cleared));
    lemma_same_targets_keep_single(snapped, cleared);
    let handled = holds_broken(cleared, input.collisions@);
    assert(same_targets(cleared, handled));
    lemma_same_targets_keep_single(cleared, handled);
    let updated = toppleables_updated(handled, input.step as nat);
    lemma_tracker_keeps_single_target(handled, input.step as nat);
    let dropped = fallen_out(updated, input.lowest_y);
    assert(same_targets(updated, dropped));
    lemma_same_targets_keep_single(updated, dropped);
    lemma_detector_keeps_single_target(dropped);
}

/// Camera singularity: the pick-or-place input moves no camera marker.
pub proof fn lemma_pick_up_keeps_single_target(objects: Seq<ObjectView>, picker: Handle, hit: Option<Handle>)
    requires
        has_single_target(objects),
    ensures
        has_single_target(pick_up_initiated(objects, picker, hit)),
{
    let after = pick_up_initiated(objects, picker, hit);
    assert(same_targets(objects, after));
    lemma_same_targets_keep_single(objects, after);
}

/// Whether a piece in the state `before` may be in the state `after` one step
/// later: it may stay as it is, go from standing to falling, from falling to
/// stopped, and fall out from anywhere.
pub open spec fn may_follow(before: ToppleState, after: ToppleState) -> bool {
    match (before, after) {
        (_, ToppleState::FellOut) => true,
        (ToppleState::Standing, ToppleState::Standing) => true,
        (ToppleState::Standing, ToppleState::Falling { .. }) => true,
        (ToppleState::Falling { .. }, ToppleState::Falling { .. }) => true,
        (ToppleState::Falling { .. }, ToppleState::Stopped) => true,
        (ToppleState::Stopped, ToppleState::Stopped) => true,
        _ => false,
    }
}

/// Whether the record of a piece on an object may become `after` within a
/// tick: no object gains or loses its record, and the state moves on as it may.
pub open spec fn piece_may_follow(before: Option<ToppleState>, after: Option<ToppleState>) -> bool {
    match (before, after) {
        (None, None) => true,
        (Some(earlier), Some(later)) => may_follow(earlier, later),
        _ => false,
    }
}

/// A piece that moves on as it may never goes back: not in the order
/// standing, falling, stopped, out, and never to standing.
pub proof fn lemma_may_follow_never_goes_back(before: ToppleState, after: ToppleState)
    requires
        may_follow(before, after),
    ensures
        progress(before) <= progress(after),
        after is Standing ==> before is Standing,
{
}

/// Topple monotonicity of one piece: a step of the tracker moves a piece on
/// as it may, and never out of the level.
pub proof fn lemma_topple_step_moves_on(state: ToppleState, body: Body, step: nat)
    ensures
        may_follow(state, topple_step(state, body, step)),
        topple_step(state, body, step) is FellOut ==> state is FellOut,
{
}

/// Topple monotonicity: within a tick every piece moves on as it may.
pub proof fn lemma_tick_moves_pieces_on(objects: Seq<ObjectView>, input: TickInput, i: int)
    requires
        0 <= i < objects.len(),
    ensures
        ticked(objects, input).len() == objects.len(),
        piece_may_follow(objects[i].toppleable, ticked(objects, input)[i].toppleable),
{
    let handled = held_objects_handled(objects, input);
    let steered = forces_applied(objects, input.step as nat, input.gravity);
    let snapped = collisions_initiated(steered, input.collisions@);
    let cleared = collisions_cleared(snapped);
    assert(steered[i].toppleable == objects[i].toppleable);
    assert(snapped[i].toppleable == objects[i].toppleable);
    assert(cleared[i].toppleable == objects[i].toppleable);
    assert(handled[i].toppleable == objects[i].toppleable);
    let all = objects.len() as int;
    lemma_last_to_fall_in_range(handled, all);
    let updated = toppleables_updated(handled, input.step as nat);
    let advanced = pieces_advanced(handled, input.step as nat, all);
    assert(updated[i].toppleable == advanced[i].toppleable);
    assert(piece_may_follow(objects[i].toppleable, updated[i].toppleable));
    let dropped = fallen_out(updated, input.lowest_y);
    assert(piece_may_follow(updated[i].toppleable, dropped[i].toppleable));
    lemma_first_standing(dropped, all);
    assert(ticked(objects, input)[i].toppleable == dropped[i].toppleable);
}

/// Topple monotonicity: the pick-or-place input changes no piece.
pub proof fn lemma_pick_up_changes_no_piece(objects: Seq<ObjectView>, picker: Handle, hit: Option<Handle>, i: int)
    requires
        0 <= i < objects.len(),
    ensures
        pick_up_initiated(objects, picker, hit).len() == objects.len(),
        pick_up_initiated(objects, picker, hit)[i].toppleable == objects[i].toppleable,
{
}

} // verus!
