//! What holds of pickers and of what they hold, at every tick.
use vstd::prelude::*;
use crate::contacts::collisions_cleared;
use crate::contacts::collisions_initiated;
use crate::fixed::Vec2;
use crate::hold_breaking::hold_breaks;
use crate::hold_breaking::holds_broken;
use crate::hold_breaking::loses_hold;
use crate::hold_breaking::picker_after_break;
use crate::picking_up::can_be_picked;
use crate::picking_up::can_trigger;
use crate::picking_up::forces_applied;
use crate::picking_up::holder;
use crate::picking_up::holds_in_earnest;
use crate::picking_up::is_picker;
use crate::picking_up::lands;
use crate::picking_up::pick_up_initiated;
use crate::picking_up::picker_after;
use crate::picking_up::steered_by;
use crate::picking_up::HeldBy;
use crate::picking_up::Picker;
use crate::pipeline::ticked;
use crate::pipeline::TickInput;
use crate::topple_detection::fallen_out;
use crate::topple_detection::finish_detected;
use crate::topple_detection::lemma_first_standing;
use crate::topple_detection::lemma_last_to_fall_in_range;
use crate::topple_detection::toppleables_updated;
use crate::world::Handle;
use crate::world::ObjectView;
use crate::world::World;

verus! {

/// Whether no object is both a picker and something to pick.
pub open spec fn roles_apart(objects: Seq<ObjectView>) -> bool {
    forall|i: int| 0 <= i < objects.len() ==> !((#[trigger] objects[i]).picker is Some && objects[i].pickable is Some)
}

/// Whether every object carries both records of a hold or neither.
pub open spec fn holds_paired(objects: Seq<ObjectView>) -> bool {
    forall|i: int| 0 <= i < objects.len() ==> ((#[trigger] objects[i]).held_by is Some <==> objects[i].held_status is Some)
}

/// Whether the object `i`, if it is in a hold, can be grasped and is held by a
/// picker that says so.
pub open spec fn held_by_its_picker(objects: Seq<ObjectView>, i: int) -> bool {
    objects[i].held_by is Some ==> {
        &&& objects[i].pickable is Some
        &&& is_picker(objects, holder(objects[i]))
        &&& objects[holder(objects[i]) as int].picker->0.holding == Some(i as Handle)
    }
}

/// Whether the picker `p`, if it says that it holds an object, is named by
/// that object as its holder.
pub open spec fn holds_what_it_says(objects: Seq<ObjectView>, p: int) -> bool {
    objects[p].picker matches Some(Picker { holding: Some(held), .. }) ==> held < objects.len()
        && objects[held as int].held_by == Some(HeldBy(p as Handle))
}

/// Whether pickers and held objects agree on who holds what.
pub open spec fn holds_consistent(objects: Seq<ObjectView>) -> bool {
    &&& objects.len() <= usize::MAX
    &&& roles_apart(objects)
    &&& holds_paired(objects)
    &&& forall|i: int| 0 <= i < objects.len() ==> #[trigger] held_by_its_picker(objects, i)
    &&& forall|p: int| 0 <= p < objects.len() ==> #[trigger] holds_what_it_says(objects, p)
}

/// Whether two tables of objects agree on every record of picking and holding.
pub open spec fn same_holds(before: Seq<ObjectView>, after: Seq<ObjectView>) -> bool {
    &&& before.len() == after.len()
    &&& forall|i: int|
        0 <= i < before.len() ==> {
            &&& (#[trigger] after[i]).picker == before[i].picker
            &&& after[i].pickable == before[i].pickable
            &&& after[i].held_by == before[i].held_by
            &&& after[i].held_status == before[i].held_status
        }
}

proof fn lemma_same_holds_stay_consistent(before: Seq<ObjectView>, after: Seq<ObjectView>)
    requires
        same_holds(before, after),
        holds_consistent(before),
    ensures
        holds_consistent(after),
{
    assert forall|i: int| 0 <= i < after.len() implies #[trigger] held_by_its_picker(after, i) by {
        assert(held_by_its_picker(before, i));
        assert(after[i].held_by == before[i].held_by);
        if after[i].held_by is Some {
            let p = holder(before[i]) as int;
            assert(after[p].picker == before[p].picker);
        }
    }
    assert forall|p: int| 0 <= p < after.len() implies #[trigger] holds_what_it_says(after, p) by {
        assert(holds_what_it_says(before, p));
        assert(after[p].picker == before[p].picker);
        if let Some(Picker { holding: Some(held), .. }) = after[p].picker {
            assert(after[held as int].held_by == before[held as int].held_by);
        }
    }
    assert forall|i: int| 0 <= i < after.len() implies !((#[trigger] after[i]).picker is Some && after[i].pickable is Some) by {
        assert(after[i].picker == before[i].picker);
        assert(!(before[i].picker is Some && before[i].pickable is Some));
    }
    assert forall|i: int| 0 <= i < after.len() implies ((#[trigger] after[i]).held_by is Some <==> after[i].held_status is Some) by {
        assert(after[i].held_by == before[i].held_by);
        assert(before[i].held_by is Some <==> before[i].held_status is Some);
    }
}

/// Whether an object takes no part in any hold: it is in none, and if it can
/// grasp, it holds nothing.
pub open spec fn holds_nothing(object: ObjectView) -> bool {
    &&& object.held_by is None
    &&& object.held_status is None
    &&& object.picker matches Some(picker) ==> picker.holding is None
    &&& !(object.picker is Some && object.pickable is Some)
}

/// In a world without objects pickers and held objects agree.
pub proof fn lemma_empty_world_is_consistent()
    ensures
        holds_consistent(Seq::<ObjectView>::empty()),
{
}

/// Where pickers and held objects agree, they still do when an object joins
/// that takes no part in any hold.
pub proof fn lemma_new_object_keeps_holds_consistent(objects: Seq<ObjectView>, object: ObjectView)
    requires
        holds_consistent(objects),
        holds_nothing(object),
        objects.len() < usize::MAX,
    ensures
        holds_consistent(objects.push(object)),
{
    let after = objects.push(object);
    assert forall|i: int| 0 <= i < after.len() implies #[trigger] held_by_its_picker(after, i) by {
        if i < objects.len() {
            assert(held_by_its_picker(objects, i));
        }
    }
    assert forall|p: int| 0 <= p < after.len() implies #[trigger] holds_what_it_says(after, p) by {
        if p < objects.len() {
            assert(holds_what_it_says(objects, p));
        }
    }
    assert forall|i: int| 0 <= i < after.len() implies !((#[trigger] after[i]).picker is Some
        && after[i].pickable is Some) by {
        if i < objects.len() {
            assert(!(objects[i].picker is Some && objects[i].pickable is Some));
        }
    }
    assert forall|i: int| 0 <= i < after.len() implies ((#[trigger] after[i]).held_by is Some
        <==> after[i].held_status is Some) by {
        if i < objects.len() {
            assert(objects[i].held_by is Some <==> objects[i].held_status is Some);
        }
    }
}

/// Hold exclusivity: where pickers and held objects agree, no two pickers
/// hold the same object.
pub proof fn lemma_consistent_holds_are_exclusive(objects: Seq<ObjectView>, p: Handle, q: Handle, held: Handle)
    requires
        holds_consistent(objects),
        p < objects.len(),
        q < objects.len(),
        objects[p as int].picker matches Some(first) && first.holding == Some(held),
        objects[q as int].picker matches Some(second) && second.holding == Some(held),
    ensures
        p == q,
{
    assert(holds_what_it_says(objects, p as int));
    assert(holds_what_it_says(objects, q as int));
}

/// A valid world keeps pickers apart from what can be picked.
pub proof fn lemma_valid_world_keeps_roles_apart(world: World)
    requires
        world.wf(),
    ensures
        roles_apart(world@),
        world@.len() <= usize::MAX,
{
    assert forall|i: int| 0 <= i < world@.len() implies !((#[trigger] world@[i]).picker is Some
        && world@[i].pickable is Some) by {
        assert(world.objects@[i].wf());
    }
}


/// Hold exclusivity and release atomicity: where pickers and held objects
/// agree before the pick-or-place input, they agree after it.
pub proof fn lemma_pick_up_keeps_holds_consistent(objects: Seq<ObjectView>, picker: Handle, hit: Option<Handle>)
    requires
        holds_consistent(objects),
    ensures
        holds_consistent(pick_up_initiated(objects, picker, hit)),
{
    let after = pick_up_initiated(objects, picker, hit);
    if can_trigger(objects, picker) {
        let record = objects[picker as int].picker->0;
        assert(holds_what_it_says(objects, picker as int));
        if record.holding is Some {
            let held = record.holding->0;
            assert(held_by_its_picker(objects, held as int));
            assert(objects[held as int].held_by is Some <==> objects[held as int].held_status is Some);
            assert(holds_in_earnest(objects, picker));
        }
        assert forall|i: int| 0 <= i < after.len() implies #[trigger] held_by_its_picker(after, i) by {
            assert(held_by_its_picker(objects, i));
            assert(objects[i].held_by is Some <==> objects[i].held_status is Some);
            if objects[i].held_by is Some {
                let p = holder(objects[i]) as int;
                assert(holds_what_it_says(objects, p));
            }
        }
        assert forall|p: int| 0 <= p < after.len() implies #[trigger] holds_what_it_says(after, p) by {
            assert(holds_what_it_says(objects, p));
            if let Some(Picker { holding: Some(held), .. }) = objects[p].picker {
                assert(held_by_its_picker(objects, held as int));
                assert(objects[held as int].held_by is Some <==> objects[held as int].held_status is Some);
            }
        }
        assert forall|i: int| 0 <= i < after.len() implies !((#[trigger] after[i]).picker is Some && after[i].pickable is Some) by {
            assert(!(objects[i].picker is Some && objects[i].pickable is Some));
        }
        assert forall|i: int| 0 <= i < after.len() implies ((#[trigger] after[i]).held_by is Some <==> after[i].held_status is Some) by {
            assert(objects[i].held_by is Some <==> objects[i].held_status is Some);
        }
    }
}


/// Where pickers and held objects agree, only what a picker holds can be
/// steered by it.
proof fn lemma_steers_only_what_it_holds(objects: Seq<ObjectView>, i: int, p: Handle)
    requires
        holds_consistent(objects),
        steered_by(objects, i, p),
    ensures
        objects[p as int].picker->0.holding == Some(i as Handle),
        objects[i].held_by == Some(HeldBy(p)),
{
    assert(held_by_its_picker(objects, i));
}

/// Hold exclusivity and release atomicity: where pickers and held objects
/// agree before a step of the controller, they agree after it.
pub proof fn lemma_forces_keep_holds_consistent(objects: Seq<ObjectView>, step: nat, gravity: Vec2)
    requires
        holds_consistent(objects),
    ensures
        holds_consistent(forces_applied(objects, step, gravity)),
{
    let after = forces_applied(objects, step, gravity);
    let all = objects.len() as int;
    if step > 0 {
        assert forall|i: int| 0 <= i < all implies #[trigger] held_by_its_picker(after, i) by {
            assert(held_by_its_picker(objects, i));
            assert(objects[i].held_by is Some <==> objects[i].held_status is Some);
            if after[i].held_by is Some {
                let p = holder(objects[i]);
                assert(steered_by(objects, i, p));
                assert(!lands(objects, i, p));
                assert forall|k: int| 0 <= k < all implies !#[trigger] lands(objects, k, p) by {
                    if lands(objects, k, p) {
                        lemma_steers_only_what_it_holds(objects, k, p);
                        assert(k == i);
                    }
                }
                assert(after[p as int].picker == picker_after(objects, p as int, all));
            }
        }
        assert forall|p: int| 0 <= p < all implies #[trigger] holds_what_it_says(after, p) by {
            assert(holds_what_it_says(objects, p));
            assert(after[p].picker == picker_after(objects, p, all));
            if let Some(Picker { holding: Some(held), .. }) = after[p].picker {
                assert(objects[p].picker->0.holding == Some(held));
                assert(held_by_its_picker(objects, held as int));
                assert(objects[held as int].held_by is Some <==> objects[held as int].held_status is Some);
                assert(steered_by(objects, held as int, p as Handle));
                if lands(objects, held as int, p as Handle) {
                    assert(false);
                }
            }
        }
        assert forall|i: int| 0 <= i < all implies !((#[trigger] after[i]).picker is Some && after[i].pickable is Some) by {
            assert(!(objects[i].picker is Some && objects[i].pickable is Some));
        }
        assert forall|i: int| 0 <= i < all implies ((#[trigger] after[i]).held_by is Some <==> after[i].held_status is Some) by {
            assert(objects[i].held_by is Some <==> objects[i].held_status is Some);
        }
    }
}

/// Hold exclusivity and release atomicity: where pickers and held objects
/// agree before the contacts are checked, they agree after it.
pub proof fn lemma_breaks_keep_holds_consistent(objects: Seq<ObjectView>, pairs: Seq<(Handle, Handle)>)
    requires
        holds_consistent(objects),
    ensures
        holds_consistent(holds_broken(objects, pairs)),
{
    let after = holds_broken(objects, pairs);
    let all = objects.len() as int;
    assert forall|i: int| 0 <= i < all implies #[trigger] held_by_its_picker(after, i) by {
        assert(held_by_its_picker(objects, i));
        if after[i].held_by is Some {
            let p = holder(objects[i]);
            assert(after[p as int].picker == picker_after_break(objects, pairs, p as int, all));
            assert(!hold_breaks(objects, pairs, i));
        }
    }
    assert forall|p: int| 0 <= p < all implies #[trigger] holds_what_it_says(after, p) by {
        assert(holds_what_it_says(objects, p));
        assert(after[p].picker == picker_after_break(objects, pairs, p, all));
        if let Some(Picker { holding: Some(held), .. }) = after[p].picker {
            assert(objects[p].picker->0.holding == Some(held));
            assert(!loses_hold(objects, pairs, p, all));
        }
    }
    assert forall|i: int| 0 <= i < all implies !((#[trigger] after[i]).picker is Some && after[i].pickable is Some) by {
        assert(!(objects[i].picker is Some && objects[i].pickable is Some));
    }
    assert forall|i: int| 0 <= i < all implies ((#[trigger] after[i]).held_by is Some <==> after[i].held_status is Some) by {
        assert(objects[i].held_by is Some <==> objects[i].held_status is Some);
    }
}

/// Hold exclusivity and release atomicity: where pickers and held objects
/// agree before a tick, they agree after it.
pub proof fn lemma_tick_keeps_holds_consistent(objects: Seq<ObjectView>, input: TickInput)
    requires
        holds_consistent(objects),
    ensures
        holds_consistent(ticked(objects, input)),
{
    let steered = forces_applied(objects, input.step as nat, input.gravity);
    lemma_forces_keep_holds_consistent(objects, input.step as nat, input.gravity);
    let snapped = collisions_initiated(steered, input.collisions@);
    assert(same_holds(steered, snapped));
    lemma_same_holds_stay_consistent(steered, snapped);
    let cleared = collisions_cleared(snapped);
    assert(same_holds(snapped, cleared));
    lemma_same_holds_stay_consistent(snapped, cleared);
    let handled = holds_broken(cleared, input.collisions@);
    lemma_breaks_keep_holds_consistent(cleared, input.collisions@);
    let all = objects.len() as int;
    let updated = toppleables_updated(handled, input.step as nat);
    lemma_last_to_fall_in_range(handled, all);
    assert(same_holds(handled, updated));
    lemma_same_holds_stay_consistent(handled, updated);
    let dropped = fallen_out(updated, input.lowest_y);
    assert(same_holds(updated, dropped));
    lemma_same_holds_stay_consistent(updated, dropped);
    lemma_first_standing(dropped, all);
    let judged = finish_detected(dropped);
    assert(same_holds(dropped, judged));
    lemma_same_holds_stay_consistent(dropped, judged);
}


/// Release atomicity: the pick-or-place input leaves every object with both
/// records of a hold or with neither.
pub proof fn lemma_pick_up_keeps_holds_paired(objects: Seq<ObjectView>, picker: Handle, hit: Option<Handle>)
    requires
        holds_paired(objects),
    ensures
        holds_paired(pick_up_initiated(objects, picker, hit)),
{
    let after = pick_up_initiated(objects, picker, hit);
    assert forall|i: int| 0 <= i < after.len() implies ((#[trigger] after[i]).held_by is Some <==> after[i].held_status is Some) by {
        assert(objects[i].held_by is Some <==> objects[i].held_status is Some);
    }
}

/// Release atomicity: a tick leaves every object with both records of a hold
/// or with neither, whether or not pickers and held objects agree.
pub proof fn lemma_tick_keeps_holds_paired(objects: Seq<ObjectView>, input: TickInput)
    requires
        holds_paired(objects),
    ensures
        holds_paired(ticked(objects, input)),
{
    let all = objects.len() as int;
    let steered = forces_applied(objects, input.step as nat, input.gravity);
    assert forall|i: int| 0 <= i < all implies ((#[trigger] steered[i]).held_by is Some <==> steered[i].held_status is Some) by {
        assert(objects[i].held_by is Some <==> objects[i].held_status is Some);
    }
    let snapped = collisions_initiated(steered, input.collisions@);
    let cleared = collisions_cleared(snapped);
    let handled = holds_broken(cleared, input.collisions@);
    assert forall|i: int| 0 <= i < all implies ((#[trigger] handled[i]).held_by is Some <==> handled[i].held_status is Some) by {
        assert(steered[i].held_by is Some <==> steered[i].held_status is Some);
        assert(snapped[i].held_by == steered[i].held_by && snapped[i].held_status == steered[i].held_status);
        assert(cleared[i].held_by == steered[i].held_by && cleared[i].held_status == steered[i].held_status);
    }
    let updated = toppleables_updated(handled, input.step as nat);
    lemma_last_to_fall_in_range(handled, all);
    let dropped = fallen_out(updated, input.lowest_y);
    lemma_first_standing(dropped, all);
    let judged = finish_detected(dropped);
    assert forall|i: int| 0 <= i < all implies ((#[trigger] judged[i]).held_by is Some <==> judged[i].held_status is Some) by {
        assert(handled[i].held_by is Some <==> handled[i].held_status is Some);
        assert(updated[i].held_by == handled[i].held_by && updated[i].held_status == handled[i].held_status);
        assert(dropped[i].held_by == handled[i].held_by && dropped[i].held_status == handled[i].held_status);
    }
}

/// Release atomicity: where the controller ends the hold of an object, the
/// object loses both records of the hold and its picker holds nothing and is
/// free to move.
pub proof fn lemma_controller_releases_whole(objects: Seq<ObjectView>, step: nat, gravity: Vec2, i: int)
    requires
        holds_consistent(objects),
        0 <= i < objects.len(),
        objects[i].held_by is Some,
        forces_applied(objects, step, gravity)[i].held_by is None,
    ensures
        forces_applied(objects, step, gravity)[i].held_status is None,
        forces_applied(objects, step, gravity)[holder(objects[i]) as int].picker == Some(Picker::empty()),
{
    let p = holder(objects[i]);
    assert(held_by_its_picker(objects, i));
    assert(objects[i].held_by is Some <==> objects[i].held_status is Some);
    assert(step > 0);
    assert(lands(objects, i, p));
    let after = forces_applied(objects, step, gravity);
    assert(after[p as int].picker == picker_after(objects, p as int, objects.len() as int));
    assert(0 <= i < objects.len() && lands(objects, i, (p as int) as Handle));
}

/// Release atomicity: where a collision breaks the hold of an object, the
/// object loses both records of the hold and its picker holds nothing and is
/// free to move.
pub proof fn lemma_break_releases_whole(objects: Seq<ObjectView>, pairs: Seq<(Handle, Handle)>, i: int)
    requires
        holds_consistent(objects),
        0 <= i < objects.len(),
        objects[i].held_by is Some,
        holds_broken(objects, pairs)[i].held_by is None,
    ensures
        holds_broken(objects, pairs)[i].held_status is None,
        holds_broken(objects, pairs)[holder(objects[i]) as int].picker == Some(Picker::empty()),
{
    let p = holder(objects[i]);
    assert(held_by_its_picker(objects, i));
    assert(hold_breaks(objects, pairs, i));
    assert(loses_hold(objects, pairs, p as int, objects.len() as int));
}

/// Release atomicity: where a tick ends the hold of an object, by placing it
/// or by a collision, the object has lost both records of the hold after the
/// tick, and its picker holds nothing and is free to move.
pub proof fn lemma_tick_releases_whole(objects: Seq<ObjectView>, input: TickInput, i: int)
    requires
        holds_consistent(objects),
        0 <= i < objects.len(),
        objects[i].held_by is Some,
        ticked(objects, input)[i].held_by is None,
    ensures
        ticked(objects, input)[i].held_status is None,
        ticked(objects, input)[holder(objects[i]) as int].picker == Some(Picker::empty()),
{
    let p = holder(objects[i]) as int;
    let all = objects.len() as int;
    assert(held_by_its_picker(objects, i));
    let steered = forces_applied(objects, input.step as nat, input.gravity);
    lemma_forces_keep_holds_consistent(objects, input.step as nat, input.gravity);
    let snapped = collisions_initiated(steered, input.collisions@);
    assert(same_holds(steered, snapped));
    lemma_same_holds_stay_consistent(steered, snapped);
    let cleared = collisions_cleared(snapped);
    assert(same_holds(snapped, cleared));
    lemma_same_holds_stay_consistent(snapped, cleared);
    let handled = holds_broken(cleared, input.collisions@);
    lemma_last_to_fall_in_range(handled, all);
    let updated = toppleables_updated(handled, input.step as nat);
    assert(same_holds(handled, updated));
    let dropped = fallen_out(updated, input.lowest_y);
    assert(same_holds(updated, dropped));
    lemma_first_standing(dropped, all);
    let judged = finish_detected(dropped);
    assert(same_holds(dropped, judged));
    assert(judged[i].held_by == handled[i].held_by);
    assert(judged[i].held_status == handled[i].held_status);
    assert(judged[p].picker == handled[p].picker);
    assert(cleared[i].held_by == steered[i].held_by);
    assert(cleared[p].picker == steered[p].picker);
    assert(handled[p].picker == picker_after_break(cleared, input.collisions@, p, all));
    if steered[i].held_by is None {
        lemma_controller_releases_whole(objects, input.step as nat, input.gravity, i);
        assert(cleared[i].held_status is None);
        assert(!loses_hold(cleared, input.collisions@, p, all));
    } else {
        assert(holder(cleared[i]) == holder(objects[i]));
        lemma_break_releases_whole(cleared, input.collisions@, i);
    }
}

/// Release atomicity: where a picker says it holds an object that it does not
/// hold, the pick-or-place input makes it forget that object: afterwards it
/// holds what its probe found and it could pick, or nothing.
pub proof fn lemma_pick_up_heals_desync(objects: Seq<ObjectView>, picker: Handle, hit: Option<Handle>)
    requires
        can_trigger(objects, picker),
        objects[picker as int].picker->0.holding is Some,
        !holds_in_earnest(objects, picker),
        roles_apart(objects),
    ensures
        pick_up_initiated(objects, picker, hit)[picker as int].picker == Some(
            if hit is Some && can_be_picked(objects, hit->0) {
                Picker { holding: hit, immobilized: true }
            } else {
                Picker::empty()
            },
        ),
{
}

/// Hold exclusivity: of two pickers that reach for the same free object one
/// after the other, the first holds it afterwards and the second holds nothing.
pub proof fn lemma_first_picker_wins(objects: Seq<ObjectView>, first: Handle, second: Handle, wanted: Handle)
    requires
        holds_consistent(objects),
        first != second,
        can_trigger(objects, first),
        can_trigger(objects, second),
        objects[first as int].picker->0.holding is None,
        objects[second as int].picker->0.holding is None,
        can_be_picked(objects, wanted),
    ensures
        ({
            let after = pick_up_initiated(pick_up_initiated(objects, first, Some(wanted)), second, Some(wanted));
            &&& after[first as int].picker->0.holding == Some(wanted)
            &&& after[second as int].picker->0.holding is None
            &&& after[wanted as int].held_by == Some(HeldBy(first))
        }),
{
    let between = pick_up_initiated(objects, first, Some(wanted));
    assert(!(objects[wanted as int].picker is Some && objects[wanted as int].pickable is Some));
    assert(can_trigger(between, second));
    assert(!can_be_picked(between, wanted));
    assert(!holds_in_earnest(between, second));
}

} // verus!
