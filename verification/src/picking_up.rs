//! Grasping, carrying and putting down: the records that tie a picker to the
//! object it holds.
use vstd::prelude::*;
use crate::body::Body;
use crate::fixed::Plane;
use crate::fixed::Vec2;
use crate::fixed::WideVec2;
use crate::hold_forces::anti_gravity;
use crate::hold_forces::gravity_cancelling_force;
use crate::hold_forces::hold_command;
use crate::hold_forces::hold_force;
use crate::hold_forces::hold_target;
use crate::hold_forces::reached;
use crate::hold_forces::snap_back;
use crate::hold_forces::way_to;
use crate::hold_forces::HoldCommand;
use crate::hold_invariants::holds_consistent;
use crate::hold_invariants::lemma_pick_up_keeps_holds_consistent;
use crate::player::PlayerFacing;
use crate::world::Handle;
use crate::world::ObjectView;
use crate::world::World;

verus! {

/// An object that can be grasped.
#[derive(Clone, Copy, Debug, PartialEq, Eq, Structural)]
pub struct Pickable {
    /// Where it is grasped, relative to its own anchor.
    pub hold_at_offset: Vec2,
}

/// The capability to grasp.
#[derive(Clone, Copy, Debug, PartialEq, Eq, Structural)]
pub struct Picker {
    pub holding: Option<Handle>,
    /// Set while the picker must stand still: during a lift and a placement.
    pub immobilized: bool,
}

/// On a held object: who holds it.
#[derive(Clone, Copy, Debug, PartialEq, Eq, Structural)]
pub struct HeldBy(pub Handle);

/// On a held object: the phase of the hold.
#[derive(Clone, Copy, Debug, PartialEq, Eq, Structural)]
pub enum HeldStatus {
    /// Being raised to carrying height.
    Lifted,
    /// Following the picker.
    Carried,
    /// Being put down beside the picker, on the side the direction names.
    Placed(Vec2),
}

impl Picker {
    /// A picker that holds nothing and is free to move.
    pub open spec fn empty() -> Picker {
        Picker { holding: None, immobilized: false }
    }

    /// Lets go of everything.
    pub fn clear(&mut self)
        ensures
            *final(self) == Picker::empty(),
    {
        *self = Picker { holding: None, immobilized: false };
    }
}

impl Default for Picker {
    fn default() -> (p: Picker)
        ensures
            p == Picker::empty(),
    {
        Picker { holding: None, immobilized: false }
    }
}


/// Whether an object is in a hold that the controller steers: it can be
/// grasped, and carries both records of a hold.
pub open spec fn is_held(object: ObjectView) -> bool {
    object.pickable is Some && object.held_by is Some && object.held_status is Some
}

/// The handle that a held object names as its holder.
pub open spec fn holder(object: ObjectView) -> Handle {
    match object.held_by {
        Some(HeldBy(handle)) => handle,
        None => 0,
    }
}

/// Whether `handle` names an object that can grasp.
pub open spec fn is_picker(objects: Seq<ObjectView>, handle: Handle) -> bool {
    handle < objects.len() && objects[handle as int].picker is Some
}

/// The way from the held object `i` to where its holder wants it.
pub open spec fn way_of(objects: Seq<ObjectView>, i: int) -> Plane {
    way_to(
        hold_target(
            objects[i].held_status->0,
            objects[holder(objects[i]) as int].body.position,
            objects[i].pickable->0.hold_at_offset,
        ),
        objects[i].body.position,
    )
}

/// The computed quantity that a pair of integers stands for.
pub open spec fn wide(plane: Plane) -> WideVec2 {
    WideVec2 { x: plane.0 as i128, y: plane.1 as i128 }
}

/// An object without the records of a hold, and with the given body.
pub open spec fn let_go(object: ObjectView, body: Body) -> ObjectView {
    ObjectView { body, held_by: None, held_status: None, ..object }
}

/// The body of the held object `i` after the controller has set its force and
/// its angular velocity.
pub open spec fn steered(objects: Seq<ObjectView>, i: int, step: nat, gravity: Vec2) -> Body {
    let object = objects[i];
    let picker_body = objects[holder(object) as int].body;
    Body {
        force: wide(
            hold_force(
                object.held_status->0,
                object.pickable->0.hold_at_offset,
                object.body,
                picker_body.position,
                picker_body.linear_velocity,
                step as int,
                gravity,
            ),
        ),
        angular_velocity: snap_back(object.body.rotation.radians as int, step as int) as i64,
        ..object.body
    }
}

/// Object `i` after one step of the controller, but for its record as a picker.
///
/// An object that is not held stays as it is. A held object whose holder is no
/// picker is let go, with gravity cancelled on it. Any other held object is
/// steered; a lifted one that has reached its target is carried from now on,
/// and one that is being put down and has reached its target is let go, at
/// rest and with no force on it.
pub open spec fn held_after(objects: Seq<ObjectView>, i: int, step: nat, gravity: Vec2) -> ObjectView {
    let object = objects[i];
    if !is_held(object) {
        object
    } else if !is_picker(objects, holder(object)) {
        let_go(
            object,
            Body {
                force: wide(anti_gravity(gravity, object.body.gravity_scale as int, object.body.mass as int)),
                ..object.body
            },
        )
    } else {
        let body = steered(objects, i, step, gravity);
        match object.held_status->0 {
            HeldStatus::Lifted => ObjectView {
                body,
                held_status: Some(
                    if reached(way_of(objects, i)) {
                        HeldStatus::Carried
                    } else {
                        HeldStatus::Lifted
                    },
                ),
                ..object
            },
            HeldStatus::Carried => ObjectView { body, ..object },
            HeldStatus::Placed(_) => if reached(way_of(objects, i)) {
                let_go(
                    object,
                    Body { linear_velocity: Vec2 { x: 0, y: 0 }, force: WideVec2 { x: 0, y: 0 }, ..body },
                )
            } else {
                ObjectView { body, ..object }
            },
        }
    }
}

/// Whether the held object `i` is steered by the picker `picker`.
pub open spec fn steered_by(objects: Seq<ObjectView>, i: int, picker: Handle) -> bool {
    0 <= i < objects.len() && is_held(objects[i]) && holder(objects[i]) == picker && is_picker(objects, picker)
}

/// Whether `picker` finishes putting down the object `i` in this step.
pub open spec fn lands(objects: Seq<ObjectView>, i: int, picker: Handle) -> bool {
    steered_by(objects, i, picker) && objects[i].held_status->0 is Placed && reached(way_of(objects, i))
}

/// Whether `picker` finishes lifting the object `i` in this step.
pub open spec fn arrives(objects: Seq<ObjectView>, i: int, picker: Handle) -> bool {
    steered_by(objects, i, picker) && objects[i].held_status->0 is Lifted && reached(way_of(objects, i))
}

/// The picker record of object `p` after the controller has steered the held
/// objects below `upto`: empty if one of them was put down by it, free to move
/// if one of them finished its lift, else as before.
pub open spec fn picker_after(objects: Seq<ObjectView>, p: int, upto: int) -> Option<Picker> {
    match objects[p].picker {
        None => None,
        Some(picker) => if exists|i: int| 0 <= i < upto && #[trigger] lands(objects, i, p as Handle) {
            Some(Picker::empty())
        } else if exists|i: int| 0 <= i < upto && #[trigger] arrives(objects, i, p as Handle) {
            Some(Picker { immobilized: false, ..picker })
        } else {
            Some(picker)
        },
    }
}

/// The objects after one step of the controller; a step of no duration changes
/// nothing.
pub open spec fn forces_applied(objects: Seq<ObjectView>, step: nat, gravity: Vec2) -> Seq<ObjectView> {
    if step == 0 {
        objects
    } else {
        Seq::new(
            objects.len(),
            |i: int|
                ObjectView {
                    picker: picker_after(objects, i, objects.len() as int),
                    ..held_after(objects, i, step, gravity)
                },
        )
    }
}

/// An object but for its record as a picker.
pub open spec fn sans_picker(object: ObjectView) -> ObjectView {
    ObjectView { picker: None, ..object }
}

impl World {
    /// One step of the controller of `step` nanoseconds under the given
    /// gravity: every held object is steered toward where its holder wants it.
    pub fn apply_forces_to_held_objects(&mut self, step: u64, gravity: Vec2)
        requires
            old(self).wf(),
        ensures
            final(self).wf(),
            final(self)@ == forces_applied(old(self)@, step as nat, gravity),
            final(self).game_over_reason == old(self).game_over_reason,
            final(self).next_state == old(self).next_state,
    {
        if step == 0 {
            return ;
        }
        let count: usize = self.objects.len();
        let mut i: usize = 0;
        while i < count
            invariant
                0 <= i <= count,
                step > 0,
                count == self.objects.len(),
                count == old(self).objects.len(),
                self.wf(),
                old(self).wf(),
                self.game_over_reason == old(self).game_over_reason,
                self.next_state == old(self).next_state,
                forall|j: int| 0 <= j < count ==> (#[trigger] self.objects[j])@.picker == picker_after(old(self)@, j, i as int),
                forall|j: int|
                    0 <= j < i ==> sans_picker((#[trigger] self.objects[j])@) == sans_picker(
                        held_after(old(self)@, j, step as nat, gravity),
                    ),
                forall|j: int|
                    i <= j < count ==> sans_picker((#[trigger] self.objects[j])@) == sans_picker(old(self)@[j]),
            decreases count - i,
        {
            let ghost before = self@;
            let ghost start = old(self)@;
            let pickable: Option<Pickable> = self.objects[i].pickable;
            let held_by: Option<HeldBy> = self.objects[i].held_by;
            let held_status: Option<HeldStatus> = self.objects[i].held_status;
            assert(sans_picker(self.objects[i as int]@) == sans_picker(start[i as int]));
            match (pickable, held_by, held_status) {
                (Some(pickable), Some(HeldBy(picker_handle)), Some(status)) => {
                    let held_body: Body = self.objects[i].body;
                    if picker_handle < count && self.objects[picker_handle].picker.is_some() {
                        assert(self.objects[picker_handle as int].wf());
                        assert(start[picker_handle as int].pickable is None) by {
                            if picker_handle < i {
                                assert(sans_picker(self.objects[picker_handle as int]@) == sans_picker(
                                    held_after(start, picker_handle as int, step as nat, gravity),
                                ));
                            } else {
                                assert(sans_picker(self.objects[picker_handle as int]@) == sans_picker(
                                    start[picker_handle as int],
                                ));
                            }
                        }
                        assert(sans_picker(self.objects[picker_handle as int]@) == sans_picker(
                            start[picker_handle as int],
                        ));
                        let picker_body: Body = self.objects[picker_handle].body;
                        let command: HoldCommand = hold_command(
                            status,
                            pickable.hold_at_offset,
                            &held_body,
                            picker_body.position,
                            picker_body.linear_velocity,
                            step,
                            gravity,
                        );
                        self.objects[i].body.force = command.force;
                        self.objects[i].body.angular_velocity = command.angular_velocity;
                        match status {
                            HeldStatus::Lifted => {
                                if command.reached {
                                    self.objects[i].held_status = Some(HeldStatus::Carried);
                                    match self.objects[picker_handle].picker {
                                        Some(picker) => {
                                            self.objects[picker_handle].picker = Some(
                                                Picker { holding: picker.holding, immobilized: false },
                                            );
                                        },
                                        None => {},
                                    }
                                }
                            },
                            HeldStatus::Carried => {},
                            HeldStatus::Placed(_) => {
                                if command.reached {
                                    self.objects[i].held_by = None;
                                    self.objects[i].held_status = None;
                                    self.objects[i].body.linear_velocity = Vec2::zero();
                                    self.objects[i].body.force = WideVec2::zero();
                                    self.objects[picker_handle].picker = Some(Picker::default());
                                }
                            },
                        }
                    } else {
                        self.objects[i].body.force = gravity_cancelling_force(
                            gravity,
                            held_body.gravity_scale,
                            held_body.mass,
                        );
                        self.objects[i].held_by = None;
                        self.objects[i].held_status = None;
                    }
                },
                _ => {},
            }
            proof {
                assert(sans_picker(self.objects[i as int]@) == sans_picker(
                    held_after(start, i as int, step as nat, gravity),
                ));
                assert forall|j: int| 0 <= j < count implies (#[trigger] self.objects[j])@.picker == picker_after(
                    start,
                    j,
                    i + 1,
                ) by {
                    lemma_picker_after_next(start, j, i as int);
                }
            }
            i += 1;
        }
        assert(self@ =~= forces_applied(old(self)@, step as nat, gravity));
    }
}

/// What steering one more held object does to a picker record.
pub proof fn lemma_picker_after_next(objects: Seq<ObjectView>, p: int, upto: int)
    requires
        0 <= p < objects.len(),
        0 <= upto < objects.len(),
    ensures
        picker_after(objects, p, upto + 1) == (match picker_after(objects, p, upto) {
            None => None,
            Some(picker) => if lands(objects, upto, p as Handle) {
                Some(Picker::empty())
            } else if arrives(objects, upto, p as Handle) {
                Some(Picker { immobilized: false, ..picker })
            } else {
                Some(picker)
            },
        }),
{
    let handle = p as Handle;
    if exists|i: int| 0 <= i < upto && #[trigger] lands(objects, i, handle) {
        let i = choose|i: int| 0 <= i < upto && #[trigger] lands(objects, i, handle);
        assert(0 <= i < upto + 1 && lands(objects, i, handle));
    }
    if exists|i: int| 0 <= i < upto && #[trigger] arrives(objects, i, handle) {
        let i = choose|i: int| 0 <= i < upto && #[trigger] arrives(objects, i, handle);
        assert(0 <= i < upto + 1 && arrives(objects, i, handle));
    }
    if lands(objects, upto, handle) {
        assert(0 <= upto < upto + 1 && lands(objects, upto, handle));
    }
    if arrives(objects, upto, handle) {
        assert(0 <= upto < upto + 1 && arrives(objects, upto, handle));
    }
}


/// The width of the probe that looks for something to grasp.
pub const PROBE_WIDTH: i32 = 0;

/// The height of the probe.
pub const PROBE_HEIGHT: i32 = 500;

/// How far the probe is swept.
pub const PROBE_REACH: i32 = 2000;

/// The probe that looks for something to grasp: a thin upright rectangle
/// swept from the picker along the way it faces.
#[derive(Clone, Copy, Debug, PartialEq, Eq, Structural)]
pub struct ShapeCast {
    pub width: i32,
    pub height: i32,
    pub origin: Vec2,
    pub direction: Vec2,
    pub max_distance: i32,
}

/// Whether `picker` can answer the pick-or-place input: it can grasp, faces
/// some way, and is what the camera follows.
pub open spec fn can_trigger(objects: Seq<ObjectView>, picker: Handle) -> bool {
    &&& picker < objects.len()
    &&& objects[picker as int].picker is Some
    &&& objects[picker as int].facing is Some
    &&& objects[picker as int].camera_target is Some
}

/// Whether what `picker` says it holds is an object that can be grasped and
/// that names `picker` as its holder.
pub open spec fn holds_in_earnest(objects: Seq<ObjectView>, picker: Handle) -> bool {
    match objects[picker as int].picker {
        Some(Picker { holding: Some(held), .. }) => {
            &&& held < objects.len()
            &&& objects[held as int].pickable is Some
            &&& objects[held as int].held_by == Some(HeldBy(picker))
            &&& objects[held as int].held_status is Some
        },
        _ => false,
    }
}

/// Whether `handle` names an object that can be grasped and is in no hold.
pub open spec fn can_be_picked(objects: Seq<ObjectView>, handle: Handle) -> bool {
    &&& handle < objects.len()
    &&& objects[handle as int].pickable is Some
    &&& objects[handle as int].held_status is None
}

/// The probe that `picker` sends out on the pick-or-place input, if it sends
/// one: it does unless it cannot answer the input or puts down what it holds.
pub open spec fn probe_of(objects: Seq<ObjectView>, picker: Handle) -> Option<ShapeCast> {
    if can_trigger(objects, picker) && !holds_in_earnest(objects, picker) {
        Some(
            ShapeCast {
                width: PROBE_WIDTH,
                height: PROBE_HEIGHT,
                origin: objects[picker as int].body.position,
                direction: objects[picker as int].facing->0.spec_direction_2d(),
                max_distance: PROBE_REACH,
            },
        )
    } else {
        None
    }
}

/// The objects after `picker` has answered the pick-or-place input, `hit`
/// being what its probe found.
///
/// A picker that holds an object begins to put it down on the side it faces,
/// and stands still. A picker that holds nothing, or whose hold has come
/// apart, grasps what the probe found, if that can be picked, and stands
/// still; a hold that has come apart is forgotten either way.
pub open spec fn pick_up_initiated(objects: Seq<ObjectView>, picker: Handle, hit: Option<Handle>) -> Seq<
    ObjectView,
> {
    if !can_trigger(objects, picker) {
        objects
    } else {
        let me = objects[picker as int];
        let record = me.picker->0;
        if holds_in_earnest(objects, picker) {
            let held = record.holding->0;
            objects.update(
                held as int,
                ObjectView {
                    held_status: Some(HeldStatus::Placed(me.facing->0.spec_direction_2d())),
                    ..objects[held as int]
                },
            ).update(picker as int, ObjectView { picker: Some(Picker { immobilized: true, ..record }), ..me })
        } else if hit is Some && can_be_picked(objects, hit->0) {
            let found = hit->0;
            objects.update(
                found as int,
                ObjectView {
                    held_by: Some(HeldBy(picker)),
                    held_status: Some(HeldStatus::Lifted),
                    ..objects[found as int]
                },
            ).update(
                picker as int,
                ObjectView { picker: Some(Picker { holding: Some(found), immobilized: true }), ..me },
            )
        } else if record.holding is Some {
            objects.update(picker as int, ObjectView { picker: Some(Picker::empty()), ..me })
        } else {
            objects
        }
    }
}

impl World {
    /// Whether the probe of a picker may stop at `handle`: at an object that
    /// can be grasped and is in no hold.
    pub fn can_pick(&self, handle: Handle) -> (free: bool)
        ensures
            free == can_be_picked(self@, handle),
    {
        handle < self.objects.len() && self.objects[handle].pickable.is_some()
            && self.objects[handle].held_status.is_none()
    }

    /// Whether what `picker` says it holds is held by it.
    fn holds(&self, picker: Handle) -> (earnest: bool)
        requires
            picker < self@.len(),
        ensures
            earnest == holds_in_earnest(self@, picker),
    {
        match self.objects[picker].picker {
            Some(Picker { holding: Some(held), .. }) => {
                held < self.objects.len() && self.objects[held].pickable.is_some()
                    && self.objects[held].held_status.is_some() && match self.objects[held].held_by {
                    Some(HeldBy(holder)) => holder == picker,
                    None => false,
                }
            },
            _ => false,
        }
    }

    /// Whether `picker` can answer the pick-or-place input.
    fn triggers(&self, picker: Handle) -> (able: bool)
        ensures
            able == can_trigger(self@, picker),
    {
        picker < self.objects.len() && self.objects[picker].picker.is_some()
            && self.objects[picker].facing.is_some() && self.objects[picker].camera_target.is_some()
    }

    /// The probe that `picker` sends out on the pick-or-place input, if it
    /// sends one.
    pub fn pick_up_probe(&self, picker: Handle) -> (probe: Option<ShapeCast>)
        ensures
            probe == probe_of(self@, picker),
    {
        if !self.triggers(picker) || self.holds(picker) {
            return None;
        }
        match self.objects[picker].facing {
            Some(facing) => Some(
                ShapeCast {
                    width: PROBE_WIDTH,
                    height: PROBE_HEIGHT,
                    origin: self.objects[picker].body.position,
                    direction: facing.direction_2d(),
                    max_distance: PROBE_REACH,
                },
            ),
            None => None,
        }
    }

    /// The answer of `picker` to the pick-or-place input, `hit` being what
    /// its probe found. If pickers and held objects agree before, they agree
    /// after.
    pub fn initiate_pick_up(&mut self, picker: Handle, hit: Option<Handle>)
        requires
            old(self).wf(),
        ensures
            final(self).wf(),
            final(self)@ == pick_up_initiated(old(self)@, picker, hit),
            final(self).game_over_reason == old(self).game_over_reason,
            final(self).next_state == old(self).next_state,
            holds_consistent(old(self)@) ==> holds_consistent(final(self)@),
    {
        proof {
            if holds_consistent(self@) {
                lemma_pick_up_keeps_holds_consistent(self@, picker, hit);
            }
        }
        if !self.triggers(picker) {
            return ;
        }
        assert(self.objects[picker as int].wf());
        let (record, facing): (Picker, PlayerFacing) = match (self.objects[picker].picker, self.objects[picker].facing) {
            (Some(record), Some(facing)) => (record, facing),
            _ => {
                return ;
            },
        };
        if self.holds(picker) {
            match record.holding {
                Some(held) => {
                    self.objects[held].held_status = Some(HeldStatus::Placed(facing.direction_2d()));
                    self.objects[picker].picker = Some(Picker { holding: record.holding, immobilized: true });
                },
                None => {},
            }
            assert(self@ =~= pick_up_initiated(old(self)@, picker, hit));
            return ;
        }
        match hit {
            Some(found) => {
                if self.can_pick(found) {
                    assert(self.objects[found as int].wf());
                    self.objects[found].held_by = Some(HeldBy(picker));
                    self.objects[found].held_status = Some(HeldStatus::Lifted);
                    self.objects[picker].picker = Some(Picker { holding: Some(found), immobilized: true });
                    assert(self@ =~= pick_up_initiated(old(self)@, picker, hit));
                    return ;
                }
            },
            None => {},
        }
        if record.holding.is_some() {
            self.objects[picker].picker = Some(Picker::default());
        }
        assert(self@ =~= pick_up_initiated(old(self)@, picker, hit));
    }
}

} // verus!
