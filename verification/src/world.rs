//! The table of objects that the simulation works on, and the state of the
//! session that goes with it.
use vstd::prelude::*;
use crate::body::Body;
use crate::camera::CameraTarget;
use crate::contacts::InitialCollisions;
use crate::game::AppState;
use crate::game::GameOverReason;
use crate::hold_invariants::holds_consistent;
use crate::hold_invariants::holds_nothing;
use crate::hold_invariants::lemma_new_object_keeps_holds_consistent;
use crate::picking_up::HeldBy;
use crate::picking_up::HeldStatus;
use crate::picking_up::Pickable;
use crate::picking_up::Picker;
use crate::player::IsPlayer;
use crate::player::PlayerFacing;
use crate::topple_detection::ToppleState;
use crate::topple_detection::Toppleable;

verus! {

/// Names one object of the world: its row in the table.
pub type Handle = usize;

/// One object: its body, and the records that say what part it plays.
#[derive(Debug)]
pub struct Object {
    pub body: Body,
    pub player: Option<IsPlayer>,
    pub facing: Option<PlayerFacing>,
    pub picker: Option<Picker>,
    pub pickable: Option<Pickable>,
    pub held_by: Option<HeldBy>,
    pub held_status: Option<HeldStatus>,
    pub initial_collisions: Option<InitialCollisions>,
    pub toppleable: Option<Toppleable>,
    pub camera_target: Option<CameraTarget>,
}

/// What an object is, as plain values.
pub struct ObjectView {
    pub body: Body,
    pub player: Option<IsPlayer>,
    pub facing: Option<PlayerFacing>,
    pub picker: Option<Picker>,
    pub pickable: Option<Pickable>,
    pub held_by: Option<HeldBy>,
    pub held_status: Option<HeldStatus>,
    pub initial_collisions: Option<Map<Handle, bool>>,
    pub toppleable: Option<ToppleState>,
    pub camera_target: Option<CameraTarget>,
}

impl View for Object {
    type V = ObjectView;

    open spec fn view(&self) -> ObjectView {
        ObjectView {
            body: self.body,
            player: self.player,
            facing: self.facing,
            picker: self.picker,
            pickable: self.pickable,
            held_by: self.held_by,
            held_status: self.held_status,
            initial_collisions: match self.initial_collisions {
                Some(snapshot) => Some(snapshot@),
                None => None,
            },
            toppleable: match self.toppleable {
                Some(state) => Some(state@),
                None => None,
            },
            camera_target: self.camera_target,
        }
    }
}

impl Object {
    /// A valid object: its countdown, if it has one, runs as the tracker
    /// started it, and it is not both a picker and something to pick.
    pub open spec fn wf(&self) -> bool {
        &&& match self.toppleable {
            Some(state) => state.wf(),
            None => true,
        }
        &&& !(self.picker is Some && self.pickable is Some)
    }

    /// Scenery: a body that plays no part.
    pub fn scenery(body: Body) -> (object: Object)
        ensures
            object.wf(),
            object@ == (ObjectView {
                body,
                player: None,
                facing: None,
                picker: None,
                pickable: None,
                held_by: None,
                held_status: None,
                initial_collisions: None,
                toppleable: None,
                camera_target: None,
            }),
    {
        Object {
            body,
            player: None,
            facing: None,
            picker: None,
            pickable: None,
            held_by: None,
            held_status: None,
            initial_collisions: None,
            toppleable: None,
            camera_target: None,
        }
    }

    /// The player: faces right, can grasp, holds nothing, and is followed by
    /// the camera.
    pub fn player(body: Body) -> (object: Object)
        ensures
            object.wf(),
            object@ == (ObjectView {
                body,
                player: Some(IsPlayer),
                facing: Some(PlayerFacing::Right),
                picker: Some(Picker::empty()),
                pickable: None,
                held_by: None,
                held_status: None,
                initial_collisions: None,
                toppleable: None,
                camera_target: Some(CameraTarget),
            }),
    {
        Object {
            body,
            player: Some(IsPlayer),
            facing: Some(PlayerFacing::Right),
            picker: Some(Picker::default()),
            pickable: None,
            held_by: None,
            held_status: None,
            initial_collisions: None,
            toppleable: None,
            camera_target: Some(CameraTarget),
        }
    }

    /// A piece that stands and can topple; with `pickable`, one that can be
    /// carried too.
    pub fn brick(body: Body, pickable: Option<Pickable>) -> (object: Object)
        ensures
            object.wf(),
            object@ == (ObjectView {
                body,
                player: None,
                facing: None,
                picker: None,
                pickable,
                held_by: None,
                held_status: None,
                initial_collisions: None,
                toppleable: Some(ToppleState::Standing),
                camera_target: None,
            }),
    {
        Object {
            body,
            player: None,
            facing: None,
            picker: None,
            pickable,
            held_by: None,
            held_status: None,
            initial_collisions: None,
            toppleable: Some(Toppleable::Standing),
            camera_target: None,
        }
    }
}

/// The state of a piece, where there is one, as plain values.
pub open spec fn piece_of(state: Option<Toppleable>) -> Option<ToppleState> {
    match state {
        Some(piece) => Some(piece@),
        None => None,
    }
}

/// The objects of a level and the state of the session.
#[derive(Debug)]
pub struct World {
    pub objects: Vec<Object>,
    /// Why the game ended, once it has.
    pub game_over_reason: GameOverReason,
    /// The phase that the simulation asks for, until the game takes it up.
    pub next_state: Option<AppState>,
}

impl View for World {
    type V = Seq<ObjectView>;

    open spec fn view(&self) -> Seq<ObjectView> {
        Seq::new(self.objects@.len(), |i: int| self.objects@[i]@)
    }
}

impl World {
    /// A valid world: each of its objects is valid.
    pub open spec fn wf(&self) -> bool {
        &&& self.objects@.len() <= usize::MAX
        &&& forall|i: int| 0 <= i < self.objects@.len() ==> (#[trigger] self.objects@[i]).wf()
    }

    /// A world without objects, in which nothing has been decided.
    pub fn new() -> (world: World)
        ensures
            world.wf(),
            world@ == Seq::<ObjectView>::empty(),
            world.game_over_reason == GameOverReason::Unset,
            world.next_state is None,
            holds_consistent(world@),
    {
        let world = World { objects: Vec::new(), game_over_reason: GameOverReason::Unset, next_state: None };
        assert(world@ =~= Seq::<ObjectView>::empty());
        world
    }

    /// The number of objects.
    pub fn len(&self) -> (count: usize)
        ensures
            count == self@.len(),
    {
        self.objects.len()
    }

    /// Adds an object and returns its handle: the number of objects before.
    pub fn spawn(&mut self, object: Object) -> (handle: Handle)
        requires
            old(self).wf(),
            object.wf(),
        ensures
            final(self).wf(),
            handle == old(self)@.len(),
            final(self)@ == old(self)@.push(object@),
            final(self).game_over_reason == old(self).game_over_reason,
            final(self).next_state == old(self).next_state,
            holds_consistent(old(self)@) && holds_nothing(object@) ==> holds_consistent(final(self)@),
    {

        let handle: usize = self.objects.len();
        let ghost joining = object@;
        self.objects.push(object);
        let count: usize = self.objects.len();
        proof {
            assert(self@ =~= old(self)@.push(joining));
            if holds_consistent(old(self)@) && holds_nothing(joining) {
                lemma_new_object_keeps_holds_consistent(old(self)@, joining);
            }
        }
        handle
    }

    /// Takes in what the physics engine reports of one body. Without such an
    /// object nothing changes.
    pub fn set_body(&mut self, handle: Handle, body: Body)
        requires
            old(self).wf(),
        ensures
            final(self).wf(),
            handle < old(self)@.len() ==> final(self)@ == old(self)@.update(
                handle as int,
                (ObjectView { body, ..old(self)@[handle as int] }),
            ),
            handle >= old(self)@.len() ==> final(self)@ == old(self)@,
            final(self).game_over_reason == old(self).game_over_reason,
            final(self).next_state == old(self).next_state,
    {
        if handle < self.objects.len() {
            self.objects[handle].body = body;
            assert(self@ =~= old(self)@.update(handle as int, (ObjectView { body, ..old(self)@[handle as int] })));
        } else {
            assert(self@ =~= old(self)@);
        }
    }

    /// Puts the piece of one object into the given state, or takes it off
    /// the object. Without such an object nothing changes.
    pub fn set_toppleable(&mut self, handle: Handle, state: Option<Toppleable>)
        requires
            old(self).wf(),
            state matches Some(piece) ==> piece.wf(),
        ensures
            final(self).wf(),
            handle < old(self)@.len() ==> final(self)@ == old(self)@.update(
                handle as int,
                (ObjectView { toppleable: piece_of(state), ..old(self)@[handle as int] }),
            ),
            handle >= old(self)@.len() ==> final(self)@ == old(self)@,
            final(self).game_over_reason == old(self).game_over_reason,
            final(self).next_state == old(self).next_state,
    {
        let ghost piece = piece_of(state);
        if handle < self.objects.len() {
            self.objects[handle].toppleable = state;
            assert(self@ =~= old(self)@.update(
                handle as int,
                (ObjectView { toppleable: piece, ..old(self)@[handle as int] }),
            ));
        } else {
            assert(self@ =~= old(self)@);
        }
    }

    /// Turns the player of one object to the given side. Without such an
    /// object nothing changes.
    pub fn set_facing(&mut self, handle: Handle, facing: PlayerFacing)
        requires
            old(self).wf(),
        ensures
            final(self).wf(),
            handle < old(self)@.len() ==> final(self)@ == old(self)@.update(
                handle as int,
                (ObjectView { facing: Some(facing), ..old(self)@[handle as int] }),
            ),
            handle >= old(self)@.len() ==> final(self)@ == old(self)@,
            final(self).game_over_reason == old(self).game_over_reason,
            final(self).next_state == old(self).next_state,
    {
        if handle < self.objects.len() {
            self.objects[handle].facing = Some(facing);
            assert(self@ =~= old(self)@.update(
                handle as int,
                (ObjectView { facing: Some(facing), ..old(self)@[handle as int] }),
            ));
        } else {
            assert(self@ =~= old(self)@);
        }
    }

    /// What the physics engine is to be told of one body.
    pub fn body(&self, handle: Handle) -> (body: Option<Body>)
        ensures
            body == (if handle < self@.len() {
                Some(self@[handle as int].body)
            } else {
                None
            }),
    {
        if handle < self.objects.len() {
            Some(self.objects[handle].body)
        } else {
            None
        }
    }
}

} // verus!
