//! The one object that the camera follows.
use vstd::prelude::*;
use crate::world::Handle;
use crate::world::ObjectView;
use crate::world::World;

verus! {

/// Marks the object that the camera follows.
#[derive(Clone, Copy, Debug, PartialEq, Eq, Structural)]
pub struct CameraTarget;

/// The objects with the marker on `to` and on no other.
pub open spec fn camera_moved(objects: Seq<ObjectView>, to: Handle) -> Seq<ObjectView> {
    if to < objects.len() {
        Seq::new(
            objects.len(),
            |i: int|
                ObjectView {
                    camera_target: if i == to {
                        Some(CameraTarget)
                    } else {
                        None
                    },
                    ..objects[i]
                },
        )
    } else {
        objects
    }
}

/// Whether `target` carries the marker and no other object does.
pub open spec fn is_only_target(objects: Seq<ObjectView>, target: int) -> bool {
    &&& 0 <= target < objects.len()
    &&& forall|i: int| 0 <= i < objects.len() ==> (#[trigger] objects[i].camera_target is Some <==> i == target)
}

/// Whether exactly one object carries the marker.
pub open spec fn has_single_target(objects: Seq<ObjectView>) -> bool {
    exists|target: int| is_only_target(objects, target)
}

/// Whether no two objects carry the marker.
pub open spec fn has_at_most_one_target(objects: Seq<ObjectView>) -> bool {
    forall|i: int, j: int|
        0 <= i < objects.len() && 0 <= j < objects.len() && (#[trigger] objects[i].camera_target) is Some
            && (#[trigger] objects[j].camera_target) is Some ==> i == j
}

/// Moving the marker leaves exactly one object with it, wherever it was
/// before and however many carried it.
pub proof fn lemma_camera_moved_is_single(objects: Seq<ObjectView>, to: Handle)
    requires
        to < objects.len(),
    ensures
        is_only_target(camera_moved(objects, to), to as int),
        has_single_target(camera_moved(objects, to)),
{
    assert(is_only_target(camera_moved(objects, to), to as int));
}

/// Exactly one marker is at most one marker.
pub proof fn lemma_single_is_at_most_one(objects: Seq<ObjectView>)
    requires
        has_single_target(objects),
    ensures
        has_at_most_one_target(objects),
{
    let target = choose|target: int| is_only_target(objects, target);
    assert forall|i: int, j: int|
        0 <= i < objects.len() && 0 <= j < objects.len() && (#[trigger] objects[i].camera_target) is Some
            && (#[trigger] objects[j].camera_target) is Some implies i == j by {
        assert(i == target);
        assert(j == target);
    }
}

impl World {
    /// Takes the marker from whoever carries it and gives it to `to`. Without
    /// such an object nothing changes.
    pub fn move_camera_target(&mut self, to: Handle)
        requires
            old(self).wf(),
        ensures
            final(self).wf(),
            final(self)@ == camera_moved(old(self)@, to),
            final(self).game_over_reason == old(self).game_over_reason,
            final(self).next_state == old(self).next_state,
    {
        let count: usize = self.objects.len();
        if to >= count {
            return ;
        }
        let mut i: usize = 0;
        while i < count
            invariant
                0 <= i <= count,
                to < count,
                count == self.objects.len(),
                count == old(self).objects.len(),
                self.game_over_reason == old(self).game_over_reason,
                self.next_state == old(self).next_state,
                forall|j: int| 0 <= j < i ==> #[trigger] self.objects[j]@ == camera_moved(old(self)@, to)[j],
                forall|j: int| i <= j < count ==> #[trigger] self.objects[j] == old(self).objects[j],
                forall|j: int| 0 <= j < count ==> (#[trigger] self.objects[j]).wf(),
            decreases count - i,
        {
            if i == to {
                self.objects[i].camera_target = Some(CameraTarget);
            } else {
                self.objects[i].camera_target = None;
            }
            i += 1;
        }
        assert(self@ =~= camera_moved(old(self)@, to));
    }
}

} // verus!
