//! Dropping what is carried when it bumps into something new.
use vstd::prelude::*;
use bevy::platform::collections::HashMap;
use crate::body::Body;
use crate::contacts::entities_colliding_with;
use crate::contacts::flag_keys;
use crate::contacts::flags_of;
use crate::contacts::get_flag;
use crate::contacts::insert_flag;
use crate::contacts::lemma_take_one_more;
use crate::contacts::neighbours;
use crate::contacts::InitialCollisions;
use crate::fixed::WideVec2;
use crate::picking_up::holder;
use crate::picking_up::let_go;
use crate::picking_up::sans_picker;
use crate::picking_up::HeldBy;
use crate::picking_up::Picker;
use crate::world::Handle;
use crate::world::ObjectView;
use crate::world::World;

verus! {

/// The snapshot with its flags brought up to date: an initial contact still
/// touches if it is among `touched` and is not the holder.
pub open spec fn marked(initial: Map<Handle, bool>, touched: Seq<Handle>, holder: Handle) -> Map<Handle, bool> {
    Map::new(
        |other: Handle| initial.contains_key(other),
        |other: Handle| touched.contains(other) && other != holder,
    )
}

/// Whether the entry `k` of `touched` is a new contact: neither the holder
/// nor an initial contact.
pub open spec fn is_new_contact(initial: Map<Handle, bool>, touched: Seq<Handle>, holder: Handle, k: int) -> bool {
    touched[k] != holder && !initial.contains_key(touched[k])
}

/// Whether something new is among `touched`.
pub open spec fn meets_something_new(initial: Map<Handle, bool>, touched: Seq<Handle>, holder: Handle) -> bool {
    exists|k: int| 0 <= k < touched.len() && #[trigger] is_new_contact(initial, touched, holder, k)
}

impl InitialCollisions {
    /// Brings the flags of the snapshot up to date, given what the object
    /// touches in this step and who holds it, and tells whether something new
    /// is touched.
    pub fn mark_contacts(&mut self, touched: &Vec<Handle>, holder: Handle) -> (any_colliding: bool)
        ensures
            final(self)@ == marked(old(self)@, touched@, holder),
            any_colliding == meets_something_new(old(self)@, touched@, holder),
    {
        let map: &mut HashMap<Handle, bool> = &mut self.0;
        let ghost initial = flags_of(*map);
        let keys: Vec<Handle> = flag_keys(map);
        let mut k: usize = 0;
        while k < keys.len()
            invariant
                0 <= k <= keys.len(),
                forall|key: Handle| keys@.contains(key) <==> initial.contains_key(key),
                forall|key: Handle| flags_of(*map).contains_key(key) <==> initial.contains_key(key),
                forall|t: int| 0 <= t < k ==> !flags_of(*map)[#[trigger] keys@[t]],
            decreases keys.len() - k,
        {
            assert(keys@.contains(keys@[k as int]));
            insert_flag(map, keys[k], false);
            k += 1;
        }
        assert forall|key: Handle| flags_of(*map).contains_key(key) implies !flags_of(*map)[key] by {
            assert(keys@.contains(key));
            let t = choose|t: int| 0 <= t < keys@.len() && keys@[t] == key;
            assert(!flags_of(*map)[keys@[t]]);
        }
        let mut any_colliding: bool = false;
        let mut k: usize = 0;
        while k < touched.len()
            invariant
                0 <= k <= touched.len(),
                forall|key: Handle| flags_of(*map).contains_key(key) <==> initial.contains_key(key),
                forall|key: Handle|
                    initial.contains_key(key) ==> (flags_of(*map)[key] <==> (touched@.take(k as int).contains(key) && key
                        != holder)),
                any_colliding == meets_something_new(initial, touched@.take(k as int), holder),
            decreases touched.len() - k,
        {
            let other: Handle = touched[k];
            let ghost flags = flags_of(*map);
            let ghost seen = touched@.take(k as int);
            let ghost next = touched@.take(k + 1);
            if other != holder {
                if get_flag(map, other).is_some() {
                    insert_flag(map, other, true);
                } else {
                    any_colliding = true;
                }
            }
            proof {
                lemma_take_one_more(touched@, k as int);
                assert forall|key: Handle| initial.contains_key(key) implies (flags_of(*map)[key] <==> (next.contains(key)
                    && key != holder)) by {
                    assert(flags[key] <==> (seen.contains(key) && key != holder));
                }
                if meets_something_new(initial, seen, holder) {
                    let t = choose|t: int| 0 <= t < seen.len() && #[trigger] is_new_contact(initial, seen, holder, t);
                    assert(is_new_contact(initial, next, holder, t));
                }
                if is_new_contact(initial, touched@, holder, k as int) {
                    assert(is_new_contact(initial, next, holder, k as int));
                }
                if meets_something_new(initial, next, holder) {
                    let t = choose|t: int| 0 <= t < next.len() && #[trigger] is_new_contact(initial, next, holder, t);
                    if t < k {
                        assert(is_new_contact(initial, seen, holder, t));
                    }
                }
            }
            k += 1;
        }
        assert(touched@.take(k as int) =~= touched@);
        assert(flags_of(*map) =~= marked(initial, touched@, holder));
        any_colliding
    }
}

/// Whether the object `i` is in a hold and has its snapshot.
pub open spec fn watches_contacts(object: ObjectView) -> bool {
    object.held_by is Some && object.initial_collisions is Some
}

/// Whether the hold of the object `i` breaks in this step: it touches
/// something that is neither its holder nor an initial contact.
pub open spec fn hold_breaks(objects: Seq<ObjectView>, pairs: Seq<(Handle, Handle)>, i: int) -> bool {
    &&& 0 <= i < objects.len()
    &&& watches_contacts(objects[i])
    &&& meets_something_new(objects[i].initial_collisions->0, neighbours(pairs, i as Handle), holder(objects[i]))
}

/// Object `i` after its contacts are checked, but for its record as a picker:
/// the flags of its snapshot are brought up to date, and if its hold breaks it
/// is let go with no force on it.
pub open spec fn contacts_checked(objects: Seq<ObjectView>, pairs: Seq<(Handle, Handle)>, i: int) -> ObjectView {
    let object = objects[i];
    if !watches_contacts(object) {
        object
    } else {
        let watched = ObjectView {
            initial_collisions: Some(
                marked(object.initial_collisions->0, neighbours(pairs, i as Handle), holder(object)),
            ),
            ..object
        };
        if hold_breaks(objects, pairs, i) {
            let_go(watched, Body { force: WideVec2 { x: 0, y: 0 }, ..object.body })
        } else {
            watched
        }
    }
}

/// Whether the picker `p` loses what it holds to a broken hold among the
/// objects below `upto`.
pub open spec fn loses_hold(objects: Seq<ObjectView>, pairs: Seq<(Handle, Handle)>, p: int, upto: int) -> bool {
    match objects[p].picker {
        Some(Picker { holding: Some(held), .. }) => held < upto && hold_breaks(objects, pairs, held as int) && holder(
            objects[held as int],
        ) == p,
        _ => false,
    }
}

/// The picker record of object `p` after the contacts of the objects below
/// `upto` are checked: empty if the hold of what it holds broke, else as before.
pub open spec fn picker_after_break(objects: Seq<ObjectView>, pairs: Seq<(Handle, Handle)>, p: int, upto: int) -> Option<
    Picker,
> {
    if loses_hold(objects, pairs, p, upto) {
        Some(Picker::empty())
    } else {
        objects[p].picker
    }
}

/// The objects after the contacts of every held object are checked.
pub open spec fn holds_broken(objects: Seq<ObjectView>, pairs: Seq<(Handle, Handle)>) -> Seq<ObjectView> {
    Seq::new(
        objects.len(),
        |i: int|
            ObjectView {
                picker: picker_after_break(objects, pairs, i, objects.len() as int),
                ..contacts_checked(objects, pairs, i)
            },
    )
}

impl World {
    /// Checks the contacts of every held object against its snapshot, and
    /// breaks the hold of each that touches something new.
    pub fn break_hold_when_pickable_collides_with_something(&mut self, collisions: &Vec<(Handle, Handle)>)
        requires
            old(self).wf(),
        ensures
            final(self).wf(),
            final(self)@ == holds_broken(old(self)@, collisions@),
            final(self).game_over_reason == old(self).game_over_reason,
            final(self).next_state == old(self).next_state,
    {
        let count: usize = self.objects.len();
        let mut i: usize = 0;
        while i < count
            invariant
                0 <= i <= count,
                count == self.objects.len(),
                count == old(self).objects.len(),
                self.wf(),
                self.game_over_reason == old(self).game_over_reason,
                self.next_state == old(self).next_state,
                forall|j: int|
                    0 <= j < count ==> (#[trigger] self.objects[j])@.picker == picker_after_break(
                        old(self)@,
                        collisions@,
                        j,
                        i as int,
                    ),
                forall|j: int|
                    0 <= j < i ==> sans_picker((#[trigger] self.objects[j])@) == sans_picker(
                        contacts_checked(old(self)@, collisions@, j),
                    ),
                forall|j: int|
                    i <= j < count ==> sans_picker((#[trigger] self.objects[j])@) == sans_picker(old(self)@[j]),
            decreases count - i,
        {
            let ghost start = old(self)@;
            assert(sans_picker(self.objects[i as int]@) == sans_picker(start[i as int]));
            let held_by: Option<HeldBy> = self.objects[i].held_by;
            match held_by {
                Some(HeldBy(picker_handle)) => {
                    let touched: Vec<Handle> = entities_colliding_with(collisions, i);
                    let checked: Option<bool> = match &mut self.objects[i].initial_collisions {
                        Some(snapshot) => Some(snapshot.mark_contacts(&touched, picker_handle)),
                        None => None,
                    };
                    match checked {
                        Some(true) => {
                            self.objects[i].body.force = WideVec2::zero();
                            self.objects[i].held_by = None;
                            self.objects[i].held_status = None;
                            if picker_handle < count {
                                match self.objects[picker_handle].picker {
                                    Some(Picker { holding: Some(held), .. }) => {
                                        if held == i {
                                            self.objects[picker_handle].picker = Some(Picker::default());
                                        }
                                    },
                                    _ => {},
                                }
                            }
                        },
                        _ => {},
                    }
                },
                None => {},
            }
            proof {
                assert(sans_picker(self.objects[i as int]@) == sans_picker(
                    contacts_checked(start, collisions@, i as int),
                ));
            }
            i += 1;
        }
        assert(self@ =~= holds_broken(old(self)@, collisions@));
    }
}

} // verus!
