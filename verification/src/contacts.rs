//! Who touches whom: the contact pairs of one step, and the snapshot of what a
//! held object already touched when it was grasped.
use vstd::prelude::*;
use bevy::platform::collections::HashMap;
use bevy::platform::hash::FixedHasher;
use crate::world::Handle;
use crate::world::ObjectView;
use crate::world::World;

verus! {

/// The engine's hasher with a fixed seed: the default hasher of its maps.
/// Nothing is claimed of it.
#[verifier::external_type_specification]
#[verifier::external_body]
pub struct ExFixedHasher(FixedHasher);

/// The engine's hash map. Of a map from handles to flags the functions below
/// say what it holds; nothing else is claimed of it.
#[verifier::external_type_specification]
#[verifier::external_body]
#[verifier::reject_recursive_types(K)]
#[verifier::reject_recursive_types(V)]
#[verifier::reject_recursive_types(S)]
pub struct ExHashMap<K, V, S>(HashMap<K, V, S>);

/// The entries of a map from handles to flags.
pub uninterp spec fn flags_of(map: HashMap<Handle, bool>) -> Map<Handle, bool>;

/// No entries.
pub open spec fn no_flags() -> Map<Handle, bool> {
    Map::empty()
}

/// `bevy::platform::collections::HashMap::new`: a map without entries.
#[verifier::external_body]
pub(crate) fn new_flags() -> (map: HashMap<Handle, bool>)
    ensures
        flags_of(map) == no_flags(),
{
    HashMap::new()
}

/// `bevy::platform::collections::HashMap::insert`: the map holds `flag` under
/// `key`, and its other entries as before.
#[verifier::external_body]
pub(crate) fn insert_flag(map: &mut HashMap<Handle, bool>, key: Handle, flag: bool)
    ensures
        flags_of(*final(map)) == flags_of(*old(map)).insert(key, flag),
{
    map.insert(key, flag);
}

/// `bevy::platform::collections::HashMap::get`: the flag under `key`, if there is one.
#[verifier::external_body]
pub(crate) fn get_flag(map: &HashMap<Handle, bool>, key: Handle) -> (flag: Option<bool>)
    ensures
        flag == (if flags_of(*map).contains_key(key) {
            Some(flags_of(*map)[key])
        } else {
            None
        }),
{
    map.get(&key).copied()
}

/// `bevy::platform::collections::HashMap::keys`: every key of the map once,
/// in no order that can be named.
#[verifier::external_body]
pub(crate) fn flag_keys(map: &HashMap<Handle, bool>) -> (keys: Vec<Handle>)
    ensures
        keys@.no_duplicates(),
        forall|key: Handle| keys@.contains(key) <==> flags_of(*map).contains_key(key),
{
    map.keys().copied().collect()
}


/// What a held object already touched when it was grasped, each with a flag
/// that tells whether it still touches it in this step.
#[derive(Debug)]
pub struct InitialCollisions(pub HashMap<Handle, bool>);

impl View for InitialCollisions {
    type V = Map<Handle, bool>;

    open spec fn view(&self) -> Map<Handle, bool> {
        flags_of(self.0)
    }
}


/// What touches `entity`, one entry for each contact pair that names it, in
/// the order of the pairs.
pub open spec fn neighbours(pairs: Seq<(Handle, Handle)>, entity: Handle) -> Seq<Handle>
    decreases pairs.len(),
{
    if pairs.len() == 0 {
        Seq::empty()
    } else {
        let before = neighbours(pairs.drop_last(), entity);
        let pair = pairs.last();
        if pair.0 == entity {
            before.push(pair.1)
        } else if pair.1 == entity {
            before.push(pair.0)
        } else {
            before
        }
    }
}

/// The snapshot taken when `entity` is grasped: everything it touches, each
/// flagged as touching.
pub open spec fn snapshot_of(pairs: Seq<(Handle, Handle)>, entity: Handle) -> Map<Handle, bool> {
    Map::new(|other: Handle| neighbours(pairs, entity).contains(other), |other: Handle| true)
}

/// What touches `entity` among the contact pairs of this step.
pub fn entities_colliding_with(pairs: &Vec<(Handle, Handle)>, entity: Handle) -> (touched: Vec<Handle>)
    ensures
        touched@ == neighbours(pairs@, entity),
{
    let mut touched: Vec<Handle> = Vec::new();
    let mut k: usize = 0;
    assert(pairs@.take(0) =~= Seq::<(Handle, Handle)>::empty());
    while k < pairs.len()
        invariant
            0 <= k <= pairs.len(),
            touched@ == neighbours(pairs@.take(k as int), entity),
        decreases pairs.len() - k,
    {
        let pair: (Handle, Handle) = pairs[k];
        assert(pairs@.take(k + 1).drop_last() =~= pairs@.take(k as int));
        assert(pairs@.take(k + 1).last() == pair);
        if pair.0 == entity {
            touched.push(pair.1);
        } else if pair.1 == entity {
            touched.push(pair.0);
        }
        k += 1;
    }
    assert(pairs@.take(k as int) =~= pairs@);
    touched
}

/// What one more element adds to the start of a sequence.
pub proof fn lemma_take_one_more(items: Seq<Handle>, k: int)
    requires
        0 <= k < items.len(),
    ensures
        forall|item: Handle|
            items.take(k + 1).contains(item) <==> (items.take(k).contains(item) || item == items[k]),
{
    let shorter = items.take(k);
    let longer = items.take(k + 1);
    assert forall|item: Handle| longer.contains(item) <==> (shorter.contains(item) || item == items[k]) by {
        if shorter.contains(item) {
            let u = choose|u: int| 0 <= u < shorter.len() && shorter[u] == item;
            assert(longer[u] == item);
        }
        if item == items[k] {
            assert(longer[k] == item);
        }
        if longer.contains(item) {
            let u = choose|u: int| 0 <= u < longer.len() && longer[u] == item;
            if u < k {
                assert(shorter[u] == item);
            }
        }
    }
}

/// Each contact pair, once as reported and once the other way round.
pub open spec fn both_ways(pairs: Seq<(Handle, Handle)>) -> Seq<(Handle, Handle)> {
    Seq::new(
        2 * pairs.len(),
        |i: int|
            if i % 2 == 0 {
                pairs[i / 2]
            } else {
                (pairs[i / 2].1, pairs[i / 2].0)
            },
    )
}

/// The contacts that began in this step, each from the side of either object.
pub fn collision_started_events_both_ways(started: &Vec<(Handle, Handle)>) -> (events: Vec<(Handle, Handle)>)
    ensures
        events@ == both_ways(started@),
{
    let mut events: Vec<(Handle, Handle)> = Vec::new();
    let mut k: usize = 0;
    while k < started.len()
        invariant
            0 <= k <= started.len(),
            events@.len() == 2 * k,
            forall|i: int| 0 <= i < 2 * k ==> events@[i] == #[trigger] both_ways(started@)[i],
        decreases started.len() - k,
    {
        let pair: (Handle, Handle) = started[k];
        events.push(pair);
        events.push((pair.1, pair.0));
        k += 1;
    }
    assert(events@ =~= both_ways(started@));
    events
}

impl InitialCollisions {
    /// The snapshot of what `entity` touches among the contact pairs.
    pub fn snapshot(pairs: &Vec<(Handle, Handle)>, entity: Handle) -> (taken: InitialCollisions)
        ensures
            taken@ == snapshot_of(pairs@, entity),
    {
        let touched: Vec<Handle> = entities_colliding_with(pairs, entity);
        let mut map: HashMap<Handle, bool> = new_flags();
        let mut k: usize = 0;
        while k < touched.len()
            invariant
                0 <= k <= touched.len(),
                forall|other: Handle|
                    flags_of(map).contains_key(other) <==> touched@.take(k as int).contains(other),
                forall|other: Handle| flags_of(map).contains_key(other) ==> flags_of(map)[other],
            decreases touched.len() - k,
        {
            let ghost flags = flags_of(map);
            insert_flag(&mut map, touched[k], true);
            proof {
                lemma_take_one_more(touched@, k as int);
                assert(flags_of(map) == flags.insert(touched@[k as int], true));
                assert forall|other: Handle|
                    flags_of(map).contains_key(other) <==> touched@.take(k + 1).contains(other) by {
                    assert(flags.contains_key(other) <==> touched@.take(k as int).contains(other));
                }
            }
            k += 1;
        }
        assert(touched@.take(k as int) =~= touched@);
        assert(flags_of(map) =~= snapshot_of(pairs@, entity));
        InitialCollisions(map)
    }

    /// Whether `other` was touched at the grasp, and if so, whether it still
    /// was when the contacts were last checked.
    pub fn still_touching(&self, other: Handle) -> (flag: Option<bool>)
        ensures
            flag == (if self@.contains_key(other) {
                Some(self@[other])
            } else {
                None
            }),
    {
        get_flag(&self.0, other)
    }

    /// Takes the snapshot of every object that has come into a hold and has
    /// none yet.
    pub fn initiate(world: &mut World, collisions: &Vec<(Handle, Handle)>)
        requires
            old(world).wf(),
        ensures
            final(world).wf(),
            final(world)@ == collisions_initiated(old(world)@, collisions@),
            final(world).game_over_reason == old(world).game_over_reason,
            final(world).next_state == old(world).next_state,
    {
        let count: usize = world.objects.len();
        let mut i: usize = 0;
        while i < count
            invariant
                0 <= i <= count,
                count == world.objects.len(),
                count == old(world).objects.len(),
                world.wf(),
                world.game_over_reason == old(world).game_over_reason,
                world.next_state == old(world).next_state,
                forall|j: int|
                    0 <= j < i ==> (#[trigger] world.objects[j])@ == collisions_initiated(
                        old(world)@,
                        collisions@,
                    )[j],
                forall|j: int| i <= j < count ==> (#[trigger] world.objects[j])@ == old(world)@[j],
            decreases count - i,
        {
            if world.objects[i].held_by.is_some() && world.objects[i].initial_collisions.is_none() {
                world.objects[i].initial_collisions = Some(InitialCollisions::snapshot(collisions, i));
            }
            i += 1;
        }
        assert(world@ =~= collisions_initiated(old(world)@, collisions@));
    }

    /// Discards the snapshot of every object that is in no hold any more.
    pub fn clear(world: &mut World)
        requires
            old(world).wf(),
        ensures
            final(world).wf(),
            final(world)@ == collisions_cleared(old(world)@),
            final(world).game_over_reason == old(world).game_over_reason,
            final(world).next_state == old(world).next_state,
    {
        let count: usize = world.objects.len();
        let mut i: usize = 0;
        while i < count
            invariant
                0 <= i <= count,
                count == world.objects.len(),
                count == old(world).objects.len(),
                world.wf(),
                world.game_over_reason == old(world).game_over_reason,
                world.next_state == old(world).next_state,
                forall|j: int|
                    0 <= j < i ==> (#[trigger] world.objects[j])@ == collisions_cleared(old(world)@)[j],
                forall|j: int| i <= j < count ==> (#[trigger] world.objects[j])@ == old(world)@[j],
            decreases count - i,
        {
            if world.objects[i].held_by.is_none() && world.objects[i].initial_collisions.is_some() {
                world.objects[i].initial_collisions = None;
            }
            i += 1;
        }
        assert(world@ =~= collisions_cleared(old(world)@));
    }
}

/// The objects after every held object without a snapshot has got one.
pub open spec fn collisions_initiated(objects: Seq<ObjectView>, pairs: Seq<(Handle, Handle)>) -> Seq<ObjectView> {
    Seq::new(
        objects.len(),
        |i: int|
            if objects[i].held_by is Some && objects[i].initial_collisions is None {
                ObjectView { initial_collisions: Some(snapshot_of(pairs, i as Handle)), ..objects[i] }
            } else {
                objects[i]
            },
    )
}

/// The objects after every snapshot of an object in no hold is discarded.
pub open spec fn collisions_cleared(objects: Seq<ObjectView>) -> Seq<ObjectView> {
    Seq::new(
        objects.len(),
        |i: int|
            if objects[i].held_by is None && objects[i].initial_collisions is Some {
                ObjectView { initial_collisions: None, ..objects[i] }
            } else {
                objects[i]
            },
    )
}

} // verus!
