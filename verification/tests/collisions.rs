use time_to_topple::body::Body;
use time_to_topple::contacts::collision_started_events_both_ways;
use time_to_topple::contacts::entities_colliding_with;
use time_to_topple::contacts::InitialCollisions;
use time_to_topple::fixed::Vec2;
use time_to_topple::fixed::WideVec2;
use time_to_topple::picking_up::HeldBy;
use time_to_topple::picking_up::HeldStatus;
use time_to_topple::picking_up::Pickable;
use time_to_topple::picking_up::Picker;
use time_to_topple::world::Object;
use time_to_topple::world::World;

fn body_at(x: i32, y: i32) -> Body {
    Body::at_rest(Vec2::new(x, y), 10_000, 5_000)
}

/// A player, a brick in its hold, and two more objects `a` and `b`; the brick
/// rested on `a` when it was grasped.
fn held_brick_resting_on_a() -> (World, usize, usize, usize, usize) {
    let mut world = World::new();
    let player = world.spawn(Object::player(body_at(0, 0)));
    let brick = world.spawn(Object::brick(body_at(1000, 0), Some(Pickable { hold_at_offset: Vec2::new(0, -2000) })));
    let a = world.spawn(Object::scenery(body_at(1000, -2500)));
    let b = world.spawn(Object::scenery(body_at(1000, 6000)));
    world.initiate_pick_up(player, Some(brick));
    InitialCollisions::initiate(&mut world, &vec![(brick, a)]);
    (world, player, brick, a, b)
}

#[test]
fn what_touches_an_object_is_read_off_the_pairs() {
    let pairs = vec![(1, 2), (3, 1), (2, 3), (1, 4), (5, 6)];
    assert_eq!(entities_colliding_with(&pairs, 1), vec![2, 3, 4]);
    assert_eq!(entities_colliding_with(&pairs, 3), vec![1, 2]);
    assert_eq!(entities_colliding_with(&pairs, 6), vec![5]);
    assert_eq!(entities_colliding_with(&pairs, 7), Vec::<usize>::new());
    assert_eq!(entities_colliding_with(&Vec::new(), 1), Vec::<usize>::new());
}

#[test]
fn each_started_contact_is_reported_from_both_sides() {
    assert_eq!(
        collision_started_events_both_ways(&vec![(1, 2), (7, 3)]),
        vec![(1, 2), (2, 1), (7, 3), (3, 7)]
    );
    assert_eq!(collision_started_events_both_ways(&Vec::new()), Vec::<(usize, usize)>::new());
}

#[test]
fn the_snapshot_holds_what_is_touched_at_the_grasp() {
    let taken = InitialCollisions::snapshot(&vec![(1, 2), (3, 1), (4, 5)], 1);
    assert_eq!(taken.still_touching(2), Some(true));
    assert_eq!(taken.still_touching(3), Some(true));
    assert_eq!(taken.still_touching(4), None);
    assert_eq!(taken.still_touching(1), None);
    assert_eq!(taken.0.len(), 2);
    let nothing = InitialCollisions::snapshot(&vec![(4, 5)], 1);
    assert_eq!(nothing.0.len(), 0);
}

#[test]
fn a_snapshot_is_taken_once_when_a_hold_begins() {
    let (mut world, _, brick, a, b) = held_brick_resting_on_a();
    let taken = world.objects[brick].initial_collisions.as_ref().unwrap();
    assert_eq!(taken.still_touching(a), Some(true));
    assert_eq!(taken.still_touching(b), None);
    // a later step does not take it anew
    InitialCollisions::initiate(&mut world, &vec![(brick, b)]);
    let kept = world.objects[brick].initial_collisions.as_ref().unwrap();
    assert_eq!(kept.still_touching(a), Some(true));
    assert_eq!(kept.still_touching(b), None);
    // what is not held gets none
    assert!(world.objects[a].initial_collisions.is_none());
}

#[test]
fn the_snapshot_is_discarded_when_the_hold_has_ended() {
    let (mut world, _, brick, _, _) = held_brick_resting_on_a();
    InitialCollisions::clear(&mut world);
    assert!(world.objects[brick].initial_collisions.is_some());
    world.objects[brick].held_by = None;
    world.objects[brick].held_status = None;
    InitialCollisions::clear(&mut world);
    assert!(world.objects[brick].initial_collisions.is_none());
}

#[test]
fn marking_brings_the_flags_up_to_date() {
    let mut taken = InitialCollisions::snapshot(&vec![(1, 2), (1, 3), (1, 9)], 1);
    // 2 still touches, 3 no longer, 9 is the holder
    assert!(!taken.mark_contacts(&vec![2, 9], 9));
    assert_eq!(taken.still_touching(2), Some(true));
    assert_eq!(taken.still_touching(3), Some(false));
    assert_eq!(taken.still_touching(9), Some(false));
    assert_eq!(taken.0.len(), 3);
    // 4 is new
    assert!(taken.mark_contacts(&vec![3, 4], 9));
    assert_eq!(taken.still_touching(2), Some(false));
    assert_eq!(taken.still_touching(3), Some(true));
    assert_eq!(taken.still_touching(4), None);
    assert_eq!(taken.0.len(), 3);
    assert!(!taken.mark_contacts(&Vec::new(), 9));
    assert_eq!(taken.still_touching(3), Some(false));
}

// Touching only what was touched at the grasp does not break the hold;
// touching something new breaks it in the same step.
#[test]
fn collision_break_scenario() {
    let (mut world, player, brick, a, b) = held_brick_resting_on_a();
    world.break_hold_when_pickable_collides_with_something(&vec![(brick, a)]);
    assert_eq!(world.objects[brick].held_by, Some(HeldBy(player)));
    assert_eq!(world.objects[brick].held_status, Some(HeldStatus::Lifted));
    assert_eq!(world.objects[player].picker, Some(Picker { holding: Some(brick), immobilized: true }));

    world.objects[brick].body.force = WideVec2 { x: 5, y: 7 };
    world.break_hold_when_pickable_collides_with_something(&vec![(brick, a), (b, brick)]);
    assert_eq!(world.objects[brick].held_by, None);
    assert_eq!(world.objects[brick].held_status, None);
    assert_eq!(world.objects[brick].body.force, WideVec2::zero());
    assert_eq!(world.objects[player].picker, Some(Picker::default()));
}

#[test]
fn touching_the_holder_breaks_nothing() {
    let (mut world, player, brick, a, _) = held_brick_resting_on_a();
    world.break_hold_when_pickable_collides_with_something(&vec![(player, brick), (a, brick)]);
    assert_eq!(world.objects[brick].held_by, Some(HeldBy(player)));
    assert_eq!(world.objects[brick].held_status, Some(HeldStatus::Lifted));
}

#[test]
fn touching_nothing_breaks_nothing_and_clears_the_flags() {
    let (mut world, player, brick, a, _) = held_brick_resting_on_a();
    world.break_hold_when_pickable_collides_with_something(&Vec::new());
    assert_eq!(world.objects[brick].held_by, Some(HeldBy(player)));
    assert_eq!(world.objects[brick].initial_collisions.as_ref().unwrap().still_touching(a), Some(false));
    world.break_hold_when_pickable_collides_with_something(&vec![(a, brick)]);
    assert_eq!(world.objects[brick].initial_collisions.as_ref().unwrap().still_touching(a), Some(true));
}

#[test]
fn contacts_between_others_break_nothing() {
    let (mut world, player, brick, a, b) = held_brick_resting_on_a();
    world.break_hold_when_pickable_collides_with_something(&vec![(a, b), (player, b)]);
    assert_eq!(world.objects[brick].held_by, Some(HeldBy(player)));
}

#[test]
fn without_a_snapshot_nothing_is_checked() {
    let mut world = World::new();
    let player = world.spawn(Object::player(body_at(0, 0)));
    let brick = world.spawn(Object::brick(body_at(1000, 0), Some(Pickable { hold_at_offset: Vec2::zero() })));
    let b = world.spawn(Object::scenery(body_at(1000, 6000)));
    world.initiate_pick_up(player, Some(brick));
    world.break_hold_when_pickable_collides_with_something(&vec![(brick, b)]);
    assert_eq!(world.objects[brick].held_by, Some(HeldBy(player)));
}

#[test]
fn a_break_leaves_a_picker_that_holds_something_else() {
    let (mut world, player, brick, _, b) = held_brick_resting_on_a();
    world.objects[player].picker = Some(Picker { holding: Some(b), immobilized: false });
    world.break_hold_when_pickable_collides_with_something(&vec![(brick, b)]);
    assert_eq!(world.objects[brick].held_by, None);
    assert_eq!(world.objects[brick].held_status, None);
    assert_eq!(world.objects[player].picker, Some(Picker { holding: Some(b), immobilized: false }));
}
