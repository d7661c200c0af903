use time_to_topple::body::Body;
use time_to_topple::camera::CameraTarget;
use time_to_topple::fixed::Vec2;
use time_to_topple::fixed::WideVec2;
use time_to_topple::picking_up::HeldBy;
use time_to_topple::picking_up::HeldStatus;
use time_to_topple::picking_up::Pickable;
use time_to_topple::picking_up::Picker;
use time_to_topple::picking_up::ShapeCast;
use time_to_topple::player::PlayerFacing;
use time_to_topple::world::Object;
use time_to_topple::world::World;

const STEP: u64 = 100_000_000;
const GRAVITY: Vec2 = Vec2 { x: 0, y: -9_810 };

fn pickable() -> Option<Pickable> {
    Some(Pickable { hold_at_offset: Vec2::new(0, -2000) })
}

fn body_at(x: i32, y: i32) -> Body {
    Body::at_rest(Vec2::new(x, y), 10_000, 5_000)
}

/// A player at the origin and a brick that can be carried, one unit to the right.
fn player_and_brick() -> (World, usize, usize) {
    let mut world = World::new();
    let player = world.spawn(Object::player(body_at(0, 0)));
    let brick = world.spawn(Object::brick(body_at(1000, 0), pickable()));
    (world, player, brick)
}

#[test]
fn an_empty_picker_is_the_default() {
    assert_eq!(Picker::default(), Picker { holding: None, immobilized: false });
    let mut picker = Picker { holding: Some(4), immobilized: true };
    picker.clear();
    assert_eq!(picker, Picker::default());
}

#[test]
fn the_probe_is_a_thin_rectangle_cast_two_units_along_the_facing() {
    let (mut world, player, _) = player_and_brick();
    world.set_body(player, body_at(700, -300));
    assert_eq!(
        world.pick_up_probe(player),
        Some(ShapeCast {
            width: 0,
            height: 500,
            origin: Vec2::new(700, -300),
            direction: Vec2::new(1000, 0),
            max_distance: 2000,
        })
    );
    world.set_facing(player, PlayerFacing::Left);
    assert_eq!(world.pick_up_probe(player).unwrap().direction, Vec2::new(-1000, 0));
}

#[test]
fn no_probe_without_a_picker_that_can_answer() {
    let (mut world, player, brick) = player_and_brick();
    assert_eq!(world.pick_up_probe(brick), None);
    assert_eq!(world.pick_up_probe(17), None);
    world.objects[player].camera_target = None;
    assert_eq!(world.pick_up_probe(player), None);
    world.objects[player].camera_target = Some(CameraTarget);
    world.objects[player].facing = None;
    assert_eq!(world.pick_up_probe(player), None);
}

#[test]
fn the_probe_stops_only_at_what_can_be_picked_and_is_free() {
    let (mut world, player, brick) = player_and_brick();
    let plain = world.spawn(Object::brick(body_at(2000, 0), None));
    assert!(world.can_pick(brick));
    assert!(!world.can_pick(plain));
    assert!(!world.can_pick(player));
    assert!(!world.can_pick(99));
    world.initiate_pick_up(player, Some(brick));
    assert!(!world.can_pick(brick));
}

#[test]
fn a_hit_is_grasped() {
    let (mut world, player, brick) = player_and_brick();
    world.initiate_pick_up(player, Some(brick));
    assert_eq!(world.objects[brick].held_by, Some(HeldBy(player)));
    assert_eq!(world.objects[brick].held_status, Some(HeldStatus::Lifted));
    assert_eq!(world.objects[player].picker, Some(Picker { holding: Some(brick), immobilized: true }));
    assert_eq!(world.pick_up_probe(player), None);
}

#[test]
fn a_miss_changes_nothing() {
    let (mut world, player, brick) = player_and_brick();
    world.initiate_pick_up(player, None);
    assert_eq!(world.objects[player].picker, Some(Picker::default()));
    assert_eq!(world.objects[brick].held_by, None);
    assert_eq!(world.objects[brick].held_status, None);
}

#[test]
fn a_hit_that_cannot_be_picked_is_a_miss() {
    let (mut world, player, _) = player_and_brick();
    let plain = world.spawn(Object::brick(body_at(2000, 0), None));
    world.initiate_pick_up(player, Some(plain));
    assert_eq!(world.objects[player].picker, Some(Picker::default()));
    assert_eq!(world.objects[plain].held_by, None);
    world.initiate_pick_up(player, Some(42));
    assert_eq!(world.objects[player].picker, Some(Picker::default()));
}

#[test]
fn the_input_is_ignored_without_a_picker_a_facing_or_the_camera() {
    let (mut world, player, brick) = player_and_brick();
    world.initiate_pick_up(brick, Some(brick));
    world.initiate_pick_up(5, Some(brick));
    assert_eq!(world.objects[brick].held_by, None);
    world.objects[player].camera_target = None;
    world.initiate_pick_up(player, Some(brick));
    assert_eq!(world.objects[brick].held_by, None);
    assert_eq!(world.objects[player].picker, Some(Picker::default()));
    world.objects[player].camera_target = Some(CameraTarget);
    world.objects[player].facing = None;
    world.initiate_pick_up(player, Some(brick));
    assert_eq!(world.objects[brick].held_by, None);
}

#[test]
fn a_second_input_puts_the_object_down_on_the_side_faced() {
    let (mut world, player, brick) = player_and_brick();
    let other = world.spawn(Object::brick(body_at(-1000, 0), pickable()));
    world.initiate_pick_up(player, Some(brick));
    world.objects[player].picker = Some(Picker { holding: Some(brick), immobilized: false });
    world.set_facing(player, PlayerFacing::Left);
    world.initiate_pick_up(player, Some(other));
    assert_eq!(world.objects[brick].held_status, Some(HeldStatus::Placed(Vec2::new(-1000, 0))));
    assert_eq!(world.objects[brick].held_by, Some(HeldBy(player)));
    assert_eq!(world.objects[player].picker, Some(Picker { holding: Some(brick), immobilized: true }));
    // no new grasp in this call
    assert_eq!(world.objects[other].held_by, None);
    assert_eq!(world.objects[other].held_status, None);
}

#[test]
fn a_hold_on_a_missing_object_is_forgotten() {
    let (mut world, player, brick) = player_and_brick();
    world.objects[player].picker = Some(Picker { holding: Some(77), immobilized: true });
    world.initiate_pick_up(player, None);
    assert_eq!(world.objects[player].picker, Some(Picker::default()));
    world.objects[player].picker = Some(Picker { holding: Some(77), immobilized: true });
    world.initiate_pick_up(player, Some(brick));
    assert_eq!(world.objects[player].picker, Some(Picker { holding: Some(brick), immobilized: true }));
    assert_eq!(world.objects[brick].held_by, Some(HeldBy(player)));
}

#[test]
fn a_hold_on_an_object_held_by_another_is_forgotten() {
    let (mut world, player, brick) = player_and_brick();
    let rival = world.spawn(Object::player(body_at(3000, 0)));
    world.initiate_pick_up(rival, Some(brick));
    world.objects[player].picker = Some(Picker { holding: Some(brick), immobilized: true });
    world.initiate_pick_up(player, Some(brick));
    assert_eq!(world.objects[player].picker, Some(Picker::default()));
    assert_eq!(world.objects[brick].held_by, Some(HeldBy(rival)));
    assert_eq!(world.objects[brick].held_status, Some(HeldStatus::Lifted));
    assert_eq!(world.objects[rival].picker, Some(Picker { holding: Some(brick), immobilized: true }));
}

#[test]
fn a_hold_on_an_object_without_the_records_of_a_hold_is_forgotten() {
    let (mut world, player, brick) = player_and_brick();
    world.objects[player].picker = Some(Picker { holding: Some(brick), immobilized: true });
    world.initiate_pick_up(player, None);
    assert_eq!(world.objects[player].picker, Some(Picker::default()));
}

// Of two pickers that reach for the same object, the first holds it.
#[test]
fn the_first_of_two_pickers_wins() {
    let (mut world, player, brick) = player_and_brick();
    let rival = world.spawn(Object::player(body_at(2000, 0)));
    world.initiate_pick_up(player, Some(brick));
    world.initiate_pick_up(rival, Some(brick));
    assert_eq!(world.objects[brick].held_by, Some(HeldBy(player)));
    assert_eq!(world.objects[player].picker.unwrap().holding, Some(brick));
    assert_eq!(world.objects[rival].picker, Some(Picker::default()));
    let holders = world
        .objects
        .iter()
        .filter(|object| object.picker.is_some_and(|picker| picker.holding == Some(brick)))
        .count();
    assert_eq!(holders, 1);
}

#[test]
fn a_step_without_duration_changes_nothing() {
    let (mut world, player, brick) = player_and_brick();
    world.initiate_pick_up(player, Some(brick));
    let before = world.objects[brick].body;
    world.apply_forces_to_held_objects(0, GRAVITY);
    assert_eq!(world.objects[brick].body, before);
    assert_eq!(world.objects[brick].held_status, Some(HeldStatus::Lifted));
}

#[test]
fn what_is_not_held_is_not_steered() {
    let (mut world, player, brick) = player_and_brick();
    let before = world.objects[brick].body;
    world.apply_forces_to_held_objects(STEP, GRAVITY);
    assert_eq!(world.objects[brick].body, before);
    assert_eq!(world.objects[player].body, body_at(0, 0));
}

#[test]
fn a_lifted_object_is_driven_straight_up_with_its_gravity_cancelled() {
    let (mut world, player, brick) = player_and_brick();
    world.initiate_pick_up(player, Some(brick));
    let mut tilted = body_at(1000, 0);
    tilted.rotation.radians = 100;
    world.set_body(brick, tilted);
    world.apply_forces_to_held_objects(STEP, GRAVITY);
    // target (0, 5000); gravity 9.81 * scale 5 * mass 10 = 490.5 to cancel
    assert_eq!(world.objects[brick].body.force, WideVec2 { x: 0, y: 490_500 + 100_000 });
    assert_eq!(world.objects[brick].body.angular_velocity, -1_000);
    assert_eq!(world.objects[brick].held_status, Some(HeldStatus::Lifted));
    assert_eq!(world.objects[player].picker, Some(Picker { holding: Some(brick), immobilized: true }));
}

#[test]
fn a_lifted_object_at_its_target_is_carried_and_the_picker_may_move() {
    let (mut world, player, brick) = player_and_brick();
    world.initiate_pick_up(player, Some(brick));
    world.set_body(brick, body_at(100, 4900));
    world.apply_forces_to_held_objects(STEP, GRAVITY);
    assert_eq!(world.objects[brick].held_status, Some(HeldStatus::Carried));
    assert_eq!(world.objects[brick].held_by, Some(HeldBy(player)));
    assert_eq!(world.objects[player].picker, Some(Picker { holding: Some(brick), immobilized: false }));
    assert_eq!(world.objects[brick].body.force, WideVec2 { x: -1_000, y: 490_500 + 1_000 });
}

#[test]
fn a_carried_object_follows_the_moving_picker() {
    let (mut world, player, brick) = player_and_brick();
    world.initiate_pick_up(player, Some(brick));
    world.objects[brick].held_status = Some(HeldStatus::Carried);
    let mut walking = body_at(0, 0);
    walking.linear_velocity = Vec2::new(20_000, 0);
    world.set_body(player, walking);
    world.set_body(brick, body_at(-200, 5000));
    world.apply_forces_to_held_objects(STEP, Vec2::zero());
    // half of 0.2 units in a tenth of a second, plus the picker's 20 units a second
    assert_eq!(world.objects[brick].body.force, WideVec2 { x: 210_000, y: 0 });
    // carrying ends only by another input or a collision
    assert_eq!(world.objects[brick].held_status, Some(HeldStatus::Carried));
    world.set_body(brick, body_at(0, 5000));
    world.apply_forces_to_held_objects(STEP, Vec2::zero());
    assert_eq!(world.objects[brick].held_status, Some(HeldStatus::Carried));
    assert_eq!(world.objects[player].picker.unwrap().holding, Some(brick));
}

#[test]
fn a_placed_object_at_its_target_is_released_whole() {
    let (mut world, player, brick) = player_and_brick();
    world.initiate_pick_up(player, Some(brick));
    world.initiate_pick_up(player, None);
    assert_eq!(world.objects[brick].held_status, Some(HeldStatus::Placed(Vec2::new(1000, 0))));
    // target (1500, 0 + 2000 - 1000)
    let mut arriving = body_at(1500, 1100);
    arriving.linear_velocity = Vec2::new(0, -3_000);
    world.set_body(brick, arriving);
    world.apply_forces_to_held_objects(STEP, GRAVITY);
    assert_eq!(world.objects[brick].held_by, None);
    assert_eq!(world.objects[brick].held_status, None);
    assert_eq!(world.objects[brick].body.linear_velocity, Vec2::zero());
    assert_eq!(world.objects[brick].body.force, WideVec2::zero());
    assert_eq!(world.objects[player].picker, Some(Picker::default()));
    // released, the brick can be picked again
    assert!(world.can_pick(brick));
}

#[test]
fn a_placed_object_short_of_its_target_stays_held() {
    let (mut world, player, brick) = player_and_brick();
    world.initiate_pick_up(player, Some(brick));
    world.initiate_pick_up(player, None);
    world.set_body(brick, body_at(1500, 3000));
    world.apply_forces_to_held_objects(STEP, Vec2::zero());
    assert_eq!(world.objects[brick].held_status, Some(HeldStatus::Placed(Vec2::new(1000, 0))));
    assert_eq!(world.objects[brick].held_by, Some(HeldBy(player)));
    // the way is (0, -2000): nothing left along the direction, so straight down
    assert_eq!(world.objects[brick].body.force, WideVec2 { x: 0, y: -100_000 });
    assert_eq!(world.objects[player].picker, Some(Picker { holding: Some(brick), immobilized: true }));
}

#[test]
fn an_object_whose_holder_is_no_picker_is_let_go() {
    let (mut world, _, brick) = player_and_brick();
    let other = world.spawn(Object::brick(body_at(5000, 0), None));
    world.objects[brick].held_by = Some(HeldBy(other));
    world.objects[brick].held_status = Some(HeldStatus::Carried);
    world.apply_forces_to_held_objects(STEP, GRAVITY);
    assert_eq!(world.objects[brick].held_by, None);
    assert_eq!(world.objects[brick].held_status, None);
    assert_eq!(world.objects[brick].body.force, WideVec2 { x: 0, y: 490_500 });
    world.objects[brick].held_by = Some(HeldBy(1234));
    world.objects[brick].held_status = Some(HeldStatus::Lifted);
    world.apply_forces_to_held_objects(STEP, GRAVITY);
    assert_eq!(world.objects[brick].held_by, None);
    assert_eq!(world.objects[brick].held_status, None);
}

#[test]
fn every_held_object_is_steered_in_one_step() {
    let mut world = World::new();
    let first = world.spawn(Object::player(body_at(0, 0)));
    let second = world.spawn(Object::player(body_at(10_000, 0)));
    let a = world.spawn(Object::brick(body_at(1000, 0), pickable()));
    let b = world.spawn(Object::brick(body_at(11_000, 0), pickable()));
    world.initiate_pick_up(first, Some(a));
    world.initiate_pick_up(second, Some(b));
    world.set_body(b, body_at(10_000, 5000));
    world.apply_forces_to_held_objects(STEP, Vec2::zero());
    assert_eq!(world.objects[a].body.force, WideVec2 { x: 0, y: 100_000 });
    assert_eq!(world.objects[a].held_status, Some(HeldStatus::Lifted));
    assert_eq!(world.objects[b].held_status, Some(HeldStatus::Carried));
    assert_eq!(world.objects[first].picker, Some(Picker { holding: Some(a), immobilized: true }));
    assert_eq!(world.objects[second].picker, Some(Picker { holding: Some(b), immobilized: false }));
}
