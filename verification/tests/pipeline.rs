use time_to_topple::body::Body;
use time_to_topple::fixed::Vec2;
use time_to_topple::game::AppState;
use time_to_topple::game::GameOverReason;
use time_to_topple::picking_up::HeldBy;
use time_to_topple::picking_up::HeldStatus;
use time_to_topple::picking_up::Pickable;
use time_to_topple::picking_up::Picker;
use time_to_topple::pipeline::TickInput;
use time_to_topple::topple_detection::Toppleable;
use time_to_topple::world::Object;
use time_to_topple::world::World;

fn body_at(x: i32, y: i32) -> Body {
    Body::at_rest(Vec2::new(x, y), 10_000, 5_000)
}

fn input(collisions: Vec<(usize, usize)>) -> TickInput {
    TickInput { step: 100_000_000, gravity: Vec2::new(0, -9_810), collisions, lowest_y: Some(-50_000) }
}

fn camera_targets(world: &World) -> Vec<usize> {
    (0..world.len()).filter(|handle| world.objects[*handle].camera_target.is_some()).collect()
}

/// Every object carries both records of a hold or neither, and pickers and
/// held objects name each other.
fn holds_agree(world: &World) -> bool {
    world.objects.iter().enumerate().all(|(handle, object)| {
        let paired = object.held_by.is_some() == object.held_status.is_some();
        let held = match object.held_by {
            Some(HeldBy(holder)) => world
                .objects
                .get(holder)
                .and_then(|other| other.picker)
                .is_some_and(|picker| picker.holding == Some(handle)),
            None => true,
        };
        let holds = match object.picker {
            Some(Picker { holding: Some(held), .. }) => {
                world.objects.get(held).is_some_and(|other| other.held_by == Some(HeldBy(handle)))
            }
            _ => true,
        };
        paired && held && holds
    })
}

#[test]
fn a_round_from_the_grasp_to_the_end() {
    let mut world = World::new();
    let player = world.spawn(Object::player(body_at(0, 0)));
    let brick = world.spawn(Object::brick(body_at(1000, 0), Some(Pickable { hold_at_offset: Vec2::new(0, -2000) })));
    let floor = world.spawn(Object::scenery(body_at(0, -2500)));
    let domino = world.spawn(Object::brick(body_at(4000, 0), None));

    // the grasp; the brick rests on the floor
    world.initiate_pick_up(player, Some(brick));
    world.tick(&input(vec![(brick, floor), (player, floor), (domino, floor)]));
    assert!(holds_agree(&world));
    assert_eq!(world.objects[brick].held_status, Some(HeldStatus::Lifted));
    assert_eq!(world.objects[brick].initial_collisions.as_ref().unwrap().still_touching(floor), Some(true));
    assert_eq!(camera_targets(&world), vec![player]);
    assert_eq!(world.next_state, None);

    // lifted off the floor and up to the carrying height
    world.set_body(brick, body_at(0, 5000));
    world.tick(&input(vec![(player, floor), (domino, floor)]));
    assert!(holds_agree(&world));
    assert_eq!(world.objects[brick].held_status, Some(HeldStatus::Carried));
    assert_eq!(world.objects[player].picker, Some(Picker { holding: Some(brick), immobilized: false }));
    assert_eq!(world.objects[brick].initial_collisions.as_ref().unwrap().still_touching(floor), Some(false));

    // carried into the domino: the hold breaks, and the snapshot goes a tick later
    world.tick(&input(vec![(brick, domino), (player, floor), (domino, floor)]));
    assert!(holds_agree(&world));
    assert_eq!(world.objects[brick].held_by, None);
    assert_eq!(world.objects[brick].held_status, None);
    assert_eq!(world.objects[player].picker, Some(Picker::default()));
    assert!(world.objects[brick].initial_collisions.is_some());
    world.tick(&input(vec![(player, floor), (domino, floor)]));
    assert!(world.objects[brick].initial_collisions.is_none());
    assert_eq!(world.next_state, None);

    // both pieces tip over
    let mut tipping = body_at(4000, 0);
    tipping.rotation.sin = 600;
    tipping.angular_velocity = 2_000;
    world.set_body(domino, tipping);
    let mut dropped = body_at(3000, 0);
    dropped.rotation.sin = -800;
    dropped.linear_velocity = Vec2::new(0, -4_000);
    world.set_body(brick, dropped);
    world.tick(&input(vec![(player, floor), (domino, floor), (brick, floor)]));
    assert!(matches!(world.objects[domino].toppleable, Some(Toppleable::Falling { .. })));
    assert!(matches!(world.objects[brick].toppleable, Some(Toppleable::Falling { .. })));
    assert_eq!(camera_targets(&world), vec![domino]);
    assert_eq!(world.next_state, None);
    assert_eq!(world.pick_up_probe(player), None);

    // they come to rest
    tipping.angular_velocity = 0;
    dropped.linear_velocity = Vec2::zero();
    world.set_body(domino, tipping);
    world.set_body(brick, dropped);
    for _ in 0..9 {
        world.tick(&input(vec![(player, floor), (domino, floor), (brick, floor)]));
        assert_eq!(world.next_state, None);
        assert_eq!(camera_targets(&world), vec![domino]);
    }
    world.tick(&input(vec![(player, floor), (domino, floor), (brick, floor)]));
    assert!(matches!(world.objects[domino].toppleable, Some(Toppleable::Stopped)));
    assert!(matches!(world.objects[brick].toppleable, Some(Toppleable::Stopped)));
    assert_eq!(world.next_state, Some(AppState::LevelCompleted));
    assert_eq!(world.game_over_reason, GameOverReason::Unset);
    assert_eq!(camera_targets(&world), vec![domino]);
}

#[test]
fn a_chain_that_stalls_loses_the_level() {
    let mut world = World::new();
    let player = world.spawn(Object::player(body_at(0, 0)));
    let first = world.spawn(Object::brick(body_at(2000, 0), None));
    let second = world.spawn(Object::brick(body_at(4000, 0), None));
    let third = world.spawn(Object::brick(body_at(6000, 0), None));
    let mut down = body_at(2000, -60_000);
    down.rotation.sin = 1000;
    world.set_body(first, down);
    // the tracker sees the first piece tip, then the fall-out check takes it
    world.tick(&input(Vec::new()));
    assert!(matches!(world.objects[first].toppleable, Some(Toppleable::FellOut)));
    assert_eq!(world.next_state, Some(AppState::GameOver));
    assert_eq!(world.game_over_reason, GameOverReason::TilesStillStanding(2));
    assert_eq!(camera_targets(&world), vec![second]);
    assert!(matches!(world.objects[third].toppleable, Some(Toppleable::Standing)));
    assert!(world.objects[player].camera_target.is_none());
}

#[test]
fn without_ground_nothing_falls_out() {
    let mut world = World::new();
    world.spawn(Object::player(body_at(0, 0)));
    let piece = world.spawn(Object::brick(body_at(0, -900_000), None));
    let mut no_ground = input(Vec::new());
    no_ground.lowest_y = None;
    world.tick(&no_ground);
    assert!(matches!(world.objects[piece].toppleable, Some(Toppleable::Standing)));
    assert_eq!(world.next_state, None);
}

#[test]
fn a_tick_of_an_empty_world() {
    let mut world = World::new();
    world.tick(&input(vec![(0, 1)]));
    assert_eq!(world.len(), 0);
    assert_eq!(world.next_state, None);
    assert_eq!(world.game_over_reason, GameOverReason::Unset);
}
