use bevy::time::Timer;
use bevy::time::TimerMode;
use std::time::Duration;
use time_to_topple::body::Body;
use time_to_topple::fixed::Vec2;
use time_to_topple::game::AppState;
use time_to_topple::game::GameOverReason;
use time_to_topple::topple_detection::Toppleable;
use time_to_topple::topple_detection::Verdict;
use time_to_topple::world::Object;
use time_to_topple::world::World;

fn body() -> Body {
    Body::at_rest(Vec2::new(0, 0), 10_000, 5_000)
}

/// A player that the camera follows, and one piece in each of the given states.
fn world_with(states: Vec<Toppleable>) -> (World, usize, Vec<usize>) {
    let mut world = World::new();
    let player = world.spawn(Object::player(body()));
    let mut pieces = Vec::new();
    for state in states {
        let piece = world.spawn(Object::brick(body(), None));
        world.set_toppleable(piece, Some(state));
        pieces.push(piece);
    }
    (world, player, pieces)
}

fn camera_targets(world: &World) -> Vec<usize> {
    (0..world.len()).filter(|handle| world.objects[*handle].camera_target.is_some()).collect()
}

// Stopped, standing, out, and nothing falling: the chain has stalled.
#[test]
fn outcome_correctness_scenario() {
    let (mut world, player, pieces) =
        world_with(vec![Toppleable::Stopped, Toppleable::Standing, Toppleable::FellOut]);
    assert_eq!(camera_targets(&world), vec![player]);
    assert_eq!(world.verdict(), Verdict::Stalled { standing: pieces[1], count: 1 });
    world.detect_finish();
    assert_eq!(camera_targets(&world), vec![pieces[1]]);
    assert_eq!(world.game_over_reason, GameOverReason::TilesStillStanding(1));
    assert_eq!(world.next_state, Some(AppState::GameOver));
}

// Stopped, out, stopped: the chain has resolved.
#[test]
fn full_completion_scenario() {
    let (mut world, player, _) = world_with(vec![Toppleable::Stopped, Toppleable::FellOut, Toppleable::Stopped]);
    assert_eq!(world.verdict(), Verdict::Completed);
    world.detect_finish();
    assert_eq!(world.next_state, Some(AppState::LevelCompleted));
    assert_eq!(world.game_over_reason, GameOverReason::Unset);
    assert_eq!(camera_targets(&world), vec![player]);
}

// Stopped, falling with 0.4 s left, standing: the reaction goes on.
#[test]
fn in_progress_scenario() {
    let mut immobile_timer = Timer::from_seconds(1.0, TimerMode::Once);
    immobile_timer.tick(Duration::from_millis(600));
    assert_eq!(immobile_timer.remaining(), Duration::from_millis(400));
    let (mut world, player, pieces) =
        world_with(vec![Toppleable::Stopped, Toppleable::Falling { immobile_timer }, Toppleable::Standing]);
    assert_eq!(world.verdict(), Verdict::InProgress);
    world.detect_finish();
    assert_eq!(world.next_state, None);
    assert_eq!(world.game_over_reason, GameOverReason::Unset);
    assert_eq!(camera_targets(&world), vec![player]);
    assert!(matches!(world.objects[pieces[0]].toppleable, Some(Toppleable::Stopped)));
    assert_eq!(world.objects[pieces[1]].toppleable.as_ref().unwrap().still_for(), Some(600_000_000));
    assert!(matches!(world.objects[pieces[2]].toppleable, Some(Toppleable::Standing)));
}

#[test]
fn while_all_stand_nothing_has_happened() {
    let (mut world, player, _) = world_with(vec![Toppleable::Standing, Toppleable::Standing]);
    assert_eq!(world.verdict(), Verdict::NotTriggered);
    world.detect_finish();
    assert_eq!(world.next_state, None);
    assert_eq!(world.game_over_reason, GameOverReason::Unset);
    assert_eq!(camera_targets(&world), vec![player]);
}

#[test]
fn without_pieces_nothing_has_happened() {
    let (mut world, _, _) = world_with(Vec::new());
    assert_eq!(world.verdict(), Verdict::NotTriggered);
    world.detect_finish();
    assert_eq!(world.next_state, None);
    let mut empty = World::new();
    assert_eq!(empty.verdict(), Verdict::NotTriggered);
    empty.detect_finish();
    assert_eq!(empty.next_state, None);
}

#[test]
fn a_falling_piece_outweighs_everything() {
    let (world, _, _) = world_with(vec![
        Toppleable::Standing,
        Toppleable::FellOut,
        Toppleable::Stopped,
        Toppleable::falling(),
    ]);
    assert_eq!(world.verdict(), Verdict::InProgress);
    let (only, _, _) = world_with(vec![Toppleable::falling()]);
    assert_eq!(only.verdict(), Verdict::InProgress);
}

#[test]
fn the_camera_turns_to_the_first_piece_that_still_stands() {
    let (mut world, _, pieces) = world_with(vec![
        Toppleable::FellOut,
        Toppleable::Standing,
        Toppleable::Stopped,
        Toppleable::Standing,
        Toppleable::Standing,
    ]);
    assert_eq!(world.verdict(), Verdict::Stalled { standing: pieces[1], count: 3 });
    world.detect_finish();
    assert_eq!(camera_targets(&world), vec![pieces[1]]);
    assert_eq!(world.game_over_reason, GameOverReason::TilesStillStanding(3));
    assert_eq!(world.next_state, Some(AppState::GameOver));
}

#[test]
fn a_single_fallen_out_piece_completes_the_level() {
    let (mut world, _, _) = world_with(vec![Toppleable::FellOut]);
    world.detect_finish();
    assert_eq!(world.next_state, Some(AppState::LevelCompleted));
}

#[test]
fn a_player_below_the_lowest_height_has_fallen() {
    let mut world = World::new();
    let player = world.spawn(Object::player(Body::at_rest(Vec2::new(0, -7000), 10_000, 5_000)));
    world.spawn(Object::brick(Body::at_rest(Vec2::new(0, -90_000), 10_000, 5_000), None));
    world.kill_player_when_they_fall(None);
    assert_eq!(world.next_state, None);
    world.kill_player_when_they_fall(Some(-7000));
    assert_eq!(world.next_state, None);
    assert_eq!(world.game_over_reason, GameOverReason::Unset);
    world.kill_player_when_they_fall(Some(-6999));
    assert_eq!(world.next_state, Some(AppState::GameOver));
    assert_eq!(world.game_over_reason, GameOverReason::PlayerFell);
    assert!(world.objects[player].camera_target.is_some());
}

#[test]
fn the_reason_is_forgotten_when_a_round_begins() {
    let mut reason = GameOverReason::TilesStillStanding(4);
    reason.reset_when_gameplay_starts();
    assert_eq!(reason, GameOverReason::Unset);
    let mut fell = GameOverReason::PlayerFell;
    fell.reset_when_gameplay_starts();
    assert_eq!(fell, GameOverReason::Unset);
}
