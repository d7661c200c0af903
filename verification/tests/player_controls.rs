use time_to_topple::player::PlayerFacing;
use time_to_topple::player_controls::apply_controls;
use time_to_topple::player_controls::Controls;
use time_to_topple::player_controls::CLING_DISTANCE;
use time_to_topple::player_controls::FLOAT_HEIGHT;
use time_to_topple::player_controls::JUMP_HEIGHT;
use time_to_topple::player_controls::RUN_SPEED;

#[test]
fn the_player_runs_at_twenty_units_a_second() {
    assert_eq!(RUN_SPEED, 20);
    assert_eq!(apply_controls(PlayerFacing::Right, 1000, false).desired_velocity, 20_000);
    assert_eq!(apply_controls(PlayerFacing::Right, -500, false).desired_velocity, -10_000);
    assert_eq!(apply_controls(PlayerFacing::Left, 0, false).desired_velocity, 0);
    assert_eq!(apply_controls(PlayerFacing::Left, i32::MIN, false).desired_velocity, 20 * (i32::MIN as i64));
}

#[test]
fn the_player_turns_to_the_side_run_to() {
    assert_eq!(apply_controls(PlayerFacing::Right, -100, false).facing, PlayerFacing::Left);
    assert_eq!(apply_controls(PlayerFacing::Right, -99, false).facing, PlayerFacing::Right);
    assert_eq!(apply_controls(PlayerFacing::Left, 100, false).facing, PlayerFacing::Right);
    assert_eq!(apply_controls(PlayerFacing::Left, 99, false).facing, PlayerFacing::Left);
    assert_eq!(apply_controls(PlayerFacing::Left, 0, true).facing, PlayerFacing::Left);
    assert_eq!(apply_controls(PlayerFacing::Left, -1000, true).facing, PlayerFacing::Left);
}

#[test]
fn the_jump_is_passed_on() {
    assert_eq!(
        apply_controls(PlayerFacing::Right, 300, true),
        Controls { desired_velocity: 6_000, facing: PlayerFacing::Right, jump: true }
    );
    assert!(!apply_controls(PlayerFacing::Right, 300, false).jump);
}

#[test]
fn the_measures_of_the_walk() {
    assert_eq!(FLOAT_HEIGHT, 1500);
    assert_eq!(CLING_DISTANCE, 500);
    assert_eq!(JUMP_HEIGHT, 5000);
}
