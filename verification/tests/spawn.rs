use pong::ball::{spawn_ball, Ball, BALL_COUNT, BALL_SIZE, BALL_SPACING, BALL_SPEED};
use pong::paddles::{setup_paddles_config, spawn_paddles};
use pong::units::{Colour, Vector2, UNIT};
use pong::world::{Entity, World};

fn ball_heights(world: &World) -> Vec<i32> {
    let mut heights = Vec::new();
    for id in 0..world.len() {
        if let Some(ball) = world.ball(id) {
            heights.push(ball.position.y);
        }
    }
    heights
}

#[test]
fn constants_are_in_thousandths_of_a_unit() {
    assert_eq!(UNIT, 1000);
    assert_eq!(BALL_SPEED, 500 * UNIT);
    assert_eq!(BALL_SIZE, 20 * UNIT);
    assert_eq!(BALL_SPACING, 40 * UNIT);
    assert_eq!(BALL_COUNT, 1);
}

#[test]
fn one_ball_is_spawned_at_the_origin() {
    let mut world = World::new();
    spawn_ball(&mut world, 1);
    assert_eq!(world.len(), 1);
    let ball = world.ball(0).unwrap();
    assert_eq!(ball.position, Vector2 { x: 0, y: 0 });
}

#[test]
fn two_balls_are_spawned_twenty_units_either_side_of_the_middle() {
    let mut world = World::new();
    spawn_ball(&mut world, 2);
    assert_eq!(ball_heights(&world), vec![-20_000, 20_000]);
}

#[test]
fn three_balls_are_spawned_forty_units_apart_round_the_middle() {
    let mut world = World::new();
    spawn_ball(&mut world, 3);
    assert_eq!(ball_heights(&world), vec![-40_000, 0, 40_000]);
    for id in 0..3 {
        assert_eq!(world.ball(id).unwrap().position.x, 0);
    }
}

#[test]
fn four_balls_follow_the_same_rule() {
    let mut world = World::new();
    spawn_ball(&mut world, 4);
    assert_eq!(ball_heights(&world), vec![-60_000, -20_000, 20_000, 60_000]);
}

#[test]
fn the_default_count_spawns_one_ball() {
    let mut world = World::new();
    spawn_ball(&mut world, BALL_COUNT);
    assert_eq!(ball_heights(&world), vec![0]);
}

#[test]
fn a_count_below_one_spawns_nothing() {
    let mut world = World::new();
    spawn_ball(&mut world, 0);
    assert_eq!(world.len(), 0);
    spawn_ball(&mut world, -3);
    assert_eq!(world.len(), 0);
    spawn_ball(&mut world, i16::MIN);
    assert_eq!(world.len(), 0);
}

#[test]
fn a_spawned_ball_carries_its_physical_properties() {
    let mut world = World::new();
    spawn_ball(&mut world, 1);
    let expected = Ball {
        position: Vector2 { x: 0, y: 0 },
        velocity: Vector2 { x: 3000, y: 0 },
        size: Vector2 { x: 20_000, y: 20_000 },
        colour: Colour { red: 900, green: 900, blue: 900, alpha: 1000 },
        restitution: 1000,
        friction: 0,
        gravity_scale: 0,
        rotation_locked: true,
        collision_events: true,
        ends_with_game: true,
    };
    assert_eq!(world.entities, vec![Entity::Ball(expected)]);
}

#[test]
fn balls_are_added_behind_what_the_world_holds_already() {
    let mut world = World::new();
    let config = setup_paddles_config();
    spawn_paddles(&mut world, &config);
    let before = world.clone();
    spawn_ball(&mut world, 2);
    assert_eq!(world.len(), 4);
    assert_eq!(world.entities[..2], before.entities[..]);
    assert!(world.paddle(0).is_some());
    assert!(world.paddle(1).is_some());
    assert_eq!(world.ball(2).unwrap().position.y, -20_000);
    assert_eq!(world.ball(3).unwrap().position.y, 20_000);
}

#[test]
fn the_largest_stack_fits() {
    let mut world = World::new();
    spawn_ball(&mut world, i16::MAX);
    assert_eq!(world.len(), 32_767);
    assert_eq!(world.ball(0).unwrap().position.y, -655_320_000);
    assert_eq!(world.ball(32_766).unwrap().position.y, 655_320_000);
    assert_eq!(world.ball(16_383).unwrap().position.y, 0);
}

#[test]
fn a_spawned_stack_is_centred_on_the_middle() {
    for count in 1..40i16 {
        let mut world = World::new();
        spawn_ball(&mut world, count);
        let heights = ball_heights(&world);
        assert_eq!(heights.len(), count as usize);
        let sum: i64 = heights.iter().map(|y| *y as i64).sum();
        assert_eq!(sum, 0);
        for pair in heights.windows(2) {
            assert_eq!(pair[1] - pair[0], BALL_SPACING);
        }
    }
}
