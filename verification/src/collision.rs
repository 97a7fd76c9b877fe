//! How a paddle deflects a ball: the bounce law, and the handling of the
//! collision events that the physics engine reports.

use vstd::prelude::*;
use crate::ball::{Ball, BALL_SPEED};
use crate::paddles::{PaddleEntity, PaddlesConfig};
use crate::units::{Vector2, UNIT};
use crate::world::{is_ball, is_paddle, same_but_ball_velocities, Entity, World};

verus! {

/// The horizontal sense in which a ball with horizontal velocity `vx` travels:
/// 1 towards the right, -1 towards the left. A ball without horizontal motion
/// counts as travelling towards the right.
pub open spec fn heading(vx: int) -> int {
    if vx >= 0 {
        1
    } else {
        -1
    }
}

/// The vertical part of the direction in which a ball leaves a paddle, in
/// thousandths: the offset `y_diff` of the ball's centre from the paddle's
/// centre, as a fraction of the paddle's height, rounded towards zero and held
/// within half a unit either way.
pub open spec fn deflection(y_diff: int, paddle_height: int) -> int {
    let offset = if y_diff >= 0 {
        y_diff
    } else {
        -y_diff
    };
    let scaled = UNIT * offset / paddle_height;
    let reach = if scaled > UNIT / 2 {
        UNIT / 2
    } else {
        scaled
    };
    if y_diff >= 0 {
        reach
    } else {
        -reach
    }
}

/// The direction in which a ball leaves a paddle, in thousandths. What the
/// vertical part takes, the horizontal part gives up; the horizontal sense is
/// the one in which the ball travelled before.
pub open spec fn direction_after_bounce(y_diff: int, paddle_height: int, vx: int) -> Vector2 {
    let y = deflection(y_diff, paddle_height);
    let across = if y >= 0 {
        UNIT - y
    } else {
        UNIT + y
    };
    Vector2 {
        x: if vx >= 0 {
            across as i32
        } else {
            (-across) as i32
        },
        y: y as i32,
    }
}

/// The velocity with which a ball leaves a paddle: its direction after the
/// bounce, at the speed of a ball.
pub open spec fn velocity_after_bounce(y_diff: int, paddle_height: int, vx: int) -> Vector2 {
    let direction = direction_after_bounce(y_diff, paddle_height, vx);
    Vector2 {
        x: (direction.x * (BALL_SPEED / UNIT)) as i32,
        y: (direction.y * (BALL_SPEED / UNIT)) as i32,
    }
}

/// A deflection never exceeds half a unit, and it points to the side of the
/// paddle's centre on which the ball hit.
pub proof fn lemma_deflection_bounds(y_diff: int, paddle_height: int)
    requires
        paddle_height > 0,
    ensures
        -UNIT / 2 <= deflection(y_diff, paddle_height) <= UNIT / 2,
        y_diff >= 0 ==> deflection(y_diff, paddle_height) >= 0,
        y_diff <= 0 ==> deflection(y_diff, paddle_height) <= 0,
{
    let offset = if y_diff >= 0 {
        y_diff
    } else {
        -y_diff
    };
    assert(UNIT * offset / paddle_height >= 0) by (nonlinear_arith)
        requires
            offset >= 0,
            paddle_height > 0,
    ;
}

/// The direction in which a ball leaves a paddle that it hit `ball_y -
/// paddle_y` above the paddle's centre.
pub fn bounce_direction(ball_y: i32, paddle_y: i32, paddle_height: i32, previous_vx: i32) -> (direction: Vector2)
    requires
        paddle_height > 0,
    ensures
        direction == direction_after_bounce(
            ball_y - paddle_y,
            paddle_height as int,
            previous_vx as int,
        ),
        -UNIT / 2 <= direction.y <= UNIT / 2,
        previous_vx >= 0 ==> direction.x >= UNIT / 2,
        previous_vx < 0 ==> direction.x <= -UNIT / 2,
{
    let y_diff: i64 = ball_y as i64 - paddle_y as i64;
    let offset: u64 = if y_diff >= 0 {
        y_diff as u64
    } else {
        (-y_diff) as u64
    };
    assert(UNIT * offset <= 0x3E8_0000_0000) by (nonlinear_arith)
        requires
            UNIT == 1000,
            offset <= 0x1_0000_0000,
    ;
    let scaled: u64 = (UNIT as u64) * offset / (paddle_height as u64);
    let reach: i32 = if scaled > (UNIT as u64) / 2 {
        UNIT / 2
    } else {
        scaled as i32
    };
    let y: i32 = if y_diff >= 0 {
        reach
    } else {
        -reach
    };
    let x: i32 = if previous_vx >= 0 {
        UNIT - reach
    } else {
        reach - UNIT
    };
    Vector2 { x, y }
}

/// The velocity with which a ball leaves a paddle that it hit `ball_y -
/// paddle_y` above the paddle's centre.
pub fn bounce_velocity(ball_y: i32, paddle_y: i32, paddle_height: i32, previous_vx: i32) -> (velocity: Vector2)
    requires
        paddle_height > 0,
    ensures
        velocity == velocity_after_bounce(
            ball_y - paddle_y,
            paddle_height as int,
            previous_vx as int,
        ),
        -BALL_SPEED / 2 <= velocity.y <= BALL_SPEED / 2,
        previous_vx >= 0 ==> velocity.x >= BALL_SPEED / 2,
        previous_vx < 0 ==> velocity.x <= -BALL_SPEED / 2,
{
    let direction = bounce_direction(ball_y, paddle_y, paddle_height, previous_vx);
    Vector2 { x: direction.x * (BALL_SPEED / UNIT), y: direction.y * (BALL_SPEED / UNIT) }
}

/// A ball that hits a paddle exactly at the height of its centre leaves it
/// level: the whole speed goes across, in the sense in which the ball travelled.
pub proof fn lemma_centre_hit_rebounds_level(paddle_height: int, vx: int)
    requires
        paddle_height > 0,
    ensures
        deflection(0, paddle_height) == 0,
        direction_after_bounce(0, paddle_height, vx) == (Vector2 {
            x: (heading(vx) * UNIT) as i32,
            y: 0,
        }),
        velocity_after_bounce(0, paddle_height, vx) == (Vector2 {
            x: (heading(vx) * BALL_SPEED) as i32,
            y: 0,
        }),
{
    assert(0int / paddle_height == 0) by (nonlinear_arith)
        requires
            paddle_height > 0,
    ;
    assert(BALL_SPEED / UNIT == 500);
}

/// A ball that hits a paddle at its edge or beyond it is deflected by exactly
/// half a unit, towards the side on which it hit; no hit deflects a ball more.
pub proof fn lemma_edge_hit_is_capped(y_diff: int, paddle_height: int)
    requires
        paddle_height > 0,
    ensures
        -UNIT / 2 <= deflection(y_diff, paddle_height) <= UNIT / 2,
        2 * y_diff >= paddle_height ==> deflection(y_diff, paddle_height) == UNIT / 2,
        2 * y_diff <= -paddle_height ==> deflection(y_diff, paddle_height) == -UNIT / 2,
{
    lemma_deflection_bounds(y_diff, paddle_height);
    let offset = if y_diff >= 0 {
        y_diff
    } else {
        -y_diff
    };
    if 2 * offset >= paddle_height {
        assert(1000 * offset / paddle_height >= 500) by (nonlinear_arith)
            requires
                paddle_height > 0,
                2 * offset >= paddle_height,
        ;
    }
}

/// A bounce never turns a ball round: it leaves the paddle towards the right
/// if it travelled towards the right (or not across at all) before, and
/// towards the left if it travelled towards the left.
pub proof fn lemma_bounce_keeps_heading(y_diff: int, paddle_height: int, vx: int)
    requires
        paddle_height > 0,
    ensures
        heading(direction_after_bounce(y_diff, paddle_height, vx).x as int) == heading(vx),
        heading(velocity_after_bounce(y_diff, paddle_height, vx).x as int) == heading(vx),
        velocity_after_bounce(y_diff, paddle_height, vx).x != 0,
{
    lemma_deflection_bounds(y_diff, paddle_height);
    assert(BALL_SPEED / UNIT == 500);
}

/// What the physics engine reports of two entities, named by their indices in
/// the world.
#[derive(Clone, Copy, Debug, PartialEq, Eq, Structural)]
pub enum CollisionEvent {
    /// The two entities have begun to touch.
    Started(usize, usize),
    /// The two entities have ceased to touch.
    Stopped(usize, usize),
}

/// Which of two colliding entities is the ball and which the paddle, the ball
/// first; `None` unless one is a ball and the other a paddle.
pub open spec fn ball_and_paddle(entities: Seq<Entity>, first: usize, second: usize) -> Option<
    (usize, usize),
> {
    if is_ball(entities, first as int) && is_paddle(entities, second as int) {
        Some((first, second))
    } else if is_ball(entities, second as int) && is_paddle(entities, first as int) {
        Some((second, first))
    } else {
        None
    }
}

/// The ball as it leaves the paddle: only its velocity is new.
pub open spec fn bounced(ball: Ball, paddle: PaddleEntity, paddles_config: PaddlesConfig) -> Ball {
    Ball {
        velocity: velocity_after_bounce(
            ball.position.y - paddle.position.y,
            paddles_config.height_of(paddle.side),
            ball.velocity.x as int,
        ),
        ..ball
    }
}

/// The world after one event. Only the end of a contact between a ball and a
/// paddle changes anything: that ball bounces.
pub open spec fn resolved(
    entities: Seq<Entity>,
    event: CollisionEvent,
    paddles_config: PaddlesConfig,
) -> Seq<Entity> {
    match event {
        CollisionEvent::Started(_, _) => entities,
        CollisionEvent::Stopped(first, second) => match ball_and_paddle(entities, first, second) {
            Some((ball_id, paddle_id)) => match (
                entities[ball_id as int],
                entities[paddle_id as int],
            ) {
                (Entity::Ball(ball), Entity::Paddle(paddle)) => entities.update(
                    ball_id as int,
                    Entity::Ball(bounced(ball, paddle, paddles_config)),
                ),
                _ => entities,
            },
            None => entities,
        },
    }
}

/// The world after a run of events, each resolved in the world that the ones
/// before it left.
pub open spec fn resolved_all(
    entities: Seq<Entity>,
    events: Seq<CollisionEvent>,
    paddles_config: PaddlesConfig,
) -> Seq<Entity>
    decreases events.len(),
{
    if events.len() == 0 {
        entities
    } else {
        resolved(
            resolved_all(entities, events.drop_last(), paddles_config),
            events.last(),
            paddles_config,
        )
    }
}

/// The beginning of a contact changes nothing: a run of events in which no
/// contact ends leaves the world as it was.
pub proof fn lemma_started_events_change_nothing(
    entities: Seq<Entity>,
    events: Seq<CollisionEvent>,
    paddles_config: PaddlesConfig,
)
    requires
        forall|i: int| 0 <= i < events.len() ==> events[i] is Started,
    ensures
        resolved_all(entities, events, paddles_config) == entities,
    decreases events.len(),
{
    if events.len() > 0 {
        lemma_started_events_change_nothing(entities, events.drop_last(), paddles_config);
    }
}

/// Resolving collisions moves nothing, adds nothing and removes nothing: the
/// paddles stay as they were, and of a ball only the velocity can change.
pub proof fn lemma_resolving_changes_only_ball_velocities(
    entities: Seq<Entity>,
    events: Seq<CollisionEvent>,
    paddles_config: PaddlesConfig,
)
    ensures
        same_but_ball_velocities(entities, resolved_all(entities, events, paddles_config)),
    decreases events.len(),
{
    if events.len() > 0 {
        lemma_resolving_changes_only_ball_velocities(
            entities,
            events.drop_last(),
            paddles_config,
        );
    }
}

/// Resolving collisions brings no ball to rest: a ball that was moving before
/// is moving afterwards.
pub proof fn lemma_resolving_keeps_balls_moving(
    entities: Seq<Entity>,
    events: Seq<CollisionEvent>,
    paddles_config: PaddlesConfig,
    id: int,
)
    requires
        paddles_config.wf(),
        is_ball(entities, id),
        entities[id]->Ball_0.velocity != (Vector2 { x: 0, y: 0 }),
    ensures
        is_ball(resolved_all(entities, events, paddles_config), id),
        resolved_all(entities, events, paddles_config)[id]->Ball_0.velocity != (Vector2 {
            x: 0,
            y: 0,
        }),
    decreases events.len(),
{
    if events.len() > 0 {
        lemma_resolving_keeps_balls_moving(entities, events.drop_last(), paddles_config, id);
        let before = resolved_all(entities, events.drop_last(), paddles_config);
        if let CollisionEvent::Stopped(first, second) = events.last() {
            if let Some((ball_id, paddle_id)) = ball_and_paddle(before, first, second) {
                if let (Entity::Ball(ball), Entity::Paddle(paddle)) = (
                    before[ball_id as int],
                    before[paddle_id as int],
                ) {
                    lemma_bounce_keeps_heading(
                        ball.position.y - paddle.position.y,
                        paddles_config.height_of(paddle.side),
                        ball.velocity.x as int,
                    );
                }
            }
        }
    }
}

/// Resolving collisions turns no ball round: every ball heads, after any run of
/// events, to the side to which it headed before.
pub proof fn lemma_resolving_keeps_headings(
    entities: Seq<Entity>,
    events: Seq<CollisionEvent>,
    paddles_config: PaddlesConfig,
    id: int,
)
    requires
        paddles_config.wf(),
        is_ball(entities, id),
    ensures
        is_ball(resolved_all(entities, events, paddles_config), id),
        heading(resolved_all(entities, events, paddles_config)[id]->Ball_0.velocity.x as int)
            == heading(entities[id]->Ball_0.velocity.x as int),
    decreases events.len(),
{
    if events.len() > 0 {
        lemma_resolving_keeps_headings(entities, events.drop_last(), paddles_config, id);
        let before = resolved_all(entities, events.drop_last(), paddles_config);
        if let CollisionEvent::Stopped(first, second) = events.last() {
            if let Some((ball_id, paddle_id)) = ball_and_paddle(before, first, second) {
                if let (Entity::Ball(ball), Entity::Paddle(paddle)) = (
                    before[ball_id as int],
                    before[paddle_id as int],
                ) {
                    lemma_bounce_keeps_heading(
                        ball.position.y - paddle.position.y,
                        paddles_config.height_of(paddle.side),
                        ball.velocity.x as int,
                    );
                }
            }
        }
    }
}

/// Tells which of two colliding entities is the ball and which the paddle.
pub fn pair_ball_and_paddle(world: &World, entity1: usize, entity2: usize) -> (pair: Option<
    (usize, usize),
>)
    ensures
        pair == ball_and_paddle(world@, entity1, entity2),
{
    if world.ball(entity1).is_some() && world.paddle(entity2).is_some() {
        Some((entity1, entity2))
    } else if world.ball(entity2).is_some() && world.paddle(entity1).is_some() {
        Some((entity2, entity1))
    } else {
        None
    }
}

/// Handles one collision event: when a ball and a paddle cease to touch, the
/// ball bounces; any other event leaves the world as it is.
pub fn resolve_collision(
    world: &mut World,
    collision_event: CollisionEvent,
    paddles_config: &PaddlesConfig,
)
    requires
        paddles_config.wf(),
    ensures
        final(world)@ == resolved(old(world)@, collision_event, *paddles_config),
        collision_event is Started ==> final(world)@ == old(world)@,
{
    let (entity1, entity2) = match collision_event {
        CollisionEvent::Stopped(e1, e2) => (e1, e2),
        CollisionEvent::Started(_, _) => {
            return ;
        },
    };
    let (ball_entity, paddle_entity) = match pair_ball_and_paddle(world, entity1, entity2) {
        Some(pair) => pair,
        None => {
            return ;
        },
    };
    let paddle = world.paddle(paddle_entity).unwrap();
    let paddle_size_y = paddles_config.paddle_height(paddle.side);
    let mut ball = world.ball(ball_entity).unwrap();
    ball.velocity = bounce_velocity(
        ball.position.y,
        paddle.position.y,
        paddle_size_y,
        ball.velocity.x,
    );
    world.entities[ball_entity] = Entity::Ball(ball);
}

/// Handles the collision events of one tick, in the order in which they were
/// reported.
pub fn check_paddle_collision(
    world: &mut World,
    collision_events: &Vec<CollisionEvent>,
    paddles_config: &PaddlesConfig,
)
    requires
        paddles_config.wf(),
    ensures
        final(world)@ == resolved_all(old(world)@, collision_events@, *paddles_config),
{
    let mut handled: usize = 0;
    while handled < collision_events.len()
        invariant
            handled <= collision_events.len(),
            paddles_config.wf(),
            world@ == resolved_all(
                old(world)@,
                collision_events@.take(handled as int),
                *paddles_config,
            ),
        decreases collision_events.len() - handled,
    {
        assert(collision_events@.take(handled + 1).drop_last() == collision_events@.take(
            handled as int,
        ));
        resolve_collision(world, collision_events[handled], paddles_config);
        handled += 1;
    }
    assert(collision_events@.take(handled as int) == collision_events@);
}

} // verus!
