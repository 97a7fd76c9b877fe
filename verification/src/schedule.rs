//! One tick of the simulation, and when it runs.

use vstd::prelude::*;
use crate::ball::{
    clamp_velocity, clamped_all, lemma_clamp_changes_only_ball_velocities,
    lemma_clamp_holds_every_moving_ball_to_speed, speed_squared, BALL_SPEED,
};
use crate::collision::{
    check_paddle_collision, lemma_resolving_changes_only_ball_velocities,
    lemma_resolving_keeps_balls_moving, resolved_all, CollisionEvent,
};
use crate::paddles::PaddlesConfig;
use crate::units::Vector2;
use crate::world::{is_ball, same_but_ball_velocities, Entity, World};

verus! {

/// The simulation runs while a game is on and is not paused.
pub open spec fn simulation_runs(in_game: bool, paused: bool) -> bool {
    in_game && !paused
}

/// The world after one tick. While the simulation runs, the collisions that
/// the physics engine reported for the tick are resolved first and the speed
/// clamp comes last, so that no bounce can change the speed of a ball. While
/// it does not run, nothing changes.
pub open spec fn ticked(
    entities: Seq<Entity>,
    events: Seq<CollisionEvent>,
    paddles_config: PaddlesConfig,
    in_game: bool,
    paused: bool,
) -> Seq<Entity> {
    if simulation_runs(in_game, paused) {
        clamped_all(resolved_all(entities, events, paddles_config))
    } else {
        entities
    }
}

/// At the end of every tick in which the simulation runs, every ball that was
/// moving moves at `BALL_SPEED` (to within the rounding of its velocity's two
/// components), whatever the collisions of the tick did to it.
pub proof fn lemma_tick_holds_every_moving_ball_to_speed(
    entities: Seq<Entity>,
    events: Seq<CollisionEvent>,
    paddles_config: PaddlesConfig,
    id: int,
)
    requires
        paddles_config.wf(),
        is_ball(entities, id),
        entities[id]->Ball_0.velocity != (Vector2 { x: 0, y: 0 }),
    ensures
        is_ball(ticked(entities, events, paddles_config, true, false), id),
        (BALL_SPEED - 2) * (BALL_SPEED - 2) < speed_squared(
            ticked(entities, events, paddles_config, true, false)[id]->Ball_0.velocity,
        ) <= BALL_SPEED * BALL_SPEED,
{
    lemma_resolving_keeps_balls_moving(entities, events, paddles_config, id);
    lemma_clamp_holds_every_moving_ball_to_speed(
        resolved_all(entities, events, paddles_config),
        id,
    );
}

/// A tick moves nothing, adds nothing and removes nothing: the paddles stay as
/// they were, and of a ball only the velocity can change.
pub proof fn lemma_tick_changes_only_ball_velocities(
    entities: Seq<Entity>,
    events: Seq<CollisionEvent>,
    paddles_config: PaddlesConfig,
    in_game: bool,
    paused: bool,
)
    ensures
        same_but_ball_velocities(
            entities,
            ticked(entities, events, paddles_config, in_game, paused),
        ),
{
    lemma_resolving_changes_only_ball_velocities(entities, events, paddles_config);
    lemma_clamp_changes_only_ball_velocities(resolved_all(entities, events, paddles_config));
}

/// Runs the ball rules for one tick, on the collision events that the physics
/// engine reported after it had moved the entities.
pub fn tick(
    world: &mut World,
    collision_events: &Vec<CollisionEvent>,
    paddles_config: &PaddlesConfig,
    in_game: bool,
    paused: bool,
)
    requires
        paddles_config.wf(),
    ensures
        final(world)@ == ticked(
            old(world)@,
            collision_events@,
            *paddles_config,
            in_game,
            paused,
        ),
{
    if in_game && !paused {
        check_paddle_collision(world, collision_events, paddles_config);
        clamp_velocity(world);
    }
}

} // verus!
