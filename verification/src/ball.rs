//! The balls: where they are spawned, and how their speed is held constant.

use vstd::prelude::*;
use crate::units::{
    floor_sqrt, is_floor_sqrt, isqrt, lemma_floor_sqrt_exists, lemma_floor_sqrt_unique,
    lemma_square_strictly_increases, Colour, Vector2,
};
use crate::world::{is_ball, same_but_ball_velocities, Entity, World};

verus! {

/// The speed that every moving ball is held to, in thousandths of a unit per
/// second: 500 units per second.
pub const BALL_SPEED: i32 = 500_000;

/// The side of the square that a ball fills, in thousandths of a unit.
pub const BALL_SIZE: i32 = 20_000;

/// How many balls a game starts with.
pub const BALL_COUNT: i16 = 1;

/// The distance between the centres of two neighbouring balls of a freshly
/// spawned stack, in thousandths of a unit: twice the side of a ball.
pub const BALL_SPACING: i32 = 40_000;

/// A ball as the world holds it.
#[derive(Clone, Copy, Debug, PartialEq, Eq, Structural)]
pub struct Ball {
    pub position: Vector2,
    pub velocity: Vector2,
    /// Width and height of the ball; its collision shape has the same size.
    pub size: Vector2,
    pub colour: Colour,
    /// How much speed a bounce keeps, in thousandths.
    pub restitution: i32,
    /// How much a touching surface slows the ball, in thousandths.
    pub friction: i32,
    /// How much gravity pulls on the ball, in thousandths.
    pub gravity_scale: i32,
    /// Whether the ball is kept from spinning.
    pub rotation_locked: bool,
    /// Whether collisions of the ball are reported.
    pub collision_events: bool,
    /// Whether the ball is removed when the game it belongs to ends.
    pub ends_with_game: bool,
}

/// The height at which ball number `i` of a stack of `count` balls is spawned:
/// the balls stand `BALL_SPACING` apart, and the stack is centred on height 0.
pub open spec fn spawn_height(i: int, count: int) -> int {
    i * BALL_SPACING - (count - 1) * (BALL_SPACING / 2)
}

/// Ball number `i` of a freshly spawned stack of `count` balls. It stands at
/// x = 0 and heads to the right; it bounces without loss, slides without
/// friction, feels no gravity, does not spin, and has its collisions reported.
pub open spec fn spawned_ball(i: int, count: int) -> Ball {
    Ball {
        position: Vector2 { x: 0, y: spawn_height(i, count) as i32 },
        velocity: Vector2 { x: 3000, y: 0 },
        size: Vector2 { x: BALL_SIZE, y: BALL_SIZE },
        colour: Colour { red: 900, green: 900, blue: 900, alpha: 1000 },
        restitution: 1000,
        friction: 0,
        gravity_scale: 0,
        rotation_locked: true,
        collision_events: true,
        ends_with_game: true,
    }
}

/// The stack of balls that `spawn_ball` adds for a given count: none for a
/// count below 1.
pub open spec fn spawned_stack(count: int) -> Seq<Entity> {
    Seq::new(
        if count > 0 {
            count as nat
        } else {
            0
        },
        |i: int| Entity::Ball(spawned_ball(i, count)),
    )
}

/// A spawned stack is centred on height 0, and its balls do not overlap: the
/// centres of any two of them are at least `BALL_SPACING` apart, which is more
/// than the height of a ball.
pub proof fn lemma_spawned_stack_is_centred_and_spread(i: int, j: int, count: int)
    requires
        0 <= i < count,
        0 <= j < count,
    ensures
        spawn_height(i, count) + spawn_height(count - 1 - i, count) == 0,
        spawn_height(i + 1, count) - spawn_height(i, count) == BALL_SPACING,
        i < j ==> spawn_height(j, count) - spawn_height(i, count) >= BALL_SPACING,
        BALL_SPACING > BALL_SIZE,
{
    let half = BALL_SPACING / 2;
    assert(spawn_height(i, count) + spawn_height(count - 1 - i, count) == 0
        && spawn_height(i + 1, count) - spawn_height(i, count) == BALL_SPACING
        && (i < j ==> spawn_height(j, count) - spawn_height(i, count) >= BALL_SPACING))
        by (nonlinear_arith)
        requires
            BALL_SPACING == 40_000,
            half == 20_000,
            spawn_height(i, count) == i * BALL_SPACING - (count - 1) * half,
            spawn_height(i + 1, count) == (i + 1) * BALL_SPACING - (count - 1) * half,
            spawn_height(j, count) == j * BALL_SPACING - (count - 1) * half,
            spawn_height(count - 1 - i, count) == (count - 1 - i) * BALL_SPACING - (count - 1)
                * half,
    ;
}

/// Adds a stack of `count` balls to the world, lowest ball first.
pub fn spawn_ball(world: &mut World, count: i16)
    ensures
        final(world)@ == old(world)@ + spawned_stack(count as int),
{
    let mut i: i16 = 0;
    while i < count
        invariant
            0 <= i,
            i <= count || i == 0,
            world@.len() == old(world)@.len() + i,
            forall|k: int| 0 <= k < old(world)@.len() ==> world@[k] == old(world)@[k],
            forall|k: int|
                old(world)@.len() <= k < world@.len() ==> world@[k] == Entity::Ball(
                    spawned_ball(k - old(world)@.len(), count as int),
                ),
        decreases count - i,
    {
        let y: i32 = (i as i32) * BALL_SPACING - ((count as i32) - 1) * (BALL_SPACING / 2);
        world.spawn(
            Entity::Ball(
                Ball {
                    position: Vector2 { x: 0, y },
                    velocity: Vector2 { x: 3000, y: 0 },
                    size: Vector2 { x: BALL_SIZE, y: BALL_SIZE },
                    colour: Colour { red: 900, green: 900, blue: 900, alpha: 1000 },
                    restitution: 1000,
                    friction: 0,
                    gravity_scale: 0,
                    rotation_locked: true,
                    collision_events: true,
                    ends_with_game: true,
                },
            ),
        );
        i += 1;
    }
    assert(world@ =~= old(world)@ + spawned_stack(count as int));
}

/// The square of the length of `v`.
pub open spec fn speed_squared(v: Vector2) -> int {
    v.x * v.x + v.y * v.y
}

/// One component of a velocity after its length, whose square is
/// `length_squared`, has been brought to `BALL_SPEED`: the component times
/// `BALL_SPEED` over the length, rounded towards zero.
pub open spec fn rescaled(component: int, length_squared: int) -> int {
    let magnitude = floor_sqrt(
        BALL_SPEED * BALL_SPEED * (component * component) / length_squared,
    );
    if component >= 0 {
        magnitude
    } else {
        -magnitude
    }
}

/// The velocity `v` brought to the speed of a ball, its direction kept. A ball
/// at rest has no direction and stays at rest.
pub open spec fn clamped(v: Vector2) -> Vector2 {
    if v.x == 0 && v.y == 0 {
        v
    } else {
        Vector2 {
            x: rescaled(v.x as int, speed_squared(v)) as i32,
            y: rescaled(v.y as int, speed_squared(v)) as i32,
        }
    }
}

/// An entity after the speed clamp: a ball has its velocity clamped, and
/// nothing else changes.
pub open spec fn clamped_entity(entity: Entity) -> Entity {
    match entity {
        Entity::Ball(ball) => Entity::Ball(Ball { velocity: clamped(ball.velocity), ..ball }),
        Entity::Paddle(_) => entity,
    }
}

/// The world after the speed clamp.
pub open spec fn clamped_all(entities: Seq<Entity>) -> Seq<Entity> {
    entities.map_values(|entity: Entity| clamped_entity(entity))
}

/// The speed clamp moves nothing, adds nothing and removes nothing: the paddles
/// stay as they were, and of a ball only the velocity can change.
pub proof fn lemma_clamp_changes_only_ball_velocities(entities: Seq<Entity>)
    ensures
        same_but_ball_velocities(entities, clamped_all(entities)),
{
}

/// What rescaling does to one component: with `m` the magnitude of the result,
/// `m * m * q <= T * T * c * c < (m + 1) * (m + 1) * q`, where `T` is
/// `BALL_SPEED`, `c` the component and `q` the squared length.
pub proof fn lemma_rescaled_bounds(component: int, length_squared: int)
    requires
        length_squared > 0,
        component * component <= length_squared,
    ensures
        ({
            let r = rescaled(component, length_squared);
            let m = if r >= 0 {
                r
            } else {
                -r
            };
            &&& -BALL_SPEED <= r <= BALL_SPEED
            &&& component >= 0 ==> r >= 0
            &&& component <= 0 ==> r <= 0
            &&& m * m * length_squared <= BALL_SPEED * BALL_SPEED * (component * component)
            &&& BALL_SPEED * BALL_SPEED * (component * component) < (m + 1) * (m + 1)
                * length_squared
        }),
{
    let t: int = BALL_SPEED as int;
    let cc = component * component;
    let q = length_squared;
    let scaled = BALL_SPEED * BALL_SPEED * cc;
    let quotient = scaled / q;
    assert(cc >= 0) by (nonlinear_arith)
        requires
            cc == component * component,
    ;
    assert(0 <= quotient <= 250_000_000_000 && quotient * q <= scaled < (quotient + 1) * q)
        by (nonlinear_arith)
        requires
            quotient == scaled / q,
            scaled == 250_000_000_000 * cc,
            0 <= cc <= q,
            q > 0,
    ;
    lemma_floor_sqrt_exists(quotient);
    let m = floor_sqrt(quotient);
    assert(is_floor_sqrt(m, quotient));
    assert(t * t == 250_000_000_000);
    if component == 0 {
        assert(quotient == 0);
        lemma_floor_sqrt_unique(0, 0);
    }
    if m > t {
        lemma_square_strictly_increases(t, m);
    }
    assert(m * m * q <= scaled && scaled < (m + 1) * (m + 1) * q) by (nonlinear_arith)
        requires
            m * m <= quotient < (m + 1) * (m + 1),
            quotient * q <= scaled < (quotient + 1) * q,
            q > 0,
    ;
}

/// The speed clamp holds: a velocity that is not zero comes out of it with a
/// length of `BALL_SPEED`, to within the rounding of its two components (less
/// than two thousandths of a unit per second, and never above `BALL_SPEED`).
pub proof fn lemma_clamped_speed(v: Vector2)
    requires
        v.x != 0 || v.y != 0,
    ensures
        (BALL_SPEED - 2) * (BALL_SPEED - 2) < speed_squared(clamped(v)) <= BALL_SPEED
            * BALL_SPEED,
{
    let t: int = BALL_SPEED as int;
    let a: int = v.x as int;
    let b: int = v.y as int;
    let q = speed_squared(v);
    assert(a * a >= 0 && b * b >= 0 && a * a + b * b > 0) by (nonlinear_arith)
        requires
            a != 0 || b != 0,
    ;
    lemma_rescaled_bounds(a, q);
    lemma_rescaled_bounds(b, q);
    let ra = rescaled(a, q);
    let rb = rescaled(b, q);
    let ma = if ra >= 0 {
        ra
    } else {
        -ra
    };
    let mb = if rb >= 0 {
        rb
    } else {
        -rb
    };
    assert(clamped(v).x == ra && clamped(v).y == rb);
    assert(ra * ra == ma * ma && rb * rb == mb * mb) by (nonlinear_arith)
        requires
            ma == ra || ma == -ra,
            mb == rb || mb == -rb,
    ;
    assert(ma * ma + mb * mb <= t * t && t * t < (ma + 1) * (ma + 1) + (mb + 1) * (mb + 1))
        by (nonlinear_arith)
        requires
            q > 0,
            q == a * a + b * b,
            ma * ma * q <= t * t * (a * a),
            mb * mb * q <= t * t * (b * b),
            t * t * (a * a) < (ma + 1) * (ma + 1) * q,
            t * t * (b * b) < (mb + 1) * (mb + 1) * q,
    ;
    assert((t - 2) * (t - 2) < ma * ma + mb * mb) by (nonlinear_arith)
        requires
            t == 500_000,
            0 <= ma <= t,
            0 <= mb <= t,
            ma * ma + mb * mb <= t * t,
            t * t < (ma + 1) * (ma + 1) + (mb + 1) * (mb + 1),
    ;
}

/// After the speed clamp every ball that was moving moves at `BALL_SPEED`, to
/// within the rounding of its velocity's two components.
pub proof fn lemma_clamp_holds_every_moving_ball_to_speed(entities: Seq<Entity>, id: int)
    requires
        is_ball(entities, id),
        entities[id]->Ball_0.velocity != (Vector2 { x: 0, y: 0 }),
    ensures
        is_ball(clamped_all(entities), id),
        (BALL_SPEED - 2) * (BALL_SPEED - 2) < speed_squared(
            clamped_all(entities)[id]->Ball_0.velocity,
        ) <= BALL_SPEED * BALL_SPEED,
{
    lemma_clamped_speed(entities[id]->Ball_0.velocity);
}

/// Brings a velocity to the speed of a ball, keeping its direction; a zero
/// velocity is returned as it is.
pub fn clamped_velocity(v: Vector2) -> (out: Vector2)
    ensures
        out == clamped(v),
{
    if v.x == 0 && v.y == 0 {
        return v;
    }
    let x = rescale(v.x, v.y);
    let y = rescale(v.y, v.x);
    proof {
        assert(v.y * v.y + v.x * v.x == speed_squared(v));
    }
    Vector2 { x, y }
}

/// One component of a velocity brought to the speed of a ball; `other` is the
/// velocity's other component.
fn rescale(component: i32, other: i32) -> (out: i32)
    requires
        component != 0 || other != 0,
    ensures
        out == rescaled(component as int, component * component + other * other),
{
    let a: u128 = if component >= 0 {
        component as u128
    } else {
        (-(component as i64)) as u128
    };
    let b: u128 = if other >= 0 {
        other as u128
    } else {
        (-(other as i64)) as u128
    };
    assert(a * a == component * component && b * b == other * other && a * a
        <= 0x4000_0000_0000_0000 && b * b <= 0x4000_0000_0000_0000 && a * a + b * b > 0)
        by (nonlinear_arith)
        requires
            a == component || a == -component,
            b == other || b == -other,
            a <= 0x8000_0000,
            b <= 0x8000_0000,
            a != 0 || b != 0,
    ;
    let aa: u128 = a * a;
    let q: u128 = aa + b * b;
    let target: u128 = 250_000_000_000;
    assert(target == BALL_SPEED * BALL_SPEED);
    assert(target * aa <= 250_000_000_000 * 0x4000_0000_0000_0000) by (nonlinear_arith)
        requires
            target == 250_000_000_000,
            aa <= 0x4000_0000_0000_0000,
    ;
    let quotient: u128 = target * aa / q;
    assert(quotient <= 250_000_000_000) by (nonlinear_arith)
        requires
            quotient == (target * aa) / (q as int),
            target == 250_000_000_000,
            aa <= q,
            q > 0,
    ;
    let magnitude: u64 = isqrt(quotient as u64);
    proof {
        lemma_rescaled_bounds(component as int, q as int);
    }
    if component >= 0 {
        magnitude as i32
    } else {
        -(magnitude as i32)
    }
}

/// Holds every ball to the speed of a ball: each moving ball keeps its
/// direction and moves at `BALL_SPEED` afterwards; a ball at rest stays at rest.
pub fn clamp_velocity(world: &mut World)
    ensures
        final(world)@ == clamped_all(old(world)@),
{
    let mut i: usize = 0;
    while i < world.entities.len()
        invariant
            i <= world@.len(),
            world@.len() == old(world)@.len(),
            forall|k: int| 0 <= k < i ==> world@[k] == clamped_entity(old(world)@[k]),
            forall|k: int| i <= k < world@.len() ==> world@[k] == old(world)@[k],
        decreases world@.len() - i,
    {
        match world.entities[i] {
            Entity::Ball(ball) => {
                let mut ball = ball;
                ball.velocity = clamped_velocity(ball.velocity);
                world.entities[i] = Entity::Ball(ball);
            },
            Entity::Paddle(_) => {},
        }
        i += 1;
    }
    assert(world@ =~= clamped_all(old(world)@));
}

} // verus!
