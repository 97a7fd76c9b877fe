//! The two paddles: which side each one guards, how each is configured, and how
//! they enter the world.

use vstd::prelude::*;
use crate::units::{Colour, Vector2};
use crate::world::{Entity, World};

verus! {

/// The side of the table that a paddle guards.
#[derive(Clone, Copy, Debug, PartialEq, Eq, Structural)]
pub enum Paddle {
    RightPaddle,
    LeftPaddle,
}

/// How one paddle looks and where it starts.
#[derive(Clone, Copy, Debug, PartialEq, Eq, Structural)]
pub struct PaddleConfig {
    pub colour: Colour,
    pub size: Vector2,
    pub position: Vector2,
}

/// The configuration of both paddles. It is set up once, before any paddle or
/// ball exists, and only read afterwards.
#[derive(Clone, Copy, Debug, PartialEq, Eq, Structural)]
pub struct PaddlesConfig {
    pub l_paddle: PaddleConfig,
    pub r_paddle: PaddleConfig,
}

/// A paddle as the world holds it. Its position is moved from outside while the
/// game runs; the ball rules only read it.
#[derive(Clone, Copy, Debug, PartialEq, Eq, Structural)]
pub struct PaddleEntity {
    pub side: Paddle,
    pub position: Vector2,
    pub size: Vector2,
    pub colour: Colour,
    pub velocity: Vector2,
}

impl PaddleConfig {
    /// A paddle can deflect a ball only if it has a height.
    pub open spec fn wf(&self) -> bool {
        self.size.y > 0
    }

    /// The paddle every game starts from: white, 15 units wide and 100 units
    /// high, at the origin.
    pub open spec fn standard() -> PaddleConfig {
        PaddleConfig {
            colour: Colour { red: 1000, green: 1000, blue: 1000, alpha: 1000 },
            size: Vector2 { x: 15_000, y: 100_000 },
            position: Vector2 { x: 0, y: 0 },
        }
    }

    /// Tells whether this configuration gives the paddle a height.
    pub fn is_valid(&self) -> (valid: bool)
        ensures
            valid == self.wf(),
    {
        self.size.y > 0
    }
}

impl Default for PaddleConfig {
    fn default() -> (config: PaddleConfig)
        ensures
            config == PaddleConfig::standard(),
            config.wf(),
    {
        PaddleConfig {
            colour: Colour { red: 1000, green: 1000, blue: 1000, alpha: 1000 },
            size: Vector2 { x: 15_000, y: 100_000 },
            position: Vector2 { x: 0, y: 0 },
        }
    }
}

impl PaddlesConfig {
    /// Both paddles have a height.
    pub open spec fn wf(&self) -> bool {
        self.l_paddle.wf() && self.r_paddle.wf()
    }

    /// The configured height of the paddle on the given side.
    pub open spec fn height_of(&self, side: Paddle) -> int {
        match side {
            Paddle::LeftPaddle => self.l_paddle.size.y as int,
            Paddle::RightPaddle => self.r_paddle.size.y as int,
        }
    }

    /// Tells whether both paddles have a height.
    pub fn is_valid(&self) -> (valid: bool)
        ensures
            valid == self.wf(),
    {
        self.l_paddle.is_valid() && self.r_paddle.is_valid()
    }

    /// Looks up the configured height of the paddle on the given side.
    pub fn paddle_height(&self, side: Paddle) -> (height: i32)
        ensures
            height == self.height_of(side),
    {
        match side {
            Paddle::LeftPaddle => self.l_paddle.size.y,
            Paddle::RightPaddle => self.r_paddle.size.y,
        }
    }
}

impl Default for PaddlesConfig {
    fn default() -> (config: PaddlesConfig)
        ensures
            config.l_paddle == PaddleConfig::standard(),
            config.r_paddle == PaddleConfig::standard(),
            config.wf(),
    {
        PaddlesConfig { l_paddle: PaddleConfig::default(), r_paddle: PaddleConfig::default() }
    }
}

/// The configuration of a game: the left paddle red at x = -500, the right paddle
/// blue at x = 500, both otherwise standard.
pub open spec fn game_paddles_config() -> PaddlesConfig {
    PaddlesConfig {
        l_paddle: PaddleConfig {
            colour: Colour { red: 700, green: 0, blue: 0, alpha: 1000 },
            position: Vector2 { x: -500_000i32, y: 0 },
            ..PaddleConfig::standard()
        },
        r_paddle: PaddleConfig {
            colour: Colour { red: 0, green: 0, blue: 700, alpha: 1000 },
            position: Vector2 { x: 500_000, y: 0 },
            ..PaddleConfig::standard()
        },
    }
}

/// Builds the configuration of a game.
pub fn setup_paddles_config() -> (paddles_config: PaddlesConfig)
    ensures
        paddles_config == game_paddles_config(),
        paddles_config.wf(),
{
    let mut paddles_config = PaddlesConfig::default();
    paddles_config.l_paddle.position.x = -500_000;
    paddles_config.l_paddle.colour = Colour { red: 700, green: 0, blue: 0, alpha: 1000 };
    paddles_config.r_paddle.position.x = 500_000;
    paddles_config.r_paddle.colour = Colour { red: 0, green: 0, blue: 700, alpha: 1000 };
    paddles_config
}

/// The paddle that a configuration describes, at rest on the given side.
pub open spec fn configured_paddle(paddle_config: PaddleConfig, side: Paddle) -> PaddleEntity {
    PaddleEntity {
        side,
        position: paddle_config.position,
        size: paddle_config.size,
        colour: paddle_config.colour,
        velocity: Vector2 { x: 0, y: 0 },
    }
}

/// Adds one paddle to the world, as its configuration describes it.
pub fn spawn_paddle(world: &mut World, paddle_config: &PaddleConfig, paddle_component: Paddle)
    ensures
        final(world)@ == old(world)@.push(
            Entity::Paddle(configured_paddle(*paddle_config, paddle_component)),
        ),
{
    world.spawn(
        Entity::Paddle(
            PaddleEntity {
                side: paddle_component,
                position: paddle_config.position,
                size: paddle_config.size,
                colour: paddle_config.colour,
                velocity: Vector2 { x: 0, y: 0 },
            },
        ),
    );
}

/// Adds both paddles to the world: the left one first, then the right one.
pub fn spawn_paddles(world: &mut World, game_config: &PaddlesConfig)
    ensures
        final(world)@ == old(world)@.push(
            Entity::Paddle(configured_paddle(game_config.l_paddle, Paddle::LeftPaddle)),
        ).push(Entity::Paddle(configured_paddle(game_config.r_paddle, Paddle::RightPaddle))),
{
    spawn_paddle(world, &game_config.l_paddle, Paddle::LeftPaddle);
    spawn_paddle(world, &game_config.r_paddle, Paddle::RightPaddle);
}

} // verus!
