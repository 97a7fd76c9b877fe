//! The registry of everything that takes part in the game.

use vstd::prelude::*;
use crate::ball::Ball;
use crate::paddles::PaddleEntity;

verus! {

/// One entry of the registry.
#[derive(Clone, Copy, Debug, PartialEq, Eq, Structural)]
pub enum Entity {
    Ball(Ball),
    Paddle(PaddleEntity),
}

/// Everything that takes part in the game. An entity is known by its index,
/// which it keeps for as long as the world lives: entries are added at the end
/// and never removed.
#[derive(Clone, Debug, PartialEq, Eq)]
pub struct World {
    pub entities: Vec<Entity>,
}

impl View for World {
    type V = Seq<Entity>;

    open spec fn view(&self) -> Seq<Entity> {
        self.entities@
    }
}

/// Whether `id` names a ball among `entities`.
pub open spec fn is_ball(entities: Seq<Entity>, id: int) -> bool {
    0 <= id < entities.len() && entities[id] is Ball
}

/// Whether `id` names a paddle among `entities`.
pub open spec fn is_paddle(entities: Seq<Entity>, id: int) -> bool {
    0 <= id < entities.len() && entities[id] is Paddle
}

/// Whether `after` holds the same entities as `before`, each as it was but for
/// the velocities of the balls.
pub open spec fn same_but_ball_velocities(before: Seq<Entity>, after: Seq<Entity>) -> bool {
    &&& after.len() == before.len()
    &&& forall|id: int|
        0 <= id < before.len() ==> match #[trigger] before[id] {
            Entity::Ball(ball) => after[id] == Entity::Ball(
                Ball { velocity: after[id]->Ball_0.velocity, ..ball },
            ),
            Entity::Paddle(_) => after[id] == before[id],
        }
}

impl World {
    /// A world with nothing in it.
    pub fn new() -> (world: World)
        ensures
            world@ == Seq::<Entity>::empty(),
    {
        World { entities: Vec::new() }
    }

    /// Adds an entity to the world and returns the index under which it is
    /// known from now on.
    pub fn spawn(&mut self, entity: Entity) -> (id: usize)
        ensures
            id == old(self)@.len(),
            final(self)@ == old(self)@.push(entity),
    {
        let id = self.entities.len();
        self.entities.push(entity);
        id
    }

    /// How many entities the world holds.
    pub fn len(&self) -> (n: usize)
        ensures
            n == self@.len(),
    {
        self.entities.len()
    }

    /// The ball that `id` names, if it names one.
    pub fn ball(&self, id: usize) -> (found: Option<Ball>)
        ensures
            found.is_some() == is_ball(self@, id as int),
            found.is_some() ==> self@[id as int] == Entity::Ball(found.unwrap()),
    {
        if id < self.entities.len() {
            match self.entities[id] {
                Entity::Ball(ball) => Some(ball),
                Entity::Paddle(_) => None,
            }
        } else {
            None
        }
    }

    /// The paddle that `id` names, if it names one.
    pub fn paddle(&self, id: usize) -> (found: Option<PaddleEntity>)
        ensures
            found.is_some() == is_paddle(self@, id as int),
            found.is_some() ==> self@[id as int] == Entity::Paddle(found.unwrap()),
    {
        if id < self.entities.len() {
            match self.entities[id] {
                Entity::Ball(_) => None,
                Entity::Paddle(paddle) => Some(paddle),
            }
        } else {
            None
        }
    }
}

} // verus!
