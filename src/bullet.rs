//! Bullets: straight flight until they leave the arena.
use vstd::prelude::*;
use crate::config::{ARENA_HEIGHT, ARENA_WIDTH, BULLET_RADIUS, BULLET_SPEED};
use crate::vector::{Vec2};

verus! {

/// A projectile fired by the player.
#[derive(Clone, Copy, Debug, PartialEq, Eq, Structural)]
pub struct Bullet {
    pub pos: Vec2,
    pub vel: Vec2,
    pub radius: i64,
    pub alive: bool,
}

/// `p` lies in the closed arena rectangle.
pub open spec fn in_arena(p: Vec2) -> bool {
    0 <= p.x <= ARENA_WIDTH && 0 <= p.y <= ARENA_HEIGHT
}

impl Bullet {
    pub open spec fn wf(self) -> bool {
        self.pos.wf() && self.vel.wf() && self.radius == BULLET_RADIUS
    }

    /// The bullet after `dt` milliseconds of flight.
    pub open spec fn moved(self, dt: int) -> Bullet {
        let pos = self.pos.plus(self.vel.scaled(dt));
        Bullet { pos, alive: self.alive && in_arena(pos), ..self }
    }

    /// A live bullet at `pos` flying along `dir` at the bullet speed.
    pub fn new(pos: Vec2, dir: Vec2) -> (b: Bullet)
        requires
            pos.wf(),
            dir.wf(),
        ensures
            b == (Bullet { pos, vel: dir.toward(BULLET_SPEED as int), radius: BULLET_RADIUS, alive: true }),
            b.wf(),
    {
        Bullet { pos, vel: dir.with_length(BULLET_SPEED), radius: BULLET_RADIUS, alive: true }
    }

    /// Moves the bullet by `dt` milliseconds; it dies once outside the arena.
    pub fn update(&mut self, dt: u32)
        requires
            old(self).wf(),
        ensures
            *final(self) == old(self).moved(dt as int),
            final(self).wf(),
    {
        self.pos = self.pos.add(self.vel.mul_scalar(dt as i64));
        if self.pos.x < 0 || self.pos.x > ARENA_WIDTH || self.pos.y < 0 || self.pos.y > ARENA_HEIGHT {
            self.alive = false;
        }
    }
}

} // verus!
