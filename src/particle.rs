//! Particles: short-lived fading sparks.
use vstd::prelude::*;
use rand::rngs::StdRng;
use crate::color::Color;
use crate::config::{
    LIFE_FLOOR, PARTICLE_FADE, PARTICLE_GRAVITY, PARTICLE_LIFE, PARTICLE_RADIUS_MAX, PARTICLE_RADIUS_MIN,
    PARTICLE_SPEED_MAX, PARTICLE_SPEED_MIN,
};
use crate::fixed::{clamp, div_trunc, mul_div, sat, saturate, LIMIT, SCALE};
use crate::random::draw_between;
use crate::vector::{v2, vec_of, Vec2};

verus! {

/// A spark; its life counts down in milliseconds.
#[derive(Clone, Copy, Debug, PartialEq, Eq, Structural)]
pub struct Particle {
    pub pos: Vec2,
    pub vel: Vec2,
    pub color: Color,
    pub life: i64,
    pub radius: i64,
}

/// A channel after one frame of fading.
pub open spec fn faded(c: u8) -> u8 {
    (c * PARTICLE_FADE / 100) as u8
}

/// Opacity for the remaining life, clamped to a channel.
pub open spec fn alpha_for(life: int) -> int {
    clamp(div_trunc(life * 255, PARTICLE_LIFE as int), 0, 255)
}

pub open spec fn white() -> Color {
    Color { r: 255, g: 255, b: 255, a: 255 }
}

/// The direction drawn as `(dx, dy)`, with the x axis in place of zero.
pub open spec fn draw_direction(dx: int, dy: int) -> Vec2 {
    if dx == 0 && dy == 0 {
        vec_of(SCALE as int, 0)
    } else {
        vec_of(dx, dy)
    }
}

/// A newly made particle at `pos`: white, full life, radius and speed in their
/// ranges, flying along a nonzero direction.
pub open spec fn fresh_at(p: Particle, pos: Vec2) -> bool {
    &&& p.wf()
    &&& p.pos == pos
    &&& p.life == PARTICLE_LIFE
    &&& p.color == white()
    &&& PARTICLE_RADIUS_MIN <= p.radius < PARTICLE_RADIUS_MAX
    &&& exists|dx: int, dy: int, s: int|
        -SCALE <= dx <= SCALE && -SCALE <= dy <= SCALE && PARTICLE_SPEED_MIN <= s < PARTICLE_SPEED_MAX
            && #[trigger] draw_direction(dx, dy).toward(s) == p.vel
}

impl Particle {
    pub open spec fn wf(self) -> bool {
        self.pos.wf() && self.vel.wf() && LIFE_FLOOR <= self.life <= PARTICLE_LIFE
    }

    /// Still shown and kept.
    pub open spec fn live(self) -> bool {
        self.life > 0
    }

    /// The particle after `dt` milliseconds.
    pub open spec fn stepped(self, dt: int) -> Particle {
        let life = if self.life - dt < LIFE_FLOOR {
            LIFE_FLOOR as int
        } else {
            self.life - dt
        };
        Particle {
            pos: self.pos.plus(self.vel.scaled(dt)),
            vel: vec_of(self.vel.x as int, sat(self.vel.y + sat(div_trunc(PARTICLE_GRAVITY * dt, SCALE as int)))),
            color: Color {
                r: faded(self.color.r),
                g: faded(self.color.g),
                b: faded(self.color.b),
                a: alpha_for(life) as u8,
            },
            life: life as i64,
            ..self
        }
    }

    /// A white particle at `pos` with full life, flying along `(dx, dy)` (or
    /// along the x axis when that is zero) at `speed`.
    pub fn from_draws(pos: Vec2, dx: i64, dy: i64, speed: i64, radius: i64) -> (p: Particle)
        requires
            pos.wf(),
            -SCALE <= dx <= SCALE,
            -SCALE <= dy <= SCALE,
            0 <= speed <= LIMIT,
        ensures
            p == (Particle {
                pos,
                vel: draw_direction(dx as int, dy as int).toward(speed as int),
                color: white(),
                life: PARTICLE_LIFE,
                radius,
            }),
            p.wf(),
    {
        let d = if dx == 0 && dy == 0 {
            v2(SCALE, 0)
        } else {
            v2(dx, dy)
        };
        Particle { pos, vel: d.with_length(speed), color: Color { r: 255, g: 255, b: 255, a: 255 }, life: PARTICLE_LIFE, radius }
    }

    /// A white particle at `pos` with full life, flying in a random direction at
    /// a random speed.
    pub fn new(pos: Vec2, rng: &mut StdRng) -> (p: Particle)
        requires
            pos.wf(),
        ensures
            fresh_at(p, pos),
    {
        let dx = draw_between(rng, -SCALE, SCALE + 1);
        let dy = draw_between(rng, -SCALE, SCALE + 1);
        let speed = draw_between(rng, PARTICLE_SPEED_MIN, PARTICLE_SPEED_MAX);
        let radius = draw_between(rng, PARTICLE_RADIUS_MIN, PARTICLE_RADIUS_MAX);
        Particle::from_draws(pos, dx, dy, speed, radius)
    }

    /// Advances the particle by `dt` milliseconds: life runs down, it moves, falls
    /// under its own gravity and fades.
    pub fn update(&mut self, dt: u32)
        requires
            old(self).wf(),
        ensures
            *final(self) == old(self).stepped(dt as int),
            final(self).wf(),
    {
        self.life = if self.life - (dt as i64) < LIFE_FLOOR {
            LIFE_FLOOR
        } else {
            self.life - dt as i64
        };
        self.pos = self.pos.add(self.vel.mul_scalar(dt as i64));
        let a = mul_div(self.life, 255, PARTICLE_LIFE);
        self.color.a = if a < 0 {
            0
        } else if a > 255 {
            255
        } else {
            a as u8
        };
        let dv = mul_div(PARTICLE_GRAVITY, dt as i64, SCALE);
        self.vel.y = saturate(self.vel.y as i128 + dv as i128);
        self.color.r = ((self.color.r as u32) * PARTICLE_FADE / 100) as u8;
        self.color.g = ((self.color.g as u32) * PARTICLE_FADE / 100) as u8;
        self.color.b = ((self.color.b as u32) * PARTICLE_FADE / 100) as u8;
    }
}

} // verus!
