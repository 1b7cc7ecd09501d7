//! What the renderer draws: one disc per visible body, and the player last.
use vstd::prelude::*;
use crate::ball::Ball;
use crate::bullet::Bullet;
use crate::color::Color;
use crate::config::PLAYER_RADIUS;
use crate::particle::Particle;
use crate::vector::Vec2;
use crate::world::{live_balls, live_bullets, live_particles, World};

verus! {

/// A filled disc to draw.
#[derive(Clone, Copy, Debug, PartialEq, Eq, Structural)]
pub struct Circle {
    pub center: Vec2,
    pub radius: i64,
    pub color: Color,
}

pub open spec fn red() -> Color {
    Color { r: 255, g: 0, b: 0, a: 255 }
}

pub open spec fn black() -> Color {
    Color { r: 0, g: 0, b: 0, a: 255 }
}

pub open spec fn ball_disc(b: Ball) -> Circle {
    Circle { center: b.pos, radius: b.radius, color: b.color }
}

pub open spec fn bullet_disc(b: Bullet) -> Circle {
    Circle { center: b.pos, radius: b.radius, color: red() }
}

pub open spec fn particle_disc(p: Particle) -> Circle {
    Circle { center: p.pos, radius: p.radius, color: p.color }
}

/// Live balls, then live bullets, then particles with life left, then the player.
pub open spec fn scene(w: &World) -> Seq<Circle> {
    live_balls(w.balls@).map_values(|b: Ball| ball_disc(b))
        + live_bullets(w.bullets@).map_values(|b: Bullet| bullet_disc(b))
        + live_particles(w.particles@).map_values(|p: Particle| particle_disc(p))
        + seq![Circle { center: w.player_pos, radius: PLAYER_RADIUS, color: black() }]
}

/// The discs of the world, in drawing order.
pub fn draw_list(w: &World) -> (r: Vec<Circle>)
    ensures
        r@ == scene(w),
{
    let mut out: Vec<Circle> = Vec::new();
    let mut i: usize = 0;
    while i < w.balls.len()
        invariant
            i <= w.balls.len(),
            out@ == live_balls(w.balls@.subrange(0, i as int)).map_values(|b: Ball| ball_disc(b)),
        decreases w.balls.len() - i,
    {
        assert(w.balls@.subrange(0, i + 1).drop_last() =~= w.balls@.subrange(0, i as int));
        reveal(Seq::filter);
        let b = w.balls[i];
        if b.alive {
            out.push(Circle { center: b.pos, radius: b.radius, color: b.color });
            assert(out@ =~= live_balls(w.balls@.subrange(0, i + 1)).map_values(|b: Ball| ball_disc(b)));
        }
        i = i + 1;
    }
    assert(w.balls@.subrange(0, i as int) =~= w.balls@);
    let ghost first = out@;
    let mut i: usize = 0;
    while i < w.bullets.len()
        invariant
            i <= w.bullets.len(),
            out@ == first + live_bullets(w.bullets@.subrange(0, i as int)).map_values(|b: Bullet| bullet_disc(b)),
        decreases w.bullets.len() - i,
    {
        assert(w.bullets@.subrange(0, i + 1).drop_last() =~= w.bullets@.subrange(0, i as int));
        reveal(Seq::filter);
        let b = w.bullets[i];
        if b.alive {
            out.push(Circle { center: b.pos, radius: b.radius, color: Color { r: 255, g: 0, b: 0, a: 255 } });
            assert(out@ =~= first + live_bullets(w.bullets@.subrange(0, i + 1)).map_values(|b: Bullet| bullet_disc(b)));
        }
        i = i + 1;
    }
    assert(w.bullets@.subrange(0, i as int) =~= w.bullets@);
    let ghost second = out@;
    let mut i: usize = 0;
    while i < w.particles.len()
        invariant
            i <= w.particles.len(),
            out@ == second + live_particles(w.particles@.subrange(0, i as int)).map_values(|p: Particle| particle_disc(p)),
        decreases w.particles.len() - i,
    {
        assert(w.particles@.subrange(0, i + 1).drop_last() =~= w.particles@.subrange(0, i as int));
        reveal(Seq::filter);
        let p = w.particles[i];
        if p.life > 0 {
            out.push(Circle { center: p.pos, radius: p.radius, color: p.color });
            assert(out@ =~= second + live_particles(w.particles@.subrange(0, i + 1)).map_values(|p: Particle| particle_disc(p)));
        }
        i = i + 1;
    }
    assert(w.particles@.subrange(0, i as int) =~= w.particles@);
    out.push(Circle { center: w.player_pos, radius: PLAYER_RADIUS, color: Color { r: 0, g: 0, b: 0, a: 255 } });
    assert(out@ =~= scene(w));
    out
}

} // verus!
