//! Balls: integration, wall bounces and pairwise collisions.
use vstd::prelude::*;
use rand::rngs::StdRng;
use crate::color::{hsv_color, hsv_to_rgb, Color};
use crate::config::{
    ARENA_HEIGHT, ARENA_WIDTH, BALL_RADIUS_MAX, BALL_RADIUS_MIN, BALL_SATURATION, BALL_VALUE,
    COLOR_MIN, HUE_STEP_DIV, INITIAL_SPEED, RESTITUTION, WALL_BOUNCE,
};
use crate::fixed::{div_toward_zero, div_trunc, lemma_root_vs_square, mul_div, sat, saturate, SCALE};
use vstd::arithmetic::div_mod::lemma_fundamental_div_mod_converse;
use crate::random::draw_between;
use crate::vector::{v2, vec_of, Vec2};

verus! {

/// A circular body.
#[derive(Clone, Copy, Debug, PartialEq, Eq, Structural)]
pub struct Ball {
    pub pos: Vec2,
    pub vel: Vec2,
    pub radius: i64,
    pub color: Color,
    pub mass: i64,
    pub alive: bool,
}

/// One axis of a wall bounce: position `p`, velocity `v`, radius `r`, wall at `hi`.
pub open spec fn axis_bounce(p: int, v: int, r: int, hi: int) -> (int, int) {
    if p - r < 0 {
        (r, sat(div_trunc(v * WALL_BOUNCE, SCALE as int)))
    } else if p + r > hi {
        (hi - r, sat(div_trunc(v * WALL_BOUNCE, SCALE as int)))
    } else {
        (p, v)
    }
}

/// Hue in thousandths read back from a red channel.
pub open spec fn hue_of_red(r: int) -> int {
    r * 1000 / 255
}

impl Ball {
    /// Radius in range, mass derived from it, components in range.
    pub open spec fn wf(self) -> bool {
        &&& self.pos.wf()
        &&& self.vel.wf()
        &&& BALL_RADIUS_MIN <= self.radius <= BALL_RADIUS_MAX
        &&& self.mass == self.radius / 2
    }

    /// The whole disc lies in the arena.
    pub open spec fn inside_arena(self) -> bool {
        &&& self.radius <= self.pos.x <= ARENA_WIDTH - self.radius
        &&& self.radius <= self.pos.y <= ARENA_HEIGHT - self.radius
    }

    /// The ball after one step of `dt` milliseconds under `gravity` and `friction`.
    pub open spec fn stepped(self, dt: int, gravity: int, friction: int) -> Ball {
        let vy = sat(self.vel.y + sat(div_trunc(gravity * dt, SCALE as int)));
        let keep = SCALE - sat(div_trunc(friction * dt, SCALE as int));
        let v = vec_of(self.vel.x as int, vy).scaled(keep);
        let p = self.pos.plus(v.scaled(dt));
        let (px, vx) = axis_bounce(p.x as int, v.x as int, self.radius as int, ARENA_WIDTH as int);
        let (py, vy2) = axis_bounce(p.y as int, v.y as int, self.radius as int, ARENA_HEIGHT as int);
        Ball {
            pos: vec_of(px, py),
            vel: vec_of(vx, vy2),
            color: hsv_color(
                hue_of_red(self.color.r as int) + dt / HUE_STEP_DIV as int,
                BALL_SATURATION as int,
                BALL_VALUE as int,
            ),
            ..self
        }
    }

    /// A live ball with the given state; its mass is half its radius.
    pub fn from_parts(pos: Vec2, vel: Vec2, radius: i64, color: Color) -> (b: Ball)
        requires
            pos.wf(),
            vel.wf(),
            BALL_RADIUS_MIN <= radius <= BALL_RADIUS_MAX,
        ensures
            b == (Ball { pos, vel, radius, color, mass: (radius / 2) as i64, alive: true }),
            b.wf(),
    {
        Ball { pos, vel, radius, color, mass: radius / 2, alive: true }
    }

    /// A live ball at a random place inside the arena, with a random radius,
    /// velocity and opaque colour.
    pub fn new(rng: &mut StdRng) -> (b: Ball)
        ensures
            b.wf(),
            b.alive,
            b.inside_arena(),
            BALL_RADIUS_MIN <= b.radius < BALL_RADIUS_MAX,
            -INITIAL_SPEED <= b.vel.x < INITIAL_SPEED,
            -INITIAL_SPEED <= b.vel.y < INITIAL_SPEED,
            COLOR_MIN <= b.color.r && COLOR_MIN <= b.color.g && COLOR_MIN <= b.color.b,
            b.color.a == 255,
    {
        let radius = draw_between(rng, BALL_RADIUS_MIN, BALL_RADIUS_MAX);
        let x = draw_between(rng, radius, ARENA_WIDTH - radius);
        let y = draw_between(rng, radius, ARENA_HEIGHT - radius);
        let vx = draw_between(rng, -INITIAL_SPEED, INITIAL_SPEED);
        let vy = draw_between(rng, -INITIAL_SPEED, INITIAL_SPEED);
        let r = draw_between(rng, COLOR_MIN, 255) as u8;
        let g = draw_between(rng, COLOR_MIN, 255) as u8;
        let b = draw_between(rng, COLOR_MIN, 255) as u8;
        Ball::from_parts(v2(x, y), v2(vx, vy), radius, Color { r, g, b, a: 255 })
    }

    /// Advances the ball by `dt` milliseconds: gravity, friction, motion, wall
    /// bounces and colour cycling. The ball ends inside the arena.
    pub fn update(&mut self, dt: u32, gravity: i64, friction: i64)
        requires
            old(self).wf(),
        ensures
            *final(self) == old(self).stepped(dt as int, gravity as int, friction as int),
            final(self).wf(),
            final(self).inside_arena(),
    {
        let dv = mul_div(gravity, dt as i64, SCALE);
        let vy = saturate(self.vel.y as i128 + dv as i128);
        let keep = SCALE - mul_div(friction, dt as i64, SCALE);
        let vel = v2(self.vel.x, vy).mul_scalar(keep);
        let pos = self.pos.add(vel.mul_scalar(dt as i64));
        let (px, vx) = if pos.x - self.radius < 0 {
            (self.radius, mul_div(vel.x, WALL_BOUNCE, SCALE))
        } else if pos.x + self.radius > ARENA_WIDTH {
            (ARENA_WIDTH - self.radius, mul_div(vel.x, WALL_BOUNCE, SCALE))
        } else {
            (pos.x, vel.x)
        };
        let (py, vy2) = if pos.y - self.radius < 0 {
            (self.radius, mul_div(vel.y, WALL_BOUNCE, SCALE))
        } else if pos.y + self.radius > ARENA_HEIGHT {
            (ARENA_HEIGHT - self.radius, mul_div(vel.y, WALL_BOUNCE, SCALE))
        } else {
            (pos.y, vel.y)
        };
        let hue: u64 = (self.color.r as u64) * 1000 / 255 + (dt / HUE_STEP_DIV) as u64;
        self.pos = v2(px, py);
        self.vel = v2(vx, vy2);
        self.color = hsv_to_rgb(hue, BALL_SATURATION, BALL_VALUE);
    }
}

/// Relative velocity of `b2` against `b1` along the contact normal; negative
/// while they approach.
pub open spec fn normal_speed(b1: Ball, b2: Ball) -> int {
    let delta = b2.pos.minus(b1.pos);
    sat(div_trunc(b2.vel.minus(b1.vel).dot_spec(delta), delta.norm()))
}

/// Total velocity change along the normal for an approach at `van`: the
/// approach speed times one plus the restitution.
pub open spec fn impulse(van: int) -> int {
    sat(div_trunc(-van * (SCALE + RESTITUTION), SCALE as int))
}

/// The part `amount * m / total`, rounded toward zero.
pub open spec fn share(amount: int, m: int, total: int) -> int {
    sat(div_trunc(amount * m, total))
}

/// The two balls after resolving their contact: overlapping live balls are pushed
/// apart along the line of centres, heavier ball moving less, and if they approach
/// each other an impulse with restitution is applied.
pub open spec fn collided(b1: Ball, b2: Ball) -> (Ball, Ball) {
    let delta = b2.pos.minus(b1.pos);
    let dist = delta.norm();
    let reach = b1.radius + b2.radius;
    if !b1.alive || !b2.alive || dist == 0 || dist >= reach {
        (b1, b2)
    } else {
        let pen = reach - dist;
        let total = b1.mass + b2.mass;
        let p1 = b1.pos.minus(delta.toward(share(pen, b2.mass as int, total)));
        let p2 = b2.pos.plus(delta.toward(share(pen, b1.mass as int, total)));
        let van = normal_speed(b1, b2);
        if van > 0 {
            (Ball { pos: p1, ..b1 }, Ball { pos: p2, ..b2 })
        } else {
            let j = impulse(van);
            (
                Ball { pos: p1, vel: b1.vel.minus(delta.toward(share(j, b2.mass as int, total))), ..b1 },
                Ball { pos: p2, vel: b2.vel.plus(delta.toward(share(j, b1.mass as int, total))), ..b2 },
            )
        }
    }
}

/// Resolves a contact between two balls, see `collided`.
pub fn balls_collision(b1: &mut Ball, b2: &mut Ball)
    requires
        old(b1).wf(),
        old(b2).wf(),
    ensures
        (*final(b1), *final(b2)) == collided(*old(b1), *old(b2)),
        old(b2).pos.minus(old(b1).pos).norm_sq() >= (old(b1).radius + old(b2).radius) * (
        old(b1).radius + old(b2).radius) ==> *final(b1) == *old(b1) && *final(b2) == *old(b2),
        final(b1).wf(),
        final(b2).wf(),
{
    proof {
        if b2.pos.minus(b1.pos).norm_sq() >= (b1.radius + b2.radius) * (b1.radius + b2.radius) {
            lemma_apart_unchanged(*b1, *b2);
        }
    }
    if !b1.alive || !b2.alive {
        return;
    }
    let delta = b2.pos.sub(b1.pos);
    let dist = delta.length();
    if dist == 0 {
        return;
    }
    let reach = b1.radius + b2.radius;
    if dist < reach {
        let pen = reach - dist;
        let total = b1.mass + b2.mass;
        b1.pos = b1.pos.sub(delta.with_length(mul_div(pen, b2.mass, total)));
        b2.pos = b2.pos.add(delta.with_length(mul_div(pen, b1.mass, total)));
        let rel = b2.vel.sub(b1.vel);
        let van = saturate(div_toward_zero(rel.dot(delta), dist as i128));
        if van > 0 {
            return;
        }
        let j = mul_div(-van, SCALE + RESTITUTION, SCALE);
        b1.vel = b1.vel.sub(delta.with_length(mul_div(j, b2.mass, total)));
        b2.vel = b2.vel.add(delta.with_length(mul_div(j, b1.mass, total)));
    }
}

/// Balls whose centres lie at least the sum of their radii apart keep their
/// positions and velocities.
pub proof fn lemma_apart_unchanged(b1: Ball, b2: Ball)
    requires
        b1.wf(),
        b2.wf(),
        b2.pos.minus(b1.pos).norm_sq() >= (b1.radius + b2.radius) * (b1.radius + b2.radius),
    ensures
        collided(b1, b2) == (b1, b2),
{
    let delta = b2.pos.minus(b1.pos);
    assert(delta.norm_sq() >= 0) by (nonlinear_arith)
        requires
            delta.norm_sq() == delta.x * delta.x + delta.y * delta.y,
    ;
    lemma_root_vs_square(delta.norm_sq(), b1.radius + b2.radius);
}

/// Two overlapping live balls of equal mass are each pushed by half the
/// penetration depth, in opposite directions along the line of centres.
pub proof fn lemma_equal_mass_halves(b1: Ball, b2: Ball)
    requires
        b1.wf(),
        b2.wf(),
        b1.alive,
        b2.alive,
        b1.mass == b2.mass,
        0 < b2.pos.minus(b1.pos).norm() < b1.radius + b2.radius,
    ensures
        ({
            let delta = b2.pos.minus(b1.pos);
            let shift = delta.toward((b1.radius + b2.radius - delta.norm()) / 2);
            &&& collided(b1, b2).0.pos == b1.pos.minus(shift)
            &&& collided(b1, b2).1.pos == b2.pos.plus(shift)
        }),
{
    let delta = b2.pos.minus(b1.pos);
    let pen = b1.radius + b2.radius - delta.norm();
    let m = b1.mass as int;
    let q = pen / 2;
    let r = pen % 2;
    assert(pen * m == q * (m + m) + r * m && 0 <= r * m < m + m) by (nonlinear_arith)
        requires
            pen == 2 * q + r,
            0 <= r < 2,
            m > 0,
    ;
    lemma_fundamental_div_mod_converse(pen * m, m + m, q, r * m);
    assert(pen <= 60_000);
    assert(q <= 30_000);
}

/// Restitution along the contact normal: for an approaching, overlapping live
/// pair, the two velocity changes are directed apart and add up to one plus the
/// restitution times the approach speed, so the pair separates at nine tenths of
/// its approach speed, less at most two thousandths of a unit per second of
/// rounding (approach speeds up to half the saturation range); and the two
/// changes carry equal momentum, to within the rounding of each share.
pub proof fn lemma_restitution_bound(b1: Ball, b2: Ball)
    requires
        b1.wf(),
        b2.wf(),
        b1.alive,
        b2.alive,
        0 < b2.pos.minus(b1.pos).norm() < b1.radius + b2.radius,
        -500_000_000 <= normal_speed(b1, b2) <= 0,
    ensures
        ({
            let van = normal_speed(b1, b2);
            let total = b1.mass + b2.mass;
            let d1 = share(impulse(van), b2.mass as int, total);
            let d2 = share(impulse(van), b1.mass as int, total);
            let delta = b2.pos.minus(b1.pos);
            &&& collided(b1, b2).0.vel == b1.vel.minus(delta.toward(d1))
            &&& collided(b1, b2).1.vel == b2.vel.plus(delta.toward(d2))
            &&& 0 <= d1 && 0 <= d2
            &&& 9 * (-van) - 20 < 10 * (van + d1 + d2) <= 9 * (-van)
            &&& -total < b1.mass * d1 - b2.mass * d2 < total
        }),
{
    let van = normal_speed(b1, b2);
    let w = -van;
    let m1 = b1.mass as int;
    let m2 = b2.mass as int;
    let total = m1 + m2;
    let j = w * 1900 / 1000;
    assert(impulse(van) == j);
    assert(19 * w - 10 < 10 * j <= 19 * w);
    let q1 = (j * m2) / total;
    let q2 = (j * m1) / total;
    assert(0 <= j * m2 && 0 <= j * m1 && j * m2 + j * m1 == j * total) by (nonlinear_arith)
        requires
            j >= 0,
            m1 > 0,
            m2 > 0,
            total == m1 + m2,
    ;
    vstd::arithmetic::div_mod::lemma_fundamental_div_mod(j * m2, total);
    vstd::arithmetic::div_mod::lemma_fundamental_div_mod(j * m1, total);
    let r1 = (j * m2) % total;
    let r2 = (j * m1) % total;
    assert(j - 2 < q1 + q2 <= j && 0 <= q1 <= j && 0 <= q2 <= j) by (nonlinear_arith)
        requires
            j * m2 == total * q1 + r1,
            j * m1 == total * q2 + r2,
            0 <= r1 < total,
            0 <= r2 < total,
            j * m2 + j * m1 == j * total,
            0 <= j * m2 <= j * total,
            0 <= j * m1 <= j * total,
            total > 0,
            j >= 0,
    ;
    assert(share(j, m2, total) == q1);
    assert(share(j, m1, total) == q2);
    assert(-total < m1 * q1 - m2 * q2 < total) by (nonlinear_arith)
        requires
            j * m2 == total * q1 + r1,
            j * m1 == total * q2 + r2,
            0 <= r1 < total,
            0 <= r2 < total,
            m1 > 0,
            m2 > 0,
            total == m1 + m2,
    ;
}

} // verus!
