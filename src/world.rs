//! The simulation world: every entity, the tunables, and the per-frame step.
use vstd::prelude::*;
use rand::rngs::StdRng;
use crate::ball::{balls_collision, collided, Ball};
use crate::bullet::Bullet;
use crate::color::Color;
use crate::config::{
    ARENA_HEIGHT, ARENA_WIDTH, BALL_RADIUS_MAX, BALL_RADIUS_MIN, COLOR_MIN, FRICTION_BASE,
    FRICTION_MAX, FRICTION_STEP_DIV, GRAVITY_BASE, GRAVITY_MAX, GRAVITY_STEP, INITIAL_BALLS,
    BULLET_RADIUS, BULLET_SPEED, MAX_BALLS, MIN_AIM, PARTICLES_PER_HIT, PARTICLE_LIFE, PLAYER_ACCEL, PLAYER_FRICTION,
    PLAYER_MAX_SPEED, PLAYER_RADIUS, POINTER_MIN_DIST_SQ, POINTER_STRENGTH, SPAWN_SPEED,
};
use crate::fixed::{clamp, div_toward_zero, div_trunc, mul_div, sat, SCALE};
use crate::particle::{fresh_at, Particle};
use crate::random::draw_between;
use crate::vector::{v2, vec_of, Vec2};

verus! {

/// Everything that the simulation owns.
pub struct World {
    pub balls: Vec<Ball>,
    pub bullets: Vec<Bullet>,
    pub particles: Vec<Particle>,
    pub player_pos: Vec2,
    pub player_vel: Vec2,
    /// Thousandths of a unit per second squared, in `[0, GRAVITY_MAX]`.
    pub gravity: i64,
    /// Thousandths per second, in `[0, FRICTION_MAX]`.
    pub friction: i64,
    pub attract_mode: bool,
    pub paused: bool,
}

pub open spec fn all_balls_wf(s: Seq<Ball>) -> bool {
    forall|k: int| 0 <= k < s.len() ==> (#[trigger] s[k]).wf()
}

pub open spec fn all_bullets_wf(s: Seq<Bullet>) -> bool {
    forall|k: int| 0 <= k < s.len() ==> (#[trigger] s[k]).wf()
}

pub open spec fn all_particles_wf(s: Seq<Particle>) -> bool {
    forall|k: int| 0 <= k < s.len() ==> (#[trigger] s[k]).wf()
}

/// The live balls of `s`, in order.
pub open spec fn live_balls(s: Seq<Ball>) -> Seq<Ball> {
    s.filter(|b: Ball| b.alive)
}

/// The live bullets of `s`, in order.
pub open spec fn live_bullets(s: Seq<Bullet>) -> Seq<Bullet> {
    s.filter(|b: Bullet| b.alive)
}

/// The particles of `s` with life left, in order.
pub open spec fn live_particles(s: Seq<Particle>) -> Seq<Particle> {
    s.filter(|b: Particle| b.live())
}

/// `s` with balls `i` and `j` resolved against each other.
pub open spec fn collide_at(s: Seq<Ball>, i: int, j: int) -> Seq<Ball> {
    let (a, b) = collided(s[i], s[j]);
    s.update(i, a).update(j, b)
}

/// Resolves the pairs `(i, j), (i, j + 1), ...` and then every later pair
/// `(i', j')` with `i < i' < j' < n`, in that order.
pub open spec fn sweep(s: Seq<Ball>, n: int, i: int, j: int) -> Seq<Ball>
    decreases n - i, n - j,
{
    if i >= n || j < 0 {
        s
    } else if j >= n {
        sweep(s, n, i + 1, i + 2)
    } else {
        sweep(collide_at(s, i, j), n, i, j + 1)
    }
}

/// Every unordered pair of `s` resolved once, in index order.
pub open spec fn all_pairs_resolved(s: Seq<Ball>) -> Seq<Ball> {
    sweep(s, s.len() as int, 0, 1)
}

/// A ball after the pointer force of one frame: toward the pointer in attract
/// mode, away from it otherwise, of strength falling with the squared distance.
pub open spec fn pulled(b: Ball, pointer: Vec2, attract: bool, dt: int) -> Ball {
    let dir = if attract {
        pointer.minus(b.pos)
    } else {
        b.pos.minus(pointer)
    };
    let dsq = if dir.norm_sq() < POINTER_MIN_DIST_SQ {
        POINTER_MIN_DIST_SQ as int
    } else {
        dir.norm_sq()
    };
    let dv = sat(div_trunc((POINTER_STRENGTH as int / dsq) * dt, SCALE as int));
    Ball { vel: b.vel.plus(dir.toward(dv)), ..b }
}

/// A tunable after one frame of held adjustment `dir` (-1, 0 or 1).
pub open spec fn adjusted(value: int, dir: int, step: int, hi: int) -> int {
    if dir > 0 {
        clamp(value + step, 0, hi)
    } else if dir < 0 {
        clamp(value - step, 0, hi)
    } else {
        value
    }
}

impl World {
    /// The player and the tunables are as in `o`.
    pub open spec fn same_settings(&self, o: &World) -> bool {
        &&& self.player_pos == o.player_pos
        &&& self.player_vel == o.player_vel
        &&& self.gravity == o.gravity
        &&& self.friction == o.friction
        &&& self.attract_mode == o.attract_mode
        &&& self.paused == o.paused
    }

    /// The ball population is capped, every entity is well formed, the tunables
    /// are in range.
    pub open spec fn wf(&self) -> bool {
        &&& self.balls.len() <= MAX_BALLS
        &&& all_balls_wf(self.balls@)
        &&& all_bullets_wf(self.bullets@)
        &&& all_particles_wf(self.particles@)
        &&& self.player_pos.wf()
        &&& self.player_vel.wf()
        &&& 0 <= self.gravity <= GRAVITY_MAX
        &&& 0 <= self.friction <= FRICTION_MAX
    }

    /// A world with the initial balls at random places, the player at rest in the
    /// middle and the tunables at their defaults.
    pub fn new(rng: &mut StdRng) -> (w: World)
        ensures
            w.wf(),
            w.balls.len() == INITIAL_BALLS,
            forall|k: int| 0 <= k < w.balls.len() ==> (#[trigger] w.balls@[k]).inside_arena() && w.balls@[k].alive,
            w.bullets.len() == 0,
            w.particles.len() == 0,
            w.player_pos == vec_of(ARENA_WIDTH / 2, ARENA_HEIGHT / 2),
            w.player_vel == vec_of(0, 0),
            w.gravity == GRAVITY_BASE,
            w.friction == FRICTION_BASE,
            !w.attract_mode,
            !w.paused,
    {
        let mut balls: Vec<Ball> = Vec::new();
        let mut i: usize = 0;
        while i < INITIAL_BALLS
            invariant
                i <= INITIAL_BALLS,
                balls.len() == i,
                all_balls_wf(balls@),
                forall|k: int| 0 <= k < balls.len() ==> (#[trigger] balls@[k]).inside_arena() && balls@[k].alive,
            decreases INITIAL_BALLS - i,
        {
            balls.push(Ball::new(rng));
            i = i + 1;
        }
        World {
            balls,
            bullets: Vec::new(),
            particles: Vec::new(),
            player_pos: v2(ARENA_WIDTH / 2, ARENA_HEIGHT / 2),
            player_vel: v2(0, 0),
            gravity: GRAVITY_BASE,
            friction: FRICTION_BASE,
            attract_mode: false,
            paused: false,
        }
    }

    /// Adds `b` unless the population is at its cap; tells whether it was added.
    pub fn add_ball(&mut self, b: Ball) -> (added: bool)
        requires
            old(self).wf(),
            b.wf(),
        ensures
            final(self).wf(),
            added == (old(self).balls.len() < MAX_BALLS),
            added ==> final(self).balls@ == old(self).balls@.push(b),
            !added ==> final(self).balls@ == old(self).balls@,
            final(self).balls.len() <= MAX_BALLS,
            final(self).bullets@ == old(self).bullets@,
            final(self).particles@ == old(self).particles@,
            final(self).player_pos == old(self).player_pos,
            final(self).player_vel == old(self).player_vel,
            final(self).gravity == old(self).gravity,
            final(self).friction == old(self).friction,
            final(self).attract_mode == old(self).attract_mode,
            final(self).paused == old(self).paused,
    {
        if self.balls.len() < MAX_BALLS {
            self.balls.push(b);
            true
        } else {
            false
        }
    }

    /// Spawns a ball at `at` with a random velocity, radius and colour, unless
    /// the population is at its cap.
    pub fn spawn_ball(&mut self, at: Vec2, rng: &mut StdRng)
        requires
            old(self).wf(),
            at.wf(),
        ensures
            final(self).wf(),
            old(self).balls.len() <= final(self).balls.len(),
            final(self).balls@.subrange(0, old(self).balls.len() as int) == old(self).balls@,
            spawned_ok(
                final(self).balls@.subrange(old(self).balls.len() as int, final(self).balls.len() as int),
                old(self).balls.len() as int,
                at,
            ),
            final(self).bullets@ == old(self).bullets@,
            final(self).particles@ == old(self).particles@,
            final(self).same_settings(old(self)),
    {
        if self.balls.len() < MAX_BALLS {
            let vx = draw_between(rng, -SPAWN_SPEED, SPAWN_SPEED);
            let vy = draw_between(rng, -SPAWN_SPEED, SPAWN_SPEED);
            let radius = draw_between(rng, BALL_RADIUS_MIN, BALL_RADIUS_MAX);
            let r = draw_between(rng, COLOR_MIN, 255) as u8;
            let g = draw_between(rng, COLOR_MIN, 255) as u8;
            let b = draw_between(rng, COLOR_MIN, 255) as u8;
            let ball = Ball::from_parts(at, v2(vx, vy), radius, Color { r, g, b, a: 255 });
            self.add_ball(ball);
            assert(self.balls@.subrange(0, old(self).balls.len() as int) =~= old(self).balls@);
            assert(self.balls@.subrange(old(self).balls.len() as int, self.balls.len() as int) =~= seq![ball]);
        } else {
            assert(self.balls@.subrange(0, old(self).balls.len() as int) =~= old(self).balls@);
            assert(self.balls@.subrange(old(self).balls.len() as int, self.balls.len() as int) =~= Seq::<Ball>::empty());
        }
    }

    /// Fires a bullet from the player toward `target`, unless the target is
    /// within the minimum aim distance.
    pub fn fire(&mut self, target: Vec2)
        requires
            old(self).wf(),
        ensures
            final(self).wf(),
            final(self).bullets@ == fired(old(self).bullets@, old(self).player_pos, target),
            final(self).balls@ == old(self).balls@,
            final(self).particles@ == old(self).particles@,
            final(self).same_settings(old(self)),
    {
        let dir = target.sub(self.player_pos);
        if dir.length() > MIN_AIM {
            self.bullets.push(Bullet::new(self.player_pos, dir));
        }
    }

    /// Applies held tunable adjustments (-1, 0 or 1 each) for `dt` milliseconds,
    /// keeping gravity and friction within their ranges.
    pub fn adjust_tunables(&mut self, gravity_dir: i64, friction_dir: i64, dt: u32)
        requires
            old(self).wf(),
        ensures
            final(self).wf(),
            final(self).gravity == adjusted(old(self).gravity as int, gravity_dir as int, GRAVITY_STEP * dt as int, GRAVITY_MAX as int),
            final(self).friction == adjusted(old(self).friction as int, friction_dir as int, dt as int / FRICTION_STEP_DIV as int, FRICTION_MAX as int),
            final(self).balls@ == old(self).balls@,
            final(self).bullets@ == old(self).bullets@,
            final(self).particles@ == old(self).particles@,
            final(self).player_pos == old(self).player_pos,
            final(self).player_vel == old(self).player_vel,
            final(self).attract_mode == old(self).attract_mode,
            final(self).paused == old(self).paused,
    {
        let gstep = GRAVITY_STEP * dt as i64;
        let fstep = dt as i64 / FRICTION_STEP_DIV;
        self.gravity = shift_clamped(self.gravity, gravity_dir, gstep, GRAVITY_MAX);
        self.friction = shift_clamped(self.friction, friction_dir, fstep, FRICTION_MAX);
    }
}

impl World {
    /// Removes the balls and bullets that died this frame, keeping the order of
    /// the rest.
    pub fn compact(&mut self)
        requires
            old(self).wf(),
        ensures
            final(self).wf(),
            final(self).balls@ == live_balls(old(self).balls@),
            final(self).bullets@ == live_bullets(old(self).bullets@),
            final(self).particles@ == old(self).particles@,
            final(self).player_pos == old(self).player_pos,
            final(self).player_vel == old(self).player_vel,
            final(self).gravity == old(self).gravity,
            final(self).friction == old(self).friction,
            final(self).attract_mode == old(self).attract_mode,
            final(self).paused == old(self).paused,
    {
        let mut balls: Vec<Ball> = Vec::new();
        let mut i: usize = 0;
        while i < self.balls.len()
            invariant
                i <= self.balls.len(),
                self.balls@ == old(self).balls@,
                balls@ == live_balls(self.balls@.subrange(0, i as int)),
                balls.len() <= i,
                all_balls_wf(balls@),
                all_balls_wf(self.balls@),
            decreases self.balls.len() - i,
        {
            assert(self.balls@.subrange(0, i + 1).drop_last() =~= self.balls@.subrange(0, i as int));
            reveal(Seq::filter);
            if self.balls[i].alive {
                balls.push(self.balls[i]);
            }
            i = i + 1;
        }
        assert(self.balls@.subrange(0, i as int) =~= self.balls@);
        let mut bullets: Vec<Bullet> = Vec::new();
        let mut i: usize = 0;
        while i < self.bullets.len()
            invariant
                i <= self.bullets.len(),
                self.bullets@ == old(self).bullets@,
                bullets@ == live_bullets(self.bullets@.subrange(0, i as int)),
                all_bullets_wf(bullets@),
                all_bullets_wf(self.bullets@),
            decreases self.bullets.len() - i,
        {
            assert(self.bullets@.subrange(0, i + 1).drop_last() =~= self.bullets@.subrange(0, i as int));
            reveal(Seq::filter);
            if self.bullets[i].alive {
                bullets.push(self.bullets[i]);
            }
            i = i + 1;
        }
        assert(self.bullets@.subrange(0, i as int) =~= self.bullets@);
        self.balls = balls;
        self.bullets = bullets;
    }

    /// Advances every particle by `dt` milliseconds and drops those whose life
    /// has run out, keeping the order of the rest.
    pub fn update_particles(&mut self, dt: u32)
        requires
            old(self).wf(),
        ensures
            final(self).wf(),
            final(self).particles@ == live_particles(
                old(self).particles@.map_values(|p: Particle| p.stepped(dt as int)),
            ),
            final(self).balls@ == old(self).balls@,
            final(self).bullets@ == old(self).bullets@,
            final(self).same_settings(old(self)),
    {
        let ghost stepped = old(self).particles@.map_values(|p: Particle| p.stepped(dt as int));
        let mut kept: Vec<Particle> = Vec::new();
        let mut i: usize = 0;
        while i < self.particles.len()
            invariant
                i <= self.particles.len(),
                self.particles@ == old(self).particles@,
                stepped.len() == self.particles.len(),
                forall|k: int| 0 <= k < stepped.len() ==> #[trigger] stepped[k] == self.particles@[k].stepped(dt as int),
                kept@ == live_particles(stepped.subrange(0, i as int)),
                all_particles_wf(kept@),
                all_particles_wf(self.particles@),
                self.same_settings(old(self)),
                self.balls@ == old(self).balls@,
                self.bullets@ == old(self).bullets@,
            decreases self.particles.len() - i,
        {
            assert(stepped.subrange(0, i + 1).drop_last() =~= stepped.subrange(0, i as int));
            reveal(Seq::filter);
            let mut p = self.particles[i];
            p.update(dt);
            if p.life > 0 {
                kept.push(p);
            }
            i = i + 1;
        }
        assert(stepped.subrange(0, i as int) =~= stepped);
        self.particles = kept;
    }

    /// Advances every bullet by `dt` milliseconds.
    pub fn update_bullets(&mut self, dt: u32)
        requires
            old(self).wf(),
        ensures
            final(self).wf(),
            final(self).bullets@ == old(self).bullets@.map_values(|b: Bullet| b.moved(dt as int)),
            final(self).balls@ == old(self).balls@,
            final(self).particles@ == old(self).particles@,
            final(self).same_settings(old(self)),
    {
        let mut i: usize = 0;
        while i < self.bullets.len()
            invariant
                self.wf(),
                i <= self.bullets.len(),
                self.bullets.len() == old(self).bullets.len(),
                forall|k: int| 0 <= k < i ==> #[trigger] self.bullets@[k] == old(self).bullets@[k].moved(dt as int),
                forall|k: int| i <= k < self.bullets.len() ==> #[trigger] self.bullets@[k] == old(self).bullets@[k],
                self.balls@ == old(self).balls@,
                self.particles@ == old(self).particles@,
                self.same_settings(old(self)),
            decreases self.bullets.len() - i,
        {
            let mut b = self.bullets[i];
            b.update(dt);
            self.bullets.set(i, b);
            i = i + 1;
        }
        assert(self.bullets@ =~= old(self).bullets@.map_values(|b: Bullet| b.moved(dt as int)));
    }

    /// Applies the pointer force to every ball and then advances it by `dt`
    /// milliseconds under the world's gravity and friction.
    pub fn update_balls(&mut self, pointer: Vec2, dt: u32)
        requires
            old(self).wf(),
            pointer.wf(),
        ensures
            final(self).wf(),
            final(self).balls.len() == old(self).balls.len(),
            forall|k: int| 0 <= k < final(self).balls.len() ==> #[trigger] final(self).balls@[k] == pulled(
                old(self).balls@[k], pointer, old(self).attract_mode, dt as int,
            ).stepped(dt as int, old(self).gravity as int, old(self).friction as int),
            final(self).balls@ == old(self).balls@.map_values(
                |b: Ball| pulled(b, pointer, old(self).attract_mode, dt as int).stepped(dt as int, old(self).gravity as int, old(self).friction as int),
            ),
            forall|k: int| 0 <= k < final(self).balls.len() ==> (#[trigger] final(self).balls@[k]).inside_arena(),
            final(self).bullets@ == old(self).bullets@,
            final(self).particles@ == old(self).particles@,
            final(self).gravity == old(self).gravity,
            final(self).friction == old(self).friction,
            final(self).attract_mode == old(self).attract_mode,
            final(self).paused == old(self).paused,
            final(self).player_pos == old(self).player_pos,
            final(self).player_vel == old(self).player_vel,
    {
        let mut i: usize = 0;
        while i < self.balls.len()
            invariant
                self.wf(),
                pointer.wf(),
                i <= self.balls.len(),
                self.balls.len() == old(self).balls.len(),
                forall|k: int| 0 <= k < i ==> #[trigger] self.balls@[k] == pulled(
                    old(self).balls@[k], pointer, old(self).attract_mode, dt as int,
                ).stepped(dt as int, old(self).gravity as int, old(self).friction as int),
                forall|k: int| 0 <= k < i ==> (#[trigger] self.balls@[k]).inside_arena(),
                forall|k: int| i <= k < self.balls.len() ==> #[trigger] self.balls@[k] == old(self).balls@[k],
                self.bullets@ == old(self).bullets@,
                self.particles@ == old(self).particles@,
                self.gravity == old(self).gravity,
                self.friction == old(self).friction,
                self.attract_mode == old(self).attract_mode,
                self.paused == old(self).paused,
                self.player_pos == old(self).player_pos,
                self.player_vel == old(self).player_vel,
            decreases self.balls.len() - i,
        {
            let mut b = self.balls[i];
            let dir = if self.attract_mode {
                pointer.sub(b.pos)
            } else {
                b.pos.sub(pointer)
            };
            let lsq = dir.length_sq();
            let dsq = if lsq < POINTER_MIN_DIST_SQ {
                POINTER_MIN_DIST_SQ
            } else {
                lsq
            };
            let force = div_toward_zero(POINTER_STRENGTH, dsq);
            proof {
                let d = dsq as int;
                assert(100_000_000_000_000int / d <= 100_000_000) by (nonlinear_arith)
                    requires
                        d >= 1_000_000,
                ;
            }
            let dv = mul_div(force as i64, dt as i64, SCALE);
            b.vel = b.vel.add(dir.with_length(dv));
            b.update(dt, self.gravity, self.friction);
            self.balls.set(i, b);
            i = i + 1;
        }
        assert(self.balls@ =~= old(self).balls@.map_values(
            |b: Ball| pulled(b, pointer, old(self).attract_mode, dt as int).stepped(dt as int, old(self).gravity as int, old(self).friction as int),
        ));
    }

    /// Resolves every unordered pair of balls once, in index order.
    pub fn resolve_collisions(&mut self)
        requires
            old(self).wf(),
        ensures
            final(self).wf(),
            final(self).balls@ == all_pairs_resolved(old(self).balls@),
            final(self).bullets@ == old(self).bullets@,
            final(self).particles@ == old(self).particles@,
            final(self).gravity == old(self).gravity,
            final(self).friction == old(self).friction,
            final(self).attract_mode == old(self).attract_mode,
            final(self).paused == old(self).paused,
            final(self).player_pos == old(self).player_pos,
            final(self).player_vel == old(self).player_vel,
    {
        let n = self.balls.len();
        let mut i: usize = 0;
        while i < n
            invariant
                self.wf(),
                n == self.balls.len(),
                i <= n,
                sweep(self.balls@, n as int, i as int, i + 1) == all_pairs_resolved(old(self).balls@),
                self.bullets@ == old(self).bullets@,
                self.particles@ == old(self).particles@,
                self.gravity == old(self).gravity,
                self.friction == old(self).friction,
                self.attract_mode == old(self).attract_mode,
                self.paused == old(self).paused,
                self.player_pos == old(self).player_pos,
                self.player_vel == old(self).player_vel,
            decreases n - i,
        {
            let mut j: usize = i + 1;
            while j < n
                invariant
                    self.wf(),
                    n == self.balls.len(),
                    i < n,
                    i + 1 <= j <= n,
                    sweep(self.balls@, n as int, i as int, j as int) == all_pairs_resolved(old(self).balls@),
                    self.bullets@ == old(self).bullets@,
                    self.particles@ == old(self).particles@,
                    self.gravity == old(self).gravity,
                    self.friction == old(self).friction,
                    self.attract_mode == old(self).attract_mode,
                    self.paused == old(self).paused,
                    self.player_pos == old(self).player_pos,
                    self.player_vel == old(self).player_vel,
                decreases n - j,
            {
                let ghost before = self.balls@;
                let mut a = self.balls[i];
                let mut b = self.balls[j];
                balls_collision(&mut a, &mut b);
                self.balls.set(i, a);
                self.balls.set(j, b);
                assert(self.balls@ == collide_at(before, i as int, j as int));
                j = j + 1;
            }
            i = i + 1;
        }
    }
}

/// A live ball that the bullet's disc overlaps.
pub open spec fn struck(bl: Bullet, b: Ball) -> bool {
    b.alive && bl.pos.minus(b.pos).norm() < bl.radius + b.radius
}

/// Ball `k` is the first that the bullet strikes.
pub open spec fn first_struck(bl: Bullet, s: Seq<Ball>, k: int) -> bool {
    &&& 0 <= k < s.len()
    &&& struck(bl, s[k])
    &&& forall|m: int| 0 <= m < k ==> !struck(bl, #[trigger] s[m])
}

/// `fresh` is one burst of `PARTICLES_PER_HIT` new particles at each of
/// `positions`, in order.
pub open spec fn burst_particles(fresh: Seq<Particle>, positions: Seq<Vec2>) -> bool {
    &&& fresh.len() == PARTICLES_PER_HIT * positions.len()
    &&& forall|k: int| 0 <= k < fresh.len() ==> fresh_at(#[trigger] fresh[k], positions[k / PARTICLES_PER_HIT as int])
}

/// `s` holds `old` followed by one burst at each of `positions`.
pub open spec fn bursts_appended(s: Seq<Particle>, old: Seq<Particle>, positions: Seq<Vec2>) -> bool {
    &&& old.len() <= s.len()
    &&& s.subrange(0, old.len() as int) == old
    &&& burst_particles(s.subrange(old.len() as int, s.len() as int), positions)
}

/// Bullet `i` against the balls: if alive and some live ball overlaps it, the
/// first such ball and the bullet die and a burst is due at that ball's centre.
pub open spec fn hit_step(balls: Seq<Ball>, bullets: Seq<Bullet>, i: int) -> (Seq<Ball>, Seq<Bullet>, Seq<Vec2>) {
    let bl = bullets[i];
    if bl.alive && exists|k: int| first_struck(bl, balls, k) {
        let k = choose|k: int| first_struck(bl, balls, k);
        (
            balls.update(k, Ball { alive: false, ..balls[k] }),
            bullets.update(i, Bullet { alive: false, ..bl }),
            seq![balls[k].pos],
        )
    } else {
        (balls, bullets, Seq::empty())
    }
}

/// Bullets `0..n` in turn against the balls, each judged on the flags that the
/// earlier ones left; with the burst positions in order.
pub open spec fn hits_upto(balls: Seq<Ball>, bullets: Seq<Bullet>, n: int) -> (Seq<Ball>, Seq<Bullet>, Seq<Vec2>)
    decreases n,
{
    if n <= 0 {
        (balls, bullets, Seq::empty())
    } else {
        let r = hits_upto(balls, bullets, n - 1);
        let t = hit_step(r.0, r.1, n - 1);
        (t.0, t.1, r.2 + t.2)
    }
}

/// Every bullet in turn against the balls.
pub open spec fn all_hits(balls: Seq<Ball>, bullets: Seq<Bullet>) -> (Seq<Ball>, Seq<Bullet>, Seq<Vec2>) {
    hits_upto(balls, bullets, bullets.len() as int)
}

/// A ball spawned at `at`: live, well formed, velocity, radius and colour in
/// their spawn ranges.
pub open spec fn spawned_ball(b: Ball, at: Vec2) -> bool {
    &&& b.wf()
    &&& b.alive
    &&& b.pos == at
    &&& -SPAWN_SPEED <= b.vel.x < SPAWN_SPEED
    &&& -SPAWN_SPEED <= b.vel.y < SPAWN_SPEED
    &&& BALL_RADIUS_MIN <= b.radius < BALL_RADIUS_MAX
    &&& COLOR_MIN <= b.color.r && COLOR_MIN <= b.color.g && COLOR_MIN <= b.color.b
    &&& b.color.a == 255
}

/// The balls that a spawn command adds: one below the cap, none at it.
pub open spec fn spawned_ok(spawned: Seq<Ball>, count: int, at: Vec2) -> bool {
    &&& spawned.len() == (if count < MAX_BALLS { 1int } else { 0int })
    &&& forall|k: int| 0 <= k < spawned.len() ==> spawned_ball(#[trigger] spawned[k], at)
}

/// `bullets` with a bullet fired from `from` toward `target` appended, when
/// the target is farther than the minimum aim distance.
pub open spec fn fired(bullets: Seq<Bullet>, from: Vec2, target: Vec2) -> Seq<Bullet> {
    let dir = target.minus(from);
    if dir.norm() > MIN_AIM {
        bullets.push(Bullet { pos: from, vel: dir.toward(BULLET_SPEED as int), radius: BULLET_RADIUS, alive: true })
    } else {
        bullets
    }
}

/// Player velocity after one frame: accelerated along the held direction, or
/// damped toward rest without input, then limited to the top speed.
pub open spec fn player_velocity(vel: Vec2, mx: int, my: int, dt: int) -> Vec2 {
    let v = if mx != 0 || my != 0 {
        vel.plus(vec_of(mx * SCALE, my * SCALE).toward(sat(div_trunc(PLAYER_ACCEL * dt, SCALE as int))))
    } else {
        vel.minus(vel.scaled(sat(div_trunc(PLAYER_FRICTION * dt, SCALE as int))))
    };
    if v.norm() > PLAYER_MAX_SPEED {
        v.toward(PLAYER_MAX_SPEED as int)
    } else {
        v
    }
}

/// Player position after moving at `vel` for `dt` milliseconds, kept inside the arena.
pub open spec fn player_position(pos: Vec2, vel: Vec2, dt: int) -> Vec2 {
    let p = pos.plus(vel.scaled(dt));
    vec_of(
        clamp(p.x as int, PLAYER_RADIUS as int, (ARENA_WIDTH - PLAYER_RADIUS) as int),
        clamp(p.y as int, PLAYER_RADIUS as int, (ARENA_HEIGHT - PLAYER_RADIUS) as int),
    )
}

/// Balls, bullets and burst positions of an unpaused frame before dead bodies
/// are removed: `spawned` joins the balls, which feel the pointer force and
/// move; every pair is resolved; a fired bullet joins the bullets, which fly;
/// then every bullet strikes in turn.
pub open spec fn frame_bodies(
    balls: Seq<Ball>,
    bullets: Seq<Bullet>,
    spawned: Seq<Ball>,
    input: FrameInput,
    attract: bool,
    player_pos: Vec2,
    gravity: int,
    friction: int,
) -> (Seq<Ball>, Seq<Bullet>, Seq<Vec2>) {
    let dt = input.dt as int;
    let moved = (balls + spawned).map_values(
        |b: Ball| pulled(b, input.pointer, attract, dt).stepped(dt, gravity, friction),
    );
    let shot = if input.fire {
        fired(bullets, player_pos, input.pointer)
    } else {
        bullets
    };
    all_hits(all_pairs_resolved(moved), shot.map_values(|b: Bullet| b.moved(dt)))
}

/// `after` is `before` after an unpaused frame in which `spawned` are the
/// balls spawned and `fresh` the particles released by hits.
pub open spec fn frame_outcome(
    before: World,
    after: World,
    input: FrameInput,
    spawned: Seq<Ball>,
    fresh: Seq<Particle>,
) -> bool {
    let r = frame_bodies(
        before.balls@,
        before.bullets@,
        spawned,
        input,
        after.attract_mode,
        after.player_pos,
        before.gravity as int,
        before.friction as int,
    );
    &&& if input.spawn {
        spawned_ok(spawned, before.balls.len() as int, input.pointer)
    } else {
        spawned.len() == 0
    }
    &&& after.balls@ == live_balls(r.0)
    &&& after.bullets@ == live_bullets(r.1)
    &&& burst_particles(fresh, r.2)
    &&& after.particles@ == live_particles((before.particles@ + fresh).map_values(|p: Particle| p.stepped(input.dt as int)))
}

/// The commands of one frame.
#[derive(Clone, Copy, Debug, PartialEq, Eq, Structural)]
pub struct FrameInput {
    /// Frame time, milliseconds.
    pub dt: u32,
    /// Held horizontal direction: -1, 0 or 1.
    pub move_x: i64,
    /// Held vertical direction (down is positive): -1, 0 or 1.
    pub move_y: i64,
    /// Pointer position.
    pub pointer: Vec2,
    pub fire: bool,
    pub spawn: bool,
    pub toggle_attract: bool,
    pub toggle_pause: bool,
    /// Held gravity adjustment: -1, 0 or 1.
    pub gravity_adjust: i64,
    /// Held friction adjustment: -1, 0 or 1.
    pub friction_adjust: i64,
}

impl FrameInput {
    pub open spec fn wf(self) -> bool {
        &&& self.pointer.wf()
        &&& -1 <= self.move_x <= 1
        &&& -1 <= self.move_y <= 1
    }
}

impl World {
    /// Appends a burst of particles at `pos`.
    pub fn spawn_burst(&mut self, pos: Vec2, rng: &mut StdRng)
        requires
            old(self).wf(),
            pos.wf(),
        ensures
            final(self).wf(),
            bursts_appended(final(self).particles@, old(self).particles@, seq![pos]),
            final(self).balls@ == old(self).balls@,
            final(self).bullets@ == old(self).bullets@,
            final(self).player_pos == old(self).player_pos,
            final(self).player_vel == old(self).player_vel,
            final(self).gravity == old(self).gravity,
            final(self).friction == old(self).friction,
            final(self).attract_mode == old(self).attract_mode,
            final(self).paused == old(self).paused,
    {
        let ghost start = self.particles@;
        let mut n: usize = 0;
        while n < PARTICLES_PER_HIT
            invariant
                self.wf(),
                pos.wf(),
                n <= PARTICLES_PER_HIT,
                self.particles.len() == start.len() + n,
                start == old(self).particles@,
                self.particles@.subrange(0, start.len() as int) == start,
                forall|k: int| start.len() <= k < self.particles.len() ==> fresh_at(#[trigger] self.particles@[k], pos),
                self.balls@ == old(self).balls@,
                self.bullets@ == old(self).bullets@,
                self.player_pos == old(self).player_pos,
                self.player_vel == old(self).player_vel,
                self.gravity == old(self).gravity,
                self.friction == old(self).friction,
                self.attract_mode == old(self).attract_mode,
                self.paused == old(self).paused,
            decreases PARTICLES_PER_HIT - n,
        {
            let p = Particle::new(pos, rng);
            let ghost before = self.particles@;
            self.particles.push(p);
            assert(self.particles@.subrange(0, start.len() as int) =~= before.subrange(0, start.len() as int));
            n = n + 1;
        }
        let ghost fresh = self.particles@.subrange(start.len() as int, self.particles.len() as int);
        assert forall|k: int| 0 <= k < fresh.len() implies fresh_at(#[trigger] fresh[k], seq![pos][k / PARTICLES_PER_HIT as int]) by {
            assert(fresh[k] == self.particles@[start.len() + k]);
        }
    }

    /// Lets bullet `i`, if alive, strike the first live ball that it overlaps:
    /// both die and a burst of particles appears at the ball's centre.
    pub fn hit_one(&mut self, i: usize, rng: &mut StdRng)
        requires
            old(self).wf(),
            i < old(self).bullets.len(),
        ensures
            final(self).wf(),
            final(self).balls@ == hit_step(old(self).balls@, old(self).bullets@, i as int).0,
            final(self).bullets@ == hit_step(old(self).balls@, old(self).bullets@, i as int).1,
            bursts_appended(
                final(self).particles@,
                old(self).particles@,
                hit_step(old(self).balls@, old(self).bullets@, i as int).2,
            ),
            final(self).player_pos == old(self).player_pos,
            final(self).player_vel == old(self).player_vel,
            final(self).gravity == old(self).gravity,
            final(self).friction == old(self).friction,
            final(self).attract_mode == old(self).attract_mode,
            final(self).paused == old(self).paused,
    {
        let bl = self.bullets[i];
        if !bl.alive {
            proof { lemma_no_bursts(self.particles@); }
            return;
        }
        let n = self.balls.len();
        let mut k: usize = 0;
        while k < n
            invariant
                self.wf(),
                n == self.balls.len(),
                k <= n,
                i < self.bullets.len(),
                bl == old(self).bullets@[i as int],
                bl.alive,
                self.balls@ == old(self).balls@,
                self.bullets@ == old(self).bullets@,
                self.particles@ == old(self).particles@,
                self.player_pos == old(self).player_pos,
                self.player_vel == old(self).player_vel,
                self.gravity == old(self).gravity,
                self.friction == old(self).friction,
                self.attract_mode == old(self).attract_mode,
                self.paused == old(self).paused,
                forall|m: int| 0 <= m < k ==> !struck(bl, #[trigger] self.balls@[m]),
            decreases n - k,
        {
            let b = self.balls[k];
            if b.alive && bl.pos.sub(b.pos).length() < bl.radius + b.radius {
                proof {
                    let s = old(self).balls@;
                    assert(first_struck(bl, s, k as int));
                    let c = choose|c: int| first_struck(bl, s, c);
                    if c < k {
                        assert(!struck(bl, s[c]));
                    } else if c > k {
                        assert(!struck(bl, s[k as int]));
                    }
                }
                self.balls.set(k, Ball { alive: false, ..b });
                self.bullets.set(i, Bullet { alive: false, ..bl });
                self.spawn_burst(b.pos, rng);
                return;
            }
            k = k + 1;
        }
        proof {
            lemma_no_bursts(self.particles@);
            assert forall|c: int| !first_struck(bl, old(self).balls@, c) by {
                if 0 <= c < n {
                    assert(!struck(bl, self.balls@[c]));
                }
            }
        }
    }

    /// Lets every bullet in turn strike the first live ball that it overlaps,
    /// each judged on the alive flags that the earlier bullets left.
    pub fn resolve_hits(&mut self, rng: &mut StdRng)
        requires
            old(self).wf(),
        ensures
            final(self).wf(),
            final(self).balls@ == all_hits(old(self).balls@, old(self).bullets@).0,
            final(self).bullets@ == all_hits(old(self).balls@, old(self).bullets@).1,
            bursts_appended(
                final(self).particles@,
                old(self).particles@,
                all_hits(old(self).balls@, old(self).bullets@).2,
            ),
            final(self).player_pos == old(self).player_pos,
            final(self).player_vel == old(self).player_vel,
            final(self).gravity == old(self).gravity,
            final(self).friction == old(self).friction,
            final(self).attract_mode == old(self).attract_mode,
            final(self).paused == old(self).paused,
    {
        proof { lemma_no_bursts(self.particles@); }
        let mut i: usize = 0;
        while i < self.bullets.len()
            invariant
                self.wf(),
                i <= self.bullets.len(),
                self.bullets.len() == old(self).bullets.len(),
                self.balls@ == hits_upto(old(self).balls@, old(self).bullets@, i as int).0,
                self.bullets@ == hits_upto(old(self).balls@, old(self).bullets@, i as int).1,
                bursts_appended(
                    self.particles@,
                    old(self).particles@,
                    hits_upto(old(self).balls@, old(self).bullets@, i as int).2,
                ),
                self.player_pos == old(self).player_pos,
                self.player_vel == old(self).player_vel,
                self.gravity == old(self).gravity,
                self.friction == old(self).friction,
                self.attract_mode == old(self).attract_mode,
                self.paused == old(self).paused,
            decreases self.bullets.len() - i,
        {
            let ghost before = self.particles@;
            self.hit_one(i, rng);
            proof {
                let r = hits_upto(old(self).balls@, old(self).bullets@, i as int);
                let t = hit_step(r.0, r.1, i as int);
                lemma_bursts_chain(self.particles@, before, old(self).particles@, r.2, t.2);
            }
            i = i + 1;
        }
    }

    /// Moves the player for `dt` milliseconds under the held direction
    /// (`move_x`, `move_y`, each -1, 0 or 1), keeping it inside the arena.
    pub fn move_player(&mut self, move_x: i64, move_y: i64, dt: u32)
        requires
            old(self).wf(),
            -1 <= move_x <= 1,
            -1 <= move_y <= 1,
        ensures
            final(self).wf(),
            final(self).player_vel == player_velocity(old(self).player_vel, move_x as int, move_y as int, dt as int),
            final(self).player_pos == player_position(old(self).player_pos, final(self).player_vel, dt as int),
            PLAYER_RADIUS <= final(self).player_pos.x <= ARENA_WIDTH - PLAYER_RADIUS,
            PLAYER_RADIUS <= final(self).player_pos.y <= ARENA_HEIGHT - PLAYER_RADIUS,
            final(self).balls@ == old(self).balls@,
            final(self).bullets@ == old(self).bullets@,
            final(self).particles@ == old(self).particles@,
            final(self).gravity == old(self).gravity,
            final(self).friction == old(self).friction,
            final(self).attract_mode == old(self).attract_mode,
            final(self).paused == old(self).paused,
    {
        let vel = if move_x != 0 || move_y != 0 {
            let input = v2(move_x * SCALE, move_y * SCALE);
            self.player_vel.add(input.with_length(mul_div(PLAYER_ACCEL, dt as i64, SCALE)))
        } else {
            self.player_vel.sub(self.player_vel.mul_scalar(mul_div(PLAYER_FRICTION, dt as i64, SCALE)))
        };
        let vel = if vel.length() > PLAYER_MAX_SPEED {
            vel.with_length(PLAYER_MAX_SPEED)
        } else {
            vel
        };
        let p = self.player_pos.add(vel.mul_scalar(dt as i64));
        self.player_vel = vel;
        self.player_pos = v2(
            clamp_between(p.x, PLAYER_RADIUS, ARENA_WIDTH - PLAYER_RADIUS),
            clamp_between(p.y, PLAYER_RADIUS, ARENA_HEIGHT - PLAYER_RADIUS),
        );
    }

    /// Runs one frame. A pause toggle comes first; while paused nothing else
    /// changes. Otherwise, in order: the player moves, a bullet is fired, a ball
    /// is spawned, attract mode is toggled, the pointer force and motion act on
    /// every ball, ball pairs are resolved, bullets fly and strike, dead balls
    /// and bullets are removed, particles age and expire, and the tunables are
    /// adjusted.
    pub fn step(&mut self, input: FrameInput, rng: &mut StdRng)
        requires
            old(self).wf(),
            input.wf(),
        ensures
            final(self).wf(),
            final(self).balls.len() <= MAX_BALLS,
            final(self).paused == (old(self).paused != input.toggle_pause),
            final(self).paused ==> {
                &&& final(self).balls@ == old(self).balls@
                &&& final(self).bullets@ == old(self).bullets@
                &&& final(self).particles@ == old(self).particles@
                &&& final(self).player_pos == old(self).player_pos
                &&& final(self).player_vel == old(self).player_vel
                &&& final(self).gravity == old(self).gravity
                &&& final(self).friction == old(self).friction
                &&& final(self).attract_mode == old(self).attract_mode
            },
            !final(self).paused ==> {
                &&& final(self).attract_mode == (old(self).attract_mode != input.toggle_attract)
                &&& final(self).gravity == adjusted(
                    old(self).gravity as int,
                    input.gravity_adjust as int,
                    GRAVITY_STEP * input.dt as int,
                    GRAVITY_MAX as int,
                )
                &&& final(self).friction == adjusted(
                    old(self).friction as int,
                    input.friction_adjust as int,
                    input.dt as int / FRICTION_STEP_DIV as int,
                    FRICTION_MAX as int,
                )
                &&& final(self).player_vel == player_velocity(
                    old(self).player_vel,
                    input.move_x as int,
                    input.move_y as int,
                    input.dt as int,
                )
                &&& final(self).player_pos == player_position(
                    old(self).player_pos,
                    final(self).player_vel,
                    input.dt as int,
                )
                &&& exists|spawned: Seq<Ball>, fresh: Seq<Particle>| #[trigger] frame_outcome(*old(self), *final(self), input, spawned, fresh)
                &&& forall|k: int| 0 <= k < final(self).balls.len() ==> (#[trigger] final(self).balls@[k]).alive
                &&& forall|k: int| 0 <= k < final(self).bullets.len() ==> (#[trigger] final(self).bullets@[k]).alive
                &&& forall|k: int| 0 <= k < final(self).particles.len() ==> (#[trigger] final(self).particles@[k]).live()
            },
    {
        if input.toggle_pause {
            self.paused = !self.paused;
        }
        if self.paused {
            return;
        }
        let ghost mid = *self;
        self.run_frame(input, rng);
        proof {
            let (sp, fr) = choose|sp: Seq<Ball>, fr: Seq<Particle>| frame_outcome(mid, *self, input, sp, fr);
            assert(frame_outcome(*old(self), *self, input, sp, fr));
        }
    }

    /// One unpaused frame, see `step`.
    #[verifier::rlimit(60)]
    pub fn run_frame(&mut self, input: FrameInput, rng: &mut StdRng)
        requires
            old(self).wf(),
            input.wf(),
        ensures
            final(self).wf(),
            final(self).paused == old(self).paused,
            final(self).attract_mode == (old(self).attract_mode != input.toggle_attract),
            final(self).gravity == adjusted(
                old(self).gravity as int,
                input.gravity_adjust as int,
                GRAVITY_STEP * input.dt as int,
                GRAVITY_MAX as int,
            ),
            final(self).friction == adjusted(
                old(self).friction as int,
                input.friction_adjust as int,
                input.dt as int / FRICTION_STEP_DIV as int,
                FRICTION_MAX as int,
            ),
            final(self).player_vel == player_velocity(
                old(self).player_vel,
                input.move_x as int,
                input.move_y as int,
                input.dt as int,
            ),
            final(self).player_pos == player_position(old(self).player_pos, final(self).player_vel, input.dt as int),
            exists|spawned: Seq<Ball>, fresh: Seq<Particle>| #[trigger] frame_outcome(*old(self), *final(self), input, spawned, fresh),
            forall|k: int| 0 <= k < final(self).balls.len() ==> (#[trigger] final(self).balls@[k]).alive,
            forall|k: int| 0 <= k < final(self).bullets.len() ==> (#[trigger] final(self).bullets@[k]).alive,
            forall|k: int| 0 <= k < final(self).particles.len() ==> (#[trigger] final(self).particles@[k]).live(),
    {
        let dt = input.dt;
        self.move_player(input.move_x, input.move_y, dt);
        let ghost pos = self.player_pos;
        if input.fire {
            self.fire(input.pointer);
        }
        let ghost shot = self.bullets@;
        assert(shot == if input.fire { fired(old(self).bullets@, pos, input.pointer) } else { old(self).bullets@ });
        let ghost mut spawned: Seq<Ball> = Seq::empty();
        if input.spawn {
            let ghost count = self.balls.len() as int;
            self.spawn_ball(input.pointer, rng);
            proof {
                spawned = self.balls@.subrange(count, self.balls.len() as int);
            }
        }
        assert(self.balls@ =~= old(self).balls@ + spawned);
        if input.toggle_attract {
            self.attract_mode = !self.attract_mode;
        }
        let ghost attract = self.attract_mode;
        self.update_balls(input.pointer, dt);
        let ghost moved = self.balls@;
        assert(moved == (old(self).balls@ + spawned).map_values(
            |b: Ball| pulled(b, input.pointer, attract, dt as int).stepped(dt as int, old(self).gravity as int, old(self).friction as int),
        ));
        self.resolve_collisions();
        self.update_bullets(dt);
        let ghost flown = self.bullets@;
        assert(flown == shot.map_values(|b: Bullet| b.moved(dt as int)));
        let ghost before_hits = self.particles@;
        self.resolve_hits(rng);
        let ghost r = all_hits(all_pairs_resolved(moved), flown);
        assert(r == frame_bodies(
            old(self).balls@, old(self).bullets@, spawned, input, attract, pos,
            old(self).gravity as int, old(self).friction as int,
        ));
        let ghost fresh = self.particles@.subrange(before_hits.len() as int, self.particles.len() as int);
        assert(self.particles@ =~= old(self).particles@ + fresh);
        let ghost before_compact = *self;
        self.compact();
        proof {
            lemma_filter_all(before_compact.balls@, |b: Ball| b.alive);
            lemma_filter_all(before_compact.bullets@, |b: Bullet| b.alive);
        }
        let ghost before_particles = *self;
        self.update_particles(dt);
        proof {
            lemma_filter_all(before_particles.particles@.map_values(|p: Particle| p.stepped(dt as int)), |b: Particle| b.live());
        }
        self.adjust_tunables(input.gravity_adjust, input.friction_adjust, dt);
        assert(frame_outcome(*old(self), *self, input, spawned, fresh));
    }
}

/// Everything that a filter keeps satisfies its predicate.
proof fn lemma_filter_all<A>(s: Seq<A>, pred: spec_fn(A) -> bool)
    ensures
        forall|k: int| 0 <= k < s.filter(pred).len() ==> pred(#[trigger] s.filter(pred)[k]),
{
    assert forall|k: int| 0 <= k < s.filter(pred).len() implies pred(#[trigger] s.filter(pred)[k]) by {
        s.lemma_filter_pred(pred, k);
    }
}

proof fn lemma_no_bursts(s: Seq<Particle>)
    ensures
        bursts_appended(s, s, Seq::empty()),
{
    assert(s.subrange(0, s.len() as int) =~= s);
    assert(s.subrange(s.len() as int, s.len() as int) =~= Seq::<Particle>::empty());
}

/// Bursts appended in two rounds are the bursts of both rounds, in order.
proof fn lemma_bursts_chain(s2: Seq<Particle>, s1: Seq<Particle>, s0: Seq<Particle>, p1: Seq<Vec2>, p2: Seq<Vec2>)
    requires
        bursts_appended(s1, s0, p1),
        bursts_appended(s2, s1, p2),
    ensures
        bursts_appended(s2, s0, p1 + p2),
{
    let f1 = s1.subrange(s0.len() as int, s1.len() as int);
    let f2 = s2.subrange(s1.len() as int, s2.len() as int);
    let f = s2.subrange(s0.len() as int, s2.len() as int);
    assert(s2.subrange(0, s0.len() as int) =~= s1.subrange(0, s0.len() as int)) by {
        assert(s2.subrange(0, s1.len() as int) == s1);
    }
    assert(f =~= f1 + f2) by {
        assert(s2.subrange(0, s1.len() as int) == s1);
    }
    let h = PARTICLES_PER_HIT as int;
    assert forall|k: int| 0 <= k < f.len() implies fresh_at(#[trigger] f[k], (p1 + p2)[k / h]) by {
        if k < f1.len() {
            assert(f[k] == f1[k]);
            assert(k / h < p1.len());
        } else {
            let k2 = k - f1.len();
            assert(f[k] == f2[k2]);
            assert(k / h == p1.len() + k2 / h);
        }
    }
}

fn clamp_between(x: i64, lo: i64, hi: i64) -> (r: i64)
    requires
        lo <= hi,
    ensures
        r == clamp(x as int, lo as int, hi as int),
{
    if x < lo {
        lo
    } else if x > hi {
        hi
    } else {
        x
    }
}

fn shift_clamped(value: i64, dir: i64, step: i64, hi: i64) -> (r: i64)
    requires
        0 <= value <= hi,
        0 <= step <= 1_000_000_000_000,
        hi <= 1_000_000_000_000,
    ensures
        r == adjusted(value as int, dir as int, step as int, hi as int),
        0 <= r <= hi,
{
    let v = if dir > 0 {
        value + step
    } else if dir < 0 {
        value - step
    } else {
        value
    };
    if v < 0 {
        0
    } else if v > hi {
        hi
    } else {
        v
    }
}

} // verus!
