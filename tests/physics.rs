use physics_playground::ball::{balls_collision, Ball};
use physics_playground::bullet::Bullet;
use physics_playground::color::{hsv_to_rgb, Color};
use physics_playground::config::{ARENA_HEIGHT, ARENA_WIDTH, MAX_BALLS, PARTICLES_PER_HIT};
use physics_playground::fixed::{isqrt, mul_div};
use physics_playground::particle::Particle;
use physics_playground::render::draw_list;
use physics_playground::vector::v2;
use physics_playground::world::{FrameInput, World};
use rand::rngs::StdRng;
use rand::SeedableRng;

const WHITE: Color = Color { r: 255, g: 255, b: 255, a: 255 };

fn ball_at(x: i64, y: i64, vx: i64, vy: i64, radius: i64) -> Ball {
    Ball::from_parts(v2(x, y), v2(vx, vy), radius, WHITE)
}

fn empty_world() -> World {
    World {
        balls: Vec::new(),
        bullets: Vec::new(),
        particles: Vec::new(),
        player_pos: v2(ARENA_WIDTH / 2, ARENA_HEIGHT / 2),
        player_vel: v2(0, 0),
        gravity: 200_000,
        friction: 1_500,
        attract_mode: false,
        paused: false,
    }
}

fn idle_input(dt: u32) -> FrameInput {
    FrameInput {
        dt,
        move_x: 0,
        move_y: 0,
        pointer: v2(0, 0),
        fire: false,
        spawn: false,
        toggle_attract: false,
        toggle_pause: false,
        gravity_adjust: 0,
        friction_adjust: 0,
    }
}

#[test]
fn normalize_of_zero_is_zero() {
    assert_eq!(v2(0, 0).normalize(), v2(0, 0));
}

#[test]
fn normalize_gives_unit_in_thousandths() {
    assert_eq!(v2(3_000, 4_000).normalize(), v2(600, 800));
    assert_eq!(v2(-100_000, 0).normalize(), v2(-1000, 0));
}

#[test]
fn vector_arithmetic_values() {
    assert_eq!(v2(1, 2).add(v2(3, -7)), v2(4, -5));
    assert_eq!(v2(1, 2).sub(v2(3, -7)), v2(-2, 9));
    assert_eq!(v2(3_000, -4_000).mul_scalar(500), v2(1_500, -2_000));
    assert_eq!(v2(3_000, 4_000).length(), 5_000);
    assert_eq!(v2(3, 4).length_sq(), 25);
    assert_eq!(v2(2, 3).dot(v2(4, -5)), -7);
}

#[test]
fn vector_add_saturates() {
    assert_eq!(v2(999_999_999, 0).add(v2(5, 0)), v2(1_000_000_000, 0));
}

#[test]
fn fixed_point_helpers() {
    assert_eq!(isqrt(24), 4);
    assert_eq!(isqrt(25), 5);
    assert_eq!(mul_div(-7, 3, 2), -10);
    assert_eq!(mul_div(7, 3, 2), 10);
}

#[test]
fn hsv_primary_and_cycling_colours() {
    assert_eq!(hsv_to_rgb(0, 1000, 1000), Color { r: 255, g: 0, b: 0, a: 255 });
    assert_eq!(hsv_to_rgb(500, 1000, 1000), Color { r: 0, g: 255, b: 255, a: 255 });
    assert_eq!(hsv_to_rgb(1500, 1000, 1000), Color { r: 0, g: 255, b: 255, a: 255 });
    assert_eq!(hsv_to_rgb(0, 800, 900), Color { r: 229, g: 45, b: 45, a: 255 });
}

#[test]
fn ball_at_rest_falls_one_step() {
    let mut b = ball_at(500_000, 450_000, 0, 0, 10_000);
    b.update(100, 200_000, 0);
    assert_eq!(b.vel, v2(0, 20_000));
    assert_eq!(b.pos, v2(500_000, 452_000));
    assert!(b.alive);
}

#[test]
fn ball_bounces_off_left_wall() {
    let mut b = ball_at(10_500, 450_000, -100_000, 0, 10_000);
    b.update(100, 0, 0);
    assert_eq!(b.pos, v2(10_000, 450_000));
    assert_eq!(b.vel, v2(80_000, 0));
}

#[test]
fn ball_friction_damps_velocity() {
    let mut b = ball_at(500_000, 450_000, 100_000, -50_000, 20_000);
    b.update(100, 0, 2_000);
    assert_eq!(b.vel, v2(80_000, -40_000));
    assert_eq!(b.pos, v2(508_000, 446_000));
    assert_eq!(b.mass, 10_000);
}

#[test]
fn balls_stay_inside_arena_after_update() {
    let mut rng = StdRng::seed_from_u64(11);
    for _ in 0..200 {
        let mut b = Ball::new(&mut rng);
        b.vel = v2(3_000_000, -7_000_000);
        for dt in [1u32, 16, 100, 1000] {
            b.update(dt, 1_000_000, 5_000);
            assert!(b.radius <= b.pos.x && b.pos.x <= ARENA_WIDTH - b.radius);
            assert!(b.radius <= b.pos.y && b.pos.y <= ARENA_HEIGHT - b.radius);
        }
    }
}

#[test]
fn random_balls_vary_and_respect_ranges() {
    let mut rng = StdRng::seed_from_u64(3);
    let balls: Vec<Ball> = (0..50).map(|_| Ball::new(&mut rng)).collect();
    for b in &balls {
        assert!(10_000 <= b.radius && b.radius < 30_000);
        assert_eq!(b.mass, b.radius / 2);
        assert!(-150_000 <= b.vel.x && b.vel.x < 150_000);
        assert!(b.color.r >= 50 && b.color.a == 255);
    }
    assert!(balls.iter().any(|b| b.radius != balls[0].radius));
    assert!(balls.iter().any(|b| b.vel.x != balls[0].vel.x));
}

#[test]
fn separated_balls_are_untouched() {
    let mut a = ball_at(500_000, 450_000, 50_000, 0, 10_000);
    let mut b = ball_at(520_000, 450_000, -50_000, 0, 10_000);
    let (a0, b0) = (a, b);
    balls_collision(&mut a, &mut b);
    assert_eq!((a, b), (a0, b0));
    let mut c = ball_at(100_000, 100_000, 0, 0, 30_000);
    let mut d = ball_at(200_000, 300_000, 0, 0, 30_000);
    let (c0, d0) = (c, d);
    balls_collision(&mut c, &mut d);
    assert_eq!((c, d), (c0, d0));
}

#[test]
fn equal_mass_overlap_splits_evenly() {
    let mut a = ball_at(500_000, 450_000, 0, 0, 10_000);
    let mut b = ball_at(512_000, 450_000, 0, 0, 10_000);
    balls_collision(&mut a, &mut b);
    assert_eq!(a.pos, v2(496_000, 450_000));
    assert_eq!(b.pos, v2(516_000, 450_000));
    assert_eq!(a.vel, v2(0, 0));
    assert_eq!(b.vel, v2(0, 0));
}

#[test]
fn head_on_pair_separates_and_rebounds() {
    let mut a = ball_at(500_000, 450_000, 50_000, 0, 10_000);
    let mut b = ball_at(515_000, 450_000, -50_000, 0, 10_000);
    balls_collision(&mut a, &mut b);
    assert_eq!(b.pos.x - a.pos.x, 20_000);
    assert_eq!(a.pos, v2(497_500, 450_000));
    assert_eq!(b.pos, v2(517_500, 450_000));
    assert_eq!(a.vel, v2(-45_000, 0));
    assert_eq!(b.vel, v2(45_000, 0));
}

#[test]
fn separating_pair_gets_no_impulse() {
    let mut a = ball_at(500_000, 450_000, -50_000, 0, 10_000);
    let mut b = ball_at(515_000, 450_000, 50_000, 0, 10_000);
    balls_collision(&mut a, &mut b);
    assert_eq!(a.pos, v2(497_500, 450_000));
    assert_eq!(a.vel, v2(-50_000, 0));
    assert_eq!(b.vel, v2(50_000, 0));
}

#[test]
fn heavier_ball_moves_less() {
    let mut a = ball_at(500_000, 450_000, 0, 0, 10_000);
    let mut b = ball_at(530_000, 450_000, 0, 0, 30_000);
    balls_collision(&mut a, &mut b);
    assert_eq!(a.pos, v2(492_500, 450_000));
    assert_eq!(b.pos, v2(532_500, 450_000));
}

#[test]
fn dead_or_coincident_balls_are_skipped() {
    let mut a = ball_at(500_000, 450_000, 10, 0, 10_000);
    let mut b = ball_at(500_000, 450_000, -10, 0, 10_000);
    let (a0, b0) = (a, b);
    balls_collision(&mut a, &mut b);
    assert_eq!((a, b), (a0, b0));
    let mut c = ball_at(505_000, 450_000, 0, 0, 10_000);
    c.alive = false;
    let c0 = c;
    balls_collision(&mut a, &mut c);
    assert_eq!((a, c), (a0, c0));
}

#[test]
fn bullet_flies_right_and_dies_past_the_wall() {
    let mut bl = Bullet::new(v2(500_000, 450_000), v2(100_000, 0));
    assert_eq!(bl.vel, v2(500_000, 0));
    assert_eq!(bl.radius, 5_000);
    for k in 1..=10 {
        bl.update(100);
        assert_eq!(bl.pos.x, 500_000 + 50_000 * k);
        assert!(bl.alive);
    }
    assert_eq!(bl.pos.x, 1_000_000);
    bl.update(100);
    assert_eq!(bl.pos.x, 1_050_000);
    assert!(!bl.alive);
}

#[test]
fn fire_needs_a_distinct_target() {
    let mut w = empty_world();
    w.fire(v2(500_050, 450_000));
    assert_eq!(w.bullets.len(), 0);
    w.fire(v2(600_000, 450_000));
    assert_eq!(w.bullets.len(), 1);
    assert_eq!(w.bullets[0].pos, v2(500_000, 450_000));
    assert_eq!(w.bullets[0].vel, v2(500_000, 0));
}

#[test]
fn bullet_hit_kills_ball_and_bursts() {
    let mut rng = StdRng::seed_from_u64(5);
    let mut w = empty_world();
    w.balls.push(ball_at(300_000, 300_000, 0, 0, 10_000));
    w.balls.push(ball_at(700_000, 300_000, 0, 0, 10_000));
    w.bullets.push(Bullet::new(v2(305_000, 300_000), v2(1, 0)));
    w.resolve_hits(&mut rng);
    assert!(!w.balls[0].alive);
    assert!(w.balls[1].alive);
    assert!(!w.bullets[0].alive);
    assert_eq!(w.particles.len(), PARTICLES_PER_HIT);
    for p in &w.particles {
        assert_eq!(p.pos, v2(300_000, 300_000));
        assert_eq!(p.life, 1000);
        assert!(2_000 <= p.radius && p.radius < 6_000);
    }
    w.compact();
    assert_eq!(w.balls.len(), 1);
    assert_eq!(w.balls[0].pos, v2(700_000, 300_000));
    assert_eq!(w.bullets.len(), 0);
}

#[test]
fn bullet_hits_only_the_first_ball() {
    let mut rng = StdRng::seed_from_u64(6);
    let mut w = empty_world();
    w.balls.push(ball_at(300_000, 300_000, 0, 0, 10_000));
    w.balls.push(ball_at(310_000, 300_000, 0, 0, 10_000));
    w.bullets.push(Bullet::new(v2(305_000, 300_000), v2(1, 0)));
    w.hit_one(0, &mut rng);
    assert!(!w.balls[0].alive);
    assert!(w.balls[1].alive);
    assert_eq!(w.particles.len(), 15);
}

#[test]
fn bullet_missing_everything_changes_nothing() {
    let mut rng = StdRng::seed_from_u64(8);
    let mut w = empty_world();
    w.balls.push(ball_at(300_000, 300_000, 0, 0, 10_000));
    w.bullets.push(Bullet::new(v2(400_000, 300_000), v2(1, 0)));
    w.resolve_hits(&mut rng);
    assert!(w.balls[0].alive && w.bullets[0].alive);
    assert_eq!(w.particles.len(), 0);
}

#[test]
fn particle_ages_falls_and_fades() {
    let mut p = Particle {
        pos: v2(100_000, 100_000),
        vel: v2(200_000, 0),
        color: WHITE,
        life: 1000,
        radius: 3_000,
    };
    p.update(100);
    assert_eq!(p.life, 900);
    assert_eq!(p.pos, v2(120_000, 100_000));
    assert_eq!(p.vel, v2(200_000, 30_000));
    assert_eq!(p.color, Color { r: 242, g: 242, b: 242, a: 229 });
    p.update(950);
    assert_eq!(p.life, -50);
    assert_eq!(p.color.a, 0);
}

#[test]
fn new_particle_speed_in_range() {
    let mut rng = StdRng::seed_from_u64(9);
    for _ in 0..100 {
        let p = Particle::new(v2(1, 2), &mut rng);
        let s = p.vel.length();
        assert!(99_998 <= s && s <= 300_000);
        assert_eq!(p.color, WHITE);
    }
}

#[test]
fn expired_particles_are_dropped() {
    let mut w = empty_world();
    for life in [50, 500, 1000] {
        w.particles.push(Particle { pos: v2(0, 0), vel: v2(0, 0), color: WHITE, life, radius: 2_000 });
    }
    w.update_particles(100);
    assert_eq!(w.particles.len(), 2);
    assert_eq!(w.particles[0].life, 400);
    assert_eq!(w.particles[1].life, 900);
}

#[test]
fn spawn_respects_population_cap() {
    let mut rng = StdRng::seed_from_u64(1);
    let mut w = World::new(&mut rng);
    assert_eq!(w.balls.len(), 15);
    for frame in 1..=300usize {
        let mut input = idle_input(16);
        input.spawn = true;
        input.pointer = v2(500_000, 100_000);
        w.step(input, &mut rng);
        assert_eq!(w.balls.len(), std::cmp::min(15 + frame, MAX_BALLS));
    }
    let b = ball_at(1_000, 1_000, 0, 0, 10_000);
    assert!(!w.add_ball(b));
    assert_eq!(w.balls.len(), MAX_BALLS);
}

#[test]
fn paused_world_stands_still() {
    let mut rng = StdRng::seed_from_u64(2);
    let mut w = World::new(&mut rng);
    let before: Vec<Ball> = w.balls.clone();
    let mut input = idle_input(16);
    input.toggle_pause = true;
    w.step(input, &mut rng);
    assert!(w.paused);
    assert_eq!(w.balls, before);
    w.step(idle_input(16), &mut rng);
    assert_eq!(w.balls, before);
    w.step(input, &mut rng);
    assert!(!w.paused);
    assert_ne!(w.balls, before);
}

#[test]
fn tunables_are_clamped() {
    let mut w = empty_world();
    w.gravity = 999_990;
    w.friction = 3;
    w.adjust_tunables(1, -1, 16);
    assert_eq!(w.gravity, 1_000_000);
    assert_eq!(w.friction, 0);
    w.adjust_tunables(-1, 1, 100);
    assert_eq!(w.gravity, 995_000);
    assert_eq!(w.friction, 50);
}

#[test]
fn player_accelerates_and_stays_inside() {
    let mut w = empty_world();
    w.move_player(1, 0, 100);
    assert_eq!(w.player_vel, v2(80_000, 0));
    assert_eq!(w.player_pos, v2(508_000, 450_000));
    for _ in 0..100 {
        w.move_player(1, 1, 100);
        assert!(w.player_vel.length() <= 400_000);
    }
    assert_eq!(w.player_pos, v2(980_000, 880_000));
    w.move_player(0, 0, 50);
    assert!(w.player_vel.length() < 400_000 / 2 + 1);
}

#[test]
fn attract_toggle_and_pointer_force() {
    let mut rng = StdRng::seed_from_u64(4);
    let mut w = empty_world();
    w.gravity = 0;
    w.friction = 0;
    w.balls.push(ball_at(500_000, 450_000, 0, 0, 10_000));
    let mut input = idle_input(100);
    input.pointer = v2(400_000, 450_000);
    w.step(input, &mut rng);
    assert_eq!(w.balls[0].vel, v2(1_000, 0));
    input.toggle_attract = true;
    w.step(input, &mut rng);
    assert!(w.attract_mode);
    assert!(w.balls[0].vel.x < 1_000);
}

#[test]
fn collision_pass_resolves_every_pair() {
    let mut w = empty_world();
    w.balls.push(ball_at(500_000, 450_000, 50_000, 0, 10_000));
    w.balls.push(ball_at(515_000, 450_000, -50_000, 0, 10_000));
    w.balls.push(ball_at(100_000, 100_000, 0, 0, 10_000));
    w.resolve_collisions();
    assert_eq!(w.balls[0].vel, v2(-45_000, 0));
    assert_eq!(w.balls[1].vel, v2(45_000, 0));
    assert_eq!(w.balls[2].pos, v2(100_000, 100_000));
}

#[test]
fn draw_list_orders_bodies_and_ends_with_player() {
    let mut w = empty_world();
    w.balls.push(ball_at(300_000, 300_000, 0, 0, 10_000));
    let mut dead = ball_at(400_000, 300_000, 0, 0, 10_000);
    dead.alive = false;
    w.balls.push(dead);
    w.bullets.push(Bullet::new(v2(1_000, 1_000), v2(1, 0)));
    w.particles.push(Particle { pos: v2(5, 5), vel: v2(0, 0), color: WHITE, life: 10, radius: 2_000 });
    let shapes = draw_list(&w);
    assert_eq!(shapes.len(), 4);
    assert_eq!(shapes[0].center, v2(300_000, 300_000));
    assert_eq!(shapes[1].radius, 5_000);
    assert_eq!(shapes[1].color, Color { r: 255, g: 0, b: 0, a: 255 });
    assert_eq!(shapes[2].center, v2(5, 5));
    assert_eq!(shapes[3].center, w.player_pos);
    assert_eq!(shapes[3].radius, 20_000);
}

fn energy(a: &Ball, b: &Ball) -> i128 {
    let e = |x: &Ball| (x.mass as i128) * ((x.vel.x as i128).pow(2) + (x.vel.y as i128).pow(2));
    e(a) + e(b)
}

#[test]
fn collision_does_not_gain_energy() {
    let mut a = ball_at(500_000, 450_000, 50_000, 0, 10_000);
    let mut b = ball_at(515_000, 450_000, -50_000, 0, 10_000);
    let before = energy(&a, &b);
    balls_collision(&mut a, &mut b);
    assert!(energy(&a, &b) < before);
    let mut rng = StdRng::seed_from_u64(21);
    for _ in 0..500 {
        let mut a = Ball::new(&mut rng);
        let mut b = Ball::new(&mut rng);
        b.pos = a.pos.add(v2(a.radius, b.radius / 3));
        let before = energy(&a, &b);
        balls_collision(&mut a, &mut b);
        let after = energy(&a, &b);
        let tolerance = before / 1_000 + 1_000_000_000_000;
        assert!(after <= before + tolerance);
    }
}

#[test]
fn diagonal_bullet_keeps_full_speed() {
    let bl = Bullet::new(v2(500_000, 450_000), v2(1_000, 1_000));
    assert_eq!(bl.vel, v2(353_553, 353_553));
    let speed = bl.vel.length();
    assert!(499_999 <= speed && speed <= 500_000);
}

#[test]
fn diagonal_overlap_is_fully_resolved() {
    let mut a = ball_at(500_000, 450_000, 0, 0, 30_000);
    let mut b = ball_at(501_000, 451_000, 0, 0, 30_000);
    balls_collision(&mut a, &mut b);
    let d = b.pos.sub(a.pos).length();
    assert!(59_999 <= d && d <= 60_001);
}

#[test]
fn particle_from_draws_exact() {
    let p = Particle::from_draws(v2(7, 8), 0, 0, 150_000, 3_000);
    assert_eq!(p.vel, v2(150_000, 0));
    assert_eq!(p.pos, v2(7, 8));
    assert_eq!(p.color, WHITE);
    assert_eq!(p.life, 1000);
    assert_eq!(p.radius, 3_000);
    let q = Particle::from_draws(v2(0, 0), 1, 1, 100_000, 2_000);
    assert_eq!(q.vel, v2(70_710, 70_710));
    assert!(q.vel.length() >= 99_998);
}

#[test]
fn with_length_scales_in_one_step() {
    assert_eq!(v2(3_000, 4_000).with_length(500_000), v2(300_000, 400_000));
    assert_eq!(v2(0, 0).with_length(500_000), v2(0, 0));
}

#[test]
fn frame_with_a_hit_removes_ball_and_bullet() {
    let mut rng = StdRng::seed_from_u64(12);
    let mut w = empty_world();
    w.gravity = 0;
    w.friction = 0;
    w.balls.push(ball_at(600_000, 450_000, 0, 0, 10_000));
    let mut input = idle_input(100);
    input.pointer = v2(600_000, 450_000);
    input.fire = true;
    w.step(input, &mut rng);
    assert_eq!(w.bullets.len(), 1);
    assert_eq!(w.bullets[0].pos, v2(550_000, 450_000));
    input.fire = false;
    w.step(input, &mut rng);
    assert_eq!(w.balls.len(), 0);
    assert_eq!(w.bullets.len(), 0);
    assert_eq!(w.particles.len(), 15);
    for p in &w.particles {
        assert_eq!(p.life, 900);
    }
}
