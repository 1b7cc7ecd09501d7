//! Fixed parameters of the arena and its bodies, in fixed-point units.
use vstd::prelude::*;

verus! {

/// Arena width, thousandths of a unit.
pub const ARENA_WIDTH: i64 = 1_000_000;
/// Arena height, thousandths of a unit.
pub const ARENA_HEIGHT: i64 = 900_000;
/// Most balls the arena holds.
pub const MAX_BALLS: usize = 200;
/// Balls placed at start.
pub const INITIAL_BALLS: usize = 15;
/// Gravity at start, thousandths of a unit per second squared.
pub const GRAVITY_BASE: i64 = 200_000;
/// Friction at start, thousandths per second.
pub const FRICTION_BASE: i64 = 1_500;
/// Upper end of the gravity setting.
pub const GRAVITY_MAX: i64 = 1_000_000;
/// Upper end of the friction setting.
pub const FRICTION_MAX: i64 = 5_000;
/// Smallest ball radius.
pub const BALL_RADIUS_MIN: i64 = 10_000;
/// Ball radii are drawn below this.
pub const BALL_RADIUS_MAX: i64 = 30_000;
/// Initial ball velocity components are drawn from `-INITIAL_SPEED..INITIAL_SPEED`.
pub const INITIAL_SPEED: i64 = 150_000;
/// Velocity components of a ball spawned at the pointer are drawn from `-SPAWN_SPEED..SPAWN_SPEED`.
pub const SPAWN_SPEED: i64 = 200_000;
/// Colour channels of a new ball are drawn from `COLOR_MIN..255`.
pub const COLOR_MIN: i64 = 50;
/// Wall restitution factor, thousandths, sign included.
pub const WALL_BOUNCE: i64 = -800;
/// Ball-ball restitution, thousandths.
pub const RESTITUTION: i64 = 900;
/// A ball's hue advances by one thousandth of a turn per this many milliseconds.
pub const HUE_STEP_DIV: u32 = 5;
/// Saturation of a ball's cycling colour, thousandths.
pub const BALL_SATURATION: u64 = 800;
/// Value of a ball's cycling colour, thousandths.
pub const BALL_VALUE: u64 = 900;
/// Player radius.
pub const PLAYER_RADIUS: i64 = 20_000;
/// Player acceleration, thousandths of a unit per second squared.
pub const PLAYER_ACCEL: i64 = 800_000;
/// Player damping without input, thousandths per second.
pub const PLAYER_FRICTION: i64 = 10_000;
/// Player top speed, thousandths of a unit per second.
pub const PLAYER_MAX_SPEED: i64 = 400_000;
/// Bullet speed, thousandths of a unit per second.
pub const BULLET_SPEED: i64 = 500_000;
/// Bullet radius.
pub const BULLET_RADIUS: i64 = 5_000;
/// Shortest aim vector that fires.
pub const MIN_AIM: i64 = 100;
/// Particles released by one hit.
pub const PARTICLES_PER_HIT: usize = 15;
/// Particle speeds are drawn from `PARTICLE_SPEED_MIN..PARTICLE_SPEED_MAX`.
pub const PARTICLE_SPEED_MIN: i64 = 100_000;
/// See `PARTICLE_SPEED_MIN`.
pub const PARTICLE_SPEED_MAX: i64 = 300_000;
/// Particle radii are drawn from `PARTICLE_RADIUS_MIN..PARTICLE_RADIUS_MAX`.
pub const PARTICLE_RADIUS_MIN: i64 = 2_000;
/// See `PARTICLE_RADIUS_MIN`.
pub const PARTICLE_RADIUS_MAX: i64 = 6_000;
/// Particle colour channels keep this many hundredths each frame.
pub const PARTICLE_FADE: u32 = 95;
/// Lowest life a particle's countdown goes to, milliseconds.
pub const LIFE_FLOOR: i64 = -1_000_000_000;
/// Particle gravity, thousandths of a unit per second squared.
pub const PARTICLE_GRAVITY: i64 = 300_000;
/// Particle lifetime at birth, milliseconds.
pub const PARTICLE_LIFE: i64 = 1000;
/// Strength of the pointer force: the velocity change per second, in thousandths
/// of a unit per second, is this divided by the squared distance in thousandths
/// of a unit (one hundred thousand units cubed per second squared).
pub const POINTER_STRENGTH: i128 = 100_000_000_000_000;
/// Squared distances below this (one unit) count as this in the pointer force.
pub const POINTER_MIN_DIST_SQ: i128 = 1_000_000;
/// Gravity change per millisecond of a held adjustment, thousandths of a unit per second squared.
pub const GRAVITY_STEP: i64 = 50;
/// A held friction adjustment moves friction by one thousandth per this many milliseconds.
pub const FRICTION_STEP_DIV: i64 = 2;

} // verus!
