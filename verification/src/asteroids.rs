//! Asteroids fall from the sky and roll around the planet. One that hits the
//! player ends the game; one that is hit by a cannon ball or by another
//! asteroid is gone.

use rand::Rng;
use vstd::prelude::*;
use crate::timer::{Timer, TimerMode};
use crate::vector::{
    lemma_cross_bound, lemma_times_bound, lemma_times_whole, lemma_unit_across,
    lemma_unit_height, lemma_unit_length, Vec3, V3, UNIT,
};
use crate::world::{Body, Role, SpawnCommand, World};

verus! {

/// The size of an asteroid, in lattice steps.
pub const ASTEROID_SIZE: i64 = 1_000;

/// The push that an asteroid starts with, as a fixed-point number.
pub const ASTEROID_IMPULSE_MAGNITUDE: i64 = 50_000;

/// Nanoseconds from one asteroid to the next: five seconds.
pub const ASTEROID_SPAWN_DELAY: u64 = 5_000_000_000;

/// How far from the centre of the planet an asteroid appears, as a
/// fixed-point number: twice the radius of the planet.
pub const ASTEROID_SPAWN_ALTITUDE: i64 = 40_000;

/// The range of a random coordinate: from `-ASTEROID_SPREAD` up to, but not
/// including, `ASTEROID_SPREAD`.
pub const ASTEROID_SPREAD: i64 = 10_000;

/// The least length of a cross product that gives the way that an asteroid
/// falls: a shorter one is near zero, and the random vector that it was made
/// from is passed over. A random vector gives a cross product of this length
/// when it goes one world unit across the direction away from the planet.
pub const DESCENT_THRESHOLD: i64 = 1_000_000;

/// The least that the squared distance of a new asteroid from the centre of
/// the planet can be.
pub const ASTEROID_ALTITUDE_NORM_SQ_MIN: i64 = 1_590_395_200;

/// The most that the squared distance of a new asteroid from the centre of
/// the planet can be.
pub const ASTEROID_ALTITUDE_NORM_SQ_MAX: i64 = 1_603_200_000;

/// The least that the squared length of the push of an asteroid can be.
pub const ASTEROID_IMPULSE_NORM_SQ_MIN: i64 = 2_484_992_500;

/// The most that the squared length of the push of an asteroid can be.
pub const ASTEROID_IMPULSE_NORM_SQ_MAX: i64 = 2_505_000_000;

/// How far along the direction away from the planet the push of an asteroid
/// can lie, by rounding: the push is across that direction to within a fifth
/// of a degree.
pub const ASTEROID_IMPULSE_ALONG_MAX: i64 = 150_000;

/// How many random directions are tried for the way that an asteroid falls.
pub const DIRECTION_ATTEMPTS: usize = 4;

/// Marks an asteroid.
#[derive(Clone, Copy, PartialEq, Eq, Structural, Debug)]
pub struct Asteroid {}

/// The time until the next asteroid.
#[derive(Clone, Copy, PartialEq, Eq, Structural, Debug)]
pub struct AsteroidSpawnTimer(pub Timer);

/// Where an asteroid appears and the push that it starts with.
#[derive(Clone, Copy, PartialEq, Eq, Structural, Debug)]
pub struct AsteroidPlan {
    pub position: Vec3,
    pub impulse: Vec3,
}

/// The timer of the asteroids at the start of a game.
pub fn setup_asteroids() -> (timer: AsteroidSpawnTimer)
    ensures
        timer.0 == Timer::fresh(ASTEROID_SPAWN_DELAY, TimerMode::Repeating),
        timer.0.wf(),
{
    AsteroidSpawnTimer(Timer::new(ASTEROID_SPAWN_DELAY, TimerMode::Repeating))
}

/// `rand::Rng::gen_range` on `rand::thread_rng()`, with the range
/// `low..high`, which is not empty: the result is a number of that range.
/// Which one is left open.
#[verifier::external_body]
fn random_in(low: i64, high: i64) -> (r: i64)
    requires
        low < high,
    ensures
        low <= r < high,
{
    rand::thread_rng().gen_range(low..high)
}

/// Whether a random coordinate can have this value.
pub open spec fn in_spread(c: int) -> bool {
    -ASTEROID_SPREAD <= c < ASTEROID_SPREAD
}

/// Whether a random vector can have this value.
pub open spec fn sample_in_spread(v: Vec3) -> bool {
    in_spread(v.x as int) && in_spread(v.y as int) && in_spread(v.z as int)
}

/// Where an asteroid appears: above the upper half of the planet, in the
/// direction `(x, ASTEROID_SPREAD, z)`, at `ASTEROID_SPAWN_ALTITUDE`.
pub open spec fn spawn_point(x: int, z: int) -> V3 {
    (V3 { x, y: ASTEROID_SPREAD as int, z }).unit().times(ASTEROID_SPAWN_ALTITUDE as int)
}

/// A direction across `up`, which is not the zero vector.
pub open spec fn sideways(up: V3) -> V3 {
    if up.x != 0 || up.y != 0 {
        V3 { x: up.y, y: -up.x, z: 0 }
    } else {
        V3 { x: 0, y: up.z, z: 0 }
    }
}

/// Whether the random vector `sample` gives a way to fall: its cross product
/// with `up` is at least `DESCENT_THRESHOLD` long.
pub open spec fn gives_descent(sample: V3, up: V3) -> bool {
    sample.cross(up).norm_sq() >= DESCENT_THRESHOLD * DESCENT_THRESHOLD
}

/// The way that an asteroid falls, before it is brought to unit length: the
/// cross product of `up`, the direction away from the planet, with the first
/// of the random vectors for which it is not near zero; where it is near zero
/// for all of them, a fixed direction across `up`.
pub open spec fn descent(samples: Seq<Vec3>, up: V3) -> V3
    decreases samples.len(),
{
    if samples.len() == 0 {
        sideways(up)
    } else if gives_descent(samples[0]@, up) {
        samples[0]@.cross(up)
    } else {
        descent(samples.drop_first(), up)
    }
}

/// Whether a place is as far from the centre of the planet as a new asteroid
/// is: about `ASTEROID_SPAWN_ALTITUDE`.
pub open spec fn is_at_spawn_altitude(v: V3) -> bool {
    ASTEROID_ALTITUDE_NORM_SQ_MIN <= v.norm_sq() <= ASTEROID_ALTITUDE_NORM_SQ_MAX
}

/// Whether a push is as strong as the push of an asteroid is: about
/// `ASTEROID_IMPULSE_MAGNITUDE`.
pub open spec fn is_asteroid_impulse(v: V3) -> bool {
    ASTEROID_IMPULSE_NORM_SQ_MIN <= v.norm_sq() <= ASTEROID_IMPULSE_NORM_SQ_MAX
}

/// The push of an asteroid is as strong as it is meant to be, whatever the
/// way that the asteroid falls: fifty times a unit vector. Where the way is
/// across the direction `up`, so is the push, up to rounding.
pub proof fn lemma_impulse_strength(way: V3, up: V3)
    requires
        !way.is_zero(),
        way.dot(up) == 0,
        up.within(UNIT as int),
    ensures
        is_asteroid_impulse(way.unit().times(ASTEROID_IMPULSE_MAGNITUDE as int)),
        -ASTEROID_IMPULSE_ALONG_MAX < way.unit().times(ASTEROID_IMPULSE_MAGNITUDE as int).dot(up)
            < ASTEROID_IMPULSE_ALONG_MAX,
{
    lemma_unit_length(way);
    lemma_unit_across(way, up);
    let u = way.unit();
    let p = u.times(ASTEROID_IMPULSE_MAGNITUDE as int);
    lemma_times_whole(u, 50);
    assert(p.x == u.x * 50 && p.y == u.y * 50 && p.z == u.z * 50);
    assert(p.dot(up) == 50 * u.dot(up)) by (nonlinear_arith)
        requires
            p.x == u.x * 50,
            p.y == u.y * 50,
            p.z == u.z * 50,
            p.dot(up) == p.x * up.x + p.y * up.y + p.z * up.z,
            u.dot(up) == u.x * up.x + u.y * up.y + u.z * up.z,
    ;
}

/// The push that an asteroid at `position` starts with.
pub open spec fn descent_impulse(samples: Seq<Vec3>, position: V3) -> V3 {
    descent(samples, position.unit()).unit().times(ASTEROID_IMPULSE_MAGNITUDE as int)
}

/// An asteroid never falls straight at the planet: the way that it falls is
/// a direction, and it is at a right angle with the direction away from the
/// planet.
pub proof fn lemma_descent_is_sideways(samples: Seq<Vec3>, up: V3)
    requires
        !up.is_zero(),
    ensures
        !descent(samples, up).is_zero(),
        descent(samples, up).dot(up) == 0,
    decreases samples.len(),
{
    if samples.len() == 0 {
        let s = sideways(up);
        assert(s.dot(up) == 0) by (nonlinear_arith)
            requires
                s.dot(up) == s.x * up.x + s.y * up.y + s.z * up.z,
                (s.x == up.y && s.y == -up.x && s.z == 0) || (s.x == 0 && s.y == up.z && s.z == 0
                    && up.y == 0),
        ;
    } else if gives_descent(samples[0]@, up) {
        let a = samples[0]@;
        let c = a.cross(up);
        assert(!c.is_zero());
        assert(c.dot(up) == 0) by (nonlinear_arith)
            requires
                c.dot(up) == c.x * up.x + c.y * up.y + c.z * up.z,
                c.x == a.y * up.z - a.z * up.y,
                c.y == a.z * up.x - a.x * up.z,
                c.z == a.x * up.y - a.y * up.x,
        ;
    } else {
        lemma_descent_is_sideways(samples.drop_first(), up);
    }
}

/// Where an asteroid appears for the random coordinates `x` and `z`.
pub fn asteroid_position(x: i64, z: i64) -> (position: Vec3)
    requires
        in_spread(x as int),
        in_spread(z as int),
    ensures
        position@ == spawn_point(x as int, z as int),
        position@.within(ASTEROID_SPAWN_ALTITUDE as int),
        is_at_spawn_altitude(position@),
        position.y >= 20_000,
        position.in_world(),
{
    let v: Vec3 = Vec3::new(x, ASTEROID_SPREAD, z);
    proof {
        lemma_unit_height(v@, ASTEROID_SPREAD as int, ASTEROID_SPREAD as int, 500);
    }
    match v.normalized() {
        Some(u) => {
            proof {
                lemma_times_whole(u@, 40);
                lemma_times_bound(u@, ASTEROID_SPAWN_ALTITUDE as int, UNIT as int, 40);
                assert(u.y * ASTEROID_SPAWN_ALTITUDE / (UNIT as int) >= 20_000) by (nonlinear_arith)
                    requires
                        u.y >= 500,
                        ASTEROID_SPAWN_ALTITUDE == 40_000,
                        UNIT == 1000,
                ;
            }
            u.times(ASTEROID_SPAWN_ALTITUDE)
        },
        None => v,
    }
}

/// Where an asteroid appears and the push that it starts with, for the random
/// coordinates `x` and `z` and the random vectors `samples`.
pub fn plan_asteroid(x: i64, z: i64, samples: &Vec<Vec3>) -> (plan: AsteroidPlan)
    requires
        in_spread(x as int),
        in_spread(z as int),
        forall|i: int| 0 <= i < samples@.len() ==> sample_in_spread(samples@[i]),
    ensures
        plan.position@ == spawn_point(x as int, z as int),
        plan.position.in_world(),
        is_at_spawn_altitude(plan.position@),
        !plan.position@.is_zero(),
        plan.impulse@ == descent_impulse(samples@, plan.position@),
        is_asteroid_impulse(plan.impulse@),
        -ASTEROID_IMPULSE_ALONG_MAX < plan.impulse@.dot(plan.position@.unit())
            < ASTEROID_IMPULSE_ALONG_MAX,
        plan.impulse.in_world(),
{
    let position: Vec3 = asteroid_position(x, z);
    proof {
        lemma_unit_height(position@, ASTEROID_SPAWN_ALTITUDE as int, 20_000, 250);
    }
    let up: Vec3 = match position.normalized() {
        Some(u) => u,
        None => position,
    };
    let mut way: Vec3 = if up.x != 0 || up.y != 0 {
        Vec3::new(up.y, -up.x, 0)
    } else {
        Vec3::new(0, up.z, 0)
    };
    let least: u64 = 1_000_000_000_000;
    let mut i: usize = samples.len();
    proof {
        assert(samples@.skip(i as int) =~= Seq::<Vec3>::empty());
    }
    while i > 0
        invariant
            i <= samples.len(),
            least == DESCENT_THRESHOLD * DESCENT_THRESHOLD,
            forall|k: int| 0 <= k < samples@.len() ==> sample_in_spread(samples@[k]),
            up@.within(UNIT as int),
            way@ == descent(samples@.skip(i as int), up@),
            way@.within(2 * (ASTEROID_SPREAD * UNIT)),
        decreases i,
    {
        i -= 1;
        let sample: Vec3 = samples[i];
        proof {
            lemma_cross_bound(sample@, up@, ASTEROID_SPREAD as int, UNIT as int);
            let rest = samples@.skip(i as int);
            assert(rest[0] == sample);
            assert(rest.drop_first() =~= samples@.skip(i + 1));
        }
        let across: Vec3 = sample.cross(&up);
        if across.norm_sq() >= least {
            way = across;
        }
    }
    proof {
        assert(samples@.skip(0) =~= samples@);
        lemma_descent_is_sideways(samples@, up@);
        lemma_impulse_strength(way@, up@);
    }
    let direction: Vec3 = match way.normalized() {
        Some(d) => d,
        None => way,
    };
    proof {
        lemma_times_bound(direction@, ASTEROID_IMPULSE_MAGNITUDE as int, UNIT as int, 50);
    }
    AsteroidPlan { position, impulse: direction.times(ASTEROID_IMPULSE_MAGNITUDE) }
}

/// One tick of the asteroids: when the timer fires, an asteroid appears above
/// the planet at a random place and falls in a random way, never straight
/// down. However often the timer fired in the tick, one asteroid appears.
/// When the identities have run out, none does.
pub fn spawn_asteroids(world: &mut World, spawn_timer: &mut AsteroidSpawnTimer, delta: u64) -> (r:
    Option<SpawnCommand>)
    requires
        old(world).wf(),
        old(spawn_timer).0.wf(),
    ensures
        final(world).wf(),
        final(spawn_timer).0.wf(),
        final(spawn_timer).0 == old(spawn_timer).0.ticked(delta),
        r is Some <==> final(spawn_timer).0.finished && old(world).next_id() < u64::MAX,
        r is None ==> final(world)@ == old(world)@ && final(world).next_id() == old(world).next_id(),
        r matches Some(command) ==> {
            &&& command.id == old(world).next_id()
            &&& command.role == Role::Hazard
            &&& is_asteroid_impulse(command.impulse@)
            &&& -ASTEROID_IMPULSE_ALONG_MAX < command.impulse@.dot(command.position@.unit())
                < ASTEROID_IMPULSE_ALONG_MAX
            &&& command.position.in_world()
            &&& is_at_spawn_altitude(command.position@)
            &&& final(world)@ == old(world)@.push(Body { id: command.id, role: Role::Hazard })
            &&& final(world).next_id() == old(world).next_id() + 1
            &&& exists|x: int, z: int, samples: Seq<Vec3>|
                {
                    &&& in_spread(x)
                    &&& in_spread(z)
                    &&& samples.len() == DIRECTION_ATTEMPTS
                    &&& forall|i: int| 0 <= i < samples.len() ==> sample_in_spread(samples[i])
                    &&& command.position@ == spawn_point(x, z)
                    &&& command.impulse@ == #[trigger] descent_impulse(samples, spawn_point(x, z))
                }
        },
{
    spawn_timer.0.tick(delta);
    if !spawn_timer.0.finished() {
        return None;
    }
    let id: u64 = match world.spawn(Role::Hazard) {
        Some(id) => id,
        None => { return None; },
    };
    let x: i64 = random_in(-ASTEROID_SPREAD, ASTEROID_SPREAD);
    let z: i64 = random_in(-ASTEROID_SPREAD, ASTEROID_SPREAD);
    let mut samples: Vec<Vec3> = Vec::new();
    while samples.len() < DIRECTION_ATTEMPTS
        invariant
            samples@.len() <= DIRECTION_ATTEMPTS,
            forall|i: int| 0 <= i < samples@.len() ==> sample_in_spread(samples@[i]),
        decreases DIRECTION_ATTEMPTS - samples@.len(),
    {
        let sx: i64 = random_in(-ASTEROID_SPREAD, ASTEROID_SPREAD);
        let sy: i64 = random_in(-ASTEROID_SPREAD, ASTEROID_SPREAD);
        let sz: i64 = random_in(-ASTEROID_SPREAD, ASTEROID_SPREAD);
        samples.push(Vec3::new(sx, sy, sz));
    }
    let plan: AsteroidPlan = plan_asteroid(x, z, &samples);
    proof {
        assert(plan.impulse@ == descent_impulse(samples@, spawn_point(x as int, z as int)));
    }
    Some(SpawnCommand { id, role: Role::Hazard, position: plan.position, impulse: plan.impulse })
}

} // verus!
