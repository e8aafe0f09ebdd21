//! What the whole game shares: its state, its score, and the rules for
//! collisions, gravity, the camera and teardown.

use vstd::prelude::*;
use crate::extensions::Basis;
use crate::vector::{
    is_isqrt, lemma_cross_bound, lemma_fraction_between, lemma_product_bound, lemma_times_bound,
    Vec3, V3, UNIT, UNIT_SQ, WIDE_LIMIT, WORLD_LIMIT,
};
use crate::world::{
    count_role, distinct_ids, ids_of, insert_id, lemma_count_without, lemma_role_of_member, role_in,
    without, Body, Role, World,
};

verus! {

/// The radius of the planet, in lattice steps.
pub const PLANET_SIZE: i64 = 20_000;

/// How far from the centre of the planet the camera stays, in lattice steps.
pub const CAMERA_DISTANCE: i64 = 60_000;

/// The part of the way to its goal that the camera goes in one tick, as a
/// fixed-point number.
pub const CAMERA_DELAY: i64 = 900;

/// The camera stays where it is when its goal is no further away than this,
/// in lattice steps.
pub const CAMERA_EPSILON: i64 = 100;

/// How strongly the planet pulls.
pub const GRAVITY_MAGNITUDE: u32 = 3;

/// What one destroyed hazard adds to the score.
pub const SCORE_INCREMENT: i32 = 1;

/// Marks the camera that follows the player.
#[derive(Clone, Copy, PartialEq, Eq, Structural, Debug)]
pub struct PrimaryCamera {}

/// The number of hazards destroyed in the running game.
#[derive(Clone, Copy, PartialEq, Eq, Structural, Debug)]
pub struct Score(pub i32);

/// The two states of the game.
#[derive(Clone, Copy, PartialEq, Eq, Structural, Debug, Hash)]
pub enum GameState {
    Playing,
    GameOver,
}

impl Default for GameState {
    /// A game starts out playing.
    fn default() -> (s: GameState)
        ensures
            s == GameState::Playing,
    {
        GameState::Playing
    }
}

/// The state that was asked for and is entered at the end of the tick.
#[derive(Clone, Copy, PartialEq, Eq, Structural, Debug)]
pub struct NextState(pub Option<GameState>);

impl NextState {
    /// Asks for `state`; a later request in the same tick replaces this one.
    pub fn set(&mut self, state: GameState)
        ensures
            final(self).0 == Some(state),
    {
        self.0 = Some(state);
    }
}

/// What the physics backend reports of two bodies.
#[derive(Clone, Copy, PartialEq, Eq, Structural, Debug)]
pub enum CollisionEvent {
    /// The two bodies began to touch.
    Started(u64, u64),
    /// The two bodies no longer touch.
    Stopped(u64, u64),
}

/// What a collision does to the game.
#[derive(Clone, Copy, PartialEq, Eq, Structural, Debug)]
pub enum Effect {
    /// Nothing happens.
    Nothing,
    /// The game is over.
    GameOver,
    /// Both bodies are removed and the score goes up.
    Score,
    /// Both bodies are removed.
    Despawn,
}

/// The effect of a collision between bodies of two roles. A body that is not
/// live has no role. The player is looked at first: a collision that involves
/// the player ends the game and does nothing else.
pub open spec fn classify(a: Option<Role>, b: Option<Role>) -> Effect {
    if a == Some(Role::Player) || b == Some(Role::Player) {
        Effect::GameOver
    } else {
        match (a, b) {
            (Some(Role::Projectile), Some(Role::Hazard)) => Effect::Score,
            (Some(Role::Hazard), Some(Role::Projectile)) => Effect::Score,
            (Some(Role::Projectile), Some(Role::Projectile)) => Effect::Despawn,
            (Some(Role::Hazard), Some(Role::Hazard)) => Effect::Despawn,
            _ => Effect::Nothing,
        }
    }
}

/// The effect of one event among the bodies `bodies`. Only the start of a
/// collision has one.
pub open spec fn effect_of(bodies: Seq<Body>, event: CollisionEvent) -> Effect {
    match event {
        CollisionEvent::Started(a, b) => classify(role_in(bodies, a), role_in(bodies, b)),
        CollisionEvent::Stopped(_, _) => Effect::Nothing,
    }
}

/// Whether `event` removes the body `id`.
pub open spec fn despawns(bodies: Seq<Body>, event: CollisionEvent, id: u64) -> bool {
    match event {
        CollisionEvent::Started(a, b) => (id == a || id == b) && (effect_of(bodies, event)
            == Effect::Score || effect_of(bodies, event) == Effect::Despawn),
        CollisionEvent::Stopped(_, _) => false,
    }
}

/// Whether one of the first `n` events removes the body `id`.
pub open spec fn despawned_by(bodies: Seq<Body>, events: Seq<CollisionEvent>, n: int, id: u64)
    -> bool {
    exists|j: int| 0 <= j < n && j < events.len() && despawns(bodies, events[j], id)
}

/// The bodies that a batch of events removes.
pub open spec fn despawned_ids(bodies: Seq<Body>, events: Seq<CollisionEvent>) -> Set<u64> {
    Set::new(|id: u64| despawned_by(bodies, events, events.len() as int, id))
}

/// The identities `ids`, and `id` after them unless it is among them.
pub open spec fn with_id(ids: Seq<u64>, id: u64) -> Seq<u64> {
    if ids.contains(id) {
        ids
    } else {
        ids.push(id)
    }
}

/// The bodies that a batch of events removes, in the order in which the
/// events name them for the first time.
pub open spec fn removal_order(bodies: Seq<Body>, events: Seq<CollisionEvent>) -> Seq<u64>
    decreases events.len(),
{
    if events.len() == 0 {
        Seq::empty()
    } else {
        let before = removal_order(bodies, events.drop_last());
        match events.last() {
            CollisionEvent::Started(a, b) => if despawns(bodies, events.last(), a) {
                with_id(with_id(before, a), b)
            } else {
                before
            },
            CollisionEvent::Stopped(_, _) => before,
        }
    }
}

/// Whether one of the first `n` events ends the game.
pub open spec fn game_over_by(bodies: Seq<Body>, events: Seq<CollisionEvent>, n: int) -> bool {
    exists|j: int| 0 <= j < n && j < events.len() && effect_of(bodies, events[j]) == Effect::GameOver
}

/// Whether a batch of events ends the game: one of them involves the player.
pub open spec fn game_over_requested(bodies: Seq<Body>, events: Seq<CollisionEvent>) -> bool {
    game_over_by(bodies, events, events.len() as int)
}

/// How many events of a batch raise the score.
pub open spec fn scoring_events(bodies: Seq<Body>, events: Seq<CollisionEvent>) -> nat {
    events.filter(|e: CollisionEvent| effect_of(bodies, e) == Effect::Score).len()
}

/// The score after `n` more destroyed hazards. It stops at `i32::MAX`.
pub open spec fn raised(score: i32, n: nat) -> i32 {
    if score + n * SCORE_INCREMENT > i32::MAX {
        i32::MAX
    } else {
        (score + n * SCORE_INCREMENT) as i32
    }
}

/// The effect of a collision between bodies of two roles.
pub fn classify_pair(a: Option<Role>, b: Option<Role>) -> (effect: Effect)
    ensures
        effect == classify(a, b),
{
    match (a, b) {
        (Some(Role::Player), _) => Effect::GameOver,
        (_, Some(Role::Player)) => Effect::GameOver,
        (Some(Role::Projectile), Some(Role::Hazard)) => Effect::Score,
        (Some(Role::Hazard), Some(Role::Projectile)) => Effect::Score,
        (Some(Role::Projectile), Some(Role::Projectile)) => Effect::Despawn,
        (Some(Role::Hazard), Some(Role::Hazard)) => Effect::Despawn,
        _ => Effect::Nothing,
    }
}

/// One more event removes what the events before it removed, and what it
/// removes itself.
pub proof fn lemma_despawned_step(
    bodies: Seq<Body>,
    events: Seq<CollisionEvent>,
    n: int,
    id: u64,
)
    requires
        0 <= n < events.len(),
    ensures
        despawned_by(bodies, events, n + 1, id) <==> despawned_by(bodies, events, n, id)
            || despawns(bodies, events[n], id),
{
    if despawned_by(bodies, events, n + 1, id) {
        let j = choose|j: int|
            0 <= j < n + 1 && j < events.len() && despawns(bodies, events[j], id);
        if j < n {
            assert(0 <= j < n && j < events.len() && despawns(bodies, events[j], id));
        }
    }
    if despawned_by(bodies, events, n, id) {
        let j = choose|j: int| 0 <= j < n && j < events.len() && despawns(bodies, events[j], id);
        assert(0 <= j < n + 1 && j < events.len() && despawns(bodies, events[j], id));
    }
    if despawns(bodies, events[n], id) {
        assert(0 <= n < n + 1 && n < events.len() && despawns(bodies, events[n], id));
    }
}

/// One more event ends the game if the events before it did, or if it does
/// so itself.
pub proof fn lemma_game_over_step(bodies: Seq<Body>, events: Seq<CollisionEvent>, n: int)
    requires
        0 <= n < events.len(),
    ensures
        game_over_by(bodies, events, n + 1) <==> game_over_by(bodies, events, n) || effect_of(
            bodies,
            events[n],
        ) == Effect::GameOver,
{
    if game_over_by(bodies, events, n + 1) {
        let j = choose|j: int|
            0 <= j < n + 1 && j < events.len() && effect_of(bodies, events[j]) == Effect::GameOver;
        if j < n {
            assert(0 <= j < n && j < events.len() && effect_of(bodies, events[j])
                == Effect::GameOver);
        }
    }
    if game_over_by(bodies, events, n) {
        let j = choose|j: int|
            0 <= j < n && j < events.len() && effect_of(bodies, events[j]) == Effect::GameOver;
        assert(0 <= j < n + 1 && j < events.len() && effect_of(bodies, events[j])
            == Effect::GameOver);
    }
    if effect_of(bodies, events[n]) == Effect::GameOver {
        assert(0 <= n < n + 1 && n < events.len() && effect_of(bodies, events[n])
            == Effect::GameOver);
    }
}

/// No collision removes the player: a collision of the player ends the game
/// and removes nothing.
pub proof fn lemma_collisions_spare_player(bodies: Seq<Body>, events: Seq<CollisionEvent>)
    requires
        distinct_ids(bodies),
    ensures
        count_role(without(bodies, despawned_ids(bodies, events)), Role::Player) == count_role(
            bodies,
            Role::Player,
        ),
{
    let gone = despawned_ids(bodies, events);
    assert forall|i: int| 0 <= i < bodies.len() && bodies[i].role == Role::Player implies !gone.contains(
        bodies[i].id,
    ) by {
        lemma_role_of_member(bodies, i);
        if gone.contains(bodies[i].id) {
            let j = choose|j: int|
                0 <= j < events.len() && j < events.len() && despawns(bodies, events[j], bodies[i].id);
            assert(effect_of(bodies, events[j]) == Effect::GameOver);
        }
    }
    lemma_count_without(bodies, gone, Role::Player);
}

/// Resolves one batch of collision events, in the order in which they came.
///
/// Every event is judged by the roles that the bodies had when the batch
/// began. A collision that involves the player asks for the game to end.
/// A projectile that meets a hazard raises the score. Projectiles and hazards
/// that meet each other are removed, each once, when the whole batch has been
/// read. The identities of the removed bodies are returned.
pub fn handle_collisions(
    world: &mut World,
    next_state: &mut NextState,
    score: &mut Score,
    events: &Vec<CollisionEvent>,
) -> (removed: Vec<u64>)
    requires
        old(world).wf(),
    ensures
        final(world).wf(),
        final(world)@ == without(old(world)@, despawned_ids(old(world)@, events@)),
        final(world).next_id() == old(world).next_id(),
        removed@ == removal_order(old(world)@, events@),
        removed@.no_duplicates(),
        removed@.to_set() == despawned_ids(old(world)@, events@),
        count_role(final(world)@, Role::Player) == count_role(old(world)@, Role::Player),
        final(score).0 == raised(old(score).0, scoring_events(old(world)@, events@)),
        final(score).0 >= old(score).0,
        final(next_state).0 == if game_over_requested(old(world)@, events@) {
            Some(GameState::GameOver)
        } else {
            old(next_state).0
        },
{
    let ghost bodies = world@;
    let ghost scores = |e: CollisionEvent| effect_of(bodies, e) == Effect::Score;
    let mut removed: Vec<u64> = Vec::new();
    let mut i: usize = 0;
    proof {
        assert(events@.take(0) =~= Seq::<CollisionEvent>::empty());
        reveal(Seq::filter);
    }
    while i < events.len()
        invariant
            i <= events.len(),
            world.wf(),
            world@ == bodies,
            scores == (|e: CollisionEvent| effect_of(bodies, e) == Effect::Score),
            removed@ == removal_order(bodies, events@.take(i as int)),
            removed@.no_duplicates(),
            forall|id: u64| removed@.contains(id) <==> despawned_by(bodies, events@, i as int, id),
            score.0 == raised(old(score).0, events@.take(i as int).filter(scores).len()),
            next_state.0 == if game_over_by(bodies, events@, i as int) {
                Some(GameState::GameOver)
            } else {
                old(next_state).0
            },
        decreases events.len() - i,
    {
        let event: CollisionEvent = events[i];
        let ghost before = removed@;
        proof {
            let prefix = events@.take(i as int);
            assert(events@.take(i + 1) =~= prefix.push(event));
            prefix.lemma_filter_push(event, scores);
            assert(events@.take(i + 1).drop_last() =~= prefix);
        }
        match event {
            CollisionEvent::Started(a, b) => {
                let effect: Effect = classify_pair(world.role_of(a), world.role_of(b));
                if effect == Effect::GameOver {
                    next_state.set(GameState::GameOver);
                }
                if effect == Effect::Score && score.0 < i32::MAX {
                    score.0 = score.0 + SCORE_INCREMENT;
                }
                if effect == Effect::Score || effect == Effect::Despawn {
                    insert_id(&mut removed, a);
                    insert_id(&mut removed, b);
                }
            },
            CollisionEvent::Stopped(_, _) => {},
        }
        proof {
            assert forall|id: u64| removed@.contains(id) <==> despawned_by(
                bodies,
                events@,
                i + 1,
                id,
            ) by {
                lemma_despawned_step(bodies, events@, i as int, id);
            }
            lemma_game_over_step(bodies, events@, i as int);
        }
        i += 1;
    }
    proof {
        assert(events@.take(i as int) =~= events@);
        assert(removed@.to_set() =~= despawned_ids(bodies, events@));
        lemma_collisions_spare_player(bodies, events@);
    }
    world.despawn_all(&removed);
    removed
}

/// How the pull of the planet grows with the distance from its centre.
#[derive(Clone, Copy, PartialEq, Eq, Structural, Debug)]
pub enum Falloff {
    /// With the square of the distance.
    Square,
    /// With the cube of the distance.
    Cube,
}

/// The gravity of the planet, whose centre is the origin.
#[derive(Clone, Copy, PartialEq, Eq, Structural, Debug)]
pub struct GravityField {
    pub magnitude: u32,
    pub falloff: Falloff,
}

/// A force, in steps of which `UNIT * UNIT * UNIT` make one unit of force.
#[derive(Clone, Copy, PartialEq, Eq, Structural, Debug)]
pub struct Force {
    pub x: i128,
    pub y: i128,
    pub z: i128,
}

impl View for Force {
    type V = V3;

    open spec fn view(&self) -> V3 {
        V3 { x: self.x as int, y: self.y as int, z: self.z as int }
    }
}

impl Default for GravityField {
    /// The pull of `GRAVITY_MAGNITUDE`, growing with the square of the
    /// distance.
    fn default() -> (field: GravityField)
        ensures
            field == (GravityField { magnitude: GRAVITY_MAGNITUDE, falloff: Falloff::Square }),
    {
        GravityField { magnitude: GRAVITY_MAGNITUDE, falloff: Falloff::Square }
    }
}

impl GravityField {
    /// How many times its own distance from the centre a body at `p` is
    /// pulled: the magnitude times the distance, counted in thousandths of a
    /// step and rounded down, or times the square of the distance.
    pub open spec fn pull(self, p: V3) -> int {
        match self.falloff {
            Falloff::Square => self.magnitude * p.fine_length(),
            Falloff::Cube => self.magnitude * p.norm_sq(),
        }
    }

    /// The force on a body at `p`: toward the centre, as strong as the
    /// magnitude times the distance to the power of the falloff. At the centre
    /// there is none.
    pub open spec fn force_at(self, p: V3) -> V3 {
        p.neg().scaled(self.pull(p))
    }

    /// The force on a body at `p`.
    pub fn force(&self, p: &Vec3) -> (f: Force)
        requires
            p.in_world(),
        ensures
            f@ == self.force_at(p@),
            p@.is_zero() ==> f@.is_zero(),
            f@.cross(p@).is_zero(),
            self.magnitude > 0 && !p@.is_zero() ==> f@.dot(p@) < 0,
    {
        proof {
            lemma_gravity_points_to_center(*self, p@);
        }
        let ghost w: int = WORLD_LIMIT as int;
        proof {
            lemma_product_bound(p.x as int, p.x as int, w, w);
            lemma_product_bound(p.y as int, p.y as int, w, w);
            lemma_product_bound(p.z as int, p.z as int, w, w);
        }
        let reach: u64 = match self.falloff {
            Falloff::Square => p.fine_length(),
            Falloff::Cube => p.norm_sq(),
        };
        let ghost most: int = 3 * (WIDE_LIMIT * WIDE_LIMIT);
        proof {
            assert(3 * (w * w) <= most && 2 * WIDE_LIMIT * UNIT <= most) by (nonlinear_arith)
                requires
                    w == WORLD_LIMIT,
                    WORLD_LIMIT == 268_435_456,
                    WIDE_LIMIT == 1_073_741_824,
                    UNIT == 1000,
                    most == 3 * (WIDE_LIMIT * WIDE_LIMIT),
            ;
            assert(reach <= most);
            lemma_product_bound(self.magnitude as int, reach as int, u32::MAX as int, most);
            assert(u32::MAX * most * w < 0x7fff_ffff_ffff_ffff_ffff_ffff_ffff_ffff)
                by (nonlinear_arith)
                requires
                    w == 268_435_456,
                    most == 3 * (1_073_741_824 * 1_073_741_824),
            ;
        }
        let pull: i128 = (self.magnitude as i128) * (reach as i128);
        proof {
            let m: int = u32::MAX * most;
            assert(w * m == u32::MAX * most * w) by (nonlinear_arith)
                requires
                    m == u32::MAX * most,
            ;
            lemma_product_bound(-p.x, pull as int, w, m);
            lemma_product_bound(-p.y, pull as int, w, m);
            lemma_product_bound(-p.z, pull as int, w, m);
        }
        Force {
            x: (-(p.x as i128)) * pull,
            y: (-(p.y as i128)) * pull,
            z: (-(p.z as i128)) * pull,
        }
    }
}

/// The pull of the planet never points outward: the force on a body is its
/// position, turned round and stretched by a number that is not negative.
/// With a positive magnitude that number is positive everywhere but at the
/// centre, so the force points exactly at the centre; at the centre the
/// force is zero.
pub proof fn lemma_gravity_points_to_center(field: GravityField, p: V3)
    ensures
        field.force_at(p) == p.neg().scaled(field.pull(p)),
        field.falloff == Falloff::Square ==> field.pull(p) == field.magnitude * p.fine_length()
            && is_isqrt(p.norm_sq() * UNIT_SQ, p.fine_length()),
        field.falloff == Falloff::Cube ==> field.pull(p) == field.magnitude * p.norm_sq(),
        field.pull(p) >= 0,
        field.magnitude > 0 && !p.is_zero() ==> field.pull(p) > 0,
        field.force_at(p).cross(p).is_zero(),
        field.magnitude > 0 && !p.is_zero() ==> field.force_at(p).dot(p) < 0,
        p.is_zero() ==> field.force_at(p).is_zero(),
{
    let n = p.norm_sq();
    let k: int = field.magnitude as int;
    assert(p.x * p.x >= 0 && p.y * p.y >= 0 && p.z * p.z >= 0) by (nonlinear_arith);
    assert(n * UNIT_SQ >= 0) by (nonlinear_arith)
        requires
            n >= 0,
            UNIT_SQ == 1_000_000,
    ;
    crate::vector::lemma_isqrt_exists(n * UNIT_SQ);
    let len = p.fine_length();
    assert(is_isqrt(n * UNIT_SQ, len));
    if !p.is_zero() {
        assert(n > 0) by (nonlinear_arith)
            requires
                n == p.x * p.x + p.y * p.y + p.z * p.z,
                p.x != 0 || p.y != 0 || p.z != 0,
        ;
        crate::vector::lemma_unit_length(p);
        assert(len > 0);
    }
    let c = field.pull(p);
    assert(c >= 0 && (k > 0 && !p.is_zero() ==> c > 0)) by (nonlinear_arith)
        requires
            k >= 0,
            len >= 0,
            n >= 0,
            !p.is_zero() ==> len > 0 && n > 0,
            c == k * len || c == k * n,
    ;
    let f = field.force_at(p);
    assert(f.y * p.z - f.z * p.y == 0) by (nonlinear_arith)
        requires
            f.y == (-p.y) * c,
            f.z == (-p.z) * c,
    ;
    assert(f.z * p.x - f.x * p.z == 0) by (nonlinear_arith)
        requires
            f.z == (-p.z) * c,
            f.x == (-p.x) * c,
    ;
    assert(f.x * p.y - f.y * p.x == 0) by (nonlinear_arith)
        requires
            f.x == (-p.x) * c,
            f.y == (-p.y) * c,
    ;
    assert(f.dot(p) == -(c * n)) by (nonlinear_arith)
        requires
            f.x == (-p.x) * c,
            f.y == (-p.y) * c,
            f.z == (-p.z) * c,
            n == p.x * p.x + p.y * p.y + p.z * p.z,
            f.dot(p) == f.x * p.x + f.y * p.y + f.z * p.z,
    ;
    if k > 0 && !p.is_zero() {
        assert(c * n > 0) by (nonlinear_arith)
            requires
                c > 0,
                n > 0,
        ;
    }
}

/// The force of gravity on each body, given where each is.
pub fn gravity(field: &GravityField, positions: &Vec<Vec3>) -> (forces: Vec<Force>)
    requires
        forall|i: int| 0 <= i < positions@.len() ==> positions@[i].in_world(),
    ensures
        forces@.len() == positions@.len(),
        forall|i: int| 0 <= i < positions@.len() ==> forces@[i]@ == field.force_at(positions@[i]@),
{
    let mut forces: Vec<Force> = Vec::new();
    let mut i: usize = 0;
    while i < positions.len()
        invariant
            i <= positions.len(),
            forces@.len() == i,
            forall|k: int| 0 <= k < positions@.len() ==> positions@[k].in_world(),
            forall|k: int| 0 <= k < i ==> forces@[k]@ == field.force_at(positions@[k]@),
        decreases positions.len() - i,
    {
        let f: Force = field.force(&positions[i]);
        forces.push(f);
        i += 1;
    }
    forces
}

/// Where the camera wants to be: straight above the player, `CAMERA_DISTANCE`
/// from the centre. With the player at the centre there is no such place.
pub open spec fn camera_target(player: V3) -> Option<V3> {
    match player.normalize() {
        Some(up) => Some(up.times(CAMERA_DISTANCE as int)),
        None => None,
    }
}

/// Where the camera goes in one tick, if it moves: the part `CAMERA_DELAY` of
/// the way to its goal. It stays when the goal is within `CAMERA_EPSILON`, or
/// when there is no goal.
pub open spec fn camera_step(camera: V3, player: V3) -> Option<V3> {
    match camera_target(player) {
        Some(target) => {
            let way = target.minus(camera);
            if way.norm_sq() > CAMERA_EPSILON * CAMERA_EPSILON {
                Some(camera.plus(way.times(CAMERA_DELAY as int)))
            } else {
                None
            }
        },
        None => None,
    }
}

/// The axes of a camera at `position` that looks at the centre of the planet
/// and has `up` for its upward direction: to the right, up, and back from
/// what it looks at. `None` where there are no such axes: with the camera at
/// the centre, or with `up` on the line through the camera and the centre.
pub open spec fn axes_toward_center(position: V3, up: V3) -> Option<(V3, V3, V3)> {
    match position.normalize() {
        Some(back) => match up.cross(back).normalize() {
            Some(right) => match back.cross(right).normalize() {
                Some(above) => Some((right, above, back)),
                None => None,
            },
            None => None,
        },
        None => None,
    }
}

/// Where the camera goes and how it is turned.
#[derive(Clone, Copy, PartialEq, Eq, Structural, Debug)]
pub struct CameraPlacement {
    /// The new place of the camera.
    pub translation: Vec3,
    /// The new axes of the camera; `None` leaves it turned as it is.
    pub axes: Option<Basis>,
}

/// The axes of a camera at `position` that looks at the centre of the planet
/// and has `up` for its upward direction.
pub fn look_at_center(position: &Vec3, up: &Vec3) -> (axes: Option<Basis>)
    requires
        position.in_world(),
        up@.within(UNIT as int),
    ensures
        match axes {
            Some(b) => axes_toward_center(position@, up@) == Some(
                (b.x_axis@, b.y_axis@, b.z_axis@),
            ) && b.x_axis@.is_unit() && b.y_axis@.is_unit() && b.z_axis@.is_unit(),
            None => axes_toward_center(position@, up@) is None,
        },
{
    let back: Vec3 = match position.normalized() {
        Some(v) => v,
        None => { return None; },
    };
    proof {
        lemma_cross_bound(up@, back@, UNIT as int, UNIT as int);
    }
    let right: Vec3 = match up.cross(&back).normalized() {
        Some(v) => v,
        None => { return None; },
    };
    proof {
        lemma_cross_bound(back@, right@, UNIT as int, UNIT as int);
    }
    match back.cross(&right).normalized() {
        Some(above) => Some(Basis { x_axis: right, y_axis: above, z_axis: back }),
        None => None,
    }
}

/// Moves the camera after the player and turns it to the centre of the
/// planet, with `camera_up` for its upward direction: where the camera goes,
/// or `None` when it stays as it is.
pub fn move_camera(camera: &Vec3, camera_up: &Vec3, player: &Vec3) -> (moved: Option<
    CameraPlacement,
>)
    requires
        camera.in_world(),
        camera_up@.within(UNIT as int),
        player.in_world(),
    ensures
        match moved {
            Some(m) => {
                &&& camera_step(camera@, player@) == Some(m.translation@)
                &&& m.translation.in_world()
                &&& match m.axes {
                    Some(b) => axes_toward_center(m.translation@, camera_up@) == Some(
                        (b.x_axis@, b.y_axis@, b.z_axis@),
                    ) && b.x_axis@.is_unit() && b.y_axis@.is_unit() && b.z_axis@.is_unit(),
                    None => axes_toward_center(m.translation@, camera_up@) is None,
                }
            },
            None => camera_step(camera@, player@) is None,
        },
{
    match player.normalized() {
        None => None,
        Some(up) => {
            proof {
                lemma_times_bound(up@, CAMERA_DISTANCE as int, UNIT as int, 60);
            }
            let target: Vec3 = up.times(CAMERA_DISTANCE);
            let way: Vec3 = target.minus(camera);
            if way.norm_sq() > (CAMERA_EPSILON * CAMERA_EPSILON) as u64 {
                proof {
                    lemma_fraction_between(way.x as int, CAMERA_DELAY as int);
                    lemma_fraction_between(way.y as int, CAMERA_DELAY as int);
                    lemma_fraction_between(way.z as int, CAMERA_DELAY as int);
                }
                let step: Vec3 = way.times(CAMERA_DELAY);
                let translation: Vec3 = camera.plus(&step);
                Some(CameraPlacement { translation, axes: look_at_center(&translation, camera_up) })
            } else {
                None
            }
        },
    }
}

/// Removes every body from the world, whatever its role, and returns the
/// identities of the bodies that were live.
pub fn teardown(world: &mut World) -> (removed: Vec<u64>)
    ensures
        removed@ == ids_of(old(world)@),
        final(world)@ == Seq::<Body>::empty(),
        final(world).next_id() == 0,
        final(world).wf(),
{
    let removed: Vec<u64> = world.ids();
    world.clear();
    removed
}

/// Sets the score back to zero.
pub fn reset_score(score: &mut Score)
    ensures
        final(score).0 == 0,
{
    score.0 = 0;
}

/// A collision of the player ends the game, wherever in the batch it stands.
pub proof fn lemma_player_collision_ends_game(
    bodies: Seq<Body>,
    events: Seq<CollisionEvent>,
    i: int,
    a: u64,
    b: u64,
)
    requires
        0 <= i < events.len(),
        events[i] == CollisionEvent::Started(a, b),
        role_in(bodies, a) == Some(Role::Player) || role_in(bodies, b) == Some(Role::Player),
    ensures
        game_over_requested(bodies, events),
{
    assert(effect_of(bodies, events[i]) == Effect::GameOver);
}

/// Whether a batch of events ends the game does not depend on the order in
/// which the events arrive.
pub proof fn lemma_game_over_any_order(
    bodies: Seq<Body>,
    events: Seq<CollisionEvent>,
    shuffled: Seq<CollisionEvent>,
)
    requires
        events.to_multiset() == shuffled.to_multiset(),
    ensures
        game_over_requested(bodies, events) == game_over_requested(bodies, shuffled),
{
    lemma_game_over_carries(bodies, events, shuffled);
    lemma_game_over_carries(bodies, shuffled, events);
}

/// Which bodies a batch of events removes does not depend on the order in
/// which the events arrive.
pub proof fn lemma_removed_any_order(
    bodies: Seq<Body>,
    events: Seq<CollisionEvent>,
    shuffled: Seq<CollisionEvent>,
)
    requires
        events.to_multiset() == shuffled.to_multiset(),
    ensures
        despawned_ids(bodies, events) == despawned_ids(bodies, shuffled),
{
    assert forall|id: u64|
        despawned_ids(bodies, events).contains(id) == despawned_ids(bodies, shuffled).contains(
            id,
        ) by {
        lemma_removed_carries(bodies, events, shuffled, id);
        lemma_removed_carries(bodies, shuffled, events, id);
    }
    assert(despawned_ids(bodies, events) =~= despawned_ids(bodies, shuffled));
}

/// A body that one batch removes is removed by every batch that holds the
/// same events.
proof fn lemma_removed_carries(
    bodies: Seq<Body>,
    events: Seq<CollisionEvent>,
    shuffled: Seq<CollisionEvent>,
    id: u64,
)
    requires
        events.to_multiset() == shuffled.to_multiset(),
    ensures
        despawned_ids(bodies, events).contains(id) ==> despawned_ids(bodies, shuffled).contains(id),
{
    if despawned_ids(bodies, events).contains(id) {
        let j = choose|j: int|
            0 <= j < events.len() && j < events.len() && despawns(bodies, events[j], id);
        let e = events[j];
        assert(events.contains(e));
        vstd::seq_lib::to_multiset_contains(events, e);
        vstd::seq_lib::to_multiset_contains(shuffled, e);
        let k = choose|k: int| 0 <= k < shuffled.len() && shuffled[k] == e;
        assert(0 <= k < shuffled.len() && k < shuffled.len() && despawns(bodies, shuffled[k], id));
    }
}

/// How many events of a batch raise the score, and so the score after the
/// batch, does not depend on the order in which the events arrive.
pub proof fn lemma_score_any_order(
    bodies: Seq<Body>,
    events: Seq<CollisionEvent>,
    shuffled: Seq<CollisionEvent>,
)
    requires
        events.to_multiset() == shuffled.to_multiset(),
    ensures
        scoring_events(bodies, events) == scoring_events(bodies, shuffled),
    decreases events.len(),
{
    let scores = |e: CollisionEvent| effect_of(bodies, e) == Effect::Score;
    events.to_multiset_ensures();
    shuffled.to_multiset_ensures();
    if events.len() == 0 {
        assert(shuffled.len() == 0);
        assert(events =~= shuffled);
    } else {
        let e = events.last();
        let front = events.drop_last();
        assert(events =~= front.push(e));
        assert(events[events.len() - 1] == e);
        assert(events.contains(e));
        vstd::seq_lib::to_multiset_contains(events, e);
        vstd::seq_lib::to_multiset_contains(shuffled, e);
        assert(shuffled.contains(e));
        let k = choose|k: int| 0 <= k < shuffled.len() && shuffled[k] == e;
        let rest = shuffled.remove(k);
        front.to_multiset_ensures();
        assert(front.to_multiset() =~= events.to_multiset().remove(e)) by {
            assert(front.push(e).to_multiset() =~= front.to_multiset().insert(e));
        }
        assert(rest.to_multiset() =~= shuffled.to_multiset().remove(e));
        lemma_score_any_order(bodies, front, rest);
        front.lemma_filter_push(e, scores);
        let before = shuffled.take(k);
        let after = shuffled.skip(k + 1);
        assert(shuffled =~= before.push(e) + after);
        assert(rest =~= before + after);
        before.lemma_filter_push(e, scores);
        Seq::filter_distributes_over_add(before.push(e), after, scores);
        Seq::filter_distributes_over_add(before, after, scores);
    }
}

/// An event that ends the game in one batch ends it in every batch that
/// holds the same events.
proof fn lemma_game_over_carries(
    bodies: Seq<Body>,
    events: Seq<CollisionEvent>,
    shuffled: Seq<CollisionEvent>,
)
    requires
        events.to_multiset() == shuffled.to_multiset(),
    ensures
        game_over_requested(bodies, events) ==> game_over_requested(bodies, shuffled),
{
    if game_over_requested(bodies, events) {
        let j = choose|j: int|
            0 <= j < events.len() && j < events.len() && effect_of(bodies, events[j])
                == Effect::GameOver;
        let e = events[j];
        assert(events.contains(e));
        vstd::seq_lib::to_multiset_contains(events, e);
        vstd::seq_lib::to_multiset_contains(shuffled, e);
        assert(shuffled.contains(e));
        let k = choose|k: int| 0 <= k < shuffled.len() && shuffled[k] == e;
        assert(0 <= k < shuffled.len() && effect_of(bodies, shuffled[k]) == Effect::GameOver);
    }
}

} // verus!
