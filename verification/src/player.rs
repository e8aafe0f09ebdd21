//! The player: a cannon that rolls over the planet and is pushed back by
//! every shot.

use vstd::prelude::*;
use crate::common::PLANET_SIZE;
use crate::input::ShootEvent;
use crate::vector::{
    lemma_product_bound, lemma_times_bound, lemma_trunc_div_bound, trunc_div, Vec3, V3, UNIT,
    WORLD_LIMIT,
};
use crate::world::{Body, Role, SpawnCommand, World};

verus! {

/// The radius of the player, in lattice steps.
pub const PLAYER_SIZE: i64 = 1_000;

/// Nanoseconds from one shot until the next can be fired: half a second.
pub const FIRE_DELAY: u64 = 500_000_000;

/// Whether the cannon is loaded when a game begins: the cooldown starts out
/// finished, and the first shot can be fired at once.
pub const SHOOT_TIMER_STARTS_FINISHED: bool = true;

/// The push of a shot, on the ball and back on the player, as a fixed-point
/// number.
pub const PLAYER_IMPULSE_MAGNITUDE: i64 = 200_000;

/// Marks the body that shows the player.
#[derive(Clone, Copy, PartialEq, Eq, Structural, Debug)]
pub struct PlayerMesh {}

/// Marks the body that collides for the player.
#[derive(Clone, Copy, PartialEq, Eq, Structural, Debug)]
pub struct PlayerCollider {}

/// Where the player is to be shown, and which way it looks.
#[derive(Clone, Copy, PartialEq, Eq, Structural, Debug)]
pub struct PlayerMeshDesiredTransform {
    pub position: Vec3,
    pub tangent: Vec3,
    pub local_up: Vec3,
    pub local_forward: Vec3,
}

/// Where the player is shown and what it looks at.
#[derive(Clone, Copy, PartialEq, Eq, Structural, Debug)]
pub struct MeshPlacement {
    pub translation: Vec3,
    pub target: Vec3,
    pub up: Vec3,
}

impl PlayerMeshDesiredTransform {
    /// The position is a place in the world and the tangent is a direction.
    pub open spec fn wf(self) -> bool {
        &&& self.position.in_world()
        &&& self.tangent@.is_unit()
    }

    /// The player at the start of a game: on top of the planet, looking
    /// along the y axis.
    pub open spec fn initial() -> PlayerMeshDesiredTransform {
        PlayerMeshDesiredTransform {
            position: Vec3 { x: 0, y: 0, z: 21_000 },
            tangent: Vec3 { x: 0, y: 1_000, z: 0 },
            local_up: Vec3 { x: 0, y: 0, z: 1_000 },
            local_forward: Vec3 { x: 0, y: 1_000, z: 0 },
        }
    }
}

/// Where the player starts: on the surface of the planet, on the z axis.
pub open spec fn player_start() -> Vec3 {
    Vec3 { x: 0, y: 0, z: 21_000 }
}

/// Puts the player into the world, at rest on top of the planet. `None` in
/// place of the request, and no player, once the identities have run out.
pub fn setup_player(world: &mut World) -> (r: (PlayerMeshDesiredTransform, Option<SpawnCommand>))
    requires
        old(world).wf(),
    ensures
        final(world).wf(),
        r.0 == PlayerMeshDesiredTransform::initial(),
        r.0.wf(),
        old(world).next_id() < u64::MAX ==> final(world)@ == old(world)@.push(
            Body { id: old(world).next_id(), role: Role::Player },
        ) && final(world).next_id() == old(world).next_id() + 1 && r.1 == Some(
            SpawnCommand {
                id: old(world).next_id(),
                role: Role::Player,
                position: player_start(),
                impulse: Vec3 { x: 0, y: 0, z: 0 },
            },
        ),
        old(world).next_id() == u64::MAX ==> final(world)@ == old(world)@ && final(world).next_id()
            == old(world).next_id() && r.1 is None,
{
    let start: Vec3 = Vec3::new(0, 0, PLANET_SIZE + PLAYER_SIZE);
    let desired = PlayerMeshDesiredTransform {
        position: start,
        tangent: Vec3::new(0, UNIT, 0),
        local_up: Vec3::new(0, 0, UNIT),
        local_forward: Vec3::new(0, UNIT, 0),
    };
    let command: Option<SpawnCommand> = match world.spawn(Role::Player) {
        Some(id) => Some(
            SpawnCommand { id, role: Role::Player, position: start, impulse: Vec3::new(0, 0, 0) },
        ),
        None => None,
    };
    (desired, command)
}

/// Where the player is shown: on the surface of the planet, straight below
/// where it is, looking one tangent further. `None` with the player at the
/// centre of the planet.
pub open spec fn mesh_placement(desired: PlayerMeshDesiredTransform) -> Option<(V3, V3)> {
    match desired.position@.normalize() {
        Some(up) => Some(
            (
                up.times(PLANET_SIZE as int),
                up.times(PLANET_SIZE as int).plus(desired.tangent@),
            ),
        ),
        None => None,
    }
}

/// Where the player is to be shown, what it looks at, and which way is up.
pub fn set_player_mesh_transform(desired: &PlayerMeshDesiredTransform) -> (r: Option<
    MeshPlacement,
>)
    requires
        desired.wf(),
    ensures
        match r {
            Some(p) => mesh_placement(*desired) == Some((p.translation@, p.target@)) && p.up
                == desired.local_up,
            None => mesh_placement(*desired) is None,
        },
{
    match desired.position.normalized() {
        None => None,
        Some(up) => {
            proof {
                lemma_times_bound(up@, PLANET_SIZE as int, UNIT as int, 20);
            }
            let translation: Vec3 = up.times(PLANET_SIZE);
            let target: Vec3 = translation.plus(&desired.tangent);
            Some(MeshPlacement { translation, target, up: desired.local_up })
        },
    }
}

/// The push on the player from a shot in the direction `direction`, for a
/// player that moves with `velocity`: against the shot, less the part of the
/// velocity that lies along the shot.
pub open spec fn recoil(direction: V3, velocity: V3) -> V3 {
    let along = trunc_div(velocity.dot(direction), UNIT as int);
    direction.neg().times(PLAYER_IMPULSE_MAGNITUDE as int).minus(direction.times(along))
}

/// Pushes the player back for the shots of this tick. The last shot decides;
/// without a shot the push stays as it is.
pub fn apply_player_collider_impulse(
    velocity: &Vec3,
    impulse: &mut Vec3,
    events: &Vec<ShootEvent>,
)
    requires
        velocity.in_world(),
        forall|i: int| 0 <= i < events@.len() ==> events@[i].direction@.within(UNIT as int),
    ensures
        events@.len() == 0 ==> *final(impulse) == *old(impulse),
        events@.len() > 0 ==> final(impulse)@ == recoil(events@.last().direction@, velocity@),
{
    let mut i: usize = 0;
    while i < events.len()
        invariant
            i <= events.len(),
            velocity.in_world(),
            forall|k: int| 0 <= k < events@.len() ==> events@[k].direction@.within(UNIT as int),
            i == 0 ==> *impulse == *old(impulse),
            i > 0 ==> impulse@ == recoil(events@[i - 1].direction@, velocity@),
        decreases events.len() - i,
    {
        let direction: Vec3 = events[i].direction;
        let back: Vec3 = direction.negated();
        proof {
            lemma_times_bound(back@, PLAYER_IMPULSE_MAGNITUDE as int, UNIT as int, 200);
            lemma_product_bound(velocity.x as int, direction.x as int, WORLD_LIMIT as int, UNIT as int);
            lemma_product_bound(velocity.y as int, direction.y as int, WORLD_LIMIT as int, UNIT as int);
            lemma_product_bound(velocity.z as int, direction.z as int, WORLD_LIMIT as int, UNIT as int);
            lemma_trunc_div_bound(
                velocity@.dot(direction@),
                UNIT as int,
                3 * WORLD_LIMIT,
            );
        }
        let push: Vec3 = back.times(PLAYER_IMPULSE_MAGNITUDE);
        let along: i64 = velocity.dot(&direction) / UNIT;
        proof {
            lemma_times_bound(direction@, along as int, UNIT as int, 3 * WORLD_LIMIT);
        }
        let carried: Vec3 = direction.times(along);
        *impulse = push.minus(&carried);
        i += 1;
    }
}

} // verus!
