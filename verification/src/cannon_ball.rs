//! Cannon balls: the projectiles that the player fires.

use vstd::prelude::*;
use crate::input::ShootEvent;
use crate::player::PLAYER_IMPULSE_MAGNITUDE;
use crate::vector::{lemma_times_bound, Vec3, V3, WIDE_LIMIT};
use crate::world::{Body, Role, SpawnCommand, World};

verus! {

/// How far behind the player a cannon ball appears, as a fixed-point number.
pub const CANNON_BALL_INITIAL_OFFSET: i64 = 3_000;

/// Marks a cannon ball.
#[derive(Clone, Copy, PartialEq, Eq, Structural, Debug)]
pub struct CannonBall {}

/// How many of `wanted` new bodies a world gets whose next identity is
/// `next_id`: all of them, unless the identities run out first.
pub open spec fn spawnable(next_id: u64, wanted: nat) -> nat {
    if next_id + wanted <= u64::MAX {
        wanted
    } else {
        (u64::MAX - next_id) as nat
    }
}

/// `n` new bodies of one role, with the identities from `next_id` on.
pub open spec fn new_bodies(next_id: u64, n: nat, role: Role) -> Seq<Body> {
    Seq::new(n, |k: int| Body { id: (next_id + k) as u64, role })
}

/// The push that sends a ball off in the direction `direction`.
pub open spec fn launch(direction: V3) -> V3 {
    direction.times(PLAYER_IMPULSE_MAGNITUDE as int)
}

/// Puts a cannon ball into the world for every shot, in the order of the
/// shots, and returns the requests to create them. Shots for which no
/// identity is left are dropped.
pub fn shoot_cannon_ball(world: &mut World, events: &Vec<ShootEvent>) -> (commands: Vec<
    SpawnCommand,
>)
    requires
        old(world).wf(),
        forall|i: int| 0 <= i < events@.len() ==> events@[i].direction.in_range(),
    ensures
        final(world).wf(),
        commands@.len() == spawnable(old(world).next_id(), events@.len()),
        final(world).next_id() == old(world).next_id() + commands@.len(),
        final(world)@ == old(world)@ + new_bodies(
            old(world).next_id(),
            commands@.len(),
            Role::Projectile,
        ),
        forall|k: int|
            0 <= k < commands@.len() ==> {
                &&& (#[trigger] commands@[k]).id == old(world).next_id() + k
                &&& commands@[k].role == Role::Projectile
                &&& commands@[k].position == events@[k].position
                &&& commands@[k].impulse@ == launch(events@[k].direction@)
            },
{
    let ghost first = world.next_id();
    let ghost start = world@;
    let mut commands: Vec<SpawnCommand> = Vec::new();
    let mut i: usize = 0;
    proof {
        assert(start =~= start + new_bodies(first, 0, Role::Projectile));
    }
    while i < events.len()
        invariant
            i <= events.len(),
            world.wf(),
            forall|k: int| 0 <= k < events@.len() ==> events@[k].direction.in_range(),
            commands@.len() == spawnable(first, i as nat),
            world.next_id() == first + commands@.len(),
            world@ == start + new_bodies(first, commands@.len(), Role::Projectile),
            forall|k: int|
                0 <= k < commands@.len() ==> {
                    &&& (#[trigger] commands@[k]).id == first + k
                    &&& commands@[k].role == Role::Projectile
                    &&& commands@[k].position == events@[k].position
                    &&& commands@[k].impulse@ == launch(events@[k].direction@)
                },
        decreases events.len() - i,
    {
        let event: ShootEvent = events[i];
        let ghost before = world@;
        match world.spawn(Role::Projectile) {
            Some(id) => {
                proof {
                    lemma_times_bound(
                        event.direction@,
                        PLAYER_IMPULSE_MAGNITUDE as int,
                        WIDE_LIMIT as int,
                        200,
                    );
                }
                let impulse: Vec3 = event.direction.times(PLAYER_IMPULSE_MAGNITUDE);
                commands.push(
                    SpawnCommand { id, role: Role::Projectile, position: event.position, impulse },
                );
                proof {
                    assert(world@ =~= start + new_bodies(
                        first,
                        commands@.len(),
                        Role::Projectile,
                    ));
                }
            },
            None => {},
        }
        i += 1;
    }
    commands
}

} // verus!
