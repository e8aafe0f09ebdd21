use loose_cannon::cannon_ball::shoot_cannon_ball;
use loose_cannon::extensions::{set_down, Basis};
use loose_cannon::input::ShootEvent;
use loose_cannon::player::{
    apply_player_collider_impulse, set_player_mesh_transform, setup_player, MeshPlacement,
    PlayerMeshDesiredTransform, PLAYER_IMPULSE_MAGNITUDE,
};
use loose_cannon::ui::{restart_button_system, Interaction};
use loose_cannon::common::{GameState, NextState};
use loose_cannon::vector::Vec3;
use loose_cannon::world::{Role, SpawnCommand, World};

#[test]
fn setup_player_puts_the_player_on_the_planet() {
    let mut w = World::new();
    let (desired, command) = setup_player(&mut w);
    assert_eq!(
        desired,
        PlayerMeshDesiredTransform {
            position: Vec3::new(0, 0, 21_000),
            tangent: Vec3::new(0, 1_000, 0),
            local_up: Vec3::new(0, 0, 1_000),
            local_forward: Vec3::new(0, 1_000, 0),
        }
    );
    assert_eq!(
        command,
        Some(SpawnCommand {
            id: 0,
            role: Role::Player,
            position: Vec3::new(0, 0, 21_000),
            impulse: Vec3::new(0, 0, 0),
        })
    );
    assert_eq!(w.role_of(0), Some(Role::Player));
    assert_eq!(w.count(Role::Player), 1);
}

#[test]
fn player_mesh_sits_on_the_surface() {
    let mut d = PlayerMeshDesiredTransform {
        position: Vec3::new(3_000, 4_000, 20_000),
        tangent: Vec3::new(0, 1_000, 0),
        local_up: Vec3::new(7, 8, 9),
        local_forward: Vec3::new(0, 1_000, 0),
    };
    assert_eq!(
        set_player_mesh_transform(&d),
        Some(MeshPlacement {
            translation: Vec3::new(2_900, 3_880, 19_400),
            target: Vec3::new(2_900, 4_880, 19_400),
            up: Vec3::new(7, 8, 9),
        })
    );
    d.position = Vec3::new(0, 0, 0);
    assert_eq!(set_player_mesh_transform(&d), None);
}

#[test]
fn recoil_leaves_the_velocity_across_the_shot_alone() {
    let mut impulse = Vec3::new(0, 0, 0);
    let shot = ShootEvent { position: Vec3::new(0, 0, 0), direction: Vec3::new(0, 1_000, 0) };
    apply_player_collider_impulse(&Vec3::new(700, 0, -900), &mut impulse, &vec![shot]);
    assert_eq!(impulse, Vec3::new(0, -200_000, 0));
    apply_player_collider_impulse(&Vec3::new(700, -150_000, -900), &mut impulse, &vec![shot]);
    assert_eq!(impulse, Vec3::new(0, -50_000, 0));
}

#[test]
fn recoil_is_against_the_shot_less_the_velocity() {
    let mut impulse = Vec3::new(1, 1, 1);
    let shot = ShootEvent { position: Vec3::new(0, 3_000, 21_000), direction: Vec3::new(0, 1_000, 0) };
    apply_player_collider_impulse(&Vec3::new(10, 20, 30), &mut impulse, &vec![shot]);
    assert_eq!(PLAYER_IMPULSE_MAGNITUDE, 200_000);
    assert_eq!(impulse, Vec3::new(0, -200_020, 0));
}

#[test]
fn no_shot_no_recoil() {
    let mut impulse = Vec3::new(1, 2, 3);
    apply_player_collider_impulse(&Vec3::new(10, 20, 30), &mut impulse, &Vec::new());
    assert_eq!(impulse, Vec3::new(1, 2, 3));
}

#[test]
fn last_shot_decides_the_recoil() {
    let mut impulse = Vec3::new(0, 0, 0);
    let a = ShootEvent { position: Vec3::new(0, 0, 0), direction: Vec3::new(0, 1_000, 0) };
    let b = ShootEvent { position: Vec3::new(0, 0, 0), direction: Vec3::new(-600, 0, 800) };
    apply_player_collider_impulse(&Vec3::new(0, 0, 5), &mut impulse, &vec![a, b]);
    assert_eq!(impulse, Vec3::new(120_002, 0, -160_003));
}

#[test]
fn every_shot_becomes_a_cannon_ball() {
    let mut w = World::new();
    w.spawn(Role::Player);
    let a = ShootEvent { position: Vec3::new(0, 3_000, 21_000), direction: Vec3::new(0, 1_000, 0) };
    let b = ShootEvent { position: Vec3::new(5, 6, 7), direction: Vec3::new(-600, 0, 800) };
    let commands = shoot_cannon_ball(&mut w, &vec![a, b]);
    assert_eq!(
        commands,
        vec![
            SpawnCommand {
                id: 1,
                role: Role::Projectile,
                position: Vec3::new(0, 3_000, 21_000),
                impulse: Vec3::new(0, 200_000, 0),
            },
            SpawnCommand {
                id: 2,
                role: Role::Projectile,
                position: Vec3::new(5, 6, 7),
                impulse: Vec3::new(-120_000, 0, 160_000),
            },
        ]
    );
    assert_eq!(w.ids(), vec![0, 1, 2]);
    assert_eq!(w.count(Role::Projectile), 2);
    assert_eq!(w.count(Role::Player), 1);
    assert_eq!(shoot_cannon_ball(&mut w, &Vec::new()), Vec::<SpawnCommand>::new());
    assert_eq!(w.len(), 3);
}

#[test]
fn set_down_gives_the_axes() {
    assert_eq!(
        set_down(&Vec3::new(0, 0, 20_000), &Vec3::new(0, 0, 0), &Vec3::new(0, 1_000, 0)),
        Some(Basis {
            x_axis: Vec3::new(-1_000, 0, 0),
            y_axis: Vec3::new(0, 0, 1_000),
            z_axis: Vec3::new(0, 1_000, 0),
        })
    );
}

#[test]
fn set_down_needs_directions() {
    let p = Vec3::new(0, 0, 20_000);
    assert_eq!(set_down(&p, &p, &Vec3::new(0, 1_000, 0)), None);
    assert_eq!(set_down(&p, &Vec3::new(0, 0, 0), &Vec3::new(0, 0, 1_000)), None);
    assert_eq!(set_down(&p, &Vec3::new(0, 0, 0), &Vec3::new(0, 0, 0)), None);
}

#[test]
fn restart_button_asks_for_a_new_game() {
    let mut next = NextState(None);
    restart_button_system(&mut next, &vec![Interaction::Hovered, Interaction::Idle]);
    assert_eq!(next.0, None);
    restart_button_system(&mut next, &Vec::new());
    assert_eq!(next.0, None);
    restart_button_system(&mut next, &vec![Interaction::Hovered, Interaction::Pressed]);
    assert_eq!(next.0, Some(GameState::Playing));
    let mut other = NextState(Some(GameState::GameOver));
    restart_button_system(&mut other, &vec![Interaction::Idle]);
    assert_eq!(other.0, Some(GameState::GameOver));
    restart_button_system(&mut other, &vec![Interaction::Pressed, Interaction::Idle]);
    assert_eq!(other.0, Some(GameState::Playing));
}
