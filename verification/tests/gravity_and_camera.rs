use loose_cannon::common::{
    gravity, look_at_center, move_camera, reset_score, teardown, CameraPlacement, Falloff, Force,
    GravityField, Score, CAMERA_DISTANCE, GRAVITY_MAGNITUDE,
};
use loose_cannon::extensions::Basis;
use loose_cannon::vector::{Vec3, WORLD_LIMIT};
use loose_cannon::world::{Role, World};

fn square() -> GravityField {
    GravityField { magnitude: 3, falloff: Falloff::Square }
}

#[test]
fn default_gravity() {
    let g = GravityField::default();
    assert_eq!(g.magnitude, GRAVITY_MAGNITUDE);
    assert_eq!(g.magnitude, 3);
    assert_eq!(g.falloff, Falloff::Square);
}

#[test]
fn gravity_at_the_centre_is_zero() {
    let zero = Vec3::new(0, 0, 0);
    assert_eq!(square().force(&zero), Force { x: 0, y: 0, z: 0 });
    let cube = GravityField { magnitude: 9, falloff: Falloff::Cube };
    assert_eq!(cube.force(&zero), Force { x: 0, y: 0, z: 0 });
}

#[test]
fn gravity_grows_with_the_square_of_the_distance() {
    let f = square().force(&Vec3::new(0, 0, 60_000));
    assert_eq!(f, Force { x: 0, y: 0, z: -10_800_000_000_000 });
    let g = square().force(&Vec3::new(3_000, -4_000, 12_000));
    assert_eq!(g, Force { x: -117_000_000_000, y: 156_000_000_000, z: -468_000_000_000 });
    let h = square().force(&Vec3::new(1, 1, 1));
    assert_eq!(h, Force { x: -5_196, y: -5_196, z: -5_196 });
}

#[test]
fn gravity_grows_with_the_cube_of_the_distance() {
    let cube = GravityField { magnitude: 3, falloff: Falloff::Cube };
    let f = cube.force(&Vec3::new(0, 0, 60_000));
    assert_eq!(f, Force { x: 0, y: 0, z: -648_000_000_000_000 });
}

#[test]
fn gravity_points_at_the_centre() {
    let places = [
        Vec3::new(1, 1, 1),
        Vec3::new(-21_000, 5, -5),
        Vec3::new(123, -45_678, 9_012),
        Vec3::new(1_048_576, -1_048_576, 1_048_576),
        Vec3::new(WORLD_LIMIT, -WORLD_LIMIT, WORLD_LIMIT),
    ];
    for falloff in [Falloff::Square, Falloff::Cube] {
        let field = GravityField { magnitude: u32::MAX, falloff };
        for p in places {
            let f = field.force(&p);
            let (px, py, pz) = (p.x as i128, p.y as i128, p.z as i128);
            assert_eq!(f.x / px, f.y / py);
            assert_eq!(f.y / py, f.z / pz);
            assert_eq!((f.x % px, f.y % py, f.z % pz), (0, 0, 0));
            assert!(f.x / px < 0);
        }
    }
}

#[test]
fn gravity_pulls_along_an_axis() {
    let f = square().force(&Vec3::new(-21_000, 0, 0));
    assert_eq!(f, Force { x: 1_323_000_000_000, y: 0, z: 0 });
}

#[test]
fn gravity_without_magnitude_is_zero() {
    let none = GravityField { magnitude: 0, falloff: Falloff::Square };
    assert_eq!(none.force(&Vec3::new(5, 6, 7)), Force { x: 0, y: 0, z: 0 });
}

#[test]
fn gravity_on_every_body() {
    let forces =
        gravity(&square(), &vec![Vec3::new(0, 0, 60_000), Vec3::new(0, 0, 0), Vec3::new(1, 1, 1)]);
    assert_eq!(
        forces,
        vec![
            Force { x: 0, y: 0, z: -10_800_000_000_000 },
            Force { x: 0, y: 0, z: 0 },
            Force { x: -5_196, y: -5_196, z: -5_196 },
        ]
    );
    assert_eq!(gravity(&square(), &Vec::new()), Vec::<Force>::new());
}

#[test]
fn hazard_above_the_player_is_pulled_toward_the_player() {
    let f = square().force(&Vec3::new(0, 0, 60_000));
    assert_eq!((f.x, f.y), (0, 0));
    assert!(f.z < 0);
}

fn up() -> Vec3 {
    Vec3::new(0, 1_000, 0)
}

#[test]
fn camera_moves_most_of_the_way() {
    let camera = Vec3::new(0, 0, CAMERA_DISTANCE);
    let player = Vec3::new(21_000, 0, 0);
    assert_eq!(
        move_camera(&camera, &up(), &player).unwrap().translation,
        Vec3::new(54_000, 0, 6_000)
    );
    assert_eq!(
        move_camera(&Vec3::new(1_000, 2_000, 59_000), &up(), &Vec3::new(3_000, -4_000, 20_000))
            .unwrap()
            .translation,
        Vec3::new(7_930, -10_276, 58_280)
    );
}

#[test]
fn camera_looks_at_the_centre() {
    let camera = Vec3::new(0, 0, CAMERA_DISTANCE);
    let player = Vec3::new(21_000, 0, 0);
    assert_eq!(
        move_camera(&camera, &up(), &player),
        Some(CameraPlacement {
            translation: Vec3::new(54_000, 0, 6_000),
            axes: Some(Basis {
                x_axis: Vec3::new(110, 0, -993),
                y_axis: Vec3::new(0, 1_000, 0),
                z_axis: Vec3::new(993, 0, 110),
            }),
        })
    );
    assert_eq!(
        look_at_center(&Vec3::new(7_930, -10_276, 58_280), &up()),
        Some(Basis {
            x_axis: Vec3::new(990, 0, -134),
            y_axis: Vec3::new(23, 985, 170),
            z_axis: Vec3::new(132, -172, 976),
        })
    );
    assert_eq!(
        look_at_center(&Vec3::new(0, 0, 60_000), &up()),
        Some(Basis {
            x_axis: Vec3::new(1_000, 0, 0),
            y_axis: Vec3::new(0, 1_000, 0),
            z_axis: Vec3::new(0, 0, 1_000),
        })
    );
}

#[test]
fn camera_cannot_look_along_its_upward_direction() {
    assert_eq!(look_at_center(&Vec3::new(0, 54_000, 0), &up()), None);
    assert_eq!(look_at_center(&Vec3::new(0, 0, 0), &up()), None);
    assert_eq!(look_at_center(&Vec3::new(0, 0, 60_000), &Vec3::new(0, 0, 0)), None);
    let moved = move_camera(&Vec3::new(0, 50_000, 0), &up(), &Vec3::new(0, 21_000, 0)).unwrap();
    assert_eq!(moved, CameraPlacement { translation: Vec3::new(0, 59_000, 0), axes: None });
}

#[test]
fn camera_holds_at_its_goal() {
    let player = Vec3::new(0, 0, 21_000);
    assert_eq!(move_camera(&Vec3::new(0, 0, 60_000), &up(), &player), None);
}

#[test]
fn camera_holds_within_epsilon() {
    let player = Vec3::new(21_000, 0, 0);
    assert_eq!(move_camera(&Vec3::new(60_000, 0, 100), &up(), &player), None);
    assert_eq!(
        move_camera(&Vec3::new(60_000, 0, 101), &up(), &player).unwrap().translation,
        Vec3::new(60_000, 0, 11)
    );
}

#[test]
fn camera_holds_with_the_player_at_the_centre() {
    assert_eq!(move_camera(&Vec3::new(0, 0, 60_000), &up(), &Vec3::new(0, 0, 0)), None);
}

#[test]
fn camera_comes_to_rest() {
    let player = Vec3::new(-5_000, 12_000, 17_000);
    let mut camera = Vec3::new(0, 0, 60_000);
    let mut steps = 0;
    while let Some(next) = move_camera(&camera, &up(), &player) {
        assert!(next.translation.is_in_world());
        camera = next.translation;
        steps += 1;
        assert!(steps < 50);
    }
    assert!(steps > 0);
}

#[test]
fn teardown_removes_every_body() {
    let mut w = World::new();
    w.spawn(Role::Player);
    w.spawn(Role::Hazard);
    w.spawn(Role::Projectile);
    w.despawn_all(&vec![1]);
    assert_eq!(teardown(&mut w), vec![0, 2]);
    assert_eq!(w.len(), 0);
    assert_eq!(teardown(&mut w), Vec::<u64>::new());
    assert_eq!(w.spawn(Role::Player), Some(0));
}

#[test]
fn reset_score_sets_zero() {
    let mut s = Score(41);
    reset_score(&mut s);
    assert_eq!(s, Score(0));
}
