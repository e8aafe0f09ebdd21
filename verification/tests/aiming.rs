use loose_cannon::cannon_ball::CANNON_BALL_INITIAL_OFFSET;
use loose_cannon::input::{
    get_tangent_helper, handle_player_input, setup_player_input, CursorPos, InputFrame,
    InputOutcome, PlayerInput, ShootEvent, ShootTimer,
};
use loose_cannon::player::{PlayerMeshDesiredTransform, FIRE_DELAY, SHOOT_TIMER_STARTS_FINISHED};
use loose_cannon::timer::{Timer, TimerMode};
use loose_cannon::vector::Vec3;

const MS: u64 = 1_000_000;

fn desired() -> PlayerMeshDesiredTransform {
    PlayerMeshDesiredTransform {
        position: Vec3::new(0, 0, 21_000),
        tangent: Vec3::new(0, 1_000, 0),
        local_up: Vec3::new(0, 0, 1_000),
        local_forward: Vec3::new(0, 1_000, 0),
    }
}

fn frame(delta: u64, hit: Option<Vec3>, fire: bool) -> InputFrame {
    InputFrame {
        delta,
        player: Vec3::new(0, 0, 21_000),
        camera_back: Vec3::new(0, 0, 1_000),
        camera_up: Vec3::new(0, 1_000, 0),
        cursor: if hit.is_some() { Some(CursorPos { x: 400, y: 300 }) } else { None },
        hit,
        fire,
    }
}

#[test]
fn cooldown_has_run_out_at_the_start() {
    let (input, timer) = setup_player_input();
    assert_eq!(input, PlayerInput { last_valid_cursor_pos: None });
    assert!(SHOOT_TIMER_STARTS_FINISHED);
    assert!(timer.0.finished());
    assert_eq!(timer.0.elapsed(), FIRE_DELAY);
    assert_eq!(timer.0.duration(), 500 * MS);
    assert_eq!(timer.0.mode(), TimerMode::Once);
}

#[test]
fn tangent_lies_along_the_surface() {
    let player = Vec3::new(0, 0, 21_000);
    assert_eq!(
        get_tangent_helper(&Vec3::new(0, 5_000, 20_000), &player),
        Some(Vec3::new(0, -1_000, 0))
    );
    assert_eq!(
        get_tangent_helper(&Vec3::new(12_000, -3_000, 16_000), &player),
        Some(Vec3::new(-970, 241, 0))
    );
    assert_eq!(
        get_tangent_helper(&Vec3::new(5_000, 5_000, 18_000), &Vec3::new(3_000, 4_000, 20_000)),
        Some(Vec3::new(-843, -488, 223))
    );
}

#[test]
fn tangent_is_one_unit_long() {
    let player = Vec3::new(3_000, 4_000, 20_000);
    let hits = [
        Vec3::new(3_000, 4_000, 20_001),
        Vec3::new(3_001, 4_000, 20_000),
        Vec3::new(2_999, 4_001, 20_007),
        Vec3::new(-20_000, 0, 0),
        Vec3::new(3_150, 4_200, 21_001),
    ];
    for hit in hits {
        if let Some(t) = get_tangent_helper(&hit, &player) {
            let n = t.norm_sq();
            assert!(n >= 993_997 && n <= 1_002_000);
        }
    }
    assert!(get_tangent_helper(&hits[1], &player).is_some());
}

#[test]
fn tangent_needs_a_direction() {
    let player = Vec3::new(0, 0, 21_000);
    assert_eq!(get_tangent_helper(&player, &player), None);
    assert_eq!(get_tangent_helper(&Vec3::new(0, 0, 20_000), &player), None);
    assert_eq!(get_tangent_helper(&Vec3::new(0, 0, -20_000), &player), None);
    assert_eq!(get_tangent_helper(&Vec3::new(1, 2, 3), &Vec3::new(0, 0, 0)), None);
}

#[test]
fn first_shot_is_fired_at_once() {
    let (mut input, mut timer) = setup_player_input();
    let mut d = desired();
    let f = frame(16 * MS, Some(Vec3::new(0, 5_000, 20_000)), true);
    let out = handle_player_input(&mut input, &mut d, &mut timer, &f);
    assert_eq!(
        out,
        InputOutcome {
            reload_visible: false,
            shot: Some(ShootEvent {
                position: Vec3::new(0, 3_000, 21_000),
                direction: Vec3::new(0, 1_000, 0),
            }),
        }
    );
    assert_eq!(CANNON_BALL_INITIAL_OFFSET, 3_000);
    assert_eq!(d.tangent, Vec3::new(0, -1_000, 0));
    assert_eq!(timer.0, Timer::new(500 * MS, TimerMode::Once));
    assert_eq!(input.last_valid_cursor_pos, Some(CursorPos { x: 400, y: 300 }));
}

#[test]
fn no_shot_while_the_cannon_reloads() {
    let (mut input, mut timer) = setup_player_input();
    let mut d = desired();
    let hit = Some(Vec3::new(0, 5_000, 20_000));
    assert!(handle_player_input(&mut input, &mut d, &mut timer, &frame(16 * MS, hit, true))
        .shot
        .is_some());
    let out = handle_player_input(&mut input, &mut d, &mut timer, &frame(499 * MS, hit, true));
    assert_eq!(out, InputOutcome { reload_visible: true, shot: None });
    assert_eq!(timer.0.elapsed(), 499 * MS);
    let out = handle_player_input(&mut input, &mut d, &mut timer, &frame(MS - 1, hit, true));
    assert_eq!(out, InputOutcome { reload_visible: true, shot: None });
    let out = handle_player_input(&mut input, &mut d, &mut timer, &frame(1, hit, false));
    assert_eq!(out, InputOutcome { reload_visible: false, shot: None });
    assert!(timer.0.finished());
    let out = handle_player_input(&mut input, &mut d, &mut timer, &frame(0, hit, true));
    assert!(out.shot.is_some());
    assert!(!timer.0.finished());
}

#[test]
fn shots_keep_the_cooldown_apart() {
    let (mut input, mut timer) = setup_player_input();
    let mut d = desired();
    let hit = Some(Vec3::new(7_000, 5_000, 19_000));
    let deltas: [u64; 12] = [16, 100, 250, 149, 1, 0, 700, 16, 16, 16, 450, 2];
    let mut now: u64 = 0;
    let mut shots: Vec<u64> = Vec::new();
    for delta in deltas {
        now += delta;
        let out =
            handle_player_input(&mut input, &mut d, &mut timer, &frame(delta * MS, hit, true));
        if out.shot.is_some() {
            shots.push(now);
        }
    }
    assert_eq!(shots, vec![16, 516, 1_216, 1_716]);
    for pair in shots.windows(2) {
        assert!((pair[1] - pair[0]) * MS >= FIRE_DELAY);
    }
}

#[test]
fn shots_keep_the_cooldown_apart_when_the_aim_comes_and_goes() {
    let (mut input, mut timer) = setup_player_input();
    let mut d = desired();
    let hit = Some(Vec3::new(7_000, 5_000, 19_000));
    let mut now: u64 = 0;
    let mut shots: Vec<u64> = Vec::new();
    for step in 0..200u64 {
        let delta = 7 + (step * 13) % 90;
        now += delta;
        let aim = if step % 3 == 1 { None } else { hit };
        let out =
            handle_player_input(&mut input, &mut d, &mut timer, &frame(delta * MS, aim, true));
        if out.shot.is_some() {
            assert!(aim.is_some());
            shots.push(now);
        }
    }
    assert!(shots.len() > 5);
    for pair in shots.windows(2) {
        assert!((pair[1] - pair[0]) * MS >= FIRE_DELAY);
    }
}

#[test]
fn cooldown_runs_while_the_cursor_is_off_the_planet() {
    let (mut input, mut timer) = setup_player_input();
    let mut d = desired();
    let hit = Some(Vec3::new(0, 5_000, 20_000));
    handle_player_input(&mut input, &mut d, &mut timer, &frame(16 * MS, hit, true));
    let out = handle_player_input(&mut input, &mut d, &mut timer, &frame(200 * MS, None, true));
    assert_eq!(out, InputOutcome { reload_visible: true, shot: None });
    assert_eq!(timer.0.elapsed(), 200 * MS);
    let out = handle_player_input(&mut input, &mut d, &mut timer, &frame(5_000 * MS, None, true));
    assert_eq!(out, InputOutcome { reload_visible: false, shot: None });
    assert!(timer.0.finished());
    assert_eq!(d.tangent, Vec3::new(0, -1_000, 0));
    let out = handle_player_input(&mut input, &mut d, &mut timer, &frame(0, hit, true));
    assert!(out.shot.is_some());
}

#[test]
fn cursor_without_a_hit_does_not_aim() {
    let (mut input, mut timer) = setup_player_input();
    let mut d = desired();
    let mut f = frame(16 * MS, None, true);
    f.cursor = Some(CursorPos { x: 1, y: 2 });
    let out = handle_player_input(&mut input, &mut d, &mut timer, &f);
    assert_eq!(out, InputOutcome { reload_visible: false, shot: None });
    assert_eq!(input.last_valid_cursor_pos, None);
    assert_eq!(d.tangent, Vec3::new(0, 1_000, 0));
    assert!(timer.0.finished());
}

#[test]
fn hit_without_a_cursor_does_not_aim() {
    let (mut input, mut timer) = setup_player_input();
    let mut d = desired();
    let mut f = frame(16 * MS, Some(Vec3::new(0, 5_000, 20_000)), true);
    f.cursor = None;
    let out = handle_player_input(&mut input, &mut d, &mut timer, &f);
    assert_eq!(out, InputOutcome { reload_visible: false, shot: None });
    assert_eq!(d.tangent, Vec3::new(0, 1_000, 0));
}

#[test]
fn no_hit_keeps_the_last_tangent() {
    let mut input = PlayerInput { last_valid_cursor_pos: Some(CursorPos { x: 9, y: 9 }) };
    let mut timer = ShootTimer(Timer::new(500 * MS, TimerMode::Once));
    let mut d = desired();
    d.tangent = Vec3::new(-970, 241, 0);
    for fire in [false, true, true] {
        let out =
            handle_player_input(&mut input, &mut d, &mut timer, &frame(400 * MS, None, fire));
        assert_eq!(out.shot, None);
        assert_eq!(d.tangent, Vec3::new(-970, 241, 0));
        assert_eq!(input.last_valid_cursor_pos, Some(CursorPos { x: 9, y: 9 }));
    }
    assert!(timer.0.finished());
}

#[test]
fn degenerate_aim_keeps_the_last_tangent() {
    let (mut input, mut timer) = setup_player_input();
    let mut d = desired();
    let f = frame(16 * MS, Some(Vec3::new(0, 0, 20_000)), true);
    let out = handle_player_input(&mut input, &mut d, &mut timer, &f);
    assert_eq!(d.tangent, Vec3::new(0, 1_000, 0));
    assert_eq!(
        out.shot,
        Some(ShootEvent {
            position: Vec3::new(0, -3_000, 21_000),
            direction: Vec3::new(0, -1_000, 0),
        })
    );
}

#[test]
fn input_follows_player_and_camera() {
    let (mut input, mut timer) = setup_player_input();
    let mut d = desired();
    let f = InputFrame {
        delta: 16 * MS,
        player: Vec3::new(3_000, 4_000, 20_000),
        camera_back: Vec3::new(1, 2, 3),
        camera_up: Vec3::new(4, 5, 6),
        cursor: None,
        hit: None,
        fire: false,
    };
    handle_player_input(&mut input, &mut d, &mut timer, &f);
    assert_eq!(d.position, Vec3::new(3_000, 4_000, 20_000));
    assert_eq!(d.local_up, Vec3::new(1, 2, 3));
    assert_eq!(d.local_forward, Vec3::new(4, 5, 6));
}
