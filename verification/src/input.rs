//! Aiming and firing: the cursor gives the direction of the cannon, and a
//! cooldown gates the shots.

use vstd::prelude::*;
use crate::cannon_ball::CANNON_BALL_INITIAL_OFFSET;
use crate::player::{PlayerMeshDesiredTransform, FIRE_DELAY, SHOOT_TIMER_STARTS_FINISHED};
use crate::timer::{Timer, TimerMode};
use crate::vector::{
    lemma_cross_bound, lemma_neg_is_unit, lemma_times_bound, view_opt, Vec3, V3, UNIT,
};

verus! {

/// A place of the cursor in the window.
#[derive(Clone, Copy, PartialEq, Eq, Structural, Debug)]
pub struct CursorPos {
    pub x: i64,
    pub y: i64,
}

/// What is remembered of the cursor from one tick to the next.
#[derive(Clone, Copy, PartialEq, Eq, Structural, Debug)]
pub struct PlayerInput {
    pub last_valid_cursor_pos: Option<CursorPos>,
}

/// The cooldown of the cannon.
#[derive(Clone, Copy, PartialEq, Eq, Structural, Debug)]
pub struct ShootTimer(pub Timer);

/// A shot: where the ball appears and which way it flies.
#[derive(Clone, Copy, PartialEq, Eq, Structural, Debug)]
pub struct ShootEvent {
    pub position: Vec3,
    pub direction: Vec3,
}

/// What one tick brings in from the window, the camera and the physics.
#[derive(Clone, Copy, PartialEq, Eq, Structural, Debug)]
pub struct InputFrame {
    /// Nanoseconds since the last tick.
    pub delta: u64,
    /// Where the player is.
    pub player: Vec3,
    /// The direction from the scene to the camera.
    pub camera_back: Vec3,
    /// The upward direction of the camera.
    pub camera_up: Vec3,
    /// Where the cursor is, if it is in the window.
    pub cursor: Option<CursorPos>,
    /// Where the ray through the cursor meets the planet, if it does.
    pub hit: Option<Vec3>,
    /// Whether the trigger was pulled in this tick.
    pub fire: bool,
}

/// What one tick of input asks of the outside.
#[derive(Clone, Copy, PartialEq, Eq, Structural, Debug)]
pub struct InputOutcome {
    /// Whether the reload sign is to be shown: the cooldown has not run out.
    pub reload_visible: bool,
    /// The shot that was fired, if one was.
    pub shot: Option<ShootEvent>,
}

impl InputFrame {
    /// The player and the place where the ray meets the planet are places of
    /// the world.
    pub open spec fn wf(self) -> bool {
        &&& self.player.in_world()
        &&& self.hit matches Some(h) ==> h.in_world()
    }

    /// Whether the cursor points at the planet.
    pub open spec fn aims(self) -> bool {
        self.cursor is Some && self.hit is Some
    }
}

/// The cooldown of the cannon when a game begins: run out already if
/// `SHOOT_TIMER_STARTS_FINISHED`, else about to run for the first time.
pub open spec fn initial_shoot_timer() -> Timer {
    if SHOOT_TIMER_STARTS_FINISHED {
        Timer::fresh(FIRE_DELAY, TimerMode::Once).ticked(FIRE_DELAY)
    } else {
        Timer::fresh(FIRE_DELAY, TimerMode::Once)
    }
}

/// The player input and the cooldown at the start of a game.
pub fn setup_player_input() -> (r: (PlayerInput, ShootTimer))
    ensures
        r.0 == (PlayerInput { last_valid_cursor_pos: None }),
        r.1.0 == initial_shoot_timer(),
        r.1.0.finished == SHOOT_TIMER_STARTS_FINISHED,
        r.1.0.wf(),
{
    let mut timer: Timer = Timer::new(FIRE_DELAY, TimerMode::Once);
    if SHOOT_TIMER_STARTS_FINISHED {
        let whole: u64 = timer.duration();
        timer.tick(whole);
    }
    (PlayerInput { last_valid_cursor_pos: None }, ShootTimer(timer))
}

/// The direction along the surface of the planet, at the player, toward the
/// side on which the cursor meets the planet. `None` where there is no such
/// direction: with the player at the centre of the planet, or the cursor on
/// the line through the player and the centre.
pub open spec fn tangent_toward(hit: V3, player: V3) -> Option<V3> {
    match (hit.minus(player).normalize(), player.normalize()) {
        (Some(toward), Some(up)) => match toward.cross(up).normalize() {
            Some(perp) => perp.cross(up).normalize(),
            None => None,
        },
        _ => None,
    }
}

/// The direction along the surface, at the player, toward the cursor.
pub fn get_tangent_helper(hit_point: &Vec3, player: &Vec3) -> (tangent: Option<Vec3>)
    requires
        hit_point.in_world(),
        player.in_world(),
    ensures
        view_opt(tangent) == tangent_toward(hit_point@, player@),
        tangent matches Some(t) ==> t@.is_unit(),
{
    let way: Vec3 = hit_point.minus(player);
    let toward: Vec3 = match way.normalized() {
        Some(v) => v,
        None => { return None; },
    };
    let up: Vec3 = match player.normalized() {
        Some(v) => v,
        None => { return None; },
    };
    proof {
        lemma_cross_bound(toward@, up@, UNIT as int, UNIT as int);
    }
    let perp: Vec3 = match toward.cross(&up).normalized() {
        Some(v) => v,
        None => { return None; },
    };
    proof {
        lemma_cross_bound(perp@, up@, UNIT as int, UNIT as int);
    }
    perp.cross(&up).normalized()
}

/// The tangent after a tick: toward the cursor where it points at the planet
/// and gives a direction; else the tangent that was there, which is kept
/// until the cursor aims again.
pub open spec fn aimed_tangent(old_tangent: Vec3, frame: InputFrame) -> V3 {
    match frame.hit {
        Some(h) => if frame.aims() {
            match tangent_toward(h@, frame.player@) {
                Some(t) => t,
                None => old_tangent@,
            }
        } else {
            old_tangent@
        },
        None => old_tangent@,
    }
}

/// The cooldown after a tick, and whether a shot was fired in it. The
/// cooldown runs in every tick. A shot needs a cursor that points at the
/// planet, the trigger, and a cooldown that has run out, and starts the
/// cooldown again.
pub open spec fn fire_step(timer: Timer, delta: u64, aims: bool, fire: bool) -> (Timer, bool) {
    if aims && fire && timer.ticked(delta).finished {
        (timer.ticked(delta).rewound(), true)
    } else {
        (timer.ticked(delta), false)
    }
}

/// What one tick gives the cooldown: the time that has passed, whether the
/// cursor points at the planet, and whether the trigger was pulled.
pub struct FireInput {
    pub delta: u64,
    pub aims: bool,
    pub fire: bool,
}

/// The cooldown after the ticks `inputs`, one after the other.
pub open spec fn cooldown_after(timer: Timer, inputs: Seq<FireInput>) -> Timer
    decreases inputs.len(),
{
    if inputs.len() == 0 {
        timer
    } else {
        let last = inputs.last();
        fire_step(cooldown_after(timer, inputs.drop_last()), last.delta, last.aims, last.fire).0
    }
}

/// Whether a shot is fired in tick `i` of `inputs`.
pub open spec fn shot_at(timer: Timer, inputs: Seq<FireInput>, i: int) -> bool {
    fire_step(
        cooldown_after(timer, inputs.take(i)),
        inputs[i].delta,
        inputs[i].aims,
        inputs[i].fire,
    ).1
}

/// The time that passes from the end of tick `i` to the end of tick `j`.
pub open spec fn time_between(inputs: Seq<FireInput>, i: int, j: int) -> int
    decreases j - i,
{
    if j <= i {
        0
    } else {
        time_between(inputs, i, j - 1) + inputs[j].delta
    }
}

/// After a shot in tick `i`, the cooldown has run for no longer than the time
/// that has passed since.
proof fn lemma_cooldown_after_shot(timer: Timer, inputs: Seq<FireInput>, i: int, m: int)
    requires
        timer.wf(),
        timer.mode == TimerMode::Once,
        0 <= i < m <= inputs.len(),
        shot_at(timer, inputs, i),
    ensures
        cooldown_after(timer, inputs.take(m)).wf(),
        cooldown_after(timer, inputs.take(m)).mode == TimerMode::Once,
        cooldown_after(timer, inputs.take(m)).duration == timer.duration,
        cooldown_after(timer, inputs.take(m)).elapsed <= time_between(inputs, i, m - 1),
    decreases m,
{
    lemma_cooldown_kept(timer, inputs.take(m - 1));
    let before = cooldown_after(timer, inputs.take(m - 1));
    assert(inputs.take(m).drop_last() =~= inputs.take(m - 1));
    assert(inputs.take(m).last() == inputs[m - 1]);
    before.lemma_ticked_wf(inputs[m - 1].delta);
    if m - 1 > i {
        lemma_cooldown_after_shot(timer, inputs, i, m - 1);
    }
}

/// Ticks keep the cooldown well-formed, and leave its mode and its duration.
proof fn lemma_cooldown_kept(timer: Timer, inputs: Seq<FireInput>)
    requires
        timer.wf(),
    ensures
        cooldown_after(timer, inputs).wf(),
        cooldown_after(timer, inputs).mode == timer.mode,
        cooldown_after(timer, inputs).duration == timer.duration,
    decreases inputs.len(),
{
    if inputs.len() > 0 {
        lemma_cooldown_kept(timer, inputs.drop_last());
        cooldown_after(timer, inputs.drop_last()).lemma_ticked_wf(inputs.last().delta);
    }
}

/// No two shots are closer to each other than the cooldown: between a shot in
/// tick `i` and a shot in a later tick `j`, at least the duration of the
/// cooldown passes, whatever the ticks bring.
pub proof fn lemma_cooldown_between_shots(timer: Timer, inputs: Seq<FireInput>, i: int, j: int)
    requires
        timer.wf(),
        timer.mode == TimerMode::Once,
        0 <= i < j < inputs.len(),
        shot_at(timer, inputs, i),
        shot_at(timer, inputs, j),
    ensures
        time_between(inputs, i, j) >= timer.duration,
{
    lemma_cooldown_after_shot(timer, inputs, i, j);
}

/// The shot of a player at `player` who aims along `tangent`: the ball
/// appears `CANNON_BALL_INITIAL_OFFSET` behind the player and flies against
/// the tangent.
pub open spec fn shot_from(player: V3, tangent: V3) -> (V3, V3) {
    (player.minus(tangent.times(CANNON_BALL_INITIAL_OFFSET as int)), tangent.neg())
}

/// One tick of input: follows the player and the camera, aims, runs the
/// cooldown and fires. Without a cursor that points at the planet the last
/// tangent stays and no shot is fired.
pub fn handle_player_input(
    player_input: &mut PlayerInput,
    desired: &mut PlayerMeshDesiredTransform,
    shoot_timer: &mut ShootTimer,
    frame: &InputFrame,
) -> (outcome: InputOutcome)
    requires
        old(desired).wf(),
        old(shoot_timer).0.wf(),
        frame.wf(),
    ensures
        final(desired).wf(),
        final(shoot_timer).0.wf(),
        final(desired).position == frame.player,
        final(desired).local_up == frame.camera_back,
        final(desired).local_forward == frame.camera_up,
        final(desired).tangent@ == aimed_tangent(old(desired).tangent, *frame),
        !frame.aims() ==> final(desired).tangent == old(desired).tangent && outcome.shot is None,
        final(player_input).last_valid_cursor_pos == if frame.aims() {
            frame.cursor
        } else {
            old(player_input).last_valid_cursor_pos
        },
        final(shoot_timer).0 == fire_step(old(shoot_timer).0, frame.delta, frame.aims(), frame.fire).0,
        outcome.reload_visible == !old(shoot_timer).0.ticked(frame.delta).finished,
        outcome.shot is Some == fire_step(
            old(shoot_timer).0,
            frame.delta,
            frame.aims(),
            frame.fire,
        ).1,
        outcome.shot matches Some(shot) ==> (shot.position@, shot.direction@) == shot_from(
            frame.player@,
            final(desired).tangent@,
        ) && shot.direction@.is_unit(),
{
    desired.position = frame.player;
    desired.local_up = frame.camera_back;
    desired.local_forward = frame.camera_up;
    let aims: bool = match (frame.cursor, frame.hit) {
        (Some(cursor_pos), Some(hit_point)) => {
            player_input.last_valid_cursor_pos = Some(cursor_pos);
            match get_tangent_helper(&hit_point, &frame.player) {
                Some(t) => {
                    desired.tangent = t;
                },
                None => {},
            }
            true
        },
        _ => false,
    };
    shoot_timer.0.tick(frame.delta);
    let ready: bool = shoot_timer.0.finished();
    if aims && frame.fire && ready {
        shoot_timer.0.reset();
        let tangent: Vec3 = desired.tangent;
        proof {
            lemma_times_bound(tangent@, CANNON_BALL_INITIAL_OFFSET as int, UNIT as int, 3);
            lemma_neg_is_unit(tangent@);
        }
        let shot = ShootEvent {
            position: frame.player.minus(&tangent.times(CANNON_BALL_INITIAL_OFFSET)),
            direction: tangent.negated(),
        };
        return InputOutcome { reload_visible: false, shot: Some(shot) };
    }
    InputOutcome { reload_visible: !ready, shot: None }
}

} // verus!
