//! The game as a whole: its state machine, and the systems of each state run
//! on one context that nothing else can reach into.

use vstd::prelude::*;
use crate::asteroids::{
    descent_impulse, in_spread, is_asteroid_impulse, is_at_spawn_altitude, sample_in_spread,
    setup_asteroids,
    spawn_asteroids, spawn_point, AsteroidSpawnTimer, ASTEROID_IMPULSE_ALONG_MAX,
    ASTEROID_SPAWN_DELAY, DIRECTION_ATTEMPTS,
};
use crate::cannon_ball::{launch, new_bodies, shoot_cannon_ball, spawnable};
use crate::common::{
    axes_toward_center, camera_step, despawned_ids, game_over_requested, handle_collisions,
    move_camera, raised, removal_order, reset_score, scoring_events, teardown, CameraPlacement,
    CollisionEvent, GameState, NextState, Score,
};
use crate::input::{
    aimed_tangent, fire_step, handle_player_input, initial_shoot_timer, setup_player_input,
    shot_from, InputFrame, InputOutcome, PlayerInput, ShootEvent, ShootTimer,
};
use crate::player::{player_start, setup_player, PlayerMeshDesiredTransform};
use crate::timer::{Timer, TimerMode};
use crate::ui::{restart_button_system, Interaction};
use crate::vector::{Vec3, UNIT};
use crate::world::{
    count_role, distinct_ids, ids_of, lemma_count_empty, lemma_count_other_roles,
    lemma_count_push, without, Body, Role, SpawnCommand, World,
};

verus! {

/// Everything that the game owns: its state, the score, the live bodies, the
/// timers and what is remembered of the input. Only the systems of the game
/// change it.
pub struct Game {
    state: GameState,
    next_state: NextState,
    score: Score,
    world: World,
    spawn_timer: AsteroidSpawnTimer,
    shoot_timer: ShootTimer,
    player_input: PlayerInput,
    desired: PlayerMeshDesiredTransform,
}

/// What a game is in contracts.
pub struct GameView {
    /// The state that the game is in.
    pub state: GameState,
    /// The state that was asked for and is entered at the end of the tick.
    pub next_state: Option<GameState>,
    /// The number of hazards destroyed in the running game.
    pub score: i32,
    /// The live bodies, in the order in which they were spawned.
    pub bodies: Seq<Body>,
    /// The identity that the next body will get.
    pub next_id: u64,
    /// The time until the next asteroid.
    pub spawn_timer: Timer,
    /// The cooldown of the cannon.
    pub shoot_timer: Timer,
    /// What is remembered of the cursor.
    pub player_input: PlayerInput,
    /// Where the player is to be shown, and which way it looks.
    pub desired: PlayerMeshDesiredTransform,
}

/// A change of state that has taken place.
pub struct Transition {
    /// The state that was left.
    pub from: GameState,
    /// The state that was entered.
    pub to: GameState,
    /// The bodies that were live in the state that was left: all are gone.
    pub removed: Vec<u64>,
    /// The player, where a game has begun.
    pub spawned: Option<SpawnCommand>,
}

/// The timer of the asteroids when a game begins.
pub open spec fn initial_spawn_timer() -> Timer {
    Timer::fresh(ASTEROID_SPAWN_DELAY, TimerMode::Repeating)
}

/// The request that creates the player of a new game.
pub open spec fn player_command() -> SpawnCommand {
    SpawnCommand {
        id: 0,
        role: Role::Player,
        position: player_start(),
        impulse: Vec3 { x: 0, y: 0, z: 0 },
    }
}

impl GameView {
    /// What holds of a game between any two steps: identities are distinct
    /// and were handed out already; timers and input are well-formed; the
    /// score is not negative; while the game is played there is exactly one
    /// player, and when it is over there is no body at all.
    pub open spec fn wf(self) -> bool {
        &&& distinct_ids(self.bodies)
        &&& forall|i: int| 0 <= i < self.bodies.len() ==> self.bodies[i].id < self.next_id
        &&& self.spawn_timer.wf()
        &&& self.shoot_timer.wf()
        &&& self.desired.wf()
        &&& self.score >= 0
        &&& match self.state {
            GameState::Playing => count_role(self.bodies, Role::Player) == 1,
            GameState::GameOver => self.bodies.len() == 0,
        }
    }

    /// The game as it is when a game begins: playing, with a score of zero, the
    /// player alone in the world, and timers and input as at the start.
    pub open spec fn at_start() -> GameView {
        GameView {
            state: GameState::Playing,
            next_state: None,
            score: 0,
            bodies: seq![Body { id: 0, role: Role::Player }],
            next_id: 1,
            spawn_timer: initial_spawn_timer(),
            shoot_timer: initial_shoot_timer(),
            player_input: PlayerInput { last_valid_cursor_pos: None },
            desired: PlayerMeshDesiredTransform::initial(),
        }
    }
}

impl View for Game {
    type V = GameView;

    closed spec fn view(&self) -> GameView {
        GameView {
            state: self.state,
            next_state: self.next_state.0,
            score: self.score.0,
            bodies: self.world@,
            next_id: self.world.next_id(),
            spawn_timer: self.spawn_timer.0,
            shoot_timer: self.shoot_timer.0,
            player_input: self.player_input,
            desired: self.desired,
        }
    }
}

impl Game {
    /// What holds of the game between any two steps. Every game that `new`
    /// gives is well-formed, and every system keeps it so.
    pub open spec fn wf(&self) -> bool {
        self@.wf()
    }

    /// A game that has just begun, and the request that creates its player.
    pub fn new() -> (r: (Game, Option<SpawnCommand>))
        ensures
            r.0.wf(),
            r.0@ == GameView::at_start(),
            r.1 == Some(player_command()),
    {
        let mut world: World = World::new();
        let (desired, spawned) = setup_player(&mut world);
        let (player_input, shoot_timer) = setup_player_input();
        let spawn_timer: AsteroidSpawnTimer = setup_asteroids();
        proof {
            assert(world@ =~= seq![Body { id: 0, role: Role::Player }]);
            lemma_count_empty(Role::Player);
            lemma_count_push(
                Seq::<Body>::empty(),
                Body { id: 0, role: Role::Player },
                Role::Player,
            );
        }
        (
            Game {
                state: GameState::Playing,
                next_state: NextState(None),
                score: Score(0),
                world,
                spawn_timer,
                shoot_timer,
                player_input,
                desired,
            },
            spawned,
        )
    }

    /// The score of the running game.
    pub fn current_score(&self) -> (score: i32)
        ensures
            score == self@.score,
    {
        self.score.0
    }

    /// The state that the game is in.
    pub fn current_state(&self) -> (state: GameState)
        ensures
            state == self@.state,
    {
        self.state
    }

    /// The state that was asked for, if one was.
    pub fn next_state(&self) -> (state: Option<GameState>)
        ensures
            state == self@.next_state,
    {
        self.next_state.0
    }

    /// The live bodies.
    pub fn world(&self) -> (world: &World)
        ensures
            world@ == self@.bodies,
            world.next_id() == self@.next_id,
    {
        &self.world
    }

    /// The time until the next asteroid.
    pub fn spawn_timer(&self) -> (timer: Timer)
        ensures
            timer == self@.spawn_timer,
    {
        self.spawn_timer.0
    }

    /// The cooldown of the cannon.
    pub fn shoot_timer(&self) -> (timer: Timer)
        ensures
            timer == self@.shoot_timer,
    {
        self.shoot_timer.0
    }

    /// What is remembered of the cursor.
    pub fn player_input(&self) -> (input: PlayerInput)
        ensures
            input == self@.player_input,
    {
        self.player_input
    }

    /// Where the player is to be shown, and which way it looks.
    pub fn desired(&self) -> (desired: PlayerMeshDesiredTransform)
        ensures
            desired == self@.desired,
    {
        self.desired
    }

    /// Enters the state that was asked for, if it is not the state that the
    /// game is in already. Leaving a state removes every body. Entering
    /// `Playing` sets the score to zero and begins a game; entering `GameOver`
    /// leaves the score to be read.
    pub fn apply_state_transition(&mut self) -> (r: Option<Transition>)
        requires
            old(self).wf(),
        ensures
            final(self).wf(),
            r is Some <==> (old(self)@.next_state matches Some(s) && s != old(self)@.state),
            r is None ==> final(self)@ == (GameView { next_state: None, ..old(self)@ }),
            r matches Some(t) ==> {
                &&& t.from == old(self)@.state
                &&& Some(t.to) == old(self)@.next_state
                &&& t.removed@ == ids_of(old(self)@.bodies)
                &&& count_role(final(self)@.bodies, Role::Hazard) == 0
                &&& count_role(final(self)@.bodies, Role::Projectile) == 0
                &&& (count_role(final(self)@.bodies, Role::Player) == 1 <==> t.to
                    == GameState::Playing)
                &&& t.to == GameState::Playing ==> final(self)@ == GameView::at_start()
                    && t.spawned == Some(player_command())
                &&& t.to == GameState::GameOver ==> t.spawned is None && final(self)@ == (
                    GameView {
                        state: GameState::GameOver,
                        next_state: None,
                        bodies: Seq::<Body>::empty(),
                        next_id: 0,
                        ..old(self)@
                    }
                )
            },
    {
        let asked: Option<GameState> = self.next_state.0;
        self.next_state = NextState(None);
        let to: GameState = match asked {
            Some(s) => s,
            None => { return None; },
        };
        let from: GameState = self.state;
        if to == from {
            return None;
        }
        let removed: Vec<u64> = teardown(&mut self.world);
        self.state = to;
        proof {
            lemma_count_empty(Role::Player);
            lemma_count_empty(Role::Hazard);
            lemma_count_empty(Role::Projectile);
        }
        match to {
            GameState::GameOver => Some(Transition { from, to, removed, spawned: None }),
            GameState::Playing => {
                reset_score(&mut self.score);
                let (desired, spawned) = setup_player(&mut self.world);
                let (player_input, shoot_timer) = setup_player_input();
                self.desired = desired;
                self.player_input = player_input;
                self.shoot_timer = shoot_timer;
                self.spawn_timer = setup_asteroids();
                proof {
                    let player = Body { id: 0, role: Role::Player };
                    assert(self.world@ =~= seq![player]);
                    lemma_count_push(Seq::<Body>::empty(), player, Role::Player);
                    lemma_count_push(Seq::<Body>::empty(), player, Role::Hazard);
                    lemma_count_push(Seq::<Body>::empty(), player, Role::Projectile);
                }
                Some(Transition { from, to, removed, spawned })
            },
        }
    }

    /// One tick of input, while the game is played. When it is over, nothing
    /// happens.
    pub fn handle_player_input(&mut self, frame: &InputFrame) -> (outcome: InputOutcome)
        requires
            old(self).wf(),
            frame.wf(),
        ensures
            final(self).wf(),
            old(self)@.state == GameState::GameOver ==> final(self)@ == old(self)@ && outcome == (
                InputOutcome { reload_visible: false, shot: None }
            ),
            old(self)@.state == GameState::Playing ==> {
                &&& final(self)@ == (GameView {
                    shoot_timer: fire_step(
                        old(self)@.shoot_timer,
                        frame.delta,
                        frame.aims(),
                        frame.fire,
                    ).0,
                    player_input: PlayerInput {
                        last_valid_cursor_pos: if frame.aims() {
                            frame.cursor
                        } else {
                            old(self)@.player_input.last_valid_cursor_pos
                        },
                    },
                    desired: final(self)@.desired,
                    ..old(self)@
                })
                &&& final(self)@.desired.position == frame.player
                &&& final(self)@.desired.local_up == frame.camera_back
                &&& final(self)@.desired.local_forward == frame.camera_up
                &&& final(self)@.desired.tangent@ == aimed_tangent(
                    old(self)@.desired.tangent,
                    *frame,
                )
                &&& !frame.aims() ==> final(self)@.desired.tangent == old(self)@.desired.tangent
                    && outcome.shot is None
                &&& outcome.reload_visible == !old(self)@.shoot_timer.ticked(frame.delta).finished
                &&& outcome.shot is Some == fire_step(
                    old(self)@.shoot_timer,
                    frame.delta,
                    frame.aims(),
                    frame.fire,
                ).1
                &&& outcome.shot matches Some(shot) ==> (shot.position@, shot.direction@)
                    == shot_from(frame.player@, final(self)@.desired.tangent@)
                    && shot.direction@.is_unit()
            },
    {
        match self.state {
            GameState::GameOver => InputOutcome { reload_visible: false, shot: None },
            GameState::Playing => handle_player_input(
                &mut self.player_input,
                &mut self.desired,
                &mut self.shoot_timer,
                frame,
            ),
        }
    }

    /// Puts a cannon ball into the world for every shot, while the game is
    /// played. When it is over, nothing happens.
    pub fn shoot_cannon_ball(&mut self, events: &Vec<ShootEvent>) -> (commands: Vec<SpawnCommand>)
        requires
            old(self).wf(),
            forall|i: int| 0 <= i < events@.len() ==> events@[i].direction.in_range(),
        ensures
            final(self).wf(),
            old(self)@.state == GameState::GameOver ==> final(self)@ == old(self)@
                && commands@.len() == 0,
            old(self)@.state == GameState::Playing ==> {
                &&& commands@.len() == spawnable(old(self)@.next_id, events@.len())
                &&& final(self)@ == (GameView {
                    bodies: old(self)@.bodies + new_bodies(
                        old(self)@.next_id,
                        commands@.len(),
                        Role::Projectile,
                    ),
                    next_id: (old(self)@.next_id + commands@.len()) as u64,
                    ..old(self)@
                })
                &&& forall|k: int|
                    0 <= k < commands@.len() ==> {
                        &&& (#[trigger] commands@[k]).id == old(self)@.next_id + k
                        &&& commands@[k].role == Role::Projectile
                        &&& commands@[k].position == events@[k].position
                        &&& commands@[k].impulse@ == launch(events@[k].direction@)
                    }
            },
    {
        match self.state {
            GameState::GameOver => Vec::new(),
            GameState::Playing => {
                let commands: Vec<SpawnCommand> = shoot_cannon_ball(&mut self.world, events);
                proof {
                    lemma_count_other_roles(
                        old(self)@.bodies,
                        new_bodies(old(self)@.next_id, commands@.len(), Role::Projectile),
                        Role::Projectile,
                        Role::Player,
                    );
                }
                commands
            },
        }
    }

    /// Resolves one batch of collision events, while the game is played: the
    /// score never falls, and the player is never removed. When the game is
    /// over, nothing happens.
    pub fn handle_collisions(&mut self, events: &Vec<CollisionEvent>) -> (removed: Vec<u64>)
        requires
            old(self).wf(),
        ensures
            final(self).wf(),
            final(self)@.score >= old(self)@.score,
            old(self)@.state == GameState::GameOver ==> final(self)@ == old(self)@
                && removed@.len() == 0,
            old(self)@.state == GameState::Playing ==> {
                &&& final(self)@ == (GameView {
                    bodies: without(
                        old(self)@.bodies,
                        despawned_ids(old(self)@.bodies, events@),
                    ),
                    score: raised(old(self)@.score, scoring_events(old(self)@.bodies, events@)),
                    next_state: if game_over_requested(old(self)@.bodies, events@) {
                        Some(GameState::GameOver)
                    } else {
                        old(self)@.next_state
                    },
                    ..old(self)@
                })
                &&& removed@ == removal_order(old(self)@.bodies, events@)
                &&& removed@.no_duplicates()
                &&& removed@.to_set() == despawned_ids(old(self)@.bodies, events@)
            },
    {
        match self.state {
            GameState::GameOver => Vec::new(),
            GameState::Playing => handle_collisions(
                &mut self.world,
                &mut self.next_state,
                &mut self.score,
                events,
            ),
        }
    }

    /// Moves the camera after the player and turns it to the centre of the
    /// planet, while the game is played. When the game is over, the camera
    /// stays as it is.
    pub fn move_camera(&self, camera: &Vec3, camera_up: &Vec3, player: &Vec3) -> (moved: Option<
        CameraPlacement,
    >)
        requires
            camera.in_world(),
            camera_up@.within(UNIT as int),
            player.in_world(),
        ensures
            self@.state == GameState::GameOver ==> moved is None,
            self@.state == GameState::Playing ==> match moved {
                Some(m) => {
                    &&& camera_step(camera@, player@) == Some(m.translation@)
                    &&& m.translation.in_world()
                    &&& match m.axes {
                        Some(b) => axes_toward_center(m.translation@, camera_up@) == Some(
                            (b.x_axis@, b.y_axis@, b.z_axis@),
                        ) && b.x_axis@.is_unit() && b.y_axis@.is_unit() && b.z_axis@.is_unit(),
                        None => axes_toward_center(m.translation@, camera_up@) is None,
                    }
                },
                None => camera_step(camera@, player@) is None,
            },
    {
        match self.state {
            GameState::GameOver => None,
            GameState::Playing => move_camera(camera, camera_up, player),
        }
    }

    /// One tick of the asteroids, while the game is played. When it is over,
    /// nothing happens.
    pub fn spawn_asteroids(&mut self, delta: u64) -> (r: Option<SpawnCommand>)
        requires
            old(self).wf(),
        ensures
            final(self).wf(),
            old(self)@.state == GameState::GameOver ==> final(self)@ == old(self)@ && r is None,
            old(self)@.state == GameState::Playing ==> {
                &&& r is Some <==> old(self)@.spawn_timer.ticked(delta).finished && old(self)@.next_id < u64::MAX
                &&& r is None ==> final(self)@ == (GameView {
                    spawn_timer: old(self)@.spawn_timer.ticked(delta),
                    ..old(self)@
                })
                &&& r matches Some(command) ==> {
                    &&& command.id == old(self)@.next_id
                    &&& command.role == Role::Hazard
                    &&& is_asteroid_impulse(command.impulse@)
                    &&& -ASTEROID_IMPULSE_ALONG_MAX < command.impulse@.dot(
                        command.position@.unit(),
                    ) < ASTEROID_IMPULSE_ALONG_MAX
                    &&& command.position.in_world()
                    &&& is_at_spawn_altitude(command.position@)
                    &&& final(self)@ == (GameView {
                        spawn_timer: old(self)@.spawn_timer.ticked(delta),
                        bodies: old(self)@.bodies.push(Body { id: command.id, role: Role::Hazard }),
                        next_id: (old(self)@.next_id + 1) as u64,
                        ..old(self)@
                    })
                    &&& exists|x: int, z: int, samples: Seq<Vec3>|
                        {
                            &&& in_spread(x)
                            &&& in_spread(z)
                            &&& samples.len() == DIRECTION_ATTEMPTS
                            &&& forall|i: int|
                                0 <= i < samples.len() ==> sample_in_spread(samples[i])
                            &&& command.position@ == spawn_point(x, z)
                            &&& command.impulse@ == #[trigger] descent_impulse(
                                samples,
                                spawn_point(x, z),
                            )
                        }
                }
            },
    {
        match self.state {
            GameState::GameOver => None,
            GameState::Playing => {
                let r: Option<SpawnCommand> = spawn_asteroids(
                    &mut self.world,
                    &mut self.spawn_timer,
                    delta,
                );
                proof {
                    if let Some(command) = r {
                        lemma_count_push(
                            old(self)@.bodies,
                            Body { id: command.id, role: Role::Hazard },
                            Role::Player,
                        );
                    }
                }
                r
            },
        }
    }

    /// Reads the restart button, while the game is over: once it has been
    /// pressed, a new game is asked for. While the game is played, nothing
    /// happens.
    pub fn restart_button_system(&mut self, interactions: &Vec<Interaction>)
        requires
            old(self).wf(),
        ensures
            final(self).wf(),
            final(self)@ == (GameView {
                next_state: if old(self)@.state == GameState::GameOver && interactions@.contains(
                    Interaction::Pressed,
                ) {
                    Some(GameState::Playing)
                } else {
                    old(self)@.next_state
                },
                ..old(self)@
            }),
    {
        match self.state {
            GameState::Playing => {},
            GameState::GameOver => {
                restart_button_system(&mut self.next_state, interactions);
            },
        }
    }
}

} // verus!
