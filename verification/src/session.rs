//! The game session: the top-level state machine, the per-tick pipeline,
//! and the simulation systems it runs.
//!
//! A session owns the entity registry, the score and history, the spawn
//! timers, the random source, and the application state. Each frame the
//! embedding calls [`GameSession::tick`] with the key states, the window
//! extent and the elapsed milliseconds; the session applies any buffered
//! state-transition request at that boundary, runs the eligible systems in a
//! fixed order, and returns the side-effect events.

use vstd::prelude::*;

verus! {

use crate::events::{
    GameEvent,
    GameOver,
    Sound,
    bounce_pred,
    collect_pred,
    count_bounce_sounds,
    count_collect_sounds,
    has_game_over,
    is_bounce_sound,
    is_collect_sound,
    is_exit,
    is_game_over,
};
use crate::geom::{
    Vec2,
    in_bounds,
    spec_confine,
    spec_dist_sq,
    spec_move_delta,
    spec_normalize,
    confine_actor_axis,
    dist_sq,
    move_delta,
    normalize_dir,
};
use crate::registry::{
    Entity,
    EntityKind,
    Registry,
    count_kind,
    entity_in_bounds,
    is_kind,
    not_kind,
    lemma_count_kinds_eq,
    lemma_count_filter_le,
    lemma_count_none,
    lemma_count_pos_exists,
    lemma_count_push,
    lemma_two_kind,
};
use crate::seqs::{
    lemma_filter_all,
    lemma_filter_keeps,
    lemma_filter_none,
    lemma_filter_run,
    lemma_filter_step,
};
use crate::rng::SpawnRng;
use crate::score::{HighScores, Score, sat_u32};
use crate::timer::RepeatTimer;
use crate::{
    COLLECT_DIST_SQ,
    DIR_SCALE,
    ENEMY_AVOID_DIST_SQ,
    ENEMY_SIZE,
    ENEMY_SPAWN_PERIOD_MS,
    FATAL_DIST_SQ,
    ENEMY_SPEED,
    MAX_EXTENT,
    MAX_TICK_MS,
    NUM_OF_ENEMIES,
    NUM_OF_STARS,
    PLAYER_SIZE,
    PLAYER_SPEED,
    POS_LIMIT,
    SPAWN_ATTEMPTS,
    STAR_SPAWN_PERIOD_MS,
    STAR_SIZE,
};

/// The top-level application mode.
#[derive(Clone, Copy, PartialEq, Eq, Structural, Debug)]
pub enum AppState {
    MainMenu,
    Game,
    GameOver,
}

/// Whether the simulation inside a game advances or is frozen.
#[derive(Clone, Copy, PartialEq, Eq, Structural, Debug)]
pub enum SimulationState {
    Running,
    Paused,
}

/// The key states a tick reads: the four movement directions, each with its
/// letter-key alias, and the pause, debug-transition and quit keys. The
/// `pause`, `to_game`, `to_main_menu` and `quit` fields are just-pressed
/// edges; the movement fields are held states.
#[derive(Clone, Copy, PartialEq, Eq, Structural, Debug)]
pub struct InputState {
    pub left: bool,
    pub left_alt: bool,
    pub right: bool,
    pub right_alt: bool,
    pub up: bool,
    pub up_alt: bool,
    pub down: bool,
    pub down_alt: bool,
    pub pause: bool,
    pub to_game: bool,
    pub to_main_menu: bool,
    pub quit: bool,
}

impl InputState {
    /// No key pressed.
    pub fn none() -> (r: InputState)
        ensures
            r == (InputState {
                left: false,
                left_alt: false,
                right: false,
                right_alt: false,
                up: false,
                up_alt: false,
                down: false,
                down_alt: false,
                pause: false,
                to_game: false,
                to_main_menu: false,
                quit: false,
            }),
    {
        InputState {
            left: false,
            left_alt: false,
            right: false,
            right_alt: false,
            up: false,
            up_alt: false,
            down: false,
            down_alt: false,
            pause: false,
            to_game: false,
            to_main_menu: false,
            quit: false,
        }
    }
}

/// The horizontal input axis: right minus left, each direction reachable
/// through either of its two keys.
pub open spec fn input_sx(i: InputState) -> int {
    (if i.right || i.right_alt {
        1int
    } else {
        0int
    }) - (if i.left || i.left_alt {
        1int
    } else {
        0int
    })
}

/// The vertical input axis: up minus down.
pub open spec fn input_sy(i: InputState) -> int {
    (if i.up || i.up_alt {
        1int
    } else {
        0int
    }) - (if i.down || i.down_alt {
        1int
    } else {
        0int
    })
}

/// The player's movement direction at the `DIR_SCALE` scale: zero without
/// input, else the axis composition normalized to unit length.
pub open spec fn spec_player_dir(i: InputState) -> (int, int) {
    let sx = input_sx(i);
    let sy = input_sy(i);
    if sx == 0 && sy == 0 {
        (0int, 0int)
    } else {
        spec_normalize(sx * DIR_SCALE, sy * DIR_SCALE)
    }
}

/// One movement step of the player: positions advance by the input
/// direction times the player speed and the frame time; everything else is
/// untouched.
pub open spec fn spec_player_step(e: Entity, i: InputState, dt: int) -> Entity {
    if e.kind == EntityKind::Player {
        let d = spec_player_dir(i);
        Entity {
            pos: Vec2 {
                x: (e.pos.x + spec_move_delta(d.0, PLAYER_SPEED as int, dt)) as i64,
                y: (e.pos.y + spec_move_delta(d.1, PLAYER_SPEED as int, dt)) as i64,
            },
            ..e
        }
    } else {
        e
    }
}

/// One movement step of an enemy: its position advances by its stored
/// direction times the enemy speed and the frame time.
pub open spec fn spec_enemy_step(e: Entity, dt: int) -> Entity {
    if e.kind == EntityKind::Enemy {
        Entity {
            pos: Vec2 {
                x: (e.pos.x + spec_move_delta(e.dir.x as int, ENEMY_SPEED as int, dt)) as i64,
                y: (e.pos.y + spec_move_delta(e.dir.y as int, ENEMY_SPEED as int, dt)) as i64,
            },
            ..e
        }
    } else {
        e
    }
}

/// An entity of the given kind with both position axes clamped into the
/// window; entities of other kinds are untouched.
pub open spec fn spec_confined_entity(e: Entity, k: EntityKind, w: int, h: int, size: int) -> Entity {
    if e.kind == k {
        Entity {
            pos: Vec2 {
                x: spec_confine(e.pos.x as int, w, size) as i64,
                y: spec_confine(e.pos.y as int, h, size) as i64,
            },
            ..e
        }
    } else {
        e
    }
}

/// Whether an enemy position stands at or beyond a horizontal wall.
pub open spec fn spec_bounce_x(e: Entity, w: int) -> bool {
    e.pos.x <= ENEMY_SIZE as int / 2 || e.pos.x >= w - ENEMY_SIZE as int / 2
}

/// Whether an enemy position stands at or beyond a vertical wall.
pub open spec fn spec_bounce_y(e: Entity, h: int) -> bool {
    e.pos.y <= ENEMY_SIZE as int / 2 || e.pos.y >= h - ENEMY_SIZE as int / 2
}

/// An enemy's direction after the wall test: each axis at or beyond its
/// bound is negated; the position is untouched.
pub open spec fn spec_bounced_entity(e: Entity, w: int, h: int) -> Entity {
    if e.kind == EntityKind::Enemy {
        Entity {
            dir: Vec2 {
                x: if spec_bounce_x(e, w) {
                    (-e.dir.x) as i64
                } else {
                    e.dir.x
                },
                y: if spec_bounce_y(e, h) {
                    (-e.dir.y) as i64
                } else {
                    e.dir.y
                },
            },
            ..e
        }
    } else {
        e
    }
}

/// Whether this entity is an enemy that bounced off some wall.
pub open spec fn spec_bounced(w: int, h: int) -> spec_fn(Entity) -> bool {
    |e: Entity| e.kind == EntityKind::Enemy && (spec_bounce_x(e, w) || spec_bounce_y(e, h))
}

/// How many enemies of the sequence bounce at this window extent.
pub open spec fn count_bounced(s: Seq<Entity>, w: int, h: int) -> int {
    s.filter(spec_bounced(w, h)).len() as int
}

/// The position of the single live player of a sequence.
pub open spec fn player_index(s: Seq<Entity>) -> int {
    choose|i: int| 0 <= i < s.len() && s[i].kind == EntityKind::Player
}

/// Where the single live player stands.
pub open spec fn player_pos(s: Seq<Entity>) -> Vec2 {
    s[player_index(s)].pos
}

/// A fatal contact: a single live player with some enemy closer than the
/// combined radii.
pub open spec fn spec_fatal_hit(s: Seq<Entity>) -> bool {
    count_kind(s, EntityKind::Player) == 1 && exists|j: int|
        0 <= j < s.len() && (#[trigger] s[j]).kind == EntityKind::Enemy && spec_dist_sq(
            player_pos(s),
            s[j].pos,
        ) < FATAL_DIST_SQ as int
}

/// Whether an entity is a star the player at `p` reaches.
pub open spec fn star_hit(p: Vec2) -> spec_fn(Entity) -> bool {
    |e: Entity| e.kind == EntityKind::Star && spec_dist_sq(p, e.pos) < COLLECT_DIST_SQ as int
}

/// Whether an entity survives the collection pass of a player at `p`.
pub open spec fn star_not_hit(p: Vec2) -> spec_fn(Entity) -> bool {
    |e: Entity| !(e.kind == EntityKind::Star && spec_dist_sq(p, e.pos) < COLLECT_DIST_SQ as int)
}

/// How many stars the player at `p` reaches.
pub open spec fn count_stars_hit(s: Seq<Entity>, p: Vec2) -> int {
    s.filter(star_hit(p)).len() as int
}

/// The mode the session will be in after the next tick boundary.
pub open spec fn spec_boundary_app(s: GameSession) -> AppState {
    match s.pending_app {
        Some(a) => a,
        None => s.app_state,
    }
}

/// Whether the next boundary really enters or leaves a game.
pub open spec fn spec_game_boundary_crossed(s: GameSession) -> bool {
    match s.pending_app {
        Some(a) => a != s.app_state && (a == AppState::Game || s.app_state == AppState::Game),
        None => false,
    }
}

/// Whether the next boundary enters a game from outside one.
pub open spec fn spec_entering_game(s: GameSession) -> bool {
    s.pending_app == Some(AppState::Game) && s.app_state != AppState::Game
}

/// The pause state the session will be in after the next tick boundary:
/// crossing the game boundary forces the simulation to run; otherwise a
/// pending pause request applies inside a game and is dropped outside one.
pub open spec fn spec_boundary_sim(s: GameSession) -> SimulationState {
    if spec_game_boundary_crossed(s) {
        SimulationState::Running
    } else if spec_boundary_app(s) == AppState::Game {
        match s.pending_sim {
            Some(t) => t,
            None => s.sim_state,
        }
    } else {
        s.sim_state
    }
}

/// The entity field standing after the next tick boundary: entering a game
/// creates the initial cast, leaving one clears the field, and otherwise
/// the field is untouched.
pub open spec fn spec_boundary_registry(s: GameSession, w: int, h: int) -> Seq<Entity> {
    if spec_entering_game(s) {
        spec_initial_cast(s.rng.spec_state(), w, h).1
    } else if spec_game_boundary_crossed(s) {
        Seq::<Entity>::empty()
    } else {
        s.registry@
    }
}

/// The generator state after the next tick boundary: only entering a game
/// draws from it, for the initial cast.
pub open spec fn spec_boundary_rng(s: GameSession, w: int, h: int) -> u64 {
    if spec_entering_game(s) {
        spec_initial_cast(s.rng.spec_state(), w, h).0
    } else {
        s.rng.spec_state()
    }
}

/// One entity through the whole movement pass of a tick: the player step,
/// the enemy step, the wall bounce, then enemy and player confinement.
pub open spec fn spec_system_step(e: Entity, input: InputState, dt: int, w: int, h: int) -> Entity {
    spec_confined_entity(
        spec_confined_entity(
            spec_bounced_entity(spec_enemy_step(spec_player_step(e, input, dt), dt), w, h),
            EntityKind::Enemy,
            w,
            h,
            ENEMY_SIZE as int,
        ),
        EntityKind::Player,
        w,
        h,
        PLAYER_SIZE as int,
    )
}

/// One entity through movement alone, before the bounce and confinement:
/// the state in which the wall test reads its positions.
pub open spec fn spec_moved_step(e: Entity, input: InputState, dt: int) -> Entity {
    spec_enemy_step(spec_player_step(e, input, dt), dt)
}

/// The field and generator after the timed-spawn phase of a running tick:
/// a fired enemy timer spawns one placement attempt (given a live player),
/// then a fired star timer spawns one star.
#[verifier::opaque]
pub open spec fn spec_after_timed_spawns(
    r: Seq<Entity>,
    g: u64,
    enemy_fired: bool,
    star_fired: bool,
    w: int,
    h: int,
) -> (Seq<Entity>, u64) {
    let after_enemy = if enemy_fired && count_kind(r, EntityKind::Player) == 1 {
        let a = spec_enemy_attempt(g, player_pos(r), w, h);
        (r + a.1, a.0)
    } else {
        (r, g)
    };
    if star_fired {
        (after_enemy.0.push(spec_star_entity(after_enemy.1, w, h)), spec_star_rng(after_enemy.1))
    } else {
        after_enemy
    }
}

/// The field of a running tick after spawning and movement, at the moment
/// the wall test reads it, as a function of the tick's inputs alone.
#[verifier::opaque]
pub open spec fn spec_run_moved(
    s: GameSession,
    input: InputState,
    w: int,
    h: int,
    dt: int,
) -> Seq<Entity> {
    spec_after_timed_spawns(
        spec_boundary_registry(s, w, h),
        spec_boundary_rng(s, w, h),
        dt >= s.enemy_timer.spec_remaining(),
        dt >= s.star_timer.spec_remaining(),
        w,
        h,
    ).0.map_values(|e: Entity| spec_moved_step(e, input, dt))
}

/// The field of a running tick after spawning, movement, bounce and
/// confinement — the state the collision checks read — as a function of
/// the tick's inputs alone.
#[verifier::opaque]
pub open spec fn spec_run_field(
    s: GameSession,
    input: InputState,
    w: int,
    h: int,
    dt: int,
) -> Seq<Entity> {
    spec_after_timed_spawns(
        spec_boundary_registry(s, w, h),
        spec_boundary_rng(s, w, h),
        dt >= s.enemy_timer.spec_remaining(),
        dt >= s.star_timer.spec_remaining(),
        w,
        h,
    ).0.map_values(|e: Entity| spec_system_step(e, input, dt, w, h))
}

/// Through one full system pass, the resulting field is the composed
/// per-entity specification of the spawn-phase field, and the pre-bounce
/// state is its movement-only projection.
pub proof fn lemma_run_field_eq(
    s0: GameSession,
    r3: Seq<Entity>,
    r4: Seq<Entity>,
    r5: Seq<Entity>,
    r6: Seq<Entity>,
    r7: Seq<Entity>,
    r8: Seq<Entity>,
    input: InputState,
    w: int,
    h: int,
    dt: int,
)
    requires
        r4.len() == r3.len(),
        r5.len() == r3.len(),
        r6.len() == r3.len(),
        r7.len() == r3.len(),
        r8.len() == r3.len(),
        forall|j: int| 0 <= j < r3.len() ==> r4[j] == spec_player_step(#[trigger] r3[j], input, dt),
        forall|j: int| 0 <= j < r3.len() ==> r5[j] == spec_enemy_step(#[trigger] r4[j], dt),
        forall|j: int| 0 <= j < r3.len() ==> r6[j] == spec_bounced_entity(#[trigger] r5[j], w, h),
        forall|j: int|
            0 <= j < r3.len() ==> r7[j] == spec_confined_entity(
                #[trigger] r6[j],
                EntityKind::Enemy,
                w,
                h,
                ENEMY_SIZE as int,
            ),
        forall|j: int|
            0 <= j < r3.len() ==> r8[j] == spec_confined_entity(
                #[trigger] r7[j],
                EntityKind::Player,
                w,
                h,
                PLAYER_SIZE as int,
            ),
        r3 == spec_after_timed_spawns(
            spec_boundary_registry(s0, w, h),
            spec_boundary_rng(s0, w, h),
            dt >= s0.enemy_timer.spec_remaining(),
            dt >= s0.star_timer.spec_remaining(),
            w,
            h,
        ).0,
    ensures
        r8 == spec_run_field(s0, input, w, h, dt),
        r5 == spec_run_moved(s0, input, w, h, dt),
{
    reveal(spec_run_field);
    reveal(spec_run_moved);
    assert forall|j: int| 0 <= j < r3.len() implies r8[j] == spec_system_step(
        r3[j],
        input,
        dt,
        w,
        h,
    ) && r5[j] == spec_moved_step(r3[j], input, dt) by {
        assert(r4[j] == spec_player_step(r3[j], input, dt));
        assert(r5[j] == spec_enemy_step(r4[j], dt));
        assert(r6[j] == spec_bounced_entity(r5[j], w, h));
        assert(r7[j] == spec_confined_entity(r6[j], EntityKind::Enemy, w, h, ENEMY_SIZE as int));
        assert(r8[j] == spec_confined_entity(r7[j], EntityKind::Player, w, h, PLAYER_SIZE as int));
    }
    assert(r8 =~= spec_run_field(s0, input, w, h, dt));
    assert(r5 =~= spec_run_moved(s0, input, w, h, dt));
}

/// The event list of a fatal tick: an inert prefix, a run of bounce
/// sounds, then the explosion and the game-over signal. It holds no
/// collection sound, announces the game over, and counts one bounce sound
/// per turned enemy.
pub proof fn lemma_events_death(
    e0: Seq<GameEvent>,
    e1: Seq<GameEvent>,
    ef: Seq<GameEvent>,
    over: GameOver,
)
    requires
        e0.len() <= e1.len(),
        forall|k: int| 0 <= k < e0.len() ==> e1[k] == e0[k],
        forall|k: int|
            0 <= k < e0.len() ==> !(collect_pred())(#[trigger] e0[k]) && !is_game_over(e0[k])
                && !(bounce_pred())(e0[k]),
        forall|k: int| e0.len() <= k < e1.len() ==> is_bounce_sound(#[trigger] e1[k]),
        ef == e1.push(GameEvent::Sound(Sound::Explosion)).push(GameEvent::GameOver(over)),
    ensures
        count_collect_sounds(ef) == 0,
        has_game_over(ef),
        count_bounce_sounds(ef) == e1.len() - e0.len(),
{
    assert forall|k: int| 0 <= k < ef.len() implies !(collect_pred())(#[trigger] ef[k]) by {
        if k < e1.len() {
            assert(ef[k] == e1[k]);
        }
    }
    lemma_filter_none(ef, collect_pred());
    assert(is_game_over(ef[ef.len() - 1]));
    assert forall|k: int| 0 <= k < ef.len() implies ((e0.len() <= k < e1.len()) == (bounce_pred())(
        #[trigger] ef[k],
    )) by {
        if k < e1.len() {
            assert(ef[k] == e1[k]);
        }
    }
    lemma_filter_run(ef, bounce_pred(), e0.len() as int, e1.len() as int);
}

/// The event list of a survived tick: an inert prefix, a run of bounce
/// sounds, then a run of collection sounds. It announces no game over and
/// counts one sound per turned enemy and per collected star.
pub proof fn lemma_events_survival(e0: Seq<GameEvent>, e1: Seq<GameEvent>, ef: Seq<GameEvent>)
    requires
        e0.len() <= e1.len() <= ef.len(),
        forall|k: int| 0 <= k < e1.len() ==> ef[k] == e1[k],
        forall|k: int| 0 <= k < e0.len() ==> e1[k] == e0[k],
        forall|k: int|
            0 <= k < e0.len() ==> !(collect_pred())(#[trigger] e0[k]) && !is_game_over(e0[k])
                && !(bounce_pred())(e0[k]),
        forall|k: int|
            e0.len() <= k < e1.len() ==> is_bounce_sound(#[trigger] e1[k]) && !(collect_pred())(
                e1[k],
            ),
        forall|k: int| e1.len() <= k < ef.len() ==> is_collect_sound(#[trigger] ef[k]),
    ensures
        !has_game_over(ef),
        count_collect_sounds(ef) == ef.len() - e1.len(),
        count_bounce_sounds(ef) == e1.len() - e0.len(),
{
    assert forall|k: int| 0 <= k < ef.len() implies !is_game_over(#[trigger] ef[k]) by {
        if k < e1.len() {
            assert(ef[k] == e1[k]);
        } else {
            assert(is_collect_sound(ef[k]));
        }
    }
    assert(!has_game_over(ef));
    assert forall|k: int| 0 <= k < ef.len() implies ((e1.len() <= k < ef.len()) == (collect_pred())(
        #[trigger] ef[k],
    )) by {
        if k < e1.len() {
            assert(ef[k] == e1[k]);
        }
    }
    lemma_filter_run(ef, collect_pred(), e1.len() as int, ef.len() as int);
    assert forall|k: int| 0 <= k < ef.len() implies ((e0.len() <= k < e1.len()) == (bounce_pred())(
        #[trigger] ef[k],
    )) by {
        if k < e1.len() {
            assert(ef[k] == e1[k]);
        } else {
            assert(is_collect_sound(ef[k]));
        }
    }
    lemma_filter_run(ef, bounce_pred(), e0.len() as int, e1.len() as int);
}

/// The other pause state.
pub open spec fn spec_toggled(s: SimulationState) -> SimulationState {
    match s {
        SimulationState::Running => SimulationState::Paused,
        SimulationState::Paused => SimulationState::Running,
    }
}

/// One candidate draw for a spawn position: two generator steps give the
/// horizontal and vertical coordinates, each reduced into the window.
pub open spec fn spec_candidate(s: u64, w: int, h: int) -> (u64, Vec2) {
    let s1 = crate::rng::spec_rng_step(s);
    let x = crate::rng::spec_rng_out(s1) as int % w;
    let s2 = crate::rng::spec_rng_step(s1);
    let y = crate::rng::spec_rng_out(s2) as int % h;
    (s2, Vec2 { x: x as i64, y: y as i64 })
}

/// The rest of the rejection sampling, after a candidate has been drawn:
/// while the candidate stands too close to the player and the budget lasts,
/// another is drawn. Yields the final generator state, the last candidate,
/// and the budget left — the spawn goes ahead only when some budget is
/// left.
pub open spec fn spec_place_cont(s: u64, c: Vec2, ppos: Vec2, w: int, h: int, fuel: nat) -> (
    u64,
    Vec2,
    nat,
)
    decreases fuel,
{
    if spec_dist_sq(ppos, c) >= ENEMY_AVOID_DIST_SQ as int || fuel == 0 {
        (s, c, fuel)
    } else {
        let next = spec_candidate(s, w, h);
        spec_place_cont(next.0, next.1, ppos, w, h, (fuel - 1) as nat)
    }
}

/// The whole placement of one enemy, from a generator state: a first
/// candidate, then rejection sampling on the full retry budget.
pub open spec fn spec_place_enemy(s: u64, ppos: Vec2, w: int, h: int) -> (u64, Vec2, nat) {
    let first = spec_candidate(s, w, h);
    spec_place_cont(first.0, first.1, ppos, w, h, SPAWN_ATTEMPTS as nat)
}

/// A fresh enemy's direction, from a generator state: both components drawn
/// from the first quadrant, a doubly zero draw nudged onto the horizontal
/// axis, and the result normalized to unit length.
pub open spec fn spec_enemy_dir(s: u64) -> (u64, Vec2) {
    let s1 = crate::rng::spec_rng_step(s);
    let rx0 = crate::rng::spec_rng_out(s1) as int % DIR_SCALE as int;
    let s2 = crate::rng::spec_rng_step(s1);
    let ry = crate::rng::spec_rng_out(s2) as int % DIR_SCALE as int;
    let rx = if rx0 == 0 && ry == 0 {
        1int
    } else {
        rx0
    };
    let d = spec_normalize(rx, ry);
    (s2, Vec2 { x: d.0 as i64, y: d.1 as i64 })
}

/// Appending anything but a player moves the single live player's position
/// nowhere.
pub proof fn lemma_player_pos_push(s: Seq<Entity>, e: Entity)
    requires
        count_kind(s, EntityKind::Player) == 1,
        e.kind != EntityKind::Player,
    ensures
        count_kind(s.push(e), EntityKind::Player) == 1,
        player_pos(s.push(e)) == player_pos(s),
{
    lemma_count_push(s, e, EntityKind::Player);
    lemma_count_pos_exists(s, EntityKind::Player);
    let i = player_index(s);
    assert(0 <= i < s.len() && s[i].kind == EntityKind::Player);
    assert(s.push(e)[i].kind == EntityKind::Player);
    let j = player_index(s.push(e));
    assert(0 <= j < s.push(e).len() && s.push(e)[j].kind == EntityKind::Player);
    if j != i {
        assert(j < s.len());
        if i < j {
            lemma_two_kind(s, i, j, EntityKind::Player);
        } else {
            lemma_two_kind(s, j, i, EntityKind::Player);
        }
    }
}

/// Appending a run of non-players likewise: the single player's position
/// survives any batch of enemy or star spawns.
pub proof fn lemma_player_pos_append(s: Seq<Entity>, t: Seq<Entity>)
    requires
        count_kind(s, EntityKind::Player) == 1,
        forall|i: int| 0 <= i < t.len() ==> (#[trigger] t[i]).kind != EntityKind::Player,
    ensures
        count_kind(s + t, EntityKind::Player) == 1,
        player_pos(s + t) == player_pos(s),
    decreases t.len(),
{
    if t.len() == 0 {
        assert(s + t =~= s);
    } else {
        assert(forall|i: int|
            0 <= i < t.drop_last().len() ==> (#[trigger] t.drop_last()[i]).kind
                != EntityKind::Player);
        lemma_player_pos_append(s, t.drop_last());
        lemma_player_pos_push(s + t.drop_last(), t.last());
        assert((s + t.drop_last()).push(t.last()) =~= s + t);
    }
}

/// One freshly spawned star, from a generator state: a draw per axis,
/// each confined into the window.
pub open spec fn spec_star_entity(g: u64, w: int, h: int) -> Entity {
    Entity {
        kind: EntityKind::Star,
        pos: Vec2 {
            x: spec_confine(
                crate::rng::spec_rng_out(crate::rng::spec_rng_step(g)) as int % w,
                w,
                STAR_SIZE as int,
            ) as i64,
            y: spec_confine(
                crate::rng::spec_rng_out(
                    crate::rng::spec_rng_step(crate::rng::spec_rng_step(g)),
                ) as int % h,
                h,
                STAR_SIZE as int,
            ) as i64,
        },
        dir: Vec2 { x: 0, y: 0 },
    }
}

/// The generator state after one star spawn: two draws.
pub open spec fn spec_star_rng(g: u64) -> u64 {
    crate::rng::spec_rng_step(crate::rng::spec_rng_step(g))
}

/// A batch of `n` star spawns from a generator state: the final state and
/// the stars, in spawn order.
pub open spec fn spec_stars_fold(g: u64, w: int, h: int, n: nat) -> (u64, Seq<Entity>)
    decreases n,
{
    if n == 0 {
        (g, Seq::<Entity>::empty())
    } else {
        let rest = spec_stars_fold(spec_star_rng(g), w, h, (n - 1) as nat);
        (rest.0, seq![spec_star_entity(g, w, h)] + rest.1)
    }
}

/// One enemy spawn attempt from a generator state: the placement runs its
/// budget; on success the direction draws follow and one enemy results, on
/// exhaustion nothing does.
pub open spec fn spec_enemy_attempt(g: u64, ppos: Vec2, w: int, h: int) -> (u64, Seq<Entity>) {
    let placed = spec_place_enemy(g, ppos, w, h);
    if placed.2 > 0 {
        let d = spec_enemy_dir(placed.0);
        (d.0, seq![Entity { kind: EntityKind::Enemy, pos: placed.1, dir: d.1 }])
    } else {
        (placed.0, Seq::<Entity>::empty())
    }
}

/// A batch of `n` enemy spawn attempts against a fixed player position: the
/// final generator state and the enemies that placed, in spawn order.
pub open spec fn spec_enemies_fold(g: u64, ppos: Vec2, w: int, h: int, n: nat) -> (
    u64,
    Seq<Entity>,
)
    decreases n,
{
    if n == 0 {
        (g, Seq::<Entity>::empty())
    } else {
        let first = spec_enemy_attempt(g, ppos, w, h);
        let rest = spec_enemies_fold(first.0, ppos, w, h, (n - 1) as nat);
        (rest.0, first.1 + rest.1)
    }
}

/// The cast a fresh game starts with: the player at the window center, then
/// the initial enemies, then the initial stars, the generator threaded
/// through the spawns in that order.
#[verifier::opaque]
pub open spec fn spec_initial_cast(g: u64, w: int, h: int) -> (u64, Seq<Entity>) {
    let player = Entity {
        kind: EntityKind::Player,
        pos: Vec2 { x: (w / 2) as i64, y: (h / 2) as i64 },
        dir: Vec2 { x: 0, y: 0 },
    };
    let en = spec_enemies_fold(g, player.pos, w, h, NUM_OF_ENEMIES as nat);
    let st = spec_stars_fold(en.0, w, h, NUM_OF_STARS as nat);
    (st.0, seq![player] + en.1 + st.1)
}

/// The in-window predicate on an entity's position, as a value.
pub open spec fn in_max_extent() -> spec_fn(Entity) -> bool {
    |e: Entity| in_bounds(e.pos, MAX_EXTENT as int)
}

/// Through one pipeline pass — player step, enemy step, bounce, enemy
/// confinement, player confinement — kinds never change, and every
/// position ends inside the window bound: moved kinds because they are
/// confined, stars because nothing moves them.
pub proof fn lemma_pipeline_bounds(
    r3: Seq<Entity>,
    r4: Seq<Entity>,
    r5: Seq<Entity>,
    r6: Seq<Entity>,
    r7: Seq<Entity>,
    r8: Seq<Entity>,
    input: InputState,
    dt: int,
    w: int,
    h: int,
)
    requires
        r4.len() == r3.len(),
        r5.len() == r3.len(),
        r6.len() == r3.len(),
        r7.len() == r3.len(),
        r8.len() == r3.len(),
        forall|j: int| 0 <= j < r3.len() ==> r4[j] == spec_player_step(#[trigger] r3[j], input, dt),
        forall|j: int| 0 <= j < r3.len() ==> r5[j] == spec_enemy_step(#[trigger] r4[j], dt),
        forall|j: int| 0 <= j < r3.len() ==> r6[j] == spec_bounced_entity(#[trigger] r5[j], w, h),
        forall|j: int|
            0 <= j < r3.len() ==> r7[j] == spec_confined_entity(
                #[trigger] r6[j],
                EntityKind::Enemy,
                w,
                h,
                ENEMY_SIZE as int,
            ),
        forall|j: int|
            0 <= j < r3.len() ==> r8[j] == spec_confined_entity(
                #[trigger] r7[j],
                EntityKind::Player,
                w,
                h,
                PLAYER_SIZE as int,
            ),
        forall|j: int| 0 <= j < r3.len() ==> in_bounds((#[trigger] r3[j]).pos, MAX_EXTENT as int),
        forall|j: int|
            0 <= j < r7.len() && (#[trigger] r7[j]).kind == EntityKind::Enemy ==> in_bounds(
                r7[j].pos,
                MAX_EXTENT as int,
            ),
        forall|j: int|
            0 <= j < r8.len() && (#[trigger] r8[j]).kind == EntityKind::Player ==> in_bounds(
                r8[j].pos,
                MAX_EXTENT as int,
            ),
        1 <= w <= MAX_EXTENT,
        1 <= h <= MAX_EXTENT,
    ensures
        forall|j: int| 0 <= j < r8.len() ==> in_bounds((#[trigger] r8[j]).pos, MAX_EXTENT as int),
        forall|j: int| 0 <= j < r8.len() ==> (#[trigger] r8[j]).kind == r3[j].kind,
{
    assert forall|j: int| 0 <= j < r8.len() implies in_bounds(
        (#[trigger] r8[j]).pos,
        MAX_EXTENT as int,
    ) && r8[j].kind == r3[j].kind by {
        assert(r4[j] == spec_player_step(r3[j], input, dt));
        assert(r5[j] == spec_enemy_step(r4[j], dt));
        assert(r6[j] == spec_bounced_entity(r5[j], w, h));
        assert(r7[j] == spec_confined_entity(r6[j], EntityKind::Enemy, w, h, ENEMY_SIZE as int));
        assert(r8[j] == spec_confined_entity(r7[j], EntityKind::Player, w, h, PLAYER_SIZE as int));
        assert(in_bounds(r3[j].pos, MAX_EXTENT as int));
        if r3[j].kind == EntityKind::Star {
            assert(r8[j].pos == r3[j].pos);
        }
    }
}

/// The score never falls within a session: however many stars one tick
/// collects, the clipped new score is at least the old one.
pub proof fn lemma_score_monotonic(v: int, c: int)
    requires
        0 <= v <= u32::MAX,
        0 <= c,
    ensures
        sat_u32(v + c) >= v,
        c == 0 ==> sat_u32(v + c) == v,
{
}

/// Player cardinality: a healthy session never holds more than one player,
/// and never a negative count.
pub proof fn lemma_player_cardinality(s: GameSession)
    requires
        s.inv(),
    ensures
        0 <= s.registry.player_count() <= 1,
{
    s.registry@.lemma_filter_len(is_kind(EntityKind::Player));
}

/// The mode change the tick's inputs request, given the mode the session is
/// in when they are read: the main-menu key wins over the game key, and a
/// request to enter the current mode is dropped.
pub open spec fn spec_requested_app(app: AppState, i: InputState) -> Option<AppState> {
    if i.to_main_menu && app != AppState::MainMenu {
        Some(AppState::MainMenu)
    } else if i.to_game && app != AppState::Game {
        Some(AppState::Game)
    } else {
        None
    }
}

/// One running game of the arcade: every piece of state the simulation
/// reads or writes, as one value.
pub struct GameSession {
    /// The live entities.
    pub registry: Registry,
    /// The running score of the current game.
    pub score: Score,
    /// The append-only history of finished games.
    pub high_scores: HighScores,
    /// Fires a periodic enemy spawn.
    pub enemy_timer: RepeatTimer,
    /// Fires a periodic star spawn.
    pub star_timer: RepeatTimer,
    /// The current top-level mode.
    pub app_state: AppState,
    /// Running or paused; meaningful only inside a game.
    pub sim_state: SimulationState,
    /// A requested mode change, applied at the next tick boundary.
    pub pending_app: Option<AppState>,
    /// A requested pause change, applied at the next tick boundary.
    pub pending_sim: Option<SimulationState>,
    /// The seedable random source for spawning and the bounce coin flip.
    pub rng: SpawnRng,
}

/// The states, pending requests included, of two sessions agree.
pub open spec fn same_states(a: GameSession, b: GameSession) -> bool {
    a.app_state == b.app_state && a.sim_state == b.sim_state && a.pending_app == b.pending_app
        && a.pending_sim == b.pending_sim
}

/// The score and the history of two sessions agree.
pub open spec fn same_scorekeeping(a: GameSession, b: GameSession) -> bool {
    a.score.value == b.score.value && a.high_scores.scores@ == b.high_scores.scores@
}

/// The two spawn timers of two sessions agree.
pub open spec fn same_timers(a: GameSession, b: GameSession) -> bool {
    a.enemy_timer == b.enemy_timer && a.star_timer == b.star_timer
}

impl GameSession {
    /// The session's healthy-state predicate: the registry is well formed
    /// with every position inside the largest window; the timers run at
    /// their fixed periods; outside a game the simulation is not paused and
    /// no entities are live.
    pub open spec fn inv(self) -> bool {
        &&& self.registry.wf()
        &&& self.registry.positions_within(MAX_EXTENT as int)
        &&& self.enemy_timer.wf()
        &&& self.enemy_timer.spec_period() == ENEMY_SPAWN_PERIOD_MS
        &&& self.star_timer.wf()
        &&& self.star_timer.spec_period() == STAR_SPAWN_PERIOD_MS
        &&& (self.app_state != AppState::Game ==> self.sim_state == SimulationState::Running)
        &&& (self.app_state != AppState::Game ==> self.registry@.len() == 0)
    }

    /// A fresh session at the main menu, with the given random seed.
    pub fn new(seed: u64) -> (s: GameSession)
        ensures
            s.inv(),
            s.app_state == AppState::MainMenu,
            s.sim_state == SimulationState::Running,
            s.registry@.len() == 0,
            s.score.value == 0,
            s.high_scores.scores@.len() == 0,
            s.pending_app is None,
            s.pending_sim is None,
            s.rng.spec_state() == seed,
    {
        GameSession {
            registry: Registry::new(),
            score: Score::new(),
            high_scores: HighScores::new(),
            enemy_timer: RepeatTimer::new(ENEMY_SPAWN_PERIOD_MS),
            star_timer: RepeatTimer::new(STAR_SPAWN_PERIOD_MS),
            app_state: AppState::MainMenu,
            sim_state: SimulationState::Running,
            pending_app: None,
            pending_sim: None,
            rng: SpawnRng::new(seed),
        }
    }

    /// A fresh session at the main menu, seeded from machine entropy.
    pub fn from_entropy() -> (s: GameSession)
        ensures
            s.inv(),
            s.app_state == AppState::MainMenu,
            s.sim_state == SimulationState::Running,
            s.registry@.len() == 0,
            s.score.value == 0,
            s.high_scores.scores@.len() == 0,
            s.pending_app is None,
            s.pending_sim is None,
    {
        GameSession {
            registry: Registry::new(),
            score: Score::new(),
            high_scores: HighScores::new(),
            enemy_timer: RepeatTimer::new(ENEMY_SPAWN_PERIOD_MS),
            star_timer: RepeatTimer::new(STAR_SPAWN_PERIOD_MS),
            app_state: AppState::MainMenu,
            sim_state: SimulationState::Running,
            pending_app: None,
            pending_sim: None,
            rng: SpawnRng::from_entropy(),
        }
    }

    /// Requests entering the game, unless it is already the mode. Applied
    /// at the next tick boundary.
    pub fn transition_to_game_state(&mut self)
        ensures
            old(self).app_state != AppState::Game ==> *final(self) == (GameSession {
                pending_app: Some(AppState::Game),
                ..*old(self)
            }),
            old(self).app_state == AppState::Game ==> *final(self) == *old(self),
    {
        if !matches!(self.app_state, AppState::Game) {
            self.pending_app = Some(AppState::Game);
        }
    }

    /// Requests returning to the main menu, unless it is already the mode.
    pub fn transition_to_main_menu_state(&mut self)
        ensures
            old(self).app_state != AppState::MainMenu ==> *final(self) == (GameSession {
                pending_app: Some(AppState::MainMenu),
                ..*old(self)
            }),
            old(self).app_state == AppState::MainMenu ==> *final(self) == *old(self),
    {
        if !matches!(self.app_state, AppState::MainMenu) {
            self.pending_app = Some(AppState::MainMenu);
        }
    }

    /// Requests pausing the simulation.
    pub fn pause_simulation(&mut self)
        ensures
            *final(self) == (GameSession {
                pending_sim: Some(SimulationState::Paused),
                ..*old(self)
            }),
    {
        self.pending_sim = Some(SimulationState::Paused);
    }

    /// Requests resuming the simulation.
    pub fn resume_simulation(&mut self)
        ensures
            *final(self) == (GameSession {
                pending_sim: Some(SimulationState::Running),
                ..*old(self)
            }),
    {
        self.pending_sim = Some(SimulationState::Running);
    }

    /// Inside a game, requests the opposite of the current pause state;
    /// outside one, does nothing.
    pub fn toggle_simulation(&mut self)
        ensures
            old(self).app_state == AppState::Game && old(self).sim_state
                == SimulationState::Running ==> *final(self) == (GameSession {
                pending_sim: Some(SimulationState::Paused),
                ..*old(self)
            }),
            old(self).app_state == AppState::Game && old(self).sim_state
                == SimulationState::Paused ==> *final(self) == (GameSession {
                pending_sim: Some(SimulationState::Running),
                ..*old(self)
            }),
            old(self).app_state != AppState::Game ==> *final(self) == *old(self),
    {
        if matches!(self.app_state, AppState::Game) {
            if matches!(self.sim_state, SimulationState::Running) {
                self.pause_simulation();
            } else {
                self.resume_simulation();
            }
        }
    }

    /// Takes note of a finished game: appends the final score the game-over
    /// signal carries to the history and requests the game-over mode.
    pub fn handle_game_over(&mut self, event: &GameOver)
        ensures
            final(self).pending_app == Some(AppState::GameOver),
            final(self).high_scores.scores@.len() == old(self).high_scores.scores@.len() + 1,
            forall|i: int|
                0 <= i < old(self).high_scores.scores@.len() ==> final(self).high_scores.scores@[i]
                    == old(self).high_scores.scores@[i],
            final(self).high_scores.scores@.last().1 == event.score,
            final(self).high_scores.scores@.last().0@ == "Player"@,
            final(self).registry == old(self).registry,
            final(self).score == old(self).score,
            same_timers(*old(self), *final(self)),
            final(self).app_state == old(self).app_state,
            final(self).sim_state == old(self).sim_state,
            final(self).pending_sim == old(self).pending_sim,
            final(self).rng == old(self).rng,
    {
        self.high_scores.update_high_scores(event);
        self.pending_app = Some(AppState::GameOver);
    }

    /// Moves the player by the held movement keys: the two axes compose,
    /// a nonzero composite is normalized to unit length, and the player
    /// advances by it times the player speed and the frame time. Without a
    /// live player this is a no-op.
    pub fn player_movement(&mut self, input: &InputState, dt: i64)
        requires
            old(self).registry.wf(),
            old(self).registry.positions_within(1_200_000),
            0 <= dt <= MAX_TICK_MS,
        ensures
            final(self).registry.wf(),
            final(self).registry.positions_within(1_260_000),
            final(self).registry@.len() == old(self).registry@.len(),
            forall|j: int|
                0 <= j < old(self).registry@.len() ==> final(self).registry@[j]
                    == spec_player_step(old(self).registry@[j], *input, dt as int),
            same_states(*old(self), *final(self)),
            same_scorekeeping(*old(self), *final(self)),
            same_timers(*old(self), *final(self)),
            final(self).rng == old(self).rng,
    {
        let pi = match self.registry.find_player() {
            Some(i) => i,
            None => {
                return ;
            },
        };
        let mut sx: i64 = 0;
        let mut sy: i64 = 0;
        if input.left || input.left_alt {
            sx = sx - 1;
        }
        if input.right || input.right_alt {
            sx = sx + 1;
        }
        if input.down || input.down_alt {
            sy = sy - 1;
        }
        if input.up || input.up_alt {
            sy = sy + 1;
        }
        proof {
            assert(sx == input_sx(*input) && sy == input_sy(*input));
        }
        if sx != 0 || sy != 0 {
            let dir = normalize_dir(sx * DIR_SCALE, sy * DIR_SCALE);
            let dx = move_delta(dir.x, PLAYER_SPEED, dt);
            let dy = move_delta(dir.y, PLAYER_SPEED, dt);
            let e = *self.registry.get(pi);
            proof {
                assert(entity_in_bounds(old(self).registry@[pi as int]));
                assert(in_bounds(old(self).registry@[pi as int].pos, 1_200_000));
            }
            let moved = Entity { pos: Vec2 { x: e.pos.x + dx, y: e.pos.y + dy }, ..e };
            self.registry.set_at(pi, moved);
            proof {
                assert forall|j: int|
                    0 <= j < old(self).registry@.len() implies self.registry@[j].kind == old(
                    self,
                ).registry@[j].kind by {}
                lemma_count_kinds_eq(old(self).registry@, self.registry@, EntityKind::Player);
            }
        } else {
            proof {
                assert forall|j: int|
                    0 <= j < old(self).registry@.len() implies self.registry@[j]
                    == spec_player_step(old(self).registry@[j], *input, dt as int) by {
                    assert(spec_move_delta(0, PLAYER_SPEED as int, dt as int) == 0);
                }
            }
        }
    }

    /// Moves every enemy by its stored direction times the enemy speed and
    /// the frame time.
    pub fn enemy_movement(&mut self, dt: i64)
        requires
            old(self).registry.wf(),
            old(self).registry.positions_within(1_300_000),
            0 <= dt <= MAX_TICK_MS,
        ensures
            final(self).registry.wf(),
            final(self).registry.positions_within(1_360_000),
            final(self).registry@.len() == old(self).registry@.len(),
            forall|j: int|
                0 <= j < old(self).registry@.len() ==> final(self).registry@[j]
                    == spec_enemy_step(old(self).registry@[j], dt as int),
            same_states(*old(self), *final(self)),
            same_scorekeeping(*old(self), *final(self)),
            same_timers(*old(self), *final(self)),
            final(self).rng == old(self).rng,
    {
        let len = self.registry.len();
        let mut i: usize = 0;
        while i < len
            invariant
                i <= len,
                len == self.registry@.len(),
                len == old(self).registry@.len(),
                0 <= dt <= MAX_TICK_MS,
                old(self).registry.wf(),
                old(self).registry.positions_within(1_300_000),
                forall|j: int|
                    0 <= j < i ==> self.registry@[j] == spec_enemy_step(
                        old(self).registry@[j],
                        dt as int,
                    ),
                forall|j: int| i <= j < len ==> self.registry@[j] == old(self).registry@[j],
                forall|j: int|
                    0 <= j < len ==> in_bounds((#[trigger] self.registry@[j]).pos, 1_360_000),
                forall|j: int|
                    0 <= j < len ==> in_bounds((#[trigger] self.registry@[j]).dir,
                        DIR_SCALE as int),
                same_states(*old(self), *self),
                same_scorekeeping(*old(self), *self),
                same_timers(*old(self), *self),
                self.rng == old(self).rng,
                self.score == old(self).score,
                self.high_scores == old(self).high_scores,
            decreases len - i,
        {
            proof {
                assert(self.registry@[i as int] == old(self).registry@[i as int]);
                assert(entity_in_bounds(old(self).registry@[i as int]));
                assert(in_bounds(old(self).registry@[i as int].pos, 1_300_000));
            }
            let e = *self.registry.get(i);
            if matches!(e.kind, EntityKind::Enemy) {
                let dx = move_delta(e.dir.x, ENEMY_SPEED, dt);
                let dy = move_delta(e.dir.y, ENEMY_SPEED, dt);
                let moved = Entity { pos: Vec2 { x: e.pos.x + dx, y: e.pos.y + dy }, ..e };
                self.registry.set_at(i, moved);
            }
            i = i + 1;
        }
        proof {
            assert forall|j: int|
                0 <= j < old(self).registry@.len() implies self.registry@[j].kind == old(
                self,
            ).registry@[j].kind by {}
            lemma_count_kinds_eq(old(self).registry@, self.registry@, EntityKind::Player);
        }
    }

    /// Clamps the player's position into the window. Without a live player
    /// this is a no-op.
    pub fn confine_player_movement(&mut self, w: i64, h: i64)
        requires
            old(self).registry.wf(),
            0 <= w <= MAX_EXTENT,
            0 <= h <= MAX_EXTENT,
        ensures
            final(self).registry.wf(),
            final(self).registry@.len() == old(self).registry@.len(),
            forall|j: int|
                0 <= j < old(self).registry@.len() ==> final(self).registry@[j]
                    == spec_confined_entity(
                    old(self).registry@[j],
                    EntityKind::Player,
                    w as int,
                    h as int,
                    PLAYER_SIZE as int,
                ),
            forall|j: int|
                0 <= j < final(self).registry@.len() && (#[trigger] final(self).registry@[j]).kind
                    == EntityKind::Player ==> in_bounds(
                    final(self).registry@[j].pos,
                    MAX_EXTENT as int,
                ),
            same_states(*old(self), *final(self)),
            same_scorekeeping(*old(self), *final(self)),
            same_timers(*old(self), *final(self)),
            final(self).rng == old(self).rng,
    {
        let pi = match self.registry.find_player() {
            Some(i) => i,
            None => {
                return ;
            },
        };
        proof {
            assert(entity_in_bounds(old(self).registry@[pi as int]));
        }
        let e = *self.registry.get(pi);
        let mut x = e.pos.x;
        let mut y = e.pos.y;
        confine_actor_axis(&mut x, w, PLAYER_SIZE);
        confine_actor_axis(&mut y, h, PLAYER_SIZE);
        let confined = Entity { pos: Vec2 { x, y }, ..e };
        self.registry.set_at(pi, confined);
        proof {
            assert forall|j: int|
                0 <= j < old(self).registry@.len() implies self.registry@[j].kind == old(
                self,
            ).registry@[j].kind by {}
            lemma_count_kinds_eq(old(self).registry@, self.registry@, EntityKind::Player);
        }
    }

    /// Clamps every enemy's position into the window.
    pub fn confine_enemy_movement(&mut self, w: i64, h: i64)
        requires
            old(self).registry.wf(),
            0 <= w <= MAX_EXTENT,
            0 <= h <= MAX_EXTENT,
        ensures
            final(self).registry.wf(),
            final(self).registry@.len() == old(self).registry@.len(),
            forall|j: int|
                0 <= j < old(self).registry@.len() ==> final(self).registry@[j]
                    == spec_confined_entity(
                    old(self).registry@[j],
                    EntityKind::Enemy,
                    w as int,
                    h as int,
                    ENEMY_SIZE as int,
                ),
            forall|j: int|
                0 <= j < final(self).registry@.len() && (#[trigger] final(self).registry@[j]).kind
                    == EntityKind::Enemy ==> in_bounds(
                    final(self).registry@[j].pos,
                    MAX_EXTENT as int,
                ),
            same_states(*old(self), *final(self)),
            same_scorekeeping(*old(self), *final(self)),
            same_timers(*old(self), *final(self)),
            final(self).rng == old(self).rng,
    {
        let len = self.registry.len();
        let mut i: usize = 0;
        while i < len
            invariant
                i <= len,
                len == self.registry@.len(),
                len == old(self).registry@.len(),
                0 <= w <= MAX_EXTENT,
                0 <= h <= MAX_EXTENT,
                old(self).registry.wf(),
                forall|j: int|
                    0 <= j < i ==> self.registry@[j] == spec_confined_entity(
                        old(self).registry@[j],
                        EntityKind::Enemy,
                        w as int,
                        h as int,
                        ENEMY_SIZE as int,
                    ),
                forall|j: int| i <= j < len ==> self.registry@[j] == old(self).registry@[j],
                forall|j: int| 0 <= j < len ==> entity_in_bounds(#[trigger] self.registry@[j]),
                forall|j: int|
                    0 <= j < i && (#[trigger] self.registry@[j]).kind == EntityKind::Enemy
                        ==> in_bounds(self.registry@[j].pos, MAX_EXTENT as int),
                same_states(*old(self), *self),
                same_scorekeeping(*old(self), *self),
                same_timers(*old(self), *self),
                self.rng == old(self).rng,
                self.score == old(self).score,
                self.high_scores == old(self).high_scores,
            decreases len - i,
        {
            proof {
                assert(entity_in_bounds(self.registry@[i as int]));
            }
            let e = *self.registry.get(i);
            if matches!(e.kind, EntityKind::Enemy) {
                let mut x = e.pos.x;
                let mut y = e.pos.y;
                confine_actor_axis(&mut x, w, ENEMY_SIZE);
                confine_actor_axis(&mut y, h, ENEMY_SIZE);
                let confined = Entity { pos: Vec2 { x, y }, ..e };
                self.registry.set_at(i, confined);
            }
            i = i + 1;
        }
        proof {
            assert forall|j: int|
                0 <= j < old(self).registry@.len() implies self.registry@[j].kind == old(
                self,
            ).registry@[j].kind by {}
            lemma_count_kinds_eq(old(self).registry@, self.registry@, EntityKind::Player);
        }
    }

    /// Turns enemies away from the walls: for each enemy, each axis of its
    /// position standing at or beyond its bound has that axis of the
    /// direction negated. Each enemy that turned asks for one bounce sound,
    /// picked from the two variants by coin flip.
    pub fn update_enemy_direction(&mut self, w: i64, h: i64, events: &mut Vec<GameEvent>)
        requires
            old(self).registry.wf(),
            0 <= w <= MAX_EXTENT,
            0 <= h <= MAX_EXTENT,
        ensures
            final(self).registry.wf(),
            final(self).registry@.len() == old(self).registry@.len(),
            forall|j: int|
                0 <= j < old(self).registry@.len() ==> final(self).registry@[j]
                    == spec_bounced_entity(old(self).registry@[j], w as int, h as int),
            forall|j: int|
                0 <= j < old(self).registry@.len() ==> (#[trigger] final(self).registry@[j]).pos
                    == old(self).registry@[j].pos,
            final(events)@.len() == old(events)@.len() + count_bounced(
                old(self).registry@,
                w as int,
                h as int,
            ),
            forall|k: int| 0 <= k < old(events)@.len() ==> final(events)@[k] == old(events)@[k],
            forall|k: int|
                old(events)@.len() <= k < final(events)@.len() ==> is_bounce_sound(
                    #[trigger] final(events)@[k],
                ),
            final(self).rng.spec_state() == crate::rng::spec_rng_step_n(
                old(self).rng.spec_state(),
                count_bounced(old(self).registry@, w as int, h as int) as nat,
            ),
            same_states(*old(self), *final(self)),
            same_scorekeeping(*old(self), *final(self)),
            same_timers(*old(self), *final(self)),
    {
        let len = self.registry.len();
        let mut i: usize = 0;
        proof {
            assert(self.registry@.subrange(0, 0) =~= Seq::<Entity>::empty());
            reveal(Seq::filter);
        }
        while i < len
            invariant
                i <= len,
                len == self.registry@.len(),
                len == old(self).registry@.len(),
                0 <= w <= MAX_EXTENT,
                0 <= h <= MAX_EXTENT,
                old(self).registry.wf(),
                forall|j: int|
                    0 <= j < i ==> self.registry@[j] == spec_bounced_entity(
                        old(self).registry@[j],
                        w as int,
                        h as int,
                    ),
                forall|j: int| i <= j < len ==> self.registry@[j] == old(self).registry@[j],
                forall|j: int| 0 <= j < len ==> entity_in_bounds(#[trigger] self.registry@[j]),
                events@.len() == old(events)@.len() + count_bounced(
                    old(self).registry@.subrange(0, i as int),
                    w as int,
                    h as int,
                ),
                self.rng.spec_state() == crate::rng::spec_rng_step_n(
                    old(self).rng.spec_state(),
                    count_bounced(
                        old(self).registry@.subrange(0, i as int),
                        w as int,
                        h as int,
                    ) as nat,
                ),
                forall|k: int| 0 <= k < old(events)@.len() ==> events@[k] == old(events)@[k],
                forall|k: int|
                    old(events)@.len() <= k < events@.len() ==> is_bounce_sound(
                        #[trigger] events@[k],
                    ),
                same_states(*old(self), *self),
                same_scorekeeping(*old(self), *self),
                same_timers(*old(self), *self),
                self.score == old(self).score,
                self.high_scores == old(self).high_scores,
            decreases len - i,
        {
            proof {
                lemma_filter_step(old(self).registry@, spec_bounced(w as int, h as int), i as int);
                assert(entity_in_bounds(self.registry@[i as int]));
                assert(self.registry@[i as int] == old(self).registry@[i as int]);
            }
            let e = *self.registry.get(i);
            if matches!(e.kind, EntityKind::Enemy) {
                let half: i64 = ((ENEMY_SIZE as u64) / 2) as i64;
                let bounce_x: bool = e.pos.x <= half || e.pos.x >= w - half;
                let bounce_y: bool = e.pos.y <= half || e.pos.y >= h - half;
                if bounce_x || bounce_y {
                    let turned = Entity {
                        dir: Vec2 {
                            x: if bounce_x {
                                -e.dir.x
                            } else {
                                e.dir.x
                            },
                            y: if bounce_y {
                                -e.dir.y
                            } else {
                                e.dir.y
                            },
                        },
                        ..e
                    };
                    self.registry.set_at(i, turned);
                    let coin = self.rng.next_below(2);
                    if coin == 0 {
                        events.push(GameEvent::Sound(Sound::PluckA));
                    } else {
                        events.push(GameEvent::Sound(Sound::PluckB));
                    }
                }
            }
            i = i + 1;
        }
        proof {
            assert(old(self).registry@.subrange(0, len as int) =~= old(self).registry@);
            assert forall|j: int|
                0 <= j < old(self).registry@.len() implies self.registry@[j].kind == old(
                self,
            ).registry@[j].kind by {}
            lemma_count_kinds_eq(old(self).registry@, self.registry@, EntityKind::Player);
        }
    }

    /// Tests the player against every enemy: the first contact closer than
    /// the combined radii is fatal. The player is despawned, the explosion
    /// sound and the game-over signal carrying the current score are
    /// emitted, and no further enemies are checked.
    pub fn enemy_hit_player(&mut self, events: &mut Vec<GameEvent>) -> (died: bool)
        requires
            old(self).registry.wf(),
        ensures
            died == spec_fatal_hit(old(self).registry@),
            !died ==> final(self).registry == old(self).registry && final(events)@ == old(
                events,
            )@,
            died ==> final(self).registry@ == old(self).registry@.filter(
                not_kind(EntityKind::Player),
            ) && final(events)@ == old(events)@.push(GameEvent::Sound(Sound::Explosion)).push(
                GameEvent::GameOver(GameOver { score: old(self).score.value }),
            ),
            final(self).registry.wf(),
            final(self).registry.player_count() == if died {
                0int
            } else {
                old(self).registry.player_count()
            },
            same_states(*old(self), *final(self)),
            same_scorekeeping(*old(self), *final(self)),
            same_timers(*old(self), *final(self)),
            final(self).rng == old(self).rng,
    {
        let pi = match self.registry.find_player() {
            Some(i) => i,
            None => {
                return false;
            },
        };
        let ppos = self.registry.get(pi).pos;
        proof {
            assert(exists|i: int|
                0 <= i < old(self).registry@.len() && old(self).registry@[i].kind
                    == EntityKind::Player) by {
                assert(old(self).registry@[pi as int].kind == EntityKind::Player);
            }
            assert(player_index(old(self).registry@) == pi as int);
            assert(player_pos(old(self).registry@) == ppos);
        }
        let len = self.registry.len();
        let mut j: usize = 0;
        while j < len
            invariant
                j <= len,
                len == self.registry@.len(),
                *self == *old(self),
                events@ == old(events)@,
                old(self).registry.wf(),
                pi < len,
                old(self).registry@[pi as int].kind == EntityKind::Player,
                ppos == old(self).registry@[pi as int].pos,
                ppos == player_pos(old(self).registry@),
                count_kind(old(self).registry@, EntityKind::Player) == 1,
                forall|k: int|
                    0 <= k < j ==> !((#[trigger] old(self).registry@[k]).kind == EntityKind::Enemy
                        && spec_dist_sq(ppos, old(self).registry@[k].pos) < FATAL_DIST_SQ as int),
            decreases len - j,
        {
            proof {
                assert(entity_in_bounds(self.registry@[j as int]));
                assert(entity_in_bounds(self.registry@[pi as int]));
                assert(in_bounds(ppos, POS_LIMIT as int));
            }
            let e = *self.registry.get(j);
            if matches!(e.kind, EntityKind::Enemy) {
                let d = dist_sq(&ppos, &e.pos);
                if d < FATAL_DIST_SQ {
                    let score_now = self.score.value;
                    self.registry.clear_kind(EntityKind::Player);
                    events.push(GameEvent::Sound(Sound::Explosion));
                    events.push(GameEvent::GameOver(GameOver { score: score_now }));
                    return true;
                }
            }
            j = j + 1;
        }
        false
    }

    /// Tests the player against every star: each one closer than the
    /// combined radii is collected — despawned, worth one point, and worth
    /// one laser sound. All simultaneous collections are honored. Without a
    /// live player this is a no-op.
    pub fn player_hit_star(&mut self, events: &mut Vec<GameEvent>)
        requires
            old(self).registry.wf(),
        ensures
            final(self).registry.wf(),
            old(self).registry.player_count() == 0 ==> final(self).registry == old(self).registry
                && final(events)@ == old(events)@ && final(self).score == old(self).score,
            old(self).registry.player_count() == 1 ==> final(self).registry@ == old(
                self,
            ).registry@.filter(star_not_hit(player_pos(old(self).registry@))),
            old(self).registry.player_count() == 1 ==> final(self).score.value == sat_u32(
                old(self).score.value + count_stars_hit(
                    old(self).registry@,
                    player_pos(old(self).registry@),
                ),
            ),
            old(self).registry.player_count() == 1 ==> final(events)@.len() == old(events)@.len()
                + count_stars_hit(old(self).registry@, player_pos(old(self).registry@)),
            forall|k: int| 0 <= k < old(events)@.len() ==> final(events)@[k] == old(events)@[k],
            forall|k: int|
                old(events)@.len() <= k < final(events)@.len() ==> is_collect_sound(
                    #[trigger] final(events)@[k],
                ),
            final(self).score.value >= old(self).score.value,
            final(self).registry.player_count() == old(self).registry.player_count(),
            same_states(*old(self), *final(self)),
            final(self).high_scores.scores@ == old(self).high_scores.scores@,
            same_timers(*old(self), *final(self)),
            final(self).rng == old(self).rng,
    {
        let pi = match self.registry.find_player() {
            Some(i) => i,
            None => {
                return ;
            },
        };
        let ppos = self.registry.get(pi).pos;
        proof {
            assert(exists|i: int|
                0 <= i < old(self).registry@.len() && old(self).registry@[i].kind
                    == EntityKind::Player) by {
                assert(old(self).registry@[pi as int].kind == EntityKind::Player);
            }
            assert(player_index(old(self).registry@) == pi as int);
            assert(player_pos(old(self).registry@) == ppos);
            assert(old(self).registry@.subrange(0, 0) =~= Seq::<Entity>::empty());
            reveal(Seq::filter);
        }
        let len = self.registry.len();
        let mut out: Vec<Entity> = Vec::new();
        let ghost mut hits: int = 0;
        let mut i: usize = 0;
        while i < len
            invariant
                i <= len,
                len == self.registry@.len(),
                self.registry == old(self).registry,
                old(self).registry.wf(),
                pi < len,
                old(self).registry@[pi as int].kind == EntityKind::Player,
                ppos == old(self).registry@[pi as int].pos,
                same_states(*old(self), *self),
                self.high_scores == old(self).high_scores,
                same_timers(*old(self), *self),
                self.rng == old(self).rng,
                ppos == player_pos(old(self).registry@),
                count_kind(old(self).registry@, EntityKind::Player) == 1,
                out@ == old(self).registry@.subrange(0, i as int).filter(star_not_hit(ppos)),
                hits == count_stars_hit(old(self).registry@.subrange(0, i as int), ppos),
                0 <= hits <= i,
                self.score.value == sat_u32(old(self).score.value + hits),
                events@.len() == old(events)@.len() + hits,
                forall|k: int| 0 <= k < old(events)@.len() ==> events@[k] == old(events)@[k],
                forall|k: int|
                    old(events)@.len() <= k < events@.len() ==> is_collect_sound(
                        #[trigger] events@[k],
                    ),
                forall|j: int| 0 <= j < out@.len() ==> entity_in_bounds(#[trigger] out@[j]),
            decreases len - i,
        {
            proof {
                lemma_filter_step(old(self).registry@, star_not_hit(ppos), i as int);
                lemma_filter_step(old(self).registry@, star_hit(ppos), i as int);
                assert(entity_in_bounds(self.registry@[i as int]));
                assert(entity_in_bounds(self.registry@[pi as int]));
                assert(in_bounds(ppos, POS_LIMIT as int));
            }
            let e = *self.registry.get(i);
            let mut collected = false;
            if matches!(e.kind, EntityKind::Star) {
                let d = dist_sq(&ppos, &e.pos);
                if d < COLLECT_DIST_SQ {
                    collected = true;
                }
            }
            if collected {
                self.score.increment();
                events.push(GameEvent::Sound(Sound::Laser));
                proof {
                    hits = hits + 1;
                }
            } else {
                out.push(e);
            }
            i = i + 1;
        }
        proof {
            assert(old(self).registry@.subrange(0, len as int) =~= old(self).registry@);
        }
        self.registry.set_entities(out);
        proof {
            lemma_count_filter_le(
                old(self).registry@,
                star_not_hit(ppos),
                EntityKind::Player,
            );
            assert(count_kind(self.registry@, EntityKind::Player) == 1) by {
                assert(old(self).registry@[pi as int].kind == EntityKind::Player);
                assert((star_not_hit(ppos))(old(self).registry@[pi as int]));
                old(self).registry@.lemma_filter_contains(star_not_hit(ppos), pi as int);
                assert(self.registry@.contains(old(self).registry@[pi as int]));
                let w = choose|k: int|
                    0 <= k < self.registry@.len() && self.registry@[k] == old(
                        self,
                    ).registry@[pi as int];
                assert(self.registry@[w].kind == EntityKind::Player);
                self.registry@.lemma_filter_contains(is_kind(EntityKind::Player), w);
                assert(count_kind(self.registry@, EntityKind::Player) >= 1);
            }
        }
    }

    /// Advances the enemy spawn timer by the elapsed frame time.
    pub fn tick_enemy_spawn_timer(&mut self, dt: i64) -> (fired: bool)
        requires
            old(self).enemy_timer.wf(),
            0 <= dt <= MAX_TICK_MS,
        ensures
            final(self).enemy_timer.wf(),
            final(self).enemy_timer.spec_period() == old(self).enemy_timer.spec_period(),
            fired == (dt >= old(self).enemy_timer.spec_remaining()),
            final(self).enemy_timer.spec_just_fired() == fired,
            fired ==> final(self).enemy_timer.spec_remaining() == old(
                self,
            ).enemy_timer.spec_period(),
            !fired ==> final(self).enemy_timer.spec_remaining() == old(
                self,
            ).enemy_timer.spec_remaining() - dt,
            final(self).registry == old(self).registry,
            final(self).star_timer == old(self).star_timer,
            same_states(*old(self), *final(self)),
            same_scorekeeping(*old(self), *final(self)),
            final(self).score == old(self).score,
            final(self).high_scores == old(self).high_scores,
            final(self).rng == old(self).rng,
    {
        self.enemy_timer.tick(dt)
    }

    /// Advances the star spawn timer by the elapsed frame time.
    pub fn tick_star_spawn_timer(&mut self, dt: i64) -> (fired: bool)
        requires
            old(self).star_timer.wf(),
            0 <= dt <= MAX_TICK_MS,
        ensures
            final(self).star_timer.wf(),
            final(self).star_timer.spec_period() == old(self).star_timer.spec_period(),
            fired == (dt >= old(self).star_timer.spec_remaining()),
            final(self).star_timer.spec_just_fired() == fired,
            fired ==> final(self).star_timer.spec_remaining() == old(
                self,
            ).star_timer.spec_period(),
            !fired ==> final(self).star_timer.spec_remaining() == old(
                self,
            ).star_timer.spec_remaining() - dt,
            final(self).registry == old(self).registry,
            final(self).enemy_timer == old(self).enemy_timer,
            same_states(*old(self), *final(self)),
            same_scorekeeping(*old(self), *final(self)),
            final(self).score == old(self).score,
            final(self).high_scores == old(self).high_scores,
            final(self).rng == old(self).rng,
    {
        self.star_timer.tick(dt)
    }

    /// Creates the player at the window's center.
    pub fn spawn_player(&mut self, w: i64, h: i64)
        requires
            old(self).registry.wf(),
            old(self).registry.positions_within(MAX_EXTENT as int),
            old(self).registry.player_count() == 0,
            1 <= w <= MAX_EXTENT,
            1 <= h <= MAX_EXTENT,
        ensures
            final(self).registry@ == old(self).registry@.push(
                Entity {
                    kind: EntityKind::Player,
                    pos: Vec2 { x: (w as int / 2) as i64, y: (h as int / 2) as i64 },
                    dir: Vec2 { x: 0, y: 0 },
                },
            ),
            final(self).registry.wf(),
            final(self).registry.positions_within(MAX_EXTENT as int),
            final(self).registry.player_count() == 1,
            forall|k: EntityKind|
                k != EntityKind::Player ==> count_kind(final(self).registry@, k) == count_kind(
                    old(self).registry@,
                    k,
                ),
            same_states(*old(self), *final(self)),
            same_scorekeeping(*old(self), *final(self)),
            same_timers(*old(self), *final(self)),
            final(self).rng == old(self).rng,
    {
        let px: i64 = ((w as u64) / 2) as i64;
        let py: i64 = ((h as u64) / 2) as i64;
        self.registry.spawn(
            EntityKind::Player,
            Vec2 { x: px, y: py },
            Vec2 { x: 0, y: 0 },
        );
        proof {
            assert forall|j: int|
                0 <= j < self.registry@.len() implies in_bounds(
                (#[trigger] self.registry@[j]).pos,
                MAX_EXTENT as int,
            ) by {
                if j < old(self).registry@.len() {
                    assert(in_bounds(old(self).registry@[j].pos, MAX_EXTENT as int));
                }
            }
        }
    }

    /// Removes the player, if one is live.
    pub fn despawn_player(&mut self)
        requires
            old(self).registry.wf(),
        ensures
            final(self).registry@ == old(self).registry@.filter(not_kind(EntityKind::Player)),
            final(self).registry.wf(),
            final(self).registry.player_count() == 0,
            forall|k: EntityKind|
                k != EntityKind::Player ==> count_kind(final(self).registry@, k) == count_kind(
                    old(self).registry@,
                    k,
                ),
            same_states(*old(self), *final(self)),
            same_scorekeeping(*old(self), *final(self)),
            same_timers(*old(self), *final(self)),
            final(self).rng == old(self).rng,
    {
        self.registry.clear_kind(EntityKind::Player);
    }

    /// Removes every enemy.
    pub fn enemy_despawn(&mut self)
        requires
            old(self).registry.wf(),
        ensures
            final(self).registry@ == old(self).registry@.filter(not_kind(EntityKind::Enemy)),
            final(self).registry.wf(),
            count_kind(final(self).registry@, EntityKind::Enemy) == 0,
            forall|k: EntityKind|
                k != EntityKind::Enemy ==> count_kind(final(self).registry@, k) == count_kind(
                    old(self).registry@,
                    k,
                ),
            same_states(*old(self), *final(self)),
            same_scorekeeping(*old(self), *final(self)),
            same_timers(*old(self), *final(self)),
            final(self).rng == old(self).rng,
    {
        self.registry.clear_kind(EntityKind::Enemy);
    }

    /// Removes every star.
    pub fn despawn_stars(&mut self)
        requires
            old(self).registry.wf(),
        ensures
            final(self).registry@ == old(self).registry@.filter(not_kind(EntityKind::Star)),
            final(self).registry.wf(),
            count_kind(final(self).registry@, EntityKind::Star) == 0,
            forall|k: EntityKind|
                k != EntityKind::Star ==> count_kind(final(self).registry@, k) == count_kind(
                    old(self).registry@,
                    k,
                ),
            same_states(*old(self), *final(self)),
            same_scorekeeping(*old(self), *final(self)),
            same_timers(*old(self), *final(self)),
            final(self).rng == old(self).rng,
    {
        self.registry.clear_kind(EntityKind::Star);
    }

    /// Creates one star at a random position, confined into the window.
    pub fn star_spawn(&mut self, w: i64, h: i64)
        requires
            old(self).registry.wf(),
            old(self).registry.positions_within(MAX_EXTENT as int),
            1 <= w <= MAX_EXTENT,
            1 <= h <= MAX_EXTENT,
        ensures
            final(self).rng.spec_state() == spec_star_rng(old(self).rng.spec_state()),
            final(self).registry@ == old(self).registry@.push(
                spec_star_entity(old(self).rng.spec_state(), w as int, h as int),
            ),
            final(self).registry.wf(),
            final(self).registry.positions_within(MAX_EXTENT as int),
            count_kind(final(self).registry@, EntityKind::Star) == count_kind(
                old(self).registry@,
                EntityKind::Star,
            ) + 1,
            forall|k: EntityKind|
                k != EntityKind::Star ==> count_kind(final(self).registry@, k) == count_kind(
                    old(self).registry@,
                    k,
                ),
            same_states(*old(self), *final(self)),
            same_scorekeeping(*old(self), *final(self)),
            same_timers(*old(self), *final(self)),
    {
        let rx = self.rng.next_below(w as u64);
        let ry = self.rng.next_below(h as u64);
        let mut x: i64 = rx as i64;
        let mut y: i64 = ry as i64;
        confine_actor_axis(&mut x, w, STAR_SIZE);
        confine_actor_axis(&mut y, h, STAR_SIZE);
        self.registry.spawn(
            EntityKind::Star,
            Vec2 { x, y },
            Vec2 { x: 0, y: 0 },
        );
        proof {
            assert forall|j: int|
                0 <= j < self.registry@.len() implies in_bounds(
                (#[trigger] self.registry@[j]).pos,
                MAX_EXTENT as int,
            ) by {
                if j < old(self).registry@.len() {
                    assert(in_bounds(old(self).registry@[j].pos, MAX_EXTENT as int));
                }
            }
        }
    }

    /// Creates one enemy at a random position at least the avoidance
    /// distance away from the player, drawing up to the retry budget of
    /// candidates; if the budget runs out, the spawn is skipped. Its
    /// direction is a random first-quadrant unit vector. Without a live
    /// player this is a no-op.
    pub fn enemy_spawn(&mut self, w: i64, h: i64)
        requires
            old(self).registry.wf(),
            old(self).registry.positions_within(MAX_EXTENT as int),
            1 <= w <= MAX_EXTENT,
            1 <= h <= MAX_EXTENT,
        ensures
            final(self).registry.wf(),
            final(self).registry.positions_within(MAX_EXTENT as int),
            old(self).registry.player_count() == 0 ==> *final(self) == *old(self),
            old(self).registry.player_count() == 1 ==> (final(self).registry == old(self).registry
                || exists|pos: Vec2, dir: Vec2|
                #![trigger spec_dist_sq(player_pos(old(self).registry@), pos), in_bounds(dir, DIR_SCALE as int)]
                final(self).registry@ == old(self).registry@.push(
                    Entity { kind: EntityKind::Enemy, pos, dir },
                ) && 0 <= pos.x < w && 0 <= pos.y < h && spec_dist_sq(
                    player_pos(old(self).registry@),
                    pos,
                ) >= ENEMY_AVOID_DIST_SQ as int && in_bounds(dir, DIR_SCALE as int)),
            old(self).registry.player_count() == 1 ==> final(self).registry@ == old(
                self,
            ).registry@ + spec_enemy_attempt(
                old(self).rng.spec_state(),
                player_pos(old(self).registry@),
                w as int,
                h as int,
            ).1 && final(self).rng.spec_state() == spec_enemy_attempt(
                old(self).rng.spec_state(),
                player_pos(old(self).registry@),
                w as int,
                h as int,
            ).0,
            count_kind(final(self).registry@, EntityKind::Player) == count_kind(
                old(self).registry@,
                EntityKind::Player,
            ),
            count_kind(final(self).registry@, EntityKind::Star) == count_kind(
                old(self).registry@,
                EntityKind::Star,
            ),
            count_kind(old(self).registry@, EntityKind::Enemy) <= count_kind(
                final(self).registry@,
                EntityKind::Enemy,
            ) <= count_kind(old(self).registry@, EntityKind::Enemy) + 1,
            final(self).registry@.len() >= old(self).registry@.len(),
            forall|j: int|
                0 <= j < old(self).registry@.len() ==> final(self).registry@[j] == old(
                    self,
                ).registry@[j],
            same_states(*old(self), *final(self)),
            same_scorekeeping(*old(self), *final(self)),
            same_timers(*old(self), *final(self)),
    {
        let pi = match self.registry.find_player() {
            Some(i) => i,
            None => {
                return ;
            },
        };
        proof {
            assert(exists|i: int|
                0 <= i < old(self).registry@.len() && old(self).registry@[i].kind
                    == EntityKind::Player) by {
                assert(old(self).registry@[pi as int].kind == EntityKind::Player);
            }
            assert(player_index(old(self).registry@) == pi as int);
            assert(entity_in_bounds(old(self).registry@[pi as int]));
        }
        let ppos = self.registry.get(pi).pos;
        let ghost placed = spec_place_enemy(
            old(self).rng.spec_state(),
            ppos,
            w as int,
            h as int,
        );
        let rx = self.rng.next_below(w as u64);
        let ry = self.rng.next_below(h as u64);
        let mut cand = Vec2 { x: rx as i64, y: ry as i64 };
        proof {
            assert(spec_candidate(old(self).rng.spec_state(), w as int, h as int) == (
                self.rng.spec_state(),
                cand,
            ));
        }
        let mut far: bool = dist_sq(&ppos, &cand) >= ENEMY_AVOID_DIST_SQ;
        let mut fail_safe: u32 = SPAWN_ATTEMPTS;
        while !far && fail_safe > 0
            invariant
                *self == (GameSession { rng: self.rng, ..*old(self) }),
                old(self).registry.wf(),
                pi < self.registry@.len(),
                old(self).registry@[pi as int].kind == EntityKind::Player,
                ppos == old(self).registry@[pi as int].pos,
                in_bounds(ppos, POS_LIMIT as int),
                1 <= w <= MAX_EXTENT,
                1 <= h <= MAX_EXTENT,
                0 <= cand.x < w,
                0 <= cand.y < h,
                far == (spec_dist_sq(ppos, cand) >= ENEMY_AVOID_DIST_SQ as int),
                fail_safe <= SPAWN_ATTEMPTS,
                placed == spec_place_enemy(
                    old(self).rng.spec_state(),
                    ppos,
                    w as int,
                    h as int,
                ),
                placed == spec_place_cont(
                    self.rng.spec_state(),
                    cand,
                    ppos,
                    w as int,
                    h as int,
                    fail_safe as nat,
                ),
            decreases fail_safe,
        {
            let ghost rng_before = self.rng.spec_state();
            let nx = self.rng.next_below(w as u64);
            let ny = self.rng.next_below(h as u64);
            cand = Vec2 { x: nx as i64, y: ny as i64 };
            proof {
                assert(spec_candidate(rng_before, w as int, h as int) == (
                    self.rng.spec_state(),
                    cand,
                ));
            }
            far = dist_sq(&ppos, &cand) >= ENEMY_AVOID_DIST_SQ;
            fail_safe = fail_safe - 1;
        }
        proof {
            assert(placed == (self.rng.spec_state(), cand, fail_safe as nat));
        }
        if fail_safe > 0 {
            let ghost dir_start = self.rng.spec_state();
            let mut dx = self.rng.next_below(DIR_SCALE as u64) as i64;
            let dy = self.rng.next_below(DIR_SCALE as u64) as i64;
            if dx == 0 && dy == 0 {
                // A doubly zero draw has no direction to normalize; nudge it
                // onto the horizontal axis, as close to zero as it was drawn.
                dx = 1;
            }
            let dir = normalize_dir(dx, dy);
            proof {
                assert(spec_enemy_dir(dir_start) == (self.rng.spec_state(), dir));
            }
            self.registry.spawn(EntityKind::Enemy, cand, dir);
            proof {
                assert(old(self).registry@.push(Entity { kind: EntityKind::Enemy, pos: cand, dir })
                    =~= old(self).registry@ + seq![
                    Entity { kind: EntityKind::Enemy, pos: cand, dir },
                ]);
                assert(player_pos(old(self).registry@) == ppos);
                assert(spec_dist_sq(player_pos(old(self).registry@), cand)
                    >= ENEMY_AVOID_DIST_SQ as int && in_bounds(dir, DIR_SCALE as int));
                assert forall|j: int|
                    0 <= j < self.registry@.len() implies in_bounds(
                    (#[trigger] self.registry@[j]).pos,
                    MAX_EXTENT as int,
                ) by {
                    if j < old(self).registry@.len() {
                        assert(in_bounds(old(self).registry@[j].pos, MAX_EXTENT as int));
                    }
                }
            }
        } else {
            proof {
                assert(player_pos(old(self).registry@) == ppos);
                assert(old(self).registry@ + spec_enemy_attempt(
                    old(self).rng.spec_state(),
                    ppos,
                    w as int,
                    h as int,
                ).1 =~= old(self).registry@);
            }
        }
    }

    /// Creates the initial batch of enemies, one placement attempt each.
    #[verifier::rlimit(60)]
    pub fn spawn_enemies(&mut self, w: i64, h: i64)
        requires
            old(self).registry.wf(),
            old(self).registry.positions_within(MAX_EXTENT as int),
            1 <= w <= MAX_EXTENT,
            1 <= h <= MAX_EXTENT,
        ensures
            final(self).registry.wf(),
            final(self).registry.positions_within(MAX_EXTENT as int),
            count_kind(final(self).registry@, EntityKind::Player) == count_kind(
                old(self).registry@,
                EntityKind::Player,
            ),
            count_kind(final(self).registry@, EntityKind::Star) == count_kind(
                old(self).registry@,
                EntityKind::Star,
            ),
            count_kind(old(self).registry@, EntityKind::Enemy) <= count_kind(
                final(self).registry@,
                EntityKind::Enemy,
            ) <= count_kind(old(self).registry@, EntityKind::Enemy) + NUM_OF_ENEMIES,
            forall|j: int|
                0 <= j < old(self).registry@.len() ==> final(self).registry@[j] == old(
                    self,
                ).registry@[j],
            forall|j: int|
                old(self).registry@.len() <= j < final(self).registry@.len() ==> (
                #[trigger] final(self).registry@[j]).kind == EntityKind::Enemy,
            old(self).registry.player_count() == 1 ==> final(self).registry@ == old(
                self,
            ).registry@ + spec_enemies_fold(
                old(self).rng.spec_state(),
                player_pos(old(self).registry@),
                w as int,
                h as int,
                NUM_OF_ENEMIES as nat,
            ).1 && final(self).rng.spec_state() == spec_enemies_fold(
                old(self).rng.spec_state(),
                player_pos(old(self).registry@),
                w as int,
                h as int,
                NUM_OF_ENEMIES as nat,
            ).0,
            old(self).registry.player_count() == 0 ==> *final(self) == *old(self),
            same_states(*old(self), *final(self)),
            same_scorekeeping(*old(self), *final(self)),
            same_timers(*old(self), *final(self)),
    {
        let ghost g0 = self.rng.spec_state();
        let ghost old_len = self.registry@.len() as int;
        let ghost ppos0 = if old(self).registry.player_count() == 1 {
            player_pos(old(self).registry@)
        } else {
            Vec2 { x: 0, y: 0 }
        };
        let mut n: usize = 0;
        proof {
            assert(self.registry@.subrange(old_len, old_len) =~= Seq::<Entity>::empty());
        }
        while n < NUM_OF_ENEMIES
            invariant
                n <= NUM_OF_ENEMIES,
                1 <= w <= MAX_EXTENT,
                1 <= h <= MAX_EXTENT,
                self.registry.wf(),
                self.registry.positions_within(MAX_EXTENT as int),
                g0 == old(self).rng.spec_state(),
                old_len == old(self).registry@.len(),
                ppos0 == (if old(self).registry.player_count() == 1 {
                    player_pos(old(self).registry@)
                } else {
                    Vec2 { x: 0, y: 0 }
                }),
                old(self).registry.player_count() == 0 ==> *self == *old(self),
                old(self).registry.player_count() == 1 ==> count_kind(
                    self.registry@,
                    EntityKind::Player,
                ) == 1 && player_pos(self.registry@) == ppos0,
                old(self).registry.player_count() == 1 ==> spec_enemies_fold(
                    g0,
                    ppos0,
                    w as int,
                    h as int,
                    NUM_OF_ENEMIES as nat,
                ).1 == self.registry@.subrange(old_len, self.registry@.len() as int)
                    + spec_enemies_fold(
                    self.rng.spec_state(),
                    ppos0,
                    w as int,
                    h as int,
                    (NUM_OF_ENEMIES - n) as nat,
                ).1,
                old(self).registry.player_count() == 1 ==> spec_enemies_fold(
                    g0,
                    ppos0,
                    w as int,
                    h as int,
                    NUM_OF_ENEMIES as nat,
                ).0 == spec_enemies_fold(
                    self.rng.spec_state(),
                    ppos0,
                    w as int,
                    h as int,
                    (NUM_OF_ENEMIES - n) as nat,
                ).0,
                count_kind(self.registry@, EntityKind::Player) == count_kind(
                    old(self).registry@,
                    EntityKind::Player,
                ),
                count_kind(self.registry@, EntityKind::Star) == count_kind(
                    old(self).registry@,
                    EntityKind::Star,
                ),
                count_kind(old(self).registry@, EntityKind::Enemy) <= count_kind(
                    self.registry@,
                    EntityKind::Enemy,
                ) <= count_kind(old(self).registry@, EntityKind::Enemy) + n,
                self.registry@.len() >= old(self).registry@.len(),
                forall|j: int|
                    0 <= j < old(self).registry@.len() ==> self.registry@[j] == old(
                        self,
                    ).registry@[j],
                forall|j: int|
                    old(self).registry@.len() <= j < self.registry@.len() ==> (
                    #[trigger] self.registry@[j]).kind == EntityKind::Enemy,
                same_states(*old(self), *self),
                same_scorekeeping(*old(self), *self),
                same_timers(*old(self), *self),
            decreases NUM_OF_ENEMIES - n,
        {
            let ghost g_before = self.rng.spec_state();
            let ghost before = self.registry@;
            self.enemy_spawn(w, h);
            proof {
                if old(self).registry.player_count() == 1 {
                    let a = spec_enemy_attempt(g_before, ppos0, w as int, h as int);
                    assert(self.registry@ == before + a.1);
                    assert(forall|i: int|
                        0 <= i < a.1.len() ==> (#[trigger] a.1[i]).kind != EntityKind::Player);
                    lemma_player_pos_append(before, a.1);
                    assert(self.registry@.subrange(old_len, self.registry@.len() as int)
                        =~= before.subrange(old_len, before.len() as int) + a.1);
                    assert(before.subrange(old_len, before.len() as int) + (a.1
                        + spec_enemies_fold(
                        self.rng.spec_state(),
                        ppos0,
                        w as int,
                        h as int,
                        (NUM_OF_ENEMIES - n - 1) as nat,
                    ).1) =~= self.registry@.subrange(old_len, self.registry@.len() as int)
                        + spec_enemies_fold(
                        self.rng.spec_state(),
                        ppos0,
                        w as int,
                        h as int,
                        (NUM_OF_ENEMIES - n - 1) as nat,
                    ).1);
                }
            }
            n = n + 1;
        }
        proof {
            if old(self).registry.player_count() == 1 {
                assert(self.registry@.subrange(old_len, self.registry@.len() as int)
                    + spec_enemies_fold(
                    self.rng.spec_state(),
                    ppos0,
                    w as int,
                    h as int,
                    0,
                ).1 =~= self.registry@.subrange(old_len, self.registry@.len() as int));
                assert(self.registry@ =~= old(self).registry@ + spec_enemies_fold(
                    g0,
                    ppos0,
                    w as int,
                    h as int,
                    NUM_OF_ENEMIES as nat,
                ).1);
            }
        }
    }

    /// Creates one enemy when the enemy spawn timer fired this tick.
    pub fn spawn_enemies_over_time(&mut self, w: i64, h: i64)
        requires
            old(self).registry.wf(),
            old(self).registry.positions_within(MAX_EXTENT as int),
            1 <= w <= MAX_EXTENT,
            1 <= h <= MAX_EXTENT,
        ensures
            final(self).registry.wf(),
            final(self).registry.positions_within(MAX_EXTENT as int),
            !old(self).enemy_timer.spec_just_fired() ==> *final(self) == *old(self),
            old(self).enemy_timer.spec_just_fired() && old(self).registry.player_count() == 1
                ==> final(self).registry@ == old(self).registry@ + spec_enemy_attempt(
                old(self).rng.spec_state(),
                player_pos(old(self).registry@),
                w as int,
                h as int,
            ).1 && final(self).rng.spec_state() == spec_enemy_attempt(
                old(self).rng.spec_state(),
                player_pos(old(self).registry@),
                w as int,
                h as int,
            ).0,
            old(self).enemy_timer.spec_just_fired() && old(self).registry.player_count() == 0
                ==> *final(self) == *old(self),
            count_kind(final(self).registry@, EntityKind::Player) == count_kind(
                old(self).registry@,
                EntityKind::Player,
            ),
            count_kind(final(self).registry@, EntityKind::Star) == count_kind(
                old(self).registry@,
                EntityKind::Star,
            ),
            count_kind(old(self).registry@, EntityKind::Enemy) <= count_kind(
                final(self).registry@,
                EntityKind::Enemy,
            ) <= count_kind(old(self).registry@, EntityKind::Enemy) + 1,
            forall|j: int|
                0 <= j < old(self).registry@.len() ==> final(self).registry@[j] == old(
                    self,
                ).registry@[j],
            final(self).registry@.len() >= old(self).registry@.len(),
            forall|j: int|
                old(self).registry@.len() <= j < final(self).registry@.len() ==> (
                #[trigger] final(self).registry@[j]).kind == EntityKind::Enemy,
            same_states(*old(self), *final(self)),
            same_scorekeeping(*old(self), *final(self)),
            same_timers(*old(self), *final(self)),
    {
        if self.enemy_timer.finished() {
            self.enemy_spawn(w, h);
            proof {
                if old(self).registry.player_count() == 1
                    && self.registry@.len() > old(self).registry@.len() {
                    assert(exists|pos: Vec2, dir: Vec2|
                        #![trigger spec_dist_sq(player_pos(old(self).registry@), pos), in_bounds(dir, DIR_SCALE as int)]
                        self.registry@ == old(self).registry@.push(
                            Entity { kind: EntityKind::Enemy, pos, dir },
                        ) && 0 <= pos.x < w && 0 <= pos.y < h && spec_dist_sq(
                            player_pos(old(self).registry@),
                            pos,
                        ) >= ENEMY_AVOID_DIST_SQ as int && in_bounds(dir, DIR_SCALE as int));
                }
            }
        }
    }

    /// Creates the initial batch of stars.
    #[verifier::rlimit(60)]
    pub fn spawn_stars(&mut self, w: i64, h: i64)
        requires
            old(self).registry.wf(),
            old(self).registry.positions_within(MAX_EXTENT as int),
            1 <= w <= MAX_EXTENT,
            1 <= h <= MAX_EXTENT,
        ensures
            final(self).registry.wf(),
            final(self).registry.positions_within(MAX_EXTENT as int),
            final(self).registry@ == old(self).registry@ + spec_stars_fold(
                old(self).rng.spec_state(),
                w as int,
                h as int,
                NUM_OF_STARS as nat,
            ).1,
            final(self).rng.spec_state() == spec_stars_fold(
                old(self).rng.spec_state(),
                w as int,
                h as int,
                NUM_OF_STARS as nat,
            ).0,
            count_kind(final(self).registry@, EntityKind::Player) == count_kind(
                old(self).registry@,
                EntityKind::Player,
            ),
            count_kind(final(self).registry@, EntityKind::Enemy) == count_kind(
                old(self).registry@,
                EntityKind::Enemy,
            ),
            count_kind(final(self).registry@, EntityKind::Star) == count_kind(
                old(self).registry@,
                EntityKind::Star,
            ) + NUM_OF_STARS,
            forall|j: int|
                0 <= j < old(self).registry@.len() ==> final(self).registry@[j] == old(
                    self,
                ).registry@[j],
            forall|j: int|
                old(self).registry@.len() <= j < final(self).registry@.len() ==> (
                #[trigger] final(self).registry@[j]).kind == EntityKind::Star,
            same_states(*old(self), *final(self)),
            same_scorekeeping(*old(self), *final(self)),
            same_timers(*old(self), *final(self)),
    {
        let ghost g0 = self.rng.spec_state();
        let ghost old_len = self.registry@.len() as int;
        let mut n: usize = 0;
        proof {
            assert(self.registry@.subrange(old_len, old_len) =~= Seq::<Entity>::empty());
        }
        while n < NUM_OF_STARS
            invariant
                n <= NUM_OF_STARS,
                1 <= w <= MAX_EXTENT,
                1 <= h <= MAX_EXTENT,
                self.registry.wf(),
                self.registry.positions_within(MAX_EXTENT as int),
                g0 == old(self).rng.spec_state(),
                old_len == old(self).registry@.len(),
                self.registry@.len() == old_len + n,
                spec_stars_fold(g0, w as int, h as int, NUM_OF_STARS as nat).1
                    == self.registry@.subrange(old_len, self.registry@.len() as int)
                    + spec_stars_fold(
                    self.rng.spec_state(),
                    w as int,
                    h as int,
                    (NUM_OF_STARS - n) as nat,
                ).1,
                spec_stars_fold(g0, w as int, h as int, NUM_OF_STARS as nat).0
                    == spec_stars_fold(
                    self.rng.spec_state(),
                    w as int,
                    h as int,
                    (NUM_OF_STARS - n) as nat,
                ).0,
                count_kind(self.registry@, EntityKind::Player) == count_kind(
                    old(self).registry@,
                    EntityKind::Player,
                ),
                count_kind(self.registry@, EntityKind::Enemy) == count_kind(
                    old(self).registry@,
                    EntityKind::Enemy,
                ),
                count_kind(self.registry@, EntityKind::Star) == count_kind(
                    old(self).registry@,
                    EntityKind::Star,
                ) + n,
                self.registry@.len() >= old(self).registry@.len(),
                forall|j: int|
                    0 <= j < old(self).registry@.len() ==> self.registry@[j] == old(
                        self,
                    ).registry@[j],
                forall|j: int|
                    old(self).registry@.len() <= j < self.registry@.len() ==> (
                    #[trigger] self.registry@[j]).kind == EntityKind::Star,
                same_states(*old(self), *self),
                same_scorekeeping(*old(self), *self),
                same_timers(*old(self), *self),
            decreases NUM_OF_STARS - n,
        {
            let ghost g_before = self.rng.spec_state();
            let ghost before = self.registry@;
            self.star_spawn(w, h);
            proof {
                assert(self.registry@ == before.push(
                    spec_star_entity(g_before, w as int, h as int),
                ));
                assert(self.registry@.subrange(old_len, self.registry@.len() as int)
                    =~= before.subrange(old_len, before.len() as int) + seq![
                    spec_star_entity(g_before, w as int, h as int),
                ]);
                assert(before.subrange(old_len, before.len() as int) + (seq![
                    spec_star_entity(g_before, w as int, h as int),
                ] + spec_stars_fold(
                    self.rng.spec_state(),
                    w as int,
                    h as int,
                    (NUM_OF_STARS - n - 1) as nat,
                ).1) =~= self.registry@.subrange(old_len, self.registry@.len() as int)
                    + spec_stars_fold(
                    self.rng.spec_state(),
                    w as int,
                    h as int,
                    (NUM_OF_STARS - n - 1) as nat,
                ).1);
            }
            n = n + 1;
        }
        proof {
            assert(spec_stars_fold(
                self.rng.spec_state(),
                w as int,
                h as int,
                0,
            ).1 =~= Seq::<Entity>::empty());
            assert(self.registry@.subrange(old_len, self.registry@.len() as int)
                + Seq::<Entity>::empty() =~= self.registry@.subrange(
                old_len,
                self.registry@.len() as int,
            ));
            assert(self.registry@ =~= old(self).registry@ + spec_stars_fold(
                g0,
                w as int,
                h as int,
                NUM_OF_STARS as nat,
            ).1);
        }
    }

    /// Creates one star when the star spawn timer fired this tick.
    pub fn spawn_stars_over_time(&mut self, w: i64, h: i64)
        requires
            old(self).registry.wf(),
            old(self).registry.positions_within(MAX_EXTENT as int),
            1 <= w <= MAX_EXTENT,
            1 <= h <= MAX_EXTENT,
        ensures
            final(self).registry.wf(),
            final(self).registry.positions_within(MAX_EXTENT as int),
            !old(self).star_timer.spec_just_fired() ==> *final(self) == *old(self),
            old(self).star_timer.spec_just_fired() ==> final(self).registry@ == old(
                self,
            ).registry@.push(spec_star_entity(old(self).rng.spec_state(), w as int, h as int))
                && final(self).rng.spec_state() == spec_star_rng(old(self).rng.spec_state()),
            count_kind(final(self).registry@, EntityKind::Player) == count_kind(
                old(self).registry@,
                EntityKind::Player,
            ),
            count_kind(final(self).registry@, EntityKind::Enemy) == count_kind(
                old(self).registry@,
                EntityKind::Enemy,
            ),
            count_kind(old(self).registry@, EntityKind::Star) <= count_kind(
                final(self).registry@,
                EntityKind::Star,
            ) <= count_kind(old(self).registry@, EntityKind::Star) + 1,
            old(self).star_timer.spec_just_fired() ==> count_kind(
                final(self).registry@,
                EntityKind::Star,
            ) == count_kind(old(self).registry@, EntityKind::Star) + 1,
            forall|j: int|
                0 <= j < old(self).registry@.len() ==> final(self).registry@[j] == old(
                    self,
                ).registry@[j],
            final(self).registry@.len() >= old(self).registry@.len(),
            forall|j: int|
                old(self).registry@.len() <= j < final(self).registry@.len() ==> (
                #[trigger] final(self).registry@[j]).kind == EntityKind::Star,
            same_states(*old(self), *final(self)),
            same_scorekeeping(*old(self), *final(self)),
            same_timers(*old(self), *final(self)),
    {
        if self.star_timer.finished() {
            self.star_spawn(w, h);
        }
    }

    /// Applies the buffered state-transition requests, at a tick boundary.
    /// Leaving a game despawns every entity and forces the simulation to
    /// run again; entering one resets the score, forces the simulation to
    /// run, and creates the player, the initial enemies and the initial
    /// stars. A pending pause request applies only inside a game.
    #[verifier::rlimit(60)]
    pub fn apply_pending_transitions(&mut self, w: i64, h: i64)
        requires
            old(self).inv(),
            1 <= w <= MAX_EXTENT,
            1 <= h <= MAX_EXTENT,
        ensures
            final(self).inv(),
            final(self).app_state == spec_boundary_app(*old(self)),
            final(self).sim_state == spec_boundary_sim(*old(self)),
            final(self).pending_app is None,
            final(self).pending_sim is None,
            final(self).high_scores.scores@ == old(self).high_scores.scores@,
            same_timers(*old(self), *final(self)),
            spec_entering_game(*old(self)) ==> final(self).score.value == 0
                && final(self).registry.player_count() == 1 && count_kind(
                final(self).registry@,
                EntityKind::Star,
            ) == NUM_OF_STARS && count_kind(final(self).registry@, EntityKind::Enemy)
                <= NUM_OF_ENEMIES,
            !spec_entering_game(*old(self)) ==> final(self).score.value == old(self).score.value
                && final(self).rng == old(self).rng,
            spec_game_boundary_crossed(*old(self)) && !spec_entering_game(*old(self))
                ==> final(self).registry@.len() == 0,
            !spec_game_boundary_crossed(*old(self)) ==> final(self).registry == old(self).registry,
            final(self).registry@ == spec_boundary_registry(*old(self), w as int, h as int),
            final(self).rng.spec_state() == spec_boundary_rng(*old(self), w as int, h as int),
            spec_entering_game(*old(self)) ==> final(self).registry@[0] == (Entity {
                kind: EntityKind::Player,
                pos: Vec2 { x: (w as int / 2) as i64, y: (h as int / 2) as i64 },
                dir: Vec2 { x: 0, y: 0 },
            }),
    {
        let pending = self.pending_app;
        self.pending_app = None;
        if let Some(next) = pending {
            if next != self.app_state {
                let ghost before = *self;
                if matches!(self.app_state, AppState::Game) {
                    self.despawn_player();
                    self.enemy_despawn();
                    self.despawn_stars();
                    self.sim_state = SimulationState::Running;
                    self.pending_sim = None;
                    proof {
                        let r0 = before.registry@;
                        let r1 = r0.filter(not_kind(EntityKind::Player));
                        let r2 = r1.filter(not_kind(EntityKind::Enemy));
                        let r3 = r2.filter(not_kind(EntityKind::Star));
                        assert(self.registry@ == r3);
                        assert forall|i: int| 0 <= i < r1.len() implies (not_kind(
                            EntityKind::Player,
                        ))(#[trigger] r1[i]) by {
                            r0.lemma_filter_pred(not_kind(EntityKind::Player), i);
                        }
                        lemma_filter_keeps(
                            r1,
                            not_kind(EntityKind::Enemy),
                            not_kind(EntityKind::Player),
                        );
                        assert forall|i: int| 0 <= i < r2.len() implies (not_kind(
                            EntityKind::Enemy,
                        ))(#[trigger] r2[i]) by {
                            r1.lemma_filter_pred(not_kind(EntityKind::Enemy), i);
                        }
                        lemma_filter_keeps(
                            r2,
                            not_kind(EntityKind::Star),
                            not_kind(EntityKind::Player),
                        );
                        lemma_filter_keeps(
                            r2,
                            not_kind(EntityKind::Star),
                            not_kind(EntityKind::Enemy),
                        );
                        assert(r3.len() == 0) by {
                            if r3.len() > 0 {
                                r2.lemma_filter_pred(not_kind(EntityKind::Star), 0);
                                assert((not_kind(EntityKind::Star))(r3[0]));
                                assert((not_kind(EntityKind::Enemy))(r3[0]));
                                assert((not_kind(EntityKind::Player))(r3[0]));
                            }
                        }
                    }
                }
                self.app_state = next;
                if matches!(next, AppState::Game) {
                    self.score.reset();
                    self.sim_state = SimulationState::Running;
                    self.pending_sim = None;
                    proof {
                        assert(self.registry@.len() == 0);
                        lemma_count_none(self.registry@, EntityKind::Player);
                        lemma_count_none(self.registry@, EntityKind::Enemy);
                        lemma_count_none(self.registry@, EntityKind::Star);
                    }
                    let ghost g_start = self.rng.spec_state();
                    let ghost player = Entity {
                        kind: EntityKind::Player,
                        pos: Vec2 { x: (w as int / 2) as i64, y: (h as int / 2) as i64 },
                        dir: Vec2 { x: 0, y: 0 },
                    };
                    let ghost empty_field = self.registry@;
                    self.spawn_player(w, h);
                    proof {
                        assert(self.registry@ =~= seq![player]);
                        assert(self.registry@[0].kind == EntityKind::Player);
                        assert(player_index(self.registry@) == 0) by {
                            let i = player_index(self.registry@);
                            assert(0 <= i < 1 && self.registry@[i].kind == EntityKind::Player);
                        }
                        assert(player_pos(self.registry@) == player.pos);
                        assert(self.rng.spec_state() == g_start);
                    }
                    let ghost en = spec_enemies_fold(
                        g_start,
                        player.pos,
                        w as int,
                        h as int,
                        NUM_OF_ENEMIES as nat,
                    );
                    self.spawn_enemies(w, h);
                    proof {
                        assert(self.registry@ == seq![player] + en.1);
                        assert(self.rng.spec_state() == en.0);
                    }
                    let ghost st = spec_stars_fold(
                        en.0,
                        w as int,
                        h as int,
                        NUM_OF_STARS as nat,
                    );
                    self.spawn_stars(w, h);
                    proof {
                        reveal(spec_initial_cast);
                        assert(self.registry@ == (seq![player] + en.1) + st.1);
                        assert(self.rng.spec_state() == st.0);
                        assert(self.registry@ =~= seq![player] + en.1 + st.1);
                        assert(self.registry@ == spec_initial_cast(
                            g_start,
                            w as int,
                            h as int,
                        ).1);
                        assert(self.rng.spec_state() == spec_initial_cast(
                            g_start,
                            w as int,
                            h as int,
                        ).0);
                        assert(self.registry@[0] == player);
                    }
                }
            }
        }
        let pending_sim = self.pending_sim;
        self.pending_sim = None;
        if let Some(t) = pending_sim {
            if matches!(self.app_state, AppState::Game) {
                self.sim_state = t;
            }
        }
    }

    /// One frame of the game. The buffered state-transition requests are
    /// applied first; the tick's inputs then queue requests for the next
    /// boundary; and, inside a running game, the simulation systems run in
    /// their fixed order: timers and periodic spawns, player and enemy
    /// movement, wall bounce, confinement, the fatal player-enemy check and
    /// — if the player survived — star collection. The returned events are
    /// the tick's requested side effects.
    #[verifier::rlimit(100)]
    pub fn tick(&mut self, input: &InputState, w: i64, h: i64, dt: i64) -> (events: Vec<
        GameEvent,
    >)
        requires
            old(self).inv(),
            1 <= w <= MAX_EXTENT,
            1 <= h <= MAX_EXTENT,
            0 <= dt <= MAX_TICK_MS,
        ensures
            final(self).inv(),
            final(self).app_state == spec_boundary_app(*old(self)),
            final(self).sim_state == spec_boundary_sim(*old(self)),
            has_game_over(events@) ==> final(self).pending_app == Some(AppState::GameOver),
            !has_game_over(events@) ==> final(self).pending_app == spec_requested_app(
                spec_boundary_app(*old(self)),
                *input,
            ),
            final(self).pending_sim == (if input.pause && spec_boundary_app(*old(self))
                == AppState::Game {
                Some(spec_toggled(spec_boundary_sim(*old(self))))
            } else {
                None
            }),
            input.quit ==> events@.len() >= 1 && events@[0] == GameEvent::ExitRequested,
            !input.quit ==> forall|k: int| 0 <= k < events@.len() ==> !is_exit(#[trigger] events@[k]),
            forall|k: int| 1 <= k < events@.len() ==> !is_exit(#[trigger] events@[k]),
            final(self).score.value == sat_u32(
                (if spec_entering_game(*old(self)) {
                    0int
                } else {
                    old(self).score.value as int
                }) + count_collect_sounds(events@),
            ),
            has_game_over(events@) ==> final(self).high_scores.scores@.len() == old(
                self,
            ).high_scores.scores@.len() + 1 && final(self).high_scores.scores@.last().1 == final(self).score.value,
            has_game_over(events@) ==> forall|i: int|
                0 <= i < old(self).high_scores.scores@.len() ==> final(self).high_scores.scores@[i]
                    == old(self).high_scores.scores@[i],
            !has_game_over(events@) ==> final(self).high_scores.scores@ == old(
                self,
            ).high_scores.scores@,
            has_game_over(events@) ==> final(self).registry.player_count() == 0,
            !(spec_boundary_app(*old(self)) == AppState::Game && spec_boundary_sim(*old(self))
                == SimulationState::Running) ==> same_timers(*old(self), *final(self)) && final(self).score.value == old(self).score.value && !has_game_over(events@) && events@.len() == (
            if input.quit {
                1int
            } else {
                0int
            }),
            !spec_game_boundary_crossed(*old(self)) && !(spec_boundary_app(*old(self))
                == AppState::Game && spec_boundary_sim(*old(self)) == SimulationState::Running)
                ==> final(self).registry == old(self).registry,
            spec_boundary_app(*old(self)) == AppState::Game && spec_boundary_sim(*old(self))
                == SimulationState::Running && dt >= old(self).enemy_timer.spec_remaining()
                ==> final(self).enemy_timer.spec_remaining() == ENEMY_SPAWN_PERIOD_MS,
            spec_boundary_app(*old(self)) == AppState::Game && spec_boundary_sim(*old(self))
                == SimulationState::Running && dt < old(self).enemy_timer.spec_remaining()
                ==> final(self).enemy_timer.spec_remaining() == old(
                self,
            ).enemy_timer.spec_remaining() - dt,
            spec_boundary_app(*old(self)) == AppState::Game && spec_boundary_sim(*old(self))
                == SimulationState::Running && dt >= old(self).star_timer.spec_remaining()
                ==> final(self).star_timer.spec_remaining() == STAR_SPAWN_PERIOD_MS,
            spec_boundary_app(*old(self)) == AppState::Game && spec_boundary_sim(*old(self))
                == SimulationState::Running && dt < old(self).star_timer.spec_remaining()
                ==> final(self).star_timer.spec_remaining() == old(
                self,
            ).star_timer.spec_remaining() - dt,
            spec_boundary_app(*old(self)) == AppState::Game && spec_boundary_sim(*old(self))
                == SimulationState::Running ==> has_game_over(events@) == spec_fatal_hit(
                spec_run_field(*old(self), *input, w as int, h as int, dt as int),
            ),
            spec_boundary_app(*old(self)) == AppState::Game && spec_boundary_sim(*old(self))
                == SimulationState::Running && has_game_over(events@) ==> final(self).registry@
                == spec_run_field(*old(self), *input, w as int, h as int, dt as int).filter(
                not_kind(EntityKind::Player),
            ),
            spec_boundary_app(*old(self)) == AppState::Game && spec_boundary_sim(*old(self))
                == SimulationState::Running && !has_game_over(events@) && count_kind(
                spec_run_field(*old(self), *input, w as int, h as int, dt as int),
                EntityKind::Player,
            ) == 1 ==> final(self).registry@ == spec_run_field(
                *old(self),
                *input,
                w as int,
                h as int,
                dt as int,
            ).filter(
                star_not_hit(
                    player_pos(
                        spec_run_field(*old(self), *input, w as int, h as int, dt as int),
                    ),
                ),
            ) && count_collect_sounds(events@) == count_stars_hit(
                spec_run_field(*old(self), *input, w as int, h as int, dt as int),
                player_pos(spec_run_field(*old(self), *input, w as int, h as int, dt as int)),
            ),
            spec_boundary_app(*old(self)) == AppState::Game && spec_boundary_sim(*old(self))
                == SimulationState::Running && !has_game_over(events@) && count_kind(
                spec_run_field(*old(self), *input, w as int, h as int, dt as int),
                EntityKind::Player,
            ) == 0 ==> final(self).registry@ == spec_run_field(
                *old(self),
                *input,
                w as int,
                h as int,
                dt as int,
            ),
            spec_boundary_app(*old(self)) == AppState::Game && spec_boundary_sim(*old(self))
                == SimulationState::Running ==> count_bounce_sounds(events@) == count_bounced(
                spec_run_moved(*old(self), *input, w as int, h as int, dt as int),
                w as int,
                h as int,
            ),
            !has_game_over(events@) && spec_entering_game(*old(self)) ==> final(self).registry.player_count() == 1,
            !has_game_over(events@) && !spec_game_boundary_crossed(*old(self)) ==> final(self).registry.player_count() == old(self).registry.player_count(),
            spec_game_boundary_crossed(*old(self)) && !spec_entering_game(*old(self)) ==> final(self).registry.player_count() == 0,
    {
        self.apply_pending_transitions(w, h);
        let ghost s1 = *self;
        let mut events: Vec<GameEvent> = Vec::new();
        if input.quit {
            events.push(GameEvent::ExitRequested);
        }
        let ghost e0 = events@;
        proof {
            assert forall|k: int| 0 <= k < e0.len() implies !(collect_pred())(
                #[trigger] e0[k],
            ) && !is_game_over(e0[k]) && !(bounce_pred())(e0[k]) by {}
            lemma_filter_none(e0, collect_pred());
            lemma_filter_none(e0, bounce_pred());
        }
        if input.to_game {
            self.transition_to_game_state();
        }
        if input.to_main_menu {
            self.transition_to_main_menu_state();
        }
        if input.pause {
            self.toggle_simulation();
        }
        let run_now = matches!(self.app_state, AppState::Game) && matches!(
            self.sim_state,
            SimulationState::Running,
        );
        if !run_now {
            return events;
        }
        let ghost br = spec_boundary_registry(*old(self), w as int, h as int);
        let ghost bg = spec_boundary_rng(*old(self), w as int, h as int);
        proof {
            assert(self.registry@ == br);
            assert(self.rng.spec_state() == bg);
        }
        let _enemy_fired = self.tick_enemy_spawn_timer(dt);
        let _star_fired = self.tick_star_spawn_timer(dt);
        proof {
            assert(_enemy_fired == (dt >= old(self).enemy_timer.spec_remaining()));
            assert(_star_fired == (dt >= old(self).star_timer.spec_remaining()));
        }
        self.spawn_enemies_over_time(w, h);
        let ghost mid_r = self.registry@;
        let ghost mid_g = self.rng.spec_state();
        proof {
            if _enemy_fired && count_kind(br, EntityKind::Player) == 1 {
                assert(mid_r == br + spec_enemy_attempt(
                    bg,
                    player_pos(br),
                    w as int,
                    h as int,
                ).1);
                assert(mid_g == spec_enemy_attempt(bg, player_pos(br), w as int, h as int).0);
            } else {
                assert(mid_r == br && mid_g == bg);
            }
        }
        self.spawn_stars_over_time(w, h);
        let ghost s3 = *self;
        proof {
            if _star_fired {
                assert(s3.registry@ == mid_r.push(
                    spec_star_entity(mid_g, w as int, h as int),
                ));
                assert(s3.rng.spec_state() == spec_star_rng(mid_g));
            } else {
                assert(s3.registry@ == mid_r && s3.rng.spec_state() == mid_g);
            }
            reveal(spec_after_timed_spawns);
            assert(s3.registry@ == spec_after_timed_spawns(
                br,
                bg,
                _enemy_fired,
                _star_fired,
                w as int,
                h as int,
            ).0);
            assert(s3.registry.positions_within(1_200_000));
        }
        self.player_movement(input, dt);
        let ghost s4 = *self;
        self.enemy_movement(dt);
        let ghost s5 = *self;
        self.update_enemy_direction(w, h, &mut events);
        let ghost s6 = *self;
        let ghost e1 = events@;
        proof {
            assert forall|k: int| 0 <= k < e1.len() implies !(collect_pred())(
                #[trigger] e1[k],
            ) && !is_game_over(e1[k]) by {
                if k >= e0.len() {
                    assert(is_bounce_sound(e1[k]));
                }
            }
            lemma_filter_none(e1, collect_pred());
        }
        self.confine_enemy_movement(w, h);
        let ghost s7 = *self;
        self.confine_player_movement(w, h);
        let ghost s8 = *self;
        proof {
            lemma_pipeline_bounds(
                s3.registry@,
                s4.registry@,
                s5.registry@,
                s6.registry@,
                s7.registry@,
                s8.registry@,
                *input,
                dt as int,
                w as int,
                h as int,
            );
            lemma_count_kinds_eq(s3.registry@, s8.registry@, EntityKind::Player);
            lemma_run_field_eq(
                *old(self),
                s3.registry@,
                s4.registry@,
                s5.registry@,
                s6.registry@,
                s7.registry@,
                s8.registry@,
                *input,
                w as int,
                h as int,
                dt as int,
            );
        }
        let died = self.enemy_hit_player(&mut events);
        if died {
            let over = GameOver { score: self.score.value };
            self.handle_game_over(&over);
            proof {
                let ghost ef = events@;
                assert(ef == e1.push(GameEvent::Sound(Sound::Explosion)).push(
                    GameEvent::GameOver(over),
                ));
                lemma_events_death(e0, e1, ef, over);
                lemma_filter_keeps(
                    s8.registry@,
                    not_kind(EntityKind::Player),
                    in_max_extent(),
                );
            }
        } else {
            let ghost before_collect = *self;
            self.player_hit_star(&mut events);
            proof {
                let ghost ef = events@;
                assert forall|k: int|
                    e0.len() <= k < e1.len() implies is_bounce_sound(#[trigger] e1[k]) && !(
                collect_pred())(e1[k]) by {}
                lemma_events_survival(e0, e1, ef);
                if before_collect.registry.player_count() == 1 {
                    let p = player_pos(before_collect.registry@);
                    let hits = count_stars_hit(before_collect.registry@, p);
                    assert(count_collect_sounds(ef) == hits);
                    lemma_filter_keeps(
                        before_collect.registry@,
                        star_not_hit(p),
                        in_max_extent(),
                    );
                } else {
                    assert(events@ == e1);
                }
            }
        }
        proof {
            assert(self.registry.positions_within(MAX_EXTENT as int));
        }
        events
    }
}


} // verus!
