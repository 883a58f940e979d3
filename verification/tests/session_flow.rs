use ball_game::events::{GameEvent, GameOver, Sound};
use ball_game::geom::Vec2;
use ball_game::registry::EntityKind;
use ball_game::session::{AppState, GameSession, InputState, SimulationState};

fn game_session(seed: u64) -> GameSession {
    let mut s = GameSession::new(seed);
    s.app_state = AppState::Game;
    s
}

fn pressed(set: impl Fn(&mut InputState)) -> InputState {
    let mut i = InputState::none();
    set(&mut i);
    i
}

#[test]
fn fatal_hit_despawns_player_and_records_history() {
    // A 800x600 canvas, the player at its center, one enemy 10 px away:
    // well under the 64 px combined radii, so one tick is fatal.
    let mut s = game_session(1);
    s.registry.spawn(EntityKind::Player, Vec2 { x: 400, y: 300 }, Vec2 { x: 0, y: 0 });
    s.registry.spawn(EntityKind::Enemy, Vec2 { x: 410, y: 300 }, Vec2 { x: -1000, y: 0 });
    let events = s.tick(&InputState::none(), 800, 600, 0);
    assert_eq!(
        events,
        vec![
            GameEvent::Sound(Sound::Explosion),
            GameEvent::GameOver(GameOver { score: 0 }),
        ]
    );
    assert_eq!(s.registry.count_of(EntityKind::Player), 0);
    assert_eq!(s.high_scores.len(), 1);
    assert_eq!(s.high_scores.scores[0], ("Player".to_string(), 0));
    assert_eq!(s.pending_app, Some(AppState::GameOver));
}

#[test]
fn collected_star_scores_a_point_and_despawns() {
    // One star 5 px from the player: under the 47 px combined radii.
    let mut s = game_session(1);
    s.registry.spawn(EntityKind::Player, Vec2 { x: 400, y: 300 }, Vec2 { x: 0, y: 0 });
    s.registry.spawn(EntityKind::Star, Vec2 { x: 405, y: 300 }, Vec2 { x: 0, y: 0 });
    let events = s.tick(&InputState::none(), 800, 600, 0);
    assert_eq!(events, vec![GameEvent::Sound(Sound::Laser)]);
    assert_eq!(s.score.value, 1);
    assert_eq!(s.registry.count_of(EntityKind::Star), 0);
    assert_eq!(s.registry.count_of(EntityKind::Player), 1);
}

#[test]
fn wall_bounce_flips_direction_and_confines() {
    // An enemy at x = 2 moving left: its half size is 32, so it stands past
    // the wall; the horizontal direction flips, the position is clamped to
    // 32, and one bounce sound plays.
    let mut s = game_session(1);
    s.registry.spawn(EntityKind::Enemy, Vec2 { x: 2, y: 300 }, Vec2 { x: -1000, y: 0 });
    let events = s.tick(&InputState::none(), 800, 600, 0);
    assert_eq!(events.len(), 1);
    assert!(
        events[0] == GameEvent::Sound(Sound::PluckA)
            || events[0] == GameEvent::Sound(Sound::PluckB)
    );
    let e = s.registry.get(0);
    assert_eq!(e.dir, Vec2 { x: 1000, y: 0 });
    assert_eq!(e.pos, Vec2 { x: 32, y: 300 });
}

#[test]
fn corner_bounce_flips_both_axes_but_plays_one_sound() {
    let mut s = game_session(1);
    s.registry.spawn(EntityKind::Enemy, Vec2 { x: 2, y: 2 }, Vec2 { x: -600, y: -800 });
    let events = s.tick(&InputState::none(), 800, 600, 0);
    assert_eq!(events.len(), 1);
    let e = s.registry.get(0);
    assert_eq!(e.dir, Vec2 { x: 600, y: 800 });
    assert_eq!(e.pos, Vec2 { x: 32, y: 32 });
}

#[test]
fn pause_freezes_movement_and_resume_continues_from_the_frozen_state() {
    let mut s = game_session(1);
    s.registry.spawn(EntityKind::Player, Vec2 { x: 400, y: 300 }, Vec2 { x: 0, y: 0 });
    s.registry.spawn(EntityKind::Enemy, Vec2 { x: 600, y: 300 }, Vec2 { x: 1000, y: 0 });
    let pause = pressed(|i| i.pause = true);

    // The pause press still runs this tick; the request applies at the
    // next boundary. 16 ms at 200 px/s moves the enemy 3 px.
    let ev1 = s.tick(&pause, 800, 600, 16);
    assert_eq!(ev1, vec![]);
    assert_eq!(s.sim_state, SimulationState::Running);
    assert_eq!(s.registry.get(1).pos, Vec2 { x: 603, y: 300 });

    // Now paused: nothing moves, no system emits anything.
    let ev2 = s.tick(&InputState::none(), 800, 600, 16);
    assert_eq!(ev2, vec![]);
    assert_eq!(s.sim_state, SimulationState::Paused);
    assert_eq!(s.registry.get(1).pos, Vec2 { x: 603, y: 300 });

    // A second toggle, read while paused, requests running again.
    let ev3 = s.tick(&pause, 800, 600, 16);
    assert_eq!(ev3, vec![]);
    assert_eq!(s.registry.get(1).pos, Vec2 { x: 603, y: 300 });

    // Running resumes from the frozen positions.
    let _ = s.tick(&InputState::none(), 800, 600, 16);
    assert_eq!(s.sim_state, SimulationState::Running);
    assert_eq!(s.registry.get(1).pos, Vec2 { x: 606, y: 300 });
}

#[test]
fn timers_freeze_while_paused() {
    let mut s = game_session(1);
    s.sim_state = SimulationState::Paused;
    // Two full star periods pass while paused; nothing spawns.
    let _ = s.tick(&InputState::none(), 800, 600, 2000);
    assert_eq!(s.registry.len(), 0);
}

#[test]
fn entering_a_game_spawns_the_initial_cast() {
    let mut s = GameSession::new(1);
    s.transition_to_game_state();
    s.apply_pending_transitions(800, 600);
    assert_eq!(s.app_state, AppState::Game);
    assert_eq!(s.sim_state, SimulationState::Running);
    assert_eq!(s.score.value, 0);
    assert_eq!(s.registry.count_of(EntityKind::Player), 1);
    assert_eq!(s.registry.count_of(EntityKind::Enemy), 4);
    assert_eq!(s.registry.count_of(EntityKind::Star), 10);
    // The player stands at the window center.
    let pi = s.registry.find_player().unwrap();
    assert_eq!(s.registry.get(pi).pos, Vec2 { x: 400, y: 300 });
}

#[test]
fn initial_enemies_keep_their_distance_from_the_player() {
    for seed in 0..20u64 {
        let mut s = GameSession::new(seed);
        s.transition_to_game_state();
        s.apply_pending_transitions(800, 600);
        let pi = s.registry.find_player().unwrap();
        let ppos = *s.registry.get(pi);
        for i in 0..s.registry.len() {
            let e = *s.registry.get(i);
            if e.kind == EntityKind::Enemy {
                let dx = e.pos.x - ppos.pos.x;
                let dy = e.pos.y - ppos.pos.y;
                assert!(dx * dx + dy * dy >= 128 * 128);
            }
        }
    }
}

#[test]
fn initial_stars_are_confined_to_the_window() {
    let mut s = GameSession::new(9);
    s.transition_to_game_state();
    s.apply_pending_transitions(800, 600);
    for i in 0..s.registry.len() {
        let e = *s.registry.get(i);
        if e.kind == EntityKind::Star {
            assert!(15 <= e.pos.x && e.pos.x <= 785);
            assert!(15 <= e.pos.y && e.pos.y <= 585);
        }
    }
}

#[test]
fn game_over_clears_the_field_and_new_game_restarts() {
    let mut s = game_session(1);
    s.score.value = 5;
    s.registry.spawn(EntityKind::Player, Vec2 { x: 400, y: 300 }, Vec2 { x: 0, y: 0 });
    s.registry.spawn(EntityKind::Enemy, Vec2 { x: 405, y: 300 }, Vec2 { x: 1000, y: 0 });
    s.registry.spawn(EntityKind::Star, Vec2 { x: 700, y: 100 }, Vec2 { x: 0, y: 0 });
    let events = s.tick(&InputState::none(), 800, 600, 0);
    assert!(events.contains(&GameEvent::GameOver(GameOver { score: 5 })));
    assert_eq!(s.high_scores.scores[0], ("Player".to_string(), 5));

    // The next boundary leaves the game: everything despawns.
    let _ = s.tick(&InputState::none(), 800, 600, 0);
    assert_eq!(s.app_state, AppState::GameOver);
    assert_eq!(s.registry.len(), 0);
    assert_eq!(s.sim_state, SimulationState::Running);

    // A new game resets the score and respawns the cast; the history stays.
    s.transition_to_game_state();
    let _ = s.tick(&InputState::none(), 800, 600, 0);
    assert_eq!(s.app_state, AppState::Game);
    assert_eq!(s.score.value, 0);
    assert_eq!(s.registry.count_of(EntityKind::Player), 1);
    assert_eq!(s.high_scores.len(), 1);
}

#[test]
fn debug_keys_request_mode_changes_for_the_next_tick() {
    let mut s = GameSession::new(1);
    let to_game = pressed(|i| i.to_game = true);
    let _ = s.tick(&to_game, 800, 600, 0);
    assert_eq!(s.app_state, AppState::MainMenu);
    assert_eq!(s.pending_app, Some(AppState::Game));
    let _ = s.tick(&InputState::none(), 800, 600, 0);
    assert_eq!(s.app_state, AppState::Game);
    assert_eq!(s.registry.count_of(EntityKind::Player), 1);
    assert_eq!(s.registry.count_of(EntityKind::Enemy), 4);
    // Whatever the random star placement, stars still on the field plus
    // points scored by instant pickups account for all ten.
    let stars = s.registry.count_of(EntityKind::Star) as u32;
    assert_eq!(stars + s.score.value, 10);

    let to_menu = pressed(|i| i.to_main_menu = true);
    let _ = s.tick(&to_menu, 800, 600, 0);
    let _ = s.tick(&InputState::none(), 800, 600, 0);
    assert_eq!(s.app_state, AppState::MainMenu);
    assert_eq!(s.registry.len(), 0);
}

#[test]
fn quit_key_emits_the_exit_request() {
    let mut s = GameSession::new(1);
    let quit = pressed(|i| i.quit = true);
    let events = s.tick(&quit, 800, 600, 0);
    assert_eq!(events, vec![GameEvent::ExitRequested]);
}

#[test]
fn paused_simulation_collects_nothing() {
    let mut s = game_session(1);
    s.sim_state = SimulationState::Paused;
    s.registry.spawn(EntityKind::Player, Vec2 { x: 400, y: 300 }, Vec2 { x: 0, y: 0 });
    s.registry.spawn(EntityKind::Star, Vec2 { x: 405, y: 300 }, Vec2 { x: 0, y: 0 });
    let events = s.tick(&InputState::none(), 800, 600, 16);
    assert_eq!(events, vec![]);
    assert_eq!(s.score.value, 0);
    assert_eq!(s.registry.count_of(EntityKind::Star), 1);
}

#[test]
fn score_saturates_at_the_largest_value() {
    let mut s = game_session(1);
    s.score.value = u32::MAX;
    s.registry.spawn(EntityKind::Player, Vec2 { x: 400, y: 300 }, Vec2 { x: 0, y: 0 });
    s.registry.spawn(EntityKind::Star, Vec2 { x: 405, y: 300 }, Vec2 { x: 0, y: 0 });
    let events = s.tick(&InputState::none(), 800, 600, 0);
    assert_eq!(events, vec![GameEvent::Sound(Sound::Laser)]);
    assert_eq!(s.score.value, u32::MAX);
    assert_eq!(s.registry.count_of(EntityKind::Star), 0);
}

#[test]
fn simultaneous_pickups_are_all_honored() {
    let mut s = game_session(1);
    s.registry.spawn(EntityKind::Player, Vec2 { x: 400, y: 300 }, Vec2 { x: 0, y: 0 });
    s.registry.spawn(EntityKind::Star, Vec2 { x: 405, y: 300 }, Vec2 { x: 0, y: 0 });
    s.registry.spawn(EntityKind::Star, Vec2 { x: 395, y: 310 }, Vec2 { x: 0, y: 0 });
    s.registry.spawn(EntityKind::Star, Vec2 { x: 700, y: 100 }, Vec2 { x: 0, y: 0 });
    let events = s.tick(&InputState::none(), 800, 600, 0);
    assert_eq!(
        events,
        vec![GameEvent::Sound(Sound::Laser), GameEvent::Sound(Sound::Laser)]
    );
    assert_eq!(s.score.value, 2);
    assert_eq!(s.registry.count_of(EntityKind::Star), 1);
}

#[test]
fn player_movement_composes_and_normalizes_input() {
    let mut s = game_session(1);
    s.registry.spawn(EntityKind::Player, Vec2 { x: 400, y: 300 }, Vec2 { x: 0, y: 0 });
    // Right alone: 500 px/s for 16 ms is 8 px.
    let right = pressed(|i| i.right = true);
    let _ = s.tick(&right, 800, 600, 16);
    assert_eq!(s.registry.get(0).pos, Vec2 { x: 408, y: 300 });
    // Right and up together: the diagonal is normalized, 5 px each axis.
    let diagonal = pressed(|i| {
        i.right_alt = true;
        i.up = true;
    });
    let _ = s.tick(&diagonal, 800, 600, 16);
    assert_eq!(s.registry.get(0).pos, Vec2 { x: 413, y: 305 });
    // Opposite keys cancel out.
    let cancel = pressed(|i| {
        i.left = true;
        i.right = true;
    });
    let _ = s.tick(&cancel, 800, 600, 16);
    assert_eq!(s.registry.get(0).pos, Vec2 { x: 413, y: 305 });
}

#[test]
fn player_is_confined_to_the_window() {
    let mut s = game_session(1);
    s.registry.spawn(EntityKind::Player, Vec2 { x: 35, y: 300 }, Vec2 { x: 0, y: 0 });
    let left = pressed(|i| i.left_alt = true);
    let _ = s.tick(&left, 800, 600, 16);
    assert_eq!(s.registry.get(0).pos, Vec2 { x: 32, y: 300 });
}

#[test]
fn timed_spawns_follow_their_timers() {
    let mut s = game_session(2);
    s.registry.spawn(EntityKind::Player, Vec2 { x: 400, y: 300 }, Vec2 { x: 0, y: 0 });
    assert!(!s.tick_enemy_spawn_timer(4999));
    s.spawn_enemies_over_time(800, 600);
    assert_eq!(s.registry.count_of(EntityKind::Enemy), 0);
    assert!(s.tick_enemy_spawn_timer(1));
    s.spawn_enemies_over_time(800, 600);
    assert_eq!(s.registry.count_of(EntityKind::Enemy), 1);

    assert!(s.tick_star_spawn_timer(1000));
    s.spawn_stars_over_time(800, 600);
    assert_eq!(s.registry.count_of(EntityKind::Star), 1);
}

#[test]
fn periodic_enemy_spawn_needs_a_live_player() {
    let mut s = game_session(3);
    assert!(s.tick_enemy_spawn_timer(5000));
    s.spawn_enemies_over_time(800, 600);
    assert_eq!(s.registry.count_of(EntityKind::Enemy), 0);
}

#[test]
fn entropy_seeded_sessions_start_at_the_main_menu() {
    let mut s = GameSession::from_entropy();
    assert_eq!(s.app_state, AppState::MainMenu);
    assert_eq!(s.score.value, 0);
    let to_game = pressed(|i| i.to_game = true);
    let _ = s.tick(&to_game, 800, 600, 16);
    let _ = s.tick(&InputState::none(), 800, 600, 16);
    assert_eq!(s.app_state, AppState::Game);
    assert_eq!(s.registry.count_of(EntityKind::Player), 1);
}

#[test]
fn same_seed_replays_the_same_world() {
    let mut a = GameSession::new(123);
    a.transition_to_game_state();
    a.apply_pending_transitions(800, 600);
    let mut b = GameSession::new(123);
    b.transition_to_game_state();
    b.apply_pending_transitions(800, 600);
    assert_eq!(a.registry.len(), b.registry.len());
    for i in 0..a.registry.len() {
        assert_eq!(a.registry.get(i), b.registry.get(i));
    }
}
