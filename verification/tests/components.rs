use ball_game::events::GameOver;
use ball_game::registry::{EntityKind, Registry};
use ball_game::geom::Vec2;
use ball_game::rng::SpawnRng;
use ball_game::score::HighScores;
use ball_game::timer::RepeatTimer;

#[test]
fn timer_fires_exactly_when_the_countdown_runs_out() {
    let mut t = RepeatTimer::new(1000);
    assert!(!t.tick(999));
    assert!(!t.finished());
    assert!(t.tick(1));
    assert!(t.finished());
    // After firing the countdown starts over at the full period.
    assert!(!t.tick(999));
    assert!(t.tick(1000));
}

#[test]
fn timer_fires_on_overshoot() {
    let mut t = RepeatTimer::new(1000);
    assert!(t.tick(5000));
    assert!(t.finished());
}

#[test]
fn high_scores_append_label_and_score() {
    let mut hs = HighScores::new();
    assert_eq!(hs.len(), 0);
    hs.update_high_scores(&GameOver { score: 3 });
    hs.update_high_scores(&GameOver { score: 0 });
    assert_eq!(hs.len(), 2);
    assert_eq!(hs.scores[0], ("Player".to_string(), 3));
    assert_eq!(hs.scores[1], ("Player".to_string(), 0));
}

#[test]
fn rng_is_deterministic_per_seed() {
    let mut a = SpawnRng::new(42);
    let mut b = SpawnRng::new(42);
    for _ in 0..10 {
        assert_eq!(a.next_value(), b.next_value());
    }
    let mut c = SpawnRng::new(43);
    let first_a = SpawnRng::new(42).next_value();
    assert_ne!(first_a, c.next_value());
}

#[test]
fn rng_bounded_draws_stay_below_the_bound() {
    let mut r = SpawnRng::new(7);
    for _ in 0..100 {
        assert!(r.next_below(800) < 800);
        assert!(r.next_below(1) == 0);
    }
}

#[test]
fn registry_counts_by_kind() {
    let mut r = Registry::new();
    assert_eq!(r.len(), 0);
    r.spawn(EntityKind::Enemy, Vec2 { x: 1, y: 2 }, Vec2 { x: 1000, y: 0 });
    r.spawn(EntityKind::Star, Vec2 { x: 3, y: 4 }, Vec2 { x: 0, y: 0 });
    r.spawn(EntityKind::Player, Vec2 { x: 5, y: 6 }, Vec2 { x: 0, y: 0 });
    r.spawn(EntityKind::Star, Vec2 { x: 7, y: 8 }, Vec2 { x: 0, y: 0 });
    assert_eq!(r.len(), 4);
    assert_eq!(r.count_of(EntityKind::Player), 1);
    assert_eq!(r.count_of(EntityKind::Enemy), 1);
    assert_eq!(r.count_of(EntityKind::Star), 2);
    assert_eq!(r.find_player(), Some(2));
}

#[test]
fn registry_clears_one_kind_and_keeps_the_rest_in_order() {
    let mut r = Registry::new();
    r.spawn(EntityKind::Star, Vec2 { x: 1, y: 1 }, Vec2 { x: 0, y: 0 });
    r.spawn(EntityKind::Enemy, Vec2 { x: 2, y: 2 }, Vec2 { x: 0, y: 1000 });
    r.spawn(EntityKind::Star, Vec2 { x: 3, y: 3 }, Vec2 { x: 0, y: 0 });
    r.clear_kind(EntityKind::Star);
    assert_eq!(r.len(), 1);
    assert_eq!(r.get(0).kind, EntityKind::Enemy);
    assert_eq!(r.get(0).pos, Vec2 { x: 2, y: 2 });
    assert_eq!(r.find_player(), None);
}
