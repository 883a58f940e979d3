use ball_game::geom::{confine_actor_axis, dist_sq, isqrt, move_delta, normalize_dir, Vec2};

#[test]
fn confine_leaves_inside_point_alone() {
    let mut x: i64 = 400;
    confine_actor_axis(&mut x, 800, 64);
    assert_eq!(x, 400);
}

#[test]
fn confine_clamps_below_to_half_size() {
    let mut x: i64 = 10;
    confine_actor_axis(&mut x, 800, 64);
    assert_eq!(x, 32);
}

#[test]
fn confine_clamps_above_to_extent_minus_half_size() {
    let mut x: i64 = 790;
    confine_actor_axis(&mut x, 800, 64);
    assert_eq!(x, 768);
}

#[test]
fn confine_handles_odd_half_sizes() {
    let mut y: i64 = 3;
    confine_actor_axis(&mut y, 600, 30);
    assert_eq!(y, 15);
    let mut y2: i64 = 599;
    confine_actor_axis(&mut y2, 600, 30);
    assert_eq!(y2, 585);
}

#[test]
fn confine_window_narrower_than_actor_pins_to_half_size() {
    let mut x: i64 = 700;
    confine_actor_axis(&mut x, 50, 64);
    assert_eq!(x, 32);
    let mut x2: i64 = -10;
    confine_actor_axis(&mut x2, 50, 64);
    assert_eq!(x2, 32);
}

#[test]
fn confine_is_idempotent_on_sample_points() {
    for p in [-5000i64, 0, 15, 32, 400, 768, 799, 5000] {
        let mut once = p;
        confine_actor_axis(&mut once, 800, 64);
        let mut twice = once;
        confine_actor_axis(&mut twice, 800, 64);
        assert_eq!(once, twice);
    }
}

#[test]
fn isqrt_is_exact_on_squares_and_floors_between() {
    assert_eq!(isqrt(0), 0);
    assert_eq!(isqrt(1), 1);
    assert_eq!(isqrt(2), 1);
    assert_eq!(isqrt(16), 4);
    assert_eq!(isqrt(24), 4);
    assert_eq!(isqrt(25), 5);
    assert_eq!(isqrt(1_000_000), 1000);
    assert_eq!(isqrt(2_000_000), 1414);
    assert_eq!(isqrt(u64::MAX), 0xFFFF_FFFF);
}

#[test]
fn normalize_keeps_axis_directions() {
    assert_eq!(normalize_dir(1000, 0), Vec2 { x: 1000, y: 0 });
    assert_eq!(normalize_dir(0, -1000), Vec2 { x: 0, y: -1000 });
    assert_eq!(normalize_dir(-1000, 0), Vec2 { x: -1000, y: 0 });
}

#[test]
fn normalize_scales_diagonals_to_unit_length() {
    assert_eq!(normalize_dir(1000, 1000), Vec2 { x: 707, y: 707 });
    assert_eq!(normalize_dir(-1000, 1000), Vec2 { x: -707, y: 707 });
}

#[test]
fn normalize_blows_small_vectors_up_to_unit_length() {
    assert_eq!(normalize_dir(1, 0), Vec2 { x: 1000, y: 0 });
    let v = normalize_dir(3, 4);
    assert_eq!(v, Vec2 { x: 600, y: 800 });
}

#[test]
fn dist_sq_is_the_squared_euclidean_distance() {
    let a = Vec2 { x: 400, y: 300 };
    let b = Vec2 { x: 410, y: 300 };
    assert_eq!(dist_sq(&a, &b), 100);
    let c = Vec2 { x: 403, y: 304 };
    assert_eq!(dist_sq(&a, &c), 25);
    assert_eq!(dist_sq(&a, &a), 0);
}

#[test]
fn move_delta_scales_by_speed_and_time() {
    // Full-speed axis: 500 px/s for 16 ms is 8 px.
    assert_eq!(move_delta(1000, 500, 16), 8);
    // Diagonal component 0.707: truncates to 5 px.
    assert_eq!(move_delta(707, 500, 16), 5);
    // Negative direction mirrors the positive one.
    assert_eq!(move_delta(-1000, 200, 16), -3);
    assert_eq!(move_delta(0, 500, 16), 0);
    // A full second at enemy speed crosses 200 px.
    assert_eq!(move_delta(1000, 200, 1000), 200);
}

#[test]
fn negating_components_preserves_squared_magnitude() {
    let (x, y) = (600i64, -800i64);
    let n = x * x + y * y;
    assert_eq!((-x) * (-x) + y * y, n);
    assert_eq!(x * x + (-y) * (-y), n);
    assert_eq!((-x) * (-x) + (-y) * (-y), n);
    assert_eq!(n, 1_000_000);
}
