//! Plane geometry for the playfield: positions in whole pixels, direction
//! vectors in fixed-point thousandths, axis confinement, squared distances,
//! an exact integer square root, and direction normalization.

use vstd::prelude::*;

verus! {

use crate::{DIR_SCALE, MAX_TICK_MS, POS_LIMIT};

/// A point or vector in the plane. Position components are whole pixels;
/// direction components are thousandths of a unit (`DIR_SCALE` is 1.0).
#[derive(Clone, Copy, PartialEq, Eq, Structural, Debug)]
pub struct Vec2 {
    pub x: i64,
    pub y: i64,
}

/// Magnitude of `x`.
pub open spec fn abs_i(x: int) -> int {
    if x < 0 {
        -x
    } else {
        x
    }
}

/// Sign of `x`: -1, 0 or 1.
pub open spec fn sign_i(x: int) -> int {
    if x < 0 {
        -1
    } else if x == 0 {
        0
    } else {
        1
    }
}

/// Both components within `b` in magnitude.
pub open spec fn in_bounds(v: Vec2, b: int) -> bool {
    -b <= v.x <= b && -b <= v.y <= b
}

/// One coordinate clamped into the window: the playable range along an axis
/// of extent `w` for an actor of diameter `s` is `[s / 2, w - s / 2]`. When
/// the window is narrower than the actor that range is inverted; the
/// defensive choice is to pin the coordinate to `s / 2`.
pub open spec fn spec_confine(p: int, w: int, s: int) -> int {
    let lo = s / 2;
    let hi = w - s / 2;
    if hi < lo {
        lo
    } else if p < lo {
        lo
    } else if p > hi {
        hi
    } else {
        p
    }
}

/// Clamps one position coordinate into the window, in place.
pub fn confine_actor_axis(axis: &mut i64, window_size: i64, actor_size: i64)
    requires
        0 <= actor_size <= POS_LIMIT,
        0 <= window_size <= POS_LIMIT,
        -POS_LIMIT <= *old(axis) <= POS_LIMIT,
    ensures
        *final(axis) == spec_confine(*old(axis) as int, window_size as int, actor_size as int),
        actor_size / 2 <= *final(axis),
        actor_size <= window_size ==> *final(axis) <= window_size - actor_size / 2,
{
    let half: i64 = ((actor_size as u64) / 2) as i64;
    let lo: i64 = half;
    let hi: i64 = window_size - half;
    if hi < lo {
        *axis = lo;
    } else if *axis < lo {
        *axis = lo;
    } else if *axis > hi {
        *axis = hi;
    }
    proof {
        assert(half == actor_size as int / 2);
        assert(actor_size <= window_size ==> 2 * (actor_size as int / 2) <= actor_size) by {
            assert(2 * (actor_size as int / 2) <= actor_size) by (nonlinear_arith)
                requires
                    actor_size >= 0,
            ;
        }
    }
}

/// Confinement is idempotent: clamping an already clamped coordinate
/// changes nothing, for any window at least as wide as the actor.
pub proof fn lemma_confine_idempotent(p: int, w: int, s: int)
    requires
        0 <= s <= w,
    ensures
        spec_confine(spec_confine(p, w, s), w, s) == spec_confine(p, w, s),
{
    assert(2 * (s / 2) <= s) by (nonlinear_arith)
        requires
            s >= 0,
    ;
}

/// Squared magnitude of the vector `(x, y)`.
pub open spec fn norm_sq(x: int, y: int) -> int {
    x * x + y * y
}

/// Negating either or both components of a vector — what a wall bounce does
/// to a direction — leaves its squared magnitude unchanged, so a unit
/// direction stays a unit direction.
pub proof fn lemma_bounce_preserves_norm_sq(x: int, y: int, flip_x: bool, flip_y: bool)
    ensures
        norm_sq(if flip_x { -x } else { x }, if flip_y { -y } else { y }) == norm_sq(x, y),
{
    assert((-x) * (-x) == x * x) by (nonlinear_arith);
    assert((-y) * (-y) == y * y) by (nonlinear_arith);
}

/// Squared Euclidean distance between two points.
pub open spec fn spec_dist_sq(a: Vec2, b: Vec2) -> int {
    norm_sq(a.x - b.x, a.y - b.y)
}

/// Computes the squared distance between two in-bounds points.
pub fn dist_sq(a: &Vec2, b: &Vec2) -> (r: i64)
    requires
        in_bounds(*a, POS_LIMIT as int),
        in_bounds(*b, POS_LIMIT as int),
    ensures
        r == spec_dist_sq(*a, *b),
        0 <= r <= 32_000_000_000_000,
{
    let dx: i64 = a.x - b.x;
    let dy: i64 = a.y - b.y;
    proof {
        assert(dx * dx <= 16_000_000_000_000 && dx * dx >= 0) by (nonlinear_arith)
            requires
                -4_000_000 <= dx <= 4_000_000,
        ;
        assert(dy * dy <= 16_000_000_000_000 && dy * dy >= 0) by (nonlinear_arith)
            requires
                -4_000_000 <= dy <= 4_000_000,
        ;
    }
    dx * dx + dy * dy
}

/// The integer square root: the largest `r` with `r * r <= s`.
pub open spec fn sqrt_floor(s: nat) -> nat
    decreases s,
{
    if s == 0 {
        0
    } else {
        let r = sqrt_floor((s - 1) as nat);
        if (r + 1) * (r + 1) <= s {
            r + 1
        } else {
            r
        }
    }
}

/// `sqrt_floor` is sound: its square is at most `s`, and the next square up
/// exceeds `s`.
pub proof fn lemma_sqrt_floor_bounds(s: nat)
    ensures
        sqrt_floor(s) * sqrt_floor(s) <= s,
        s < (sqrt_floor(s) + 1) * (sqrt_floor(s) + 1),
    decreases s,
{
    if s == 0 {
        assert(sqrt_floor(0) == 0);
        assert((sqrt_floor(s) + 1) * (sqrt_floor(s) + 1) == 1) by (nonlinear_arith)
            requires
                sqrt_floor(s) == 0,
        ;
    } else {
        let r = sqrt_floor((s - 1) as nat);
        lemma_sqrt_floor_bounds((s - 1) as nat);
        if (r + 1) * (r + 1) <= s {
            assert(sqrt_floor(s) == r + 1);
            assert((r + 1 + 1) * (r + 1 + 1) > s) by (nonlinear_arith)
                requires
                    s - 1 < (r + 1) * (r + 1),
                    r >= 0,
            ;
        } else {
            assert(sqrt_floor(s) == r);
        }
    }
}

/// Squaring is monotone on the naturals.
proof fn lemma_square_le(a: nat, b: nat)
    requires
        a <= b,
    ensures
        a * a <= b * b,
{
    assert(a * a <= b * b) by (nonlinear_arith)
        requires
            0 <= a <= b,
    ;
}

/// `sqrt_floor` is the unique value between the two adjacent squares.
pub proof fn lemma_sqrt_floor_unique(s: nat, q: nat)
    requires
        q * q <= s,
        s < (q + 1) * (q + 1),
    ensures
        q == sqrt_floor(s),
{
    let r = sqrt_floor(s);
    lemma_sqrt_floor_bounds(s);
    if q < r {
        lemma_square_le(q + 1, r);
        assert(r * r <= s);
    } else if r < q {
        lemma_square_le(r + 1, q);
        assert(q * q <= s);
    }
}

/// Computes the integer square root by binary search.
pub fn isqrt(s: u64) -> (r: u64)
    ensures
        r == sqrt_floor(s as nat),
        r <= 0x1_0000_0000u64,
{
    let mut lo: u64 = 0;
    let mut hi: u64 = 0x1_0000_0000;
    proof {
        assert((0x1_0000_0000int) * (0x1_0000_0000int) > s) by (nonlinear_arith)
            requires
                s <= u64::MAX,
        ;
    }
    while lo + 1 < hi
        invariant
            lo < hi <= 0x1_0000_0000u64,
            lo * lo <= s,
            s < hi * hi,
        decreases hi - lo,
    {
        let mid: u64 = lo + (hi - lo) / 2;
        proof {
            assert(mid * mid <= 0xFFFF_FFFE_0000_0001u64) by (nonlinear_arith)
                requires
                    mid <= 0xFFFF_FFFFu64,
            ;
        }
        if mid * mid <= s {
            lo = mid;
        } else {
            hi = mid;
        }
    }
    proof {
        lemma_sqrt_floor_unique(s as nat, lo as nat);
    }
    lo
}

/// A direction scaled to (approximately) unit length: each magnitude is
/// multiplied by `DIR_SCALE` and divided by the floor square root of the
/// squared norm, keeping each component's sign.
pub open spec fn spec_normalize(x: int, y: int) -> (int, int) {
    let n = sqrt_floor(norm_sq(abs_i(x), abs_i(y)) as nat) as int;
    (sign_i(x) * ((abs_i(x) * DIR_SCALE) / n), sign_i(y) * ((abs_i(y) * DIR_SCALE) / n))
}

/// Scales a nonzero vector with components in `[-DIR_SCALE, DIR_SCALE]` to
/// (approximately) unit length at the `DIR_SCALE` fixed-point scale.
pub fn normalize_dir(x: i64, y: i64) -> (r: Vec2)
    requires
        -DIR_SCALE <= x <= DIR_SCALE,
        -DIR_SCALE <= y <= DIR_SCALE,
        !(x == 0 && y == 0),
    ensures
        (r.x as int, r.y as int) == spec_normalize(x as int, y as int),
        -DIR_SCALE <= r.x <= DIR_SCALE,
        -DIR_SCALE <= r.y <= DIR_SCALE,
{
    let mx: u64 = if x < 0 {
        (-x) as u64
    } else {
        x as u64
    };
    let my: u64 = if y < 0 {
        (-y) as u64
    } else {
        y as u64
    };
    proof {
        assert(mx * mx + my * my <= 2_000_000 && mx * mx >= 0 && my * my >= 0 && (mx >= 1 || my
            >= 1 ==> mx * mx + my * my >= 1)) by (nonlinear_arith)
            requires
                0 <= mx <= 1000,
                0 <= my <= 1000,
        ;
    }
    let s: u64 = mx * mx + my * my;
    let n: u64 = isqrt(s);
    proof {
        lemma_sqrt_floor_bounds(s as nat);
        // s >= 1 rules out a zero root.
        assert(n >= 1) by {
            lemma_sqrt_floor_bounds(s as nat);
            if n == 0 {
                assert((sqrt_floor(s as nat) + 1) * (sqrt_floor(s as nat) + 1)
                    == 1) by (nonlinear_arith)
                    requires
                        sqrt_floor(s as nat) == 0,
                ;
            }
        }
        // Each magnitude is at most the root: mx * mx <= s < (n + 1) * (n + 1),
        // so a magnitude beyond n would put its square beyond s.
        assert(mx <= n) by {
            if mx > n {
                lemma_square_le(n as nat + 1, mx as nat);
            }
        }
        assert(my <= n) by {
            if my > n {
                lemma_square_le(n as nat + 1, my as nat);
            }
        }
        assert(mx * 1000 <= n * 1000 && my * 1000 <= n * 1000) by (nonlinear_arith)
            requires
                mx <= n,
                my <= n,
        ;
        vstd::arithmetic::div_mod::lemma_div_is_ordered((mx * 1000) as int, (n * 1000) as int,
            n as int);
        vstd::arithmetic::div_mod::lemma_div_is_ordered((my * 1000) as int, (n * 1000) as int,
            n as int);
        assert((n * 1000) as int / (n as int) == 1000) by (nonlinear_arith)
            requires
                n >= 1,
        ;
    }
    let ox: u64 = mx * 1000 / n;
    let oy: u64 = my * 1000 / n;
    let rx: i64 = if x < 0 {
        -(ox as i64)
    } else {
        ox as i64
    };
    let ry: i64 = if y < 0 {
        -(oy as i64)
    } else {
        oy as i64
    };
    proof {
        assert(mx as int == abs_i(x as int) && my as int == abs_i(y as int));
        assert(s as int == norm_sq(abs_i(x as int), abs_i(y as int)));
        assert(ox as int == (abs_i(x as int) * DIR_SCALE) / (n as int));
        assert(oy as int == (abs_i(y as int) * DIR_SCALE) / (n as int));
        lemma_sign_times_mag(x as int, ox as int);
        lemma_sign_times_mag(y as int, oy as int);
        if x == 0 {
            vstd::arithmetic::div_mod::lemma_div_of0(n as int);
            assert(ox == 0);
        }
        if y == 0 {
            vstd::arithmetic::div_mod::lemma_div_of0(n as int);
            assert(oy == 0);
        }
        assert(rx as int == sign_i(x as int) * ((abs_i(x as int) * DIR_SCALE) / (n as int)));
        assert(ry as int == sign_i(y as int) * ((abs_i(y as int) * DIR_SCALE) / (n as int)));
    }
    Vec2 { x: rx, y: ry }
}

/// Multiplying a magnitude by the sign of `x` negates, keeps or zeroes it.
proof fn lemma_sign_times_mag(x: int, m: int)
    requires
        m >= 0,
    ensures
        x < 0 ==> sign_i(x) * m == -m,
        x > 0 ==> sign_i(x) * m == m,
        x == 0 ==> sign_i(x) * m == 0,
{
    assert((-1) * m == -m && 1 * m == m && 0 * m == 0) by (nonlinear_arith);
}

/// How far one movement step carries an actor along one axis: the direction
/// component (in `DIR_SCALE` thousandths) times the speed (pixels per
/// second) times the frame time (milliseconds), divided down by both scales.
pub open spec fn spec_move_delta(d: int, speed: int, dt: int) -> int {
    sign_i(d) * ((abs_i(d) * speed * dt) / 1_000_000)
}

/// Computes one movement step along one axis.
pub fn move_delta(d: i64, speed: i64, dt: i64) -> (r: i64)
    requires
        -DIR_SCALE <= d <= DIR_SCALE,
        0 <= speed <= 1000,
        0 <= dt <= MAX_TICK_MS,
    ensures
        r == spec_move_delta(d as int, speed as int, dt as int),
        -60_000 <= r <= 60_000,
{
    let md: u64 = if d < 0 {
        (-d) as u64
    } else {
        d as u64
    };
    proof {
        assert(md * (speed as u64) <= 1_000_000) by (nonlinear_arith)
            requires
                0 <= md <= 1000,
                0 <= speed <= 1000,
        ;
        assert(md * (speed as u64) * (dt as u64) <= 60_000_000_000u64) by (nonlinear_arith)
            requires
                0 <= md * (speed as u64) <= 1_000_000,
                0 <= dt <= 60_000,
        ;
        vstd::arithmetic::div_mod::lemma_div_is_ordered(
            (md * (speed as u64) * (dt as u64)) as int,
            60_000_000_000,
            1_000_000,
        );
    }
    let mag: u64 = md * speed as u64 * dt as u64 / 1_000_000;
    proof {
        assert(md == abs_i(d as int));
        assert(mag == (abs_i(d as int) * (speed as int) * (dt as int)) / 1_000_000);
        assert(mag <= 60_000);
    }
    if d < 0 {
        proof {
            assert(sign_i(d as int) == -1);
            assert(sign_i(d as int) * (mag as int) == -(mag as int)) by (nonlinear_arith)
                requires
                    sign_i(d as int) == -1,
            ;
        }
        -(mag as i64)
    } else {
        proof {
            if d == 0 {
                assert(md * (speed as u64) * (dt as u64) == 0) by (nonlinear_arith)
                    requires
                        md == 0,
                ;
                assert(mag == 0);
            }
            assert(sign_i(d as int) * (mag as int) == mag as int) by (nonlinear_arith)
                requires
                    sign_i(d as int) == 1 || (sign_i(d as int) == 0 && mag == 0),
            ;
        }
        mag as i64
    }
}

} // verus!
