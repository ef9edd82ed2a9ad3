//! Fixed-point plane geometry: points, sine and cosine, and the player's
//! triangular footprint.
//!
//! A point's coordinates are in `1 / TRIG_SCALE` of a length unit, so that a
//! point at radius `r` has coordinates `r * cos` and `r * sin` with the sine and
//! cosine scaled by `TRIG_SCALE`.
use vstd::prelude::*;

use crate::consts::{FRAC_PI_2, PI, PI_2, RADIUS_LIMIT, TRIG_SCALE};
use crate::utils::{normalize_angle, normalized};

verus! {

/// Bound on the magnitude of each coordinate of a point that geometry builds.
pub const COORD_LIMIT: i64 = 10_000_000_000_000_000;

/// A point of the plane, centred on the rings' centre.
#[derive(Debug, Clone, Copy, PartialEq, Eq, Structural)]
pub struct Point {
    pub x: i64,
    pub y: i64,
}

impl Point {
    /// Both coordinates within `COORD_LIMIT`.
    pub open spec fn is_bounded(self) -> bool {
        -COORD_LIMIT <= self.x <= COORD_LIMIT && -COORD_LIMIT <= self.y <= COORD_LIMIT
    }
}

/// Bhaskara's rational approximation of the sine on `[0, π]`, scaled by
/// `TRIG_SCALE`: `16 x (π - x) / (5 π² - 4 x (π - x))`.
pub open spec fn half_turn_sine(x: int) -> int {
    let p = x * (PI - x);
    (TRIG_SCALE * 16 * p) / (5 * PI * PI - 4 * p)
}

/// Fixed-point sine of an angle in micro-radians.
pub open spec fn sin_fx(a: int) -> int {
    let x = normalized(a);
    if x < PI {
        half_turn_sine(x)
    } else {
        -half_turn_sine(x - PI)
    }
}

/// Fixed-point cosine: the sine a quarter turn ahead.
pub open spec fn cos_fx(a: int) -> int {
    sin_fx(normalized(a) + FRAC_PI_2)
}

proof fn lemma_half_turn_sine_bounds(x: int)
    requires
        0 <= x <= PI,
    ensures
        0 <= x * (PI - x) <= PI * PI / 4,
        0 <= half_turn_sine(x) <= TRIG_SCALE,
{
    let p = x * (PI - x);
    assert(0 <= p) by (nonlinear_arith)
        requires 0 <= x <= PI, p == x * (PI - x);
    assert(4 * p <= PI * PI) by (nonlinear_arith)
        requires p == x * (PI - x);
    let den = 5 * PI * PI - 4 * p;
    assert(den > 0);
    assert(TRIG_SCALE * 16 * p <= TRIG_SCALE * den) by (nonlinear_arith)
        requires 4 * p <= PI * PI, den == 5 * PI * PI - 4 * p, 0 <= p;
    vstd::arithmetic::div_mod::lemma_div_is_ordered(TRIG_SCALE * 16 * p, TRIG_SCALE * den, den);
    vstd::arithmetic::div_mod::lemma_div_multiples_vanish(TRIG_SCALE as int, den);
    vstd::arithmetic::div_mod::lemma_div_pos_is_pos(TRIG_SCALE * 16 * p, den);
}

fn half_turn_sine_exec(x: i64) -> (r: i64)
    requires
        0 <= x <= PI,
    ensures
        r == half_turn_sine(x as int),
        0 <= r <= TRIG_SCALE,
{
    proof {
        lemma_half_turn_sine_bounds(x as int);
    }
    let p: i64 = x * (PI - x);
    (TRIG_SCALE * 16 * p) / (5 * PI * PI - 4 * p)
}

/// Fixed-point sine of `a`, within `[-TRIG_SCALE, TRIG_SCALE]`.
pub fn sine(a: i64) -> (r: i64)
    ensures
        r == sin_fx(a as int),
        -TRIG_SCALE <= r <= TRIG_SCALE,
{
    let x = normalize_angle(a);
    if x < PI {
        half_turn_sine_exec(x)
    } else {
        -half_turn_sine_exec(x - PI)
    }
}

/// Fixed-point cosine of `a`, within `[-TRIG_SCALE, TRIG_SCALE]`.
pub fn cosine(a: i64) -> (r: i64)
    ensures
        r == cos_fx(a as int),
        -TRIG_SCALE <= r <= TRIG_SCALE,
{
    sine(normalize_angle(a) + FRAC_PI_2)
}

/// `len * t` for a length and a scaled sine or cosine, without overflow.
fn scale_len(len: i64, t: i64) -> (r: i64)
    requires
        -16 * RADIUS_LIMIT <= len <= 16 * RADIUS_LIMIT,
        -TRIG_SCALE <= t <= TRIG_SCALE,
    ensures
        r == len * t,
        len >= 0 ==> -len * TRIG_SCALE <= r <= len * TRIG_SCALE,
        len < 0 ==> len * TRIG_SCALE <= r <= -len * TRIG_SCALE,
{
    proof {
        if len >= 0 {
            assert(-len * TRIG_SCALE <= len * t <= len * TRIG_SCALE) by (nonlinear_arith)
                requires
                    len >= 0,
                    -TRIG_SCALE <= t <= TRIG_SCALE,
            ;
        } else {
            assert(len * TRIG_SCALE <= len * t <= -len * TRIG_SCALE) by (nonlinear_arith)
                requires
                    len < 0,
                    -TRIG_SCALE <= t <= TRIG_SCALE,
            ;
        }
    }
    len * t
}

/// The point at polar coordinates `(angle, radius)`.
pub open spec fn polar_point(angle: int, radius: int) -> Point {
    Point { x: (radius * cos_fx(angle)) as i64, y: (radius * sin_fx(angle)) as i64 }
}

/// The point at polar coordinates `(angle, radius)`.
pub fn point_at(angle: i64, radius: i64) -> (r: Point)
    requires
        -RADIUS_LIMIT <= radius <= RADIUS_LIMIT,
    ensures
        r == polar_point(angle as int, radius as int),
        r.x == radius * cos_fx(angle as int),
        r.y == radius * sin_fx(angle as int),
        r.is_bounded(),
{
    let c = cosine(angle);
    let s = sine(angle);
    Point { x: scale_len(radius, c), y: scale_len(radius, s) }
}

/// The corner of the player's triangle at distance `size` from the point at
/// `(angle, radius)`, in direction `side`.
pub open spec fn side_point(angle: int, radius: int, size: int, side: int) -> Point {
    Point {
        x: (radius * cos_fx(angle) + size * cos_fx(side)) as i64,
        y: (radius * sin_fx(angle) + size * sin_fx(side)) as i64,
    }
}

/// The player's footprint for a player at `(angle, radius)` with visual width
/// `size` and depth `width`: the tip towards the centre, the corner a quarter
/// turn behind, the notch of the back edge (two sevenths of the depth in), and the corner a quarter turn
/// ahead.
pub open spec fn footprint(radius: int, angle: int, size: int, width: int) -> Seq<Point> {
    let a = normalized(angle);
    seq![
        polar_point(angle, radius - width),
        side_point(angle, radius, size, a - FRAC_PI_2),
        polar_point(angle, radius - (2 * width) / 7),
        side_point(angle, radius, size, a + FRAC_PI_2),
    ]
}

/// The player's triangular footprint, four points (see `footprint`).
pub fn player(radius: i64, angle: i64, size: i64, width: i64) -> (r: Vec<Point>)
    requires
        -RADIUS_LIMIT <= radius <= RADIUS_LIMIT,
        -RADIUS_LIMIT <= size <= RADIUS_LIMIT,
        0 <= width <= RADIUS_LIMIT,
    ensures
        r@ == footprint(radius as int, angle as int, size as int, width as int),
        forall|i: int| 0 <= i < r@.len() ==> (#[trigger] r@[i]).is_bounded(),
{
    let c = cosine(angle);
    let s = sine(angle);
    let a = normalize_angle(angle);
    let x1 = scale_len(radius, c);
    let y1 = scale_len(radius, s);
    let tip = Point { x: scale_len(radius - width, c), y: scale_len(radius - width, s) };
    let behind = Point {
        x: x1 + scale_len(size, cosine(a - FRAC_PI_2)),
        y: y1 + scale_len(size, sine(a - FRAC_PI_2)),
    };
    let notch = Point {
        x: scale_len(radius - (2 * width) / 7, c),
        y: scale_len(radius - (2 * width) / 7, s),
    };
    let ahead = Point {
        x: x1 + scale_len(size, cosine(a + FRAC_PI_2)),
        y: y1 + scale_len(size, sine(a + FRAC_PI_2)),
    };
    let r = vec![tip, behind, notch, ahead];
    proof {
        assert(r@ =~= footprint(radius as int, angle as int, size as int, width as int));
    }
    r
}

} // verus!
