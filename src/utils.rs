//! Angles, ring radii, directions and the small enums shared by the systems.
use rand::seq::SliceRandom;
use rand::Rng;
use vstd::prelude::*;

use crate::consts::{FINAL_RADIUS, LAYOUT_LEVEL_MAX, LEVEL_RADIUS, PI, PI_2};

verus! {

/// A requested move: towards the centre, away from it, or around the ring by
/// the given angular speed (micro-radians per tick).
#[derive(Debug, Clone, Copy, PartialEq, Eq, Structural)]
pub enum Direction {
    Up,
    Down,
    Left(i64),
    Right(i64),
}

impl Direction {
    pub open spec fn inverse_spec(dir: Direction) -> Direction {
        match dir {
            Direction::Left(speed) => Direction::Right(speed),
            Direction::Right(speed) => Direction::Left(speed),
            Direction::Up => Direction::Down,
            Direction::Down => Direction::Up,
        }
    }

    /// The opposite direction, with the same speed.
    pub fn inverse(dir: Direction) -> (r: Direction)
        ensures
            r == Self::inverse_spec(dir),
    {
        match dir {
            Direction::Left(speed) => Direction::Right(speed),
            Direction::Right(speed) => Direction::Left(speed),
            Direction::Up => Direction::Down,
            Direction::Down => Direction::Up,
        }
    }
}

/// The keys that the simulation reacts to. Each directional variant stands
/// for its whole class of keys (arrow, vi-style letter and numpad digit).
#[derive(Debug, Clone, Copy, PartialEq, Eq, Structural)]
pub enum Key {
    Left,
    Right,
    Up,
    Down,
    Return,
    Escape,
    F2,
    F3,
    Other,
}

/// Colour scheme of the presentation.
#[derive(Debug, Clone, Copy, PartialEq, Eq, Structural)]
pub enum Theme {
    Light,
    Dark,
}

impl Theme {
    /// The theme's name as shown in menus.
    pub fn name(&self) -> (r: &'static str)
        ensures
            *self == Theme::Dark ==> r@ == "dark"@,
            *self == Theme::Light ==> r@ == "light"@,
    {
        match self {
            Theme::Dark => "dark",
            Theme::Light => "light",
        }
    }
}

/// How directional keys are interpreted.
#[derive(Debug, Clone, Copy, PartialEq, Eq, Structural)]
pub enum Control {
    Normal,
    Advanced,
}

impl Control {
    /// The control mode's name as shown in menus.
    pub fn name(&self) -> (r: &'static str)
        ensures
            *self == Control::Normal ==> r@ == "normal"@,
            *self == Control::Advanced ==> r@ == "advanced"@,
    {
        match self {
            Control::Normal => "normal",
            Control::Advanced => "advanced",
        }
    }
}

/// Terminal status of a level attempt.
#[derive(Debug, Clone, Copy, PartialEq, Eq, Structural)]
pub enum GameStatus {
    GameOver,
    LevelCompleted,
}

/// An angle brought into `[0, 2π)`: the representative of its class modulo a
/// full turn.
pub open spec fn normalized(a: int) -> int {
    a % (PI_2 as int)
}

/// Brings any angle into `[0, 2π)` by whole turns. This holds for every
/// magnitude, not only below 4π: taking off as many turns as needed rather
/// than a single one.
pub fn normalize_angle(angle: i64) -> (r: i64)
    ensures
        r == normalized(angle as int),
        0 <= r < PI_2,
{
    match angle.checked_rem_euclid(PI_2) {
        Some(r) => r,
        None => 0,
    }
}

/// Normalization lands in `[0, 2π)` for every angle, in particular for every
/// angle of magnitude under 4π.
pub proof fn lemma_normalize_angle_in_range(a: int)
    ensures
        0 <= normalized(a) < PI_2,
        -2 * PI_2 < a < 2 * PI_2 ==> 0 <= normalized(a) < PI_2,
{
}

/// Normalization keeps the angle's class modulo a full turn, and leaves an
/// angle already in `[0, 2π)` unchanged.
pub proof fn lemma_normalize_angle_same_turn(a: int)
    ensures
        (a - normalized(a)) % (PI_2 as int) == 0,
        0 <= a < PI_2 ==> normalized(a) == a,
        normalized(-PI as int) == PI,
        PI_2 == 2 * PI,
{
    vstd::arithmetic::div_mod::lemma_fundamental_div_mod(a, PI_2 as int);
    vstd::arithmetic::div_mod::lemma_mod_multiples_basic(a / (PI_2 as int), PI_2 as int);
    assert((a - normalized(a)) == (PI_2 as int) * (a / (PI_2 as int)));
    vstd::arithmetic::mul::lemma_mul_is_commutative(PI_2 as int, a / (PI_2 as int));
    if 0 <= a < PI_2 {
        vstd::arithmetic::div_mod::lemma_small_mod(a as nat, PI_2 as nat);
    }
}

/// Radius of ring `level`: ring 0 is the goal, each further ring lies
/// `LEVEL_RADIUS` farther out.
pub open spec fn level_radius(level: int) -> int {
    FINAL_RADIUS + LEVEL_RADIUS * level
}

/// Radius of ring `level`.
pub fn get_level_radius(level: i32) -> (r: i64)
    ensures
        r == level_radius(level as int),
{
    FINAL_RADIUS + LEVEL_RADIUS * (level as i64)
}

/// A farther ring has a strictly larger radius.
pub proof fn lemma_level_radius_strictly_increasing(a: int, b: int)
    requires
        a < b,
    ensures
        level_radius(a) < level_radius(b),
{
}

/// Equality within the tolerance of the radial movement. Radii are whole
/// length units, so a tolerance under one unit means exact equality.
pub fn approx_eq(a: i64, b: i64) -> (r: bool)
    ensures
        r == (a == b),
{
    a == b
}

/// Relies on rand's `Rng::gen_range` on the thread-local generator: a value
/// drawn from `low..high` (it panics on an empty range, which `requires`
/// rules out).
#[verifier::external_body]
pub(crate) fn random_in(low: usize, high: usize) -> (r: usize)
    requires
        low < high,
    ensures
        low <= r < high,
{
    rand::thread_rng().gen_range(low..high)
}

/// Relies on rand's `SliceRandom::shuffle` on the thread-local generator: the
/// marks are permuted in place, none added or lost.
#[verifier::external_body]
fn shuffle_slots(slots: &mut Vec<u8>)
    ensures
        final(slots)@.to_multiset() == old(slots)@.to_multiset(),
{
    slots.shuffle(&mut rand::thread_rng())
}

/// Number of filled (`1`) marks in a slot sequence.
pub open spec fn count_filled(s: Seq<u8>) -> nat
    decreases s.len(),
{
    if s.len() == 0 {
        0
    } else {
        count_filled(s.drop_last()) + if s.last() == 1 { 1nat } else { 0nat }
    }
}

/// Three filled slots in a row somewhere in the sequence.
pub open spec fn has_run_of_three(s: Seq<u8>) -> bool {
    exists|i: int| 0 <= i && i + 2 < s.len() && #[trigger] s[i] == 1 && s[i + 1] == 1 && s[i + 2] == 1
}

/// Every mark is `0` (empty) or `1` (filled).
pub open spec fn is_slot_marks(s: Seq<u8>) -> bool {
    forall|i: int| 0 <= i < s.len() ==> (s[i] == 0 || s[i] == 1)
}

/// Angular width of one of `n` equal slots of a ring.
pub open spec fn slot_width(n: int) -> int {
    if n > 0 { (PI_2 as int) / n } else { 0 }
}

/// Angular size of an obstacle in one of `n` slots: slightly under the slot
/// width, so that neighbouring obstacles keep a small gap.
pub open spec fn element_size(n: int) -> int {
    if n > 0 { slot_width(n) - slot_width(n) / n } else { 0 }
}

/// The `(angle, size)` spans of the filled slots among the first `s.len()`
/// of `n` slots, in slot order starting at angle 0.
pub open spec fn layout_of(s: Seq<u8>, n: int) -> Seq<(i64, i64)>
    decreases s.len(),
{
    if s.len() == 0 {
        Seq::empty()
    } else {
        let rest = layout_of(s.drop_last(), n);
        if s.last() == 1 {
            rest.push((((s.len() - 1) * slot_width(n)) as i64, element_size(n) as i64))
        } else {
            rest
        }
    }
}

proof fn lemma_count_filled_multiset(s: Seq<u8>)
    ensures
        count_filled(s) == s.to_multiset().count(1u8),
    decreases s.len(),
{
    broadcast use vstd::seq_lib::group_to_multiset_ensures;

    if s.len() > 0 {
        lemma_count_filled_multiset(s.drop_last());
        assert(s.drop_last().push(s.last()) =~= s);
    }
}

/// Every span of a layout starts in `[0, 2π)` and has the element size.
proof fn lemma_layout_entries(s: Seq<u8>, n: int)
    requires
        0 < n,
        s.len() <= n,
    ensures
        forall|k: int|
            0 <= k < layout_of(s, n).len() ==> 0 <= (#[trigger] layout_of(s, n)[k]).0 < PI_2
                && layout_of(s, n)[k].1 == element_size(n),
    decreases s.len(),
{
    if s.len() > 0 {
        lemma_layout_entries(s.drop_last(), n);
        let i = s.len() - 1;
        let w = slot_width(n);
        vstd::arithmetic::div_mod::lemma_fundamental_div_mod(PI_2 as int, n);
        assert(0 <= w);
        assert(i * w <= (n - 1) * w) by (nonlinear_arith)
            requires 0 <= i <= n - 1, 0 <= w;
        assert((n - 1) * w + w == n * w) by (nonlinear_arith);
        assert(n * w <= PI_2) by (nonlinear_arith)
            requires n * w + (PI_2 as int) % n == PI_2, 0 <= (PI_2 as int) % n, w == (PI_2 as int) / n;
        assert(0 <= i * w) by (nonlinear_arith)
            requires 0 <= i, 0 <= w;
        assert(w <= PI_2) by {
            vstd::arithmetic::div_mod::lemma_div_is_ordered_by_denominator(PI_2 as int, 1, n);
        }
        assert(0 <= element_size(n) <= PI_2) by {
            vstd::arithmetic::div_mod::lemma_div_pos_is_pos(w, n);
            vstd::arithmetic::div_mod::lemma_div_is_ordered_by_denominator(w, 1, n);
        }
        if w > 0 {
            assert(i * w < PI_2);
        } else {
            assert(i * w == 0) by (nonlinear_arith)
                requires w == 0;
        }
        let rest = layout_of(s.drop_last(), n);
        if s.last() == 1 {
            assert(layout_of(s, n) == rest.push(((i * w) as i64, element_size(n) as i64)));
        }
    }
}

/// Spans in slot order: each starts at least a slot width after the one
/// before, and none starts past the last slot of the marks.
proof fn lemma_layout_spacing(s: Seq<u8>, n: int)
    requires
        0 < n,
        s.len() <= n,
    ensures
        forall|k: int|
            0 <= k < layout_of(s, n).len() ==> 0 <= #[trigger] layout_of(s, n)[k].0 <= (s.len() - 1)
                * slot_width(n),
        forall|j: int, k: int|
            0 <= j < k < layout_of(s, n).len() ==> #[trigger] layout_of(s, n)[j].0 + slot_width(n)
                <= #[trigger] layout_of(s, n)[k].0,
    decreases s.len(),
{
    if s.len() > 0 {
        let t = s.drop_last();
        lemma_layout_spacing(t, n);
        let w = slot_width(n);
        let i = s.len() - 1;
        assert(0 <= w);
        assert((i - 1) * w + w == i * w) by (nonlinear_arith);
        assert(0 <= i * w) by (nonlinear_arith)
            requires 0 <= i, 0 <= w;
        lemma_slot_bound(i, n);
        if w == 0 {
            assert(i * w == 0) by (nonlinear_arith)
                requires w == 0;
        }
        assert(((i * w) as i64) as int == i * w);
        let l = layout_of(s, n);
        let lt = layout_of(t, n);
        if s.last() == 1 {
            assert(l == lt.push(((i * w) as i64, element_size(n) as i64)));
            assert forall|j: int, k: int| 0 <= j < k < l.len() implies #[trigger] l[j].0 + w
                <= #[trigger] l[k].0 by {
                if k < lt.len() {
                    assert(l[j] == lt[j] && l[k] == lt[k]);
                } else {
                    assert(l[j] == lt[j]);
                    assert(lt[j].0 <= (i - 1) * w);
                }
            }
            assert forall|k: int| 0 <= k < l.len() implies 0 <= #[trigger] l[k].0 <= i * w by {
                if k < lt.len() {
                    assert(l[k] == lt[k]);
                    assert((i - 1) * w <= i * w);
                }
            }
        } else {
            assert forall|k: int| 0 <= k < l.len() implies 0 <= #[trigger] l[k].0 <= i * w by {
                assert((i - 1) * w <= i * w);
            }
        }
    }
}

/// `i` slots of a ring with `n` slots, for `i` below `n`, stay under a full
/// turn; beyond, the value still fits the angle type.
proof fn lemma_slot_bound(i: int, n: int)
    requires
        0 < n,
        0 <= i,
    ensures
        i < n ==> i * slot_width(n) < PI_2 || slot_width(n) == 0,
{
    let w = slot_width(n);
    vstd::arithmetic::div_mod::lemma_fundamental_div_mod(PI_2 as int, n);
    if i < n && w > 0 {
        assert(n * w <= PI_2) by (nonlinear_arith)
            requires n * w + (PI_2 as int) % n == PI_2, 0 <= (PI_2 as int) % n, w == (PI_2 as int) / n;
        assert(i * w <= (n - 1) * w) by (nonlinear_arith)
            requires 0 <= i <= n - 1, 0 <= w;
        assert((n - 1) * w == n * w - w) by (nonlinear_arith);
    }
}

/// Consecutive spans leave a gap between them, and so do the last one and
/// the first one a full turn later.
pub open spec fn has_gaps(r: Seq<(i64, i64)>) -> bool {
    &&& forall|j: int| 0 <= j && j + 1 < r.len() ==> #[trigger] r[j].0 + r[j].1 < r[j + 1].0
    &&& r.len() > 0 ==> r.last().0 + r.last().1 < PI_2 + r[0].0
}

/// Enough micro-radians per slot for the gap between obstacles: a slot
/// is at least `n` wide, so its obstacle is at least one unit narrower.
pub open spec fn fine_enough(n: int) -> bool {
    0 < n && n * n <= PI_2
}

proof fn lemma_layout_gaps(s: Seq<u8>, n: int)
    requires
        fine_enough(n),
        s.len() <= n,
    ensures
        has_gaps(layout_of(s, n)),
{
    lemma_layout_spacing(s, n);
    lemma_layout_entries(s, n);
    let w = slot_width(n);
    vstd::arithmetic::div_mod::lemma_fundamental_div_mod(PI_2 as int, n);
    assert(n * w <= PI_2) by (nonlinear_arith)
        requires n * w + (PI_2 as int) % n == PI_2, 0 <= (PI_2 as int) % n, w == (PI_2 as int) / n;
    assert(w >= n) by (nonlinear_arith)
        requires n * w + (PI_2 as int) % n == PI_2, (PI_2 as int) % n < n, n * n <= PI_2, 0 < n;
    assert(w / n >= 1) by {
        vstd::arithmetic::div_mod::lemma_div_is_ordered(n, w, n);
        vstd::arithmetic::div_mod::lemma_div_by_self(n);
    }
    let l = layout_of(s, n);
    assert forall|j: int| 0 <= j && j + 1 < l.len() implies #[trigger] l[j].0 + l[j].1 < l[j + 1].0 by {
        assert(l[j].0 + w <= l[j + 1].0);
    }
    if l.len() > 0 {
        assert(l.last() == l[l.len() - 1]);
        assert((s.len() - 1) * w <= (n - 1) * w) by (nonlinear_arith)
            requires s.len() <= n, 0 <= w;
        assert((n - 1) * w == n * w - w) by (nonlinear_arith);
    }
}

proof fn lemma_layout_len(s: Seq<u8>, n: int)
    ensures
        layout_of(s, n).len() == count_filled(s),
    decreases s.len(),
{
    if s.len() > 0 {
        lemma_layout_len(s.drop_last(), n);
    }
}

/// Whether the marks hold three filled slots in a row.
pub fn has_run_of_three_filled(slots: &Vec<u8>) -> (r: bool)
    ensures
        r == has_run_of_three(slots@),
{
    let n = slots.len();
    if n < 3 {
        return false;
    }
    let mut i: usize = 0;
    while i + 2 < n
        invariant
            n == slots@.len(),
            n >= 3,
            i + 2 <= n,
            forall|j: int|
                0 <= j < i ==> !(#[trigger] slots@[j] == 1 && slots@[j + 1] == 1 && slots@[j + 2] == 1),
        decreases n - i,
    {
        if slots[i] == 1 && slots[i + 1] == 1 && slots[i + 2] == 1 {
            return true;
        }
        i = i + 1;
    }
    false
}

/// The obstacle spans of a ring divided into `slots.len()` slots: one
/// `(angle, size)` pair for each filled mark, in slot order.
pub fn layout_from_slots(slots: &Vec<u8>) -> (r: Vec<(i64, i64)>)
    ensures
        r@ == layout_of(slots@, slots@.len() as int),
        r@.len() == count_filled(slots@),
        forall|k: int|
            0 <= k < r@.len() ==> 0 <= (#[trigger] r@[k]).0 < PI_2 && r@[k].1 == element_size(
                slots@.len() as int,
            ),
        fine_enough(slots@.len() as int) ==> has_gaps(r@),
{
    let n = slots.len();
    let mut result: Vec<(i64, i64)> = Vec::new();
    if n == 0 {
        return result;
    }
    let (width, size): (i64, i64) = if n as u64 > PI_2 as u64 {
        (0, 0)
    } else {
        let w: i64 = PI_2 / (n as i64);
        (w, w - w / (n as i64))
    };
    let mut angle: i64 = 0;
    let mut i: usize = 0;
    proof {
        if n > PI_2 {
            vstd::arithmetic::div_mod::lemma_basic_div(PI_2 as int, n as int);
        }
        assert(slots@.subrange(0, 0) =~= Seq::<u8>::empty());
    }
    while i < n
        invariant
            n == slots@.len(),
            n > 0,
            0 <= i <= n,
            width == slot_width(n as int),
            size == element_size(n as int),
            angle == i * width,
            0 <= width <= PI_2,
            result@ == layout_of(slots@.subrange(0, i as int), n as int),
        decreases n - i,
    {
        proof {
            let s = slots@.subrange(0, i as int + 1);
            assert(s.drop_last() =~= slots@.subrange(0, i as int));
            assert(s.last() == slots@[i as int]);
        }
        if slots[i] == 1 {
            result.push((angle, size));
        }
        proof {
            assert((i + 1) * width <= n * width) by (nonlinear_arith)
                requires i + 1 <= n, width >= 0;
            vstd::arithmetic::div_mod::lemma_fundamental_div_mod(PI_2 as int, n as int);
            assert(n * width <= PI_2) by (nonlinear_arith)
                requires n * width + (PI_2 as int) % (n as int) == PI_2, 0 <= (PI_2 as int) % (n as int), width == (PI_2 as int) / (n as int);
            assert((i + 1) * width == i * width + width) by (nonlinear_arith);
        }
        angle = angle + width;
        i = i + 1;
    }
    proof {
        assert(slots@.subrange(0, n as int) =~= slots@);
        lemma_layout_len(slots@, n as int);
        lemma_layout_entries(slots@, n as int);
        if fine_enough(n as int) {
            lemma_layout_gaps(slots@, n as int);
        }
    }
    result
}

/// The draw that the retry policy keeps, from index `i` on: the first draw
/// without three filled slots in a row, or the last draw if every one has
/// such a run.
pub open spec fn kept_draw_from(ds: Seq<Seq<u8>>, i: int) -> int
    decreases ds.len() - i,
{
    if i + 1 >= ds.len() {
        ds.len() - 1
    } else if !has_run_of_three(ds[i]) {
        i
    } else {
        kept_draw_from(ds, i + 1)
    }
}

/// The draw that the retry policy keeps (see `kept_draw_from`).
pub open spec fn kept_draw(ds: Seq<Seq<u8>>) -> int {
    kept_draw_from(ds, 0)
}

/// The marks of each draw.
pub open spec fn draw_marks(ds: Seq<Vec<u8>>) -> Seq<Seq<u8>> {
    ds.map_values(|v: Vec<u8>| v@)
}

/// The draws of one layout: between one and five shuffles of the same
/// `full` filled and `n - full` empty marks, where drawing stopped at the
/// first one without three filled slots in a row.
pub open spec fn is_draw_sequence(ds: Seq<Seq<u8>>, n: int, full: nat) -> bool {
    &&& 1 <= ds.len() <= 5
    &&& forall|j: int|
        0 <= j < ds.len() ==> (#[trigger] ds[j]).len() == n && is_slot_marks(ds[j]) && count_filled(
            ds[j],
        ) == full
    &&& forall|j: int| 0 <= j && j + 1 < ds.len() ==> has_run_of_three(#[trigger] ds[j])
    &&& ds.len() < 5 ==> !has_run_of_three(ds.last())
}

/// The obstacle spans of a layout from its shuffled draws: the retry policy
/// keeps the first draw without three filled slots in a row (the last draw
/// if there is none), and its filled slots become the spans.
pub fn layout_from_draws(draws: &Vec<Vec<u8>>) -> (r: Vec<(i64, i64)>)
    requires
        draws@.len() >= 1,
    ensures
        0 <= kept_draw(draw_marks(draws@)) < draws@.len(),
        r@ == layout_of(
            draw_marks(draws@)[kept_draw(draw_marks(draws@))],
            draw_marks(draws@)[kept_draw(draw_marks(draws@))].len() as int,
        ),
{
    let ghost ds = draw_marks(draws@);
    let mut i: usize = 0;
    proof {
        assert(ds[0] == draws@[0]@);
    }
    let len = draws.len();
    let mut searching = len > 1 && has_run_of_three_filled(&draws[0]);
    while searching
        invariant
            len == draws@.len(),
            ds == draw_marks(draws@),
            draws@.len() >= 1,
            0 <= i < draws@.len(),
            kept_draw(ds) == kept_draw_from(ds, i as int),
            searching == (i + 1 < draws@.len() && has_run_of_three(ds[i as int])),
        decreases draws@.len() - i,
    {
        i = i + 1;
        proof {
            assert(ds[i as int] == draws@[i as int]@);
        }
        searching = i < len - 1 && has_run_of_three_filled(&draws[i]);
    }
    proof {
        assert(ds[i as int] == draws@[i as int]@);
        lemma_kept_draw_range(ds, i as int);
    }
    layout_from_slots(&draws[i])
}

proof fn lemma_kept_draw_range(ds: Seq<Seq<u8>>, i: int)
    requires
        0 <= i < ds.len(),
    ensures
        i <= kept_draw_from(ds, i) < ds.len(),
    decreases ds.len() - i,
{
    if i + 1 < ds.len() && has_run_of_three(ds[i]) {
        lemma_kept_draw_range(ds, i + 1);
    }
}

/// A copy of the marks.
fn copy_marks(v: &Vec<u8>) -> (r: Vec<u8>)
    ensures
        r@ == v@,
{
    let mut r: Vec<u8> = Vec::new();
    let mut i: usize = 0;
    while i < v.len()
        invariant
            0 <= i <= v@.len(),
            r@ == v@.subrange(0, i as int),
        decreases v@.len() - i,
    {
        r.push(v[i]);
        i = i + 1;
        proof {
            assert(r@ =~= v@.subrange(0, i as int));
        }
    }
    proof {
        assert(v@.subrange(0, v@.len() as int) =~= v@);
    }
    r
}

/// A layout whose spans are those of a draw of `n` slot marks with
/// `(n / 2)` or one more filled ones.
pub open spec fn is_ring_layout(r: Seq<(i64, i64)>, n: int) -> bool {
    exists|s: Seq<u8>|
        s.len() == n && is_slot_marks(s) && n / 2 <= count_filled(s) <= n / 2 + 1 && r
            == layout_of(s, n)
}

/// Obstacle spans for ring `level`: the ring is cut into `8 + level` slots, of
/// which `(8 + level) / 2` or one more are filled, in an order drawn at
/// random and drawn again (at most five draws in all) while three filled
/// slots stand in a row (see `layout_from_draws`).
pub fn create_map_of_element(level: usize) -> (r: Vec<(i64, i64)>)
    requires
        level <= LAYOUT_LEVEL_MAX,
    ensures
        (8 + level) / 2 <= r@.len() <= (8 + level) / 2 + 1,
        (8 + level) % 2 == 0 ==> (8 + level + 1) / 2 <= r@.len(),
        forall|k: int|
            0 <= k < r@.len() ==> 0 <= (#[trigger] r@[k]).0 < PI_2 && r@[k].1 == element_size(
                8 + level,
            ),
        has_gaps(r@),
        is_ring_layout(r@, 8 + level),
        exists|ds: Seq<Seq<u8>>, full: nat|
            (8 + level) / 2 <= full <= (8 + level) / 2 + 1 && #[trigger] is_draw_sequence(
                ds,
                8 + level,
                full,
            ) && r@ == layout_of(ds[kept_draw(ds)], 8 + level),
{
    let n: usize = 8 + level;
    proof {
        assert(fine_enough(n as int)) by {
            assert(n * n <= PI_2) by (nonlinear_arith)
                requires 8 <= n <= 2008;
        }
    }
    let full: usize = random_in(n / 2, n / 2 + 2);
    let mut slots: Vec<u8> = Vec::new();
    let mut k: usize = 0;
    while k < n
        invariant
            n == 8 + level,
            full <= n,
            k <= n,
            slots@.len() == k,
            is_slot_marks(slots@),
            count_filled(slots@) == if k <= full { k } else { full },
        decreases n - k,
    {
        proof {
            assert(slots@.push(if k < full { 1u8 } else { 0u8 }).drop_last() =~= slots@);
        }
        if k < full {
            slots.push(1);
        } else {
            slots.push(0);
        }
        k = k + 1;
    }
    proof {
        lemma_count_filled_multiset(slots@);
    }
    let ghost marks = slots@.to_multiset();
    let mut draws: Vec<Vec<u8>> = Vec::new();
    let mut dubl = true;
    while dubl && draws.len() < 5
        invariant
            slots@.len() == n,
            n == 8 + level,
            slots@.to_multiset() == marks,
            marks.count(1u8) == full,
            is_slot_marks(slots@),
            draws@.len() <= 5,
            dubl ==> forall|j: int| 0 <= j < draws@.len() ==> has_run_of_three(#[trigger] draw_marks(draws@)[j]),
            !dubl ==> draws@.len() >= 1 && !has_run_of_three(draw_marks(draws@).last()),
            !dubl ==> forall|j: int| 0 <= j && j + 1 < draws@.len() ==> has_run_of_three(#[trigger] draw_marks(draws@)[j]),
            forall|j: int| 0 <= j < draws@.len() ==> (#[trigger] draw_marks(draws@)[j]).len() == n
                && is_slot_marks(draw_marks(draws@)[j]) && count_filled(draw_marks(draws@)[j]) == full,
            draws@.len() >= 1 ==> draw_marks(draws@).last() == slots@,
        decreases 5 - draws@.len(),
    {
        let ghost before = slots@;
        shuffle_slots(&mut slots);
        proof {
            broadcast use vstd::seq_lib::group_to_multiset_ensures;

            slots@.to_multiset_ensures();
            before.to_multiset_ensures();
            assert(slots@.len() == slots@.to_multiset().len());
            assert forall|i: int| 0 <= i < slots@.len() implies (slots@[i] == 0 || slots@[i] == 1) by {
                assert(slots@.contains(slots@[i]));
                assert(slots@.to_multiset().count(slots@[i]) > 0);
                assert(before.to_multiset().count(slots@[i]) > 0);
                assert(before.contains(slots@[i]));
            }
            lemma_count_filled_multiset(slots@);
        }
        dubl = has_run_of_three_filled(&slots);
        let ghost old_draws = draws@;
        draws.push(copy_marks(&slots));
        proof {
            let nd = draw_marks(draws@);
            let od = draw_marks(old_draws);
            assert(nd.len() == od.len() + 1);
            assert(nd[nd.len() - 1] == slots@);
            assert forall|j: int| 0 <= j < nd.len() implies (#[trigger] nd[j]).len() == n
                && is_slot_marks(nd[j]) && count_filled(nd[j]) == full by {
                if j < od.len() {
                    assert(nd[j] == od[j]);
                }
            }
            if dubl {
                assert forall|j: int| 0 <= j < nd.len() implies has_run_of_three(#[trigger] nd[j]) by {
                    if j < od.len() {
                        assert(nd[j] == od[j]);
                    }
                }
            } else {
                assert forall|j: int| 0 <= j && j + 1 < nd.len() implies has_run_of_three(
                    #[trigger] nd[j],
                ) by {
                    assert(nd[j] == od[j]);
                }
            }
        }
    }
    proof {
        let ds = draw_marks(draws@);
        assert(is_draw_sequence(ds, n as int, full as nat));
        lemma_kept_draw_range(ds, 0);
        let kd = kept_draw(ds);
        assert(ds[kd].len() == n);
        assert(is_slot_marks(ds[kd]) && n / 2 <= count_filled(ds[kd]) <= n / 2 + 1);
    }
    let r = layout_from_draws(&draws);
    proof {
        let ds = draw_marks(draws@);
        let kd = kept_draw(ds);
        lemma_layout_len(ds[kd], n as int);
        lemma_layout_entries(ds[kd], n as int);
        lemma_layout_gaps(ds[kd], n as int);
    }
    r
}

} // verus!
