//! The per-tick systems: movement, collision, countdown, game state, global
//! toggles, curtain and menu.
use vstd::prelude::*;

use crate::components::{CollisionType, Form, Player, Position};
use crate::consts::{
    GAME_TIME_MS, HORIZONTAL_SPEED, HORIZONTAL_SPEED_MAX, HORIZONTAL_SPEED_MIN, HORIZONTAL_SPEED_STEP,
    FINAL_RADIUS, LEVEL_FILL_RADIUS, LEVEL_RADIUS, LEVEL_SPACE_RADIUS, MICRO, PI, PI_2, PLAYER_START_ANGLE,
    PLAYER_START_LEVEL, RADIUS_LIMIT, VERTICAL_SPEED,
};
use crate::shapes::{footprint, player, point_at, polar_point, Point};
use crate::resources::{Curtain, GameState, GameTime, KeyState, Menu};
use crate::utils::{
    get_level_radius, level_radius, normalize_angle, normalized, Control, Direction, GameStatus,
    Key, Theme,
};
use crate::world::{entities_wf, entity_wf, Entity};

verus! {

/// Angular speed after holding a key for `ms` milliseconds: the minimum
/// speed plus one step for each started 100 ms, capped at the maximum.
pub open spec fn ramp_speed(ms: int) -> int {
    let u = HORIZONTAL_SPEED_MIN + ((ms + 99) / 100) * HORIZONTAL_SPEED_STEP;
    if u < HORIZONTAL_SPEED_MAX {
        u
    } else {
        HORIZONTAL_SPEED_MAX as int
    }
}

/// The player after the speed ramp of one tick: a repeated press adds the
/// elapsed milliseconds to the hold time (saturating); a fresh press starts
/// over.
pub open spec fn boosted(pl: Player, repeat: bool, delta: u64) -> Player {
    if repeat {
        let ms = pl.speed_press_ms + delta;
        let ms = if ms > u64::MAX { u64::MAX as int } else { ms };
        Player { speed_press_ms: ms as u64, speed: ramp_speed(ms) as i64, ..pl }
    } else {
        Player { speed_press_ms: 0, speed: HORIZONTAL_SPEED_MIN, ..pl }
    }
}

/// The radius one tick later: `VERTICAL_SPEED` closer to the target ring's
/// radius, never past it.
pub open spec fn next_radius(pos: Position) -> int {
    let target = level_radius(pos.next_level as int);
    if pos.current_level > pos.next_level {
        if pos.radius - VERTICAL_SPEED > target {
            pos.radius - VERTICAL_SPEED
        } else {
            target
        }
    } else if pos.current_level < pos.next_level {
        if pos.radius + VERTICAL_SPEED < target {
            pos.radius + VERTICAL_SPEED
        } else {
            target
        }
    } else {
        pos.radius as int
    }
}

/// One tick of radial movement: the radius advances; once it no longer
/// changes, the entity arrives on the target ring.
pub open spec fn radius_advanced(pos: Position) -> Position {
    if pos.radius == next_radius(pos) {
        Position { current_level: pos.next_level, ..pos }
    } else {
        Position { radius: next_radius(pos) as i64, ..pos }
    }
}

/// One ring farther in (unless at the lowest index).
pub open spec fn level_in(level: i32) -> i32 {
    if level > i32::MIN {
        (level - 1) as i32
    } else {
        level
    }
}

/// One ring farther out (unless at the highest index).
pub open spec fn level_out(level: i32) -> i32 {
    if level < i32::MAX {
        (level + 1) as i32
    } else {
        level
    }
}

/// One tick of movement in direction `dir`. Between rings the direction is
/// ignored and the radial move goes on.
pub open spec fn moved(pos: Position, dir: Option<Direction>) -> Position {
    if pos.current_level != pos.next_level {
        radius_advanced(pos)
    } else {
        match dir {
            Some(Direction::Up) => radius_advanced(
                Position { next_level: level_in(pos.next_level), ..pos },
            ),
            Some(Direction::Down) => radius_advanced(
                Position { next_level: level_out(pos.next_level), ..pos },
            ),
            Some(Direction::Left(speed)) => Position {
                angle: normalized(pos.angle + speed) as i64,
                ..pos
            },
            Some(Direction::Right(speed)) => Position {
                angle: normalized(pos.angle - speed) as i64,
                ..pos
            },
            None => pos,
        }
    }
}

/// Direction of a key in the normal control mode; `speed` is the angular
/// speed of a sideways move.
pub open spec fn key_direction(key: Option<Key>, speed: i64) -> Option<Direction> {
    match key {
        Some(Key::Left) => Some(Direction::Left(speed)),
        Some(Key::Right) => Some(Direction::Right(speed)),
        Some(Key::Up) => Some(Direction::Up),
        _ => None,
    }
}

/// Direction of a key in the advanced control mode: on the upper half of
/// the rings (angle in `[0, π]`) keys keep their meaning, elsewhere each
/// key means its opposite.
pub open spec fn advanced_direction(key: Option<Key>, angle: i64, speed: i64) -> Option<
    Direction,
> {
    let upper = 0 <= angle <= PI;
    match key {
        Some(Key::Left) => if upper {
            Some(Direction::Left(speed))
        } else {
            Some(Direction::Right(speed))
        },
        Some(Key::Right) => if upper {
            Some(Direction::Right(speed))
        } else {
            Some(Direction::Left(speed))
        },
        Some(Key::Down) => if upper {
            Some(Direction::Down)
        } else {
            Some(Direction::Up)
        },
        Some(Key::Up) => if upper {
            Some(Direction::Up)
        } else {
            Some(Direction::Down)
        },
        _ => None,
    }
}

/// Direction of a key in the advanced control mode, given the angle at which
/// the key sequence started.
pub fn get_dir(keycode: Option<Key>, angle: i64, horizontal_speed: i64) -> (r: Option<Direction>)
    ensures
        r == advanced_direction(keycode, angle, horizontal_speed),
{
    let upper = 0 <= angle && angle <= PI;
    match keycode {
        Some(Key::Left) => if upper {
            Some(Direction::Left(horizontal_speed))
        } else {
            Some(Direction::Right(horizontal_speed))
        },
        Some(Key::Right) => if upper {
            Some(Direction::Right(horizontal_speed))
        } else {
            Some(Direction::Left(horizontal_speed))
        },
        Some(Key::Down) => if upper {
            Some(Direction::Down)
        } else {
            Some(Direction::Up)
        },
        Some(Key::Up) => if upper {
            Some(Direction::Up)
        } else {
            Some(Direction::Down)
        },
        _ => None,
    }
}

/// The player's input of one tick: the speed ramp for a sideways key, the
/// angle captured on a fresh press, and the direction that results.
pub open spec fn player_input(gs: GameState, ks: KeyState, gt: GameTime, pl: Player, pos: Position) -> (
    Player,
    Option<Direction>,
) {
    let sideways = ks.key == Some(Key::Left) || ks.key == Some(Key::Right);
    let pl1 = if sideways {
        boosted(pl, ks.repeat, gt.delta)
    } else {
        pl
    };
    let pl2 = if !ks.repeat {
        Player { start_angle_repeat: pos.angle, ..pl1 }
    } else {
        pl1
    };
    let dir = if gs.control == Control::Advanced {
        advanced_direction(ks.key, pl2.start_angle_repeat, HORIZONTAL_SPEED)
    } else {
        key_direction(ks.key, pl1.speed)
    };
    (pl2, dir)
}

/// One entity after the movement of a tick: a player follows the input, an
/// entity with constant movement follows its own direction.
pub open spec fn entity_moved(gs: GameState, ks: KeyState, gt: GameTime, e: Entity) -> Entity {
    let e1 = match (e.player, e.position) {
        (Some(pl), Some(pos)) => {
            let (pl2, dir) = player_input(gs, ks, gt, pl, pos);
            Entity { player: Some(pl2), position: Some(moved(pos, dir)), ..e }
        },
        _ => e,
    };
    match (e1.constant_movement, e1.position) {
        (Some(cm), Some(pos)) => Entity {
            position: Some(moved(pos, Some(cm.direction))),
            ..e1
        },
        _ => e1,
    }
}

/// Distance between two radii.
pub open spec fn dist(a: int, b: int) -> int {
    if a >= b {
        a - b
    } else {
        b - a
    }
}

/// Between two rings, an entity ignores every direction; its radius closes
/// in on the target ring's radius by exactly `VERTICAL_SPEED` (or reaches
/// it), and once there the entity arrives on the target ring.
pub proof fn lemma_transition_ignores_input(
    pos: Position,
    d1: Option<Direction>,
    d2: Option<Direction>,
)
    requires
        pos.wf(),
        pos.current_level != pos.next_level,
    ensures
        moved(pos, d1) == moved(pos, d2),
        moved(pos, d1).wf(),
        pos.radius == level_radius(pos.next_level as int) ==> moved(pos, d1) == (Position {
            current_level: pos.next_level,
            ..pos
        }),
        pos.radius != level_radius(pos.next_level as int) ==> {
            let q = moved(pos, d1);
            let t = level_radius(pos.next_level as int);
            &&& q.current_level == pos.current_level
            &&& q.next_level == pos.next_level
            &&& q.angle == pos.angle
            &&& dist(q.radius as int, t) < dist(pos.radius as int, t)
            &&& dist(q.radius as int, t) == if dist(pos.radius as int, t) > VERTICAL_SPEED {
                dist(pos.radius as int, t) - VERTICAL_SPEED
            } else {
                0
            }
        },
{
}

/// The position after `k` ticks of moving up.
pub open spec fn held_up(pos: Position, k: nat) -> Position
    decreases k,
{
    if k == 0 {
        pos
    } else {
        moved(held_up(pos, (k - 1) as nat), Some(Direction::Up))
    }
}

proof fn lemma_held_up_split(pos: Position, a: nat, b: nat)
    ensures
        held_up(pos, a + b) == held_up(held_up(pos, a), b),
    decreases b,
{
    if b > 0 {
        lemma_held_up_split(pos, a, (b - 1) as nat);
        assert((a + b - 1) as nat == a + (b - 1) as nat);
    }
}

proof fn lemma_held_up_partial(pos: Position, k: nat)
    requires
        pos.current_level == pos.next_level,
        pos.current_level > i32::MIN,
        pos.radius == level_radius(pos.current_level as int),
        1 <= k <= 15,
    ensures
        held_up(pos, k) == (Position {
            radius: (pos.radius - 3 * k) as i64,
            next_level: (pos.current_level - 1) as i32,
            ..pos
        }),
    decreases k,
{
    let target = level_radius(pos.current_level - 1);
    assert(target == pos.radius - 45) by (nonlinear_arith)
        requires
            LEVEL_RADIUS == 45,
            target == FINAL_RADIUS + LEVEL_RADIUS * (pos.current_level - 1),
            pos.radius == FINAL_RADIUS + LEVEL_RADIUS * pos.current_level,
    ;
    assert(-RADIUS_LIMIT <= pos.radius <= RADIUS_LIMIT) by (nonlinear_arith)
        requires
            LEVEL_RADIUS == 45,
            FINAL_RADIUS == 80,
            RADIUS_LIMIT == 100_000_000_000,
            i32::MIN <= pos.current_level <= i32::MAX,
            pos.radius == FINAL_RADIUS + LEVEL_RADIUS * pos.current_level,
    ;
    if k > 1 {
        lemma_held_up_partial(pos, (k - 1) as nat);
        let prev = held_up(pos, (k - 1) as nat);
        assert(prev.current_level != prev.next_level);
        assert(next_radius(prev) == pos.radius - 3 * k);
    } else {
        assert(held_up(pos, 0) == pos);
        let start = Position { next_level: level_in(pos.next_level), ..pos };
        assert(start.next_level == pos.current_level - 1);
        assert(next_radius(start) == pos.radius - 3);
    }
    assert(held_up(pos, k) == moved(held_up(pos, (k - 1) as nat), Some(Direction::Up)));
}

/// Holding up for sixteen ticks moves a standing entity exactly one ring in:
/// one tick starts the change, fourteen more cover the 45 units between the
/// rings, and the last one arrives.
pub proof fn lemma_held_up_one_ring(pos: Position)
    requires
        pos.current_level == pos.next_level,
        pos.current_level > i32::MIN,
        pos.radius == level_radius(pos.current_level as int),
    ensures
        held_up(pos, 16) == Position::on_level((pos.current_level - 1) as i32, pos.angle),
{
    lemma_held_up_partial(pos, 15);
    let target = level_radius(pos.current_level - 1);
    assert(target == pos.radius - 45) by (nonlinear_arith)
        requires
            LEVEL_RADIUS == 45,
            target == FINAL_RADIUS + LEVEL_RADIUS * (pos.current_level - 1),
            pos.radius == FINAL_RADIUS + LEVEL_RADIUS * pos.current_level,
    ;
    let prev = held_up(pos, 15);
    assert(next_radius(prev) == prev.radius);
    assert(held_up(pos, 16) == moved(held_up(pos, 15), Some(Direction::Up)));
}

/// Holding up for `16 n` ticks brings an entity standing on ring `n >= 0`
/// to the goal ring 0, whatever its angle.
pub proof fn lemma_held_up_reaches_goal(pos: Position, n: nat)
    requires
        pos == Position::on_level(n as i32, pos.angle),
        n <= i32::MAX,
    ensures
        held_up(pos, 16 * n) == Position::on_level(0, pos.angle),
    decreases n,
{
    if n > 0 {
        lemma_held_up_one_ring(pos);
        let next = Position::on_level((n - 1) as i32, pos.angle);
        lemma_held_up_reaches_goal(next, (n - 1) as nat);
        lemma_held_up_split(pos, 16, (16 * (n - 1)) as nat);
        assert(16 + 16 * (n - 1) == 16 * n);
    }
}

/// Resolves input and autonomous motion into movement.
pub struct UpdatePosition;

impl UpdatePosition {
    /// The speed ramp of a held sideways key.
    pub fn set_speed_boost(pl: &mut Player, repeat: bool, delta: u64)
        ensures
            *final(pl) == boosted(*old(pl), repeat, delta),
    {
        if repeat {
            pl.speed_press_ms = pl.speed_press_ms.saturating_add(delta);
            let ms = pl.speed_press_ms;
            let steps: u64 = ms / 100 + if ms % 100 == 0 {
                0
            } else {
                1
            };
            pl.speed = if steps >= 16 {
                HORIZONTAL_SPEED_MAX
            } else {
                HORIZONTAL_SPEED_MIN + (steps as i64) * HORIZONTAL_SPEED_STEP
            };
        } else {
            pl.speed_press_ms = 0;
            pl.speed = HORIZONTAL_SPEED_MIN;
        }
    }

    /// One tick of radial movement towards `next_level`.
    pub fn update_radius(&self, pos: &mut Position)
        ensures
            *final(pos) == radius_advanced(*old(pos)),
            old(pos).wf() ==> final(pos).wf(),
    {
        let target = get_level_radius(pos.next_level);
        assert(target == 80 + 45 * (pos.next_level as int));
        assert(-RADIUS_LIMIT <= target <= RADIUS_LIMIT);
        let next_radius: i64 = if pos.current_level > pos.next_level {
            if pos.radius > target + VERTICAL_SPEED {
                pos.radius - VERTICAL_SPEED
            } else {
                target
            }
        } else if pos.current_level < pos.next_level {
            if pos.radius < target - VERTICAL_SPEED {
                pos.radius + VERTICAL_SPEED
            } else {
                target
            }
        } else {
            pos.radius
        };
        if crate::utils::approx_eq(pos.radius, next_radius) {
            pos.current_level = pos.next_level;
        } else {
            pos.radius = next_radius;
        }
    }

    /// One tick of movement in direction `dir`.
    pub fn to_move(&self, pos: &mut Position, dir: Option<Direction>)
        ensures
            *final(pos) == moved(*old(pos), dir),
            old(pos).wf() ==> final(pos).wf(),
    {
        if pos.is_between_level() {
            self.update_radius(pos);
            return;
        }
        match dir {
            Some(Direction::Up) => {
                if pos.next_level > i32::MIN {
                    pos.next_level = pos.next_level - 1;
                }
                self.update_radius(pos);
            },
            Some(Direction::Down) => {
                if pos.next_level < i32::MAX {
                    pos.next_level = pos.next_level + 1;
                }
                self.update_radius(pos);
            },
            Some(Direction::Left(speed)) => {
                proof {
                    vstd::arithmetic::div_mod::lemma_add_mod_noop(
                        pos.angle as int,
                        speed as int,
                        PI_2 as int,
                    );
                }
                pos.angle = normalize_angle(normalize_angle(pos.angle) + normalize_angle(speed));
            },
            Some(Direction::Right(speed)) => {
                proof {
                    vstd::arithmetic::div_mod::lemma_sub_mod_noop(
                        pos.angle as int,
                        speed as int,
                        PI_2 as int,
                    );
                }
                pos.angle = normalize_angle(normalize_angle(pos.angle) - normalize_angle(speed));
            },
            None => {},
        }
    }

    /// The movement of one entity in a tick.
    pub fn move_entity(&self, gs: &GameState, ks: &KeyState, gt: &GameTime, e: Entity) -> (r:
        Entity)
        ensures
            r == entity_moved(*gs, *ks, *gt, e),
            entity_wf(e) ==> entity_wf(r),
    {
        let mut e = e;
        if let (Some(mut pl), Some(mut pos)) = (e.player, e.position) {
            if ks.key == Some(Key::Left) || ks.key == Some(Key::Right) {
                UpdatePosition::set_speed_boost(&mut pl, ks.repeat, gt.delta);
            }
            let mut dir = match ks.key {
                Some(Key::Left) => Some(Direction::Left(pl.speed)),
                Some(Key::Right) => Some(Direction::Right(pl.speed)),
                Some(Key::Up) => Some(Direction::Up),
                _ => None,
            };
            if !ks.repeat {
                pl.start_angle_repeat = pos.angle;
            }
            if gs.control == Control::Advanced {
                dir = get_dir(ks.key, pl.start_angle_repeat, HORIZONTAL_SPEED);
            }
            self.to_move(&mut pos, dir);
            e.player = Some(pl);
            e.position = Some(pos);
        }
        if let (Some(cm), Some(mut pos)) = (e.constant_movement, e.position) {
            self.to_move(&mut pos, Some(cm.direction));
            e.position = Some(pos);
        }
        e
    }

    /// Moves every entity by one tick.
    pub fn run(&mut self, gs: &GameState, ks: &KeyState, gt: &GameTime, entities: &mut Vec<Entity>)
        ensures
            final(entities)@.len() == old(entities)@.len(),
            entities_wf(old(entities)@) ==> entities_wf(final(entities)@),
            forall|i: int|
                0 <= i < old(entities)@.len() ==> #[trigger] final(entities)@[i] == entity_moved(
                    *gs,
                    *ks,
                    *gt,
                    old(entities)@[i],
                ),
    {
        let n = entities.len();
        let mut i: usize = 0;
        while i < n
            invariant
                n == old(entities)@.len(),
                entities@.len() == n,
                0 <= i <= n,
                forall|j: int| 0 <= j < i ==> #[trigger] entities@[j] == entity_moved(
                    *gs,
                    *ks,
                    *gt,
                    old(entities)@[j],
                ),
                forall|j: int| i <= j < n ==> #[trigger] entities@[j] == old(entities)@[j],
                forall|j: int|
                    0 <= j < i ==> (entity_wf(old(entities)@[j]) ==> entity_wf(
                        #[trigger] entities@[j],
                    )),
            decreases n - i,
        {
            let e = self.move_entity(gs, ks, gt, entities[i]);
            entities.set(i, e);
            i = i + 1;
        }
    }
}

/// An obstacle arc as the collision test sees it: whether it is hazardous,
/// its ring, its two end points and the angles of those ends.
#[derive(Debug, Clone, Copy, PartialEq, Eq, Structural)]
pub struct ArcBounds {
    pub is_enemy: bool,
    pub level: i32,
    pub start: Point,
    pub end: Point,
    pub start_angle: i64,
    pub end_angle: i64,
}

/// The arc of an obstacle at `p` spanning `size`.
pub open spec fn arc_of(is_enemy: bool, p: Position, size: i64) -> ArcBounds {
    let end_angle = normalized(p.angle + size);
    ArcBounds {
        is_enemy,
        level: p.current_level,
        start: polar_point(p.angle as int, p.radius as int),
        end: polar_point(end_angle, p.radius as int),
        start_angle: p.angle,
        end_angle: end_angle as i64,
    }
}

/// The `(current_level, next_level)` pairs of the players, in table order.
pub open spec fn player_levels(es: Seq<Entity>) -> Seq<(i32, i32)>
    decreases es.len(),
{
    if es.len() == 0 {
        Seq::empty()
    } else {
        let rest = player_levels(es.drop_last());
        let e = es.last();
        match (e.player, e.position) {
            (Some(_), Some(p)) => rest.push((p.current_level, p.next_level)),
            _ => rest,
        }
    }
}

/// The arcs that obstacle `e` contributes: one for each player whose current
/// or target ring is the obstacle's ring.
pub open spec fn entity_arcs(e: Entity, levels: Seq<(i32, i32)>) -> Seq<ArcBounds>
    decreases levels.len(),
{
    if levels.len() == 0 {
        Seq::empty()
    } else {
        let rest = entity_arcs(e, levels.drop_last());
        let (c, n) = levels.last();
        match (e.player, e.view, e.position) {
            (None, Some(v), Some(p)) => if (c == p.current_level || n == p.current_level)
                && v.form == Form::Circle {
                rest.push(arc_of(e.enemy is Some, p, v.size))
            } else {
                rest
            },
            _ => rest,
        }
    }
}

/// The arcs of all obstacles, in table order.
pub open spec fn arcs_of(es: Seq<Entity>, levels: Seq<(i32, i32)>) -> Seq<ArcBounds>
    decreases es.len(),
{
    if es.len() == 0 {
        Seq::empty()
    } else {
        arcs_of(es.drop_last(), levels) + entity_arcs(es.last(), levels)
    }
}

/// Twice the signed area of the triangle `(p0, p1, p2)`.
pub open spec fn double_area(p0: Point, p1: Point, p2: Point) -> int {
    -p1.y * p2.x + p0.y * (-p1.x + p2.x) + p0.x * (p1.y - p2.y) + p1.x * p2.y
}

/// `p` lies strictly inside the triangle `(p0, p1, p2)`: both barycentric
/// coordinates, sign-corrected by the triangle's orientation, are positive
/// and their sum is under the doubled area.
pub open spec fn in_triangle(p: Point, p0: Point, p1: Point, p2: Point) -> bool {
    let a2 = double_area(p0, p1, p2);
    let sign: int = if a2 < 0 {
        -1
    } else {
        1
    };
    let s = (p0.y * p2.x - p0.x * p2.y + (p2.y - p0.y) * p.x + (p0.x - p2.x) * p.y) * sign;
    let t = (p0.x * p1.y - p0.y * p1.x + (p0.y - p1.y) * p.x + (p1.x - p0.x) * p.y) * sign;
    s > 0 && t > 0 && s + t < a2 * sign
}

/// `mid` lies in the arc going counter-clockwise from `start` to `end`.
pub open spec fn angle_between(mid: int, start: int, end: int) -> bool {
    let e = if end - start < 0 {
        end - start + PI_2
    } else {
        end - start
    };
    let m = if mid - start < 0 {
        mid - start + PI_2
    } else {
        mid - start
    };
    m < e
}

/// Angle between the centre line of a player at `radius` and the line to a
/// side corner of its triangle (`size` away): `size / radius` radians, the
/// small-angle value of the arc tangent.
pub open spec fn corner_offset(radius: int, size: int) -> int {
    if radius > 0 && size >= 0 {
        (size * MICRO) / radius
    } else {
        0
    }
}

/// Radius that divides standing on the player's ring from the gap inside it.
pub open spec fn settle_radius(p: Position) -> int {
    level_radius(p.current_level as int) - LEVEL_SPACE_RADIUS
}

/// The player after hitting an enemy: one life less, back at the start.
pub open spec fn enemy_hit(pl: Player) -> (Player, Position) {
    (
        Player { collision: Some(CollisionType::Enemy), ..pl }.life_taken(),
        Position::on_level(PLAYER_START_LEVEL, PLAYER_START_ANGLE),
    )
}

/// The player after hitting a wall between rings: sent back to the ring
/// it came from.
pub open spec fn wall_hit(pl: Player, p: Position) -> (Player, Position) {
    (
        Player { collision: Some(CollisionType::Wall), ..pl },
        Position { current_level: p.next_level, next_level: p.current_level, ..p },
    )
}

/// The player after a same-ring hit: bounced to `angle`, and on an enemy
/// also one life less and back at the start.
pub open spec fn body_hit(pl: Player, p: Position, is_enemy: bool, angle: int) -> (
    Player,
    Position,
) {
    if is_enemy {
        enemy_hit(pl)
    } else {
        (pl, Position { angle: normalized(angle) as i64, ..p })
    }
}

/// What one arc does to a player with view size `size` at `p`, or `None`
/// when it does not touch the player.
pub open spec fn arc_response(pl: Player, size: i64, p: Position, arc: ArcBounds) -> Option<
    (Player, Position),
> {
    let pts = footprint(p.radius as int, p.angle as int, size as int, LEVEL_FILL_RADIUS as int);
    let space = settle_radius(p);
    let off = corner_offset(p.radius as int, size as int);
    if p.current_level == arc.level {
        if in_triangle(arc.start, pts[0], pts[1], pts[3]) {
            let sa = normalized(arc.start_angle as int);
            let pa = normalized(p.angle - off);
            Some(body_hit(pl, p, arc.is_enemy, (pa - p.angle) + sa))
        } else if in_triangle(arc.end, pts[0], pts[1], pts[3]) {
            let sa = normalized(arc.end_angle as int);
            let pa = normalized(p.angle + off);
            Some(body_hit(pl, p, arc.is_enemy, sa - (p.angle - pa)))
        } else {
            None
        }
    } else {
        let crossing = angle_between(
            normalized(p.angle as int),
            normalized(arc.start_angle as int),
            normalized(arc.end_angle as int),
        );
        if p.radius <= space && crossing {
            if arc.is_enemy {
                Some(enemy_hit(pl))
            } else {
                Some(wall_hit(pl, p))
            }
        } else if p.current_level < p.next_level && crossing {
            Some(enemy_hit(pl))
        } else if p.radius < space && (in_triangle(arc.start, pts[0], pts[1], pts[3])
            || in_triangle(arc.end, pts[0], pts[1], pts[3])) {
            if arc.is_enemy {
                Some(enemy_hit(pl))
            } else {
                Some(wall_hit(pl, p))
            }
        } else {
            None
        }
    }
}

/// The player after the arcs from index `k` on: the first arc that touches
/// it decides, and the rest are not looked at.
pub open spec fn resolved(pl: Player, size: i64, p: Position, arcs: Seq<ArcBounds>, k: int) -> (
    Player,
    Position,
)
    decreases arcs.len() - k,
{
    if k < 0 || k >= arcs.len() {
        (pl, p)
    } else {
        match arc_response(pl, size, p, arcs[k]) {
            Some(r) => r,
            None => resolved(pl, size, p, arcs, k + 1),
        }
    }
}

/// One entity after the collisions of a tick: a player with a view and a
/// position meets the arcs.
pub open spec fn entity_collided(e: Entity, arcs: Seq<ArcBounds>) -> Entity {
    match (e.player, e.view, e.position) {
        (Some(pl), Some(v), Some(p)) => {
            let (pl2, p2) = resolved(pl, v.size, p, arcs, 0);
            Entity { player: Some(pl2), position: Some(p2), ..e }
        },
        _ => e,
    }
}

/// Detects and resolves the player's collisions with obstacle arcs.
pub struct Collision;

proof fn lemma_wf_radius_bounded(p: Position)
    requires
        p.wf(),
    ensures
        -RADIUS_LIMIT <= p.radius <= RADIUS_LIMIT,
        -RADIUS_LIMIT <= level_radius(p.current_level as int) <= RADIUS_LIMIT,
{
}

impl Collision {
    /// Whether `mid` lies in the arc going counter-clockwise from `start` to
    /// `end`, all three in `[0, 2π)`.
    pub fn is_between_angle(&self, mid: i64, start: i64, end: i64) -> (r: bool)
        ensures
            r == angle_between(mid as int, start as int, end as int),
    {
        let r = PI_2 as i128;
        let d = end as i128 - start as i128;
        let e = if d < 0 {
            d + r
        } else {
            d
        };
        let dm = mid as i128 - start as i128;
        let m = if dm < 0 {
            dm + r
        } else {
            dm
        };
        m < e
    }

    /// The point at polar coordinates `(angle, radius)`.
    pub fn make_point(&self, angle: i64, radius: i64) -> (r: Point)
        requires
            -RADIUS_LIMIT <= radius <= RADIUS_LIMIT,
        ensures
            r == polar_point(angle as int, radius as int),
            r.is_bounded(),
    {
        point_at(angle, radius)
    }

    /// Whether angle `mid` falls within the arc from `start` to `end`, after
    /// bringing all three into `[0, 2π)`.
    pub fn is_radius_collision(&self, mid: i64, start: i64, end: i64) -> (r: bool)
        ensures
            r == angle_between(
                normalized(mid as int),
                normalized(start as int),
                normalized(end as int),
            ),
    {
        let start = normalize_angle(start);
        let end = normalize_angle(end);
        let mid = normalize_angle(mid);
        self.is_between_angle(mid, start, end)
    }

    /// Whether `point` lies inside the player's footprint (its tip and two
    /// side corners).
    pub fn is_body_collision(&self, point: Point, triangle: &Vec<Point>) -> (r: bool)
        requires
            triangle@.len() >= 4,
            point.is_bounded(),
            triangle@[0].is_bounded(),
            triangle@[1].is_bounded(),
            triangle@[3].is_bounded(),
        ensures
            r == in_triangle(point, triangle@[0], triangle@[1], triangle@[3]),
    {
        self.collision_point_in_triangle(point, triangle[0], triangle[1], triangle[3])
    }

    /// Whether `p` lies strictly inside the triangle `(p0, p1, p2)`.
    pub fn collision_point_in_triangle(&self, p: Point, p0: Point, p1: Point, p2: Point) -> (r:
        bool)
        requires
            p.is_bounded(),
            p0.is_bounded(),
            p1.is_bounded(),
            p2.is_bounded(),
        ensures
            r == in_triangle(p, p0, p1, p2),
    {
        let a2 = wide_mul(-(p1.y as i128), p2.x as i128) + wide_mul(
            p0.y as i128,
            -(p1.x as i128) + p2.x as i128,
        ) + wide_mul(p0.x as i128, p1.y as i128 - p2.y as i128) + wide_mul(
            p1.x as i128,
            p2.y as i128,
        );
        let sign: i128 = if a2 < 0 {
            -1
        } else {
            1
        };
        let s0 = wide_mul(p0.y as i128, p2.x as i128) - wide_mul(p0.x as i128, p2.y as i128)
            + wide_mul(p2.y as i128 - p0.y as i128, p.x as i128) + wide_mul(
            p0.x as i128 - p2.x as i128,
            p.y as i128,
        );
        let t0 = wide_mul(p0.x as i128, p1.y as i128) - wide_mul(p0.y as i128, p1.x as i128)
            + wide_mul(p0.y as i128 - p1.y as i128, p.x as i128) + wide_mul(
            p1.x as i128 - p0.x as i128,
            p.y as i128,
        );
        let s = if sign < 0 {
            -s0
        } else {
            s0
        };
        let t = if sign < 0 {
            -t0
        } else {
            t0
        };
        let area = if sign < 0 {
            -a2
        } else {
            a2
        };
        proof {
            let sg: int = if a2 < 0 { -1 } else { 1 };
            assert(a2 == double_area(p0, p1, p2)) by (nonlinear_arith)
                requires a2 == (-(p1.y as int)) * p2.x + p0.y * (-p1.x + p2.x) + p0.x * (p1.y - p2.y) + p1.x * p2.y;
            assert(s == s0 * sg);
            assert(t == t0 * sg);
            assert(area == a2 * sg);
        }
        s > 0 && t > 0 && s + t < area
    }
}

impl Collision {
    /// The `(current_level, next_level)` pairs of the players.
    fn collect_levels(&self, entities: &Vec<Entity>) -> (r: Vec<(i32, i32)>)
        ensures
            r@ == player_levels(entities@),
    {
        let mut r: Vec<(i32, i32)> = Vec::new();
        let mut i: usize = 0;
        while i < entities.len()
            invariant
                0 <= i <= entities@.len(),
                r@ == player_levels(entities@.subrange(0, i as int)),
            decreases entities@.len() - i,
        {
            proof {
                assert(entities@.subrange(0, i + 1).drop_last() =~= entities@.subrange(0, i as int));
            }
            let e = entities[i];
            if let (Some(_), Some(p)) = (e.player, e.position) {
                r.push((p.current_level, p.next_level));
            }
            i = i + 1;
        }
        proof {
            assert(entities@.subrange(0, entities@.len() as int) =~= entities@);
        }
        r
    }

    /// The arcs that one obstacle contributes.
    fn entity_arcs(&self, e: Entity, levels: &Vec<(i32, i32)>) -> (r: Vec<ArcBounds>)
        requires
            entity_wf(e),
        ensures
            r@ == entity_arcs(e, levels@),
            forall|k: int| 0 <= k < r@.len() ==> arc_bounded(#[trigger] r@[k]),
    {
        let mut r: Vec<ArcBounds> = Vec::new();
        let mut j: usize = 0;
        while j < levels.len()
            invariant
                entity_wf(e),
                0 <= j <= levels@.len(),
                r@ == entity_arcs(e, levels@.subrange(0, j as int)),
                forall|k: int| 0 <= k < r@.len() ==> arc_bounded(#[trigger] r@[k]),
            decreases levels@.len() - j,
        {
            proof {
                assert(levels@.subrange(0, j + 1).drop_last() =~= levels@.subrange(0, j as int));
            }
            let (c, n) = levels[j];
            if let (None, Some(v), Some(p)) = (e.player, e.view, e.position) {
                if (c == p.current_level || n == p.current_level) && v.form == Form::Circle {
                    proof {
                        lemma_wf_radius_bounded(p);
                    }
                    let end_angle = normalize_angle(p.angle + v.size);
                    r.push(
                        ArcBounds {
                            is_enemy: e.enemy.is_some(),
                            level: p.current_level,
                            start: self.make_point(p.angle, p.radius),
                            end: self.make_point(end_angle, p.radius),
                            start_angle: p.angle,
                            end_angle,
                        },
                    );
                }
            }
            j = j + 1;
        }
        proof {
            assert(levels@.subrange(0, levels@.len() as int) =~= levels@);
        }
        r
    }

    /// The arcs of all obstacles.
    fn collect_arcs(&self, entities: &Vec<Entity>, levels: &Vec<(i32, i32)>) -> (r: Vec<
        ArcBounds,
    >)
        requires
            entities_wf(entities@),
        ensures
            r@ == arcs_of(entities@, levels@),
            forall|k: int| 0 <= k < r@.len() ==> arc_bounded(#[trigger] r@[k]),
    {
        let mut r: Vec<ArcBounds> = Vec::new();
        let mut i: usize = 0;
        while i < entities.len()
            invariant
                entities_wf(entities@),
                0 <= i <= entities@.len(),
                r@ == arcs_of(entities@.subrange(0, i as int), levels@),
                forall|k: int| 0 <= k < r@.len() ==> arc_bounded(#[trigger] r@[k]),
            decreases entities@.len() - i,
        {
            proof {
                assert(entities@.subrange(0, i + 1).drop_last() =~= entities@.subrange(0, i as int));
            }
            let mut more = self.entity_arcs(entities[i], levels);
            r.append(&mut more);
            i = i + 1;
        }
        proof {
            assert(entities@.subrange(0, entities@.len() as int) =~= entities@);
        }
        r
    }

    /// The player after losing a life to an enemy.
    fn hit_by_enemy(&self, pl: Player) -> (r: (Player, Position))
        ensures
            r == enemy_hit(pl),
            r.1.wf(),
    {
        let mut pl = pl;
        pl.collision = Some(CollisionType::Enemy);
        pl.take_life();
        let mut p = Position::new(PLAYER_START_LEVEL, PLAYER_START_ANGLE);
        p.set_default_player();
        (pl, p)
    }

    /// The player after running into a wall between rings.
    fn hit_wall(&self, pl: Player, p: Position) -> (r: (Player, Position))
        ensures
            r == wall_hit(pl, p),
            p.wf() ==> r.1.wf(),
    {
        let mut pl = pl;
        let mut p = p;
        pl.collision = Some(CollisionType::Wall);
        p.swap_level();
        (pl, p)
    }

    /// The player after a same-ring hit that bounces it to `angle`.
    fn hit_body(&self, pl: Player, p: Position, is_enemy: bool, angle: i64) -> (r: (
        Player,
        Position,
    ))
        ensures
            r == body_hit(pl, p, is_enemy, angle as int),
            p.wf() ==> r.1.wf(),
    {
        if is_enemy {
            self.hit_by_enemy(pl)
        } else {
            let mut p = p;
            p.angle = normalize_angle(angle);
            (pl, p)
        }
    }

    /// What one arc does to the player, if it touches it.
    fn respond(&self, pl: Player, size: i64, p: Position, arc: ArcBounds, pts: &Vec<Point>) -> (r:
        Option<(Player, Position)>)
        requires
            p.wf(),
            -RADIUS_LIMIT <= size <= RADIUS_LIMIT,
            pts@ == footprint(p.radius as int, p.angle as int, size as int, LEVEL_FILL_RADIUS as int),
            forall|k: int| 0 <= k < pts@.len() ==> (#[trigger] pts@[k]).is_bounded(),
            arc_bounded(arc),
        ensures
            r == arc_response(pl, size, p, arc),
            r matches Some(q) ==> q.1.wf(),
    {
        proof {
            lemma_wf_radius_bounded(p);
            assert(pts@[0].is_bounded() && pts@[1].is_bounded() && pts@[3].is_bounded());
        }
        let space = get_level_radius(p.current_level) - LEVEL_SPACE_RADIUS;
        let off: i64 = if p.radius > 0 && size >= 0 {
            size * MICRO / p.radius
        } else {
            0
        };
        if p.current_level == arc.level {
            if self.is_body_collision(arc.start, pts) {
                let sa = normalize_angle(arc.start_angle);
                let pa = normalize_angle(p.angle - off);
                Some(self.hit_body(pl, p, arc.is_enemy, (pa - p.angle) + sa))
            } else if self.is_body_collision(arc.end, pts) {
                let sa = normalize_angle(arc.end_angle);
                let pa = normalize_angle(p.angle + off);
                Some(self.hit_body(pl, p, arc.is_enemy, sa - (p.angle - pa)))
            } else {
                None
            }
        } else {
            let crossing = self.is_radius_collision(p.angle, arc.start_angle, arc.end_angle);
            if p.radius <= space && crossing {
                if arc.is_enemy {
                    Some(self.hit_by_enemy(pl))
                } else {
                    Some(self.hit_wall(pl, p))
                }
            } else if p.current_level < p.next_level && crossing {
                Some(self.hit_by_enemy(pl))
            } else if p.radius < space && (self.is_body_collision(arc.start, pts)
                || self.is_body_collision(arc.end, pts)) {
                if arc.is_enemy {
                    Some(self.hit_by_enemy(pl))
                } else {
                    Some(self.hit_wall(pl, p))
                }
            } else {
                None
            }
        }
    }

    /// The player after meeting the arcs: the first arc that touches it
    /// decides.
    pub fn resolve_player(&self, pl: Player, size: i64, p: Position, arcs: &Vec<ArcBounds>) -> (r: (
        Player,
        Position,
    ))
        requires
            p.wf(),
            -RADIUS_LIMIT <= size <= RADIUS_LIMIT,
            forall|k: int| 0 <= k < arcs@.len() ==> arc_bounded(#[trigger] arcs@[k]),
        ensures
            r == resolved(pl, size, p, arcs@, 0),
            r.1.wf(),
    {
        proof {
            lemma_wf_radius_bounded(p);
        }
        let pts = player(p.radius, p.angle, size, LEVEL_FILL_RADIUS);
        let mut k: usize = 0;
        while k < arcs.len()
            invariant
                p.wf(),
                -RADIUS_LIMIT <= size <= RADIUS_LIMIT,
                pts@ == footprint(p.radius as int, p.angle as int, size as int, LEVEL_FILL_RADIUS as int),
                forall|j: int| 0 <= j < pts@.len() ==> (#[trigger] pts@[j]).is_bounded(),
                forall|j: int| 0 <= j < arcs@.len() ==> arc_bounded(#[trigger] arcs@[j]),
                0 <= k <= arcs@.len(),
                resolved(pl, size, p, arcs@, 0) == resolved(pl, size, p, arcs@, k as int),
            decreases arcs@.len() - k,
        {
            if let Some(q) = self.respond(pl, size, p, arcs[k], &pts) {
                return q;
            }
            k = k + 1;
        }
        (pl, p)
    }

    /// Resolves the collisions of one tick: every player meets the arcs of
    /// the obstacles on its current or target ring.
    pub fn run(&mut self, entities: &mut Vec<Entity>)
        requires
            entities_wf(old(entities)@),
        ensures
            final(entities)@.len() == old(entities)@.len(),
            entities_wf(final(entities)@),
            forall|i: int|
                0 <= i < old(entities)@.len() ==> #[trigger] final(entities)@[i] == entity_collided(
                    old(entities)@[i],
                    arcs_of(old(entities)@, player_levels(old(entities)@)),
                ),
    {
        let levels = self.collect_levels(entities);
        let arcs = self.collect_arcs(entities, &levels);
        let ghost all_arcs = arcs@;
        let n = entities.len();
        let mut i: usize = 0;
        while i < n
            invariant
                n == old(entities)@.len(),
                entities@.len() == n,
                0 <= i <= n,
                all_arcs == arcs_of(old(entities)@, player_levels(old(entities)@)),
                arcs@ == all_arcs,
                forall|k: int| 0 <= k < arcs@.len() ==> arc_bounded(#[trigger] arcs@[k]),
                entities_wf(old(entities)@),
                forall|j: int| 0 <= j < i ==> #[trigger] entities@[j] == entity_collided(
                    old(entities)@[j],
                    all_arcs,
                ),
                forall|j: int| 0 <= j < i ==> entity_wf(#[trigger] entities@[j]),
                forall|j: int| i <= j < n ==> #[trigger] entities@[j] == old(entities)@[j],
            decreases n - i,
        {
            let e = entities[i];
            proof {
                assert(entity_wf(old(entities)@[i as int]));
            }
            if let (Some(pl), Some(v), Some(p)) = (e.player, e.view, e.position) {
                let (pl2, p2) = self.resolve_player(pl, v.size, p, &arcs);
                let mut e2 = e;
                e2.player = Some(pl2);
                e2.position = Some(p2);
                entities.set(i, e2);
            }
            i = i + 1;
        }
    }
}

/// The arc's end points are within the bounds of geometry.
pub open spec fn arc_bounded(arc: ArcBounds) -> bool {
    arc.start.is_bounded() && arc.end.is_bounded()
}

/// The first arc that touches the player decides the whole tick.
pub proof fn lemma_first_contact_decides(
    pl: Player,
    size: i64,
    p: Position,
    arcs: Seq<ArcBounds>,
    k: int,
)
    requires
        0 <= k < arcs.len(),
        forall|j: int| 0 <= j < k ==> arc_response(pl, size, p, #[trigger] arcs[j]) is None,
        arc_response(pl, size, p, arcs[k]) is Some,
    ensures
        Some(resolved(pl, size, p, arcs, 0)) == arc_response(pl, size, p, arcs[k]),
{
    lemma_resolved_skips(pl, size, p, arcs, 0, k);
}

proof fn lemma_resolved_skips(
    pl: Player,
    size: i64,
    p: Position,
    arcs: Seq<ArcBounds>,
    i: int,
    k: int,
)
    requires
        0 <= i <= k < arcs.len(),
        forall|j: int| 0 <= j < k ==> arc_response(pl, size, p, #[trigger] arcs[j]) is None,
    ensures
        resolved(pl, size, p, arcs, i) == resolved(pl, size, p, arcs, k),
    decreases k - i,
{
    if i < k {
        assert(arc_response(pl, size, p, arcs[i]) is None);
        lemma_resolved_skips(pl, size, p, arcs, i + 1, k);
    }
}

/// A player standing on a ring whose footprint holds an end point of an
/// enemy arc on that ring loses exactly one life, is marked as hit by an
/// enemy, and goes back to the start ring and angle.
pub proof fn lemma_enemy_contact_costs_one_life(pl: Player, size: i64, p: Position, arc: ArcBounds)
    requires
        p.current_level == p.next_level,
        arc.level == p.current_level,
        arc.is_enemy,
        pl.life > 0,
        ({
            let pts = footprint(
                p.radius as int,
                p.angle as int,
                size as int,
                LEVEL_FILL_RADIUS as int,
            );
            in_triangle(arc.start, pts[0], pts[1], pts[3]) || in_triangle(
                arc.end,
                pts[0],
                pts[1],
                pts[3],
            )
        }),
    ensures
        arc_response(pl, size, p, arc) matches Some(r) && r.0.life == pl.life - 1 && r.0.collision
            == Some(CollisionType::Enemy) && r.1 == Position::on_level(
            PLAYER_START_LEVEL,
            PLAYER_START_ANGLE,
        ),
{
}

/// A player standing on a ring whose footprint holds an end point of a
/// wall arc on that ring keeps its lives and its rings; only its angle
/// bounces.
pub proof fn lemma_wall_contact_on_ring_bounces(pl: Player, size: i64, p: Position, arc: ArcBounds)
    requires
        p.current_level == p.next_level,
        arc.level == p.current_level,
        !arc.is_enemy,
        ({
            let pts = footprint(
                p.radius as int,
                p.angle as int,
                size as int,
                LEVEL_FILL_RADIUS as int,
            );
            in_triangle(arc.start, pts[0], pts[1], pts[3]) || in_triangle(
                arc.end,
                pts[0],
                pts[1],
                pts[3],
            )
        }),
    ensures
        arc_response(pl, size, p, arc) matches Some(r) && r.0 == pl && r.1.current_level
            == p.current_level && r.1.next_level == p.next_level && r.1.radius == p.radius,
{
}

/// A player past the settle radius of its ring that meets a wall arc of
/// another ring (across its angle or with its footprint) keeps its lives,
/// is marked as hit by a wall, and has its ring change turned around.
pub proof fn lemma_wall_contact_in_gap_swaps(pl: Player, size: i64, p: Position, arc: ArcBounds)
    requires
        arc.level != p.current_level,
        !arc.is_enemy,
        p.radius < settle_radius(p),
        ({
            let pts = footprint(
                p.radius as int,
                p.angle as int,
                size as int,
                LEVEL_FILL_RADIUS as int,
            );
            angle_between(
                normalized(p.angle as int),
                normalized(arc.start_angle as int),
                normalized(arc.end_angle as int),
            ) || in_triangle(arc.start, pts[0], pts[1], pts[3]) || in_triangle(
                arc.end,
                pts[0],
                pts[1],
                pts[3],
            )
        }),
    ensures
        arc_response(pl, size, p, arc) == Some(wall_hit(pl, p)),
        wall_hit(pl, p).0.life == pl.life,
        wall_hit(pl, p).1.current_level == p.next_level,
        wall_hit(pl, p).1.next_level == p.current_level,
{
}

/// The countdown after a tick at clock reading `now`: the first tick only
/// records the reading; each tick takes the time since the previous one off
/// the timer, which stops at zero.
pub open spec fn timer_ticked(gt: GameTime, now: u64) -> GameTime {
    let last = match gt.last_instant {
        Some(l) => l,
        None => now,
    };
    let delta: u64 = if now >= last {
        (now - last) as u64
    } else {
        0
    };
    GameTime {
        last_instant: Some(now),
        delta,
        timer: if gt.timer >= delta {
            (gt.timer - delta) as u64
        } else {
            0
        },
    }
}

/// The countdown after ticks at the clock readings `rs`, in order.
pub open spec fn ticked_through(gt: GameTime, rs: Seq<u64>) -> GameTime
    decreases rs.len(),
{
    if rs.len() == 0 {
        gt
    } else {
        timer_ticked(ticked_through(gt, rs.drop_last()), rs.last())
    }
}

/// Over ticks at non-decreasing clock readings, starting from a countdown
/// that has not ticked yet, the timer never grows and has lost exactly the
/// time between the first and the last reading, stopping at zero; a
/// countdown of `GAME_TIME_MS` is at zero once that much time has passed.
pub proof fn lemma_countdown_over_ticks(gt: GameTime, rs: Seq<u64>)
    requires
        gt.last_instant is None,
        rs.len() > 0,
        forall|i: int, j: int| 0 <= i <= j < rs.len() ==> rs[i] <= rs[j],
    ensures
        ticked_through(gt, rs).last_instant == Some(rs.last()),
        ticked_through(gt, rs).timer == (if gt.timer >= rs.last() - rs[0] {
            gt.timer - (rs.last() - rs[0])
        } else {
            0
        }),
        ticked_through(gt, rs).timer <= ticked_through(gt, rs.drop_last()).timer,
        gt.timer == GAME_TIME_MS && rs.last() - rs[0] >= GAME_TIME_MS ==> ticked_through(
            gt,
            rs,
        ).timer == 0,
    decreases rs.len(),
{
    if rs.len() > 1 {
        let t = rs.drop_last();
        assert forall|i: int, j: int| 0 <= i <= j < t.len() implies t[i] <= t[j] by {
            assert(t[i] == rs[i] && t[j] == rs[j]);
        }
        lemma_countdown_over_ticks(gt, t);
        assert(t.last() == rs[rs.len() - 2]);
        assert(t[0] == rs[0]);
        assert(rs[rs.len() - 2] <= rs.last());
    } else {
        assert(rs.drop_last().len() == 0);
        assert(rs.last() == rs[0]);
    }
}

/// Advances the countdown.
pub struct UpdateTimer;

impl UpdateTimer {
    /// One tick of the countdown at clock reading `now` (milliseconds).
    pub fn run(&mut self, gt: &mut GameTime, now: u64)
        ensures
            *final(gt) == timer_ticked(*old(gt), now),
            final(gt).timer <= old(gt).timer,
    {
        let last = match gt.last_instant {
            Some(l) => l,
            None => now,
        };
        gt.delta = now.saturating_sub(last);
        gt.last_instant = Some(now);
        gt.timer = gt.timer.saturating_sub(gt.delta);
    }
}

/// The status after looking at the players of `es`: a player without lives
/// ends the game, a player on the goal ring completes the level; the last
/// one looked at wins.
pub open spec fn status_of_players(status: Option<GameStatus>, es: Seq<Entity>) -> Option<GameStatus>
    decreases es.len(),
{
    if es.len() == 0 {
        status
    } else {
        let s = status_of_players(status, es.drop_last());
        match (es.last().player, es.last().position) {
            (Some(p), Some(pos)) => {
                let s1 = if p.life == 0 {
                    Some(GameStatus::GameOver)
                } else {
                    s
                };
                if pos.current_level == 0 {
                    Some(GameStatus::LevelCompleted)
                } else {
                    s1
                }
            },
            _ => s,
        }
    }
}

/// Looking at the players only ever sets a status, never clears one.
pub proof fn lemma_status_only_set(status: Option<GameStatus>, es: Seq<Entity>)
    ensures
        status is Some ==> status_of_players(status, es) is Some,
    decreases es.len(),
{
    if es.len() > 0 {
        lemma_status_only_set(status, es.drop_last());
    }
}

/// The entity is not on the goal ring.
pub open spec fn off_goal(e: Entity) -> bool {
    match e.position {
        Some(p) => p.current_level != 0,
        None => true,
    }
}

/// With the countdown run out and nothing on the goal ring, the attempt is
/// over.
pub proof fn lemma_expired_timer_ends_game(status: Option<GameStatus>, gt: GameTime, es: Seq<Entity>)
    requires
        gt.timer == 0,
        forall|i: int|
            0 <= i < es.len() ==> off_goal(#[trigger] es[i]),
    ensures
        status_after(status, gt, es) == Some(GameStatus::GameOver),
{
    lemma_game_over_kept(es);
}

proof fn lemma_game_over_kept(es: Seq<Entity>)
    requires
        forall|i: int|
            0 <= i < es.len() ==> off_goal(#[trigger] es[i]),
    ensures
        status_of_players(Some(GameStatus::GameOver), es) == Some(GameStatus::GameOver),
    decreases es.len(),
{
    if es.len() > 0 {
        assert forall|i: int| 0 <= i < es.drop_last().len() implies off_goal(#[trigger] es.drop_last()[i]) by {
            assert(es.drop_last()[i] == es[i]);
        }
        lemma_game_over_kept(es.drop_last());
        assert(es.last() == es[es.len() - 1]);
    }
}

/// The status after a tick: an expired timer ends the game, then the players
/// are looked at.
pub open spec fn status_after(status: Option<GameStatus>, gt: GameTime, es: Seq<Entity>) -> Option<
    GameStatus,
> {
    let s = if gt.timer == 0 {
        Some(GameStatus::GameOver)
    } else {
        status
    };
    status_of_players(s, es)
}

/// Derives the terminal status of the attempt.
pub struct UpdateGameState;

impl UpdateGameState {
    /// Sets the status from the timer and the players.
    pub fn run(&mut self, gs: &mut GameState, gt: &GameTime, entities: &Vec<Entity>)
        ensures
            *final(gs) == (GameState { status: status_after(old(gs).status, *gt, entities@), ..*old(gs) }),
    {
        if gt.timer == 0 {
            gs.status = Some(GameStatus::GameOver);
        }
        let ghost start = gs.status;
        let mut i: usize = 0;
        while i < entities.len()
            invariant
                0 <= i <= entities@.len(),
                *gs == (GameState { status: status_of_players(start, entities@.subrange(0, i as int)), ..*old(gs) }),
                start == (if gt.timer == 0 { Some(GameStatus::GameOver) } else { old(gs).status }),
            decreases entities@.len() - i,
        {
            proof {
                assert(entities@.subrange(0, i + 1).drop_last() =~= entities@.subrange(0, i as int));
            }
            if let (Some(p), Some(pos)) = (entities[i].player, entities[i].position) {
                if p.life == 0 {
                    gs.status = Some(GameStatus::GameOver);
                }
                if pos.current_level == 0 {
                    gs.status = Some(GameStatus::LevelCompleted);
                }
            }
            i = i + 1;
        }
        proof {
            assert(entities@.subrange(0, entities@.len() as int) =~= entities@);
        }
    }
}

/// The game state after the global keys of a tick: F2 switches the control
/// mode, F3 the theme.
pub open spec fn globals_toggled(gs: GameState, key: Option<Key>) -> GameState {
    match key {
        Some(Key::F2) => GameState {
            control: if gs.control == Control::Normal {
                Control::Advanced
            } else {
                Control::Normal
            },
            ..gs
        },
        Some(Key::F3) => GameState {
            theme: if gs.theme == Theme::Dark {
                Theme::Light
            } else {
                Theme::Dark
            },
            ..gs
        },
        _ => gs,
    }
}

/// Handles the keys that work in every menu.
pub struct UpdateGlobalState;

impl UpdateGlobalState {
    /// Switches control mode or theme on their keys.
    pub fn run(&mut self, gs: &mut GameState, ks: &KeyState)
        ensures
            *final(gs) == globals_toggled(*old(gs), ks.key),
    {
        match ks.key {
            Some(Key::F2) => {
                gs.control = if gs.control == Control::Normal {
                    Control::Advanced
                } else {
                    Control::Normal
                };
            },
            Some(Key::F3) => {
                gs.theme = if gs.theme == Theme::Dark {
                    Theme::Light
                } else {
                    Theme::Dark
                };
            },
            _ => {},
        }
    }
}

/// Moves the curtain.
pub struct UpdateCurtain;

impl UpdateCurtain {
    /// Grows or shrinks the curtain by its constriction (a step past the
    /// range of `i64` leaves it where it is).
    pub fn run(&mut self, curtain: &mut Curtain)
        ensures
            ({
                let sum = old(curtain).radius + old(curtain).constriction;
                *final(curtain) == (Curtain {
                    radius: if i64::MIN <= sum <= i64::MAX {
                        sum as i64
                    } else {
                        old(curtain).radius
                    },
                    ..*old(curtain)
                })
            }),
    {
        curtain.radius = match curtain.radius.checked_add(curtain.constriction) {
            Some(r) => r,
            None => curtain.radius,
        };
    }
}

/// The selected entry after the keys of a tick: down moves to the next entry
/// (staying on the last), up to the previous one (staying on the first).
pub open spec fn menu_selection(current: usize, len: nat, key: Option<Key>) -> usize {
    match key {
        Some(Key::Down) => if current + 1 < len {
            (current + 1) as usize
        } else {
            (len - 1) as usize
        },
        Some(Key::Up) => if current > 0 {
            (current - 1) as usize
        } else {
            current
        },
        _ => current,
    }
}

/// Moves the menu selection.
pub struct UpdateMenu;

impl UpdateMenu {
    /// Moves the selection on the up and down keys.
    pub fn run(&mut self, ks: &KeyState, menu: &mut Menu)
        requires
            ks.key == Some(Key::Down) ==> old(menu).items@.len() > 0,
        ensures
            final(menu).current_item == menu_selection(
                old(menu).current_item,
                old(menu).items@.len(),
                ks.key,
            ),
            final(menu).items == old(menu).items,
            final(menu).title == old(menu).title,
            final(menu).subtitle == old(menu).subtitle,
    {
        match ks.key {
            Some(Key::Down) => {
                let last = menu.items.len() - 1;
                menu.current_item = if menu.current_item >= last {
                    last
                } else {
                    menu.current_item + 1
                };
            },
            Some(Key::Up) => {
                if menu.current_item > 0 {
                    menu.current_item = menu.current_item - 1;
                }
            },
            _ => {},
        }
    }
}

/// Hands the players' collisions to the audio side.
pub struct Music;

impl Music {
    /// Takes each player's collision of the tick, in table order, and clears
    /// it.
    pub fn run(&mut self, entities: &mut Vec<Entity>) -> (r: Vec<CollisionType>)
        ensures
            r@ == collisions_of(old(entities)@),
            final(entities)@.len() == old(entities)@.len(),
            forall|i: int|
                0 <= i < old(entities)@.len() ==> #[trigger] final(entities)@[i] == collision_cleared(
                    old(entities)@[i],
                ),
    {
        let mut r: Vec<CollisionType> = Vec::new();
        let n = entities.len();
        let mut i: usize = 0;
        while i < n
            invariant
                n == old(entities)@.len(),
                entities@.len() == n,
                0 <= i <= n,
                r@ == collisions_of(old(entities)@.subrange(0, i as int)),
                forall|j: int| 0 <= j < i ==> #[trigger] entities@[j] == collision_cleared(
                    old(entities)@[j],
                ),
                forall|j: int| i <= j < n ==> #[trigger] entities@[j] == old(entities)@[j],
            decreases n - i,
        {
            proof {
                assert(old(entities)@.subrange(0, i + 1).drop_last() =~= old(entities)@.subrange(0, i as int));
            }
            let e = entities[i];
            if let Some(mut p) = e.player {
                if let Some(c) = p.collision {
                    r.push(c);
                }
                p.collision = None;
                let mut e2 = e;
                e2.player = Some(p);
                entities.set(i, e2);
            }
            i = i + 1;
        }
        proof {
            assert(old(entities)@.subrange(0, n as int) =~= old(entities)@);
        }
        r
    }
}

/// The collisions that the players of `es` carry, in table order.
pub open spec fn collisions_of(es: Seq<Entity>) -> Seq<CollisionType>
    decreases es.len(),
{
    if es.len() == 0 {
        Seq::empty()
    } else {
        let rest = collisions_of(es.drop_last());
        match es.last().player {
            Some(p) => match p.collision {
                Some(c) => rest.push(c),
                None => rest,
            },
            None => rest,
        }
    }
}

/// The entity with its player's collision cleared.
pub open spec fn collision_cleared(e: Entity) -> Entity {
    match e.player {
        Some(p) => Entity { player: Some(Player { collision: None, ..p }), ..e },
        None => e,
    }
}

/// Bound on each factor that `wide_mul` takes: twice `COORD_LIMIT`.
const FACTOR_LIMIT: i128 = 20_000_000_000_000_000;

/// `a * b` in 128 bits, for factors that are coordinates or differences of
/// coordinates.
fn wide_mul(a: i128, b: i128) -> (r: i128)
    requires
        -FACTOR_LIMIT <= a <= FACTOR_LIMIT,
        -FACTOR_LIMIT <= b <= FACTOR_LIMIT,
    ensures
        r == a * b,
        -FACTOR_LIMIT * FACTOR_LIMIT <= r <= FACTOR_LIMIT * FACTOR_LIMIT,
{
    proof {
        assert(-FACTOR_LIMIT * FACTOR_LIMIT <= a * b <= FACTOR_LIMIT * FACTOR_LIMIT)
            by (nonlinear_arith)
            requires
                -FACTOR_LIMIT <= a <= FACTOR_LIMIT,
                -FACTOR_LIMIT <= b <= FACTOR_LIMIT,
        ;
    }
    a * b
}

} // verus!
