use to_center::components::{CollisionType, Enemy, Form, Player, Position, View};
use to_center::consts::{HORIZONTAL_SPEED_MIN, PI_2, PLAYER_START_ANGLE, PLAYER_START_LEVEL};
use to_center::shapes::Point;
use to_center::systems::Collision;
use to_center::world::{entities_consistent, Entity};

fn player_at(pos: Position) -> Entity {
    Entity {
        position: Some(pos),
        view: Some(View { form: Form::Triangle, size: 8 }),
        player: Some(Player {
            life: 3,
            speed: HORIZONTAL_SPEED_MIN,
            speed_press_ms: 0,
            start_angle_repeat: PLAYER_START_ANGLE,
            collision: None,
        }),
        enemy: None,
        constant_movement: None,
    }
}

fn arc_at(pos: Position, size: i64, enemy: bool) -> Entity {
    Entity {
        position: Some(pos),
        view: Some(View { form: Form::Circle, size }),
        player: None,
        enemy: if enemy { Some(Enemy { color: 0 }) } else { None },
        constant_movement: None,
    }
}

fn obstacle_in_footprint(enemy: bool) -> Vec<Entity> {
    vec![
        player_at(Position::new(3, 1_000_000)),
        arc_at(
            Position { radius: 205, angle: 1_000_000, current_level: 3, next_level: 2 },
            300_000,
            enemy,
        ),
    ]
}

#[test]
fn enemy_in_footprint_costs_one_life_and_respawns() {
    let mut es = obstacle_in_footprint(true);
    assert!(entities_consistent(&es));
    Collision.run(&mut es);
    let pl = es[0].player.unwrap();
    let p = es[0].position.unwrap();
    assert_eq!(pl.life, 2);
    assert_eq!(pl.collision, Some(CollisionType::Enemy));
    assert_eq!(p, Position::new(PLAYER_START_LEVEL, PLAYER_START_ANGLE));
    // the obstacle itself is untouched
    assert_eq!(es[1], obstacle_in_footprint(true)[1]);
}

#[test]
fn wall_in_footprint_bounces_without_cost() {
    let mut es = obstacle_in_footprint(false);
    Collision.run(&mut es);
    let pl = es[0].player.unwrap();
    let p = es[0].position.unwrap();
    assert_eq!(pl.life, 3);
    assert_eq!(pl.collision, None);
    assert_eq!((p.current_level, p.next_level, p.radius), (3, 3, 215));
    // the corner offset is 8 / 215 radians
    assert_eq!(p.angle, 1_000_000 - 37_209);
}

#[test]
fn wall_in_gap_turns_the_ring_change_around() {
    let mut es = vec![
        player_at(Position { radius: 190, angle: 1_000_000, current_level: 3, next_level: 2 }),
        arc_at(Position::new(2, 900_000), 300_000, false),
    ];
    assert!(entities_consistent(&es));
    Collision.run(&mut es);
    let pl = es[0].player.unwrap();
    let p = es[0].position.unwrap();
    assert_eq!(pl.life, 3);
    assert_eq!(pl.collision, Some(CollisionType::Wall));
    assert_eq!((p.current_level, p.next_level, p.radius, p.angle), (2, 3, 190, 1_000_000));
}

#[test]
fn enemy_in_gap_costs_one_life() {
    let mut es = vec![
        player_at(Position { radius: 190, angle: 1_000_000, current_level: 3, next_level: 2 }),
        arc_at(Position::new(2, 900_000), 300_000, true),
    ];
    Collision.run(&mut es);
    let pl = es[0].player.unwrap();
    assert_eq!(pl.life, 2);
    assert_eq!(pl.collision, Some(CollisionType::Enemy));
    assert_eq!(es[0].position.unwrap(), Position::new(PLAYER_START_LEVEL, PLAYER_START_ANGLE));
}

#[test]
fn moving_outwards_into_any_arc_costs_one_life() {
    let mut es = vec![
        player_at(Position { radius: 172, angle: 1_000_000, current_level: 2, next_level: 3 }),
        arc_at(Position::new(3, 900_000), 300_000, false),
    ];
    Collision.run(&mut es);
    let pl = es[0].player.unwrap();
    assert_eq!(pl.life, 2);
    assert_eq!(pl.collision, Some(CollisionType::Enemy));
}

#[test]
fn gap_in_the_arc_lets_the_player_through() {
    let start = vec![
        player_at(Position { radius: 190, angle: 1_000_000, current_level: 3, next_level: 2 }),
        arc_at(Position::new(2, 1_100_000), 300_000, true),
    ];
    let mut es = start.clone();
    Collision.run(&mut es);
    assert_eq!(es, start);
}

#[test]
fn arcs_on_unrelated_rings_are_ignored() {
    let start = vec![
        player_at(Position::new(5, 1_000_000)),
        arc_at(Position::new(2, 900_000), 300_000, true),
        arc_at(Position::new(7, 900_000), 300_000, true),
    ];
    let mut es = start.clone();
    Collision.run(&mut es);
    assert_eq!(es, start);
}

#[test]
fn angle_span_tests() {
    let c = Collision;
    assert!(c.is_between_angle(150, 100, 200));
    assert!(!c.is_between_angle(250, 100, 200));
    assert!(!c.is_between_angle(200, 100, 200));
    assert!(c.is_between_angle(100, 100, 200));
    // spans that wrap through zero
    assert!(c.is_between_angle(10, PI_2 - 100, 100));
    assert!(c.is_between_angle(PI_2 - 50, PI_2 - 100, 100));
    assert!(!c.is_between_angle(500, PI_2 - 100, 100));
    // the radial test normalizes first
    assert!(c.is_radius_collision(PI_2 + 150, 100, 200));
    assert!(c.is_radius_collision(-50, PI_2 - 100, 100));
}

#[test]
fn point_in_triangle() {
    let c = Collision;
    let p0 = Point { x: 0, y: 0 };
    let p1 = Point { x: 10, y: 0 };
    let p2 = Point { x: 0, y: 10 };
    assert!(c.collision_point_in_triangle(Point { x: 2, y: 2 }, p0, p1, p2));
    assert!(c.collision_point_in_triangle(Point { x: 2, y: 2 }, p0, p2, p1));
    assert!(!c.collision_point_in_triangle(Point { x: 6, y: 6 }, p0, p1, p2));
    assert!(!c.collision_point_in_triangle(Point { x: 5, y: 0 }, p0, p1, p2));
    assert!(!c.collision_point_in_triangle(Point { x: -1, y: 2 }, p0, p1, p2));
    let tri = vec![p0, p1, Point { x: 3, y: 3 }, p2];
    assert!(c.is_body_collision(Point { x: 1, y: 1 }, &tri));
    assert!(!c.is_body_collision(Point { x: 11, y: 1 }, &tri));
}

#[test]
fn make_point_matches_polar_coordinates() {
    assert_eq!(Collision.make_point(0, 100), Point { x: 1_000_000, y: 0 });
}

#[test]
fn consistency_check_rejects_bad_positions() {
    let bad_radius = vec![player_at(Position { radius: 300, angle: 0, current_level: 3, next_level: 3 })];
    assert!(!entities_consistent(&bad_radius));
    let bad_angle = vec![player_at(Position { radius: 215, angle: PI_2, current_level: 3, next_level: 3 })];
    assert!(!entities_consistent(&bad_angle));
    let good = vec![player_at(Position { radius: 200, angle: 0, current_level: 3, next_level: 2 })];
    assert!(entities_consistent(&good));
}
