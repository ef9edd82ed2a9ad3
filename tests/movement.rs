use to_center::components::{ConstantMovement, Player, Position};
use to_center::consts::{
    HORIZONTAL_SPEED, HORIZONTAL_SPEED_MAX, HORIZONTAL_SPEED_MIN, PI, PI_2,
    PLAYER_START_ANGLE, VERTICAL_SPEED,
};
use to_center::resources::{GameState, GameTime, KeyState};
use to_center::systems::{get_dir, UpdatePosition};
use to_center::utils::{get_level_radius, Control, Direction, Key};
use to_center::world::Entity;

fn fresh_player() -> Player {
    Player {
        life: 3,
        speed: HORIZONTAL_SPEED_MIN,
        speed_press_ms: 0,
        start_angle_repeat: PLAYER_START_ANGLE,
        collision: None,
    }
}

#[test]
fn speed_ramp_on_held_key() {
    let mut p = fresh_player();
    UpdatePosition::set_speed_boost(&mut p, true, 250);
    assert_eq!(p.speed_press_ms, 250);
    assert_eq!(p.speed, 70_000);
    UpdatePosition::set_speed_boost(&mut p, true, 50);
    assert_eq!(p.speed_press_ms, 300);
    assert_eq!(p.speed, 70_000);
    UpdatePosition::set_speed_boost(&mut p, true, 1);
    assert_eq!(p.speed, 80_000);
    UpdatePosition::set_speed_boost(&mut p, true, 900);
    assert_eq!(p.speed_press_ms, 1_201);
    assert_eq!(p.speed, 170_000);
    UpdatePosition::set_speed_boost(&mut p, true, 999);
    assert_eq!(p.speed, HORIZONTAL_SPEED_MAX);
    UpdatePosition::set_speed_boost(&mut p, false, 999);
    assert_eq!(p.speed_press_ms, 0);
    assert_eq!(p.speed, HORIZONTAL_SPEED_MIN);
    // a long tick counts in full
    UpdatePosition::set_speed_boost(&mut p, true, 1_500);
    assert_eq!(p.speed_press_ms, 1_500);
    assert_eq!(p.speed, 190_000);
}

#[test]
fn speed_ramp_saturates_hold_time() {
    let mut p = fresh_player();
    p.speed_press_ms = u64::MAX - 10;
    UpdatePosition::set_speed_boost(&mut p, true, 500);
    assert_eq!(p.speed_press_ms, u64::MAX);
    assert_eq!(p.speed, HORIZONTAL_SPEED_MAX);
}

#[test]
fn sideways_moves_wrap_around() {
    let up = UpdatePosition;
    let mut p = Position::new(4, PI_2 - 10);
    up.to_move(&mut p, Some(Direction::Left(30)));
    assert_eq!(p.angle, 20);
    up.to_move(&mut p, Some(Direction::Right(50)));
    assert_eq!(p.angle, PI_2 - 30);
    up.to_move(&mut p, None);
    assert_eq!(p.angle, PI_2 - 30);
    assert_eq!((p.current_level, p.next_level, p.radius), (4, 4, 260));
}

#[test]
fn transition_ignores_direction_and_moves_by_vertical_speed() {
    let up = UpdatePosition;
    let mut p = Position::new(2, 1_000);
    up.to_move(&mut p, Some(Direction::Up));
    assert_eq!((p.current_level, p.next_level), (2, 1));
    assert_eq!(p.radius, 170 - VERTICAL_SPEED);
    let target = get_level_radius(1);
    let mut ticks = 1;
    loop {
        let before = p;
        let dir = match ticks % 4 {
            0 => Some(Direction::Left(100_000)),
            1 => Some(Direction::Right(100_000)),
            2 => Some(Direction::Down),
            _ => Some(Direction::Up),
        };
        up.to_move(&mut p, dir);
        ticks += 1;
        assert_eq!(p.angle, 1_000);
        if before.radius == target {
            assert_eq!(p.current_level, 1);
            assert_eq!(p.radius, target);
            break;
        }
        assert_eq!(p.current_level, 2);
        assert_eq!(p.next_level, 1);
        assert_eq!(before.radius - p.radius, VERTICAL_SPEED);
    }
    assert_eq!(ticks, 16);
}

#[test]
fn transition_clamps_at_target() {
    let up = UpdatePosition;
    let mut p = Position { radius: 127, angle: 0, current_level: 2, next_level: 1 };
    up.update_radius(&mut p);
    assert_eq!(p.radius, 125);
    assert_eq!(p.current_level, 2);
    up.update_radius(&mut p);
    assert_eq!(p.current_level, 1);
    let mut q = Position { radius: 169, angle: 0, current_level: 1, next_level: 2 };
    up.update_radius(&mut q);
    assert_eq!(q.radius, 170);
    up.update_radius(&mut q);
    assert_eq!(q.current_level, 2);
}

#[test]
fn down_moves_outwards() {
    let up = UpdatePosition;
    let mut p = Position::new(3, 0);
    up.to_move(&mut p, Some(Direction::Down));
    assert_eq!((p.current_level, p.next_level, p.radius), (3, 4, 218));
}

#[test]
fn advanced_directions() {
    assert_eq!(get_dir(Some(Key::Left), 0, 5), Some(Direction::Left(5)));
    assert_eq!(get_dir(Some(Key::Left), PI, 5), Some(Direction::Left(5)));
    assert_eq!(get_dir(Some(Key::Left), PI + 1, 5), Some(Direction::Right(5)));
    assert_eq!(get_dir(Some(Key::Right), 10, 5), Some(Direction::Right(5)));
    assert_eq!(get_dir(Some(Key::Right), PI + 10, 5), Some(Direction::Left(5)));
    assert_eq!(get_dir(Some(Key::Down), 10, 5), Some(Direction::Down));
    assert_eq!(get_dir(Some(Key::Down), -10, 5), Some(Direction::Up));
    assert_eq!(get_dir(Some(Key::Up), 10, 5), Some(Direction::Up));
    assert_eq!(get_dir(Some(Key::Up), PI + 10, 5), Some(Direction::Down));
    assert_eq!(get_dir(Some(Key::Return), 10, 5), None);
    assert_eq!(get_dir(None, 10, 5), None);
}

fn player_entity(pos: Position) -> Entity {
    Entity {
        position: Some(pos),
        view: None,
        player: Some(fresh_player()),
        enemy: None,
        constant_movement: None,
    }
}

#[test]
fn movement_system_follows_input_and_constant_movement() {
    let gs = GameState::default();
    let gt = GameTime { last_instant: Some(0), delta: 16, timer: 15_000 };
    let ks = KeyState { key: Some(Key::Left), repeat: false };
    let rotating = Entity {
        position: Some(Position::new(1, 0)),
        view: None,
        player: None,
        enemy: None,
        constant_movement: Some(ConstantMovement { direction: Direction::Right(10_000) }),
    };
    let mut es = vec![player_entity(Position::new(8, PLAYER_START_ANGLE)), rotating];
    let mut system = UpdatePosition;
    system.run(&gs, &ks, &gt, &mut es);
    let pl = es[0].player.unwrap();
    assert_eq!(pl.speed, HORIZONTAL_SPEED_MIN);
    assert_eq!(pl.start_angle_repeat, PLAYER_START_ANGLE);
    assert_eq!(es[0].position.unwrap().angle, PLAYER_START_ANGLE + HORIZONTAL_SPEED_MIN);
    assert_eq!(es[1].position.unwrap().angle, PI_2 - 10_000);

    // the down key does nothing in the normal mode
    let ks = KeyState { key: Some(Key::Down), repeat: false };
    let before = es[0].position.unwrap();
    system.run(&gs, &ks, &gt, &mut es);
    assert_eq!(es[0].position.unwrap(), before);

    // up starts a ring change
    let ks = KeyState { key: Some(Key::Up), repeat: false };
    system.run(&gs, &ks, &gt, &mut es);
    let p = es[0].position.unwrap();
    assert_eq!((p.current_level, p.next_level, p.radius), (8, 7, 437));
}

#[test]
fn movement_system_in_advanced_mode() {
    let mut gs = GameState::default();
    gs.control = Control::Advanced;
    let gt = GameTime { last_instant: Some(0), delta: 16, timer: 15_000 };
    // on the lower half, left turns the other way at the fixed speed
    let start = PI + 100_000;
    let ks = KeyState { key: Some(Key::Left), repeat: false };
    let mut es = vec![player_entity(Position::new(8, start))];
    let mut system = UpdatePosition;
    system.run(&gs, &ks, &gt, &mut es);
    assert_eq!(es[0].player.unwrap().start_angle_repeat, start);
    assert_eq!(es[0].position.unwrap().angle, start - HORIZONTAL_SPEED);
    // a repeated press keeps the captured angle
    let ks = KeyState { key: Some(Key::Left), repeat: true };
    system.run(&gs, &ks, &gt, &mut es);
    assert_eq!(es[0].player.unwrap().start_angle_repeat, start);
    assert_eq!(es[0].position.unwrap().angle, start - 2 * HORIZONTAL_SPEED);
    // a fresh press captures the new angle, now on the upper half, where
    // down keeps its meaning
    let ks = KeyState { key: Some(Key::Down), repeat: false };
    system.run(&gs, &ks, &gt, &mut es);
    assert_eq!(es[0].player.unwrap().start_angle_repeat, start - 2 * HORIZONTAL_SPEED);
    let p = es[0].position.unwrap();
    assert_eq!((p.current_level, p.next_level), (8, 9));
}
