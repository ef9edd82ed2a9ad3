use to_center::components::{CollisionType, Form, Player, Position, View};
use to_center::consts::{GAME_TIME_MS, HORIZONTAL_SPEED_MIN, PLAYER_START_ANGLE};
use to_center::resources::{Action, Curtain, GameState, GameTime, KeyState, Menu};
use to_center::scenes::{
    score_subtitle, CurtainScene, GameOverScene, GameScene, MenuScene, PauseScene, Scene,
    SceneStack, Transition,
};
use to_center::systems::{UpdateCurtain, UpdateGameState, UpdateGlobalState, UpdateMenu, UpdateTimer, Music};
use to_center::utils::{Control, GameStatus, Key, Theme};
use to_center::world::{entities_consistent, Entity, World};

fn lone_player(level: i32) -> Entity {
    Entity {
        position: Some(Position::new(level, PLAYER_START_ANGLE)),
        view: Some(View { form: Form::Triangle, size: 8 }),
        player: Some(Player {
            life: 3,
            speed: HORIZONTAL_SPEED_MIN,
            speed_press_ms: 0,
            start_angle_repeat: PLAYER_START_ANGLE,
            collision: None,
        }),
        enemy: None,
        constant_movement: None,
    }
}

#[test]
fn timer_counts_down_and_stops_at_zero() {
    let mut gt = GameTime::default();
    assert_eq!(gt.timer, 15_000);
    let mut t = UpdateTimer;
    t.run(&mut gt, 1_000);
    assert_eq!((gt.last_instant, gt.delta, gt.timer), (Some(1_000), 0, 15_000));
    t.run(&mut gt, 1_016);
    assert_eq!((gt.last_instant, gt.delta, gt.timer), (Some(1_016), 16, 14_984));
    t.run(&mut gt, 20_000);
    assert_eq!(gt.timer, 0);
    t.run(&mut gt, 20_100);
    assert_eq!(gt.timer, 0);
    // a clock reading that goes back counts as no time
    t.run(&mut gt, 10);
    assert_eq!(gt.delta, 0);
}

#[test]
fn game_state_status_rules() {
    let mut gs = GameState::default();
    let mut sys = UpdateGameState;
    let running = GameTime { last_instant: Some(0), delta: 16, timer: 500 };
    let es = vec![lone_player(4)];
    sys.run(&mut gs, &running, &es);
    assert_eq!(gs.status, None);
    let expired = GameTime { last_instant: Some(0), delta: 16, timer: 0 };
    sys.run(&mut gs, &expired, &es);
    assert_eq!(gs.status, Some(GameStatus::GameOver));

    let mut gs = GameState::default();
    let mut dead = lone_player(4);
    dead.player = Some(Player { life: 0, ..dead.player.unwrap() });
    sys.run(&mut gs, &running, &vec![dead]);
    assert_eq!(gs.status, Some(GameStatus::GameOver));

    let mut gs = GameState::default();
    sys.run(&mut gs, &running, &vec![lone_player(0)]);
    assert_eq!(gs.status, Some(GameStatus::LevelCompleted));
}

#[test]
fn global_keys_toggle_control_and_theme() {
    let mut gs = GameState::default();
    let mut sys = UpdateGlobalState;
    sys.run(&mut gs, &KeyState { key: Some(Key::F2), repeat: false });
    assert_eq!(gs.control, Control::Advanced);
    sys.run(&mut gs, &KeyState { key: Some(Key::F2), repeat: false });
    assert_eq!(gs.control, Control::Normal);
    sys.run(&mut gs, &KeyState { key: Some(Key::F3), repeat: false });
    assert_eq!(gs.theme, Theme::Light);
    sys.run(&mut gs, &KeyState { key: Some(Key::Left), repeat: false });
    assert_eq!((gs.theme, gs.control), (Theme::Light, Control::Normal));
}

#[test]
fn reset_result_keeps_settings() {
    let mut gs = GameState::default();
    gs.game_level = 4;
    gs.score = 33;
    gs.theme = Theme::Light;
    gs.reset_result();
    assert_eq!((gs.game_level, gs.score, gs.theme), (1, 0, Theme::Light));
}

#[test]
fn menu_selection_moves_and_stops_at_ends() {
    let mut m = Menu::new("m".to_string());
    m.add_item(Action::Continue, "continue".to_string(), 10, true);
    m.add_item(Action::Quit, "quit".to_string(), 60, true);
    assert_eq!(m.get_currect_action(), Action::Continue);
    let mut sys = UpdateMenu;
    let down = KeyState { key: Some(Key::Down), repeat: false };
    let up = KeyState { key: Some(Key::Up), repeat: false };
    sys.run(&down, &mut m);
    assert_eq!(m.current_item, 1);
    assert_eq!(m.get_currect_action(), Action::Quit);
    sys.run(&down, &mut m);
    assert_eq!(m.current_item, 1);
    sys.run(&up, &mut m);
    sys.run(&up, &mut m);
    assert_eq!(m.current_item, 0);
    assert_eq!(m.items[1].text, "quit");
    assert_eq!(m.items[1].height, 60);
}

#[test]
fn curtain_moves_by_its_constriction() {
    let mut c = Curtain::new_center();
    UpdateCurtain.run(&mut c);
    assert_eq!(c.radius, 493);
    let mut c = Curtain::new_center_player();
    assert_eq!(c.point.x, 0);
    assert_eq!(c.point.y, 4_400_000);
    UpdateCurtain.run(&mut c);
    assert_eq!(c.radius, 22);
    let mut c = Curtain { radius: i64::MAX, point: Curtain::default().point, constriction: 7 };
    UpdateCurtain.run(&mut c);
    assert_eq!(c.radius, i64::MAX);
}

#[test]
fn music_takes_and_clears_collisions() {
    let mut p = lone_player(3);
    p.player = Some(Player { collision: Some(CollisionType::Wall), ..p.player.unwrap() });
    let mut es = vec![p, lone_player(4)];
    let sounds = Music.run(&mut es);
    assert_eq!(sounds, vec![CollisionType::Wall]);
    assert_eq!(es[0].player.unwrap().collision, None);
    assert!(Music.run(&mut es).is_empty());
}

#[test]
fn score_line_is_dot_padded() {
    assert_eq!(score_subtitle(0), format!("score{:.>9}", 0));
    assert_eq!(score_subtitle(42), "score.......42");
    assert_eq!(score_subtitle(123_456_789), "score123456789");
    assert_eq!(score_subtitle(u64::MAX), format!("score{:.>9}", u64::MAX));
}

#[test]
fn new_level_layout() {
    let mut world = World::new();
    GameScene::new(&mut world);
    assert_eq!(world.game_time, GameTime::default());
    assert_eq!(world.entities[0], lone_player_at_start());
    assert!(entities_consistent(&world.entities));
    let mut per_level = [0usize; 8];
    for e in &world.entities[1..] {
        let p = e.position.unwrap();
        let l = p.current_level as usize;
        assert!((1..=7).contains(&l));
        per_level[l] += 1;
        assert_eq!(e.view.unwrap().form, Form::Circle);
        assert_eq!(e.enemy.is_some(), l % 2 == 1);
        assert_eq!(e.constant_movement.is_some(), l % 2 == 1);
        if let Some(en) = e.enemy {
            assert!(en.color < 2);
        }
    }
    for l in 1..=7 {
        let n = 8 + l;
        assert!(per_level[l] >= n / 2 && per_level[l] <= n / 2 + 1);
    }
}

fn lone_player_at_start() -> Entity {
    lone_player(8)
}

fn tick_until_transition(world: &mut World, game: &mut GameScene, key: Option<Key>) -> (Transition, u64) {
    let mut now: u64 = 0;
    for _ in 0..100_000 {
        world.key_state = KeyState { key, repeat: true };
        let t = game.update(world, now);
        if !matches!(t, Transition::Stay) {
            return (t, now);
        }
        now += 16;
    }
    panic!("no transition");
}

#[test]
fn countdown_runs_out_into_game_over() {
    let mut world = World::new();
    world.entities.push(lone_player(8));
    let mut game = GameScene {};
    let (t, now) = tick_until_transition(&mut world, &mut game, None);
    assert!(matches!(t, Transition::Replace(Scene::GameOver(_))));
    assert!(now >= GAME_TIME_MS);
    assert!(now < GAME_TIME_MS + 16);
    assert!(world.entities.is_empty());
    assert_eq!(world.game_state.status, None);
    assert_eq!(world.game_time.timer, 0);
    assert_eq!(world.menu.title, "game over");
    assert_eq!(world.menu.subtitle, "score........0");
}

#[test]
fn climbing_to_the_centre_completes_the_level() {
    let mut world = World::new();
    world.entities.push(lone_player(8));
    let mut game = GameScene {};
    let (t, now) = tick_until_transition(&mut world, &mut game, Some(Key::Up));
    assert!(matches!(t, Transition::Push(Scene::Curtain(_))));
    assert!(now < GAME_TIME_MS);
    assert!(world.entities.is_empty());
    assert_eq!(world.game_state.game_level, 2);
    assert_eq!(world.game_state.status, None);
    assert_eq!(world.game_state.score, now / 1000);
    assert_eq!(world.curtain, Curtain::new_center());
    // the next level keeps the new level number
    GameScene::new(&mut world);
    assert_eq!(world.game_state.game_level, 2);
    assert_eq!(world.game_time.timer, GAME_TIME_MS);
}

#[test]
fn scene_stack_transitions() {
    let mut s = SceneStack::new(Scene::Menu(MenuScene {}));
    s.switch(Transition::Push(Scene::Pause(PauseScene {})));
    assert_eq!(s.scenes, vec![Scene::Menu(MenuScene {}), Scene::Pause(PauseScene {})]);
    s.switch(Transition::Replace(Scene::Game(GameScene {})));
    assert_eq!(s.scenes, vec![Scene::Menu(MenuScene {}), Scene::Game(GameScene {})]);
    s.switch(Transition::Pop);
    assert_eq!(s.scenes, vec![Scene::Menu(MenuScene {})]);
    s.switch(Transition::Stay);
    assert_eq!(s.scenes, vec![Scene::Menu(MenuScene {})]);
    s.switch(Transition::MultiReplace(
        vec![Scene::Game(GameScene {}), Scene::Curtain(CurtainScene {})],
        1,
    ));
    assert_eq!(s.scenes, vec![Scene::Game(GameScene {}), Scene::Curtain(CurtainScene {})]);
    assert_eq!(s.draw_order(), s.scenes);
    s.switch(Transition::MultiReplace(vec![Scene::GameOver(GameOverScene {})], 5));
    assert_eq!(s.scenes, vec![Scene::GameOver(GameOverScene {})]);
    assert_eq!(s.draw_order(), vec![Scene::GameOver(GameOverScene {})]);
    s.pop();
    s.pop();
    assert!(s.scenes.is_empty());
    assert!(s.draw_order().is_empty());
    s.switch(Transition::Replace(Scene::Menu(MenuScene {})));
    assert_eq!(s.scenes, vec![Scene::Menu(MenuScene {})]);
    s.push(Scene::Game(GameScene {}));
    s.push(Scene::Pause(PauseScene {}));
    assert_eq!(s.draw_order(), vec![Scene::Pause(PauseScene {})]);
    assert!(Scene::Curtain(CurtainScene {}).draw_previous());
    assert!(!Scene::Game(GameScene {}).draw_previous());
    assert_eq!(Scene::GameOver(GameOverScene {}).name(), "GameOver");
}

#[test]
fn menu_to_game_and_pause() {
    let mut world = World::new();
    let menu = MenuScene::new(&mut world);
    assert_eq!(world.menu.title, "To_Center");
    assert_eq!(world.menu.items.len(), 3);
    let mut stack = SceneStack::new(Scene::Menu(menu));
    // story mode is not available: nothing happens
    stack.key_down_event(&mut world, Key::Return);
    assert_eq!(stack.scenes, vec![Scene::Menu(MenuScene {})]);
    world.key_state = KeyState { key: Some(Key::Down), repeat: false };
    stack.update(&mut world, 0);
    assert_eq!(world.menu.current_item, 1);
    stack.key_down_event(&mut world, Key::Return);
    assert_eq!(stack.scenes, vec![Scene::Game(GameScene {}), Scene::Curtain(CurtainScene {})]);
    assert!(world.entities.len() > 1);
    assert_eq!(world.curtain, Curtain::new_center_player());
    // the curtain opens, then leaves
    world.key_state = KeyState::new();
    let mut ticks = 0;
    while stack.scenes.len() == 2 {
        stack.update(&mut world, 0);
        ticks += 1;
    }
    assert_eq!(ticks, 70);
    assert_eq!(stack.scenes, vec![Scene::Game(GameScene {})]);
    // return pauses; escape resumes
    stack.key_down_event(&mut world, Key::Return);
    assert_eq!(stack.scenes, vec![Scene::Game(GameScene {}), Scene::Pause(PauseScene {})]);
    assert_eq!(world.menu.title, "pause");
    stack.key_down_event(&mut world, Key::Escape);
    assert_eq!(stack.scenes, vec![Scene::Game(GameScene {})]);
    // pause, then choose quit
    stack.key_down_event(&mut world, Key::Return);
    world.key_state = KeyState { key: Some(Key::Down), repeat: false };
    stack.update(&mut world, 0);
    stack.key_down_event(&mut world, Key::Return);
    assert!(world.quit_requested);
}

#[test]
fn game_over_continue_starts_a_new_run() {
    let mut world = World::new();
    world.game_state.game_level = 5;
    world.game_state.score = 77;
    let over = GameOverScene::new(&mut world);
    assert_eq!(world.menu.subtitle, "score.......77");
    let mut stack = SceneStack::new(Scene::GameOver(over));
    stack.key_down_event(&mut world, Key::Return);
    assert_eq!(stack.scenes, vec![Scene::Game(GameScene {}), Scene::Curtain(CurtainScene {})]);
    assert_eq!((world.game_state.game_level, world.game_state.score), (1, 0));
}

#[test]
fn closing_curtain_brings_the_next_level() {
    let mut world = World::new();
    let mut stack = SceneStack::new(Scene::Game(GameScene {}));
    let curtain = CurtainScene::new(&mut world, false);
    stack.push(Scene::Curtain(curtain));
    let mut ticks = 0;
    while stack.scenes.last() == Some(&Scene::Curtain(CurtainScene {})) && world.curtain.constriction < 0 {
        stack.update(&mut world, 0);
        ticks += 1;
    }
    assert_eq!(ticks, 72);
    assert_eq!(stack.scenes, vec![Scene::Game(GameScene {}), Scene::Curtain(CurtainScene {})]);
    assert_eq!(world.curtain, Curtain::new_center_player());
    assert!(!world.entities.is_empty());
}

#[test]
fn enemy_colours_vary() {
    let mut seen = [false; 2];
    for _ in 0..20 {
        let mut world = World::new();
        GameScene::new(&mut world);
        for e in &world.entities {
            if let Some(en) = e.enemy {
                seen[en.color as usize] = true;
            }
        }
    }
    assert!(seen[0] && seen[1]);
}
