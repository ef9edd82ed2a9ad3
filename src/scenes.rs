//! Scenes and the scene stack: which systems run, how a level is built, and
//! how terminal statuses and menu choices turn into scene transitions.
use vstd::prelude::*;
use vstd::string::StringExecFns;

use crate::components::{ConstantMovement, Enemy, Form, Player, Position};
use crate::consts::{
    GAME_TIME_MS, HORIZONTAL_SPEED_MIN, OBSTACLE_LEVELS, OBSTACLE_SPEED, PI_2, PLAYER_LIFE,
    PLAYER_SIZE, PLAYER_START_ANGLE, PLAYER_START_LEVEL,
};
use crate::resources::{Action, Curtain, GameState, GameTime, KeyState, Menu};
use crate::systems::{
    arcs_of, collision_cleared, collisions_of, entity_collided, entity_moved, player_levels,
    status_after, timer_ticked, Collision, Music, UpdateCurtain, UpdateGameState,
    UpdateGlobalState, UpdateMenu, UpdatePosition, UpdateTimer,
};
use crate::utils::{
    create_map_of_element, element_size, is_ring_layout, random_in, Direction, GameStatus, Key,
};
use crate::world::{entities_wf, entity_wf, Entity, World};

verus! {

/// The entities after the movement and collisions of one tick, with the
/// countdown already at `gt`.
pub open spec fn simulated(es: Seq<Entity>, gs: GameState, ks: KeyState, gt: GameTime) -> Seq<
    Entity,
> {
    let moved = es.map_values(|e: Entity| entity_moved(gs, ks, gt, e));
    moved.map_values(|e: Entity| entity_collided(e, arcs_of(moved, player_levels(moved))))
}

/// Whole seconds of the countdown that have run out.
pub open spec fn elapsed_seconds(gt: GameTime) -> u64 {
    if gt.timer <= GAME_TIME_MS {
        ((GAME_TIME_MS - gt.timer) / 1000) as u64
    } else {
        0
    }
}

/// `a + b`, saturating at the largest value.
pub open spec fn add_sat_u64(a: u64, b: u64) -> u64 {
    if a + b > u64::MAX {
        u64::MAX
    } else {
        (a + b) as u64
    }
}

/// The direction of the rotating rings: odd rings turn, alternately one
/// way and the other, starting with ring 1.
pub open spec fn ring_direction(level: int) -> Direction {
    if (level / 2) % 2 == 0 {
        Direction::Left(OBSTACLE_SPEED)
    } else {
        Direction::Right(OBSTACLE_SPEED)
    }
}

/// The player entity of a fresh level.
pub open spec fn new_player_entity() -> Entity {
    Entity {
        position: Some(Position::on_level(PLAYER_START_LEVEL, PLAYER_START_ANGLE)),
        view: Some(crate::components::View { form: Form::Triangle, size: PLAYER_SIZE }),
        player: Some(
            Player {
                life: PLAYER_LIFE,
                speed: HORIZONTAL_SPEED_MIN,
                speed_press_ms: 0,
                start_angle_repeat: PLAYER_START_ANGLE,
                collision: None,
            },
        ),
        enemy: None,
        constant_movement: None,
    }
}

/// An obstacle of a fresh level: an arc standing on a ring from 1 to 7 with
/// the element size of that ring; on odd rings a rotating enemy, on even
/// rings a still wall.
pub open spec fn is_new_obstacle(e: Entity) -> bool {
    match (e.position, e.view) {
        (Some(p), Some(v)) => {
            let l = p.current_level as int;
            &&& 1 <= l <= OBSTACLE_LEVELS
            &&& p == Position::on_level(p.current_level, p.angle)
            &&& 0 <= p.angle < PI_2
            &&& v.form == Form::Circle
            &&& v.size == element_size(8 + l)
            &&& e.player is None
            &&& l % 2 == 1 ==> (e.enemy matches Some(en) && en.color < 2
                && e.constant_movement == Some(ConstantMovement { direction: ring_direction(l) }))
            &&& l % 2 == 0 ==> (e.enemy is None && e.constant_movement is None)
        },
        _ => false,
    }
}

/// The `(angle, size)` spans of the entities of `es` on ring `level`, in
/// table order.
pub open spec fn spans_on_level(es: Seq<Entity>, level: int) -> Seq<(i64, i64)>
    decreases es.len(),
{
    if es.len() == 0 {
        Seq::empty()
    } else {
        let rest = spans_on_level(es.drop_last(), level);
        match (es.last().position, es.last().view) {
            (Some(p), Some(v)) => if p.current_level == level {
                rest.push((p.angle, v.size))
            } else {
                rest
            },
            _ => rest,
        }
    }
}

/// The entities `e1` hold those of `e0`, then the player of a fresh level,
/// then the obstacles of rings 1 to 7, each ring laid out as a generated
/// layout of its slots.
pub open spec fn level_built(e0: Seq<Entity>, e1: Seq<Entity>) -> bool {
    &&& e1.len() > e0.len()
    &&& e1.subrange(0, e0.len() as int) == e0
    &&& e1[e0.len() as int] == new_player_entity()
    &&& forall|i: int| e0.len() < i < e1.len() ==> is_new_obstacle(#[trigger] e1[i])
    &&& forall|l: int|
        1 <= l <= OBSTACLE_LEVELS ==> is_ring_layout(
            #[trigger] spans_on_level(e1.subrange(e0.len() as int + 1, e1.len() as int), l),
            8 + l,
        )
    &&& entities_wf(e1)
}

/// `w1` is `w0` with a fresh level started under an opening curtain, and
/// with game state `gs`.
pub open spec fn level_started(w0: World, w1: World, gs: GameState) -> bool {
    &&& level_built(w0.entities@, w1.entities@)
    &&& w1.game_time == (GameTime { last_instant: None, delta: 0, timer: GAME_TIME_MS })
    &&& w1.curtain == Curtain::player_start()
    &&& w1.game_state == gs
    &&& w1.menu == w0.menu
    &&& w1.key_state == w0.key_state
    &&& w1.sounds == w0.sounds
    &&& w1.quit_requested == w0.quit_requested
}

proof fn lemma_obstacle_pushed(before: Seq<Entity>, e: Entity, base: int)
    requires
        0 <= base < before.len(),
        is_new_obstacle(e),
        entity_wf(e),
        forall|i: int| base < i < before.len() ==> is_new_obstacle(#[trigger] before[i]),
        entities_wf(before),
    ensures
        ({
            let after = before.push(e);
            &&& after.subrange(0, base) == before.subrange(0, base)
            &&& after[base] == before[base]
            &&& forall|i: int| base < i < after.len() ==> is_new_obstacle(#[trigger] after[i])
            &&& entities_wf(after)
            &&& forall|l: int|
                #[trigger] spans_on_level(after.subrange(base + 1, after.len() as int), l) == if l
                    == e.position.unwrap().current_level {
                    spans_on_level(before.subrange(base + 1, before.len() as int), l).push(
                        (e.position.unwrap().angle, e.view.unwrap().size),
                    )
                } else {
                    spans_on_level(before.subrange(base + 1, before.len() as int), l)
                }
        }),
{
    let after = before.push(e);
    let old_suffix = before.subrange(base + 1, before.len() as int);
    assert(after.subrange(base + 1, after.len() as int) =~= old_suffix.push(e));
    assert(old_suffix.push(e).drop_last() =~= old_suffix);
    assert(old_suffix.push(e).last() == e);
    assert(after.subrange(0, base) =~= before.subrange(0, base));
    assert forall|i: int| base < i < after.len() implies is_new_obstacle(#[trigger] after[i]) by {
        if i < before.len() {
            assert(after[i] == before[i]);
        }
    }
    assert forall|i: int| 0 <= i < after.len() implies entity_wf(#[trigger] after[i]) by {
        if i < before.len() {
            assert(after[i] == before[i]);
        }
    }
}

/// The menu of the main screen.
pub open spec fn is_main_menu(m: Menu) -> bool {
    &&& m.title@ == "To_Center"@
    &&& m.items@.len() == 3
    &&& m.items@[0].action == Action::StoryMode && !m.items@[0].available
    &&& m.items@[1].action == Action::EndlessMode && m.items@[1].available
    &&& m.items@[2].action == Action::Quit && m.items@[2].available
    &&& m.current_item == 0
}

/// A two-entry menu: continue, then quit.
pub open spec fn is_continue_menu(m: Menu, title: Seq<char>) -> bool {
    &&& m.title@ == title
    &&& m.items@.len() == 2
    &&& m.items@[0].action == Action::Continue && m.items@[0].available
    &&& m.items@[1].action == Action::Quit && m.items@[1].available
    &&& m.current_item == 0
}

/// The decimal digit `d` as a character.
pub open spec fn digit_char(d: nat) -> char {
    if d == 0 {
        '0'
    } else if d == 1 {
        '1'
    } else if d == 2 {
        '2'
    } else if d == 3 {
        '3'
    } else if d == 4 {
        '4'
    } else if d == 5 {
        '5'
    } else if d == 6 {
        '6'
    } else if d == 7 {
        '7'
    } else if d == 8 {
        '8'
    } else {
        '9'
    }
}

/// The decimal digits of `n`, most significant first.
pub open spec fn decimal(n: nat) -> Seq<char>
    decreases n,
{
    if n < 10 {
        seq![digit_char(n)]
    } else {
        decimal(n / 10).push(digit_char(n % 10))
    }
}

/// The score line of the game-over menu: `score`, then the score right
/// aligned in nine places filled with dots.
pub open spec fn score_text(score: u64) -> Seq<char> {
    let d = decimal(score as nat);
    let pad: nat = if d.len() < 9 {
        (9 - d.len()) as nat
    } else {
        0
    };
    "score"@ + Seq::new(pad, |i: int| '.') + d
}

fn digit_str(d: u64) -> (r: &'static str)
    requires
        d < 10,
    ensures
        r@ == seq![digit_char(d as nat)],
{
    proof {
        reveal_strlit("0");
        reveal_strlit("1");
        reveal_strlit("2");
        reveal_strlit("3");
        reveal_strlit("4");
        reveal_strlit("5");
        reveal_strlit("6");
        reveal_strlit("7");
        reveal_strlit("8");
        reveal_strlit("9");
    }
    if d == 0 {
        "0"
    } else if d == 1 {
        "1"
    } else if d == 2 {
        "2"
    } else if d == 3 {
        "3"
    } else if d == 4 {
        "4"
    } else if d == 5 {
        "5"
    } else if d == 6 {
        "6"
    } else if d == 7 {
        "7"
    } else if d == 8 {
        "8"
    } else {
        "9"
    }
}

fn append_decimal(s: &mut String, n: u64)
    ensures
        final(s)@ == old(s)@ + decimal(n as nat),
    decreases n,
{
    if n >= 10 {
        append_decimal(s, n / 10);
    }
    s.append(digit_str(n % 10));
    proof {
        assert(s@ =~= old(s)@ + decimal(n as nat));
    }
}

fn decimal_len(n: u64) -> (r: u64)
    ensures
        r == decimal(n as nat).len(),
        r <= n + 1,
    decreases n,
{
    if n >= 10 {
        decimal_len(n / 10) + 1
    } else {
        1
    }
}

/// The score line of the game-over menu (see `score_text`).
pub fn score_subtitle(score: u64) -> (r: String)
    ensures
        r@ == score_text(score),
{
    let mut s = String::from_str("score");
    proof {
        reveal_strlit("score");
        reveal_strlit(".");
    }
    let len = decimal_len(score);
    let pad: u64 = if len < 9 {
        9 - len
    } else {
        0
    };
    let mut k: u64 = 0;
    while k < pad
        invariant
            k <= pad,
            s@ == "score"@ + Seq::new(k as nat, |i: int| '.'),
        decreases pad - k,
    {
        proof {
            reveal_strlit(".");
        }
        s.append(".");
        k = k + 1;
        proof {
            assert(s@ =~= "score"@ + Seq::new(k as nat, |i: int| '.'));
        }
    }
    append_decimal(&mut s, score);
    proof {
        assert(s@ =~= score_text(score));
    }
    s
}


/// A scene of the game; the variants carry no state of their own, all of
/// it lives in the world.
#[derive(Debug, Clone, Copy, PartialEq, Eq, Structural)]
pub enum Scene {
    Menu(MenuScene),
    Curtain(CurtainScene),
    Game(GameScene),
    GameOver(GameOverScene),
    Pause(PauseScene),
}

/// What the scene stack should do after a scene has handled a tick or a
/// key: stay as it is, push a scene, pop the top one, replace the top one, or pop
/// some and push several.
#[derive(Debug)]
pub enum Transition {
    Stay,
    Push(Scene),
    Pop,
    Replace(Scene),
    MultiReplace(Vec<Scene>, u32),
}

/// The action chosen by `key` in `menu`: the selected entry's on return.
pub open spec fn chosen(menu: Menu, key: Key) -> Option<Action> {
    if key == Key::Return && menu.current_item < menu.items@.len() {
        Some(menu.items@[menu.current_item as int].action)
    } else {
        None
    }
}

/// A transition that replaces `n` scenes with a level under an opening
/// curtain.
pub open spec fn is_level_start(t: Transition, n: u32) -> bool {
    t matches Transition::MultiReplace(v, k) && k == n && v@ == seq![
        Scene::Game(GameScene {}),
        Scene::Curtain(CurtainScene {}),
    ]
}

/// `t` is the transition of a menu whose action `start` begins a level: the
/// menu gives way to a level under an opening curtain; anything else stays.
pub open spec fn is_menu_choice(t: Transition, menu: Menu, key: Key, start: Action) -> bool {
    if chosen(menu, key) == Some(start) {
        is_level_start(t, 1)
    } else {
        t is Stay
    }
}

/// The curtain's radius after one step.
pub open spec fn curtain_radius_after(c: Curtain) -> int {
    let sum = c.radius + c.constriction;
    if i64::MIN <= sum <= i64::MAX {
        sum
    } else {
        c.radius as int
    }
}

/// The status that a tick of a level at clock reading `now` ends with.
pub open spec fn tick_status(w: World, now: u64) -> Option<GameStatus> {
    let gt = timer_ticked(w.game_time, now);
    status_after(w.game_state.status, gt, simulated(w.entities@, w.game_state, w.key_state, gt))
}

/// The scene stack after a tick of its top scene: a level ends in the
/// game-over menu or under a closing curtain; a curtain leaves once open,
/// or brings a fresh level once closed; menus stay.
pub open spec fn stack_after_update(s: Seq<Scene>, w: World, now: u64) -> Seq<Scene> {
    match s.last() {
        Scene::Game(_) => match tick_status(w, now) {
            Some(GameStatus::GameOver) => popped(s).push(Scene::GameOver(GameOverScene {})),
            Some(GameStatus::LevelCompleted) => s.push(Scene::Curtain(CurtainScene {})),
            None => s,
        },
        Scene::Curtain(_) => {
            let r = curtain_radius_after(w.curtain);
            if r > 500 {
                popped(s)
            } else if r < 0 {
                popped_n(s, 2) + seq![Scene::Game(GameScene {}), Scene::Curtain(CurtainScene {})]
            } else {
                s
            }
        },
        _ => s,
    }
}

/// The scene stack after its top scene has handled `key`: a level pauses on
/// return; the pause menu resumes on escape or continue; the main menu
/// starts a level on endless mode, the game-over menu on continue, and the
/// game-over menu goes back on escape.
pub open spec fn stack_after_key(s: Seq<Scene>, menu: Menu, key: Key) -> Seq<Scene> {
    let level = popped_n(s, 1) + seq![Scene::Game(GameScene {}), Scene::Curtain(CurtainScene {})];
    match s.last() {
        Scene::Game(_) => if key == Key::Return {
            s.push(Scene::Pause(PauseScene {}))
        } else {
            s
        },
        Scene::Pause(_) => if key == Key::Escape || chosen(menu, key) == Some(Action::Continue) {
            popped(s)
        } else {
            s
        },
        Scene::Menu(_) => if chosen(menu, key) == Some(Action::EndlessMode) {
            level
        } else {
            s
        },
        Scene::GameOver(_) => if key == Key::Escape {
            popped(s)
        } else if chosen(menu, key) == Some(Action::Continue) {
            level
        } else {
            s
        },
        Scene::Curtain(_) => s,
    }
}

/// `w1` is `w0` with the quit request set when `key` chooses quit in the
/// menu.
pub open spec fn quit_noted(w0: World, w1: World, key: Key) -> bool {
    w1 == (World {
        quit_requested: w0.quit_requested || chosen(w0.menu, key) == Some(Action::Quit),
        ..w0
    })
}

/// `w1` is `w0` with only its menu replaced.
pub open spec fn only_menu_changed(w0: World, w1: World) -> bool {
    w1 == (World { menu: w1.menu, ..w0 })
}

/// `w1` is `w0` after a tick of a menu scene: the global keys act, and the
/// selection moves unless the menu is empty.
pub open spec fn menu_ticked(w0: World, w1: World) -> bool {
    w1 == (World {
        game_state: crate::systems::globals_toggled(w0.game_state, w0.key_state.key),
        menu: Menu {
            current_item: if w0.menu.items@.len() > 0 {
                crate::systems::menu_selection(
                    w0.menu.current_item,
                    w0.menu.items@.len(),
                    w0.key_state.key,
                )
            } else {
                w0.menu.current_item
            },
            ..w0.menu
        },
        ..w0
    })
}

/// `w1` is `w0` after a tick of the curtain: it moves by its constriction;
/// once closed, a fresh level starts under an opening curtain.
pub open spec fn curtain_ticked(w0: World, w1: World) -> bool {
    let r = curtain_radius_after(w0.curtain);
    if r < 0 {
        level_started(w0, w1, w0.game_state)
    } else {
        w1 == (World { curtain: Curtain { radius: r as i64, ..w0.curtain }, ..w0 })
    }
}

/// `w1` is `w0` after a tick of a level at clock reading `now` (see
/// `GameScene::update`).
pub open spec fn game_ticked(w0: World, w1: World, now: u64) -> bool {
    let gt = timer_ticked(w0.game_time, now);
    let es = simulated(w0.entities@, w0.game_state, w0.key_state, gt);
    let st = status_after(w0.game_state.status, gt, es);
    &&& w1.game_time == gt
    &&& w1.sounds@ == w0.sounds@ + collisions_of(es)
    &&& w1.key_state == w0.key_state
    &&& w1.quit_requested == w0.quit_requested
    &&& entities_wf(w1.entities@)
    &&& st is None ==> {
        &&& w1.entities@ == es.map_values(|e: Entity| collision_cleared(e))
        &&& w1.game_state == w0.game_state
        &&& w1.menu == w0.menu
        &&& w1.curtain == w0.curtain
    }
    &&& st == Some(GameStatus::GameOver) ==> {
        &&& w1.entities@.len() == 0
        &&& w1.game_state == (GameState { status: None, ..w0.game_state })
        &&& is_continue_menu(w1.menu, "game over"@)
        &&& w1.menu.subtitle@ == score_text(w0.game_state.score)
        &&& w1.curtain == w0.curtain
    }
    &&& st == Some(GameStatus::LevelCompleted) ==> {
        &&& w1.entities@.len() == 0
        &&& w1.game_state == (GameState {
            status: None,
            game_level: if w0.game_state.game_level < u32::MAX {
                (w0.game_state.game_level + 1) as u32
            } else {
                u32::MAX
            },
            score: add_sat_u64(w0.game_state.score, elapsed_seconds(gt)),
            ..w0.game_state
        })
        &&& w1.curtain == (Curtain {
            radius: 500,
            point: crate::shapes::Point { x: 0, y: 0 },
            constriction: -7i64,
        })
        &&& w1.menu == w0.menu
    }
}

/// `w1` is `w0` after a tick of scene `top` at clock reading `now`.
pub open spec fn tick_effect(top: Scene, w0: World, w1: World, now: u64) -> bool {
    match top {
        Scene::Game(_) => game_ticked(w0, w1, now),
        Scene::Curtain(_) => curtain_ticked(w0, w1),
        _ => menu_ticked(w0, w1),
    }
}

/// `w1` is `w0` after scene `top` has handled `key`: a level installs the
/// pause menu on return; the main menu starts a level on endless mode; the
/// game-over menu starts a new run (level 1, no score) on continue; a menu's
/// quit entry asks to leave; nothing else changes.
pub open spec fn key_effect(top: Scene, w0: World, w1: World, key: Key) -> bool {
    match top {
        Scene::Game(_) => if key == Key::Return {
            is_continue_menu(w1.menu, "pause"@) && only_menu_changed(w0, w1)
        } else {
            w1 == w0
        },
        Scene::Pause(_) => quit_noted(w0, w1, key),
        Scene::Menu(_) => if chosen(w0.menu, key) == Some(Action::EndlessMode) {
            level_started(w0, w1, w0.game_state)
        } else {
            quit_noted(w0, w1, key)
        },
        Scene::GameOver(_) => if chosen(w0.menu, key) == Some(Action::Continue) {
            level_started(w0, w1, GameState { game_level: 1, score: 0, ..w0.game_state })
        } else {
            quit_noted(w0, w1, key)
        },
        Scene::Curtain(_) => w1 == w0,
    }
}

/// The main menu.
#[derive(Debug, Clone, Copy, PartialEq, Eq, Structural)]
pub struct MenuScene {}

/// A curtain that opens or closes over the scene below it.
#[derive(Debug, Clone, Copy, PartialEq, Eq, Structural)]
pub struct CurtainScene {}

/// A level being played.
#[derive(Debug, Clone, Copy, PartialEq, Eq, Structural)]
pub struct GameScene {}

/// The game-over menu.
#[derive(Debug, Clone, Copy, PartialEq, Eq, Structural)]
pub struct GameOverScene {}

/// The pause menu.
#[derive(Debug, Clone, Copy, PartialEq, Eq, Structural)]
pub struct PauseScene {}

/// Moves the menu selection on the keys of the tick, and handles the global
/// keys; a menu without entries keeps its selection.
fn update_menu_scene(world: &mut World)
    ensures
        menu_ticked(*old(world), *final(world)),
{
    let mut global = UpdateGlobalState;
    global.run(&mut world.game_state, &world.key_state);
    if world.menu.items.len() > 0 {
        let mut menu = UpdateMenu;
        menu.run(&world.key_state, &mut world.menu);
    }
}

/// Fills `menu` with a continue and a quit entry.
fn continue_menu(title: &str) -> (r: Menu)
    ensures
        is_continue_menu(r, title@),
{
    let mut menu = Menu::new(String::from_str(title));
    proof {
        reveal_strlit("continue");
        reveal_strlit("quit");
    }
    menu.add_item(Action::Continue, String::from_str("continue"), 10, true);
    menu.add_item(Action::Quit, String::from_str("quit"), 60, true);
    menu
}

impl MenuScene {
    /// Installs the main menu.
    pub fn new(world: &mut World) -> (r: Self)
        ensures
            is_main_menu(final(world).menu),
            only_menu_changed(*old(world), *final(world)),
    {
        proof {
            reveal_strlit("To_Center");
            reveal_strlit("story mode");
            reveal_strlit("endless mode");
            reveal_strlit("quit");
        }
        let mut menu = Menu::new(String::from_str("To_Center"));
        menu.add_item(Action::StoryMode, String::from_str("story mode"), 10, false);
        menu.add_item(Action::EndlessMode, String::from_str("endless mode"), 10, true);
        menu.add_item(Action::Quit, String::from_str("quit"), 60, true);
        world.menu = menu;
        MenuScene {}
    }

    /// On return: endless mode starts a level under an opening curtain; quit
    /// asks to leave.
    pub fn key_down_event(&mut self, world: &mut World, key: Key) -> (r: Transition)
        requires
            entities_wf(old(world).entities@),
        ensures
            entities_wf(final(world).entities@),
            is_menu_choice(r, old(world).menu, key, Action::EndlessMode),
            key_effect(Scene::Menu(MenuScene {}), *old(world), *final(world), key),
    {
        if key == Key::Return && world.menu.current_item < world.menu.items.len() {
            match world.menu.get_currect_action() {
                Action::EndlessMode => {
                    let game = GameScene::new(world);
                    let curtain = CurtainScene::new(world, true);
                    Transition::MultiReplace(vec![Scene::Game(game), Scene::Curtain(curtain)], 1)
                },
                Action::Quit => {
                    world.quit_requested = true;
                    Transition::Stay
                },
                _ => Transition::Stay,
            }
        } else {
            Transition::Stay
        }
    }
}

impl PauseScene {
    /// Installs the pause menu.
    pub fn new(world: &mut World) -> (r: Self)
        ensures
            is_continue_menu(final(world).menu, "pause"@),
            only_menu_changed(*old(world), *final(world)),
    {
        proof {
            reveal_strlit("pause");
        }
        world.menu = continue_menu("pause");
        PauseScene {}
    }

    /// On return: continue resumes the level, quit asks to leave. Escape
    /// resumes too.
    pub fn key_down_event(&mut self, world: &mut World, key: Key) -> (r: Transition)
        ensures
            key == Key::Escape ==> r is Pop,
            key != Key::Escape ==> (if chosen(old(world).menu, key) == Some(Action::Continue) {
                r is Pop
            } else {
                r is Stay
            }),
            key_effect(Scene::Pause(PauseScene {}), *old(world), *final(world), key),
    {
        if key == Key::Return {
            if world.menu.current_item < world.menu.items.len() {
                match world.menu.get_currect_action() {
                    Action::Continue => Transition::Pop,
                    Action::Quit => {
                        world.quit_requested = true;
                        Transition::Stay
                    },
                    _ => Transition::Stay,
                }
            } else {
                Transition::Stay
            }
        } else if key == Key::Escape {
            Transition::Pop
        } else {
            Transition::Stay
        }
    }
}

impl GameOverScene {
    /// Installs the game-over menu, with the score as subtitle.
    pub fn new(world: &mut World) -> (r: Self)
        ensures
            is_continue_menu(final(world).menu, "game over"@),
            final(world).menu.subtitle@ == score_text(old(world).game_state.score),
            only_menu_changed(*old(world), *final(world)),
    {
        proof {
            reveal_strlit("game over");
        }
        let mut menu = continue_menu("game over");
        menu.subtitle = score_subtitle(world.game_state.score);
        world.menu = menu;
        GameOverScene {}
    }

    /// On return: continue starts a new run (level 1, no score) under an
    /// opening curtain, quit asks to leave. Escape goes back.
    pub fn key_down_event(&mut self, world: &mut World, key: Key) -> (r: Transition)
        requires
            entities_wf(old(world).entities@),
        ensures
            entities_wf(final(world).entities@),
            key == Key::Escape ==> r is Pop,
            key != Key::Escape ==> is_menu_choice(r, old(world).menu, key, Action::Continue),
            key_effect(Scene::GameOver(GameOverScene {}), *old(world), *final(world), key),
    {
        if key == Key::Return {
            if world.menu.current_item < world.menu.items.len() {
                match world.menu.get_currect_action() {
                    Action::Continue => {
                        world.game_state.reset_result();
                        let game = GameScene::new(world);
                        let curtain = CurtainScene::new(world, true);
                        Transition::MultiReplace(
                            vec![Scene::Game(game), Scene::Curtain(curtain)],
                            1,
                        )
                    },
                    Action::Quit => {
                        world.quit_requested = true;
                        Transition::Stay
                    },
                    _ => Transition::Stay,
                }
            } else {
                Transition::Stay
            }
        } else if key == Key::Escape {
            Transition::Pop
        } else {
            Transition::Stay
        }
    }
}

impl CurtainScene {
    /// Installs a curtain: opening around the player's start, or closing
    /// towards the centre.
    pub fn new(world: &mut World, on_player: bool) -> (r: Self)
        ensures
            on_player ==> final(world).curtain == Curtain::player_start(),
            !on_player ==> final(world).curtain == (Curtain {
                radius: 500,
                point: crate::shapes::Point { x: 0, y: 0 },
                constriction: -7i64,
            }),
            *final(world) == (World { curtain: final(world).curtain, ..*old(world) }),
    {
        world.curtain = if on_player {
            Curtain::new_center_player()
        } else {
            Curtain::new_center()
        };
        CurtainScene {}
    }

    /// Moves the curtain. Fully open, it leaves; fully closed, it replaces
    /// itself and the scene below with a fresh level under an opening
    /// curtain.
    pub fn update(&mut self, world: &mut World) -> (r: Transition)
        requires
            entities_wf(old(world).entities@),
        ensures
            entities_wf(final(world).entities@),
            curtain_radius_after(old(world).curtain) > 500 ==> r is Pop,
            curtain_radius_after(old(world).curtain) < 0 ==> is_level_start(r, 2),
            0 <= curtain_radius_after(old(world).curtain) <= 500 ==> r is Stay,
            curtain_ticked(*old(world), *final(world)),
    {
        let mut uc = UpdateCurtain;
        uc.run(&mut world.curtain);
        if world.curtain.radius > 500 {
            Transition::Pop
        } else if world.curtain.radius < 0 {
            let game = GameScene::new(world);
            let curtain = CurtainScene::new(world, true);
            Transition::MultiReplace(vec![Scene::Game(game), Scene::Curtain(curtain)], 2)
        } else {
            Transition::Stay
        }
    }
}

impl GameScene {
    /// Starts a level: a fresh countdown, the player at its start, and the
    /// obstacles of rings 1 to 7, each ring laid out at random.
    pub fn new(world: &mut World) -> (r: Self)
        requires
            entities_wf(old(world).entities@),
        ensures
            final(world).game_time == (GameTime {
                last_instant: None,
                delta: 0,
                timer: GAME_TIME_MS,
            }),
            level_built(old(world).entities@, final(world).entities@),
            *final(world) == (World {
                entities: final(world).entities,
                game_time: final(world).game_time,
                ..*old(world)
            }),
    {
        world.game_time = GameTime::default();
        let start = Position::new(PLAYER_START_LEVEL, PLAYER_START_ANGLE);
        let player = Player {
            life: PLAYER_LIFE,
            speed: HORIZONTAL_SPEED_MIN,
            speed_press_ms: 0,
            start_angle_repeat: PLAYER_START_ANGLE,
            collision: None,
        };
        world.entities.push(
            Entity {
                position: Some(start),
                view: Some(crate::components::View { form: Form::Triangle, size: PLAYER_SIZE }),
                player: Some(player),
                enemy: None,
                constant_movement: None,
            },
        );
        let ghost base: int = old(world).entities@.len() as int;
        proof {
            assert(world.entities@.subrange(base + 1, world.entities@.len() as int) =~= Seq::<
                Entity,
            >::empty());
        }
        let mut dir = Direction::Left(OBSTACLE_SPEED);
        let mut level: usize = 1;
        while level <= OBSTACLE_LEVELS
            invariant
                1 <= level <= OBSTACLE_LEVELS + 1,
                base == old(world).entities@.len(),
                world.entities@.len() > base,
                world.entities@.subrange(0, base as int) == old(world).entities@,
                world.entities@[base as int] == new_player_entity(),
                forall|i: int|
                    base < i < world.entities@.len() ==> is_new_obstacle(
                        #[trigger] world.entities@[i],
                    ),
                entities_wf(world.entities@),
                dir == ring_direction(if level % 2 == 1 { level as int } else { level + 1 }),
                forall|l: int|
                    1 <= l < level ==> is_ring_layout(
                        #[trigger] spans_on_level(
                            world.entities@.subrange(base + 1, world.entities@.len() as int),
                            l,
                        ),
                        8 + l,
                    ),
                forall|l: int|
                    level <= l <= OBSTACLE_LEVELS ==> #[trigger] spans_on_level(
                        world.entities@.subrange(base + 1, world.entities@.len() as int),
                        l,
                    ) == Seq::<(i64, i64)>::empty(),
                world.key_state == old(world).key_state,
                world.game_state == old(world).game_state,
                world.menu == old(world).menu,
                world.curtain == old(world).curtain,
                world.quit_requested == old(world).quit_requested,
                world.sounds == old(world).sounds,
                world.game_time == (GameTime { last_instant: None, delta: 0, timer: GAME_TIME_MS }),
            decreases OBSTACLE_LEVELS + 1 - level,
        {
            let element_map = create_map_of_element(level);
            let mut k: usize = 0;
            proof {
                assert(element_map@.subrange(0, 0) =~= Seq::<(i64, i64)>::empty());
            }
            while k < element_map.len()
                invariant
                    1 <= level <= OBSTACLE_LEVELS,
                    forall|j: int|
                        0 <= j < element_map@.len() ==> 0 <= (#[trigger] element_map@[j]).0 < PI_2
                            && element_map@[j].1 == element_size(8 + level),
                    base == old(world).entities@.len(),
                    world.entities@.len() > base,
                    world.entities@.subrange(0, base as int) == old(world).entities@,
                    world.entities@[base as int] == new_player_entity(),
                    forall|i: int|
                        base < i < world.entities@.len() ==> is_new_obstacle(
                            #[trigger] world.entities@[i],
                        ),
                    entities_wf(world.entities@),
                    dir == ring_direction(if level % 2 == 1 { level as int } else { level + 1 }),
                    is_ring_layout(element_map@, 8 + level),
                    k <= element_map@.len(),
                    forall|l: int|
                        1 <= l < level ==> is_ring_layout(
                            #[trigger] spans_on_level(
                                world.entities@.subrange(base + 1, world.entities@.len() as int),
                                l,
                            ),
                            8 + l,
                        ),
                    spans_on_level(
                        world.entities@.subrange(base + 1, world.entities@.len() as int),
                        level as int,
                    ) == element_map@.subrange(0, k as int),
                    forall|l: int|
                        level < l <= OBSTACLE_LEVELS ==> #[trigger] spans_on_level(
                            world.entities@.subrange(base + 1, world.entities@.len() as int),
                            l,
                        ) == Seq::<(i64, i64)>::empty(),
                    world.key_state == old(world).key_state,
                    world.game_state == old(world).game_state,
                    world.menu == old(world).menu,
                    world.curtain == old(world).curtain,
                    world.quit_requested == old(world).quit_requested,
                    world.sounds == old(world).sounds,
                    world.game_time == (GameTime {
                        last_instant: None,
                        delta: 0,
                        timer: GAME_TIME_MS,
                    }),
                decreases element_map@.len() - k,
            {
                let (angle, size) = element_map[k];
                let color = random_in(0, 2) as u32;
                let odd = level % 2 != 0;
                let e = Entity {
                    position: Some(Position::new(level as i32, angle)),
                    view: Some(crate::components::View { form: Form::Circle, size }),
                    player: None,
                    enemy: if odd {
                        Some(Enemy { color })
                    } else {
                        None
                    },
                    constant_movement: if odd {
                        Some(ConstantMovement { direction: dir })
                    } else {
                        None
                    },
                };
                proof {
                    assert(element_size(8 + level) <= PI_2) by {
                        vstd::arithmetic::div_mod::lemma_div_is_ordered_by_denominator(
                            PI_2 as int,
                            1,
                            8 + level,
                        );
                        vstd::arithmetic::div_mod::lemma_div_pos_is_pos(PI_2 as int, 8 + level);
                        vstd::arithmetic::div_mod::lemma_div_pos_is_pos(
                            PI_2 as int / (8 + level),
                            8 + level,
                        );
                    }
                    assert(is_new_obstacle(e));
                    assert(entity_wf(e));
                }
                let ghost before = world.entities@;
                world.entities.push(e);
                proof {
                    lemma_obstacle_pushed(before, e, base);
                    assert(element_map@.subrange(0, k as int).push(element_map@[k as int])
                        =~= element_map@.subrange(0, k + 1));
                }
                k = k + 1;
            }
            proof {
                assert(element_map@.subrange(0, element_map@.len() as int) =~= element_map@);
            }
            if level % 2 != 0 {
                dir = Direction::inverse(dir);
            }
            level = level + 1;
        }
        GameScene {}
    }

    /// One tick of a level at clock reading `now`: countdown, movement,
    /// collisions and status, then the collisions go to the audio side. On
    /// game over the level is torn down for the game-over menu; on
    /// completion it is torn down, the level number and score go up, and a
    /// closing curtain follows.
    pub fn update(&mut self, world: &mut World, now: u64) -> (r: Transition)
        requires
            entities_wf(old(world).entities@),
        ensures
            game_ticked(*old(world), *final(world), now),
            tick_status(*old(world), now) is None ==> r is Stay,
            tick_status(*old(world), now) == Some(GameStatus::GameOver) ==> r
                == Transition::Replace(Scene::GameOver(GameOverScene {})),
            tick_status(*old(world), now) == Some(GameStatus::LevelCompleted) ==> r
                == Transition::Push(Scene::Curtain(CurtainScene {})),
    {
        let mut timer = UpdateTimer;
        timer.run(&mut world.game_time, now);
        let ghost es0 = world.entities@;
        let mut movement = UpdatePosition;
        movement.run(&world.game_state, &world.key_state, &world.game_time, &mut world.entities);
        let ghost es1 = world.entities@;
        proof {
            assert(es1 =~= es0.map_values(
                |e: Entity| entity_moved(old(world).game_state, old(world).key_state, world.game_time, e),
            ));
        }
        let mut collision = Collision;
        collision.run(&mut world.entities);
        proof {
            assert(world.entities@ =~= simulated(
                old(world).entities@,
                old(world).game_state,
                old(world).key_state,
                world.game_time,
            ));
        }
        let mut game = UpdateGameState;
        game.run(&mut world.game_state, &world.game_time, &world.entities);
        let ghost es2 = world.entities@;
        let mut music = Music;
        let mut sounds = music.run(&mut world.entities);
        world.sounds.append(&mut sounds);
        proof {
            assert(world.entities@ =~= es2.map_values(|e: Entity| collision_cleared(e)));
            assert forall|i: int| 0 <= i < world.entities@.len() implies entity_wf(
                #[trigger] world.entities@[i],
            ) by {
                assert(entity_wf(es2[i]));
            }
        }
        proof {
            crate::systems::lemma_status_only_set(
                if world.game_time.timer == 0 { Some(GameStatus::GameOver) } else { old(world).game_state.status },
                es2,
            );
        }
        match world.game_state.status {
            Some(GameStatus::GameOver) => {
                world.delete_all();
                world.game_state.status = None;
                let over = GameOverScene::new(world);
                Transition::Replace(Scene::GameOver(over))
            },
            Some(GameStatus::LevelCompleted) => {
                world.delete_all();
                world.game_state.status = None;
                world.game_state.game_level = world.game_state.game_level.saturating_add(1);
                let elapsed = if world.game_time.timer <= GAME_TIME_MS {
                    (GAME_TIME_MS - world.game_time.timer) / 1000
                } else {
                    0
                };
                world.game_state.score = world.game_state.score.saturating_add(elapsed);
                let curtain = CurtainScene::new(world, false);
                Transition::Push(Scene::Curtain(curtain))
            },
            None => Transition::Stay,
        }
    }

    /// On return the level pauses.
    pub fn key_down_event(&mut self, world: &mut World, key: Key) -> (r: Transition)
        ensures
            key == Key::Return ==> r == Transition::Push(Scene::Pause(PauseScene {})),
            key != Key::Return ==> r is Stay,
            key_effect(Scene::Game(GameScene {}), *old(world), *final(world), key),
    {
        if key == Key::Return {
            let pause = PauseScene::new(world);
            Transition::Push(Scene::Pause(pause))
        } else {
            Transition::Stay
        }
    }
}


impl Scene {
    /// Whether the scene below shows through this one.
    pub fn draw_previous(&self) -> (r: bool)
        ensures
            r == (*self is Curtain),
    {
        match self {
            Scene::Curtain(_) => true,
            _ => false,
        }
    }

    /// The scene's name.
    pub fn name(&self) -> (r: &'static str)
        ensures
            *self is Menu ==> r@ == "Menu"@,
            *self is Curtain ==> r@ == "Curtain"@,
            *self is Game ==> r@ == "Game"@,
            *self is GameOver ==> r@ == "GameOver"@,
            *self is Pause ==> r@ == "Pause"@,
    {
        proof {
            reveal_strlit("Menu");
            reveal_strlit("Curtain");
            reveal_strlit("Game");
            reveal_strlit("GameOver");
            reveal_strlit("Pause");
        }
        match self {
            Scene::Menu(_) => "Menu",
            Scene::Curtain(_) => "Curtain",
            Scene::Game(_) => "Game",
            Scene::GameOver(_) => "GameOver",
            Scene::Pause(_) => "Pause",
        }
    }

    /// One tick of the scene at clock reading `now`.
    pub fn update(&mut self, world: &mut World, now: u64) -> (r: Transition)
        requires
            entities_wf(old(world).entities@),
        ensures
            entities_wf(final(world).entities@),
            forall|s: Seq<Scene>|
                s.len() > 0 && s.last() == *old(self) ==> switched(s, r) == stack_after_update(
                    s,
                    *old(world),
                    now,
                ),
            tick_effect(*old(self), *old(world), *final(world), now),
    {
        match self {
            Scene::Game(game) => game.update(world, now),
            Scene::Curtain(curtain) => curtain.update(world),
            _ => {
                update_menu_scene(world);
                Transition::Stay
            },
        }
    }

    /// The scene's answer to a pressed key.
    pub fn key_down_event(&mut self, world: &mut World, key: Key) -> (r: Transition)
        requires
            entities_wf(old(world).entities@),
        ensures
            entities_wf(final(world).entities@),
            *old(self) is Curtain ==> r is Stay,
            *old(self) is Game ==> (if key == Key::Return {
                r == Transition::Push(Scene::Pause(PauseScene {}))
            } else {
                r is Stay
            }),
            *old(self) is Menu ==> is_menu_choice(r, old(world).menu, key, Action::EndlessMode),
            *old(self) is GameOver ==> (if key == Key::Escape {
                r is Pop
            } else {
                is_menu_choice(r, old(world).menu, key, Action::Continue)
            }),
            *old(self) is Pause ==> (if key == Key::Escape || chosen(old(world).menu, key) == Some(
                Action::Continue,
            ) {
                r is Pop
            } else {
                r is Stay
            }),
            key_effect(*old(self), *old(world), *final(world), key),
    {
        match self {
            Scene::Menu(menu) => menu.key_down_event(world, key),
            Scene::Curtain(_) => Transition::Stay,
            Scene::Game(game) => game.key_down_event(world, key),
            Scene::GameOver(over) => over.key_down_event(world, key),
            Scene::Pause(pause) => pause.key_down_event(world, key),
        }
    }
}

/// The stack without its top scene (unchanged when empty).
pub open spec fn popped(s: Seq<Scene>) -> Seq<Scene> {
    if s.len() > 0 {
        s.drop_last()
    } else {
        s
    }
}

/// The stack without its top `n` scenes (empty when it holds fewer).
pub open spec fn popped_n(s: Seq<Scene>, n: nat) -> Seq<Scene> {
    if n >= s.len() {
        Seq::empty()
    } else {
        s.subrange(0, s.len() - n)
    }
}

/// The stack after applying a transition.
pub open spec fn switched(s: Seq<Scene>, t: Transition) -> Seq<Scene> {
    match t {
        Transition::Stay => s,
        Transition::Push(scene) => s.push(scene),
        Transition::Pop => popped(s),
        Transition::Replace(scene) => popped(s).push(scene),
        Transition::MultiReplace(scenes, num) => popped_n(s, num as nat) + scenes@,
    }
}

/// The scenes that are drawn, bottom first: the top scene, preceded by the
/// ones below it as long as each scene above lets the previous show.
pub open spec fn drawn(s: Seq<Scene>) -> Seq<Scene>
    decreases s.len(),
{
    if s.len() == 0 {
        Seq::empty()
    } else if s.last() is Curtain {
        drawn(s.drop_last()).push(s.last())
    } else {
        seq![s.last()]
    }
}

/// The navigation stack of scenes; the top scene handles ticks and keys.
#[derive(Debug)]
pub struct SceneStack {
    pub scenes: Vec<Scene>,
}

impl SceneStack {
    /// A stack holding one scene.
    pub fn new(scene: Scene) -> (r: Self)
        ensures
            r.scenes@ == seq![scene],
    {
        SceneStack { scenes: vec![scene] }
    }

    /// Puts a scene on top.
    pub fn push(&mut self, scene: Scene)
        ensures
            final(self).scenes@ == old(self).scenes@.push(scene),
    {
        self.scenes.push(scene);
    }

    /// Removes the top scene, if any.
    pub fn pop(&mut self)
        ensures
            final(self).scenes@ == popped(old(self).scenes@),
    {
        self.scenes.pop();
    }

    /// One tick of the top scene at clock reading `now`, and the transition
    /// it asks for.
    pub fn update(&mut self, world: &mut World, now: u64)
        requires
            old(self).scenes@.len() > 0,
            entities_wf(old(world).entities@),
        ensures
            entities_wf(final(world).entities@),
            final(self).scenes@ == stack_after_update(old(self).scenes@, *old(world), now),
            tick_effect(old(self).scenes@.last(), *old(world), *final(world), now),
    {
        let last = self.scenes.len() - 1;
        let mut scene = self.scenes[last];
        let trans = scene.update(world, now);
        self.switch(trans);
    }

    /// The scenes to draw, bottom first (see `drawn`).
    pub fn draw_order(&self) -> (r: Vec<Scene>)
        ensures
            r@ == drawn(self.scenes@),
    {
        let n = self.scenes.len();
        if n == 0 {
            return Vec::new();
        }
        let mut start: usize = n - 1;
        proof {
            assert(self.scenes@.subrange(0, n as int) =~= self.scenes@);
            assert(self.scenes@.subrange(n as int, n as int) =~= Seq::<Scene>::empty());
            assert(drawn(self.scenes@) =~= drawn(self.scenes@.subrange(0, n as int)) + Seq::<Scene>::empty());
        }
        let mut open = start > 0 && self.scenes[start].draw_previous();
        while open
            invariant
                0 <= start < n,
                n == self.scenes@.len(),
                drawn(self.scenes@) == drawn(self.scenes@.subrange(0, start + 1)) + self.scenes@.subrange(start + 1, n as int),
                open == (start > 0 && self.scenes@[start as int] is Curtain),
            decreases start,
        {
            proof {
                let s = self.scenes@.subrange(0, start + 1);
                assert(s.drop_last() =~= self.scenes@.subrange(0, start as int));
                assert(self.scenes@.subrange(start as int, n as int) =~= seq![s.last()] + self.scenes@.subrange(start + 1, n as int));
                assert(drawn(s) == drawn(s.drop_last()).push(s.last()));
                assert(drawn(s.drop_last()).push(s.last()) + self.scenes@.subrange(start + 1, n as int)
                    =~= drawn(s.drop_last()) + self.scenes@.subrange(start as int, n as int));
            }
            start = start - 1;
            open = start > 0 && self.scenes[start].draw_previous();
        }
        let mut r: Vec<Scene> = Vec::new();
        let mut i: usize = start;
        proof {
            let s = self.scenes@.subrange(0, start + 1);
            assert(s.last() == self.scenes@[start as int]);
            if start > 0 {
                assert(drawn(s) == seq![s.last()]);
            } else {
                assert(s.drop_last() =~= Seq::<Scene>::empty());
                assert(drawn(s.drop_last()) =~= Seq::<Scene>::empty());
                assert(drawn(s) =~= seq![s.last()]);
            }
        }
        while i < n
            invariant
                start <= i <= n,
                n == self.scenes@.len(),
                r@ == self.scenes@.subrange(start as int, i as int),
            decreases n - i,
        {
            r.push(self.scenes[i]);
            i = i + 1;
            proof {
                assert(r@ =~= self.scenes@.subrange(start as int, i as int));
            }
        }
        proof {
            let s = self.scenes@.subrange(0, start + 1);
            assert(s.last() == self.scenes@[start as int]);
            assert(r@ =~= seq![s.last()] + self.scenes@.subrange(start + 1, n as int));
        }
        r
    }

    /// The top scene's answer to a pressed key, and the transition it asks
    /// for.
    pub fn key_down_event(&mut self, world: &mut World, key: Key)
        requires
            old(self).scenes@.len() > 0,
            entities_wf(old(world).entities@),
        ensures
            entities_wf(final(world).entities@),
            final(self).scenes@ == stack_after_key(old(self).scenes@, old(world).menu, key),
            key_effect(old(self).scenes@.last(), *old(world), *final(world), key),
    {
        let last = self.scenes.len() - 1;
        let mut scene = self.scenes[last];
        let trans = scene.key_down_event(world, key);
        self.switch(trans);
        proof {
            assert(old(self).scenes@.subrange(0, old(self).scenes@.len() - 1) =~= old(self).scenes@.drop_last());
        }
    }

    /// Applies a transition to the stack.
    pub fn switch(&mut self, trans: Transition)
        ensures
            final(self).scenes@ == switched(old(self).scenes@, trans),
    {
        match trans {
            Transition::Push(scene) => {
                self.scenes.push(scene);
            },
            Transition::Pop => {
                self.scenes.pop();
            },
            Transition::Replace(scene) => {
                self.scenes.pop();
                self.scenes.push(scene);
            },
            Transition::MultiReplace(scenes, num) => {
                let mut scenes = scenes;
                let mut left = num;
                while left > 0
                    invariant
                        left <= num,
                        self.scenes@ == popped_n(old(self).scenes@, (num - left) as nat),
                    decreases left,
                {
                    self.scenes.pop();
                    left = left - 1;
                    proof {
                        assert(self.scenes@ =~= popped_n(old(self).scenes@, (num - left) as nat));
                    }
                }
                self.scenes.append(&mut scenes);
            },
            Transition::Stay => {},
        }
    }
}

} // verus!
