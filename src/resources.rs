//! Singleton resources of the simulation: input, game state, countdown,
//! curtain and menu.
use vstd::prelude::*;

use crate::consts::{GAME_TIME_MS, PLAYER_START_ANGLE, PLAYER_START_LEVEL};
use crate::shapes::{point_at, polar_point, Point};
use crate::utils::{get_level_radius, level_radius, Control, GameStatus, Key, Theme};

verus! {

/// Input of the current tick: the key pressed, if any, and whether it is a
/// repeat of a held key.
#[derive(Debug, Clone, Copy, PartialEq, Eq, Structural)]
pub struct KeyState {
    pub key: Option<Key>,
    pub repeat: bool,
}

impl KeyState {
    /// No key pressed.
    pub fn new() -> (r: Self)
        ensures
            r.key is None,
            !r.repeat,
    {
        KeyState { key: None, repeat: false }
    }
}

/// State of a run that outlives single level attempts.
#[derive(Debug, Clone, Copy, PartialEq, Eq, Structural)]
pub struct GameState {
    /// Level being played, from 1.
    pub game_level: u32,
    /// Seconds accumulated over completed levels.
    pub score: u64,
    /// Terminal status of the current attempt, until acted upon.
    pub status: Option<GameStatus>,
    pub theme: Theme,
    pub control: Control,
}

impl Default for GameState {
    fn default() -> (r: Self)
        ensures
            r == (GameState {
                game_level: 1,
                score: 0,
                status: None,
                theme: Theme::Dark,
                control: Control::Normal,
            }),
    {
        GameState {
            game_level: 1,
            score: 0,
            status: None,
            theme: Theme::Dark,
            control: Control::Normal,
        }
    }
}

impl GameState {
    /// Starts the run's results over: level 1, no score.
    pub fn reset_result(&mut self)
        ensures
            *final(self) == (GameState { game_level: 1, score: 0, ..*old(self) }),
    {
        self.game_level = 1;
        self.score = 0;
    }
}

/// The countdown of a level attempt. Times are in milliseconds; instants
/// are readings of a monotonic clock.
#[derive(Debug, Clone, Copy, PartialEq, Eq, Structural)]
pub struct GameTime {
    /// Clock reading of the previous tick.
    pub last_instant: Option<u64>,
    /// Time between the previous tick and the current one.
    pub delta: u64,
    /// Time left.
    pub timer: u64,
}

impl Default for GameTime {
    fn default() -> (r: Self)
        ensures
            r == (GameTime { last_instant: None, delta: 0, timer: GAME_TIME_MS }),
    {
        GameTime { last_instant: None, delta: 0, timer: GAME_TIME_MS }
    }
}

/// The transition curtain: a circle around `point` whose radius changes by
/// `constriction` each tick.
#[derive(Debug, Clone, Copy, PartialEq, Eq, Structural)]
pub struct Curtain {
    pub radius: i64,
    pub point: Point,
    pub constriction: i64,
}

impl Default for Curtain {
    fn default() -> (r: Self)
        ensures
            r == (Curtain { radius: 0, point: Point { x: 0, y: 0 }, constriction: 7 }),
    {
        Curtain { radius: 0, point: Point { x: 0, y: 0 }, constriction: 7 }
    }
}

impl Curtain {
    /// The curtain that opens from a small circle around the player's start.
    pub open spec fn player_start() -> Curtain {
        Curtain {
            radius: 15,
            point: polar_point(PLAYER_START_ANGLE as int, level_radius(PLAYER_START_LEVEL as int)),
            constriction: 7,
        }
    }

    /// A curtain that opens from a small circle around the player's start.
    pub fn new_center_player() -> (r: Self)
        ensures
            r == Self::player_start(),
    {
        let player_radius = get_level_radius(PLAYER_START_LEVEL);
        Curtain { radius: 15, point: point_at(PLAYER_START_ANGLE, player_radius), constriction: 7 }
    }

    /// A curtain that closes from a large circle around the centre.
    pub fn new_center() -> (r: Self)
        ensures
            r == (Curtain { radius: 500, point: Point { x: 0, y: 0 }, constriction: -7i64 }),
    {
        Curtain { radius: 500, point: Point { x: 0, y: 0 }, constriction: -7 }
    }
}

/// What a menu entry does.
#[derive(Debug, Clone, Copy, PartialEq, Eq, Structural)]
pub enum Action {
    EndlessMode,
    StoryMode,
    Continue,
    Quit,
}

/// One menu entry.
#[derive(Debug)]
pub struct MenuItem {
    pub action: Action,
    pub text: String,
    /// Vertical offset of the entry on screen.
    pub height: i64,
    pub available: bool,
}

/// A menu: title, subtitle, entries and the selected entry.
#[derive(Debug)]
pub struct Menu {
    pub title: String,
    pub subtitle: String,
    pub items: Vec<MenuItem>,
    pub current_item: usize,
}

impl Menu {
    /// An empty menu with a title.
    pub fn new(title: String) -> (r: Self)
        ensures
            r.title@ == title@,
            r.subtitle@.len() == 0,
            r.items@.len() == 0,
            r.current_item == 0,
    {
        Menu { title, subtitle: String::new(), items: Vec::new(), current_item: 0 }
    }

    /// Appends an entry.
    pub fn add_item(&mut self, action: Action, text: String, height: i64, available: bool)
        ensures
            final(self).items@.len() == old(self).items@.len() + 1,
            final(self).items@.drop_last() == old(self).items@,
            final(self).items@.last().action == action,
            final(self).items@.last().text@ == text@,
            final(self).items@.last().height == height,
            final(self).items@.last().available == available,
            final(self).title == old(self).title,
            final(self).subtitle == old(self).subtitle,
            final(self).current_item == old(self).current_item,
    {
        self.items.push(MenuItem { action, text, height, available });
        proof {
            assert(self.items@.drop_last() =~= old(self).items@);
        }
    }

    /// The action of the selected entry.
    pub fn get_currect_action(&self) -> (r: Action)
        requires
            self.current_item < self.items@.len(),
        ensures
            r == self.items@[self.current_item as int].action,
    {
        self.items[self.current_item].action
    }
}

} // verus!
