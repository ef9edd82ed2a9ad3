//! The entity table and the state that one simulation owns.
use vstd::prelude::*;

use crate::components::{CollisionType, ConstantMovement, Enemy, Player, Position};
use crate::consts::{GAME_TIME_MS, PI_2, RADIUS_LIMIT};
use crate::shapes::Point;
use crate::resources::{Curtain, GameState, GameTime, KeyState, Menu};
use crate::utils::{get_level_radius, Control, Theme};

verus! {

/// One entity: its identity is its index in the table; each component is
/// present or not.
#[derive(Debug, Clone, Copy, PartialEq, Eq, Structural)]
pub struct Entity {
    pub position: Option<Position>,
    pub view: Option<crate::components::View>,
    pub player: Option<Player>,
    pub enemy: Option<Enemy>,
    pub constant_movement: Option<ConstantMovement>,
}

/// The entity's position keeps its radius between its rings, and its size
/// is within the bounds of geometry.
pub open spec fn entity_wf(e: Entity) -> bool {
    &&& (e.position matches Some(p) ==> p.wf())
    &&& (e.view matches Some(v) ==> -RADIUS_LIMIT <= v.size <= RADIUS_LIMIT)
}

/// Every entity of the table is well formed.
pub open spec fn entities_wf(es: Seq<Entity>) -> bool {
    forall|i: int| 0 <= i < es.len() ==> entity_wf(#[trigger] es[i])
}

/// Whether the entity is well formed (see `entity_wf`).
pub fn entity_consistent(e: &Entity) -> (r: bool)
    ensures
        r == entity_wf(*e),
{
    let position_ok = match e.position {
        Some(p) => {
            let a = get_level_radius(p.current_level);
            let b = get_level_radius(p.next_level);
            0 <= p.angle && p.angle < PI_2 && ((a <= p.radius && p.radius <= b) || (b <= p.radius
                && p.radius <= a))
        },
        None => true,
    };
    let view_ok = match e.view {
        Some(v) => -RADIUS_LIMIT <= v.size && v.size <= RADIUS_LIMIT,
        None => true,
    };
    position_ok && view_ok
}

/// Whether every entity of the table is well formed.
pub fn entities_consistent(es: &Vec<Entity>) -> (r: bool)
    ensures
        r == entities_wf(es@),
{
    let mut i: usize = 0;
    while i < es.len()
        invariant
            0 <= i <= es@.len(),
            forall|j: int| 0 <= j < i ==> entity_wf(#[trigger] es@[j]),
        decreases es@.len() - i,
    {
        if !entity_consistent(&es[i]) {
            return false;
        }
        i = i + 1;
    }
    true
}

/// Everything that one simulation owns: the entity table and the singleton
/// resources.
#[derive(Debug)]
pub struct World {
    pub entities: Vec<Entity>,
    pub game_state: GameState,
    pub game_time: GameTime,
    pub key_state: KeyState,
    pub menu: Menu,
    pub curtain: Curtain,
    /// Collisions of past ticks that the audio side has not played yet.
    pub sounds: Vec<CollisionType>,
    /// Set when a menu asked to leave the game.
    pub quit_requested: bool,
}

impl World {
    /// A world with no entities and fresh resources.
    pub fn new() -> (r: World)
        ensures
            r.entities@.len() == 0,
            r.game_state == (GameState {
                game_level: 1,
                score: 0,
                status: None,
                theme: Theme::Dark,
                control: Control::Normal,
            }),
            r.game_time == (GameTime { last_instant: None, delta: 0, timer: GAME_TIME_MS }),
            r.key_state.key is None,
            !r.key_state.repeat,
            r.menu.items@.len() == 0,
            r.menu.current_item == 0,
            r.curtain == (Curtain { radius: 0, point: Point { x: 0, y: 0 }, constriction: 7 }),
            r.sounds@.len() == 0,
            !r.quit_requested,
    {
        World {
            entities: Vec::new(),
            game_state: GameState::default(),
            game_time: GameTime::default(),
            key_state: KeyState::new(),
            menu: Menu::new(String::new()),
            curtain: Curtain::default(),
            sounds: Vec::new(),
            quit_requested: false,
        }
    }

    /// Removes every entity.
    pub fn delete_all(&mut self)
        ensures
            final(self).entities@.len() == 0,
            *final(self) == (World { entities: final(self).entities, ..*old(self) }),
    {
        self.entities.clear();
    }
}

} // verus!
