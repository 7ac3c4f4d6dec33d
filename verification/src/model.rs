//! The records the simulation keeps: objects, the player, the shared game
//! state, and the world that holds them all.

use crate::geometry::Point;
use crate::queue::SpawnQueue;
use crate::stopwatch::Stopwatch;
use crate::units::{MAX_ENEMIES, MAX_GROUNDS, ONE};
use vstd::prelude::*;

verus! {

/// Where an object is and how large it is drawn. The scale counts tenths.
#[derive(Clone, Copy, Debug, PartialEq, Eq, Structural)]
pub struct Position {
    pub translation: Point,
    pub scale: u32,
}

/// An object that scrolls to the left: a ground segment, an enemy or a
/// power-up. The speed is in world units per second, the length in ticks.
///
/// The scrolling rules measure an object from its position to its trailing
/// edge, which lies the length further right. The collision rules take the
/// position for the centre of the object's box.
#[derive(Clone, Copy, Debug, PartialEq, Eq, Structural)]
pub struct Scroller {
    pub handle: u64,
    pub position: Position,
    pub movement_speed: u32,
    pub length: u64,
}

/// One segment of the ground strip.
pub type Ground = Scroller;

/// An obstacle the player has to jump over.
pub type Enemy = Scroller;

/// A pickup that raises score and difficulty.
pub type PowerUp = Scroller;

/// The one player.
#[derive(Clone, Copy, Debug, PartialEq, Eq, Structural)]
pub struct Player {
    pub position: Position,
    pub is_jumping: bool,
    pub on_ground: bool,
    pub jump_duration: Stopwatch,
}

/// Whether the game is running or has been lost.
#[derive(Clone, Copy, Debug, PartialEq, Eq, Structural)]
pub enum AppState {
    InGame,
    GameOver,
}

impl Default for AppState {
    fn default() -> (state: AppState)
        ensures
            state == AppState::InGame,
    {
        AppState::InGame
    }
}

/// What all systems share for one session. The difficulty multiplier counts
/// tenths.
pub struct GameState {
    pub ground_list: SpawnQueue,
    pub enemy_list: SpawnQueue,
    pub score: u64,
    pub difficulty_timer: Stopwatch,
    pub power_up_timer: Stopwatch,
    pub difficulty_multiplier: u32,
}

/// The mathematical value of a [`GameState`].
pub struct GameStateView {
    pub ground_list: Seq<u64>,
    pub enemy_list: Seq<u64>,
    pub score: u64,
    pub difficulty_timer: Stopwatch,
    pub power_up_timer: Stopwatch,
    pub difficulty_multiplier: u32,
}

impl View for GameState {
    type V = GameStateView;

    open spec fn view(&self) -> GameStateView {
        GameStateView {
            ground_list: self.ground_list@,
            enemy_list: self.enemy_list@,
            score: self.score,
            difficulty_timer: self.difficulty_timer,
            power_up_timer: self.power_up_timer,
            difficulty_multiplier: self.difficulty_multiplier,
        }
    }
}

impl GameState {
    /// The state in which a session starts, before anything is spawned:
    /// empty queues, no score, stopwatches at zero, a multiplier of one.
    pub fn new() -> (state: GameState)
        ensures
            state@ == (GameStateView {
                ground_list: Seq::empty(),
                enemy_list: Seq::empty(),
                score: 0,
                difficulty_timer: Stopwatch { elapsed: 0 },
                power_up_timer: Stopwatch { elapsed: 0 },
                difficulty_multiplier: ONE,
            }),
    {
        GameState {
            ground_list: SpawnQueue::new(),
            enemy_list: SpawnQueue::new(),
            score: 0,
            difficulty_timer: Stopwatch::new(),
            power_up_timer: Stopwatch::new(),
            difficulty_multiplier: ONE,
        }
    }
}

/// Everything simulated: the phase, the shared state, the player and the
/// live objects, with the handle the next spawned object will get.
pub struct World {
    pub app_state: AppState,
    pub game_state: GameState,
    pub player: Player,
    pub grounds: Vec<Ground>,
    pub enemies: Vec<Enemy>,
    pub power_ups: Vec<PowerUp>,
    pub next_handle: u64,
}

/// The mathematical value of a [`World`].
pub struct WorldView {
    pub app_state: AppState,
    pub game_state: GameStateView,
    pub player: Player,
    pub grounds: Seq<Ground>,
    pub enemies: Seq<Enemy>,
    pub power_ups: Seq<PowerUp>,
    pub next_handle: u64,
}

impl View for World {
    type V = WorldView;

    open spec fn view(&self) -> WorldView {
        WorldView {
            app_state: self.app_state,
            game_state: self.game_state@,
            player: self.player,
            grounds: self.grounds@,
            enemies: self.enemies@,
            power_ups: self.power_ups@,
            next_handle: self.next_handle,
        }
    }
}

impl WorldView {
    /// The steady state of the spawn queues: one or two ground segments are
    /// queued, and at most three enemies.
    pub open spec fn wf(self) -> bool {
        &&& 1 <= self.game_state.ground_list.len() <= MAX_GROUNDS
        &&& self.game_state.enemy_list.len() <= MAX_ENEMIES
    }

    /// The steady state in which, besides, one handle is queued for every
    /// live ground segment and for every live enemy, so that the length of
    /// a queue is the number of the live.
    pub open spec fn settled(self) -> bool {
        &&& self.wf()
        &&& self.grounds.len() == self.game_state.ground_list.len()
        &&& self.enemies.len() == self.game_state.enemy_list.len()
    }
}

} // verus!
