//! The game screen's input handling: for each mode, what one key does to
//! the game state and which message it shows.
//!
//! Keys arrive one at a time; the host turns its own key events into `Key`.

pub mod animation;
pub mod battle_input;
pub mod town_input;
pub mod view;

use crate::timer::SimpleTimer;
use crate::town::{AreaId, CommandKind, Position, TravelSimulation};
use vstd::prelude::*;

verus! {

/// What the game screen is doing.
#[derive(Clone, Copy, Debug, PartialEq, Eq, Structural)]
pub enum AppMode {
    Town,
    Interact,
    Dialogue,
    Shop,
    Inn,
    Battle,
    /// Planning or making a journey on the road.
    Travel,
}

/// A key the game screen reacts to.
#[derive(Clone, Copy, Debug, PartialEq, Eq, Structural)]
pub enum Key {
    W,
    A,
    S,
    D,
    ArrowUp,
    ArrowDown,
    ArrowLeft,
    ArrowRight,
    Digit1,
    Digit2,
    Digit3,
    Digit4,
    Digit5,
    Space,
    Enter,
    Escape,
    B,
    L,
    N,
    Z,
    Tab,
    F1,
}

/// `W` or the up arrow.
pub open spec fn is_up(k: Key) -> bool {
    k == Key::W || k == Key::ArrowUp
}

/// `S` or the down arrow.
pub open spec fn is_down(k: Key) -> bool {
    k == Key::S || k == Key::ArrowDown
}

/// `A` or the left arrow.
pub open spec fn is_left(k: Key) -> bool {
    k == Key::A || k == Key::ArrowLeft
}

/// `D` or the right arrow.
pub open spec fn is_right(k: Key) -> bool {
    k == Key::D || k == Key::ArrowRight
}

/// `1` or Enter.
pub open spec fn is_confirm(k: Key) -> bool {
    k == Key::Digit1 || k == Key::Enter
}

/// `3` or Escape.
pub open spec fn is_cancel(k: Key) -> bool {
    k == Key::Digit3 || k == Key::Escape
}

/// Space or Enter.
pub open spec fn is_advance(k: Key) -> bool {
    k == Key::Space || k == Key::Enter
}

/// The step a direction key asks for: up, down, left, right, in that order
/// of precedence; `(0, 0)` for any other key.
pub open spec fn spec_direction(k: Key) -> (int, int) {
    if is_up(k) {
        (0, -1)
    } else if is_down(k) {
        (0, 1)
    } else if is_left(k) {
        (-1, 0)
    } else if is_right(k) {
        (1, 0)
    } else {
        (0, 0)
    }
}

/// The step a direction key asks for.
pub fn direction_of(k: Key) -> (r: (i32, i32))
    ensures
        r.0 as int == spec_direction(k).0,
        r.1 as int == spec_direction(k).1,
{
    match k {
        Key::W | Key::ArrowUp => (0, -1),
        Key::S | Key::ArrowDown => (0, 1),
        Key::A | Key::ArrowLeft => (-1, 0),
        Key::D | Key::ArrowRight => (1, 0),
        _ => (0, 0),
    }
}

/// The stage of the command window: choosing a command, then (for all but
/// "item") the direction to use it in.
#[derive(Clone, Copy, Debug, PartialEq, Eq, Structural)]
pub enum CommandMenuStage {
    ChoosingCommand,
    ChoosingDirection(CommandKind),
}

impl Default for CommandMenuStage {
    fn default() -> (r: Self)
        ensures
            r == CommandMenuStage::ChoosingCommand,
    {
        CommandMenuStage::ChoosingCommand
    }
}

/// The command window.
#[derive(Clone, Copy, Debug, PartialEq, Eq, Structural)]
pub struct CommandMenuState {
    pub stage: CommandMenuStage,
    pub selected_index: usize,
}

impl Default for CommandMenuState {
    fn default() -> (r: Self)
        ensures
            r.stage == CommandMenuStage::ChoosingCommand,
            r.selected_index == 0,
    {
        Self { stage: CommandMenuStage::ChoosingCommand, selected_index: 0 }
    }
}

/// A journey on the road: the plan being made or carried out, where it
/// leads, and the timer that moves the days on by itself.
pub struct TravelState {
    pub sim: Option<TravelSimulation>,
    pub destination: AreaId,
    pub spawn_pos: Position,
    pub step_timer: SimpleTimer,
}

/// A day of the journey passes on its own every 800 milliseconds.
pub const TRAVEL_STEP_MILLIS: u64 = 800;

impl Default for TravelState {
    fn default() -> (r: Self)
        ensures
            r.sim is None,
            r.destination == AreaId::Town,
            r.spawn_pos == (Position { x: 0, y: 0 }),
            r.step_timer.wf(),
            r.step_timer.spec_duration() == TRAVEL_STEP_MILLIS * 1_000_000,
            r.step_timer.spec_elapsed() == 0,
    {
        Self {
            sim: None,
            destination: AreaId::Town,
            spawn_pos: Position { x: 0, y: 0 },
            step_timer: SimpleTimer::from_millis(TRAVEL_STEP_MILLIS),
        }
    }
}

} // verus!
