//! Simulation kernel for a grid-based snake arcade game.
//!
//! The kernel owns the authoritative world state: a toroidal board with a
//! static obstacle mask, a segmented actor that moves on a fixed logical
//! grid under accumulator-based variable-speed stepping, and a manager for
//! randomly placed collectible items.  A thin controller sequences the
//! three per tick and projects the settled state into an RGBA pixel buffer.
//!
//! Continuous time enters the kernel as whole milliseconds, and speeds and
//! movement residue are held in thousandths of a cell, so that every step
//! computation is exact integer arithmetic.

use vstd::prelude::*;
use vstd::string::StringSliceAdditionalSpecFns;

pub mod board;
pub mod food;
pub mod game;
pub mod level;
pub mod snake;

verus! {

/// A decoded input key, as delivered by the embedding layer.
#[derive(Debug, PartialEq, Eq, Structural, Clone, Copy)]
pub enum Key {
    ArrowUp,
    ArrowDown,
    ArrowLeft,
    ArrowRight,
    Space,
    Invalid,
}

/// A facing direction for the actor; `Invalid` is the no-op input.
#[derive(Debug, PartialEq, Eq, Structural, Clone, Copy)]
pub enum Direction {
    Up,
    Down,
    Left,
    Right,
    Invalid,
}

/// Whether two byte slices hold the same bytes.
fn bytes_eq(a: &[u8], b: &[u8]) -> (r: bool)
    ensures
        r == (a@ == b@),
{
    if a.len() != b.len() {
        proof {
            assert(a@.len() != b@.len());
        }
        return false;
    }
    let n = a.len();
    let mut i: usize = 0;
    while i < n
        invariant
            i <= n,
            n == a@.len(),
            n == b@.len(),
            forall|j: int| 0 <= j < i ==> a@[j] == b@[j],
        decreases n - i,
    {
        if a[i] != b[i] {
            return false;
        }
        i = i + 1;
    }
    proof {
        assert(a@ =~= b@);
    }
    true
}

/// The key a browser key name decodes to, by its UTF-8 bytes; any name
/// that is none of the five known ones decodes to `Invalid`.
pub open spec fn spec_key_of_name(s: &str) -> Key {
    if s.spec_bytes() == "ArrowUp".spec_bytes() {
        Key::ArrowUp
    } else if s.spec_bytes() == "ArrowDown".spec_bytes() {
        Key::ArrowDown
    } else if s.spec_bytes() == "ArrowLeft".spec_bytes() {
        Key::ArrowLeft
    } else if s.spec_bytes() == "ArrowRight".spec_bytes() {
        Key::ArrowRight
    } else if s.spec_bytes() == "Space".spec_bytes() {
        Key::Space
    } else {
        Key::Invalid
    }
}

impl From<&str> for Key {
    fn from(value: &str) -> (r: Key)
        ensures
            r == spec_key_of_name(value),
    {
        if bytes_eq(value.as_bytes(), "ArrowUp".as_bytes()) {
            Key::ArrowUp
        } else if bytes_eq(value.as_bytes(), "ArrowDown".as_bytes()) {
            Key::ArrowDown
        } else if bytes_eq(value.as_bytes(), "ArrowLeft".as_bytes()) {
            Key::ArrowLeft
        } else if bytes_eq(value.as_bytes(), "ArrowRight".as_bytes()) {
            Key::ArrowRight
        } else if bytes_eq(value.as_bytes(), "Space".as_bytes()) {
            Key::Space
        } else {
            Key::Invalid
        }
    }
}

impl vstd::std_specs::convert::FromSpecImpl<&str> for Key {
    open spec fn obeys_from_spec() -> bool {
        true
    }

    open spec fn from_spec(t: &str) -> Key {
        spec_key_of_name(t)
    }
}

/// The direction a key requests, with every non-arrow key mapping to no-op.
pub open spec fn spec_direction_of_key(key: Key) -> Direction {
    match key {
        Key::ArrowUp => Direction::Up,
        Key::ArrowDown => Direction::Down,
        Key::ArrowLeft => Direction::Left,
        Key::ArrowRight => Direction::Right,
        _ => Direction::Invalid,
    }
}

impl From<Key> for Direction {
    fn from(value: Key) -> (r: Direction)
        ensures
            r == spec_direction_of_key(value),
    {
        match value {
            Key::ArrowUp => Direction::Up,
            Key::ArrowDown => Direction::Down,
            Key::ArrowLeft => Direction::Left,
            Key::ArrowRight => Direction::Right,
            _ => Direction::Invalid,
        }
    }
}

impl vstd::std_specs::convert::FromSpecImpl<Key> for Direction {
    open spec fn obeys_from_spec() -> bool {
        true
    }

    open spec fn from_spec(t: Key) -> Direction {
        spec_direction_of_key(t)
    }
}

/// What a single logical cell of the board holds.
#[derive(Debug, Copy, Clone, PartialEq, Eq, Structural)]
pub enum GameObject {
    Snake,
    Food,
    Wall,
    Empty,
}

/// An opaque RGBA colour, one byte per channel.
#[derive(Debug, Copy, Clone, PartialEq, Eq, Structural)]
pub struct Color {
    pub r: u8,
    pub g: u8,
    pub b: u8,
    pub a: u8,
}

/// The fixed colour each cell kind is rendered with.
pub open spec fn spec_color_of(value: GameObject) -> Color {
    match value {
        GameObject::Snake => Color { r: 0, g: 255, b: 0, a: 255 },
        GameObject::Food => Color { r: 255, g: 0, b: 0, a: 255 },
        GameObject::Wall => Color { r: 139, g: 69, b: 19, a: 255 },
        GameObject::Empty => Color { r: 0, g: 0, b: 0, a: 255 },
    }
}

impl From<GameObject> for Color {
    fn from(value: GameObject) -> (r: Color)
        ensures
            r == spec_color_of(value),
    {
        match value {
            GameObject::Snake => Color { r: 0, g: 255, b: 0, a: 255 },
            GameObject::Food => Color { r: 255, g: 0, b: 0, a: 255 },
            GameObject::Wall => Color { r: 139, g: 69, b: 19, a: 255 },
            GameObject::Empty => Color { r: 0, g: 0, b: 0, a: 255 },
        }
    }
}

impl vstd::std_specs::convert::FromSpecImpl<GameObject> for Color {
    open spec fn obeys_from_spec() -> bool {
        true
    }

    open spec fn from_spec(t: GameObject) -> Color {
        spec_color_of(t)
    }
}

/// The controller's coarse run state.
#[derive(Debug, Clone, Copy, PartialEq, Eq, Structural)]
pub enum GameState {
    Running,
    Paused,
    GameOver,
}

/// An event the controller reports to its embedder, drained after each tick.
#[derive(Debug, Clone, Copy, PartialEq, Eq, Structural)]
pub enum GameEvent {
    GameStart,
    GamePause,
    GameOver,
    EatFood,
}

/// Rejecting a level whose stripped source does not cover the board.
#[derive(Debug, Clone, Copy, PartialEq, Eq, Structural)]
pub enum LevelError {
    SizeMismatch { expected: usize, got: usize },
}

} // verus!
