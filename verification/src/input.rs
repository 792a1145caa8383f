//! The keys that steer the player, and the directions they stand for.

use bevy::input::keyboard::KeyCode;
use bevy::input::Input;
use vstd::prelude::*;

verus! {

/// A way the player can be told to go, as the camera sees it.
#[derive(Clone, Copy, Debug, PartialEq, Eq, Structural)]
pub enum Direction {
    Forward,
    Back,
    Left,
    Right,
}

/// A key that steers the player.
#[derive(Clone, Copy, Debug, PartialEq, Eq, Structural)]
pub enum Key {
    W,
    Up,
    S,
    Down,
    A,
    Left,
    D,
    Right,
}

impl Key {
    /// The direction a key stands for: each direction has a letter and an arrow.
    pub open spec fn spec_direction(self) -> Direction {
        match self {
            Key::W | Key::Up => Direction::Forward,
            Key::S | Key::Down => Direction::Back,
            Key::A | Key::Left => Direction::Left,
            Key::D | Key::Right => Direction::Right,
        }
    }

    /// The direction this key stands for.
    #[verifier::when_used_as_spec(spec_direction)]
    pub fn direction(self) -> (d: Direction)
        ensures
            d == self.spec_direction(),
    {
        match self {
            Key::W | Key::Up => Direction::Forward,
            Key::S | Key::Down => Direction::Back,
            Key::A | Key::Left => Direction::Left,
            Key::D | Key::Right => Direction::Right,
        }
    }
}

/// `bevy::input::Input`: the engine's record of which buttons are down. It is
/// taken as it is; nothing in it is seen from here but through `pressed_keys`.
#[verifier::external_type_specification]
#[verifier::external_body]
#[verifier::reject_recursive_types(T)]
pub struct ExInput<T: Copy + Eq + std::hash::Hash + Send + Sync + 'static>(Input<T>);

/// `bevy::input::keyboard::KeyCode`: the engine's name for a key of the keyboard.
#[verifier::external_type_specification]
#[verifier::external_body]
pub struct ExKeyCode(KeyCode);

/// The steering keys that an `Input` holds as pressed: `Key::W` is among them
/// where `Input::pressed(KeyCode::W)` is true, and so on for the other seven.
pub uninterp spec fn pressed_keys(keys: Input<KeyCode>) -> Set<Key>;

/// Whether one of two keys is down. Calls `Input::any_pressed` with the engine's
/// codes of the same names for `first` and `second`. That function answers
/// whether any of the codes it is given is in its set of pressed buttons: this
/// is what the contract says, and it is taken on trust.
#[verifier::external_body]
fn any_pressed(keys: &Input<KeyCode>, first: Key, second: Key) -> (down: bool)
    ensures
        down == (pressed_keys(*keys).contains(first) || pressed_keys(*keys).contains(second)),
{
    let code = |key: Key| match key {
        Key::W => KeyCode::W,
        Key::Up => KeyCode::Up,
        Key::S => KeyCode::S,
        Key::Down => KeyCode::Down,
        Key::A => KeyCode::A,
        Key::Left => KeyCode::Left,
        Key::D => KeyCode::D,
        Key::Right => KeyCode::Right,
    };
    keys.any_pressed([code(first), code(second)])
}

/// The directions in which the player is told to go at one moment.
#[derive(Clone, Copy, Debug, PartialEq, Eq, Structural)]
pub struct Held {
    pub forward: bool,
    pub back: bool,
    pub left: bool,
    pub right: bool,
}

impl Held {
    /// Whether a key that stands for `direction` is among `pressed`.
    pub open spec fn asks(pressed: Set<Key>, direction: Direction) -> bool {
        exists|key: Key| #[trigger] pressed.contains(key) && key.spec_direction() == direction
    }

    /// The directions that a set of pressed keys asks for.
    pub open spec fn of(pressed: Set<Key>) -> Held {
        Held {
            forward: Held::asks(pressed, Direction::Forward),
            back: Held::asks(pressed, Direction::Back),
            left: Held::asks(pressed, Direction::Left),
            right: Held::asks(pressed, Direction::Right),
        }
    }

    pub open spec fn spec_none() -> Held {
        Held { forward: false, back: false, left: false, right: false }
    }

    /// No direction.
    #[verifier::when_used_as_spec(spec_none)]
    pub fn none() -> (held: Held)
        ensures
            held == Held::spec_none(),
    {
        Held { forward: false, back: false, left: false, right: false }
    }

    pub open spec fn spec_holds(self, direction: Direction) -> bool {
        match direction {
            Direction::Forward => self.forward,
            Direction::Back => self.back,
            Direction::Left => self.left,
            Direction::Right => self.right,
        }
    }

    /// Whether `direction` is asked for.
    #[verifier::when_used_as_spec(spec_holds)]
    pub fn holds(self, direction: Direction) -> (b: bool)
        ensures
            b == self.spec_holds(direction),
    {
        match direction {
            Direction::Forward => self.forward,
            Direction::Back => self.back,
            Direction::Left => self.left,
            Direction::Right => self.right,
        }
    }

    /// Reads the directions that the keys now down ask for.
    pub fn read(keys: &Input<KeyCode>) -> (held: Held)
        ensures
            held == Held::of(pressed_keys(*keys)),
    {
        let held = Held {
            forward: any_pressed(keys, Key::W, Key::Up),
            back: any_pressed(keys, Key::S, Key::Down),
            left: any_pressed(keys, Key::A, Key::Left),
            right: any_pressed(keys, Key::D, Key::Right),
        };
        proof {
            lemma_asks(pressed_keys(*keys));
        }
        held
    }
}

/// A direction is asked for exactly when its letter or its arrow is down.
pub proof fn lemma_asks(pressed: Set<Key>)
    ensures
        Held::asks(pressed, Direction::Forward) == (pressed.contains(Key::W) || pressed.contains(
            Key::Up,
        )),
        Held::asks(pressed, Direction::Back) == (pressed.contains(Key::S) || pressed.contains(
            Key::Down,
        )),
        Held::asks(pressed, Direction::Left) == (pressed.contains(Key::A) || pressed.contains(
            Key::Left,
        )),
        Held::asks(pressed, Direction::Right) == (pressed.contains(Key::D) || pressed.contains(
            Key::Right,
        )),
{
}

} // verus!
