//! What the world is made of: the things in it, described by plain values.

use vstd::prelude::*;
use crate::vector::Vec3;

verus! {

/// A colour, by its name or by its four channels.
#[derive(Clone, Copy, Debug, PartialEq, Eq, Structural)]
pub enum Color {
    Blue,
    Red,
    Purple,
    Yellow,
    DarkGreen,
    Rgba { red: u8, green: u8, blue: u8, alpha: u8 },
}

/// What a thing in the world is. Sizes, intensities and angles are fixed-point
/// numbers.
#[derive(Clone, Copy, Debug, PartialEq, Eq)]
pub enum Body {
    /// A model loaded from a file.
    Model { path: &'static str },
    /// A cube with edges of length `size`.
    Cube { size: i64, color: Color },
    /// A level square with sides of length `size`.
    Plane { size: i64, color: Color },
    /// A light that shines all around.
    PointLight { color: Color, intensity: i64, shadows: bool },
    /// A light that shines in a cone.
    SpotLight { color: Color, intensity: i64, outer_angle: i64, inner_angle: i64, shadows: bool },
}

/// The part a thing plays.
#[derive(Clone, Copy, Debug, PartialEq, Eq, Structural)]
pub enum Role {
    /// It stands where it was put.
    Scenery,
    /// It is moved by the keys, at `speed`, and the camera follows it.
    Player { speed: u32 },
}

/// A thing in the world.
#[derive(Clone, Copy, Debug, PartialEq, Eq)]
pub struct Entity {
    pub name: &'static str,
    pub body: Body,
    /// Where it is, seen from the thing it is attached to, or from the middle
    /// of the world if it is attached to none.
    pub translation: Vec3,
    pub role: Role,
}

impl Entity {
    /// Whether this is something that the keys move.
    pub open spec fn is_player(self) -> bool {
        self.role is Player
    }
}

} // verus!
