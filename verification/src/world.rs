//! The ground and the light above it.

use vstd::prelude::*;
use crate::player::{flashlight, objects, player};
use crate::scene::{Body, Color, Entity, Role};
use crate::vector::Vec3;

verus! {

/// The main light: orange, ten units above the middle of the world.
pub open spec fn light() -> Entity {
    Entity {
        name: "Main light",
        body: Body::PointLight {
            color: Color::Rgba { red: 255, green: 199, blue: 0, alpha: 255 },
            intensity: 2_000_000_000,
            shadows: true,
        },
        translation: Vec3::at(0, 10_000_000, 0),
        role: Role::Scenery,
    }
}

/// The floor: a dark green square of fifteen units, about the middle of the world.
pub open spec fn floor() -> Entity {
    Entity {
        name: "Floor",
        body: Body::Plane { size: 15_000_000, color: Color::DarkGreen },
        translation: Vec3::at(0, 0, 0),
        role: Role::Scenery,
    }
}

/// All that is in the world before the first frame.
pub open spec fn everything() -> Seq<Entity> {
    seq![player(), flashlight()] + objects() + seq![floor(), light()]
}

/// Describes the main light.
pub fn spawn_light() -> (spawned: Entity)
    ensures
        spawned == light(),
{
    Entity {
        name: "Main light",
        body: Body::PointLight {
            color: Color::Rgba { red: 255, green: 199, blue: 0, alpha: 255 },
            intensity: 2_000_000_000,
            shadows: true,
        },
        translation: Vec3::new(0, 10_000_000, 0),
        role: Role::Scenery,
    }
}

/// Describes the floor.
pub fn spawn_floor() -> (spawned: Entity)
    ensures
        spawned == floor(),
{
    Entity {
        name: "Floor",
        body: Body::Plane { size: 15_000_000, color: Color::DarkGreen },
        translation: Vec3::new(0, 0, 0),
        role: Role::Scenery,
    }
}

} // verus!
