//! The player, and the controller that moves it where the keys and the camera say.

use bevy::input::keyboard::KeyCode;
use bevy::input::Input;
use vstd::prelude::*;
use crate::camera::{Axes, Camera};
use crate::input::{pressed_keys, Held};
use crate::lengths::{lemma_scaled_within, lemma_unit_within};
use crate::scene::{Body, Color, Entity, Role};
use crate::vector::{Vec3, Vector, ONE};

verus! {

/// The furthest from zero that a coordinate of the player may be for a frame
/// to move it: the largest number there is, less the furthest that one frame
/// can carry the player, so that no frame leaves the number range from there.
pub const EDGE: i64 = 9_223_353_590_110_710_688;

/// The distance covered at `speed` in the time `delta`, all three fixed-point.
pub open spec fn distance(speed: int, delta: int) -> int {
    speed * delta / (ONE as int)
}

impl Axes {
    /// How far the keys carry the player in one frame: the unit vector along
    /// the heading, times the distance covered at `speed` in the time `delta`.
    pub open spec fn displacement(self, held: Held, speed: int, delta: int) -> Vector {
        self.heading(held).unit().scaled(distance(speed, delta))
    }
}

impl Camera {
    /// How far the keys carry the player in one frame.
    pub fn displacement(&self, held: Held, speed: u32, delta: u32) -> (v: Vec3)
        ensures
            v@ == self@.displacement(held, speed as int, delta as int),
    {
        let direction = self.heading(held).unit();
        proof {
            lemma_unit_within(self@.heading(held));
        }
        direction.scaled(frame_distance(speed, delta))
    }
}

/// The furthest that one frame can carry the player.
pub const FRAME_REACH: u64 = 18_446_744_065_119;

/// No frame covers a distance of more than `FRAME_REACH`.
pub proof fn lemma_distance_range(speed: int, delta: int)
    requires
        0 <= speed <= u32::MAX,
        0 <= delta <= u32::MAX,
    ensures
        0 <= speed * delta <= 18_446_744_065_119_617_025,
        0 <= distance(speed, delta) <= FRAME_REACH,
{
    assert(0 <= speed * delta <= 18_446_744_065_119_617_025) by (nonlinear_arith)
        requires
            0 <= speed <= 0xffff_ffff,
            0 <= delta <= 0xffff_ffff,
    ;
}

/// The distance covered at `speed` in the time `delta`.
pub fn frame_distance(speed: u32, delta: u32) -> (d: u64)
    ensures
        d == distance(speed as int, delta as int),
        d <= FRAME_REACH,
{
    proof {
        lemma_distance_range(speed as int, delta as int);
    }
    (speed as u64) * (delta as u64) / (ONE as u64)
}

/// Where something is and which way it faces: what a `Transform` stands for.
pub struct Pose {
    pub translation: Vector,
    pub facing: Vector,
}

impl Pose {
    /// The pose after one frame. Without a camera nothing changes. With one,
    /// the displacement is added to the place, and the player turns to face
    /// along the heading unless the heading is zero.
    pub open spec fn moved(
        self,
        camera: Option<Axes>,
        held: Held,
        speed: int,
        delta: int,
    ) -> Pose {
        match camera {
            None => self,
            Some(axes) => Pose {
                translation: self.translation.plus(axes.displacement(held, speed, delta)),
                facing: if axes.heading(held).is_zero() {
                    self.facing
                } else {
                    axes.heading(held).unit()
                },
            },
        }
    }
}

/// Where the player is and which way it faces.
#[derive(Clone, Copy, Debug, PartialEq, Eq, Structural)]
pub struct Transform {
    pub translation: Vec3,
    pub facing: Vec3,
}

impl View for Transform {
    type V = Pose;

    open spec fn view(&self) -> Pose {
        Pose { translation: self.translation@, facing: self.facing@ }
    }
}

/// What a camera that may be missing stands for.
pub open spec fn axes_of(camera: Option<&Camera>) -> Option<Axes> {
    match camera {
        Some(camera) => Some(camera@),
        None => None,
    }
}

impl Transform {
    /// Moves and turns the player for one frame in which `held` is asked for.
    pub fn advance(&mut self, speed: u32, camera: Option<&Camera>, held: Held, delta: u32)
        requires
            old(self).translation@.within(EDGE as int),
        ensures
            final(self)@ == old(self)@.moved(axes_of(camera), held, speed as int, delta as int),
    {
        if let Some(camera) = camera {
            let direction = camera.heading(held);
            let movement = camera.displacement(held, speed, delta);
            proof {
                lemma_distance_range(speed as int, delta as int);
                lemma_displacement_short(camera@, held, speed as int, delta as int);
            }
            self.translation = self.translation.plus(movement);
            if !direction.is_zero() {
                self.facing = direction.unit();
            }
        }
    }
}

/// No frame carries the player further along a coordinate than the distance
/// covered at its speed.
pub proof fn lemma_displacement_short(axes: Axes, held: Held, speed: int, delta: int)
    requires
        0 <= speed,
        0 <= delta,
    ensures
        axes.displacement(held, speed, delta).within(distance(speed, delta)),
{
    lemma_unit_within(axes.heading(held));
    let unit = axes.heading(held).unit();
    let d = distance(speed, delta);
    assert(d >= 0) by (nonlinear_arith)
        requires
            d == speed * delta / (ONE as int),
            0 <= speed,
            0 <= delta,
    ;
    lemma_scaled_within(unit, d);
}

/// Moves the player for one frame: reads the directions that the keys now down
/// ask for, and carries the player along them as the camera sees them.
pub fn player_movement(
    speed: u32,
    player_transform: &mut Transform,
    camera: Option<&Camera>,
    keys: &Input<KeyCode>,
    delta: u32,
)
    requires
        old(player_transform).translation@.within(EDGE as int),
    ensures
        final(player_transform)@ == old(player_transform)@.moved(
            axes_of(camera),
            Held::of(pressed_keys(*keys)),
            speed as int,
            delta as int,
        ),
{
    let held = Held::read(keys);
    player_transform.advance(speed, camera, held, delta);
}

/// The player: a model that stands half a unit above the ground and moves at
/// two units a second.
pub open spec fn player() -> Entity {
    Entity {
        name: "Player",
        body: Body::Model { path: "Player.gltf#Scene0" },
        translation: Vec3::at(0, 500_000, 0),
        role: Role::Player { speed: 2_000_000 },
    }
}

/// The light that the player carries: a yellowish cone, a little above and
/// before the player's middle.
pub open spec fn flashlight() -> Entity {
    Entity {
        name: "Flashlight",
        body: Body::SpotLight {
            color: Color::Rgba { red: 255, green: 246, blue: 95, alpha: 1 },
            intensity: 4_000_000_000,
            outer_angle: 600_000,
            inner_angle: 500_000,
            shadows: true,
        },
        translation: Vec3::at(0, 300_000, -200_000),
        role: Role::Scenery,
    }
}

/// The four cubes that stand about the world.
pub open spec fn objects() -> Seq<Entity> {
    seq![
        cube(1_000_000, Color::Blue, Vec3::at(-3_750_000, 500_000, -3_750_000), "Blue Cube"),
        cube(2_000_000, Color::Red, Vec3::at(-3_750_000, 1_000_000, 0), "Red Cube"),
        cube(3_000_000, Color::Purple, Vec3::at(0, 1_500_000, -3_750_000), "Purple Cube"),
        cube(4_000_000, Color::Yellow, Vec3::at(0, 2_000_000, 3_750_000), "Yellow Cube"),
    ]
}

/// A cube that stands where it is put.
pub open spec fn cube(size: i64, color: Color, translation: Vec3, name: &'static str) -> Entity {
    Entity { name, body: Body::Cube { size, color }, translation, role: Role::Scenery }
}

/// Describes the player and, second, the flashlight that is attached to it.
pub fn spawn_player() -> (spawned: (Entity, Entity))
    ensures
        spawned == (player(), flashlight()),
{
    let flashlight = Entity {
        name: "Flashlight",
        body: Body::SpotLight {
            color: Color::Rgba { red: 255, green: 246, blue: 95, alpha: 1 },
            intensity: 4_000_000_000,
            outer_angle: 600_000,
            inner_angle: 500_000,
            shadows: true,
        },
        translation: Vec3::new(0, 300_000, -200_000),
        role: Role::Scenery,
    };
    let player = Entity {
        name: "Player",
        body: Body::Model { path: "Player.gltf#Scene0" },
        translation: Vec3::new(0, 500_000, 0),
        role: Role::Player { speed: 2_000_000 },
    };
    (player, flashlight)
}

/// Describes a cube.
pub fn create_cube(
    size: i64,
    color: Color,
    translation: Vec3,
    name: &'static str,
) -> (made: Entity)
    ensures
        made == cube(size, color, translation, name),
{
    Entity { name, body: Body::Cube { size, color }, translation, role: Role::Scenery }
}

/// Describes the four cubes.
pub fn spawn_object() -> (spawned: Vec<Entity>)
    ensures
        spawned@ == objects(),
{
    let blue_cube = create_cube(
        1_000_000,
        Color::Blue,
        Vec3::new(-3_750_000, 500_000, -3_750_000),
        "Blue Cube",
    );
    let red_cube = create_cube(
        2_000_000,
        Color::Red,
        Vec3::new(-3_750_000, 1_000_000, 0),
        "Red Cube",
    );
    let purple_cube = create_cube(
        3_000_000,
        Color::Purple,
        Vec3::new(0, 1_500_000, -3_750_000),
        "Purple Cube",
    );
    let yellow_cube = create_cube(
        4_000_000,
        Color::Yellow,
        Vec3::new(0, 2_000_000, 3_750_000),
        "Yellow Cube",
    );
    let mut spawned: Vec<Entity> = Vec::new();
    spawned.push(blue_cube);
    spawned.push(red_cube);
    spawned.push(purple_cube);
    spawned.push(yellow_cube);
    assert(spawned@ =~= objects());
    spawned
}

} // verus!
