//! What holds of every frame, whatever the camera, the keys, the speed and the time.

use vstd::prelude::*;
use crate::camera::Axes;
use crate::input::{Held, Key};
use crate::lengths::{
    lemma_scaled_along_axes, lemma_scaled_length, lemma_scaled_level, lemma_scaled_zero,
    lemma_step_accurate, lemma_unit_accurate, lemma_unit_along_axis, lemma_unit_length,
    lemma_unit_sides, lemma_unit_within, lemma_unit_zero,
};
use crate::player::{distance, Pose};
use crate::vector::{abs, rounds, signum, Vector, ONE};
use crate::world::everything;

verus! {

/// With no key down, no direction is asked for.
pub proof fn law_no_keys_ask_nothing()
    ensures
        Held::of(Set::<Key>::empty()) == Held::none(),
{
}

/// With no direction asked for, a frame moves the player by exactly nothing and
/// leaves its facing as it was.
pub proof fn law_idle(pose: Pose, axes: Axes, speed: int, delta: int)
    ensures
        axes.displacement(Held::none(), speed, delta) == Vector::zero(),
        pose.moved(Some(axes), Held::none(), speed, delta) == pose,
{
    law_balance(pose, axes, Held::none(), speed, delta);
}

/// With forward alone asked for, the player goes along the camera's forward
/// axis laid flat, by the distance covered at its speed: the step is the unit
/// vector along that axis times the distance, which is the exact step rounded
/// toward zero.
pub proof fn law_forward_alone(axes: Axes, speed: int, delta: int)
    requires
        0 <= speed,
        0 <= delta,
    ensures
        ({
            let held = Held { forward: true, back: false, left: false, right: false };
            let way = axes.forward.flat();
            let step = axes.displacement(held, speed, delta);
            &&& axes.heading(held) == way
            &&& step == way.unit().scaled(distance(speed, delta))
            &&& step.length_squared() <= distance(speed, delta) * distance(speed, delta)
            &&& !way.is_zero() ==> step.is_step_along(way, distance(speed, delta))
        }),
{
    let held = Held { forward: true, back: false, left: false, right: false };
    law_speed_limit(axes, held, speed, delta);
    law_step_accurate(axes, held, speed, delta);
}

/// Where the camera's forward axis laid flat lies along the x or the z axis,
/// forward alone carries the player along that axis by exactly the distance
/// covered at its speed.
pub proof fn law_forward_alone_exact(axes: Axes, speed: int, delta: int)
    requires
        axes.forward.x == 0 || axes.forward.z == 0,
        0 <= speed,
        0 <= delta,
    ensures
        ({
            let held = Held { forward: true, back: false, left: false, right: false };
            axes.displacement(held, speed, delta) == (Vector {
                x: signum(axes.forward.x) * distance(speed, delta),
                y: 0,
                z: signum(axes.forward.z) * distance(speed, delta),
            })
        }),
{
    let flat = axes.forward.flat();
    lemma_unit_along_axis(flat);
    let d = distance(speed, delta);
    assert(d >= 0) by (nonlinear_arith)
        requires
            d == speed * delta / (ONE as int),
            0 <= speed,
            0 <= delta,
    ;
    lemma_scaled_along_axes(Vector { x: signum(flat.x), y: 0, z: signum(flat.z) }, d);
}

/// With forward and right asked for together, the player goes along the sum of
/// the two axes laid flat, a diagonal, and no further than with one key: the
/// step is the unit vector along the sum times the distance covered, which is
/// the exact step rounded toward zero.
pub proof fn law_forward_and_right(axes: Axes, speed: int, delta: int)
    requires
        0 <= speed,
        0 <= delta,
    ensures
        ({
            let held = Held { forward: true, back: false, left: false, right: true };
            let way = axes.forward.plus(axes.right).flat();
            let step = axes.displacement(held, speed, delta);
            &&& axes.heading(held) == way
            &&& step == way.unit().scaled(distance(speed, delta))
            &&& step.length_squared() <= distance(speed, delta) * distance(speed, delta)
            &&& !way.is_zero() ==> step.is_step_along(way, distance(speed, delta))
        }),
{
    let held = Held { forward: true, back: false, left: false, right: true };
    law_speed_limit(axes, held, speed, delta);
    law_step_accurate(axes, held, speed, delta);
}

/// Whatever is asked for, a frame carries the player no further than the
/// distance covered at its speed: two keys together are no faster than one.
pub proof fn law_speed_limit(axes: Axes, held: Held, speed: int, delta: int)
    requires
        0 <= speed,
        0 <= delta,
    ensures
        axes.displacement(held, speed, delta).length_squared() <= distance(speed, delta)
            * distance(speed, delta),
{
    let d = distance(speed, delta);
    assert(d >= 0) by (nonlinear_arith)
        requires
            d == speed * delta / (ONE as int),
            0 <= speed,
            0 <= delta,
    ;
    lemma_unit_length(axes.heading(held));
    lemma_scaled_length(axes.heading(held).unit(), d);
}

/// Whatever is asked for, the step of a frame is the exact one rounded toward
/// zero: it goes the way of the heading, by the distance covered at the
/// player's speed, and rounding takes less than two millionths and twice the
/// distance in units from each coordinate.
pub proof fn law_step_accurate(axes: Axes, held: Held, speed: int, delta: int)
    requires
        0 <= speed,
        0 <= delta,
    ensures
        !axes.heading(held).is_zero() ==> axes.displacement(held, speed, delta).is_step_along(
            axes.heading(held),
            distance(speed, delta),
        ),
{
    let d = distance(speed, delta);
    assert(d >= 0) by (nonlinear_arith)
        requires
            d == speed * delta / (ONE as int),
            0 <= speed,
            0 <= delta,
    ;
    if !axes.heading(held).is_zero() {
        lemma_step_accurate(axes.heading(held), d);
    }
}

/// A direction asked for together with its reverse counts for nothing: the
/// heading is the one with both let go.
pub proof fn law_opposites_cancel(axes: Axes, held: Held)
    ensures
        held.forward && held.back ==> axes.heading(held) == axes.heading(
            Held { forward: false, back: false, left: held.left, right: held.right },
        ),
        held.left && held.right ==> axes.heading(held) == axes.heading(
            Held { forward: held.forward, back: held.back, left: false, right: false },
        ),
{
}

/// Where each direction asked for is asked for together with its reverse, a
/// frame moves the player by exactly nothing and leaves its facing as it was.
pub proof fn law_balance(pose: Pose, axes: Axes, held: Held, speed: int, delta: int)
    requires
        held.forward == held.back,
        held.left == held.right,
    ensures
        axes.heading(held) == Vector::zero(),
        axes.displacement(held, speed, delta) == Vector::zero(),
        pose.moved(Some(axes), held, speed, delta) == pose,
{
    assert(axes.heading(held) == Vector::zero());
    lemma_scaled_zero(distance(speed, delta));
}

/// A frame never lifts or lowers the player, however steeply the camera looks
/// up or down.
pub proof fn law_level(pose: Pose, camera: Option<Axes>, held: Held, speed: int, delta: int)
    ensures
        camera is Some ==> camera->0.displacement(held, speed, delta).y == 0,
        pose.moved(camera, held, speed, delta).translation.y == pose.translation.y,
{
    if let Some(axes) = camera {
        let heading = axes.heading(held);
        lemma_unit_sides(heading);
        lemma_scaled_level(heading.unit(), distance(speed, delta));
    }
}

/// The player turns exactly when the heading is not zero, and then faces along
/// it: level, no longer than `ONE`, and along each coordinate the exact unit
/// vector rounded toward zero by less than two millionths.
pub proof fn law_facing(pose: Pose, axes: Axes, held: Held, speed: int, delta: int)
    ensures
        ({
            let after = pose.moved(Some(axes), held, speed, delta);
            let heading = axes.heading(held);
            &&& heading.is_zero() ==> after.facing == pose.facing
            &&& !heading.is_zero() ==> {
                &&& after.facing == heading.unit()
                &&& after.facing.y == 0
                &&& !after.facing.is_zero()
                &&& after.facing.within(ONE as int)
                &&& after.facing.length_squared() <= ONE * ONE
                &&& rounds(
                    abs(after.facing.x),
                    abs(heading.x),
                    ONE as int,
                    heading.length_squared(),
                    2,
                )
                &&& rounds(
                    abs(after.facing.z),
                    abs(heading.z),
                    ONE as int,
                    heading.length_squared(),
                    2,
                )
            }
        }),
{
    let heading = axes.heading(held);
    lemma_unit_zero(heading);
    lemma_unit_within(heading);
    lemma_unit_length(heading);
    lemma_unit_sides(heading);
    if !heading.is_zero() {
        lemma_unit_accurate(heading);
    }
}

/// Whenever a frame moves the player, the player afterwards faces the way it
/// went: the step taken is the new facing times the distance covered, and the
/// facing is level.
pub proof fn law_facing_follows_movement(
    pose: Pose,
    axes: Axes,
    held: Held,
    speed: int,
    delta: int,
)
    requires
        pose.moved(Some(axes), held, speed, delta).translation != pose.translation,
    ensures
        ({
            let after = pose.moved(Some(axes), held, speed, delta);
            &&& after.facing == axes.heading(held).unit()
            &&& after.facing.y == 0
            &&& after.translation == pose.translation.plus(
                after.facing.scaled(distance(speed, delta)),
            )
        }),
{
    let heading = axes.heading(held);
    if heading.is_zero() {
        lemma_scaled_zero(distance(speed, delta));
    }
    lemma_unit_sides(heading);
}

/// Without a camera a frame changes nothing.
pub proof fn law_no_camera(pose: Pose, held: Held, speed: int, delta: int)
    ensures
        pose.moved(None, held, speed, delta) == pose,
{
}

/// Of all that is in the world before the first frame, exactly one thing is the
/// player.
pub proof fn law_one_player()
    ensures
        everything().len() == 8,
        forall|i: int|
            0 <= i < everything().len() ==> (#[trigger] everything()[i].is_player() <==> i == 0),
{
}

} // verus!
