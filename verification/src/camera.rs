//! The camera, as far as the player goes by it: the ways it calls forward and
//! right, and where the keys point when seen through it.

use vstd::prelude::*;
use crate::input::{Direction, Held};
use crate::vector::{Vec3, Vector, ONE};

verus! {

/// The ways a camera looks: what a `Camera` stands for.
pub struct Axes {
    pub forward: Vector,
    pub right: Vector,
}

impl Axes {
    /// Neither axis reaches further than `ONE` along any coordinate.
    pub open spec fn wf(self) -> bool {
        self.forward.within(ONE as int) && self.right.within(ONE as int)
    }

    /// The way the camera sees `direction`. Back is the reverse of forward and
    /// left the reverse of right.
    pub open spec fn axis(self, direction: Direction) -> Vector {
        match direction {
            Direction::Forward => self.forward,
            Direction::Back => self.forward.negated(),
            Direction::Left => self.right.negated(),
            Direction::Right => self.right,
        }
    }

    /// What one direction adds to the heading: its axis where it is asked for.
    pub open spec fn pull(self, held: Held, direction: Direction) -> Vector {
        if held.spec_holds(direction) {
            self.axis(direction)
        } else {
            Vector::zero()
        }
    }

    /// Where the keys point: the sum of the axes asked for, laid flat.
    pub open spec fn heading(self, held: Held) -> Vector {
        self.pull(held, Direction::Forward).plus(self.pull(held, Direction::Back)).plus(
            self.pull(held, Direction::Left),
        ).plus(self.pull(held, Direction::Right)).flat()
    }
}

/// The orientation of the camera: the ways it calls forward and right.
#[derive(Clone, Copy, Debug)]
pub struct Camera {
    forward: Vec3,
    right: Vec3,
}

impl View for Camera {
    type V = Axes;

    closed spec fn view(&self) -> Axes {
        Axes { forward: self.forward@, right: self.right@ }
    }
}

impl Camera {
    #[verifier::type_invariant]
    closed spec fn inv(self) -> bool {
        self@.wf()
    }

    /// A camera that looks along `forward` with `right` to its right, where
    /// neither reaches further than `ONE` along any coordinate.
    pub fn new(forward: Vec3, right: Vec3) -> (camera: Option<Camera>)
        ensures
            camera is Some <==> (Axes { forward: forward@, right: right@ }).wf(),
            camera is Some ==> camera->0@ == (Axes { forward: forward@, right: right@ }),
    {
        if forward.within(ONE) && right.within(ONE) {
            Some(Camera { forward, right })
        } else {
            None
        }
    }

    /// The way the camera looks.
    pub fn forward(&self) -> (v: Vec3)
        ensures
            v@ == self@.forward,
            self@.wf(),
    {
        proof {
            use_type_invariant(self);
        }
        self.forward
    }

    /// The way to the right of the camera.
    pub fn right(&self) -> (v: Vec3)
        ensures
            v@ == self@.right,
            self@.wf(),
    {
        proof {
            use_type_invariant(self);
        }
        self.right
    }

    /// The reverse of forward.
    pub fn back(&self) -> (v: Vec3)
        ensures
            v@ == self@.forward.negated(),
            self@.wf(),
    {
        self.forward().negated()
    }

    /// The reverse of right.
    pub fn left(&self) -> (v: Vec3)
        ensures
            v@ == self@.right.negated(),
            self@.wf(),
    {
        self.right().negated()
    }

    /// The way the camera sees `direction`.
    pub fn axis(&self, direction: Direction) -> (v: Vec3)
        ensures
            v@ == self@.axis(direction),
            v@.within(ONE as int),
    {
        match direction {
            Direction::Forward => self.forward(),
            Direction::Back => self.back(),
            Direction::Left => self.left(),
            Direction::Right => self.right(),
        }
    }

    /// Where the keys point: the sum of the axes asked for, laid flat.
    pub fn heading(&self, held: Held) -> (v: Vec3)
        ensures
            v@ == self@.heading(held),
            v@.within(4 * ONE),
    {
        let mut direction = Vec3::zero();
        if held.forward {
            direction = direction.plus(self.axis(Direction::Forward));
        }
        if held.back {
            direction = direction.plus(self.axis(Direction::Back));
        }
        if held.left {
            direction = direction.plus(self.axis(Direction::Left));
        }
        if held.right {
            direction = direction.plus(self.axis(Direction::Right));
        }
        direction.flat()
    }
}

} // verus!
