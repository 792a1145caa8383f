//! Vectors in space on fixed-point numbers.
//!
//! A coordinate is a whole number of millionths: `ONE` stands for one unit of
//! length. All rounding is toward zero, so that a vector and its mirror image
//! are treated alike.

use vstd::prelude::*;
use crate::lengths::{lemma_coordinate_square, lemma_fine_length, lemma_scaled_fits, lemma_share};
use crate::root::{ceil_sqrt, ceil_sqrt_u128};

verus! {

/// The fixed-point number that stands for 1.
pub const ONE: i64 = 1_000_000;

/// The largest coordinate, in magnitude, of a vector that `Vec3::unit` takes.
pub const SPAN: i64 = 0x1_0000_0000;

/// `ONE * ONE`.
const ONE_SQUARED: u128 = 1_000_000_000_000;

/// The distance from zero.
pub open spec fn abs(a: int) -> int {
    if a >= 0 {
        a
    } else {
        -a
    }
}

/// 1 for a number above zero, -1 for one below, 0 for zero.
pub open spec fn signum(a: int) -> int {
    if a > 0 {
        1
    } else if a < 0 {
        -1
    } else {
        0
    }
}

/// `a / d`, rounded toward zero.
pub open spec fn quotient(a: int, d: int) -> int {
    if a >= 0 {
        a / d
    } else {
        -((-a) / d)
    }
}

/// Whether `n` is `a * scale / length`, rounded down by less than `slack`, where
/// `square` is the square of `length`: stated without the root, which is no
/// whole number.
pub open spec fn rounds(n: int, a: int, scale: int, square: int, slack: int) -> bool {
    n * n * square <= (a * scale) * (a * scale) < (n + slack) * (n + slack) * square
}

/// A vector with whole-number coordinates of any size: what a `Vec3` stands for.
pub struct Vector {
    pub x: int,
    pub y: int,
    pub z: int,
}

impl Vector {
    pub open spec fn zero() -> Vector {
        Vector { x: 0, y: 0, z: 0 }
    }

    pub open spec fn is_zero(self) -> bool {
        self.x == 0 && self.y == 0 && self.z == 0
    }

    pub open spec fn plus(self, other: Vector) -> Vector {
        Vector { x: self.x + other.x, y: self.y + other.y, z: self.z + other.z }
    }

    pub open spec fn negated(self) -> Vector {
        Vector { x: -self.x, y: -self.y, z: -self.z }
    }

    /// The vector laid flat on the ground: its height is dropped.
    pub open spec fn flat(self) -> Vector {
        Vector { x: self.x, y: 0, z: self.z }
    }

    /// No coordinate is further than `bound` from zero.
    pub open spec fn within(self, bound: int) -> bool {
        abs(self.x) <= bound && abs(self.y) <= bound && abs(self.z) <= bound
    }

    /// The square of the vector's length.
    pub open spec fn length_squared(self) -> int {
        self.x * self.x + self.y * self.y + self.z * self.z
    }

    /// The length of the vector on a scale finer by the factor `ONE`, rounded up.
    pub open spec fn fine_length(self) -> int {
        ceil_sqrt((self.length_squared() * (ONE * ONE)) as nat) as int
    }

    /// The vector of length `ONE` that points the same way, or zero for the zero
    /// vector. Each coordinate is `ONE * c / length`, rounded toward zero.
    pub open spec fn unit(self) -> Vector {
        if self.is_zero() {
            Vector::zero()
        } else {
            Vector {
                x: quotient(self.x * (ONE * ONE), self.fine_length()),
                y: quotient(self.y * (ONE * ONE), self.fine_length()),
                z: quotient(self.z * (ONE * ONE), self.fine_length()),
            }
        }
    }

    /// The vector times the fixed-point number `factor`, rounded toward zero.
    pub open spec fn scaled(self, factor: int) -> Vector {
        Vector {
            x: quotient(self.x * factor, ONE as int),
            y: quotient(self.y * factor, ONE as int),
            z: quotient(self.z * factor, ONE as int),
        }
    }

    /// Whether this is the step of length `far` along `way`, rounded toward
    /// zero: along each coordinate it lies on the side of `way`, no further
    /// from zero than `far` times the coordinate of `way` by the length of
    /// `way`, and short of that by less than two and twice `far` in units.
    pub open spec fn is_step_along(self, way: Vector, far: int) -> bool {
        let slack = 2 + 2 * far / (ONE as int);
        &&& rounds(abs(self.x), abs(way.x), far, way.length_squared(), slack)
        &&& rounds(abs(self.y), abs(way.y), far, way.length_squared(), slack)
        &&& rounds(abs(self.z), abs(way.z), far, way.length_squared(), slack)
        &&& signum(self.x) == signum(way.x) || self.x == 0
        &&& signum(self.y) == signum(way.y) || self.y == 0
        &&& signum(self.z) == signum(way.z) || self.z == 0
    }
}

/// A vector in space with fixed-point coordinates.
#[derive(Clone, Copy, Debug, PartialEq, Eq, Structural)]
pub struct Vec3 {
    pub x: i64,
    pub y: i64,
    pub z: i64,
}

impl View for Vec3 {
    type V = Vector;

    open spec fn view(&self) -> Vector {
        Vector { x: self.x as int, y: self.y as int, z: self.z as int }
    }
}

/// The distance of `c` from zero.
fn magnitude(c: i64) -> (m: u128)
    ensures
        m == abs(c as int),
{
    if c >= 0 {
        c as u128
    } else {
        (-(c as i128)) as u128
    }
}

/// `c * factor / divisor`, rounded toward zero.
fn ratio(c: i64, factor: u128, divisor: u128) -> (r: i64)
    requires
        divisor > 0,
        abs(c as int) * factor <= u128::MAX,
        abs(c as int) * factor / (divisor as int) <= i64::MAX,
    ensures
        r == quotient(c * factor, divisor as int),
{
    let whole: u128 = magnitude(c) * factor / divisor;
    proof {
        if c >= 0 {
            assert(c * factor >= 0) by (nonlinear_arith)
                requires
                    c >= 0,
                    factor >= 0,
            ;
        } else {
            assert(c * factor <= 0 && -(c * factor) == (-c) * factor) by (nonlinear_arith)
                requires
                    c < 0,
                    factor >= 0,
            ;
        }
    }
    if c >= 0 {
        whole as i64
    } else {
        -(whole as i64)
    }
}

impl Vec3 {
    /// The vector with the given coordinates, each within the number range.
    pub open spec fn at(x: int, y: int, z: int) -> Vec3 {
        Vec3 { x: x as i64, y: y as i64, z: z as i64 }
    }

    /// The vector with the given coordinates.
    pub fn new(x: i64, y: i64, z: i64) -> (v: Vec3)
        ensures
            v == (Vec3 { x, y, z }),
    {
        Vec3 { x, y, z }
    }

    /// The vector that goes nowhere.
    pub fn zero() -> (v: Vec3)
        ensures
            v@ == Vector::zero(),
    {
        Vec3 { x: 0, y: 0, z: 0 }
    }

    /// Whether the vector goes nowhere.
    pub fn is_zero(self) -> (b: bool)
        ensures
            b == self@.is_zero(),
    {
        self.x == 0 && self.y == 0 && self.z == 0
    }

    /// Whether no coordinate is further than `bound` from zero.
    pub fn within(self, bound: i64) -> (b: bool)
        ensures
            b == self@.within(bound as int),
    {
        bound >= 0 && -bound <= self.x && self.x <= bound && -bound <= self.y && self.y <= bound
            && -bound <= self.z && self.z <= bound
    }

    /// The sum of two vectors, where it is within the number range.
    pub fn plus(self, other: Vec3) -> (v: Vec3)
        requires
            i64::MIN <= self.x + other.x <= i64::MAX,
            i64::MIN <= self.y + other.y <= i64::MAX,
            i64::MIN <= self.z + other.z <= i64::MAX,
        ensures
            v@ == self@.plus(other@),
    {
        Vec3 { x: self.x + other.x, y: self.y + other.y, z: self.z + other.z }
    }

    /// The vector turned about, where that is within the number range.
    pub fn negated(self) -> (v: Vec3)
        requires
            self.x > i64::MIN,
            self.y > i64::MIN,
            self.z > i64::MIN,
        ensures
            v@ == self@.negated(),
    {
        Vec3 { x: -self.x, y: -self.y, z: -self.z }
    }

    /// The vector laid flat on the ground.
    pub fn flat(self) -> (v: Vec3)
        ensures
            v@ == self@.flat(),
    {
        Vec3 { x: self.x, y: 0, z: self.z }
    }

    /// The vector of length `ONE` that points the same way, or zero for the
    /// zero vector. It takes vectors within `SPAN`.
    pub fn unit(self) -> (v: Vec3)
        requires
            self@.within(SPAN as int),
        ensures
            v@ == self@.unit(),
    {
        if self.is_zero() {
            return Vec3::zero();
        }
        let ax: u128 = magnitude(self.x);
        let ay: u128 = magnitude(self.y);
        let az: u128 = magnitude(self.z);
        proof {
            lemma_coordinate_square(self.x as int);
            lemma_coordinate_square(self.y as int);
            lemma_coordinate_square(self.z as int);
        }
        let square: u128 = ax * ax + ay * ay + az * az;
        let root: u128 = ceil_sqrt_u128(square * ONE_SQUARED);
        proof {
            lemma_fine_length(self@);
            lemma_share(ax as int, root as int);
            lemma_share(ay as int, root as int);
            lemma_share(az as int, root as int);
        }
        Vec3 {
            x: ratio(self.x, ONE_SQUARED, root),
            y: ratio(self.y, ONE_SQUARED, root),
            z: ratio(self.z, ONE_SQUARED, root),
        }
    }

    /// The vector times the fixed-point number `factor`. It takes vectors
    /// within `ONE`.
    pub fn scaled(self, factor: u64) -> (v: Vec3)
        requires
            self@.within(ONE as int),
            factor <= i64::MAX,
        ensures
            v@ == self@.scaled(factor as int),
    {
        proof {
            lemma_scaled_fits(self.x as int, factor as int);
            lemma_scaled_fits(self.y as int, factor as int);
            lemma_scaled_fits(self.z as int, factor as int);
        }
        Vec3 {
            x: ratio(self.x, factor as u128, ONE as u128),
            y: ratio(self.y, factor as u128, ONE as u128),
            z: ratio(self.z, factor as u128, ONE as u128),
        }
    }
}

} // verus!
