//! What holds of unit vectors and of vectors times a factor: how long they
//! are, which way they point, and where they are exact.

use vstd::prelude::*;
use crate::root::{ceil_sqrt, is_ceil_sqrt, lemma_ceil_sqrt_exists, lemma_ceil_sqrt_is};
use crate::vector::{abs, quotient, rounds, signum, Vector, ONE, SPAN};

verus! {

/// A number and its mirror image have the same square.
proof fn lemma_abs_square(c: int)
    by (nonlinear_arith)
    ensures
        abs(c) * abs(c) == c * c,
{
}

/// Of two numbers that are not negative, the one with the smaller square is the smaller.
proof fn lemma_square_order(a: int, b: int)
    by (nonlinear_arith)
    requires
        0 <= a,
        0 <= b,
        a * a <= b * b,
    ensures
        a <= b,
{
}

/// Rounding toward zero treats a number and its mirror image alike.
pub proof fn lemma_quotient_abs(c: int, factor: int, divisor: int)
    by (nonlinear_arith)
    requires
        factor >= 0,
        divisor > 0,
    ensures
        abs(quotient(c * factor, divisor)) == abs(c) * factor / divisor,
        c >= 0 ==> quotient(c * factor, divisor) >= 0,
        c <= 0 ==> quotient(c * factor, divisor) <= 0,
{
}

/// The square of a coordinate on the finer scale is part of the square of the length.
proof fn lemma_fine_square(v: Vector)
    by (nonlinear_arith)
    ensures
        v.length_squared() >= 0,
        v.length_squared() * (ONE * ONE) >= 0,
        (abs(v.x) * ONE) * (abs(v.x) * ONE) <= v.length_squared() * (ONE * ONE),
        (abs(v.y) * ONE) * (abs(v.y) * ONE) <= v.length_squared() * (ONE * ONE),
        (abs(v.z) * ONE) * (abs(v.z) * ONE) <= v.length_squared() * (ONE * ONE),
        !v.is_zero() ==> v.length_squared() * (ONE * ONE) > 0,
{
}

/// The fine length is a length: its square covers the square of the vector, no
/// coordinate is longer than it, and only the zero vector has none.
pub proof fn lemma_fine_length(v: Vector)
    ensures
        v.fine_length() * v.fine_length() >= v.length_squared() * (ONE * ONE),
        abs(v.x) * ONE <= v.fine_length(),
        abs(v.y) * ONE <= v.fine_length(),
        abs(v.z) * ONE <= v.fine_length(),
        !v.is_zero() ==> v.fine_length() > 0,
{
    lemma_fine_square(v);
    let fine = v.length_squared() * (ONE * ONE);
    lemma_ceil_sqrt_exists(fine as nat);
    let root = v.fine_length();
    assert(root * root >= fine);
    lemma_square_order(abs(v.x) * ONE, root);
    lemma_square_order(abs(v.y) * ONE, root);
    lemma_square_order(abs(v.z) * ONE, root);
}

/// The length of a vector on the finer scale is at least `ONE`, unless the
/// vector is zero.
proof fn lemma_fine_length_above(v: Vector)
    requires
        !v.is_zero(),
    ensures
        v.fine_length() >= ONE,
{
    lemma_fine_length(v);
    if v.x != 0 {
        assert(abs(v.x) * ONE >= ONE);
    } else if v.y != 0 {
        assert(abs(v.y) * ONE >= ONE);
    } else {
        assert(abs(v.z) * ONE >= ONE);
    }
}

/// The rounded-up root of the square of a number is the number.
proof fn lemma_root_of_square(k: int)
    requires
        k >= 0,
    ensures
        ceil_sqrt((k * k) as nat) == k,
{
    assert(k * k >= 0) by (nonlinear_arith);
    if k > 0 {
        assert((k - 1) * (k - 1) < k * k) by (nonlinear_arith)
            requires
                k > 0,
        ;
    }
    assert(is_ceil_sqrt((k * k) as nat, k as nat));
    lemma_ceil_sqrt_is((k * k) as nat, k as nat);
}

/// The square of a coordinate within `SPAN` fits the number range.
pub(crate) proof fn lemma_coordinate_square(c: int)
    by (nonlinear_arith)
    requires
        abs(c) <= SPAN,
    ensures
        abs(c) * abs(c) == c * c,
        abs(c) * abs(c) <= 0x1_0000_0000_0000_0000,
{
}

/// A share of a whole is at most the whole: `a * ONE * ONE / root <= ONE` where
/// `a * ONE <= root`.
pub(crate) proof fn lemma_share(a: int, root: int)
    by (nonlinear_arith)
    requires
        0 <= a,
        0 < root,
        a * ONE <= root,
    ensures
        0 <= a * (ONE * ONE) / root <= ONE,
{
    assert(a * (ONE * ONE) <= root * ONE);
}

/// No coordinate of a unit vector is longer than `ONE`.
pub proof fn lemma_unit_within(v: Vector)
    ensures
        v.unit().within(ONE as int),
{
    if !v.is_zero() {
        lemma_fine_length(v);
        let root = v.fine_length();
        lemma_share(abs(v.x), root);
        lemma_share(abs(v.y), root);
        lemma_share(abs(v.z), root);
        lemma_quotient_abs(v.x, ONE * ONE, root);
        lemma_quotient_abs(v.y, ONE * ONE, root);
        lemma_quotient_abs(v.z, ONE * ONE, root);
    }
}

/// Zero divided by anything above zero is zero.
proof fn lemma_zero_share(root: int)
    by (nonlinear_arith)
    requires
        root > 0,
    ensures
        quotient(0 * (ONE * ONE), root) == 0,
{
}

/// A unit vector lies on the same side as its vector along each coordinate, and
/// is zero along a coordinate where its vector is.
pub proof fn lemma_unit_sides(v: Vector)
    ensures
        v.x == 0 ==> v.unit().x == 0,
        v.y == 0 ==> v.unit().y == 0,
        v.z == 0 ==> v.unit().z == 0,
        v.x >= 0 ==> v.unit().x >= 0,
        v.y >= 0 ==> v.unit().y >= 0,
        v.z >= 0 ==> v.unit().z >= 0,
        v.x <= 0 ==> v.unit().x <= 0,
        v.y <= 0 ==> v.unit().y <= 0,
        v.z <= 0 ==> v.unit().z <= 0,
{
    if !v.is_zero() {
        lemma_fine_length(v);
        let root = v.fine_length();
        lemma_zero_share(root);
        lemma_quotient_abs(v.x, ONE * ONE, root);
        lemma_quotient_abs(v.y, ONE * ONE, root);
        lemma_quotient_abs(v.z, ONE * ONE, root);
    }
}

/// The square of a coordinate is at most the square of the largest.
proof fn lemma_squares_below(x: int, y: int, z: int, a: int)
    by (nonlinear_arith)
    requires
        abs(x) <= a,
        abs(y) <= a,
        abs(z) <= a,
    ensures
        0 <= x * x + y * y + z * z <= 3 * (a * a),
{
}

/// The largest coordinate of a vector that is not zero is at least half as long
/// as the vector, so its share of the unit vector does not round to zero.
proof fn lemma_largest_share(a: int, square: int, root: int)
    by (nonlinear_arith)
    requires
        a >= 1,
        0 <= square <= 3 * (a * a),
        root > 0,
        (root - 1) * (root - 1) < square * (ONE * ONE),
    ensures
        a * (ONE * ONE) / root >= 1,
{
    assert(root <= 2 * a * ONE) by {
        if root > 2 * a * ONE {
            assert((root - 1) * (root - 1) >= (2 * a * ONE) * (2 * a * ONE));
            assert((2 * a * ONE) * (2 * a * ONE) == 4 * (a * a) * (ONE * ONE));
            assert(square * (ONE * ONE) <= 3 * (a * a) * (ONE * ONE));
        }
    }
    assert(a * (ONE * ONE) >= root);
}

/// Only the zero vector has the zero vector for its unit vector.
pub proof fn lemma_unit_zero(v: Vector)
    ensures
        v.unit().is_zero() <==> v.is_zero(),
{
    if !v.is_zero() {
        let a = if abs(v.x) >= abs(v.y) && abs(v.x) >= abs(v.z) {
            abs(v.x)
        } else if abs(v.y) >= abs(v.z) {
            abs(v.y)
        } else {
            abs(v.z)
        };
        lemma_fine_length(v);
        lemma_fine_square(v);
        let root = v.fine_length();
        lemma_ceil_sqrt_exists((v.length_squared() * (ONE * ONE)) as nat);
        lemma_squares_below(v.x, v.y, v.z, a);
        lemma_largest_share(a, v.length_squared(), root);
        lemma_quotient_abs(v.x, ONE * ONE, root);
        lemma_quotient_abs(v.y, ONE * ONE, root);
        lemma_quotient_abs(v.z, ONE * ONE, root);
    }
}

/// The square of a rounded-down share, times the square of the whole, is at most
/// the square of the part.
proof fn lemma_share_square(a: int, root: int)
    by (nonlinear_arith)
    requires
        0 <= a,
        0 < root,
    ensures
        (a * (ONE * ONE) / root) * (a * (ONE * ONE) / root) * (root * root) <= (a * a) * (ONE * ONE)
            * (ONE * ONE),
{
    let n = a * (ONE * ONE) / root;
    let p = n * root;
    let q = a * (ONE * ONE);
    assert(0 <= n);
    assert(p <= q);
    assert(0 <= p);
    assert(p * p <= q * q);
    assert(p * p == n * n * (root * root));
    assert(q * q == (a * a) * (ONE * ONE) * (ONE * ONE));
}

/// Where the parts of a sum, each times `w`, stay below the parts of `m` times
/// `u`, and `m` stays below `w`, the sum stays below `u`.
proof fn lemma_sum_below(nx: int, ny: int, nz: int, sx: int, sy: int, sz: int, w: int, u: int)
    by (nonlinear_arith)
    requires
        w > 0,
        u >= 0,
        nx * w <= sx * u * u,
        ny * w <= sy * u * u,
        nz * w <= sz * u * u,
        (sx + sy + sz) * u <= w,
    ensures
        nx + ny + nz <= u,
{
    assert((nx + ny + nz) * w <= (sx + sy + sz) * u * u);
    assert((sx + sy + sz) * u * u <= w * u);
    assert((nx + ny + nz) * w <= u * w);
}

/// A unit vector is never longer than `ONE`: rounding only shortens it.
pub proof fn lemma_unit_length(v: Vector)
    ensures
        v.unit().length_squared() <= ONE * ONE,
{
    if !v.is_zero() {
        lemma_fine_length(v);
        lemma_fine_square(v);
        let root = v.fine_length();
        let u = v.unit();
        lemma_quotient_abs(v.x, ONE * ONE, root);
        lemma_quotient_abs(v.y, ONE * ONE, root);
        lemma_quotient_abs(v.z, ONE * ONE, root);
        lemma_share_square(abs(v.x), root);
        lemma_share_square(abs(v.y), root);
        lemma_share_square(abs(v.z), root);
        lemma_abs_square(u.x);
        lemma_abs_square(u.y);
        lemma_abs_square(u.z);
        lemma_abs_square(v.x);
        lemma_abs_square(v.y);
        lemma_abs_square(v.z);
        assert(root * root > 0) by (nonlinear_arith)
            requires
                root > 0,
        ;
        lemma_sum_below(
            u.x * u.x,
            u.y * u.y,
            u.z * u.z,
            v.x * v.x,
            v.y * v.y,
            v.z * v.z,
            root * root,
            ONE * ONE,
        );
    }
}

/// A share of `ONE`, rounded down, is not above the exact share.
proof fn lemma_share_below(a: int, square: int, root: int)
    by (nonlinear_arith)
    requires
        0 <= a,
        0 < root,
        root * root >= square * (ONE * ONE),
        square >= 0,
    ensures
        ({
            let n = a * (ONE * ONE) / root;
            n * n * square <= (a * ONE) * (a * ONE)
        }),
{
    let n = a * (ONE * ONE) / root;
    let p = n * root;
    let q = a * (ONE * ONE);
    assert(0 <= n);
    assert(0 <= p <= q);
    assert(p * p <= q * q);
    assert(p * p == (n * n) * (root * root));
    assert((n * n) * (square * (ONE * ONE)) <= (n * n) * (root * root));
    assert((n * n * square) * (ONE * ONE) <= ((a * ONE) * (a * ONE)) * (ONE * ONE)) by {
        assert(q * q == ((a * ONE) * (a * ONE)) * (ONE * ONE));
        assert((n * n) * (square * (ONE * ONE)) == (n * n * square) * (ONE * ONE));
    }
}

/// A share of `ONE`, rounded down and stepped up by two, times the root less
/// one, reaches the part.
proof fn lemma_share_reach(a: int, root: int)
    by (nonlinear_arith)
    requires
        0 <= a,
        ONE <= root,
        a * ONE <= root,
    ensures
        ({
            let n = a * (ONE * ONE) / root;
            (n + 2) * (root - 1) >= a * (ONE * ONE)
        }),
{
    let n = a * (ONE * ONE) / root;
    let q = a * (ONE * ONE);
    assert(0 <= q);
    assert(q == n * root + q % root);
    assert((n + 1) * root >= q + 1);
    assert(q <= root * ONE);
    assert(n <= ONE);
    assert((n + 2) * (root - 1) == (n + 1) * root + root - n - 2);
    if n + 1 <= root {
    } else {
        assert(n == ONE && root == ONE);
        assert(a <= 1);
        assert(q <= ONE * ONE);
    }
}

/// A share of `ONE`, rounded down, is less than two below the exact share.
proof fn lemma_share_above(a: int, square: int, root: int)
    by (nonlinear_arith)
    requires
        0 <= a,
        ONE <= root,
        a * ONE <= root,
        (root - 1) * (root - 1) < square * (ONE * ONE),
    ensures
        ({
            let n = a * (ONE * ONE) / root;
            (a * ONE) * (a * ONE) < (n + 2) * (n + 2) * square
        }),
{
    let n = a * (ONE * ONE) / root;
    let q = a * (ONE * ONE);
    let t = (n + 2) * (root - 1);
    lemma_share_reach(a, root);
    assert(0 <= n);
    assert(0 <= q <= t);
    assert(q * q <= t * t);
    assert(t * t == ((n + 2) * (n + 2)) * ((root - 1) * (root - 1)));
    assert(((n + 2) * (n + 2)) * ((root - 1) * (root - 1)) < ((n + 2) * (n + 2)) * (square * (ONE
        * ONE))) by {
        assert((n + 2) * (n + 2) > 0);
    }
    assert(q * q == ((a * ONE) * (a * ONE)) * (ONE * ONE));
    assert(((n + 2) * (n + 2)) * (square * (ONE * ONE)) == ((n + 2) * (n + 2) * square) * (ONE
        * ONE));
    assert(((a * ONE) * (a * ONE)) * (ONE * ONE) < ((n + 2) * (n + 2) * square) * (ONE * ONE));
}

/// A unit vector is the exact one rounded toward zero: no coordinate is
/// further from zero than `ONE` times the coordinate by the length, and each
/// is short of that by less than two.
pub proof fn lemma_unit_accurate(v: Vector)
    requires
        !v.is_zero(),
    ensures
        rounds(abs(v.unit().x), abs(v.x), ONE as int, v.length_squared(), 2),
        rounds(abs(v.unit().y), abs(v.y), ONE as int, v.length_squared(), 2),
        rounds(abs(v.unit().z), abs(v.z), ONE as int, v.length_squared(), 2),
{
    lemma_fine_length(v);
    lemma_fine_length_above(v);
    lemma_fine_square(v);
    let root = v.fine_length();
    let square = v.length_squared();
    lemma_ceil_sqrt_exists((square * (ONE * ONE)) as nat);
    lemma_quotient_abs(v.x, ONE * ONE, root);
    lemma_quotient_abs(v.y, ONE * ONE, root);
    lemma_quotient_abs(v.z, ONE * ONE, root);
    lemma_share_below(abs(v.x), square, root);
    lemma_share_below(abs(v.y), square, root);
    lemma_share_below(abs(v.z), square, root);
    lemma_share_above(abs(v.x), square, root);
    lemma_share_above(abs(v.y), square, root);
    lemma_share_above(abs(v.z), square, root);
}

/// A coordinate that stands alone in its vector is as long as the vector.
proof fn lemma_alone(c: int)
    by (nonlinear_arith)
    requires
        c != 0,
    ensures
        (c * c) * (ONE * ONE) == (abs(c) * ONE) * (abs(c) * ONE),
        abs(c) * ONE > 0,
        abs(quotient(c * (ONE * ONE), abs(c) * ONE)) == ONE,
        c > 0 ==> quotient(c * (ONE * ONE), abs(c) * ONE) == ONE,
        c < 0 ==> quotient(c * (ONE * ONE), abs(c) * ONE) == -ONE,
{
    assert(abs(c) * (ONE * ONE) == (abs(c) * ONE) * ONE);
    assert(((abs(c) * ONE) * ONE) / (abs(c) * ONE) == ONE);
}

/// Along an axis the unit vector is exact: a vector with one coordinate that is
/// not zero has the unit vector with `ONE` or `-ONE` there, by its sign.
pub proof fn lemma_unit_along_axis(v: Vector)
    requires
        (v.x == 0 && v.y == 0) || (v.x == 0 && v.z == 0) || (v.y == 0 && v.z == 0),
    ensures
        v.unit() == (Vector { x: signum(v.x) * ONE, y: signum(v.y) * ONE, z: signum(v.z) * ONE }),
{
    if !v.is_zero() {
        let c = if v.x != 0 {
            v.x
        } else if v.y != 0 {
            v.y
        } else {
            v.z
        };
        lemma_alone(c);
        assert(v.length_squared() == c * c) by (nonlinear_arith)
            requires
                (v.x == 0 && v.y == 0 && c == v.z) || (v.x == 0 && v.z == 0 && c == v.y) || (v.y
                    == 0 && v.z == 0 && c == v.x),
                v.length_squared() == v.x * v.x + v.y * v.y + v.z * v.z,
        ;
        lemma_root_of_square(abs(c) * ONE);
        assert(v.fine_length() == abs(c) * ONE);
        assert(quotient(0 * (ONE * ONE), abs(c) * ONE) == 0);
    }
}

/// A coordinate within `ONE`, times a factor, is no further from zero than the factor.
pub(crate) proof fn lemma_scaled_fits(c: int, factor: int)
    by (nonlinear_arith)
    requires
        abs(c) <= ONE,
        0 <= factor,
    ensures
        abs(c) * factor <= ONE * factor,
        abs(c) * factor / (ONE as int) <= factor,
{
}

/// A vector within `ONE`, times a factor, reaches no further than the factor.
pub proof fn lemma_scaled_within(v: Vector, factor: int)
    requires
        v.within(ONE as int),
        0 <= factor,
    ensures
        v.scaled(factor).within(factor),
{
    lemma_scaled_fits(v.x, factor);
    lemma_scaled_fits(v.y, factor);
    lemma_scaled_fits(v.z, factor);
    lemma_quotient_abs(v.x, factor, ONE as int);
    lemma_quotient_abs(v.y, factor, ONE as int);
    lemma_quotient_abs(v.z, factor, ONE as int);
}

/// The square of a product rounded down, times the square of `ONE`, is at most
/// the square of the product.
proof fn lemma_scaled_square(a: int, factor: int)
    by (nonlinear_arith)
    requires
        0 <= a,
        0 <= factor,
    ensures
        (a * factor / (ONE as int)) * (a * factor / (ONE as int)) * (ONE * ONE) <= (a * a) * (
        factor * factor),
{
    let n = a * factor / (ONE as int);
    let p = n * ONE;
    let q = a * factor;
    assert(0 <= q);
    assert(0 <= n);
    assert(p <= q);
    assert(p * p <= q * q);
    assert(p * p == n * n * (ONE * ONE));
    assert(q * q == (a * a) * (factor * factor));
}

/// Where the parts of a sum, each times `w`, stay below parts times `g`, and those
/// parts together stay below `w`: the sum stays below `g`.
proof fn lemma_scaled_sum(dx: int, dy: int, dz: int, nx: int, ny: int, nz: int, w: int, g: int)
    by (nonlinear_arith)
    requires
        w > 0,
        g >= 0,
        dx * w <= nx * g,
        dy * w <= ny * g,
        dz * w <= nz * g,
        nx + ny + nz <= w,
    ensures
        dx + dy + dz <= g,
{
    assert((dx + dy + dz) * w <= (nx + ny + nz) * g);
    assert((nx + ny + nz) * g <= w * g);
}

/// A vector no longer than `ONE`, times a factor, is no longer than the factor.
pub proof fn lemma_scaled_length(v: Vector, factor: int)
    requires
        v.length_squared() <= ONE * ONE,
        0 <= factor,
    ensures
        v.scaled(factor).length_squared() <= factor * factor,
{
    let d = v.scaled(factor);
    lemma_quotient_abs(v.x, factor, ONE as int);
    lemma_quotient_abs(v.y, factor, ONE as int);
    lemma_quotient_abs(v.z, factor, ONE as int);
    lemma_scaled_square(abs(v.x), factor);
    lemma_scaled_square(abs(v.y), factor);
    lemma_scaled_square(abs(v.z), factor);
    lemma_abs_square(v.x);
    lemma_abs_square(v.y);
    lemma_abs_square(v.z);
    lemma_abs_square(d.x);
    lemma_abs_square(d.y);
    lemma_abs_square(d.z);
    assert(factor * factor >= 0) by (nonlinear_arith);
    lemma_scaled_sum(
        d.x * d.x,
        d.y * d.y,
        d.z * d.z,
        v.x * v.x,
        v.y * v.y,
        v.z * v.z,
        ONE * ONE,
        factor * factor,
    );
}

/// A product rounded down is not above the exact product, where its factor is
/// not above the exact one.
proof fn lemma_step_below(n: int, a: int, square: int, far: int)
    by (nonlinear_arith)
    requires
        0 <= n,
        0 <= far,
        0 <= square,
        n * n * square <= (a * ONE) * (a * ONE),
    ensures
        ({
            let d = n * far / (ONE as int);
            d * d * square <= (a * far) * (a * far)
        }),
{
    let d = n * far / (ONE as int);
    let p = d * ONE;
    let q = n * far;
    assert(0 <= d);
    assert(0 <= p <= q);
    assert(p * p <= q * q);
    assert(p * p == (d * d) * (ONE * ONE));
    assert(q * q == (n * n) * (far * far));
    assert((n * n * square) * (far * far) <= ((a * ONE) * (a * ONE)) * (far * far)) by {
        assert(far * far >= 0);
    }
    assert((d * d * square) * (ONE * ONE) == ((d * d) * (ONE * ONE)) * square);
    assert(((d * d) * (ONE * ONE)) * square <= ((n * n) * (far * far)) * square);
    assert(((n * n) * (far * far)) * square == (n * n * square) * (far * far));
    assert(((a * ONE) * (a * ONE)) * (far * far) == ((a * far) * (a * far)) * (ONE * ONE));
    assert((d * d * square) * (ONE * ONE) <= ((a * far) * (a * far)) * (ONE * ONE));
}

/// A product rounded down is below the exact product by less than one, and by
/// what its factor is below the exact one.
proof fn lemma_step_above(n: int, a: int, square: int, far: int)
    by (nonlinear_arith)
    requires
        0 <= n,
        0 <= a,
        0 <= far,
        0 < square,
        (a * ONE) * (a * ONE) < (n + 2) * (n + 2) * square,
    ensures
        ({
            let t = n * far / (ONE as int) + 2 + 2 * far / (ONE as int);
            (a * far) * (a * far) < t * t * square
        }),
{
    let d = n * far / (ONE as int);
    let k = 2 * far / (ONE as int);
    let t = d + 2 + k;
    let q = n * far;
    assert(q >= 0);
    assert(q == d * ONE + q % (ONE as int));
    assert((d + 1) * ONE > q);
    assert(2 * far == k * ONE + (2 * far) % (ONE as int));
    assert((k + 1) * ONE > 2 * far);
    assert(t * ONE == (d + 1) * ONE + (k + 1) * ONE);
    let w = (n + 2) * far;
    assert(w == q + 2 * far);
    assert(t * ONE > w);
    assert(0 <= w);
    assert((t * ONE) * (t * ONE) > w * w);
    assert((t * ONE) * (t * ONE) == (t * t) * (ONE * ONE));
    assert(w * w == ((n + 2) * (n + 2)) * (far * far));
    assert(((t * t) * (ONE * ONE)) * square > (((n + 2) * (n + 2)) * (far * far)) * square);
    assert((((n + 2) * (n + 2)) * (far * far)) * square == ((n + 2) * (n + 2) * square) * (far
        * far));
    assert(((n + 2) * (n + 2) * square) * (far * far) >= ((a * ONE) * (a * ONE)) * (far * far))
        by {
        assert(far * far >= 0);
    }
    assert(((a * ONE) * (a * ONE)) * (far * far) == ((a * far) * (a * far)) * (ONE * ONE));
    assert(((t * t) * (ONE * ONE)) * square == (t * t * square) * (ONE * ONE));
    assert((t * t * square) * (ONE * ONE) > ((a * far) * (a * far)) * (ONE * ONE));
}

/// A unit vector times a distance is the exact step rounded toward zero: no
/// coordinate is further from zero than the distance times the coordinate by
/// the length, and each is short of that by less than two and twice the
/// distance in units.
pub proof fn lemma_step_accurate(v: Vector, far: int)
    requires
        !v.is_zero(),
        0 <= far,
    ensures
        v.unit().scaled(far).is_step_along(v, far),
{
    let u = v.unit();
    lemma_unit_sides(v);
    let square = v.length_squared();
    lemma_unit_accurate(v);
    lemma_fine_square(v);
    assert(square > 0) by (nonlinear_arith)
        requires
            square * (ONE * ONE) > 0,
    ;
    lemma_quotient_abs(u.x, far, ONE as int);
    lemma_quotient_abs(u.y, far, ONE as int);
    lemma_quotient_abs(u.z, far, ONE as int);
    lemma_step_below(abs(u.x), abs(v.x), square, far);
    lemma_step_below(abs(u.y), abs(v.y), square, far);
    lemma_step_below(abs(u.z), abs(v.z), square, far);
    lemma_step_above(abs(u.x), abs(v.x), square, far);
    lemma_step_above(abs(u.y), abs(v.y), square, far);
    lemma_step_above(abs(u.z), abs(v.z), square, far);
}

/// `ONE`, `-ONE` or zero, times a factor, is the factor, its mirror image or zero.
proof fn lemma_whole(side: int, factor: int)
    by (nonlinear_arith)
    requires
        -1 <= side <= 1,
        factor >= 0,
    ensures
        quotient((side * ONE) * factor, ONE as int) == side * factor,
{
    if side == 1 {
        assert((ONE * factor) / (ONE as int) == factor);
    } else if side == -1 {
        assert(-((-ONE) * factor) == ONE * factor);
        assert((ONE * factor) / (ONE as int) == factor);
    }
}

/// A vector with `ONE`, `-ONE` or zero along each coordinate, times a factor, has
/// the factor, its mirror image or zero there.
pub proof fn lemma_scaled_along_axes(sides: Vector, factor: int)
    requires
        sides.within(1),
        factor >= 0,
    ensures
        (Vector { x: sides.x * ONE, y: sides.y * ONE, z: sides.z * ONE }).scaled(factor)
            == (Vector { x: sides.x * factor, y: sides.y * factor, z: sides.z * factor }),
{
    lemma_whole(sides.x, factor);
    lemma_whole(sides.y, factor);
    lemma_whole(sides.z, factor);
}

/// Nothing, times a factor, is nothing.
pub proof fn lemma_scaled_zero(factor: int)
    ensures
        Vector::zero().scaled(factor) == Vector::zero(),
{
    assert(0 * factor == 0) by (nonlinear_arith);
}

/// A level vector, times a factor, is level.
pub proof fn lemma_scaled_level(v: Vector, factor: int)
    requires
        v.y == 0,
    ensures
        v.scaled(factor).y == 0,
{
    assert(0 * factor == 0) by (nonlinear_arith);
}

} // verus!
