//! Exact camera and projection arithmetic.
//!
//! Camera vectors are integer grid vectors. The view basis is returned
//! unnormalised and exact, so that degeneracy is decided without rounding;
//! dividing each axis by its length is left to the floating-point side.
//! The depth row of the perspective projection is returned as exact
//! rational terms.
use vstd::prelude::*;

use crate::error::RenderError;

verus! {

/// Cross product of two integer vectors.
pub open spec fn cross(a: (int, int, int), b: (int, int, int)) -> (int, int, int) {
    (a.1 * b.2 - a.2 * b.1, a.2 * b.0 - a.0 * b.2, a.0 * b.1 - a.1 * b.0)
}

/// Dot product of two integer vectors.
pub open spec fn dot(a: (int, int, int), b: (int, int, int)) -> int {
    a.0 * b.0 + a.1 * b.1 + a.2 * b.2
}

pub open spec fn is_zero(a: (int, int, int)) -> bool {
    a.0 == 0 && a.1 == 0 && a.2 == 0
}

pub open spec fn bounded(a: (int, int, int), m: int) -> bool {
    -m <= a.0 <= m && -m <= a.1 <= m && -m <= a.2 <= m
}

/// A camera vector in whole grid units.
#[derive(Debug, Clone, Copy, PartialEq, Eq, Structural)]
pub struct Vec3 {
    pub x: i16,
    pub y: i16,
    pub z: i16,
}

impl View for Vec3 {
    type V = (int, int, int);

    open spec fn view(&self) -> (int, int, int) {
        (self.x as int, self.y as int, self.z as int)
    }
}

/// A vector wide enough to hold exact products of camera vectors.
#[derive(Debug, Clone, Copy, PartialEq, Eq, Structural)]
pub struct WideVec3 {
    pub x: i128,
    pub y: i128,
    pub z: i128,
}

impl View for WideVec3 {
    type V = (int, int, int);

    open spec fn view(&self) -> (int, int, int) {
        (self.x as int, self.y as int, self.z as int)
    }
}

/// The camera's axes and translation, each axis not yet normalised.
///
/// The view matrix is made of `right / |right|`, `up / |up|` and
/// `forward / |forward|` as columns, and of each translation component
/// divided by the length of its axis.
#[derive(Debug, Clone, Copy, PartialEq, Eq, Structural)]
pub struct ViewBasis {
    pub right: WideVec3,
    pub up: WideVec3,
    pub forward: WideVec3,
    pub translation: WideVec3,
}

/// No camera basis exists: `up × direction` vanishes, which is the case
/// exactly when the two are parallel or one of them is zero.
pub open spec fn basis_degenerate(direction: (int, int, int), up: (int, int, int)) -> bool {
    is_zero(cross(up, direction))
}

/// `b` is the basis seen from `eye` looking along `direction`, with
/// `right = up × direction`, `up' = direction × right`, and the eye moved to
/// the origin along each axis.
pub open spec fn is_view_of(
    b: ViewBasis,
    eye: (int, int, int),
    direction: (int, int, int),
    up: (int, int, int),
) -> bool {
    let right = cross(up, direction);
    let true_up = cross(direction, right);
    &&& b.forward@ == direction
    &&& b.right@ == right
    &&& b.up@ == true_up
    &&& b.translation@ == (-dot(eye, right), -dot(eye, true_up), -dot(eye, direction))
}

/// The three axes are non-zero and pairwise orthogonal.
pub open spec fn is_orthogonal_frame(b: ViewBasis) -> bool {
    &&& !is_zero(b.right@)
    &&& !is_zero(b.up@)
    &&& !is_zero(b.forward@)
    &&& dot(b.right@, b.up@) == 0
    &&& dot(b.right@, b.forward@) == 0
    &&& dot(b.up@, b.forward@) == 0
}

proof fn lemma_mul_bound(a: int, b: int, ma: int, mb: int)
    requires
        -ma <= a <= ma,
        -mb <= b <= mb,
    ensures
        -(ma * mb) <= a * b <= ma * mb,
{
    assert(-(ma * mb) <= a * b <= ma * mb) by (nonlinear_arith)
        requires
            -ma <= a <= ma,
            -mb <= b <= mb,
    ;
}

proof fn lemma_cross_bound(a: (int, int, int), b: (int, int, int), ma: int, mb: int)
    requires
        bounded(a, ma),
        bounded(b, mb),
    ensures
        -(ma * mb) <= a.1 * b.2 <= ma * mb,
        -(ma * mb) <= a.2 * b.1 <= ma * mb,
        -(ma * mb) <= a.2 * b.0 <= ma * mb,
        -(ma * mb) <= a.0 * b.2 <= ma * mb,
        -(ma * mb) <= a.0 * b.1 <= ma * mb,
        -(ma * mb) <= a.1 * b.0 <= ma * mb,
        bounded(cross(a, b), 2 * (ma * mb)),
{
    lemma_mul_bound(a.1, b.2, ma, mb);
    lemma_mul_bound(a.2, b.1, ma, mb);
    lemma_mul_bound(a.2, b.0, ma, mb);
    lemma_mul_bound(a.0, b.2, ma, mb);
    lemma_mul_bound(a.0, b.1, ma, mb);
    lemma_mul_bound(a.1, b.0, ma, mb);
}

proof fn lemma_dot_bound(a: (int, int, int), b: (int, int, int), ma: int, mb: int)
    requires
        bounded(a, ma),
        bounded(b, mb),
    ensures
        -(ma * mb) <= a.0 * b.0 <= ma * mb,
        -(ma * mb) <= a.1 * b.1 <= ma * mb,
        -(ma * mb) <= a.2 * b.2 <= ma * mb,
        -3 * (ma * mb) <= dot(a, b) <= 3 * (ma * mb),
{
    lemma_mul_bound(a.0, b.0, ma, mb);
    lemma_mul_bound(a.1, b.1, ma, mb);
    lemma_mul_bound(a.2, b.2, ma, mb);
}

/// A vector that is not zero has a positive squared length.
proof fn lemma_square_len_positive(a: (int, int, int))
    requires
        !is_zero(a),
    ensures
        dot(a, a) > 0,
{
    assert(dot(a, a) > 0) by (nonlinear_arith)
        requires
            !is_zero(a),
    ;
}

/// Lagrange's identity: `|d × r|² = |d|²·|r|² − (d·r)²`.
proof fn lemma_lagrange(d0: int, d1: int, d2: int, r0: int, r1: int, r2: int)
    ensures
        (d1 * r2 - d2 * r1) * (d1 * r2 - d2 * r1) + (d2 * r0 - d0 * r2) * (d2 * r0 - d0 * r2) + (d0
            * r1 - d1 * r0) * (d0 * r1 - d1 * r0) == (d0 * d0 + d1 * d1 + d2 * d2) * (r0 * r0 + r1
            * r1 + r2 * r2) - (d0 * r0 + d1 * r1 + d2 * r2) * (d0 * r0 + d1 * r1 + d2 * r2),
{
    let (m00, m01, m02) = (d0 * r0, d0 * r1, d0 * r2);
    let (m10, m11, m12) = (d1 * r0, d1 * r1, d1 * r2);
    let (m20, m21, m22) = (d2 * r0, d2 * r1, d2 * r2);
    lemma_square_diff(m12, m21);
    lemma_square_diff(m20, m02);
    lemma_square_diff(m01, m10);
    lemma_swap(d1, r2, d2, r1);
    lemma_swap(d2, r0, d0, r2);
    lemma_swap(d0, r1, d1, r0);
    lemma_product_of_sums(d0 * d0, d1 * d1, d2 * d2, r0 * r0, r1 * r1, r2 * r2);
    lemma_product_of_sums(m00, m11, m22, m00, m11, m22);
    assert forall|x: int, y: int| #[trigger] ((x * x) * (y * y)) == (x * y) * (x * y) by {
        assert((x * x) * (y * y) == (x * y) * (x * y)) by (nonlinear_arith);
    }
    assert((d0 * d0) * (r0 * r0) == m00 * m00);
    assert((d0 * d0) * (r1 * r1) == m01 * m01);
    assert((d0 * d0) * (r2 * r2) == m02 * m02);
    assert((d1 * d1) * (r0 * r0) == m10 * m10);
    assert((d1 * d1) * (r1 * r1) == m11 * m11);
    assert((d1 * d1) * (r2 * r2) == m12 * m12);
    assert((d2 * d2) * (r0 * r0) == m20 * m20);
    assert((d2 * d2) * (r1 * r1) == m21 * m21);
    assert((d2 * d2) * (r2 * r2) == m22 * m22);
}

proof fn lemma_square_diff(x: int, y: int)
    ensures
        (x - y) * (x - y) == x * x + y * y - 2 * (x * y),
{
    assert((x - y) * (x - y) == x * x + y * y - 2 * (x * y)) by (nonlinear_arith);
}

proof fn lemma_swap(a: int, b: int, c: int, d: int)
    ensures
        (a * b) * (c * d) == (a * d) * (c * b),
{
    assert((a * b) * (c * d) == (a * d) * (c * b)) by (nonlinear_arith);
}

proof fn lemma_product_of_sums(a: int, b: int, c: int, x: int, y: int, z: int)
    ensures
        (a + b + c) * (x + y + z) == a * x + a * y + a * z + b * x + b * y + b * z + c * x + c * y
            + c * z,
{
    assert((a + b + c) * (x + y + z) == a * x + a * y + a * z + b * x + b * y + b * z + c * x + c
        * y + c * z) by (nonlinear_arith);
}

/// A cross product is orthogonal to both of its factors.
proof fn lemma_cross_orthogonal(a0: int, a1: int, a2: int, b0: int, b1: int, b2: int)
    ensures
        (a1 * b2 - a2 * b1) * a0 + (a2 * b0 - a0 * b2) * a1 + (a0 * b1 - a1 * b0) * a2 == 0,
        (a1 * b2 - a2 * b1) * b0 + (a2 * b0 - a0 * b2) * b1 + (a0 * b1 - a1 * b0) * b2 == 0,
{
    assert((a1 * b2 - a2 * b1) * a0 + (a2 * b0 - a0 * b2) * a1 + (a0 * b1 - a1 * b0) * a2 == 0)
        by (nonlinear_arith);
    assert((a1 * b2 - a2 * b1) * b0 + (a2 * b0 - a0 * b2) * b1 + (a0 * b1 - a1 * b0) * b2 == 0)
        by (nonlinear_arith);
}

/// For a basis built by cross products the axes are orthogonal, and the
/// third axis is non-zero whenever the first is.
proof fn lemma_cross_frame(direction: (int, int, int), up: (int, int, int))
    requires
        !basis_degenerate(direction, up),
    ensures
        ({
            let right = cross(up, direction);
            let true_up = cross(direction, right);
            &&& !is_zero(direction)
            &&& !is_zero(true_up)
            &&& dot(right, direction) == 0
            &&& dot(true_up, direction) == 0
            &&& dot(right, true_up) == 0
        }),
{
    let d = direction;
    let u = up;
    let right = cross(up, direction);
    let r = right;
    let true_up = cross(direction, right);
    lemma_cross_orthogonal(u.0, u.1, u.2, d.0, d.1, d.2);
    assert(dot(right, direction) == 0) by {
        assert(dot(right, direction) == r.0 * d.0 + r.1 * d.1 + r.2 * d.2);
    }
    lemma_cross_orthogonal(d.0, d.1, d.2, r.0, r.1, r.2);
    let t = true_up;
    assert(dot(true_up, direction) == t.0 * d.0 + t.1 * d.1 + t.2 * d.2);
    assert(dot(right, true_up) == t.0 * r.0 + t.1 * r.1 + t.2 * r.2) by (nonlinear_arith)
        requires
            right == r,
            true_up == t,
    ;
    lemma_lagrange(d.0, d.1, d.2, r.0, r.1, r.2);
    lemma_square_len_positive(right);
    if is_zero(direction) {
        assert(is_zero(right));
    }
    lemma_square_len_positive(direction);
    let dd = dot(direction, direction);
    let rr = dot(right, right);
    assert(dd * rr > 0) by (nonlinear_arith)
        requires
            dd > 0,
            rr > 0,
    ;
    assert(dot(d, r) == 0) by (nonlinear_arith)
        requires
            dot(r, d) == 0,
    ;
    assert(dot(true_up, true_up) > 0);
}

fn cross_wide(a: WideVec3, b: WideVec3, Ghost(ma): Ghost<int>, Ghost(mb): Ghost<int>) -> (r:
    WideVec3)
    requires
        bounded(a@, ma),
        bounded(b@, mb),
        0 <= ma * mb <= 0x1_0000_0000_0000_0000,
    ensures
        r@ == cross(a@, b@),
        bounded(r@, 2 * (ma * mb)),
{
    proof {
        lemma_cross_bound(a@, b@, ma, mb);
    }
    WideVec3 {
        x: a.y * b.z - a.z * b.y,
        y: a.z * b.x - a.x * b.z,
        z: a.x * b.y - a.y * b.x,
    }
}

fn dot_wide(a: WideVec3, b: WideVec3, Ghost(ma): Ghost<int>, Ghost(mb): Ghost<int>) -> (r: i128)
    requires
        bounded(a@, ma),
        bounded(b@, mb),
        0 <= ma * mb <= 0x1_0000_0000_0000_0000,
    ensures
        r == dot(a@, b@),
        -3 * (ma * mb) <= r <= 3 * (ma * mb),
{
    proof {
        lemma_dot_bound(a@, b@, ma, mb);
    }
    a.x * b.x + a.y * b.y + a.z * b.z
}

fn widen(v: Vec3) -> (r: WideVec3)
    ensures
        r@ == v@,
        bounded(r@, 0x8000),
{
    WideVec3 { x: v.x as i128, y: v.y as i128, z: v.z as i128 }
}

/// Builds the camera basis seen from `eye` looking along `direction`.
///
/// Fails with `DegenerateBasis` exactly when `direction` and `up` are
/// parallel or one of them is zero; otherwise the three axes are non-zero
/// and pairwise orthogonal, so normalising them never divides by zero.
pub fn view(eye: Vec3, direction: Vec3, up: Vec3) -> (r: Result<ViewBasis, RenderError>)
    ensures
        match r {
            Ok(b) => !basis_degenerate(direction@, up@) && is_view_of(b, eye@, direction@, up@)
                && is_orthogonal_frame(b),
            Err(e) => basis_degenerate(direction@, up@) && e is DegenerateBasis,
        },
{
    let e = widen(eye);
    let f = widen(direction);
    let u = widen(up);
    let right = cross_wide(u, f, Ghost(0x8000), Ghost(0x8000));
    if right.x == 0 && right.y == 0 && right.z == 0 {
        return Err(RenderError::DegenerateBasis);
    }
    let true_up = cross_wide(f, right, Ghost(0x8000), Ghost(0x8000_0000));
    let translation = WideVec3 {
        x: -dot_wide(e, right, Ghost(0x8000), Ghost(0x8000_0000)),
        y: -dot_wide(e, true_up, Ghost(0x8000), Ghost(0x8000_0000_0000)),
        z: -dot_wide(e, f, Ghost(0x8000), Ghost(0x8000)),
    };
    proof {
        lemma_cross_frame(direction@, up@);
    }
    Ok(ViewBasis { right, up: true_up, forward: f, translation })
}

/// Parallel vectors leave no camera basis: when `a·up = b·direction` for
/// some integers `a`, `b` that are not both zero, `view` fails with
/// `DegenerateBasis` and yields no matrix.
pub proof fn lemma_parallel_is_degenerate(direction: Vec3, up: Vec3, a: int, b: int)
    requires
        a != 0 || b != 0,
        a * up@.0 == b * direction@.0,
        a * up@.1 == b * direction@.1,
        a * up@.2 == b * direction@.2,
    ensures
        basis_degenerate(direction@, up@),
{
    let d = direction@;
    let u = up@;
    if a != 0 {
        lemma_parallel_component(a, b, u.1, u.2, d.1, d.2);
        lemma_parallel_component(a, b, u.2, u.0, d.2, d.0);
        lemma_parallel_component(a, b, u.0, u.1, d.0, d.1);
    } else {
        lemma_zero_factor(b, d.0);
        lemma_zero_factor(b, d.1);
        lemma_zero_factor(b, d.2);
    }
}

proof fn lemma_zero_factor(b: int, x: int)
    requires
        b != 0,
        b * x == 0,
    ensures
        x == 0,
{
    assert(x == 0) by (nonlinear_arith)
        requires
            b != 0,
            b * x == 0,
    ;
}

proof fn lemma_parallel_component(a: int, b: int, u1: int, u2: int, d1: int, d2: int)
    requires
        a != 0,
        a * u1 == b * d1,
        a * u2 == b * d2,
    ensures
        u1 * d2 - u2 * d1 == 0,
{
    assert(a * (u1 * d2 - u2 * d1) == (a * u1) * d2 - (a * u2) * d1) by (nonlinear_arith);
    assert((b * d1) * d2 - (b * d2) * d1 == 0) by (nonlinear_arith);
    lemma_zero_factor(a, u1 * d2 - u2 * d1);
}

/// A validated perspective frustum: the target's size in pixels, and the
/// near and far planes in one length unit of the caller's choice (the depth
/// mapping does not depend on the unit).
///
/// The depth row of the projection sends a camera-space depth `z` to the
/// clip coordinates `z_clip = ((far + near)·z − 2·far·near) / (far − near)`
/// and `w_clip = z`.
#[derive(Debug, Clone, Copy, PartialEq, Eq, Structural)]
pub struct Projection {
    pub width: u32,
    pub height: u32,
    pub near: u32,
    pub far: u32,
}

impl Projection {
    pub open spec fn wf(self) -> bool {
        &&& self.width > 0
        &&& self.height > 0
        &&& 0 < self.near < self.far
    }

    /// Numerator of the device depth `z_clip / w_clip` of camera depth `z`.
    pub open spec fn device_depth_num(self, z: int) -> int {
        (self.far + self.near) * z - 2 * (self.far * self.near)
    }

    /// Denominator of the device depth of camera depth `z`.
    pub open spec fn device_depth_den(self, z: int) -> int {
        (self.far - self.near) * z
    }

    /// The depth row as exact terms `(scale, offset, divisor)`: the clip depth
    /// of `z` is `(scale·z + offset) / divisor`.
    pub fn depth_terms(&self) -> (r: (i128, i128, i128))
        requires
            self.wf(),
        ensures
            r.0 == self.far + self.near,
            r.1 == -2 * (self.far * self.near),
            r.2 == self.far - self.near,
            r.2 > 0,
    {
        let n = self.near as i128;
        let f = self.far as i128;
        proof {
            lemma_mul_bound(f as int, n as int, 0x1_0000_0000, 0x1_0000_0000);
        }
        (f + n, -2 * (f * n), f - n)
    }
}

/// Validates a perspective projection.
///
/// Fails with `InvalidDimensions` when the target has a zero width or height
/// (its aspect ratio is undefined), and otherwise with `InvalidDepthRange`
/// when `near` is zero or `far` is not beyond `near`.
pub fn perspective(width: u32, height: u32, near: u32, far: u32) -> (r: Result<
    Projection,
    RenderError,
>)
    ensures
        match r {
            Ok(p) => p == (Projection { width, height, near, far }) && p.wf(),
            Err(e) => if width == 0 || height == 0 {
                e is InvalidDimensions
            } else {
                (near == 0 || far <= near) && e is InvalidDepthRange
            },
        },
{
    if width == 0 || height == 0 {
        return Err(RenderError::InvalidDimensions);
    }
    if near == 0 || far <= near {
        return Err(RenderError::InvalidDepthRange);
    }
    Ok(Projection { width, height, near, far })
}

/// The near plane maps to device depth −1 and the far plane to +1, and every
/// depth between them maps into `[−1, 1]`, for every valid projection.
pub proof fn lemma_depth_range(p: Projection, z: int)
    requires
        p.wf(),
    ensures
        p.device_depth_den(p.near as int) > 0,
        p.device_depth_num(p.near as int) == -p.device_depth_den(p.near as int),
        p.device_depth_den(p.far as int) > 0,
        p.device_depth_num(p.far as int) == p.device_depth_den(p.far as int),
        p.near <= z <= p.far ==> p.device_depth_den(z) > 0 && -p.device_depth_den(z)
            <= p.device_depth_num(z) <= p.device_depth_den(z),
{
    let n = p.near as int;
    let f = p.far as int;
    assert((f - n) * n > 0) by (nonlinear_arith)
        requires
            0 < n < f,
    ;
    assert((f - n) * f > 0) by (nonlinear_arith)
        requires
            0 < n < f,
    ;
    assert((f + n) * n - 2 * (f * n) == -((f - n) * n)) by (nonlinear_arith);
    assert((f + n) * f - 2 * (f * n) == (f - n) * f) by (nonlinear_arith);
    if n <= z <= f {
        assert(p.device_depth_num(z) == (f + n) * z - 2 * (f * n));
        assert(p.device_depth_den(z) == (f - n) * z);
        assert((f - n) * z > 0) by (nonlinear_arith)
            requires
                0 < n < f,
                n <= z,
        ;
        // num + den = 2·far·(z − near) and den − num = 2·near·(far − z).
        assert((f + n) * z - 2 * (f * n) + (f - n) * z == 2 * f * (z - n)) by (nonlinear_arith);
        assert((f - n) * z - ((f + n) * z - 2 * (f * n)) == 2 * n * (f - z)) by (nonlinear_arith);
        assert(2 * f * (z - n) >= 0) by (nonlinear_arith)
            requires
                0 < f,
                n <= z,
        ;
        assert(2 * n * (f - z) >= 0) by (nonlinear_arith)
            requires
                0 < n,
                z <= f,
        ;
        assert(-p.device_depth_den(z) <= p.device_depth_num(z));
        assert(p.device_depth_num(z) <= p.device_depth_den(z));
    }
}

} // verus!
