//! Three-component fixed-point vectors, also read as (r, g, b) colors.
//! Every executable operation is pinned to a spec-level mirror over `V3i`,
//! the mathematical view of a vector.

use vstd::prelude::*;
use crate::fx::{SCALE, fadd, fsub, fneg, fmul, fdiv, fsqrt, sat64, abs_i};
use crate::fx::{fx_add, fx_sub, fx_neg, fx_mul, fx_div, fx_sqrt};

verus! {

/// A vector of fixed-point scalars.
#[derive(Clone, Copy, Debug, PartialEq, Eq, Structural)]
pub struct Vec3 {
    pub x: i64,
    pub y: i64,
    pub z: i64,
}

/// The mathematical view of a vector: its components as integers.
pub struct V3i {
    pub x: int,
    pub y: int,
    pub z: int,
}

impl View for Vec3 {
    type V = V3i;

    open spec fn view(&self) -> V3i {
        V3i { x: self.x as int, y: self.y as int, z: self.z as int }
    }
}

/// Every component within the symmetric value range of the scalars.
pub open spec fn v3_in_range(a: V3i) -> bool {
    &&& -(i64::MAX as int) <= a.x <= i64::MAX
    &&& -(i64::MAX as int) <= a.y <= i64::MAX
    &&& -(i64::MAX as int) <= a.z <= i64::MAX
}

pub open spec fn v3_add(a: V3i, b: V3i) -> V3i {
    V3i { x: fadd(a.x, b.x), y: fadd(a.y, b.y), z: fadd(a.z, b.z) }
}

pub open spec fn v3_sub(a: V3i, b: V3i) -> V3i {
    V3i { x: fsub(a.x, b.x), y: fsub(a.y, b.y), z: fsub(a.z, b.z) }
}

pub open spec fn v3_neg(a: V3i) -> V3i {
    V3i { x: fneg(a.x), y: fneg(a.y), z: fneg(a.z) }
}

/// Component-wise product, the color filter of the integrator.
pub open spec fn v3_mul(a: V3i, b: V3i) -> V3i {
    V3i { x: fmul(a.x, b.x), y: fmul(a.y, b.y), z: fmul(a.z, b.z) }
}

pub open spec fn v3_scale(a: V3i, k: int) -> V3i {
    V3i { x: fmul(a.x, k), y: fmul(a.y, k), z: fmul(a.z, k) }
}

/// Scalar division (meaningful only for `k != 0`).
pub open spec fn v3_div_s(a: V3i, k: int) -> V3i {
    V3i { x: fdiv(a.x, k), y: fdiv(a.y, k), z: fdiv(a.z, k) }
}

pub open spec fn dot3(a: V3i, b: V3i) -> int {
    fadd(fadd(fmul(a.x, b.x), fmul(a.y, b.y)), fmul(a.z, b.z))
}

pub open spec fn cross3(a: V3i, b: V3i) -> V3i {
    V3i {
        x: fsub(fmul(a.y, b.z), fmul(a.z, b.y)),
        y: fneg(fsub(fmul(a.x, b.z), fmul(a.z, b.x))),
        z: fsub(fmul(a.x, b.y), fmul(a.y, b.x)),
    }
}

pub open spec fn len3(a: V3i) -> int {
    fsqrt(dot3(a, a))
}

/// Normalization: `a / |a|`, with the zero vector mapped to itself — the
/// degenerate case the callers are told to avoid.
pub open spec fn unit3(a: V3i) -> V3i {
    if len3(a) == 0 {
        V3i { x: 0, y: 0, z: 0 }
    } else {
        v3_div_s(a, len3(a))
    }
}

/// Component-wise square root, with nonpositive components mapped to zero.
pub open spec fn v3_sqrt(a: V3i) -> V3i {
    V3i { x: fsqrt(a.x), y: fsqrt(a.y), z: fsqrt(a.z) }
}

impl Vec3 {
    pub fn new(x: i64, y: i64, z: i64) -> (r: Vec3)
        ensures
            r@ == (V3i { x: x as int, y: y as int, z: z as int }),
    {
        Vec3 { x, y, z }
    }

    /// The vector with every component equal to `size`.
    pub fn unit(size: i64) -> (r: Vec3)
        ensures
            r@ == (V3i { x: size as int, y: size as int, z: size as int }),
    {
        Vec3 { x: size, y: size, z: size }
    }

    pub fn x(&self) -> (r: i64)
        ensures
            r as int == self@.x,
    {
        self.x
    }

    pub fn y(&self) -> (r: i64)
        ensures
            r as int == self@.y,
    {
        self.y
    }

    pub fn z(&self) -> (r: i64)
        ensures
            r as int == self@.z,
    {
        self.z
    }

    pub fn r(&self) -> (r: i64)
        ensures
            r as int == self@.x,
    {
        self.x
    }

    pub fn g(&self) -> (r: i64)
        ensures
            r as int == self@.y,
    {
        self.y
    }

    pub fn b(&self) -> (r: i64)
        ensures
            r as int == self@.z,
    {
        self.z
    }

    pub fn add(self, o: Vec3) -> (r: Vec3)
        ensures
            r@ == v3_add(self@, o@),
    {
        Vec3 { x: fx_add(self.x, o.x), y: fx_add(self.y, o.y), z: fx_add(self.z, o.z) }
    }

    pub fn sub(self, o: Vec3) -> (r: Vec3)
        ensures
            r@ == v3_sub(self@, o@),
    {
        Vec3 { x: fx_sub(self.x, o.x), y: fx_sub(self.y, o.y), z: fx_sub(self.z, o.z) }
    }

    pub fn neg(self) -> (r: Vec3)
        ensures
            r@ == v3_neg(self@),
    {
        Vec3 { x: fx_neg(self.x), y: fx_neg(self.y), z: fx_neg(self.z) }
    }

    /// Component-wise product.
    pub fn mul(self, o: Vec3) -> (r: Vec3)
        ensures
            r@ == v3_mul(self@, o@),
    {
        Vec3 { x: fx_mul(self.x, o.x), y: fx_mul(self.y, o.y), z: fx_mul(self.z, o.z) }
    }

    pub fn scale(self, k: i64) -> (r: Vec3)
        ensures
            r@ == v3_scale(self@, k as int),
    {
        Vec3 { x: fx_mul(self.x, k), y: fx_mul(self.y, k), z: fx_mul(self.z, k) }
    }

    pub fn div_s(self, k: i64) -> (r: Vec3)
        requires
            k != 0,
        ensures
            r@ == v3_div_s(self@, k as int),
    {
        Vec3 { x: fx_div(self.x, k), y: fx_div(self.y, k), z: fx_div(self.z, k) }
    }

    pub fn dot(first: &Vec3, second: &Vec3) -> (r: i64)
        ensures
            r as int == dot3(first@, second@),
    {
        fx_add(
            fx_add(fx_mul(first.x, second.x), fx_mul(first.y, second.y)),
            fx_mul(first.z, second.z),
        )
    }

    pub fn cross(&self, other: &Vec3) -> (r: Vec3)
        ensures
            r@ == cross3(self@, other@),
    {
        Vec3 {
            x: fx_sub(fx_mul(self.y, other.z), fx_mul(self.z, other.y)),
            y: fx_neg(fx_sub(fx_mul(self.x, other.z), fx_mul(self.z, other.x))),
            z: fx_sub(fx_mul(self.x, other.y), fx_mul(self.y, other.x)),
        }
    }

    pub fn squared_length(&self) -> (r: i64)
        ensures
            r as int == dot3(self@, self@),
    {
        Vec3::dot(self, self)
    }

    pub fn length(&self) -> (r: i64)
        ensures
            r as int == len3(self@),
    {
        fx_sqrt(self.squared_length())
    }

    /// `v * (1 / |v|)`; the caller keeps the length nonzero.
    pub fn make_unit_vector(&self) -> (r: Vec3)
        requires
            len3(self@) != 0,
        ensures
            r@ == v3_scale(self@, fdiv(SCALE as int, len3(self@))),
    {
        let k = fx_div(SCALE, self.length());
        Vec3 { x: fx_mul(self.x, k), y: fx_mul(self.y, k), z: fx_mul(self.z, k) }
    }

    /// `v / |v|`; the caller keeps the length nonzero.
    pub fn unit_vector(vector: Vec3) -> (r: Vec3)
        requires
            len3(vector@) != 0,
        ensures
            r@ == unit3(vector@),
    {
        vector.div_s(vector.length())
    }

    /// Normalization that maps a vector of zero length to the zero vector;
    /// the total form the sampling paths use, since a random direction can
    /// round to length zero.
    pub fn unit_or_zero(vector: Vec3) -> (r: Vec3)
        ensures
            r@ == unit3(vector@),
    {
        let l = vector.length();
        if l == 0 {
            Vec3 { x: 0, y: 0, z: 0 }
        } else {
            vector.div_s(l)
        }
    }

    /// Component-wise square root, the gamma correction of the renderer.
    pub fn sqrt(self) -> (r: Vec3)
        ensures
            r@ == v3_sqrt(self@),
    {
        Vec3 { x: fx_sqrt(self.x), y: fx_sqrt(self.y), z: fx_sqrt(self.z) }
    }
}

/// Dividing by one is the identity: `tdiv(x * SCALE, SCALE) == x`.
proof fn lemma_fdiv_one(x: int)
    requires
        -(i64::MAX as int) <= x <= i64::MAX,
    ensures
        fdiv(x, SCALE as int) == x,
{
    assert(abs_i(x * (SCALE as int)) == abs_i(x) * (SCALE as int)) by (nonlinear_arith);
    assert(abs_i(x) * (SCALE as int) / (SCALE as int) == abs_i(x)) by (nonlinear_arith);
}

/// Normalizing a vector that already has unit length leaves it unchanged,
/// so its normalization has unit length exactly.
pub proof fn lemma_unit_of_unit(v: V3i)
    requires
        v3_in_range(v),
        len3(v) == SCALE,
    ensures
        unit3(v) == v,
        len3(unit3(v)) == SCALE,
{
    lemma_fdiv_one(v.x);
    lemma_fdiv_one(v.y);
    lemma_fdiv_one(v.z);
}

/// Exact integer dot product, the model the fixed-point `dot3` rounds.
pub open spec fn dot_exact(a: V3i, b: V3i) -> int {
    a.x * b.x + a.y * b.y + a.z * b.z
}

/// Exact integer cross product, the model the fixed-point `cross3` rounds.
pub open spec fn cross_exact(a: V3i, b: V3i) -> V3i {
    V3i {
        x: a.y * b.z - a.z * b.y,
        y: -(a.x * b.z - a.z * b.x),
        z: a.x * b.y - a.y * b.x,
    }
}

/// The cross product is orthogonal to both factors: over the exact integer
/// model, `dot(v, cross(v, w))` and `dot(w, cross(v, w))` vanish for all
/// vectors.
pub proof fn lemma_cross_orthogonal(v: V3i, w: V3i)
    ensures
        dot_exact(v, cross_exact(v, w)) == 0,
        dot_exact(w, cross_exact(v, w)) == 0,
{
    assert(dot_exact(v, cross_exact(v, w)) == 0 && dot_exact(w, cross_exact(v, w)) == 0)
        by (nonlinear_arith);
}

/// Negating a difference swaps its operands, saturation included: the
/// symmetric rails make `fneg(fsub(a, b)) == fsub(b, a)` hold everywhere.
proof fn lemma_fneg_fsub(a: int, b: int)
    ensures
        fneg(fsub(a, b)) == fsub(b, a),
{
}

/// The cross product is antisymmetric under the executable operations:
/// swapping the factors negates every component exactly — the symmetric
/// saturation rails keep this true even where a component clamps — and the
/// cross product of a vector with itself is the zero vector.
pub proof fn lemma_cross_antisymmetric(v: V3i, w: V3i)
    ensures
        cross3(v, w) == v3_neg(cross3(w, v)),
        cross3(v, v) == (V3i { x: 0, y: 0, z: 0 }),
{
    lemma_fneg_fsub(fmul(v.y, w.z), fmul(v.z, w.y));
    lemma_fneg_fsub(fmul(v.x, w.z), fmul(v.z, w.x));
    lemma_fneg_fsub(fmul(v.x, w.y), fmul(v.y, w.x));
    lemma_fneg_fsub(fmul(w.y, v.z), fmul(w.z, v.y));
    lemma_fneg_fsub(fmul(w.x, v.z), fmul(w.z, v.x));
    lemma_fneg_fsub(fmul(w.x, v.y), fmul(w.y, v.x));
}

/// A product of whole multiples of one is exact: no rounding and no
/// saturation, as long as the integer parts stay small enough.
proof fn lemma_fmul_whole(a: int, b: int)
    requires
        abs_i(a * b) <= 0x7FFFFFFFFFFF,
    ensures
        fmul((SCALE as int) * a, (SCALE as int) * b) == (SCALE as int) * (a * b),
{
    let s = SCALE as int;
    assert((s * a) * (s * b) == (s * (a * b)) * s) by (nonlinear_arith);
    crate::fx::lemma_tdiv_cancel(s * (a * b), s);
    assert(abs_i(s * (a * b)) <= 65536 * 0x7FFFFFFFFFFF) by (nonlinear_arith)
        requires
            abs_i(a * b) <= 0x7FFFFFFFFFFF,
            s == 65536,
    ;
}

/// Every component a whole multiple of one, with integer part at most
/// `16384` in magnitude: on such vectors the fixed-point products are
/// exact.
pub open spec fn v3_whole_small(a: V3i) -> bool {
    &&& a.x % (SCALE as int) == 0
    &&& a.y % (SCALE as int) == 0
    &&& a.z % (SCALE as int) == 0
    &&& abs_i(a.x) <= 16384 * (SCALE as int)
    &&& abs_i(a.y) <= 16384 * (SCALE as int)
    &&& abs_i(a.z) <= 16384 * (SCALE as int)
}

/// Cross product orthogonality under the executable fixed-point operations:
/// on integer-valued vectors small enough that no product rounds or
/// saturates, `dot3(v, cross3(v, w))` and `dot3(w, cross3(v, w))` are
/// exactly zero. (With fractional components the products round toward
/// zero and the dot products merely come out near zero.)
pub proof fn lemma_cross_orthogonal_fx(v: V3i, w: V3i)
    requires
        v3_whole_small(v),
        v3_whole_small(w),
    ensures
        dot3(v, cross3(v, w)) == 0,
        dot3(w, cross3(v, w)) == 0,
{
    let s = SCALE as int;
    vstd::arithmetic::div_mod::lemma_fundamental_div_mod(v.x, s);
    vstd::arithmetic::div_mod::lemma_fundamental_div_mod(v.y, s);
    vstd::arithmetic::div_mod::lemma_fundamental_div_mod(v.z, s);
    vstd::arithmetic::div_mod::lemma_fundamental_div_mod(w.x, s);
    vstd::arithmetic::div_mod::lemma_fundamental_div_mod(w.y, s);
    vstd::arithmetic::div_mod::lemma_fundamental_div_mod(w.z, s);
    let ax = v.x / s;
    let ay = v.y / s;
    let az = v.z / s;
    let bx = w.x / s;
    let by = w.y / s;
    let bz = w.z / s;
    assert(abs_i(ax) <= 16384 && abs_i(ay) <= 16384 && abs_i(az) <= 16384 && abs_i(bx) <= 16384
        && abs_i(by) <= 16384 && abs_i(bz) <= 16384) by (nonlinear_arith)
        requires
            s == 65536,
            v.x == s * ax && abs_i(v.x) <= 16384 * s,
            v.y == s * ay && abs_i(v.y) <= 16384 * s,
            v.z == s * az && abs_i(v.z) <= 16384 * s,
            w.x == s * bx && abs_i(w.x) <= 16384 * s,
            w.y == s * by && abs_i(w.y) <= 16384 * s,
            w.z == s * bz && abs_i(w.z) <= 16384 * s,
    ;
    // the six products inside the cross product are exact
    assert(forall|p: int, q: int|
        abs_i(p) <= 16384 && abs_i(q) <= 16384 ==> abs_i(#[trigger] (p * q)) <= 0x10000000)
        by (nonlinear_arith);
    lemma_fmul_whole(ay, bz);
    lemma_fmul_whole(az, by);
    lemma_fmul_whole(ax, bz);
    lemma_fmul_whole(az, bx);
    lemma_fmul_whole(ax, by);
    lemma_fmul_whole(ay, bx);
    let c1 = ay * bz - az * by;
    let c2 = -(ax * bz - az * bx);
    let c3 = ax * by - ay * bx;
    assert(abs_i(c1) <= 0x20000000 && abs_i(c2) <= 0x20000000 && abs_i(c3) <= 0x20000000);
    // the differences stay in range, so the cross product is exact
    assert(cross3(v, w).x == s * c1 && cross3(v, w).y == s * c2 && cross3(v, w).z == s * c3)
        by (nonlinear_arith)
        requires
            s == 65536,
            cross3(v, w).x == fsub(fmul(v.y, w.z), fmul(v.z, w.y)),
            cross3(v, w).y == fneg(fsub(fmul(v.x, w.z), fmul(v.z, w.x))),
            cross3(v, w).z == fsub(fmul(v.x, w.y), fmul(v.y, w.x)),
            fmul(v.y, w.z) == s * (ay * bz) && fmul(v.z, w.y) == s * (az * by),
            fmul(v.x, w.z) == s * (ax * bz) && fmul(v.z, w.x) == s * (az * bx),
            fmul(v.x, w.y) == s * (ax * by) && fmul(v.y, w.x) == s * (ay * bx),
            c1 == ay * bz - az * by,
            c2 == -(ax * bz - az * bx),
            c3 == ax * by - ay * bx,
            abs_i(ay * bz) <= 0x10000000 && abs_i(az * by) <= 0x10000000,
            abs_i(ax * bz) <= 0x10000000 && abs_i(az * bx) <= 0x10000000,
            abs_i(ax * by) <= 0x10000000 && abs_i(ay * bx) <= 0x10000000,
    ;
    // the six products inside the two dot products are exact too
    assert(forall|p: int, q: int|
        abs_i(p) <= 16384 && abs_i(q) <= 0x20000000 ==> abs_i(#[trigger] (p * q))
            <= 0x7FFFFFFFFFFF) by (nonlinear_arith);
    lemma_fmul_whole(ax, c1);
    lemma_fmul_whole(ay, c2);
    lemma_fmul_whole(az, c3);
    lemma_fmul_whole(bx, c1);
    lemma_fmul_whole(by, c2);
    lemma_fmul_whole(bz, c3);
    let qa = V3i { x: ax, y: ay, z: az };
    let qb = V3i { x: bx, y: by, z: bz };
    lemma_cross_orthogonal(qa, qb);
    assert(cross_exact(qa, qb) == (V3i { x: c1, y: c2, z: c3 }));
    assert(ax * c1 + ay * c2 + az * c3 == 0);
    assert(bx * c1 + by * c2 + bz * c3 == 0);
    assert(dot3(v, cross3(v, w)) == sat64(sat64(s * (ax * c1) + s * (ay * c2)) + s * (az * c3)));
    assert(s * (ax * c1) + s * (ay * c2) + s * (az * c3) == 0 && abs_i(s * (ax * c1)) <= 65536
        * 0x7FFFFFFFFFFF && abs_i(s * (ay * c2)) <= 65536 * 0x7FFFFFFFFFFF) by (nonlinear_arith)
        requires
            ax * c1 + ay * c2 + az * c3 == 0,
            abs_i(ax * c1) <= 0x7FFFFFFFFFFF,
            abs_i(ay * c2) <= 0x7FFFFFFFFFFF,
            abs_i(az * c3) <= 0x7FFFFFFFFFFF,
            s == 65536,
    ;
    assert(s * (bx * c1) + s * (by * c2) + s * (bz * c3) == 0 && abs_i(s * (bx * c1)) <= 65536
        * 0x7FFFFFFFFFFF && abs_i(s * (by * c2)) <= 65536 * 0x7FFFFFFFFFFF) by (nonlinear_arith)
        requires
            bx * c1 + by * c2 + bz * c3 == 0,
            abs_i(bx * c1) <= 0x7FFFFFFFFFFF,
            abs_i(by * c2) <= 0x7FFFFFFFFFFF,
            abs_i(bz * c3) <= 0x7FFFFFFFFFFF,
            s == 65536,
    ;
}

} // verus!
