//! The mathematical model every transform representation denotes.
//!
//! An affine map of 3-space is a linear part together with a
//! translation, written here over unbounded integers with one positive
//! denominator: the map sends `p` to `(L p + t p.d) / d`.  Each
//! representation's contract says which model it denotes; every law of
//! the library is a statement about these models.

use vstd::prelude::*;
use crate::vector::{svec_eq, svec_sub, svec_wf, SVec};

verus! {

/// An affine map: linear part `m__ / d`, translation `(t0, t1, t2) / d`.
pub struct AffModel {
    pub m00: int, pub m01: int, pub m02: int,
    pub m10: int, pub m11: int, pub m12: int,
    pub m20: int, pub m21: int, pub m22: int,
    pub t0: int, pub t1: int, pub t2: int,
    pub d: int,
}

/// The denominator is positive.
pub open spec fn aff_wf(m: AffModel) -> bool {
    m.d > 0
}

/// The identity map.
pub open spec fn aff_id() -> AffModel {
    AffModel {
        m00: 1, m01: 0, m02: 0,
        m10: 0, m11: 1, m12: 0,
        m20: 0, m21: 0, m22: 1,
        t0: 0, t1: 0, t2: 0,
        d: 1,
    }
}

/// Image of the point `p`: scale and rotation apply, then the
/// translation.
pub open spec fn aff_apply_pt(m: AffModel, p: SVec) -> SVec {
    SVec {
        x: m.m00 * p.x + m.m01 * p.y + m.m02 * p.z + m.t0 * p.d,
        y: m.m10 * p.x + m.m11 * p.y + m.m12 * p.z + m.t1 * p.d,
        z: m.m20 * p.x + m.m21 * p.y + m.m22 * p.z + m.t2 * p.d,
        d: m.d * p.d,
    }
}

/// Image of the free vector `v`: only the linear part applies.
pub open spec fn aff_apply_vec(m: AffModel, v: SVec) -> SVec {
    SVec {
        x: m.m00 * v.x + m.m01 * v.y + m.m02 * v.z,
        y: m.m10 * v.x + m.m11 * v.y + m.m12 * v.z,
        z: m.m20 * v.x + m.m21 * v.y + m.m22 * v.z,
        d: m.d * v.d,
    }
}

/// The map equivalent to applying `first`, then `then`.
pub open spec fn aff_compose(first: AffModel, then: AffModel) -> AffModel {
    AffModel {
        m00: then.m00 * first.m00 + then.m01 * first.m10 + then.m02 * first.m20,
        m01: then.m00 * first.m01 + then.m01 * first.m11 + then.m02 * first.m21,
        m02: then.m00 * first.m02 + then.m01 * first.m12 + then.m02 * first.m22,
        m10: then.m10 * first.m00 + then.m11 * first.m10 + then.m12 * first.m20,
        m11: then.m10 * first.m01 + then.m11 * first.m11 + then.m12 * first.m21,
        m12: then.m10 * first.m02 + then.m11 * first.m12 + then.m12 * first.m22,
        m20: then.m20 * first.m00 + then.m21 * first.m10 + then.m22 * first.m20,
        m21: then.m20 * first.m01 + then.m21 * first.m11 + then.m22 * first.m21,
        m22: then.m20 * first.m02 + then.m21 * first.m12 + then.m22 * first.m22,
        t0: then.m00 * first.t0 + then.m01 * first.t1 + then.m02 * first.t2 + then.t0 * first.d,
        t1: then.m10 * first.t0 + then.m11 * first.t1 + then.m12 * first.t2 + then.t1 * first.d,
        t2: then.m20 * first.t0 + then.m21 * first.t1 + then.m22 * first.t2 + then.t2 * first.d,
        d: then.d * first.d,
    }
}

/// The two models denote the same affine map, entry by entry.
pub open spec fn aff_eq(a: AffModel, b: AffModel) -> bool {
    &&& a.m00 * b.d == b.m00 * a.d
    &&& a.m01 * b.d == b.m01 * a.d
    &&& a.m02 * b.d == b.m02 * a.d
    &&& a.m10 * b.d == b.m10 * a.d
    &&& a.m11 * b.d == b.m11 * a.d
    &&& a.m12 * b.d == b.m12 * a.d
    &&& a.m20 * b.d == b.m20 * a.d
    &&& a.m21 * b.d == b.m21 * a.d
    &&& a.m22 * b.d == b.m22 * a.d
    &&& a.t0 * b.d == b.t0 * a.d
    &&& a.t1 * b.d == b.t1 * a.d
    &&& a.t2 * b.d == b.t2 * a.d
}

/// Determinant of the linear part; the map is invertible exactly when it
/// is not zero.
pub open spec fn aff_det(m: AffModel) -> int {
    m.m00 * (m.m11 * m.m22 - m.m12 * m.m21)
        - m.m01 * (m.m10 * m.m22 - m.m12 * m.m20)
        + m.m02 * (m.m10 * m.m21 - m.m11 * m.m20)
}

/// The translation of the map, as a triple.
pub open spec fn aff_translation(m: AffModel) -> SVec {
    SVec { x: m.t0, y: m.t1, z: m.t2, d: m.d }
}

/// Multiplication of integers is commutative; stated here so callers in
/// the default prover mode can use it.
pub proof fn lemma_mul_comm(x: int, y: int)
    by (nonlinear_arith)
    ensures
        x * y == y * x,
{
}

/// Cross-multiplied equality of fractions is transitive when the middle
/// denominator is positive.
pub proof fn lemma_cross_trans(x1: int, d1: int, x2: int, d2: int, x3: int, d3: int)
    by (nonlinear_arith)
    requires
        d2 > 0,
        x1 * d2 == x2 * d1,
        x2 * d3 == x3 * d2,
    ensures
        x1 * d3 == x3 * d1,
{
}

/// A product of cross-multiplied-equal factors is cross-multiplied
/// equal.
pub proof fn lemma_prod_cross(
    x: int, xx: int, dx: int, ex: int, y: int, yy: int, dy: int, ey: int,
)
    by (nonlinear_arith)
    requires
        x * dx == xx * ex,
        y * dy == yy * ey,
    ensures
        (x * y) * (dx * dy) == (xx * yy) * (ex * ey),
{
}

/// A three-term sum of products respects cross-multiplied equality of
/// its factors.
pub proof fn lemma_sum3_cross(
    x1: int, x2: int, x3: int, y1: int, y2: int, y3: int,
    xx1: int, xx2: int, xx3: int, yy1: int, yy2: int, yy3: int,
    dx: int, ex: int, dy: int, ey: int,
)
    requires
        x1 * dx == xx1 * ex,
        x2 * dx == xx2 * ex,
        x3 * dx == xx3 * ex,
        y1 * dy == yy1 * ey,
        y2 * dy == yy2 * ey,
        y3 * dy == yy3 * ey,
    ensures
        (x1 * y1 + x2 * y2 + x3 * y3) * (dx * dy) == (xx1 * yy1 + xx2 * yy2 + xx3 * yy3) * (ex * ey),
{
    lemma_prod_cross(x1, xx1, dx, ex, y1, yy1, dy, ey);
    lemma_prod_cross(x2, xx2, dx, ex, y2, yy2, dy, ey);
    lemma_prod_cross(x3, xx3, dx, ex, y3, yy3, dy, ey);
    assert((x1 * y1 + x2 * y2 + x3 * y3) * (dx * dy)
        == (x1 * y1) * (dx * dy) + (x2 * y2) * (dx * dy) + (x3 * y3) * (dx * dy))
        by (nonlinear_arith);
    assert((xx1 * yy1 + xx2 * yy2 + xx3 * yy3) * (ex * ey)
        == (xx1 * yy1) * (ex * ey) + (xx2 * yy2) * (ex * ey) + (xx3 * yy3) * (ex * ey))
        by (nonlinear_arith);
}

/// The same, for a four-term sum.
pub proof fn lemma_sum4_cross(
    x1: int, x2: int, x3: int, x4: int, y1: int, y2: int, y3: int, y4: int,
    xx1: int, xx2: int, xx3: int, xx4: int, yy1: int, yy2: int, yy3: int, yy4: int,
    dx: int, ex: int, dy: int, ey: int,
)
    requires
        x1 * dx == xx1 * ex,
        x2 * dx == xx2 * ex,
        x3 * dx == xx3 * ex,
        x4 * dx == xx4 * ex,
        y1 * dy == yy1 * ey,
        y2 * dy == yy2 * ey,
        y3 * dy == yy3 * ey,
        y4 * dy == yy4 * ey,
    ensures
        (x1 * y1 + x2 * y2 + x3 * y3 + x4 * y4) * (dx * dy)
            == (xx1 * yy1 + xx2 * yy2 + xx3 * yy3 + xx4 * yy4) * (ex * ey),
{
    lemma_prod_cross(x1, xx1, dx, ex, y1, yy1, dy, ey);
    lemma_prod_cross(x2, xx2, dx, ex, y2, yy2, dy, ey);
    lemma_prod_cross(x3, xx3, dx, ex, y3, yy3, dy, ey);
    lemma_prod_cross(x4, xx4, dx, ex, y4, yy4, dy, ey);
    assert((x1 * y1 + x2 * y2 + x3 * y3 + x4 * y4) * (dx * dy)
        == (x1 * y1) * (dx * dy) + (x2 * y2) * (dx * dy) + (x3 * y3) * (dx * dy) + (x4 * y4) * (dx * dy))
        by (nonlinear_arith);
    assert((xx1 * yy1 + xx2 * yy2 + xx3 * yy3 + xx4 * yy4) * (ex * ey)
        == (xx1 * yy1) * (ex * ey) + (xx2 * yy2) * (ex * ey) + (xx3 * yy3) * (ex * ey) + (xx4 * yy4) * (ex * ey))
        by (nonlinear_arith);
}

/// The identity map is neutral for composition, on either side.
pub proof fn lemma_compose_id(m: AffModel)
    ensures
        aff_compose(aff_id(), m) == m,
        aff_compose(m, aff_id()) == m,
{
}

/// The identity map leaves every point in place.
pub proof fn lemma_apply_pt_id(p: SVec)
    ensures
        aff_apply_pt(aff_id(), p) == p,
        aff_apply_vec(aff_id(), p) == p,
{
}

/// Denoting the same map is transitive among well-formed models.
pub proof fn lemma_aff_eq_trans(a: AffModel, b: AffModel, c: AffModel)
    requires
        aff_wf(a),
        aff_wf(b),
        aff_wf(c),
        aff_eq(a, b),
        aff_eq(b, c),
    ensures
        aff_eq(a, c),
{
    lemma_cross_trans(a.m00, a.d, b.m00, b.d, c.m00, c.d);
    lemma_cross_trans(a.m01, a.d, b.m01, b.d, c.m01, c.d);
    lemma_cross_trans(a.m02, a.d, b.m02, b.d, c.m02, c.d);
    lemma_cross_trans(a.m10, a.d, b.m10, b.d, c.m10, c.d);
    lemma_cross_trans(a.m11, a.d, b.m11, b.d, c.m11, c.d);
    lemma_cross_trans(a.m12, a.d, b.m12, b.d, c.m12, c.d);
    lemma_cross_trans(a.m20, a.d, b.m20, b.d, c.m20, c.d);
    lemma_cross_trans(a.m21, a.d, b.m21, b.d, c.m21, c.d);
    lemma_cross_trans(a.m22, a.d, b.m22, b.d, c.m22, c.d);
    lemma_cross_trans(a.t0, a.d, b.t0, b.d, c.t0, c.d);
    lemma_cross_trans(a.t1, a.d, b.t1, b.d, c.t1, c.d);
    lemma_cross_trans(a.t2, a.d, b.t2, b.d, c.t2, c.d);
}

/// Multiplication of integers is associative; stated here so callers in
/// the default prover mode can use it.
pub proof fn lemma_mul_assoc(x: int, y: int, z: int)
    by (nonlinear_arith)
    ensures
        (x * y) * z == x * (y * z),
{
}

/// A two-term sum distributes over a product on the right.
pub proof fn lemma_distrib2(a: int, b: int, m: int)
    by (nonlinear_arith)
    ensures
        (a + b) * m == a * m + b * m,
{
}

/// A three-term sum distributes over a product on the right.
pub proof fn lemma_distrib3(a: int, b: int, c: int, m: int)
    by (nonlinear_arith)
    ensures
        (a + b + c) * m == a * m + b * m + c * m,
{
}

/// A four-term sum distributes over a product on the right.
pub proof fn lemma_distrib4(a: int, b: int, c: int, e: int, m: int)
    by (nonlinear_arith)
    ensures
        (a + b + c + e) * m == a * m + b * m + c * m + e * m,
{
}

/// A three-term sum distributes over a product on the left.
pub proof fn lemma_distrib3_left(m: int, a: int, b: int, c: int)
    by (nonlinear_arith)
    ensures
        m * (a + b + c) == m * a + m * b + m * c,
{
}

/// A four-term sum distributes over a product on the left.
pub proof fn lemma_distrib4_left(m: int, a: int, b: int, c: int, e: int)
    by (nonlinear_arith)
    ensures
        m * (a + b + c + e) == m * a + m * b + m * c + m * e,
{
}

/// Composing is applying in turn: the image of `p` under
/// `first`-then-`then` is the image under `then` of the image under
/// `first`.  The two triples coincide exactly, not only up to value.
pub proof fn lemma_apply_pt_compose(first: AffModel, then: AffModel, p: SVec)
    ensures
        aff_apply_pt(aff_compose(first, then), p) == aff_apply_pt(then, aff_apply_pt(first, p)),
{
    lemma_distrib3(then.m00 * first.m00, then.m01 * first.m10, then.m02 * first.m20, p.x);
    lemma_distrib3(then.m00 * first.m01, then.m01 * first.m11, then.m02 * first.m21, p.y);
    lemma_distrib3(then.m00 * first.m02, then.m01 * first.m12, then.m02 * first.m22, p.z);
    lemma_distrib4(then.m00 * first.t0, then.m01 * first.t1, then.m02 * first.t2, then.t0 * first.d, p.d);
    lemma_distrib4_left(then.m00, first.m00 * p.x, first.m01 * p.y, first.m02 * p.z, first.t0 * p.d);
    lemma_distrib4_left(then.m01, first.m10 * p.x, first.m11 * p.y, first.m12 * p.z, first.t1 * p.d);
    lemma_distrib4_left(then.m02, first.m20 * p.x, first.m21 * p.y, first.m22 * p.z, first.t2 * p.d);
    lemma_mul_assoc(then.m00, first.m00, p.x);
    lemma_mul_assoc(then.m01, first.m10, p.x);
    lemma_mul_assoc(then.m02, first.m20, p.x);
    lemma_mul_assoc(then.m00, first.m01, p.y);
    lemma_mul_assoc(then.m01, first.m11, p.y);
    lemma_mul_assoc(then.m02, first.m21, p.y);
    lemma_mul_assoc(then.m00, first.m02, p.z);
    lemma_mul_assoc(then.m01, first.m12, p.z);
    lemma_mul_assoc(then.m02, first.m22, p.z);
    lemma_mul_assoc(then.m00, first.t0, p.d);
    lemma_mul_assoc(then.m01, first.t1, p.d);
    lemma_mul_assoc(then.m02, first.t2, p.d);
    lemma_mul_assoc(then.t0, first.d, p.d);
    lemma_distrib3(then.m10 * first.m00, then.m11 * first.m10, then.m12 * first.m20, p.x);
    lemma_distrib3(then.m10 * first.m01, then.m11 * first.m11, then.m12 * first.m21, p.y);
    lemma_distrib3(then.m10 * first.m02, then.m11 * first.m12, then.m12 * first.m22, p.z);
    lemma_distrib4(then.m10 * first.t0, then.m11 * first.t1, then.m12 * first.t2, then.t1 * first.d, p.d);
    lemma_distrib4_left(then.m10, first.m00 * p.x, first.m01 * p.y, first.m02 * p.z, first.t0 * p.d);
    lemma_distrib4_left(then.m11, first.m10 * p.x, first.m11 * p.y, first.m12 * p.z, first.t1 * p.d);
    lemma_distrib4_left(then.m12, first.m20 * p.x, first.m21 * p.y, first.m22 * p.z, first.t2 * p.d);
    lemma_mul_assoc(then.m10, first.m00, p.x);
    lemma_mul_assoc(then.m11, first.m10, p.x);
    lemma_mul_assoc(then.m12, first.m20, p.x);
    lemma_mul_assoc(then.m10, first.m01, p.y);
    lemma_mul_assoc(then.m11, first.m11, p.y);
    lemma_mul_assoc(then.m12, first.m21, p.y);
    lemma_mul_assoc(then.m10, first.m02, p.z);
    lemma_mul_assoc(then.m11, first.m12, p.z);
    lemma_mul_assoc(then.m12, first.m22, p.z);
    lemma_mul_assoc(then.m10, first.t0, p.d);
    lemma_mul_assoc(then.m11, first.t1, p.d);
    lemma_mul_assoc(then.m12, first.t2, p.d);
    lemma_mul_assoc(then.t1, first.d, p.d);
    lemma_distrib3(then.m20 * first.m00, then.m21 * first.m10, then.m22 * first.m20, p.x);
    lemma_distrib3(then.m20 * first.m01, then.m21 * first.m11, then.m22 * first.m21, p.y);
    lemma_distrib3(then.m20 * first.m02, then.m21 * first.m12, then.m22 * first.m22, p.z);
    lemma_distrib4(then.m20 * first.t0, then.m21 * first.t1, then.m22 * first.t2, then.t2 * first.d, p.d);
    lemma_distrib4_left(then.m20, first.m00 * p.x, first.m01 * p.y, first.m02 * p.z, first.t0 * p.d);
    lemma_distrib4_left(then.m21, first.m10 * p.x, first.m11 * p.y, first.m12 * p.z, first.t1 * p.d);
    lemma_distrib4_left(then.m22, first.m20 * p.x, first.m21 * p.y, first.m22 * p.z, first.t2 * p.d);
    lemma_mul_assoc(then.m20, first.m00, p.x);
    lemma_mul_assoc(then.m21, first.m10, p.x);
    lemma_mul_assoc(then.m22, first.m20, p.x);
    lemma_mul_assoc(then.m20, first.m01, p.y);
    lemma_mul_assoc(then.m21, first.m11, p.y);
    lemma_mul_assoc(then.m22, first.m21, p.y);
    lemma_mul_assoc(then.m20, first.m02, p.z);
    lemma_mul_assoc(then.m21, first.m12, p.z);
    lemma_mul_assoc(then.m22, first.m22, p.z);
    lemma_mul_assoc(then.m20, first.t0, p.d);
    lemma_mul_assoc(then.m21, first.t1, p.d);
    lemma_mul_assoc(then.m22, first.t2, p.d);
    lemma_mul_assoc(then.t2, first.d, p.d);
    lemma_mul_assoc(then.d, first.d, p.d);
}

/// The same, for a free vector.
pub proof fn lemma_apply_vec_compose(first: AffModel, then: AffModel, v: SVec)
    ensures
        aff_apply_vec(aff_compose(first, then), v) == aff_apply_vec(then, aff_apply_vec(first, v)),
{
    lemma_distrib3(then.m00 * first.m00, then.m01 * first.m10, then.m02 * first.m20, v.x);
    lemma_distrib3(then.m00 * first.m01, then.m01 * first.m11, then.m02 * first.m21, v.y);
    lemma_distrib3(then.m00 * first.m02, then.m01 * first.m12, then.m02 * first.m22, v.z);
    lemma_distrib3_left(then.m00, first.m00 * v.x, first.m01 * v.y, first.m02 * v.z);
    lemma_distrib3_left(then.m01, first.m10 * v.x, first.m11 * v.y, first.m12 * v.z);
    lemma_distrib3_left(then.m02, first.m20 * v.x, first.m21 * v.y, first.m22 * v.z);
    lemma_mul_assoc(then.m00, first.m00, v.x);
    lemma_mul_assoc(then.m01, first.m10, v.x);
    lemma_mul_assoc(then.m02, first.m20, v.x);
    lemma_mul_assoc(then.m00, first.m01, v.y);
    lemma_mul_assoc(then.m01, first.m11, v.y);
    lemma_mul_assoc(then.m02, first.m21, v.y);
    lemma_mul_assoc(then.m00, first.m02, v.z);
    lemma_mul_assoc(then.m01, first.m12, v.z);
    lemma_mul_assoc(then.m02, first.m22, v.z);
    lemma_distrib3(then.m10 * first.m00, then.m11 * first.m10, then.m12 * first.m20, v.x);
    lemma_distrib3(then.m10 * first.m01, then.m11 * first.m11, then.m12 * first.m21, v.y);
    lemma_distrib3(then.m10 * first.m02, then.m11 * first.m12, then.m12 * first.m22, v.z);
    lemma_distrib3_left(then.m10, first.m00 * v.x, first.m01 * v.y, first.m02 * v.z);
    lemma_distrib3_left(then.m11, first.m10 * v.x, first.m11 * v.y, first.m12 * v.z);
    lemma_distrib3_left(then.m12, first.m20 * v.x, first.m21 * v.y, first.m22 * v.z);
    lemma_mul_assoc(then.m10, first.m00, v.x);
    lemma_mul_assoc(then.m11, first.m10, v.x);
    lemma_mul_assoc(then.m12, first.m20, v.x);
    lemma_mul_assoc(then.m10, first.m01, v.y);
    lemma_mul_assoc(then.m11, first.m11, v.y);
    lemma_mul_assoc(then.m12, first.m21, v.y);
    lemma_mul_assoc(then.m10, first.m02, v.z);
    lemma_mul_assoc(then.m11, first.m12, v.z);
    lemma_mul_assoc(then.m12, first.m22, v.z);
    lemma_distrib3(then.m20 * first.m00, then.m21 * first.m10, then.m22 * first.m20, v.x);
    lemma_distrib3(then.m20 * first.m01, then.m21 * first.m11, then.m22 * first.m21, v.y);
    lemma_distrib3(then.m20 * first.m02, then.m21 * first.m12, then.m22 * first.m22, v.z);
    lemma_distrib3_left(then.m20, first.m00 * v.x, first.m01 * v.y, first.m02 * v.z);
    lemma_distrib3_left(then.m21, first.m10 * v.x, first.m11 * v.y, first.m12 * v.z);
    lemma_distrib3_left(then.m22, first.m20 * v.x, first.m21 * v.y, first.m22 * v.z);
    lemma_mul_assoc(then.m20, first.m00, v.x);
    lemma_mul_assoc(then.m21, first.m10, v.x);
    lemma_mul_assoc(then.m22, first.m20, v.x);
    lemma_mul_assoc(then.m20, first.m01, v.y);
    lemma_mul_assoc(then.m21, first.m11, v.y);
    lemma_mul_assoc(then.m22, first.m21, v.y);
    lemma_mul_assoc(then.m20, first.m02, v.z);
    lemma_mul_assoc(then.m21, first.m12, v.z);
    lemma_mul_assoc(then.m22, first.m22, v.z);
    lemma_mul_assoc(then.d, first.d, v.d);
}

/// Composition is associative.
pub proof fn lemma_compose_assoc(a: AffModel, b: AffModel, c: AffModel)
    ensures
        aff_compose(aff_compose(a, b), c) == aff_compose(a, aff_compose(b, c)),
{
    lemma_distrib3_left(c.m00, b.m00 * a.m00, b.m01 * a.m10, b.m02 * a.m20);
    lemma_distrib3_left(c.m01, b.m10 * a.m00, b.m11 * a.m10, b.m12 * a.m20);
    lemma_distrib3_left(c.m02, b.m20 * a.m00, b.m21 * a.m10, b.m22 * a.m20);
    lemma_distrib3(c.m00 * b.m00, c.m01 * b.m10, c.m02 * b.m20, a.m00);
    lemma_distrib3(c.m00 * b.m01, c.m01 * b.m11, c.m02 * b.m21, a.m10);
    lemma_distrib3(c.m00 * b.m02, c.m01 * b.m12, c.m02 * b.m22, a.m20);
    lemma_mul_assoc(c.m00, b.m00, a.m00);
    lemma_mul_assoc(c.m00, b.m01, a.m10);
    lemma_mul_assoc(c.m00, b.m02, a.m20);
    lemma_mul_assoc(c.m01, b.m10, a.m00);
    lemma_mul_assoc(c.m01, b.m11, a.m10);
    lemma_mul_assoc(c.m01, b.m12, a.m20);
    lemma_mul_assoc(c.m02, b.m20, a.m00);
    lemma_mul_assoc(c.m02, b.m21, a.m10);
    lemma_mul_assoc(c.m02, b.m22, a.m20);
    lemma_distrib3_left(c.m00, b.m00 * a.m01, b.m01 * a.m11, b.m02 * a.m21);
    lemma_distrib3_left(c.m01, b.m10 * a.m01, b.m11 * a.m11, b.m12 * a.m21);
    lemma_distrib3_left(c.m02, b.m20 * a.m01, b.m21 * a.m11, b.m22 * a.m21);
    lemma_distrib3(c.m00 * b.m00, c.m01 * b.m10, c.m02 * b.m20, a.m01);
    lemma_distrib3(c.m00 * b.m01, c.m01 * b.m11, c.m02 * b.m21, a.m11);
    lemma_distrib3(c.m00 * b.m02, c.m01 * b.m12, c.m02 * b.m22, a.m21);
    lemma_mul_assoc(c.m00, b.m00, a.m01);
    lemma_mul_assoc(c.m00, b.m01, a.m11);
    lemma_mul_assoc(c.m00, b.m02, a.m21);
    lemma_mul_assoc(c.m01, b.m10, a.m01);
    lemma_mul_assoc(c.m01, b.m11, a.m11);
    lemma_mul_assoc(c.m01, b.m12, a.m21);
    lemma_mul_assoc(c.m02, b.m20, a.m01);
    lemma_mul_assoc(c.m02, b.m21, a.m11);
    lemma_mul_assoc(c.m02, b.m22, a.m21);
    lemma_distrib3_left(c.m00, b.m00 * a.m02, b.m01 * a.m12, b.m02 * a.m22);
    lemma_distrib3_left(c.m01, b.m10 * a.m02, b.m11 * a.m12, b.m12 * a.m22);
    lemma_distrib3_left(c.m02, b.m20 * a.m02, b.m21 * a.m12, b.m22 * a.m22);
    lemma_distrib3(c.m00 * b.m00, c.m01 * b.m10, c.m02 * b.m20, a.m02);
    lemma_distrib3(c.m00 * b.m01, c.m01 * b.m11, c.m02 * b.m21, a.m12);
    lemma_distrib3(c.m00 * b.m02, c.m01 * b.m12, c.m02 * b.m22, a.m22);
    lemma_mul_assoc(c.m00, b.m00, a.m02);
    lemma_mul_assoc(c.m00, b.m01, a.m12);
    lemma_mul_assoc(c.m00, b.m02, a.m22);
    lemma_mul_assoc(c.m01, b.m10, a.m02);
    lemma_mul_assoc(c.m01, b.m11, a.m12);
    lemma_mul_assoc(c.m01, b.m12, a.m22);
    lemma_mul_assoc(c.m02, b.m20, a.m02);
    lemma_mul_assoc(c.m02, b.m21, a.m12);
    lemma_mul_assoc(c.m02, b.m22, a.m22);
    lemma_distrib3_left(c.m10, b.m00 * a.m00, b.m01 * a.m10, b.m02 * a.m20);
    lemma_distrib3_left(c.m11, b.m10 * a.m00, b.m11 * a.m10, b.m12 * a.m20);
    lemma_distrib3_left(c.m12, b.m20 * a.m00, b.m21 * a.m10, b.m22 * a.m20);
    lemma_distrib3(c.m10 * b.m00, c.m11 * b.m10, c.m12 * b.m20, a.m00);
    lemma_distrib3(c.m10 * b.m01, c.m11 * b.m11, c.m12 * b.m21, a.m10);
    lemma_distrib3(c.m10 * b.m02, c.m11 * b.m12, c.m12 * b.m22, a.m20);
    lemma_mul_assoc(c.m10, b.m00, a.m00);
    lemma_mul_assoc(c.m10, b.m01, a.m10);
    lemma_mul_assoc(c.m10, b.m02, a.m20);
    lemma_mul_assoc(c.m11, b.m10, a.m00);
    lemma_mul_assoc(c.m11, b.m11, a.m10);
    lemma_mul_assoc(c.m11, b.m12, a.m20);
    lemma_mul_assoc(c.m12, b.m20, a.m00);
    lemma_mul_assoc(c.m12, b.m21, a.m10);
    lemma_mul_assoc(c.m12, b.m22, a.m20);
    lemma_distrib3_left(c.m10, b.m00 * a.m01, b.m01 * a.m11, b.m02 * a.m21);
    lemma_distrib3_left(c.m11, b.m10 * a.m01, b.m11 * a.m11, b.m12 * a.m21);
    lemma_distrib3_left(c.m12, b.m20 * a.m01, b.m21 * a.m11, b.m22 * a.m21);
    lemma_distrib3(c.m10 * b.m00, c.m11 * b.m10, c.m12 * b.m20, a.m01);
    lemma_distrib3(c.m10 * b.m01, c.m11 * b.m11, c.m12 * b.m21, a.m11);
    lemma_distrib3(c.m10 * b.m02, c.m11 * b.m12, c.m12 * b.m22, a.m21);
    lemma_mul_assoc(c.m10, b.m00, a.m01);
    lemma_mul_assoc(c.m10, b.m01, a.m11);
    lemma_mul_assoc(c.m10, b.m02, a.m21);
    lemma_mul_assoc(c.m11, b.m10, a.m01);
    lemma_mul_assoc(c.m11, b.m11, a.m11);
    lemma_mul_assoc(c.m11, b.m12, a.m21);
    lemma_mul_assoc(c.m12, b.m20, a.m01);
    lemma_mul_assoc(c.m12, b.m21, a.m11);
    lemma_mul_assoc(c.m12, b.m22, a.m21);
    lemma_distrib3_left(c.m10, b.m00 * a.m02, b.m01 * a.m12, b.m02 * a.m22);
    lemma_distrib3_left(c.m11, b.m10 * a.m02, b.m11 * a.m12, b.m12 * a.m22);
    lemma_distrib3_left(c.m12, b.m20 * a.m02, b.m21 * a.m12, b.m22 * a.m22);
    lemma_distrib3(c.m10 * b.m00, c.m11 * b.m10, c.m12 * b.m20, a.m02);
    lemma_distrib3(c.m10 * b.m01, c.m11 * b.m11, c.m12 * b.m21, a.m12);
    lemma_distrib3(c.m10 * b.m02, c.m11 * b.m12, c.m12 * b.m22, a.m22);
    lemma_mul_assoc(c.m10, b.m00, a.m02);
    lemma_mul_assoc(c.m10, b.m01, a.m12);
    lemma_mul_assoc(c.m10, b.m02, a.m22);
    lemma_mul_assoc(c.m11, b.m10, a.m02);
    lemma_mul_assoc(c.m11, b.m11, a.m12);
    lemma_mul_assoc(c.m11, b.m12, a.m22);
    lemma_mul_assoc(c.m12, b.m20, a.m02);
    lemma_mul_assoc(c.m12, b.m21, a.m12);
    lemma_mul_assoc(c.m12, b.m22, a.m22);
    lemma_distrib3_left(c.m20, b.m00 * a.m00, b.m01 * a.m10, b.m02 * a.m20);
    lemma_distrib3_left(c.m21, b.m10 * a.m00, b.m11 * a.m10, b.m12 * a.m20);
    lemma_distrib3_left(c.m22, b.m20 * a.m00, b.m21 * a.m10, b.m22 * a.m20);
    lemma_distrib3(c.m20 * b.m00, c.m21 * b.m10, c.m22 * b.m20, a.m00);
    lemma_distrib3(c.m20 * b.m01, c.m21 * b.m11, c.m22 * b.m21, a.m10);
    lemma_distrib3(c.m20 * b.m02, c.m21 * b.m12, c.m22 * b.m22, a.m20);
    lemma_mul_assoc(c.m20, b.m00, a.m00);
    lemma_mul_assoc(c.m20, b.m01, a.m10);
    lemma_mul_assoc(c.m20, b.m02, a.m20);
    lemma_mul_assoc(c.m21, b.m10, a.m00);
    lemma_mul_assoc(c.m21, b.m11, a.m10);
    lemma_mul_assoc(c.m21, b.m12, a.m20);
    lemma_mul_assoc(c.m22, b.m20, a.m00);
    lemma_mul_assoc(c.m22, b.m21, a.m10);
    lemma_mul_assoc(c.m22, b.m22, a.m20);
    lemma_distrib3_left(c.m20, b.m00 * a.m01, b.m01 * a.m11, b.m02 * a.m21);
    lemma_distrib3_left(c.m21, b.m10 * a.m01, b.m11 * a.m11, b.m12 * a.m21);
    lemma_distrib3_left(c.m22, b.m20 * a.m01, b.m21 * a.m11, b.m22 * a.m21);
    lemma_distrib3(c.m20 * b.m00, c.m21 * b.m10, c.m22 * b.m20, a.m01);
    lemma_distrib3(c.m20 * b.m01, c.m21 * b.m11, c.m22 * b.m21, a.m11);
    lemma_distrib3(c.m20 * b.m02, c.m21 * b.m12, c.m22 * b.m22, a.m21);
    lemma_mul_assoc(c.m20, b.m00, a.m01);
    lemma_mul_assoc(c.m20, b.m01, a.m11);
    lemma_mul_assoc(c.m20, b.m02, a.m21);
    lemma_mul_assoc(c.m21, b.m10, a.m01);
    lemma_mul_assoc(c.m21, b.m11, a.m11);
    lemma_mul_assoc(c.m21, b.m12, a.m21);
    lemma_mul_assoc(c.m22, b.m20, a.m01);
    lemma_mul_assoc(c.m22, b.m21, a.m11);
    lemma_mul_assoc(c.m22, b.m22, a.m21);
    lemma_distrib3_left(c.m20, b.m00 * a.m02, b.m01 * a.m12, b.m02 * a.m22);
    lemma_distrib3_left(c.m21, b.m10 * a.m02, b.m11 * a.m12, b.m12 * a.m22);
    lemma_distrib3_left(c.m22, b.m20 * a.m02, b.m21 * a.m12, b.m22 * a.m22);
    lemma_distrib3(c.m20 * b.m00, c.m21 * b.m10, c.m22 * b.m20, a.m02);
    lemma_distrib3(c.m20 * b.m01, c.m21 * b.m11, c.m22 * b.m21, a.m12);
    lemma_distrib3(c.m20 * b.m02, c.m21 * b.m12, c.m22 * b.m22, a.m22);
    lemma_mul_assoc(c.m20, b.m00, a.m02);
    lemma_mul_assoc(c.m20, b.m01, a.m12);
    lemma_mul_assoc(c.m20, b.m02, a.m22);
    lemma_mul_assoc(c.m21, b.m10, a.m02);
    lemma_mul_assoc(c.m21, b.m11, a.m12);
    lemma_mul_assoc(c.m21, b.m12, a.m22);
    lemma_mul_assoc(c.m22, b.m20, a.m02);
    lemma_mul_assoc(c.m22, b.m21, a.m12);
    lemma_mul_assoc(c.m22, b.m22, a.m22);
    lemma_distrib4_left(c.m00, b.m00 * a.t0, b.m01 * a.t1, b.m02 * a.t2, b.t0 * a.d);
    lemma_distrib4_left(c.m01, b.m10 * a.t0, b.m11 * a.t1, b.m12 * a.t2, b.t1 * a.d);
    lemma_distrib4_left(c.m02, b.m20 * a.t0, b.m21 * a.t1, b.m22 * a.t2, b.t2 * a.d);
    lemma_distrib3(c.m00 * b.m00, c.m01 * b.m10, c.m02 * b.m20, a.t0);
    lemma_distrib3(c.m00 * b.m01, c.m01 * b.m11, c.m02 * b.m21, a.t1);
    lemma_distrib3(c.m00 * b.m02, c.m01 * b.m12, c.m02 * b.m22, a.t2);
    lemma_distrib4(c.m00 * b.t0, c.m01 * b.t1, c.m02 * b.t2, c.t0 * b.d, a.d);
    lemma_mul_assoc(c.m00, b.m00, a.t0);
    lemma_mul_assoc(c.m00, b.m01, a.t1);
    lemma_mul_assoc(c.m00, b.m02, a.t2);
    lemma_mul_assoc(c.m01, b.m10, a.t0);
    lemma_mul_assoc(c.m01, b.m11, a.t1);
    lemma_mul_assoc(c.m01, b.m12, a.t2);
    lemma_mul_assoc(c.m02, b.m20, a.t0);
    lemma_mul_assoc(c.m02, b.m21, a.t1);
    lemma_mul_assoc(c.m02, b.m22, a.t2);
    lemma_mul_assoc(c.m00, b.t0, a.d);
    lemma_mul_assoc(c.m01, b.t1, a.d);
    lemma_mul_assoc(c.m02, b.t2, a.d);
    lemma_mul_assoc(c.t0, b.d, a.d);
    lemma_distrib4_left(c.m10, b.m00 * a.t0, b.m01 * a.t1, b.m02 * a.t2, b.t0 * a.d);
    lemma_distrib4_left(c.m11, b.m10 * a.t0, b.m11 * a.t1, b.m12 * a.t2, b.t1 * a.d);
    lemma_distrib4_left(c.m12, b.m20 * a.t0, b.m21 * a.t1, b.m22 * a.t2, b.t2 * a.d);
    lemma_distrib3(c.m10 * b.m00, c.m11 * b.m10, c.m12 * b.m20, a.t0);
    lemma_distrib3(c.m10 * b.m01, c.m11 * b.m11, c.m12 * b.m21, a.t1);
    lemma_distrib3(c.m10 * b.m02, c.m11 * b.m12, c.m12 * b.m22, a.t2);
    lemma_distrib4(c.m10 * b.t0, c.m11 * b.t1, c.m12 * b.t2, c.t1 * b.d, a.d);
    lemma_mul_assoc(c.m10, b.m00, a.t0);
    lemma_mul_assoc(c.m10, b.m01, a.t1);
    lemma_mul_assoc(c.m10, b.m02, a.t2);
    lemma_mul_assoc(c.m11, b.m10, a.t0);
    lemma_mul_assoc(c.m11, b.m11, a.t1);
    lemma_mul_assoc(c.m11, b.m12, a.t2);
    lemma_mul_assoc(c.m12, b.m20, a.t0);
    lemma_mul_assoc(c.m12, b.m21, a.t1);
    lemma_mul_assoc(c.m12, b.m22, a.t2);
    lemma_mul_assoc(c.m10, b.t0, a.d);
    lemma_mul_assoc(c.m11, b.t1, a.d);
    lemma_mul_assoc(c.m12, b.t2, a.d);
    lemma_mul_assoc(c.t1, b.d, a.d);
    lemma_distrib4_left(c.m20, b.m00 * a.t0, b.m01 * a.t1, b.m02 * a.t2, b.t0 * a.d);
    lemma_distrib4_left(c.m21, b.m10 * a.t0, b.m11 * a.t1, b.m12 * a.t2, b.t1 * a.d);
    lemma_distrib4_left(c.m22, b.m20 * a.t0, b.m21 * a.t1, b.m22 * a.t2, b.t2 * a.d);
    lemma_distrib3(c.m20 * b.m00, c.m21 * b.m10, c.m22 * b.m20, a.t0);
    lemma_distrib3(c.m20 * b.m01, c.m21 * b.m11, c.m22 * b.m21, a.t1);
    lemma_distrib3(c.m20 * b.m02, c.m21 * b.m12, c.m22 * b.m22, a.t2);
    lemma_distrib4(c.m20 * b.t0, c.m21 * b.t1, c.m22 * b.t2, c.t2 * b.d, a.d);
    lemma_mul_assoc(c.m20, b.m00, a.t0);
    lemma_mul_assoc(c.m20, b.m01, a.t1);
    lemma_mul_assoc(c.m20, b.m02, a.t2);
    lemma_mul_assoc(c.m21, b.m10, a.t0);
    lemma_mul_assoc(c.m21, b.m11, a.t1);
    lemma_mul_assoc(c.m21, b.m12, a.t2);
    lemma_mul_assoc(c.m22, b.m20, a.t0);
    lemma_mul_assoc(c.m22, b.m21, a.t1);
    lemma_mul_assoc(c.m22, b.m22, a.t2);
    lemma_mul_assoc(c.m20, b.t0, a.d);
    lemma_mul_assoc(c.m21, b.t1, a.d);
    lemma_mul_assoc(c.m22, b.t2, a.d);
    lemma_mul_assoc(c.t2, b.d, a.d);
    lemma_mul_assoc(c.d, b.d, a.d);
}

/// Models that denote the same map send every point to the same
/// position, and every free vector to the same vector.
pub proof fn lemma_apply_respects_eq(a: AffModel, b: AffModel, p: SVec)
    requires
        aff_wf(a),
        aff_wf(b),
        svec_wf(p),
        aff_eq(a, b),
    ensures
        svec_eq(aff_apply_pt(a, p), aff_apply_pt(b, p)),
        svec_eq(aff_apply_vec(a, p), aff_apply_vec(b, p)),
{
    lemma_sum4_cross(
        a.m00, a.m01, a.m02, a.t0, p.x, p.y, p.z, p.d,
        b.m00, b.m01, b.m02, b.t0, p.x, p.y, p.z, p.d,
        b.d, a.d, p.d, p.d,
    );
    lemma_sum3_cross(
        a.m00, a.m01, a.m02, p.x, p.y, p.z,
        b.m00, b.m01, b.m02, p.x, p.y, p.z,
        b.d, a.d, p.d, p.d,
    );
    lemma_sum4_cross(
        a.m10, a.m11, a.m12, a.t1, p.x, p.y, p.z, p.d,
        b.m10, b.m11, b.m12, b.t1, p.x, p.y, p.z, p.d,
        b.d, a.d, p.d, p.d,
    );
    lemma_sum3_cross(
        a.m10, a.m11, a.m12, p.x, p.y, p.z,
        b.m10, b.m11, b.m12, p.x, p.y, p.z,
        b.d, a.d, p.d, p.d,
    );
    lemma_sum4_cross(
        a.m20, a.m21, a.m22, a.t2, p.x, p.y, p.z, p.d,
        b.m20, b.m21, b.m22, b.t2, p.x, p.y, p.z, p.d,
        b.d, a.d, p.d, p.d,
    );
    lemma_sum3_cross(
        a.m20, a.m21, a.m22, p.x, p.y, p.z,
        b.m20, b.m21, b.m22, p.x, p.y, p.z,
        b.d, a.d, p.d, p.d,
    );
}

/// Composition respects denoting the same map, in both arguments.
pub proof fn lemma_compose_respects_eq(a1: AffModel, a2: AffModel, b1: AffModel, b2: AffModel)
    requires
        aff_wf(a1),
        aff_wf(a2),
        aff_wf(b1),
        aff_wf(b2),
        aff_eq(a1, a2),
        aff_eq(b1, b2),
    ensures
        aff_eq(aff_compose(a1, b1), aff_compose(a2, b2)),
{
    lemma_mul_comm(a1.d, a2.d);
    lemma_sum3_cross(
        b1.m00, b1.m01, b1.m02, a1.m00, a1.m10, a1.m20,
        b2.m00, b2.m01, b2.m02, a2.m00, a2.m10, a2.m20,
        b2.d, b1.d, a2.d, a1.d,
    );
    lemma_sum3_cross(
        b1.m00, b1.m01, b1.m02, a1.m01, a1.m11, a1.m21,
        b2.m00, b2.m01, b2.m02, a2.m01, a2.m11, a2.m21,
        b2.d, b1.d, a2.d, a1.d,
    );
    lemma_sum3_cross(
        b1.m00, b1.m01, b1.m02, a1.m02, a1.m12, a1.m22,
        b2.m00, b2.m01, b2.m02, a2.m02, a2.m12, a2.m22,
        b2.d, b1.d, a2.d, a1.d,
    );
    lemma_sum3_cross(
        b1.m10, b1.m11, b1.m12, a1.m00, a1.m10, a1.m20,
        b2.m10, b2.m11, b2.m12, a2.m00, a2.m10, a2.m20,
        b2.d, b1.d, a2.d, a1.d,
    );
    lemma_sum3_cross(
        b1.m10, b1.m11, b1.m12, a1.m01, a1.m11, a1.m21,
        b2.m10, b2.m11, b2.m12, a2.m01, a2.m11, a2.m21,
        b2.d, b1.d, a2.d, a1.d,
    );
    lemma_sum3_cross(
        b1.m10, b1.m11, b1.m12, a1.m02, a1.m12, a1.m22,
        b2.m10, b2.m11, b2.m12, a2.m02, a2.m12, a2.m22,
        b2.d, b1.d, a2.d, a1.d,
    );
    lemma_sum3_cross(
        b1.m20, b1.m21, b1.m22, a1.m00, a1.m10, a1.m20,
        b2.m20, b2.m21, b2.m22, a2.m00, a2.m10, a2.m20,
        b2.d, b1.d, a2.d, a1.d,
    );
    lemma_sum3_cross(
        b1.m20, b1.m21, b1.m22, a1.m01, a1.m11, a1.m21,
        b2.m20, b2.m21, b2.m22, a2.m01, a2.m11, a2.m21,
        b2.d, b1.d, a2.d, a1.d,
    );
    lemma_sum3_cross(
        b1.m20, b1.m21, b1.m22, a1.m02, a1.m12, a1.m22,
        b2.m20, b2.m21, b2.m22, a2.m02, a2.m12, a2.m22,
        b2.d, b1.d, a2.d, a1.d,
    );
    lemma_sum4_cross(
        b1.m00, b1.m01, b1.m02, b1.t0, a1.t0, a1.t1, a1.t2, a1.d,
        b2.m00, b2.m01, b2.m02, b2.t0, a2.t0, a2.t1, a2.t2, a2.d,
        b2.d, b1.d, a2.d, a1.d,
    );
    lemma_sum4_cross(
        b1.m10, b1.m11, b1.m12, b1.t1, a1.t0, a1.t1, a1.t2, a1.d,
        b2.m10, b2.m11, b2.m12, b2.t1, a2.t0, a2.t1, a2.t2, a2.d,
        b2.d, b1.d, a2.d, a1.d,
    );
    lemma_sum4_cross(
        b1.m20, b1.m21, b1.m22, b1.t2, a1.t0, a1.t1, a1.t2, a1.d,
        b2.m20, b2.m21, b2.m22, b2.t2, a2.t0, a2.t1, a2.t2, a2.d,
        b2.d, b1.d, a2.d, a1.d,
    );
}

/// A map equivalent to the identity leaves every point and every free
/// vector in place.
pub proof fn lemma_apply_eq_id(m: AffModel, p: SVec)
    requires
        aff_wf(m),
        svec_wf(p),
        aff_eq(m, aff_id()),
    ensures
        svec_eq(aff_apply_pt(m, p), p),
        svec_eq(aff_apply_vec(m, p), p),
{
    lemma_apply_respects_eq(m, aff_id(), p);
    lemma_apply_pt_id(p);
}

/// What tells a point from a free vector: under any map, the image of a
/// position differs from the image of the same triple taken as a free
/// vector by exactly the map's translation.
pub proof fn lemma_point_vector_translation(m: AffModel, v: SVec)
    requires
        aff_wf(m),
        svec_wf(v),
    ensures
        svec_eq(svec_sub(aff_apply_pt(m, v), aff_apply_vec(m, v)), aff_translation(m)),
{
    lemma_distrib4(m.m00 * v.x, m.m01 * v.y, m.m02 * v.z, m.t0 * v.d, m.d * v.d);
    lemma_distrib3(m.m00 * v.x, m.m01 * v.y, m.m02 * v.z, m.d * v.d);
    assert(((m.t0 * v.d) * (m.d * v.d)) * m.d == m.t0 * ((m.d * v.d) * (m.d * v.d)))
        by (nonlinear_arith);
    lemma_distrib4(m.m10 * v.x, m.m11 * v.y, m.m12 * v.z, m.t1 * v.d, m.d * v.d);
    lemma_distrib3(m.m10 * v.x, m.m11 * v.y, m.m12 * v.z, m.d * v.d);
    assert(((m.t1 * v.d) * (m.d * v.d)) * m.d == m.t1 * ((m.d * v.d) * (m.d * v.d)))
        by (nonlinear_arith);
    lemma_distrib4(m.m20 * v.x, m.m21 * v.y, m.m22 * v.z, m.t2 * v.d, m.d * v.d);
    lemma_distrib3(m.m20 * v.x, m.m21 * v.y, m.m22 * v.z, m.d * v.d);
    assert(((m.t2 * v.d) * (m.d * v.d)) * m.d == m.t2 * ((m.d * v.d) * (m.d * v.d)))
        by (nonlinear_arith);
}
/// The inverse law: a map whose composition with `m` denotes the
/// identity sends every image of `m` back to its original point.
pub proof fn lemma_inverse_application(m: AffModel, mi: AffModel, p: SVec)
    requires
        aff_wf(m),
        aff_wf(mi),
        svec_wf(p),
        aff_eq(aff_compose(m, mi), aff_id()),
    ensures
        svec_eq(aff_apply_pt(mi, aff_apply_pt(m, p)), p),
{
    assert(mi.d * m.d > 0) by (nonlinear_arith)
        requires m.d > 0 && mi.d > 0;
    lemma_apply_pt_compose(m, mi, p);
    lemma_apply_eq_id(aff_compose(m, mi), p);
}

} // verus!
