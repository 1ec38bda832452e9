//! Integer 3-vectors: the storage form (`Vec3`, bounded machine integers),
//! the force accumulator form (`Force3`, wide machine integers), and the
//! mathematical form (`Vec3g`, unbounded integers) that contracts speak of.

use crate::math::clamp;
use vstd::prelude::*;

verus! {

/// A 3-vector of exact integer coordinates, in caller-chosen units.
#[derive(Clone, Copy, Debug, PartialEq, Eq, Structural)]
pub struct Vec3 {
    pub x: i64,
    pub y: i64,
    pub z: i64,
}

/// A 3-vector with room for force accumulation, which can exceed the
/// coordinate range.
#[derive(Clone, Copy, Debug, PartialEq, Eq, Structural)]
pub struct Force3 {
    pub x: i128,
    pub y: i128,
    pub z: i128,
}

/// The mathematical value of a 3-vector: unbounded integer components.
pub struct Vec3g {
    pub x: int,
    pub y: int,
    pub z: int,
}

impl View for Vec3 {
    type V = Vec3g;

    open spec fn view(&self) -> Vec3g {
        Vec3g { x: self.x as int, y: self.y as int, z: self.z as int }
    }
}

impl View for Force3 {
    type V = Vec3g;

    open spec fn view(&self) -> Vec3g {
        Vec3g { x: self.x as int, y: self.y as int, z: self.z as int }
    }
}

impl Vec3 {
    /// The zero vector.
    pub fn zero() -> (r: Vec3)
        ensures
            r@ == v3_zero(),
    {
        Vec3 { x: 0, y: 0, z: 0 }
    }
}

pub open spec fn v3(x: int, y: int, z: int) -> Vec3g {
    Vec3g { x, y, z }
}

pub open spec fn v3_zero() -> Vec3g {
    v3(0, 0, 0)
}

pub open spec fn v3_add(a: Vec3g, b: Vec3g) -> Vec3g {
    v3(a.x + b.x, a.y + b.y, a.z + b.z)
}

pub open spec fn v3_sub(a: Vec3g, b: Vec3g) -> Vec3g {
    v3(a.x - b.x, a.y - b.y, a.z - b.z)
}

pub open spec fn v3_neg(a: Vec3g) -> Vec3g {
    v3(-a.x, -a.y, -a.z)
}

pub open spec fn v3_scale(a: Vec3g, k: int) -> Vec3g {
    v3(a.x * k, a.y * k, a.z * k)
}

/// The squared Euclidean length.
pub open spec fn norm_sq(a: Vec3g) -> int {
    a.x * a.x + a.y * a.y + a.z * a.z
}

/// Every component within `[-limit, limit]`.
pub open spec fn v3_in_range(a: Vec3g, limit: int) -> bool {
    &&& -limit <= a.x <= limit
    &&& -limit <= a.y <= limit
    &&& -limit <= a.z <= limit
}

/// Componentwise clamp into `[-limit, limit]`.
pub open spec fn v3_clamp(a: Vec3g, limit: int) -> Vec3g {
    v3(clamp(a.x, limit), clamp(a.y, limit), clamp(a.z, limit))
}

/// A squared length is never negative.
pub proof fn lemma_norm_sq_nonneg(a: Vec3g)
    ensures
        norm_sq(a) >= 0,
{
    assert(a.x * a.x >= 0) by (nonlinear_arith);
    assert(a.y * a.y >= 0) by (nonlinear_arith);
    assert(a.z * a.z >= 0) by (nonlinear_arith);
}

/// Reversing a difference keeps the squared length.
pub proof fn lemma_norm_sq_sub_symmetric(a: Vec3g, b: Vec3g)
    ensures
        norm_sq(v3_sub(b, a)) == norm_sq(v3_sub(a, b)),
{
    let d = v3_sub(b, a);
    let e = v3_sub(a, b);
    assert(d.x * d.x == e.x * e.x) by (nonlinear_arith)
        requires d.x == -e.x;
    assert(d.y * d.y == e.y * e.y) by (nonlinear_arith)
        requires d.y == -e.y;
    assert(d.z * d.z == e.z * e.z) by (nonlinear_arith)
        requires d.z == -e.z;
}

/// A component never exceeds the whole squared length's root bound:
/// `|a.x|^2 <= norm_sq(a)`, and likewise for the other components.
pub proof fn lemma_component_sq_le_norm_sq(a: Vec3g)
    ensures
        a.x * a.x <= norm_sq(a),
        a.y * a.y <= norm_sq(a),
        a.z * a.z <= norm_sq(a),
{
    assert(a.x * a.x >= 0) by (nonlinear_arith);
    assert(a.y * a.y >= 0) by (nonlinear_arith);
    assert(a.z * a.z >= 0) by (nonlinear_arith);
}

} // verus!
