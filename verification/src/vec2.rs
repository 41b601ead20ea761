//! Plane vectors with fixed-point coordinates.

use vstd::prelude::*;

use crate::fx::{fx_mul, fx_mul_spec, FX_ONE};

verus! {

/// A plane vector; both coordinates are fixed-point values.
#[derive(Clone, Copy, Debug, PartialEq, Eq, Structural)]
pub struct Vec2 {
    pub x: i64,
    pub y: i64,
}

/// The dot product of two vectors.
pub open spec fn dot_spec(ax: int, ay: int, bx: int, by: int) -> int {
    fx_mul_spec(ax, bx) + fx_mul_spec(ay, by)
}

pub fn dot(a: Vec2, b: Vec2) -> (r: i64)
    requires
        -0x400_0000_0000 <= a.x <= 0x400_0000_0000,
        -0x400_0000_0000 <= a.y <= 0x400_0000_0000,
        -0x4_0000 <= b.x <= 0x4_0000,
        -0x4_0000 <= b.y <= 0x4_0000,
    ensures
        r == dot_spec(a.x as int, a.y as int, b.x as int, b.y as int),
        -0x2000_0000_0000 <= r <= 0x2000_0000_0000,
{
    proof {
        assert(-0x4000_0000_0000_0000 <= a.x as int * b.x as int <= 0x4000_0000_0000_0000) by (nonlinear_arith)
            requires -0x400_0000_0000 <= a.x as int <= 0x400_0000_0000,
                -0x4_0000 <= b.x as int <= 0x4_0000;
        assert(-0x4000_0000_0000_0000 <= a.y as int * b.y as int <= 0x4000_0000_0000_0000) by (nonlinear_arith)
            requires -0x400_0000_0000 <= a.y as int <= 0x400_0000_0000,
                -0x4_0000 <= b.y as int <= 0x4_0000;
    }
    let px: i64 = fx_mul(a.x, b.x);
    let py: i64 = fx_mul(a.y, b.y);
    proof {
        lemma_fx_mul_abs_bound(a.x as int, b.x as int, 0x400_0000_0000, 0x4_0000);
        lemma_fx_mul_abs_bound(a.y as int, b.y as int, 0x400_0000_0000, 0x4_0000);
        assert((0x400_0000_0000 as int * 0x4_0000) / (FX_ONE as int) == 0x1000_0000_0000) by (nonlinear_arith);
    }
    px + py
}

/// The product stays within the scaled product of the operands' bounds.
pub proof fn lemma_fx_mul_abs_bound(a: int, b: int, ca: int, cb: int)
    requires
        -ca <= a <= ca,
        -cb <= b <= cb,
        0 <= ca,
        0 <= cb,
    ensures
        -(ca * cb) / (FX_ONE as int) <= fx_mul_spec(a, b) <= (ca * cb) / (FX_ONE as int),
{
    assert(-(ca * cb) <= a * b <= ca * cb) by (nonlinear_arith)
        requires -ca <= a <= ca, -cb <= b <= cb, 0 <= ca, 0 <= cb;
    if a * b >= 0 {
        assert((a * b) / 65536 <= (ca * cb) / 65536) by (nonlinear_arith)
            requires a * b <= ca * cb;
        assert(0 <= (ca * cb) / 65536) by (nonlinear_arith)
            requires 0 <= ca * cb;
    } else {
        assert((-(a * b)) / 65536 <= (ca * cb) / 65536) by (nonlinear_arith)
            requires -(a * b) <= ca * cb;
        assert(0 <= (ca * cb) / 65536) by (nonlinear_arith)
            requires 0 <= ca * cb;
    }
}

/// Rotating a vector by a quarter turn clockwise.
pub fn rotate_cw(v: Vec2) -> (r: Vec2)
    requires
        -0x7FFF_FFFF_FFFF_FFFF <= v.x,
    ensures
        r.x == v.y,
        r.y == -v.x,
{
    Vec2 { x: v.y, y: -v.x }
}

} // verus!
