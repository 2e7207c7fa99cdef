//! Distances told by coordinates alone.
use crate::world::{square, Vec2};
use vstd::prelude::*;

verus! {

/// Squared raw distance between two positions.
#[verifier::opaque]
pub open spec fn apart(left: Vec2, right: Vec2) -> int {
    (left.x.raw - right.x.raw) * (left.x.raw - right.x.raw) + (left.y.raw - right.y.raw) * (
    left.y.raw - right.y.raw)
}

/// Whether two positions are at most a raw distance apart.
#[verifier::opaque]
pub open spec fn near(left: Vec2, right: Vec2, radius: int) -> bool {
    apart(left, right) <= radius * radius
}

pub proof fn lemma_distance(left: Vec2, right: Vec2)
    ensures
        left.distance2(right) == apart(left, right),
        0 <= apart(left, right) <= 0x2_0000_0000_0000_0000,
        left.distance2(right) as i128 == apart(left, right),
{
    reveal(apart);
    let x = left.x.raw - right.x.raw;
    let y = left.y.raw - right.y.raw;
    assert(0 <= x * x <= 0x1_0000_0000_0000_0000) by (nonlinear_arith)
        requires
            -0x1_0000_0000 <= x <= 0x1_0000_0000,
    ;
    assert(0 <= y * y <= 0x1_0000_0000_0000_0000) by (nonlinear_arith)
        requires
            -0x1_0000_0000 <= y <= 0x1_0000_0000,
    ;
}

pub proof fn lemma_near(left: Vec2, right: Vec2, radius: int)
    ensures
        (left.distance2(right) <= square(radius)) == near(left, right, radius),
{
    lemma_distance(left, right);
    reveal(near);
}

/// Distance tells the same both ways, is zero only from a place to itself, and is the square sum
/// of the differences of the coordinates.
pub proof fn distances_are_euclidean(left: Vec2, right: Vec2)
    ensures
        left.distance2(right) == (left.x.raw - right.x.raw) * (left.x.raw - right.x.raw) + (
        left.y.raw - right.y.raw) * (left.y.raw - right.y.raw),
        left.distance2(right) == right.distance2(left),
        left.distance2(right) == 0 <==> left == right,
{
    let x = left.x.raw - right.x.raw;
    let y = left.y.raw - right.y.raw;
    assert(x * x == (-x) * (-x)) by (nonlinear_arith);
    assert(y * y == (-y) * (-y)) by (nonlinear_arith);
    assert(x * x >= 0 && (x * x == 0 <==> x == 0)) by (nonlinear_arith);
    assert(y * y >= 0 && (y * y == 0 <==> y == 0)) by (nonlinear_arith);
}

} // verus!
