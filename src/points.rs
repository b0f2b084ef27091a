use vstd::prelude::*;

use crate::scalar::quot_toward_zero;

verus! {

/// A point with two 64-bit coordinates, with coordinate-wise operators.
#[derive(Clone, Copy, Debug, PartialEq, Eq, Structural)]
pub struct Punto {
    pub x: i64,
    pub y: i64,
}

/// Whether `v` fits in an `i64`.
pub open spec fn fits_i64(v: int) -> bool {
    i64::MIN <= v <= i64::MAX
}

/// Signed 64-bit division rounded toward zero.
pub fn quotient(a: i64, b: i64) -> (r: i64)
    requires
        b != 0,
        !(a == i64::MIN && b == -1),
    ensures
        r == quot_toward_zero(a as int, b as int),
{
    let ua: u64 = if a < 0 { (-(a as i128)) as u64 } else { a as u64 };
    let ub: u64 = if b < 0 { (-(b as i128)) as u64 } else { b as u64 };
    let q: u64 = ua / ub;
    proof {
        let (x, y) = (ua as int, ub as int);
        assert(0 <= x / y <= x) by (nonlinear_arith)
            requires
                x >= 0,
                y >= 1,
        ;
        if y >= 2 {
            assert(x / y <= x / 2) by (nonlinear_arith)
                requires
                    x >= 0,
                    y >= 2,
            ;
        }
    }
    if (a < 0) == (b < 0) {
        q as i64
    } else {
        (-(q as i128)) as i64
    }
}

impl Punto {
    /// Coordinate-wise sum.
    pub fn add(self, other: Punto) -> (r: Punto)
        requires
            fits_i64(self.x + other.x),
            fits_i64(self.y + other.y),
        ensures
            r.x == self.x + other.x,
            r.y == self.y + other.y,
    {
        Punto { x: self.x + other.x, y: self.y + other.y }
    }

    /// Coordinate-wise difference.
    pub fn sub(self, other: Punto) -> (r: Punto)
        requires
            fits_i64(self.x - other.x),
            fits_i64(self.y - other.y),
        ensures
            r.x == self.x - other.x,
            r.y == self.y - other.y,
    {
        Punto { x: self.x - other.x, y: self.y - other.y }
    }

    /// Coordinate-wise quotient, rounded toward zero.
    pub fn div(self, other: Punto) -> (r: Punto)
        requires
            other.x != 0,
            other.y != 0,
            !(self.x == i64::MIN && other.x == -1),
            !(self.y == i64::MIN && other.y == -1),
        ensures
            r.x == quot_toward_zero(self.x as int, other.x as int),
            r.y == quot_toward_zero(self.y as int, other.y as int),
    {
        Punto { x: quotient(self.x, other.x), y: quotient(self.y, other.y) }
    }
}

/// The plain-function form of subtraction of points.
pub fn restar(a: Punto, b: Punto) -> (r: Punto)
    requires
        fits_i64(a.x - b.x),
        fits_i64(a.y - b.y),
    ensures
        r.x == a.x - b.x,
        r.y == a.y - b.y,
{
    Punto { x: a.x - b.x, y: a.y - b.y }
}

/// Swaps 10 and 20 through a temporary and returns them in their new order.
pub fn hola() -> (r: [i64; 2])
    ensures
        r@ == seq![20i64, 10i64],
{
    let mut a: i64 = 10;
    let mut b: i64 = 20;
    let tmp: i64 = a;
    a = b;
    b = tmp;
    [a, b]
}

/// The minimum and the maximum of 30 and 12, in that order.
pub fn build() -> (r: [i64; 2])
    ensures
        r@ == seq![12i64, 30i64],
{
    let a: i64 = 30;
    let b: i64 = 12;
    let mut min: i64 = a;
    let mut max: i64 = a;
    if b < a {
        min = b;
    } else {
        max = b;
    }
    [min, max]
}

} // verus!
