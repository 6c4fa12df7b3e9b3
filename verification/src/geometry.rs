//! Exact fixed-point lengths and the two-dimensional values built from them.
//!
//! Every length, offset and margin is a [`Scalar`]: a whole number of
//! thousandths of a unit. Sums and differences saturate at the ends of the
//! representable range instead of wrapping.
use vstd::prelude::*;

verus! {

/// A length in thousandths of a unit.
pub type Scalar = i64;

/// How many `Scalar` steps make up one unit.
pub const SCALE: i64 = 1000;

/// A size or displacement.
#[derive(Clone, Copy, Debug, PartialEq, Eq, Structural)]
pub struct Vector2 {
    pub x: Scalar,
    pub y: Scalar,
}

/// A location.
#[derive(Clone, Copy, Debug, PartialEq, Eq, Structural)]
pub struct Point2 {
    pub x: Scalar,
    pub y: Scalar,
}

/// `v` limited to the range of a `Scalar`.
pub open spec fn clamp(v: int) -> int {
    if v < i64::MIN {
        i64::MIN as int
    } else if v > i64::MAX {
        i64::MAX as int
    } else {
        v
    }
}

/// The exact sum where it is representable, else the nearest end of the range.
pub fn plus(a: Scalar, b: Scalar) -> (r: Scalar)
    ensures
        r == clamp(a + b),
{
    match a.checked_add(b) {
        Some(sum) => sum,
        None => if a < 0 {
            i64::MIN
        } else {
            i64::MAX
        },
    }
}

/// The exact difference where it is representable, else the nearest end of the range.
pub fn minus(a: Scalar, b: Scalar) -> (r: Scalar)
    ensures
        r == clamp(a - b),
{
    match a.checked_sub(b) {
        Some(difference) => difference,
        None => if a < 0 {
            i64::MIN
        } else {
            i64::MAX
        },
    }
}

/// The larger of two lengths.
pub fn larger(a: Scalar, b: Scalar) -> (r: Scalar)
    ensures
        r == if a >= b { a } else { b },
{
    if a >= b {
        a
    } else {
        b
    }
}

/// Half of `v`, rounded down.
pub fn half(v: Scalar) -> (r: Scalar)
    ensures
        r == v / 2,
{
    if v >= 0 {
        v / 2
    } else {
        let up: i64 = (v + 1) / 2;
        up - 1
    }
}

impl Vector2 {
    pub fn new(x: Scalar, y: Scalar) -> (v: Vector2)
        ensures
            v == (Vector2 { x, y }),
    {
        Vector2 { x, y }
    }
}

impl Point2 {
    pub fn new(x: Scalar, y: Scalar) -> (p: Point2)
        ensures
            p == (Point2 { x, y }),
    {
        Point2 { x, y }
    }

    /// The point displaced by `by`, each axis saturating on its own.
    pub fn offset(self, by: Vector2) -> (p: Point2)
        ensures
            p.x == clamp(self.x + by.x),
            p.y == clamp(self.y + by.y),
    {
        Point2 { x: plus(self.x, by.x), y: plus(self.y, by.y) }
    }
}

} // verus!
