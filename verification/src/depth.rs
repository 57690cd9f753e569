//! Exact depth values and the secondary ("y-sort") ordering key.
//!
//! A depth is the rational number `base + num / den` with `0 <= num < den`,
//! so it always lies in the half-open interval `[base, base + 1)`. The whole
//! part `base` comes from the object's layer; the fractional part `num / den`
//! encodes the object's rank within the y-sorted order. Keeping the value as
//! an exact rational (instead of rounding it to a machine float) makes the
//! ordering properties of the engine exact as well.

use vstd::prelude::*;

verus! {

/// The depth an object's transform receives at render time: the exact
/// rational `base + num / den`.
#[derive(Clone, Copy, Debug, PartialEq, Eq, Structural)]
pub struct RenderZCoordinate {
    /// Whole part: the z-coordinate of the object's resolved layer.
    pub base: i64,
    /// Numerator of the fractional part: the object's y-sort rank.
    pub num: usize,
    /// Denominator of the fractional part: the number of objects sorted.
    pub den: usize,
}

impl RenderZCoordinate {
    /// A depth is well formed when its fractional part lies in `[0, 1)`.
    pub open spec fn wf(self) -> bool {
        1 <= self.den && self.num < self.den
    }

    /// The depth scaled by its own denominator: `base * den + num`.
    /// Two depths `a` and `b` compare as `a.scaled() * b.den` against
    /// `b.scaled() * a.den` (cross-multiplication of rationals).
    pub open spec fn scaled(self) -> int {
        self.base * self.den + self.num
    }

    /// The neutral baseline written to objects that stop participating.
    pub fn neutral() -> (z: Self)
        ensures
            z == (RenderZCoordinate { base: 0, num: 0, den: 1 }),
            z.wf(),
    {
        RenderZCoordinate { base: 0, num: 0, den: 1 }
    }

    /// The whole part of the depth; since the fractional part lies in
    /// `[0, 1)`, this is the depth rounded down to an integer.
    pub fn floor(&self) -> (z: i64)
        requires
            self.wf(),
        ensures
            z == self.base,
    {
        self.base
    }

    /// Strict numeric comparison of two depths as rationals.
    pub fn lt(&self, other: &Self) -> (r: bool)
        requires
            self.wf(),
            other.wf(),
        ensures
            r == z_lt(*self, *other),
    {
        if self.base != other.base {
            proof {
                lemma_z_lt_by_base(*self, *other);
            }
            self.base < other.base
        } else {
            proof {
                lemma_z_lt_same_base(*self, *other);
                assert(self.num * other.den < 0x1_0000_0000_0000_0000_0000_0000_0000_0000
                    && other.num * self.den < 0x1_0000_0000_0000_0000_0000_0000_0000_0000)
                    by (nonlinear_arith)
                    requires
                        0 <= self.num < 0x1_0000_0000_0000_0000,
                        0 <= self.den < 0x1_0000_0000_0000_0000,
                        0 <= other.num < 0x1_0000_0000_0000_0000,
                        0 <= other.den < 0x1_0000_0000_0000_0000,
                {}
            }
            (self.num as u128) * (other.den as u128) < (other.num as u128) * (self.den as u128)
        }
    }
}

/// `a` is strictly below `b` as a rational number:
/// `a.base + a.num / a.den < b.base + b.num / b.den`, stated by
/// cross-multiplying with the (positive) denominators.
pub open spec fn z_lt(a: RenderZCoordinate, b: RenderZCoordinate) -> bool {
    a.scaled() * b.den < b.scaled() * a.den
}

/// For well-formed depths with distinct whole parts, the numeric order is
/// the order of the whole parts: the fractional parts cannot bridge a gap
/// of one or more between the bases.
pub proof fn lemma_z_lt_by_base(a: RenderZCoordinate, b: RenderZCoordinate)
    requires
        a.wf(),
        b.wf(),
        a.base != b.base,
    ensures
        z_lt(a, b) == (a.base < b.base),
{
    if a.base < b.base {
        assert(a.scaled() * b.den < b.scaled() * a.den) by (nonlinear_arith)
            requires
                a.scaled() == a.base * a.den + a.num,
                b.scaled() == b.base * b.den + b.num,
                a.base + 1 <= b.base,
                1 <= a.den,
                1 <= b.den,
                0 <= a.num < a.den,
                0 <= b.num < b.den,
        {}
    } else {
        assert(b.scaled() * a.den < a.scaled() * b.den) by (nonlinear_arith)
            requires
                a.scaled() == a.base * a.den + a.num,
                b.scaled() == b.base * b.den + b.num,
                b.base + 1 <= a.base,
                1 <= a.den,
                1 <= b.den,
                0 <= a.num < a.den,
                0 <= b.num < b.den,
        {}
    }
}

/// For well-formed depths with equal whole parts, the numeric order is the
/// order of the fractional parts, again by cross-multiplication.
pub proof fn lemma_z_lt_same_base(a: RenderZCoordinate, b: RenderZCoordinate)
    requires
        a.wf(),
        b.wf(),
        a.base == b.base,
    ensures
        z_lt(a, b) == (a.num * b.den < b.num * a.den),
{
    assert((a.scaled() * b.den < b.scaled() * a.den) == (a.num * b.den < b.num * a.den))
        by (nonlinear_arith)
        requires
            a.scaled() == a.base * a.den + a.num,
            b.scaled() == b.base * b.den + b.num,
            a.base == b.base,
            1 <= a.den,
            1 <= b.den,
    {}
}

/// The key by which objects within a layer are ordered. The order is
/// *reversed* with respect to the vertical position: the convention is that
/// the positive y axis points up the screen, and an object lower on the
/// screen (smaller `y`) must be drawn in front (larger depth), so it sorts
/// *later*. This convention is fixed; callers that need the opposite order
/// must negate their positions.
#[derive(Clone, Copy, Debug, PartialEq, Eq, Structural)]
pub struct ZIndexSortKey {
    /// The object's vertical position, as a totally ordered integer key.
    pub y: i64,
}

impl ZIndexSortKey {
    /// Wraps a vertical position. Objects without a position use the
    /// default position `0` rather than being excluded from the sort.
    pub fn new(y: i64) -> (k: Self)
        ensures
            k == (ZIndexSortKey { y }),
    {
        ZIndexSortKey { y }
    }

    /// `self` sorts strictly before `other`: *higher* positions come first,
    /// so that ascending rank order is descending position order.
    pub open spec fn precedes(self, other: Self) -> bool {
        self.y > other.y
    }

    /// Executable form of [`ZIndexSortKey::precedes`].
    pub fn sorts_before(&self, other: &Self) -> (r: bool)
        ensures
            r == self.precedes(*other),
    {
        self.y > other.y
    }
}

} // verus!
