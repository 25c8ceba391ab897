//! Geometry primitives: 2D vectors and axis-aligned rectangles over
//! fixed-point integer coordinates.
//!
//! One world pixel is `UNIT` coordinate steps, so fractional speeds such as
//! three tenths of a pixel per tick are exact integers.  Every stored
//! coordinate is kept within `[-LIMIT, LIMIT]`, which makes all the
//! arithmetic below provably free of overflow.

use vstd::prelude::*;

verus! {

/// Fixed-point scale: coordinate steps per world pixel.
pub const UNIT: i64 = 1000;

/// Magnitude bound on every stored coordinate, extent, velocity and stat.
pub const LIMIT: i64 = 0x4000_0000;

/// Absolute value of a mathematical integer.
pub open spec fn iabs(v: int) -> int {
    if v < 0 {
        -v
    } else {
        v
    }
}

/// A scalar that the store may hold: bounded so sums and doubled sums of a
/// few of them always fit in `i64`.
pub open spec fn in_range(v: i64) -> bool {
    -LIMIT <= v <= LIMIT
}

/// Saturate an arbitrary integer into the storable range.
pub open spec fn spec_clamp(v: int) -> i64 {
    if v < -LIMIT {
        (-LIMIT) as i64
    } else if v > LIMIT {
        LIMIT
    } else {
        v as i64
    }
}

/// Saturating write of a computed coordinate back into the storable range.
pub fn clamp_coord(v: i64) -> (r: i64)
    ensures
        r == spec_clamp(v as int),
{
    if v < -LIMIT {
        -LIMIT
    } else if v > LIMIT {
        LIMIT
    } else {
        v
    }
}

#[derive(Clone, Copy, PartialEq, Eq, Structural, Debug)]
pub struct Vector2 {
    pub x: i64,
    pub y: i64,
}

#[derive(Clone, Copy, PartialEq, Eq, Structural, Debug)]
pub struct Rect {
    pub x: i64,
    pub y: i64,
    pub width: i64,
    pub height: i64,
}

/// Floor of the square root of a non-negative integer, built up one step
/// at a time.
pub open spec fn spec_isqrt(n: int) -> int
    decreases n,
{
    if n <= 0 {
        0
    } else {
        let r = spec_isqrt(n - 1);
        if (r + 1) * (r + 1) <= n {
            r + 1
        } else {
            r
        }
    }
}

/// `r` is the floor of the square root of `n`.
pub open spec fn is_isqrt(n: int, r: int) -> bool {
    0 <= r && r * r <= n && n < (r + 1) * (r + 1)
}

pub proof fn lemma_isqrt_bounds(n: int)
    requires
        n >= 0,
    ensures
        is_isqrt(n, spec_isqrt(n)),
    decreases n,
{
    if n == 0 {
    } else {
        lemma_isqrt_bounds(n - 1);
        let r = spec_isqrt(n - 1);
        if (r + 1) * (r + 1) <= n {
            assert((r + 2) * (r + 2) > n) by (nonlinear_arith)
                requires
                    r >= 0,
                    n - 1 < (r + 1) * (r + 1),
                    (r + 1) * (r + 1) <= n,
            ;
        }
    }
}

/// The floor of the square root is unique.
pub proof fn lemma_isqrt_unique(n: int, a: int, b: int)
    requires
        is_isqrt(n, a),
        is_isqrt(n, b),
    ensures
        a == b,
{
    assert(a == b) by (nonlinear_arith)
        requires
            0 <= a && a * a <= n && n < (a + 1) * (a + 1),
            0 <= b && b * b <= n && n < (b + 1) * (b + 1),
    ;
}

/// Floor of the square root, by binary search.
pub fn isqrt64(n: u64) -> (r: u64)
    requires
        n <= 0x4000_0000_0000_0000,
    ensures
        r as int == spec_isqrt(n as int),
        is_isqrt(n as int, r as int),
{
    proof {
        lemma_isqrt_bounds(n as int);
    }
    let mut lo: u64 = 0;
    let mut hi: u64 = 0x8000_0000;
    assert((hi + 1) * (hi + 1) > n) by (nonlinear_arith)
        requires
            hi == 0x8000_0000u64 && n <= 0x4000_0000_0000_0000,
    ;
    while lo < hi
        invariant
            lo <= hi <= 0x8000_0000,
            lo * lo <= n,
            n < (hi + 1) * (hi + 1),
        decreases hi - lo,
    {
        let mid = lo + (hi - lo + 1) / 2;
        assert(lo < mid <= hi);
        assert(mid * mid <= 0x4000_0000_0000_0000) by (nonlinear_arith)
            requires
                0 <= mid <= 0x8000_0000u64,
        ;
        if mid * mid <= n {
            lo = mid;
        } else {
            hi = mid - 1;
        }
    }
    proof {
        lemma_isqrt_unique(n as int, lo as int, spec_isqrt(n as int));
    }
    lo
}

/// The square root floor of a sum of squares is at least each summand's
/// magnitude.
pub proof fn lemma_isqrt_ge_component(a: int, b: int, m: int)
    requires
        a >= 0,
        b >= 0,
        is_isqrt(a * a + b * b, m),
    ensures
        m >= a,
        m >= b,
{
    assert(m >= a && m >= b) by (nonlinear_arith)
        requires
            a >= 0,
            b >= 0,
            0 <= m,
            a * a + b * b < (m + 1) * (m + 1),
    ;
}

impl Vector2 {
    /// Both components storable.
    pub open spec fn wf(self) -> bool {
        in_range(self.x) && in_range(self.y)
    }

    /// Length of the vector, rounded down.
    pub open spec fn spec_magnitude(self) -> int {
        spec_isqrt(self.x * self.x + self.y * self.y)
    }

    pub fn magnitude(&self) -> (m: i64)
        requires
            self.wf(),
        ensures
            m == self.spec_magnitude(),
            is_isqrt(self.x * self.x + self.y * self.y, m as int),
            0 <= m <= 0x8000_0000i64,
    {
        let ax: u64 = if self.x < 0 {
            (-self.x) as u64
        } else {
            self.x as u64
        };
        let ay: u64 = if self.y < 0 {
            (-self.y) as u64
        } else {
            self.y as u64
        };
        assert(ax * ax == self.x * self.x && ay * ay == self.y * self.y) by (nonlinear_arith)
            requires
                ax == iabs(self.x as int) && ay == iabs(self.y as int),
        ;
        assert(ax * ax + ay * ay <= 0x4000_0000_0000_0000) by (nonlinear_arith)
            requires
                0 <= ax <= LIMIT && 0 <= ay <= LIMIT,
        ;
        let m = isqrt64(ax * ax + ay * ay);
        proof {
            assert(m * m <= 0x4000_0000_0000_0000int);
            assert(m <= 0x8000_0000int) by (nonlinear_arith)
                requires
                    0 <= m && m * m <= 0x4000_0000_0000_0000int,
            ;
        }
        m as i64
    }

    /// One non-negative component scaled into the direction of unit length
    /// `UNIT`: `c * UNIT / m`, truncated.
    pub open spec fn spec_norm_part(c: int, m: int) -> int {
        if c >= 0 {
            c * (UNIT as int) / m
        } else {
            -((-c) * (UNIT as int) / m)
        }
    }

    /// The vector rescaled so its length is about `UNIT`; the zero vector
    /// stays zero.
    pub open spec fn spec_normalize(self) -> Vector2 {
        let m = self.spec_magnitude();
        if m == 0 {
            Vector2 { x: 0, y: 0 }
        } else {
            Vector2 {
                x: Self::spec_norm_part(self.x as int, m) as i64,
                y: Self::spec_norm_part(self.y as int, m) as i64,
            }
        }
    }

    pub fn normalize(&self) -> (r: Vector2)
        requires
            self.wf(),
        ensures
            r == self.spec_normalize(),
            iabs(r.x as int) <= UNIT,
            iabs(r.y as int) <= UNIT,
    {
        let m = self.magnitude();
        if m == 0 {
            Vector2 { x: 0, y: 0 }
        } else {
            proof {
                assert(iabs(self.x as int) * iabs(self.x as int) == self.x * self.x
                    && iabs(self.y as int) * iabs(self.y as int) == self.y * self.y)
                    by (nonlinear_arith);
                lemma_isqrt_ge_component(
                    iabs(self.x as int),
                    iabs(self.y as int),
                    m as int,
                );
            }
            let nx = Self::norm_part(self.x, m);
            let ny = Self::norm_part(self.y, m);
            Vector2 { x: nx, y: ny }
        }
    }

    /// One component of `normalize`: truncated signed division of
    /// `c * UNIT` by the magnitude.
    fn norm_part(c: i64, m: i64) -> (r: i64)
        requires
            in_range(c),
            0 < m,
            iabs(c as int) <= m,
        ensures
            r as int == Self::spec_norm_part(c as int, m as int),
            iabs(r as int) <= UNIT,
    {
        let ac: u64 = if c < 0 {
            (-c) as u64
        } else {
            c as u64
        };
        assert(ac * (UNIT as u64) <= 0x4000_0000u64 * 1000) by (nonlinear_arith)
            requires
                0 <= ac <= 0x4000_0000u64 && UNIT == 1000,
        ;
        let q: u64 = ac * (UNIT as u64) / (m as u64);
        proof {
            assert(ac * (UNIT as u64) <= m * (UNIT as u64)) by (nonlinear_arith)
                requires
                    0 <= ac <= m,
            ;
            vstd::arithmetic::div_mod::lemma_div_is_ordered(
                ac * (UNIT as u64) as int,
                m * (UNIT as u64) as int,
                m as int,
            );
            vstd::arithmetic::div_mod::lemma_div_multiples_vanish(UNIT as int, m as int);
        }
        if c < 0 {
            -(q as i64)
        } else {
            q as i64
        }
    }

    /// One component of `scale`: `n` is a fraction of `UNIT`, the result is
    /// that fraction of `s`, truncated.
    pub open spec fn spec_scale_part(n: int, s: int) -> int {
        if n >= 0 {
            n * s / (UNIT as int)
        } else {
            -((-n) * s / (UNIT as int))
        }
    }

    /// Componentwise rescaling by two non-negative factors, where this
    /// vector's components are fractions of `UNIT`.
    pub open spec fn spec_scale(self, scale_x: int, scale_y: int) -> Vector2 {
        Vector2 {
            x: Self::spec_scale_part(self.x as int, scale_x) as i64,
            y: Self::spec_scale_part(self.y as int, scale_y) as i64,
        }
    }

    pub fn scale(&self, scale_x: i64, scale_y: i64) -> (r: Vector2)
        requires
            iabs(self.x as int) <= UNIT,
            iabs(self.y as int) <= UNIT,
            0 <= scale_x <= LIMIT,
            0 <= scale_y <= LIMIT,
        ensures
            r == self.spec_scale(scale_x as int, scale_y as int),
            iabs(r.x as int) <= scale_x,
            iabs(r.y as int) <= scale_y,
    {
        let rx = Self::scale_part(self.x, scale_x);
        let ry = Self::scale_part(self.y, scale_y);
        Vector2 { x: rx, y: ry }
    }

    fn scale_part(n: i64, s: i64) -> (r: i64)
        requires
            iabs(n as int) <= UNIT,
            0 <= s <= LIMIT,
        ensures
            r as int == Self::spec_scale_part(n as int, s as int),
            iabs(r as int) <= s,
    {
        let an: u64 = if n < 0 {
            (-n) as u64
        } else {
            n as u64
        };
        assert(an * (s as u64) <= 1000u64 * 0x4000_0000) by (nonlinear_arith)
            requires
                0 <= an <= 1000u64 && 0 <= s <= 0x4000_0000i64,
        ;
        let q: u64 = an * (s as u64) / (UNIT as u64);
        proof {
            assert(an * (s as u64) <= (UNIT as u64) * (s as u64)) by (nonlinear_arith)
                requires
                    0 <= an <= (UNIT as u64),
            ;
            vstd::arithmetic::div_mod::lemma_div_is_ordered(
                an * (s as u64) as int,
                (UNIT as u64) * (s as u64) as int,
                UNIT as int,
            );
            vstd::arithmetic::div_mod::lemma_div_multiples_vanish(s as int, UNIT as int);
        }
        if n < 0 {
            -(q as i64)
        } else {
            q as i64
        }
    }
}

impl Rect {
    /// Position storable, extents storable and non-negative.
    pub open spec fn wf(self) -> bool {
        &&& in_range(self.x)
        &&& in_range(self.y)
        &&& 0 <= self.width <= LIMIT
        &&& 0 <= self.height <= LIMIT
    }

    /// A point is strictly inside the rectangle: boundary points do not
    /// count, exactly as touching rectangles do not overlap.
    pub open spec fn spec_contains(self, point: Vector2) -> bool {
        &&& point.x > self.x
        &&& point.y > self.y
        &&& point.x < self.x + self.width
        &&& point.y < self.y + self.height
    }

    pub fn contains(&self, point: Vector2) -> (r: bool)
        requires
            self.wf(),
        ensures
            r == self.spec_contains(point),
    {
        point.x > self.x && point.y > self.y && point.x < self.x + self.width && point.y < self.y
            + self.height
    }

    /// Centre with extents halved by truncating division.
    pub open spec fn spec_center(self) -> Vector2 {
        Vector2 { x: (self.x + self.width / 2) as i64, y: (self.y + self.height / 2) as i64 }
    }

    pub fn center(&self) -> (c: Vector2)
        requires
            self.wf(),
        ensures
            c == self.spec_center(),
            c.x == self.x + self.width / 2,
            c.y == self.y + self.height / 2,
    {
        let hw = ((self.width as u64) / 2) as i64;
        let hh = ((self.height as u64) / 2) as i64;
        Vector2 { x: self.x + hw, y: self.y + hh }
    }

    /// Separating-axis overlap test with an open boundary: on each axis the
    /// distance between the centres is strictly less than the half-sum of
    /// the extents.  Both sides are doubled, so the comparison is exact in
    /// integers: `|2*ax + aw - (2*bx + bw)| < aw + bw`.
    pub open spec fn spec_overlaps(a: Rect, b: Rect) -> bool {
        &&& iabs((2 * a.x + a.width) - (2 * b.x + b.width)) < a.width + b.width
        &&& iabs((2 * a.y + a.height) - (2 * b.y + b.height)) < a.height + b.height
    }

    pub fn overlaps(a: &Rect, b: &Rect) -> (r: bool)
        requires
            a.wf(),
            b.wf(),
        ensures
            r == Self::spec_overlaps(*a, *b),
    {
        let dcx = (2 * a.x + a.width) - (2 * b.x + b.width);
        let dcy = (2 * a.y + a.height) - (2 * b.y + b.height);
        let adx = if dcx < 0 {
            -dcx
        } else {
            dcx
        };
        let ady = if dcy < 0 {
            -dcy
        } else {
            dcy
        };
        adx < a.width + b.width && ady < a.height + b.height
    }
}

/// The overlap test is symmetric: whether two rectangles overlap does not
/// depend on the order in which they are given.
pub proof fn lemma_overlaps_symmetric(a: Rect, b: Rect)
    ensures
        Rect::spec_overlaps(a, b) == Rect::spec_overlaps(b, a),
{
}

} // verus!
