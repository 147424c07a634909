//! Fixed-point numbers with 16 fractional bits, and the points made of them.

use vstd::prelude::*;
use vstd::arithmetic::div_mod::lemma_fundamental_div_mod_converse;

verus! {

/// The fixed-point representation of the number one.
pub const ONE: i64 = 65536;

/// A position in the image, in pixels, as two fixed-point numbers with 16
/// fractional bits.
#[derive(Debug, Clone, Copy, PartialEq, Eq, Structural)]
pub struct Point2 {
    pub x: i32,
    pub y: i32,
}

/// A position in the scene, as three fixed-point numbers with 16 fractional
/// bits.
#[derive(Debug, Clone, Copy, PartialEq, Eq, Structural)]
pub struct Vector3 {
    pub x: i32,
    pub y: i32,
    pub z: i32,
}

impl Vector3 {
    /// The point with the given fixed-point coordinates.
    pub fn new(x: i32, y: i32, z: i32) -> (r: Vector3)
        ensures
            r == (Vector3 { x, y, z }),
    {
        Vector3 { x, y, z }
    }
}

impl Point2 {
    /// The point with the given fixed-point coordinates.
    pub fn new(x: i32, y: i32) -> (r: Point2)
        ensures
            r == (Point2 { x, y }),
    {
        Point2 { x, y }
    }

    /// Column of the pixel that holds the point: `x` rounded down.
    pub open spec fn spec_pixel_x(self) -> int {
        self.x as int / 65536
    }

    /// Row of the pixel that holds the point: `y` rounded down.
    pub open spec fn spec_pixel_y(self) -> int {
        self.y as int / 65536
    }

    /// The point with its coordinates exchanged.
    pub open spec fn spec_yx(self) -> Point2 {
        Point2 { x: self.y, y: self.x }
    }

    /// Column of the pixel that holds the point.
    pub fn pixel_x(&self) -> (r: i32)
        ensures
            r == self.spec_pixel_x(),
            -32768 <= r < 32768,
    {
        floor_div(self.x as i128, 65536) as i32
    }

    /// Row of the pixel that holds the point.
    pub fn pixel_y(&self) -> (r: i32)
        ensures
            r == self.spec_pixel_y(),
            -32768 <= r < 32768,
    {
        floor_div(self.y as i128, 65536) as i32
    }

    /// The point with its coordinates exchanged.
    pub fn yx(&self) -> (r: Point2)
        ensures
            r == self.spec_yx(),
    {
        Point2 { x: self.y, y: self.x }
    }
}

/// Whether `r` is the square root of `n`, rounded down.
pub open spec fn is_floor_sqrt(n: int, r: int) -> bool {
    0 <= r && r * r <= n < (r + 1) * (r + 1)
}

/// The square root of `n`, rounded down.
pub open spec fn spec_isqrt(n: int) -> int {
    choose|r: int| is_floor_sqrt(n, r)
}

/// A number has at most one rounded-down square root.
pub proof fn lemma_floor_sqrt_unique(n: int, r: int)
    requires
        is_floor_sqrt(n, r),
    ensures
        spec_isqrt(n) == r,
{
    let s = spec_isqrt(n);
    assert(is_floor_sqrt(n, s));
    if s < r {
        assert((s + 1) * (s + 1) <= r * r) by (nonlinear_arith)
            requires
                0 <= s + 1 <= r,
        ;
    }
    if r < s {
        assert((r + 1) * (r + 1) <= s * s) by (nonlinear_arith)
            requires
                0 <= r + 1 <= s,
        ;
    }
}

/// Every number that is not negative has a rounded-down square root.
pub proof fn lemma_floor_sqrt_exists(n: int)
    requires
        n >= 0,
    ensures
        is_floor_sqrt(n, spec_isqrt(n)),
    decreases n,
{
    if n == 0 {
        assert(is_floor_sqrt(0, 0));
    } else {
        lemma_floor_sqrt_exists(n - 1);
        let r = spec_isqrt(n - 1);
        if (r + 1) * (r + 1) <= n {
            assert((r + 1) * (r + 1) < (r + 2) * (r + 2)) by (nonlinear_arith)
                requires
                    r >= 0,
            ;
            assert(is_floor_sqrt(n, r + 1));
        } else {
            assert(is_floor_sqrt(n, r));
        }
    }
}

/// Quotient of `a` by `b`, rounded towards minus infinity.
pub(crate) fn floor_div(a: i128, b: i128) -> (r: i128)
    requires
        b > 0,
        -0x4000_0000_0000_0000_0000_0000_0000_0000 < a < 0x4000_0000_0000_0000_0000_0000_0000_0000,
        b < 0x4000_0000_0000_0000_0000_0000_0000_0000,
    ensures
        r == a as int / b as int,
{
    if a >= 0 {
        let q: u128 = a as u128 / b as u128;
        q as i128
    } else {
        let n: u128 = (-a) as u128 + (b as u128 - 1);
        let q: u128 = n / b as u128;
        proof {
            let qi = q as int;
            let bi = b as int;
            let ni = n as int;
            assert(ni == qi * bi + ni % bi && 0 <= ni % bi < bi) by {
                vstd::arithmetic::div_mod::lemma_fundamental_div_mod(ni, bi);
                assert(bi * qi == qi * bi) by (nonlinear_arith);
            }
            let rem = a as int + qi * bi;
            assert(0 <= rem < bi);
            assert(a as int == (-qi) * bi + rem) by (nonlinear_arith)
                requires
                    rem == a as int + qi * bi,
            ;
            lemma_fundamental_div_mod_converse(a as int, bi, -qi, rem);
        }
        -(q as i128)
    }
}

/// Remainder of `a` by `b`, between zero and `b`.
pub(crate) fn floor_mod(a: i128, b: i128) -> (r: i128)
    requires
        b > 0,
        -0x4000_0000_0000_0000_0000_0000_0000_0000 < a < 0x4000_0000_0000_0000_0000_0000_0000_0000,
        b < 0x4000_0000_0000_0000_0000_0000_0000_0000,
    ensures
        r == a as int % b as int,
        0 <= r < b,
{
    let q: i128 = floor_div(a, b);
    proof {
        vstd::arithmetic::div_mod::lemma_fundamental_div_mod(a as int, b as int);
        assert(b as int * (a as int / b as int) == q * b) by (nonlinear_arith)
            requires
                q == a as int / b as int,
        ;
        vstd::arithmetic::div_mod::lemma_mod_bound(a as int, b as int);
    }
    a - q * b
}

/// Square root of `n`, rounded down.
pub fn isqrt(n: u128) -> (r: u64)
    ensures
        r as int == spec_isqrt(n as int),
        is_floor_sqrt(n as int, r as int),
{
    let mut lo: u128 = 0;
    let mut hi: u128 = 0x1_0000_0000_0000_0000;
    proof {
        assert(0x1_0000_0000_0000_0000int * 0x1_0000_0000_0000_0000int > u128::MAX) by (nonlinear_arith);
    }
    while hi - lo > 1
        invariant
            lo < hi <= 0x1_0000_0000_0000_0000,
            lo * lo <= n,
            n < hi * hi,
        decreases hi - lo,
    {
        let mid: u128 = lo + (hi - lo) / 2;
        proof {
            assert(mid * mid <= 0xFFFF_FFFF_FFFF_FFFF * 0xFFFF_FFFF_FFFF_FFFF) by (nonlinear_arith)
                requires
                    mid <= 0xFFFF_FFFF_FFFF_FFFF,
            ;
        }
        if mid * mid <= n {
            lo = mid;
        } else {
            hi = mid;
        }
    }
    proof {
        assert(hi == lo + 1);
        lemma_floor_sqrt_unique(n as int, lo as int);
    }
    lo as u64
}

} // verus!
