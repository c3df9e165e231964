//! Saturating fixed-point numbers with nine decimal places.
use vstd::prelude::*;

verus! {

/// Raw units in one whole unit.
pub const SCALE: i64 = 1_000_000_000;

/// Largest raw value. A scalar of at least this magnitude stands for
/// infinity.
pub const LIMIT: i64 = 0x7fff_ffff_ffff_ffff;

/// Smallest raw value.
pub const LOWEST: i64 = -0x8000_0000_0000_0000;

/// Absolute value of an integer.
pub open spec fn magnitude(x: int) -> int {
    if x < 0 {
        -x
    } else {
        x
    }
}

/// The nearest integer to `x` that a raw value can hold.
pub open spec fn saturate(x: int) -> int {
    if x > LIMIT {
        LIMIT as int
    } else if x < LOWEST {
        LOWEST as int
    } else {
        x
    }
}

/// Quotient of `a` by a nonzero `b`, rounded toward zero.
#[verifier::opaque]
pub open spec fn quotient(a: int, b: int) -> int
    recommends
        b != 0,
{
    if (a < 0) == (b < 0) {
        magnitude(a) / magnitude(b)
    } else {
        -(magnitude(a) / magnitude(b))
    }
}

/// `r` is the integer part of the square root of `n`.
pub open spec fn is_floor_sqrt(n: int, r: int) -> bool {
    0 <= r && r * r <= n < (r + 1) * (r + 1)
}

/// Integer part of the square root of a non-negative `n`.
pub open spec fn floor_sqrt(n: int) -> int {
    choose|r: int| is_floor_sqrt(n, r)
}

/// The integer part of a square root is unique.
pub proof fn lemma_floor_sqrt_unique(n: int, r: int)
    requires
        is_floor_sqrt(n, r),
    ensures
        floor_sqrt(n) == r,
{
    let c = floor_sqrt(n);
    assert(is_floor_sqrt(n, c));
    assert(c == r) by (nonlinear_arith)
        requires
            0 <= r,
            r * r <= n < (r + 1) * (r + 1),
            0 <= c,
            c * c <= n < (c + 1) * (c + 1),
    ;
}

/// Every non-negative integer has an integer square root.
pub proof fn lemma_floor_sqrt_exists(n: int)
    requires
        n >= 0,
    ensures
        is_floor_sqrt(n, floor_sqrt(n)),
    decreases n,
{
    if n == 0 {
        assert(is_floor_sqrt(0, 0));
    } else {
        lemma_floor_sqrt_exists(n - 1);
        let r = floor_sqrt(n - 1);
        if (r + 1) * (r + 1) <= n {
            assert(is_floor_sqrt(n, r + 1)) by (nonlinear_arith)
                requires
                    0 <= r,
                    n - 1 < (r + 1) * (r + 1),
                    (r + 1) * (r + 1) <= n,
            ;
        } else {
            assert(is_floor_sqrt(n, r));
        }
    }
}

/// The integer square root of a sum of two squares is at least the
/// magnitude of either number.
pub proof fn lemma_floor_sqrt_of_squares(x: int, y: int)
    ensures
        magnitude(x) <= floor_sqrt(x * x + y * y),
        magnitude(y) <= floor_sqrt(x * x + y * y),
        is_floor_sqrt(x * x + y * y, floor_sqrt(x * x + y * y)),
{
    let n = x * x + y * y;
    assert(n >= 0) by (nonlinear_arith)
        requires
            n == x * x + y * y,
    ;
    lemma_floor_sqrt_exists(n);
    let r = floor_sqrt(n);
    let mx = magnitude(x);
    let my = magnitude(y);
    assert(mx <= r) by (nonlinear_arith)
        requires
            0 <= r,
            n < (r + 1) * (r + 1),
            n == x * x + y * y,
            mx == x || mx == -x,
            mx >= 0,
    ;
    assert(my <= r) by (nonlinear_arith)
        requires
            0 <= r,
            n < (r + 1) * (r + 1),
            n == x * x + y * y,
            my == y || my == -y,
            my >= 0,
    ;
}

/// Magnitude and sign of a product.
pub proof fn lemma_product_sign(a: int, b: int)
    ensures
        magnitude(a * b) == magnitude(a) * magnitude(b),
        a * b < 0 <==> (a != 0 && b != 0 && ((a < 0) != (b < 0))),
        a * b == 0 <==> (a == 0 || b == 0),
{
    assert(magnitude(a * b) == magnitude(a) * magnitude(b)) by (nonlinear_arith);
    assert(a * b < 0 <==> (a != 0 && b != 0 && ((a < 0) != (b < 0)))) by (nonlinear_arith);
    assert(a * b == 0 <==> (a == 0 || b == 0)) by (nonlinear_arith);
}

/// A signed fixed-point number: `raw` counts billionths.
#[derive(Clone, Copy, Debug, PartialEq, Eq, Structural, PartialOrd, Ord, Hash)]
pub struct Scalar {
    pub raw: i64,
}

impl View for Scalar {
    type V = int;

    open spec fn view(&self) -> int {
        self.raw as int
    }
}

/// Integer part of the square root of `n`.
pub fn integer_sqrt(n: u128) -> (r: u128)
    ensures
        is_floor_sqrt(n as int, r as int),
        r == floor_sqrt(n as int),
        r < 0x1_0000_0000_0000_0000,
{
    let mut lo: u128 = 0;
    let mut hi: u128 = 0x1_0000_0000_0000_0000;
    assert(0x1_0000_0000_0000_0000int * 0x1_0000_0000_0000_0000int > n) by (nonlinear_arith)
        requires
            n <= u128::MAX,
    ;
    while hi - lo > 1
        invariant
            lo < hi <= 0x1_0000_0000_0000_0000,
            lo * lo <= n < hi * hi,
        decreases hi - lo,
    {
        let mid: u128 = lo + (hi - lo) / 2;
        assert(mid * mid < 0x1_0000_0000_0000_0000int * 0x1_0000_0000_0000_0000int)
            by (nonlinear_arith)
            requires
                0 <= mid < 0x1_0000_0000_0000_0000,
        ;
        if mid * mid <= n {
            lo = mid;
        } else {
            hi = mid;
        }
    }
    proof {
        assert(hi == lo + 1);
        lemma_floor_sqrt_unique(n as int, lo as int);
    }
    lo
}

impl Scalar {
    /// The scalar whose raw value is the nearest in range to `x`.
    pub open spec fn of(x: int) -> Scalar {
        Scalar { raw: saturate(x) as i64 }
    }

    /// Sum; what cannot be held becomes the nearest that can.
    pub open spec fn add_spec(self, rhs: Scalar) -> Scalar {
        Scalar::of(self@ + rhs@)
    }

    /// Difference; what cannot be held becomes the nearest that can.
    pub open spec fn sub_spec(self, rhs: Scalar) -> Scalar {
        Scalar::of(self@ - rhs@)
    }

    /// Negation; that of the lowest value is the largest.
    pub open spec fn neg_spec(self) -> Scalar {
        Scalar::of(-self@)
    }

    /// Absolute value; that of the lowest value is the largest.
    pub open spec fn abs_spec(self) -> Scalar {
        Scalar::of(magnitude(self@))
    }

    /// Product, rounded toward zero; what cannot be held becomes the
    /// nearest that can.
    pub open spec fn mul_spec(self, rhs: Scalar) -> Scalar {
        Scalar::of(quotient(self@ * rhs@, SCALE as int))
    }

    /// Quotient, rounded toward zero; what cannot be held becomes the
    /// nearest that can. Dividing by zero gives the largest value for a
    /// positive dividend, the lowest for a negative one, and zero for
    /// zero.
    pub open spec fn div_spec(self, rhs: Scalar) -> Scalar {
        if rhs@ != 0 {
            Scalar::of(quotient(self@ * SCALE, rhs@))
        } else if self@ > 0 {
            Scalar { raw: LIMIT }
        } else if self@ < 0 {
            Scalar { raw: LOWEST }
        } else {
            Scalar { raw: 0 }
        }
    }

    /// Square root, rounded down; zero for a negative number.
    pub open spec fn sqrt_spec(self) -> Scalar {
        if self@ <= 0 {
            Scalar { raw: 0 }
        } else {
            Scalar::of(floor_sqrt(self@ * SCALE))
        }
    }

    /// The square, exact, in squared raw units.
    pub open spec fn square(self) -> int {
        self@ * self@
    }

    /// Half, rounded toward zero.
    pub open spec fn half_spec(self) -> Scalar {
        Scalar { raw: quotient(self@, 2) as i64 }
    }

    /// The larger of two scalars.
    pub open spec fn max_spec(self, rhs: Scalar) -> Scalar {
        if self@ < rhs@ {
            rhs
        } else {
            self
        }
    }

    /// The nearest whole number, halves away from zero.
    pub open spec fn round_spec(self) -> Scalar {
        let whole = (magnitude(self@) + SCALE / 2) / (SCALE as int);
        Scalar::of(if self@ < 0 {
            -(whole * SCALE)
        } else {
            whole * SCALE
        })
    }

    /// The whole part, rounded toward zero.
    pub open spec fn trunc_spec(self) -> int {
        if self@ < 0 {
            -(magnitude(self@) / (SCALE as int))
        } else {
            magnitude(self@) / (SCALE as int)
        }
    }

    /// The scalar held between `lo` and `hi`; `lo` wins where the two
    /// bounds cross.
    pub open spec fn clamp_spec(self, lo: Scalar, hi: Scalar) -> Scalar {
        if self@ < lo@ {
            lo
        } else if self@ > hi@ {
            hi
        } else {
            self
        }
    }

    /// Of a magnitude under the largest, which stands for infinity.
    pub open spec fn finite(self) -> bool {
        -LIMIT < self@ < LIMIT
    }

    /// The scalar with the given raw value, in billionths.
    pub fn from_raw(raw: i64) -> (r: Scalar)
        ensures
            r.raw == raw,
    {
        Scalar { raw }
    }

    /// The raw value, in billionths.
    pub fn raw(self) -> (r: i64)
        ensures
            r == self.raw,
    {
        self.raw
    }

    pub fn zero() -> (r: Scalar)
        ensures
            r@ == 0,
    {
        Scalar { raw: 0 }
    }

    pub fn one() -> (r: Scalar)
        ensures
            r@ == SCALE,
    {
        Scalar { raw: SCALE }
    }

    /// Positive infinity: what a sum or product too large to hold becomes.
    pub fn infinity() -> (r: Scalar)
        ensures
            r@ == LIMIT,
    {
        Scalar { raw: LIMIT }
    }

    /// The whole number `n`.
    pub fn from_int(n: i32) -> (r: Scalar)
        ensures
            r@ == n * SCALE,
    {
        let wide: i64 = n as i64;
        assert(wide * SCALE == n * SCALE);
        assert(-0x8000_0000 * SCALE <= n * SCALE <= 0x8000_0000 * SCALE) by (nonlinear_arith)
            requires
                -0x8000_0000 <= n <= 0x8000_0000,
                SCALE > 0,
        ;
        Scalar { raw: wide * SCALE }
    }

    /// Absolute value of the raw value, which always fits.
    pub fn magnitude(self) -> (m: u128)
        ensures
            m == magnitude(self@),
            m <= 0x8000_0000_0000_0000,
    {
        if self.raw < 0 {
            let wide: i128 = -(self.raw as i128);
            wide as u128
        } else {
            self.raw as u128
        }
    }

    /// The whole number `n`.
    pub fn from_u32(n: u32) -> (r: Scalar)
        ensures
            r@ == n * SCALE,
    {
        let wide: i64 = n as i64;
        assert(0 <= n * SCALE <= 0xffff_ffff * SCALE) by (nonlinear_arith)
            requires
                0 <= n <= 0xffff_ffff,
                SCALE > 0,
        ;
        Scalar { raw: wide * SCALE }
    }

    fn from_wide(wide: i128) -> (r: Scalar)
        ensures
            r@ == saturate(wide as int),
            r == Scalar::of(wide as int),
    {
        if wide > LIMIT as i128 {
            Scalar { raw: LIMIT }
        } else if wide < LOWEST as i128 {
            Scalar { raw: LOWEST }
        } else {
            Scalar { raw: wide as i64 }
        }
    }

    pub fn is_finite(self) -> (b: bool)
        ensures
            b == self.finite(),
    {
        -LIMIT < self.raw && self.raw < LIMIT
    }

    pub fn add(self, rhs: Scalar) -> (r: Scalar)
        ensures
            r == self.add_spec(rhs),
    {
        Scalar::from_wide(self.raw as i128 + rhs.raw as i128)
    }

    pub fn sub(self, rhs: Scalar) -> (r: Scalar)
        ensures
            r == self.sub_spec(rhs),
    {
        Scalar::from_wide(self.raw as i128 - rhs.raw as i128)
    }

    pub fn neg(self) -> (r: Scalar)
        ensures
            r == self.neg_spec(),
    {
        Scalar::from_wide(-(self.raw as i128))
    }

    pub fn abs(self) -> (r: Scalar)
        ensures
            r == self.abs_spec(),
    {
        if self.raw < 0 {
            Scalar::from_wide(-(self.raw as i128))
        } else {
            self
        }
    }

    pub fn mul(self, rhs: Scalar) -> (r: Scalar)
        ensures
            r == self.mul_spec(rhs),
    {
        let a: u128 = self.magnitude();
        let b: u128 = rhs.magnitude();
        assert(a * b <= 0x4000_0000_0000_0000_0000_0000_0000_0000) by (nonlinear_arith)
            requires
                0 <= a <= 0x8000_0000_0000_0000,
                0 <= b <= 0x8000_0000_0000_0000,
        ;
        let q: u128 = (a * b) / (SCALE as u128);
        let wide: i128 = if (self.raw < 0) != (rhs.raw < 0) {
            -(q as i128)
        } else {
            q as i128
        };
        proof {
            reveal(quotient);
            lemma_product_sign(self@, rhs@);
        }
        Scalar::from_wide(wide)
    }

    pub fn div(self, rhs: Scalar) -> (r: Scalar)
        ensures
            r == self.div_spec(rhs),
    {
        if rhs.raw == 0 {
            if self.raw > 0 {
                Scalar { raw: LIMIT }
            } else if self.raw < 0 {
                Scalar { raw: LOWEST }
            } else {
                Scalar { raw: 0 }
            }
        } else {
            let a: u128 = self.magnitude();
            let b: u128 = rhs.magnitude();
            assert(a * SCALE <= 0x8000_0000_0000_0000 * SCALE) by (nonlinear_arith)
                requires
                    0 <= a <= 0x8000_0000_0000_0000,
                    SCALE > 0,
            ;
            let q: u128 = (a * (SCALE as u128)) / b;
            let wide: i128 = if (self.raw < 0) != (rhs.raw < 0) {
                -(q as i128)
            } else {
                q as i128
            };
            proof {
                reveal(quotient);
                lemma_product_sign(self@, SCALE as int);
            }
            Scalar::from_wide(wide)
        }
    }

    pub fn sqrt(self) -> (r: Scalar)
        ensures
            r == self.sqrt_spec(),
    {
        if self.raw <= 0 {
            Scalar { raw: 0 }
        } else {
            let wide: u128 = (self.raw as u128) * (SCALE as u128);
            let root: u128 = integer_sqrt(wide);
            assert(root < 0x8000_0000_0000_0000) by (nonlinear_arith)
                requires
                    root * root <= wide,
                    wide < 0x8000_0000_0000_0000 * SCALE,
                    SCALE == 1_000_000_000,
                    0 <= root,
            ;
            Scalar { raw: root as i64 }
        }
    }

    /// The square in squared raw units; no rounding takes place.
    pub fn squared(self) -> (n: u128)
        ensures
            n == self.square(),
            n <= 0x4000_0000_0000_0000_0000_0000_0000_0000,
    {
        let m: u128 = self.magnitude();
        assert(m * m <= 0x4000_0000_0000_0000_0000_0000_0000_0000) by (nonlinear_arith)
            requires
                0 <= m <= 0x8000_0000_0000_0000,
        ;
        assert(m * m == self@ * self@) by (nonlinear_arith)
            requires
                m == self@ || m == -self@,
        ;
        m * m
    }

    pub fn half(self) -> (r: Scalar)
        ensures
            r == self.half_spec(),
    {
        let m: u128 = self.magnitude();
        let h: u128 = m / 2;
        proof {
            reveal(quotient);
        }
        if self.raw < 0 {
            Scalar { raw: (-(h as i128)) as i64 }
        } else {
            Scalar { raw: h as i64 }
        }
    }

    pub fn max(self, rhs: Scalar) -> (r: Scalar)
        ensures
            r == self.max_spec(rhs),
    {
        if self.raw < rhs.raw {
            rhs
        } else {
            self
        }
    }

    pub fn round(self) -> (r: Scalar)
        ensures
            r == self.round_spec(),
    {
        let m: u128 = self.magnitude();
        let whole: u128 = (m + (SCALE as u128) / 2) / (SCALE as u128);
        assert(whole * SCALE <= 0x1_0000_0000_0000_0000) by (nonlinear_arith)
            requires
                whole == (m + SCALE / 2) / (SCALE as int),
                0 <= m <= 0x8000_0000_0000_0000,
                SCALE == 1_000_000_000,
        ;
        let wide: i128 = (whole * (SCALE as u128)) as i128;
        if self.raw < 0 {
            Scalar::from_wide(-wide)
        } else {
            Scalar::from_wide(wide)
        }
    }

    /// The whole part, rounded toward zero.
    pub fn trunc(self) -> (n: i64)
        ensures
            n == self.trunc_spec(),
    {
        let m: u128 = self.magnitude();
        let whole: u128 = m / 1_000_000_000;
        assert(whole <= 9_223_372_036);
        if self.raw < 0 {
            -(whole as i64)
        } else {
            whole as i64
        }
    }

    pub fn clamp(self, lo: Scalar, hi: Scalar) -> (r: Scalar)
        ensures
            r == self.clamp_spec(lo, hi),
    {
        if self.raw < lo.raw {
            lo
        } else if self.raw > hi.raw {
            hi
        } else {
            self
        }
    }
}

} // verus!
