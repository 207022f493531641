//! Whole-number geometry: distances, exact ratios and turns.
use vstd::prelude::*;

verus! {

/// The product of a number with itself.
pub open spec fn square(x: int) -> int {
    x * x
}

/// The squared distance of the points `(x1, y1)` and `(x2, y2)`.
pub open spec fn squared_distance(x1: int, y1: int, x2: int, y2: int) -> int {
    square(x1 - x2) + square(y1 - y2)
}

/// `r` is the whole number nearest to the square root of `n`.  The root of
/// a whole number never lies halfway between two whole numbers, so there is
/// one such `r` for each `n >= 0`.
pub open spec fn is_rounded_sqrt(n: int, r: int) -> bool {
    &&& 0 <= r
    &&& n <= r * r + r
    &&& (r == 0 || r * r - r < n)
}

/// The whole number nearest to the square root of `n`.
pub open spec fn rounded_sqrt(n: int) -> int {
    choose|r: int| is_rounded_sqrt(n, r)
}

/// The distance of `(x1, y1)` and `(x2, y2)`, rounded to the nearest whole
/// number and capped at `i32::MAX`.
pub open spec fn distance_spec(x1: int, y1: int, x2: int, y2: int) -> int {
    let r = rounded_sqrt(squared_distance(x1, y1, x2, y2));
    if r < i32::MAX {
        r
    } else {
        i32::MAX as int
    }
}

/// No number has two rounded roots.
pub proof fn lemma_rounded_sqrt_unique(n: int, r1: int, r2: int)
    requires
        is_rounded_sqrt(n, r1),
        is_rounded_sqrt(n, r2),
    ensures
        r1 == r2,
{
    if r1 < r2 {
        assert(r1 * r1 + r1 <= r2 * r2 - r2) by (nonlinear_arith)
            requires
                0 <= r1 < r2,
        ;
    } else if r2 < r1 {
        assert(r2 * r2 + r2 <= r1 * r1 - r1) by (nonlinear_arith)
            requires
                0 <= r2 < r1,
        ;
    }
}

/// A number that meets `is_rounded_sqrt` is the rounded root.
pub proof fn lemma_rounded_sqrt_is(n: int, r: int)
    requires
        is_rounded_sqrt(n, r),
    ensures
        rounded_sqrt(n) == r,
{
    lemma_rounded_sqrt_unique(n, r, rounded_sqrt(n));
}

/// The distance of two points does not depend on their order, and a point
/// is at distance 0 from itself.
pub proof fn lemma_distance_symmetric(x1: int, y1: int, x2: int, y2: int)
    ensures
        distance_spec(x1, y1, x2, y2) == distance_spec(x2, y2, x1, y1),
        distance_spec(x1, y1, x1, y1) == 0,
        0 <= distance_spec(x1, y1, x2, y2) <= i32::MAX,
{
    assert(squared_distance(x1, y1, x2, y2) == squared_distance(x2, y2, x1, y1))
        by (nonlinear_arith);
    assert(squared_distance(x1, y1, x1, y1) == 0) by (nonlinear_arith);
    lemma_rounded_sqrt_is(0, 0);
    let n = squared_distance(x1, y1, x2, y2);
    assert(n >= 0) by (nonlinear_arith)
        requires
            n == (x1 - x2) * (x1 - x2) + (y1 - y2) * (y1 - y2),
    ;
    lemma_rounded_sqrt_exists(n);
}

/// Every number from 0 on has a rounded root.
pub proof fn lemma_rounded_sqrt_exists(n: int)
    requires
        0 <= n,
    ensures
        is_rounded_sqrt(n, rounded_sqrt(n)),
    decreases n,
{
    if n == 0 {
        assert(is_rounded_sqrt(0, 0));
    } else {
        lemma_rounded_sqrt_exists(n - 1);
        let r = rounded_sqrt(n - 1);
        if n <= r * r + r {
            assert(is_rounded_sqrt(n, r));
        } else {
            assert(is_rounded_sqrt(n, r + 1)) by (nonlinear_arith)
                requires
                    0 <= r,
                    n == r * r + r + 1,
            ;
        }
    }
}

/// The largest whole number whose square is at most `n`.
pub fn integer_sqrt(n: u128) -> (root: u128)
    ensures
        root * root <= n < (root + 1) * (root + 1),
        root < 0x1_0000_0000_0000_0000,
{
    let mut lo: u128 = 0;
    let mut hi: u128 = 0x1_0000_0000_0000_0000;
    assert(0x1_0000_0000_0000_0000int * 0x1_0000_0000_0000_0000int
        == 0x1_0000_0000_0000_0000_0000_0000_0000_0000int);
    while hi - lo > 1
        invariant
            lo < hi <= 0x1_0000_0000_0000_0000,
            lo * lo <= n < hi * hi,
        decreases hi - lo,
    {
        let mid: u128 = lo + (hi - lo) / 2;
        assert(mid * mid <= 0xffff_ffff_ffff_ffff * 0xffff_ffff_ffff_ffff) by (nonlinear_arith)
            requires
                mid <= 0xffff_ffff_ffff_ffff,
        ;
        if mid * mid <= n {
            lo = mid;
        } else {
            hi = mid;
        }
    }
    lo
}

/// The distance of the points `(x1, y1)` and `(x2, y2)`, rounded to the
/// nearest whole number.  Two points that are further apart than `i32::MAX`
/// are at distance `i32::MAX`.
pub fn get_distance_int(x1: i32, y1: i32, x2: i32, y2: i32) -> (distance: i32)
    ensures
        distance == distance_spec(x1 as int, y1 as int, x2 as int, y2 as int),
        0 <= distance,
{
    let dx: i64 = x1 as i64 - x2 as i64;
    let dy: i64 = y1 as i64 - y2 as i64;
    let ax: u128 = if dx < 0 {
        (-dx) as u128
    } else {
        dx as u128
    };
    let ay: u128 = if dy < 0 {
        (-dy) as u128
    } else {
        dy as u128
    };
    assert(ax * ax <= 0x1_0000_0000_0000_0000 && ax * ax == dx * dx) by (nonlinear_arith)
        requires
            ax <= 0x1_0000_0000,
            ax == dx || ax == -dx,
    ;
    assert(ay * ay <= 0x1_0000_0000_0000_0000 && ay * ay == dy * dy) by (nonlinear_arith)
        requires
            ay <= 0x1_0000_0000,
            ay == dy || ay == -dy,
    ;
    let n: u128 = ax * ax + ay * ay;
    let root = integer_sqrt(n);
    assert(root < 0x2_0000_0000) by (nonlinear_arith)
        requires
            root * root <= n,
            n <= 0x2_0000_0000_0000_0000,
            0 <= root,
    ;
    assert(root * root + root < 0x8_0000_0000_0000_0000) by (nonlinear_arith)
        requires
            root < 0x2_0000_0000,
    ;
    let rounded: u128 = if n <= root * root + root {
        root
    } else {
        root + 1
    };
    proof {
        assert(is_rounded_sqrt(n as int, rounded as int)) by (nonlinear_arith)
            requires
                root * root <= n < (root + 1) * (root + 1),
                rounded == (if n <= root * root + root {
                    root
                } else {
                    (root + 1) as u128
                }),
                0 <= root,
        ;
        lemma_rounded_sqrt_is(n as int, rounded as int);
        assert(n == squared_distance(x1 as int, y1 as int, x2 as int, y2 as int));
    }
    if rounded < i32::MAX as u128 {
        rounded as i32
    } else {
        i32::MAX
    }
}

/// `n` if it is an `i32`, and else the bound of `i32` that is nearest to it.
pub open spec fn clamp_to_i32(n: int) -> int {
    if n < i32::MIN {
        i32::MIN as int
    } else if n > i32::MAX {
        i32::MAX as int
    } else {
        n
    }
}

/// The size of `n`.
pub open spec fn size_of(n: int) -> int {
    if n < 0 {
        -n
    } else {
        n
    }
}

/// `n / d`, rounded towards 0, for `d` other than 0.
pub open spec fn quotient_towards_zero(n: int, d: int) -> int {
    if (n >= 0) == (d > 0) {
        size_of(n) / size_of(d)
    } else {
        -(size_of(n) / size_of(d))
    }
}

/// The largest size that a number of a ratio may have where two ratios are
/// compared.
pub const MAX_RATIO_TERM: i128 = 0x8000_0000_0000_0000;

/// An exact fraction of two whole numbers.  It stands for a quantity that
/// is not a whole number: a distance measured in key widths, a speed, a
/// share.  A ratio with the denominator 0 stands for no quantity.
#[derive(Clone, Copy, Debug)]
pub struct Ratio {
    pub num: i128,
    pub den: i128,
}

impl Ratio {
    /// The denominator is positive, and both numbers are small enough to be
    /// multiplied with those of another ratio.
    pub open spec fn wf(&self) -> bool {
        &&& 0 < self.den <= MAX_RATIO_TERM
        &&& -MAX_RATIO_TERM <= self.num <= MAX_RATIO_TERM
    }

    /// `self` is the smaller quantity.
    pub open spec fn spec_less_than(&self, other: &Ratio) -> bool {
        self.num * other.den < other.num * self.den
    }

    /// `self` stands for the same quantity as `other`.
    pub open spec fn spec_same_as(&self, other: &Ratio) -> bool {
        self.num * other.den == other.num * self.den
    }

    /// `self` is less than `hundredths` hundredths.
    pub open spec fn spec_below_hundredths(&self, hundredths: int) -> bool {
        self.num * 100 < hundredths * self.den
    }

    /// Tells whether `self` is less than `hundredths` hundredths.
    pub fn below_hundredths(&self, hundredths: i64) -> (below: bool)
        requires
            self.wf(),
            -0x1_0000_0000 <= hundredths <= 0x1_0000_0000,
        ensures
            below == self.spec_below_hundredths(hundredths as int),
    {
        assert(-0x1_0000_0000_0000_0000_0000_0000 <= hundredths * self.den
            <= 0x1_0000_0000_0000_0000_0000_0000) by (nonlinear_arith)
            requires
                -0x1_0000_0000 <= hundredths <= 0x1_0000_0000,
                0 < self.den <= 0x8000_0000_0000_0000,
        ;
        self.num * 100 < (hundredths as i128) * self.den
    }

    /// The hundredths in `self`, rounded towards 0 and kept within the
    /// bounds of `i32`.  A ratio with the denominator 0 has as many as can
    /// be, of the sign of its numerator, and none where that is 0 too.
    pub open spec fn spec_percent(&self) -> int {
        if self.den == 0 {
            if self.num > 0 {
                i32::MAX as int
            } else if self.num < 0 {
                i32::MIN as int
            } else {
                0
            }
        } else {
            clamp_to_i32(quotient_towards_zero(self.num * 100, self.den as int))
        }
    }

    /// The hundredths in `self`: see `spec_percent`.
    pub fn percent(&self) -> (percent: i32)
        requires
            -0x1_0000_0000_0000_0000_0000_0000 <= self.num <= 0x1_0000_0000_0000_0000_0000_0000,
            -0x1_0000_0000_0000_0000_0000_0000 <= self.den <= 0x1_0000_0000_0000_0000_0000_0000,
        ensures
            percent == self.spec_percent(),
    {
        if self.den == 0 {
            return if self.num > 0 {
                i32::MAX
            } else if self.num < 0 {
                i32::MIN
            } else {
                0
            };
        }
        let scaled: i128 = self.num * 100;
        let num_size: u128 = if scaled < 0 {
            (-scaled) as u128
        } else {
            scaled as u128
        };
        let den_size: u128 = if self.den < 0 {
            (-self.den) as u128
        } else {
            self.den as u128
        };
        let quotient: u128 = num_size / den_size;
        assert(quotient <= num_size) by (nonlinear_arith)
            requires
                quotient == num_size / den_size,
                den_size >= 1,
        ;
        if (scaled >= 0) == (self.den > 0) {
            if quotient < i32::MAX as u128 {
                quotient as i32
            } else {
                i32::MAX
            }
        } else {
            if quotient < 0x8000_0000 {
                -(quotient as i64) as i32
            } else {
                i32::MIN
            }
        }
    }

    /// The ratio of `num` to `den`.
    pub fn new(num: i128, den: i128) -> (ratio: Ratio)
        ensures
            ratio.num == num,
            ratio.den == den,
    {
        Ratio { num, den }
    }

    /// Tells whether `self` is the smaller quantity.
    pub fn less_than(&self, other: &Ratio) -> (less: bool)
        requires
            self.wf(),
            other.wf(),
        ensures
            less == self.spec_less_than(other),
    {
        assert(-0x4000_0000_0000_0000_0000_0000_0000_0000 <= self.num * other.den
            <= 0x4000_0000_0000_0000_0000_0000_0000_0000) by (nonlinear_arith)
            requires
                -0x8000_0000_0000_0000 <= self.num <= 0x8000_0000_0000_0000,
                0 < other.den <= 0x8000_0000_0000_0000,
        ;
        assert(-0x4000_0000_0000_0000_0000_0000_0000_0000 <= other.num * self.den
            <= 0x4000_0000_0000_0000_0000_0000_0000_0000) by (nonlinear_arith)
            requires
                -0x8000_0000_0000_0000 <= other.num <= 0x8000_0000_0000_0000,
                0 < self.den <= 0x8000_0000_0000_0000,
        ;
        self.num * other.den < other.num * self.den
    }

    /// Tells whether `self` and `other` stand for the same quantity.
    pub fn same_as(&self, other: &Ratio) -> (same: bool)
        requires
            self.wf(),
            other.wf(),
        ensures
            same == self.spec_same_as(other),
    {
        assert(-0x4000_0000_0000_0000_0000_0000_0000_0000 <= self.num * other.den
            <= 0x4000_0000_0000_0000_0000_0000_0000_0000) by (nonlinear_arith)
            requires
                -0x8000_0000_0000_0000 <= self.num <= 0x8000_0000_0000_0000,
                0 < other.den <= 0x8000_0000_0000_0000,
        ;
        assert(-0x4000_0000_0000_0000_0000_0000_0000_0000 <= other.num * self.den
            <= 0x4000_0000_0000_0000_0000_0000_0000_0000) by (nonlinear_arith)
            requires
                -0x8000_0000_0000_0000 <= other.num <= 0x8000_0000_0000_0000,
                0 < self.den <= 0x8000_0000_0000_0000,
        ;
        self.num * other.den == other.num * self.den
    }
}

/// The direction of the steps `(dx, dy)`.  No steps have the direction of
/// the horizontal axis, whose angle is 0.
pub open spec fn heading(dx: int, dy: int) -> (int, int) {
    if dx == 0 && dy == 0 {
        (1, 0)
    } else {
        (dx, dy)
    }
}

/// The directions of `(dx1, dy1)` and of `(dx2, dy2)` differ by more than
/// two thirds of pi: the cosine of the angle between them is below minus
/// one half.  With `dot` and `cross` for the two products of the
/// directions, that is `dot < 0` and `3 * dot * dot > cross * cross`.
pub open spec fn is_sharp_turn_spec(dx1: int, dy1: int, dx2: int, dy2: int) -> bool {
    let v = heading(dx1, dy1);
    let w = heading(dx2, dy2);
    let dot = v.0 * w.0 + v.1 * w.1;
    let cross = v.0 * w.1 - v.1 * w.0;
    dot < 0 && 3 * (dot * dot) > cross * cross
}

/// Tells whether the directions of `(dx1, dy1)` and of `(dx2, dy2)` differ
/// by more than two thirds of pi.
pub fn is_sharp_turn(dx1: i32, dy1: i32, dx2: i32, dy2: i32) -> (sharp: bool)
    ensures
        sharp == is_sharp_turn_spec(dx1 as int, dy1 as int, dx2 as int, dy2 as int),
{
    let (a, b): (i128, i128) = if dx1 == 0 && dy1 == 0 {
        (1, 0)
    } else {
        (dx1 as i128, dy1 as i128)
    };
    let (c, d): (i128, i128) = if dx2 == 0 && dy2 == 0 {
        (1, 0)
    } else {
        (dx2 as i128, dy2 as i128)
    };
    assert(-0x4000_0000_0000_0000 <= a * c <= 0x4000_0000_0000_0000) by (nonlinear_arith)
        requires
            -0x8000_0000 <= a <= 0x8000_0000,
            -0x8000_0000 <= c <= 0x8000_0000,
    ;
    assert(-0x4000_0000_0000_0000 <= b * d <= 0x4000_0000_0000_0000) by (nonlinear_arith)
        requires
            -0x8000_0000 <= b <= 0x8000_0000,
            -0x8000_0000 <= d <= 0x8000_0000,
    ;
    assert(-0x4000_0000_0000_0000 <= a * d <= 0x4000_0000_0000_0000) by (nonlinear_arith)
        requires
            -0x8000_0000 <= a <= 0x8000_0000,
            -0x8000_0000 <= d <= 0x8000_0000,
    ;
    assert(-0x4000_0000_0000_0000 <= b * c <= 0x4000_0000_0000_0000) by (nonlinear_arith)
        requires
            -0x8000_0000 <= b <= 0x8000_0000,
            -0x8000_0000 <= c <= 0x8000_0000,
    ;
    let dot: i128 = a * c + b * d;
    let cross: i128 = a * d - b * c;
    if dot >= 0 {
        return false;
    }
    let dot_size: u128 = (-dot) as u128;
    let cross_size: u128 = if cross < 0 {
        (-cross) as u128
    } else {
        cross as u128
    };
    assert(dot_size * dot_size <= 0x4000_0000_0000_0000_0000_0000_0000_0000 && dot_size * dot_size
        == dot * dot) by (nonlinear_arith)
        requires
            dot_size <= 0x8000_0000_0000_0000,
            dot_size == -dot,
    ;
    assert(cross_size * cross_size <= 0x4000_0000_0000_0000_0000_0000_0000_0000 && cross_size
        * cross_size == cross * cross) by (nonlinear_arith)
        requires
            cross_size <= 0x8000_0000_0000_0000,
            cross_size == cross || cross_size == -cross,
    ;
    3 * (dot_size * dot_size) > cross_size * cross_size
}

} // verus!
