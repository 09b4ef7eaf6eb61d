//! Exact rational numbers.
//!
//! Region edges and cell scales are quotients of surface pixels by cell
//! counts, so they are rationals, not integers.  `Ratio` is the mathematical
//! model: a pair of unbounded integers read as `n / d`.  `Frac` is the
//! executable carrier: an `i64` pair whose view is a `Ratio`.  Values are
//! not normalised; equality and order are the usual cross-multiplied
//! relations, which every operation states exactly.

use vstd::prelude::*;
use vstd::arithmetic::div_mod::lemma_fundamental_div_mod;
use vstd::arithmetic::div_mod::lemma_mod_bound;

verus! {

/// Mathematical rational `n / d`, meaningful when `d > 0`.
pub struct Ratio {
    pub n: int,
    pub d: int,
}

/// A ratio is well formed when its denominator is positive.
pub open spec fn r_wf(a: Ratio) -> bool {
    0 < a.d
}

/// The ratio of a whole number.
pub open spec fn r_of_int(v: int) -> Ratio {
    Ratio { n: v, d: 1 }
}

pub open spec fn r_zero() -> Ratio {
    r_of_int(0)
}

/// `a == b` as rational values (cross-multiplied; denominators positive).
pub open spec fn r_eq(a: Ratio, b: Ratio) -> bool {
    a.n * b.d == b.n * a.d
}

/// `a <= b` as rational values.
pub open spec fn r_le(a: Ratio, b: Ratio) -> bool {
    a.n * b.d <= b.n * a.d
}

/// `a < b` as rational values.
pub open spec fn r_lt(a: Ratio, b: Ratio) -> bool {
    a.n * b.d < b.n * a.d
}

pub open spec fn r_add(a: Ratio, b: Ratio) -> Ratio {
    Ratio { n: a.n * b.d + b.n * a.d, d: a.d * b.d }
}

pub open spec fn r_sub(a: Ratio, b: Ratio) -> Ratio {
    Ratio { n: a.n * b.d - b.n * a.d, d: a.d * b.d }
}

/// The ratio scaled by a whole number.
pub open spec fn r_mul_int(a: Ratio, k: int) -> Ratio {
    Ratio { n: a.n * k, d: a.d }
}

/// The ratio divided by a whole number (meaningful when `k > 0`).
pub open spec fn r_div_int(a: Ratio, k: int) -> Ratio {
    Ratio { n: a.n, d: a.d * k }
}

/// `a / b`, meaningful when `b` is positive.
pub open spec fn r_div(a: Ratio, b: Ratio) -> Ratio {
    Ratio { n: a.n * b.d, d: a.d * b.n }
}

/// The smaller of two ratios; `a` on ties.
pub open spec fn r_min(a: Ratio, b: Ratio) -> Ratio {
    if r_le(a, b) {
        a
    } else {
        b
    }
}

/// The greatest integer at most `a` (for `a.d > 0`, since `/` on `int` is
/// Euclidean division).
pub open spec fn r_floor(a: Ratio) -> int {
    a.n / a.d
}

/// Products of bounded factors are bounded.
pub proof fn lemma_mul_bounds(x: int, y: int, bx: int, by: int)
    by (nonlinear_arith)
    requires
        -bx <= x <= bx,
        -by <= y <= by,
        0 <= bx,
        0 <= by,
    ensures
        -(bx * by) <= x * y <= bx * by,
{
}

/// A product of positive factors is positive.
pub proof fn lemma_mul_pos(x: int, y: int)
    by (nonlinear_arith)
    requires
        0 < x,
        0 < y,
    ensures
        0 < x * y,
{
}

/// `<=` on ratios is transitive.
pub proof fn lemma_r_le_trans(a: Ratio, b: Ratio, c: Ratio)
    by (nonlinear_arith)
    requires
        r_wf(a),
        r_wf(b),
        r_wf(c),
        r_le(a, b),
        r_le(b, c),
    ensures
        r_le(a, c),
{
}

/// `==` on ratio values is transitive.
pub proof fn lemma_r_eq_trans(a: Ratio, b: Ratio, c: Ratio)
    by (nonlinear_arith)
    requires
        r_wf(a),
        r_wf(b),
        r_wf(c),
        r_eq(a, b),
        r_eq(b, c),
    ensures
        r_eq(a, c),
{
}

/// The floor of a ratio brackets its numerator.
pub proof fn lemma_floor_bounds(a: Ratio)
    requires
        r_wf(a),
    ensures
        a.d * r_floor(a) <= a.n,
        a.n < a.d * (r_floor(a) + 1),
{
    lemma_fundamental_div_mod(a.n, a.d);
    lemma_mod_bound(a.n, a.d);
    assert(a.d * (r_floor(a) + 1) == a.d * r_floor(a) + a.d) by (nonlinear_arith);
}

/// A nonnegative ratio's floor is nonnegative.
pub proof fn lemma_floor_nonneg(a: Ratio)
    requires
        r_wf(a),
        0 <= a.n,
    ensures
        0 <= r_floor(a),
{
    lemma_floor_bounds(a);
    assert(0 <= r_floor(a)) by (nonlinear_arith)
        requires
            0 < a.d,
            0 <= a.n,
            a.n < a.d * (r_floor(a) + 1),
    ;
}

/// A point of a half-open interval gives a nonnegative offset from its
/// start, below its extent; such an interval has positive extent.
pub proof fn lemma_interval_offset(start: Ratio, extent: Ratio, p: Ratio)
    requires
        r_wf(start),
        r_wf(extent),
        r_wf(p),
        r_le(start, p),
        r_lt(p, r_add(start, extent)),
    ensures
        0 < extent.n,
        0 <= r_sub(p, start).n,
        r_wf(r_sub(p, start)),
        r_lt(r_sub(p, start), extent),
{
    lemma_mul_pos(p.d, start.d);
    assert(0 < extent.n) by (nonlinear_arith)
        requires
            0 < start.d,
            0 < extent.d,
            0 < p.d,
            start.n * p.d <= p.n * start.d,
            p.n * (start.d * extent.d) < (start.n * extent.d + extent.n * start.d) * p.d,
    ;
    assert(0 <= r_sub(p, start).n) by (nonlinear_arith)
        requires
            0 < start.d,
            0 < p.d,
            start.n * p.d <= p.n * start.d,
            r_sub(p, start).n == p.n * start.d - start.n * p.d,
    ;
    assert(r_lt(r_sub(p, start), extent)) by (nonlinear_arith)
        requires
            0 < start.d,
            0 < extent.d,
            0 < p.d,
            p.n * (start.d * extent.d) < (start.n * extent.d + extent.n * start.d) * p.d,
            r_sub(p, start).n == p.n * start.d - start.n * p.d,
            r_sub(p, start).d == p.d * start.d,
    ;
}

/// `<` then `<=` chains to `<`.
pub proof fn lemma_r_lt_le_trans(a: Ratio, b: Ratio, c: Ratio)
    by (nonlinear_arith)
    requires
        r_wf(a),
        r_wf(b),
        r_wf(c),
        r_lt(a, b),
        r_le(b, c),
    ensures
        r_lt(a, c),
{
}

/// A point whose offset from an interval's start is nonnegative and below
/// the extent lies in the interval: the converse of `lemma_interval_offset`.
pub proof fn lemma_offset_within(start: Ratio, extent: Ratio, p: Ratio)
    requires
        r_wf(start),
        r_wf(extent),
        r_wf(p),
        0 <= r_sub(p, start).n,
        r_lt(r_sub(p, start), extent),
    ensures
        r_le(start, p),
        r_lt(p, r_add(start, extent)),
{
    assert(r_le(start, p)) by (nonlinear_arith)
        requires
            0 < start.d,
            0 < p.d,
            0 <= p.n * start.d - start.n * p.d,
    ;
    assert(r_lt(p, r_add(start, extent))) by (nonlinear_arith)
        requires
            0 < start.d,
            0 < extent.d,
            0 < p.d,
            (p.n * start.d - start.n * p.d) * extent.d < extent.n * (p.d * start.d),
    ;
}

/// `floor(a / b) < k` when `a < k * b`.
pub proof fn lemma_floor_div_below(a: Ratio, b: Ratio, k: int)
    requires
        r_wf(a),
        r_wf(b),
        0 < b.n,
        r_lt(a, r_mul_int(b, k)),
    ensures
        r_floor(r_div(a, b)) < k,
{
    lemma_mul_pos(a.d, b.n);
    lemma_floor_bounds(r_div(a, b));
    assert(r_floor(r_div(a, b)) < k) by (nonlinear_arith)
        requires
            0 < a.d,
            0 < b.d,
            0 < b.n,
            (a.d * b.n) * r_floor(r_div(a, b)) <= a.n * b.d,
            a.n * b.d < (b.n * k) * a.d,
    ;
}

/// `k <= floor(a / b)` when `k * b <= a`.
pub proof fn lemma_floor_div_at_least(a: Ratio, b: Ratio, k: int)
    requires
        r_wf(a),
        r_wf(b),
        0 < b.n,
        r_le(r_mul_int(b, k), a),
    ensures
        k <= r_floor(r_div(a, b)),
{
    lemma_mul_pos(a.d, b.n);
    lemma_floor_bounds(r_div(a, b));
    assert(k <= r_floor(r_div(a, b))) by (nonlinear_arith)
        requires
            0 < a.d,
            0 < b.d,
            0 < b.n,
            a.n * b.d < (a.d * b.n) * (r_floor(r_div(a, b)) + 1),
            (b.n * k) * a.d <= a.n * b.d,
    ;
}

/// The quotient of a nonnegative value below `w` by a positive divisor is
/// nonnegative and below `w.n * b.d`.
pub proof fn lemma_floor_div_upper(a: Ratio, b: Ratio, w: Ratio)
    requires
        r_wf(a),
        r_wf(b),
        r_wf(w),
        0 <= a.n,
        0 < b.n,
        0 <= w.n,
        r_lt(a, w),
    ensures
        0 <= r_floor(r_div(a, b)),
        r_floor(r_div(a, b)) < w.n * b.d,
{
    lemma_mul_pos(a.d, b.n);
    lemma_mul_bounds(a.n, b.d, a.n, b.d);
    lemma_floor_nonneg(r_div(a, b));
    lemma_floor_bounds(r_div(a, b));
    assert(r_floor(r_div(a, b)) < w.n * b.d) by (nonlinear_arith)
        requires
            0 < a.d,
            0 < b.d,
            0 < b.n,
            0 < w.d,
            0 <= w.n,
            0 <= r_floor(r_div(a, b)),
            (a.d * b.n) * r_floor(r_div(a, b)) <= a.n * b.d,
            a.n * w.d < w.n * a.d,
    ;
}

/// Executable fields may not exceed this magnitude, so that any cross
/// product of two well-formed values fits comfortably in an `i128`.
pub const FRAC_LIMIT: i64 = 0x4000_0000_0000_0000;

/// The carrier's fields stay within the given caps: how the layout and the
/// picker state the headroom their chained operations need.
pub open spec fn f_capped(f: Frac, num_cap: int, den_cap: int) -> bool {
    &&& -num_cap <= f.num <= num_cap
    &&& 0 < f.den <= den_cap
}

/// Executable rational: `num / den` with `den > 0`.
#[derive(Clone, Copy, Debug)]
pub struct Frac {
    pub num: i64,
    pub den: i64,
}

impl View for Frac {
    type V = Ratio;

    open spec fn view(&self) -> Ratio {
        Ratio { n: self.num as int, d: self.den as int }
    }
}

impl Frac {
    /// Positive denominator, and both fields small enough that cross
    /// products of two well-formed values stay within `i128`.
    pub open spec fn wf(self) -> bool {
        &&& 0 < self.den <= FRAC_LIMIT
        &&& -FRAC_LIMIT <= self.num <= FRAC_LIMIT
    }

    pub fn new(num: i64, den: i64) -> (r: Frac)
        requires
            0 < den <= FRAC_LIMIT,
            -FRAC_LIMIT <= num <= FRAC_LIMIT,
        ensures
            r.wf(),
            r@ == (Ratio { n: num as int, d: den as int }),
    {
        Frac { num, den }
    }

    pub fn from_int(v: i64) -> (r: Frac)
        requires
            -FRAC_LIMIT <= v <= FRAC_LIMIT,
        ensures
            r.wf(),
            r@ == r_of_int(v as int),
    {
        Frac { num: v, den: 1 }
    }

    pub fn zero() -> (r: Frac)
        ensures
            r.wf(),
            r@ == r_zero(),
    {
        Frac { num: 0, den: 1 }
    }

    pub fn plus(self, other: Frac) -> (r: Frac)
        requires
            self.wf(),
            other.wf(),
            -FRAC_LIMIT <= self@.n * other@.d + other@.n * self@.d <= FRAC_LIMIT,
            self@.d * other@.d <= FRAC_LIMIT,
        ensures
            r.wf(),
            r@ == r_add(self@, other@),
    {
        proof {
            lemma_mul_bounds(self.num as int, other.den as int, FRAC_LIMIT as int, FRAC_LIMIT as int);
            lemma_mul_bounds(other.num as int, self.den as int, FRAC_LIMIT as int, FRAC_LIMIT as int);
            lemma_mul_bounds(self.den as int, other.den as int, FRAC_LIMIT as int, FRAC_LIMIT as int);
            lemma_mul_pos(self.den as int, other.den as int);
        }
        let n: i128 = self.num as i128 * other.den as i128 + other.num as i128 * self.den as i128;
        let d: i128 = self.den as i128 * other.den as i128;
        Frac { num: n as i64, den: d as i64 }
    }

    pub fn minus(self, other: Frac) -> (r: Frac)
        requires
            self.wf(),
            other.wf(),
            -FRAC_LIMIT <= self@.n * other@.d - other@.n * self@.d <= FRAC_LIMIT,
            self@.d * other@.d <= FRAC_LIMIT,
        ensures
            r.wf(),
            r@ == r_sub(self@, other@),
    {
        proof {
            lemma_mul_bounds(self.num as int, other.den as int, FRAC_LIMIT as int, FRAC_LIMIT as int);
            lemma_mul_bounds(other.num as int, self.den as int, FRAC_LIMIT as int, FRAC_LIMIT as int);
            lemma_mul_bounds(self.den as int, other.den as int, FRAC_LIMIT as int, FRAC_LIMIT as int);
            lemma_mul_pos(self.den as int, other.den as int);
        }
        let n: i128 = self.num as i128 * other.den as i128 - other.num as i128 * self.den as i128;
        let d: i128 = self.den as i128 * other.den as i128;
        Frac { num: n as i64, den: d as i64 }
    }

    /// The value scaled by a whole number of cells.
    pub fn times_whole(self, k: usize) -> (r: Frac)
        requires
            self.wf(),
            -FRAC_LIMIT <= self@.n * k <= FRAC_LIMIT,
        ensures
            r.wf(),
            r@ == r_mul_int(self@, k as int),
    {
        proof {
            lemma_mul_bounds(self.num as int, k as int, FRAC_LIMIT as int, usize::MAX as int);
        }
        let n: i128 = self.num as i128 * k as i128;
        Frac { num: n as i64, den: self.den }
    }

    /// The value divided by a positive whole number.
    pub fn over_whole(self, k: usize) -> (r: Frac)
        requires
            self.wf(),
            0 < k,
            self@.d * k <= FRAC_LIMIT,
        ensures
            r.wf(),
            r@ == r_div_int(self@, k as int),
    {
        proof {
            lemma_mul_bounds(self.den as int, k as int, FRAC_LIMIT as int, usize::MAX as int);
            lemma_mul_pos(self.den as int, k as int);
        }
        let d: i128 = self.den as i128 * k as i128;
        Frac { num: self.num, den: d as i64 }
    }

    pub fn le(self, other: Frac) -> (r: bool)
        requires
            self.wf(),
            other.wf(),
        ensures
            r == r_le(self@, other@),
    {
        proof {
            lemma_mul_bounds(self.num as int, other.den as int, FRAC_LIMIT as int, FRAC_LIMIT as int);
            lemma_mul_bounds(other.num as int, self.den as int, FRAC_LIMIT as int, FRAC_LIMIT as int);
        }
        (self.num as i128 * other.den as i128) <= (other.num as i128 * self.den as i128)
    }

    pub fn lt(self, other: Frac) -> (r: bool)
        requires
            self.wf(),
            other.wf(),
        ensures
            r == r_lt(self@, other@),
    {
        proof {
            lemma_mul_bounds(self.num as int, other.den as int, FRAC_LIMIT as int, FRAC_LIMIT as int);
            lemma_mul_bounds(other.num as int, self.den as int, FRAC_LIMIT as int, FRAC_LIMIT as int);
        }
        (self.num as i128 * other.den as i128) < (other.num as i128 * self.den as i128)
    }

    /// Value equality (the carriers may differ, as in `15/1` and `30/2`).
    pub fn equiv(self, other: Frac) -> (r: bool)
        requires
            self.wf(),
            other.wf(),
        ensures
            r == r_eq(self@, other@),
    {
        proof {
            lemma_mul_bounds(self.num as int, other.den as int, FRAC_LIMIT as int, FRAC_LIMIT as int);
            lemma_mul_bounds(other.num as int, self.den as int, FRAC_LIMIT as int, FRAC_LIMIT as int);
        }
        (self.num as i128 * other.den as i128) == (other.num as i128 * self.den as i128)
    }

    /// The smaller value; `self` on ties.
    pub fn min_with(self, other: Frac) -> (r: Frac)
        requires
            self.wf(),
            other.wf(),
        ensures
            r.wf(),
            r@ == r_min(self@, other@),
            r == self || r == other,
    {
        if self.le(other) {
            self
        } else {
            other
        }
    }

    /// `floor(self / other)` for a nonnegative value and a positive divisor.
    pub fn floor_div_by(self, other: Frac) -> (q: i64)
        requires
            self.wf(),
            other.wf(),
            0 <= self@.n,
            0 < other@.n,
            r_floor(r_div(self@, other@)) <= i64::MAX,
        ensures
            q == r_floor(r_div(self@, other@)),
    {
        proof {
            lemma_mul_bounds(self.num as int, other.den as int, FRAC_LIMIT as int, FRAC_LIMIT as int);
            lemma_mul_bounds(self.den as int, other.num as int, FRAC_LIMIT as int, FRAC_LIMIT as int);
            lemma_mul_pos(self.den as int, other.num as int);
        }
        let n: u128 = self.num as u128 * other.den as u128;
        let d: u128 = self.den as u128 * other.num as u128;
        let q128: u128 = n / d;
        q128 as i64
    }
}

} // verus!
