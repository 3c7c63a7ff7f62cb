use vstd::prelude::*;

verus! {

/// A point on the project timeline, stored as an exact fraction of seconds.
///
/// The fraction is `numerator / denominator` with a positive denominator; it is
/// not kept in lowest terms, so two values may denote the same instant with
/// different fields. All comparisons are by the instant denoted.
#[derive(Clone, Copy, Debug)]
pub struct Time {
    numerator: i64,
    denominator: u64,
}

/// `a <= b` for instants given as (numerator, positive denominator) pairs.
pub open spec fn instant_le(a_num: int, a_den: int, b_num: int, b_den: int) -> bool {
    a_num * b_den <= b_num * a_den
}

impl Time {
    #[verifier::type_invariant]
    spec fn well_formed(self) -> bool {
        self.denominator > 0
    }

    /// The numerator of the exact number of seconds.
    pub closed spec fn num(self) -> int {
        self.numerator as int
    }

    /// The (positive) denominator of the exact number of seconds.
    pub closed spec fn den(self) -> int {
        if self.denominator == 0 {
            1
        } else {
            self.denominator as int
        }
    }

    /// `self` is at or before `other`.
    pub open spec fn le(self, other: Time) -> bool {
        instant_le(self.num(), self.den(), other.num(), other.den())
    }

    /// `self` is strictly before `other`.
    pub open spec fn lt(self, other: Time) -> bool {
        !other.le(self)
    }

    /// `self` and `other` denote the same instant.
    pub open spec fn same(self, other: Time) -> bool {
        self.le(other) && other.le(self)
    }

    /// The instant as a whole number of nanoseconds, rounded toward negative
    /// infinity, with instants before zero read as zero and instants past
    /// `u64::MAX` nanoseconds read as `u64::MAX`.
    pub open spec fn nonnegative_nanos(self) -> int {
        let n = (self.num() * 1_000_000_000) / self.den();
        if n < 0 {
            0
        } else if n > u64::MAX {
            u64::MAX as int
        } else {
            n
        }
    }

    pub proof fn lemma_den_positive(self)
        ensures
            self.den() > 0,
            self.den() <= u64::MAX,
            i64::MIN <= self.num() <= i64::MAX,
    {
    }

    /// Zero seconds.
    pub fn zero() -> (t: Time)
        ensures
            t.num() == 0,
            t.den() == 1,
    {
        Time { numerator: 0, denominator: 1 }
    }

    /// A whole number of seconds.
    pub fn from_seconds(seconds: i64) -> (t: Time)
        ensures
            t.num() == seconds,
            t.den() == 1,
    {
        Time { numerator: seconds, denominator: 1 }
    }

    /// The fraction `numerator / denominator` of seconds.
    pub fn from_fraction(numerator: i64, denominator: u64) -> (t: Time)
        requires
            denominator > 0,
        ensures
            t.num() == numerator,
            t.den() == denominator,
    {
        Time { numerator, denominator }
    }

    /// The numerator of the stored fraction.
    pub fn numerator(&self) -> (n: i64)
        ensures
            n == self.num(),
    {
        self.numerator
    }

    /// The denominator of the stored fraction.
    pub fn denominator(&self) -> (d: u64)
        ensures
            d == self.den(),
            d > 0,
    {
        proof {
            use_type_invariant(self);
        }
        self.denominator
    }

    /// `self <= other`, comparing the instants exactly.
    pub fn at_or_before(&self, other: &Time) -> (b: bool)
        ensures
            b == self.le(*other),
    {
        proof {
            use_type_invariant(self);
            use_type_invariant(other);
            lemma_cross_product_fits(self.numerator as int, other.denominator as int);
            lemma_cross_product_fits(other.numerator as int, self.denominator as int);
        }
        let left = (self.numerator as i128) * (other.denominator as i128);
        let right = (other.numerator as i128) * (self.denominator as i128);
        left <= right
    }

    /// `self < other`, comparing the instants exactly.
    pub fn before(&self, other: &Time) -> (b: bool)
        ensures
            b == self.lt(*other),
    {
        !other.at_or_before(self)
    }

    /// The earlier of two instants (`self` when they are the same instant).
    pub fn min(self, other: Time) -> (t: Time)
        ensures
            t == (if self.le(other) { self } else { other }),
    {
        if self.at_or_before(&other) {
            self
        } else {
            other
        }
    }

    /// The later of two instants (`other` when they are the same instant).
    pub fn max(self, other: Time) -> (t: Time)
        ensures
            t == (if self.le(other) { other } else { self }),
    {
        if self.at_or_before(&other) {
            other
        } else {
            self
        }
    }

    /// The instant in whole nanoseconds, clamped to the range of `u64`.
    pub fn as_nonnegative_nanos(&self) -> (n: u64)
        ensures
            n == self.nonnegative_nanos(),
    {
        proof {
            use_type_invariant(self);
            assert(-9223372036854775808 * 1_000_000_000 <= self.numerator * 1_000_000_000
                <= 9223372036854775807 * 1_000_000_000) by (nonlinear_arith)
                requires
                    -9223372036854775808 <= self.numerator <= 9223372036854775807,
            ;
        }
        let scaled = (self.numerator as i128) * 1_000_000_000i128;
        if scaled < 0 {
            proof {
                lemma_negative_floor_div(scaled as int, self.denominator as int);
            }
            return 0;
        }
        let nanos = scaled / (self.denominator as i128);
        if nanos > u64::MAX as i128 {
            u64::MAX
        } else {
            nanos as u64
        }
    }
}

/// Both exact cross products of a comparison fit in `i128`.
pub proof fn lemma_cross_product_fits(num: int, den: int)
    requires
        i64::MIN <= num <= i64::MAX,
        0 <= den <= u64::MAX,
    ensures
        i128::MIN < num * den < i128::MAX,
{
    assert(-9223372036854775808 * 18446744073709551615 <= num * den <= 9223372036854775807
        * 18446744073709551615) by (nonlinear_arith)
        requires
            -9223372036854775808 <= num <= 9223372036854775807,
            0 <= den <= 18446744073709551615,
    ;
}

proof fn lemma_negative_floor_div(n: int, d: int)
    requires
        n < 0,
        d > 0,
    ensures
        n / d < 0,
{
    assert(n / d < 0) by (nonlinear_arith)
        requires
            n < 0,
            d > 0,
    ;
}

/// The order of instants is transitive.
pub proof fn lemma_le_transitive(a: Time, b: Time, c: Time)
    requires
        a.le(b),
        b.le(c),
    ensures
        a.le(c),
{
    a.lemma_den_positive();
    b.lemma_den_positive();
    c.lemma_den_positive();
    let (an, ad, bn, bd, cn, cd) = (a.num(), a.den(), b.num(), b.den(), c.num(), c.den());
    assert(an * cd <= cn * ad) by (nonlinear_arith)
        requires
            an * bd <= bn * ad,
            bn * cd <= cn * bd,
            ad > 0,
            bd > 0,
            cd > 0,
    ;
}

/// The order of instants is total.
pub proof fn lemma_le_total(a: Time, b: Time)
    ensures
        a.le(b) || b.le(a),
{
}

/// Mixing strict and non-strict order: `a <= b < c` gives `a < c`.
pub proof fn lemma_le_lt_transitive(a: Time, b: Time, c: Time)
    requires
        a.le(b),
        b.lt(c),
    ensures
        a.lt(c),
{
    a.lemma_den_positive();
    b.lemma_den_positive();
    c.lemma_den_positive();
    let (an, ad, bn, bd, cn, cd) = (a.num(), a.den(), b.num(), b.den(), c.num(), c.den());
    assert(an * cd < cn * ad) by (nonlinear_arith)
        requires
            an * bd <= bn * ad,
            bn * cd < cn * bd,
            ad > 0,
            bd > 0,
            cd > 0,
    ;
}

/// Mixing strict and non-strict order: `a < b <= c` gives `a < c`.
pub proof fn lemma_lt_le_transitive(a: Time, b: Time, c: Time)
    requires
        a.lt(b),
        b.le(c),
    ensures
        a.lt(c),
{
    a.lemma_den_positive();
    b.lemma_den_positive();
    c.lemma_den_positive();
    let (an, ad, bn, bd, cn, cd) = (a.num(), a.den(), b.num(), b.den(), c.num(), c.den());
    assert(an * cd < cn * ad) by (nonlinear_arith)
        requires
            an * bd < bn * ad,
            bn * cd <= cn * bd,
            ad > 0,
            bd > 0,
            cd > 0,
    ;
}

/// `q / r` rounded to the nearest whole number, halves away from zero
/// (`r > 0`).
pub open spec fn rounded_quotient(q: int, r: int) -> int {
    let m = if q < 0 {
        -q
    } else {
        q
    };
    let k = m / r + if m % r >= r - m % r {
        1int
    } else {
        0int
    };
    if q < 0 {
        -k
    } else {
        k
    }
}

/// The number of whole steps nearest to `t` (halves away from zero).
pub open spec fn step_index(t: Time, step: Time) -> int {
    rounded_quotient(t.num() * step.den(), t.den() * step.num())
}

/// Steps of `step` from zero can be written as a `Time` over the step's
/// denominator.
pub open spec fn steps_fit(steps: int, step: Time) -> bool {
    i64::MIN <= steps * step.num() <= i64::MAX
}

/// The number of whole steps of `step` nearest to `t`, halves away from zero.
pub fn step_index_of(t: Time, step: Time) -> (k: i128)
    requires
        step.num() > 0,
    ensures
        k == step_index(t, step),
        -0x7fff_ffff_ffff_ffff_8000_0000_0000_0001 <= k <= 0x7fff_ffff_ffff_ffff_8000_0000_0000_0001,
{
    proof {
        t.lemma_den_positive();
        step.lemma_den_positive();
        lemma_cross_product_fits(t.num(), step.den());
        lemma_cross_product_fits(step.num(), t.den());
        assert(0 < t.den() * step.num()) by (nonlinear_arith)
            requires
                t.den() > 0,
                step.num() > 0,
        ;
        let a = t.num();
        let d = step.den();
        assert(-0x7fff_ffff_ffff_ffff_8000_0000_0000_0000 <= a * d <= 0x7fff_ffff_ffff_ffff_8000_0000_0000_0000) by (nonlinear_arith)
            requires
                -0x8000_0000_0000_0000 <= a <= 0x7fff_ffff_ffff_ffff,
                0 < d <= 0xffff_ffff_ffff_ffff,
        ;
    }
    let q: i128 = (t.numerator() as i128) * (step.denominator() as i128);
    let r: i128 = (step.numerator() as i128) * (t.denominator() as i128);
    proof {
        assert(r == t.den() * step.num()) by (nonlinear_arith)
            requires
                r == step.num() * t.den(),
        ;
    }
    let m: u128 = if q < 0 {
        (-q) as u128
    } else {
        q as u128
    };
    let ru = r as u128;
    let rem = m % ru;
    let up: u128 = if rem >= ru - rem {
        1
    } else {
        0
    };
    let k_abs: u128 = m / ru + up;
    proof {
        assert(m / ru <= m) by (nonlinear_arith)
            requires
                ru > 0,
        ;
    }
    if q < 0 {
        -(k_abs as i128)
    } else {
        k_abs as i128
    }
}

/// Whether `steps` whole steps of `step` can be written as a `Time`.
pub fn steps_fit_exec(steps: i128, step: Time) -> (fits: bool)
    requires
        step.num() > 0,
    ensures
        fits == steps_fit(steps as int, step),
{
    let c = step.numerator() as i128;
    if steps < -0x8000_0000_0000_0000i128 || steps > 0x8000_0000_0000_0000i128 {
        proof {
            if steps < -0x8000_0000_0000_0000i128 {
                assert(steps * c < i64::MIN) by (nonlinear_arith)
                    requires
                        steps < -0x8000_0000_0000_0000i128,
                        c >= 1,
                ;
            } else {
                assert(steps * c > i64::MAX) by (nonlinear_arith)
                    requires
                        steps > 0x8000_0000_0000_0000i128,
                        c >= 1,
                ;
            }
        }
        return false;
    }
    proof {
        assert(-0x8000_0000_0000_0000_0000_0000_0000_0000 < steps * c < 0x7fff_ffff_ffff_ffff_ffff_ffff_ffff_ffff) by (nonlinear_arith)
            requires
                -0x8000_0000_0000_0000i128 <= steps <= 0x8000_0000_0000_0000i128,
                1 <= c <= 0x7fff_ffff_ffff_ffff,
        ;
    }
    let n = steps * c;
    -0x8000_0000_0000_0000i128 <= n && n <= 0x7fff_ffff_ffff_ffffi128
}

/// `t` put on the grid of whole steps of `step`: the multiple of the step
/// nearest to it, halves away from zero, kept over the step's denominator.
pub fn snapped(t: Time, step: Time) -> (on_grid: Time)
    requires
        step.num() > 0,
        steps_fit(step_index(t, step), step),
    ensures
        on_grid.num() == step_index(t, step) * step.num(),
        on_grid.den() == step.den(),
{
    let k = step_index_of(t, step);
    proof {
        step.lemma_den_positive();
        let c = step.num();
        assert(-0x8000_0000_0000_0000_0000_0000_0000_0000 < k * c < 0x7fff_ffff_ffff_ffff_ffff_ffff_ffff_ffff) by (nonlinear_arith)
            requires
                i64::MIN <= k * c <= i64::MAX,
        ;
    }
    let n: i128 = k * (step.numerator() as i128);
    Time::from_fraction(n as i64, step.denominator())
}

} // verus!
