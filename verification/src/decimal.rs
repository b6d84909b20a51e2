//! Fixed-point decimal numbers `mantissa / 10^scale`, the representation `rust_decimal` uses.
//!
//! Arithmetic that only `rust_decimal` computes is reached through small trusted wrappers whose
//! contracts state the exact result whenever that result is representable.

use rust_decimal::Decimal;
use vstd::arithmetic::power::{lemma_pow0, lemma_pow_adds, lemma_pow_positive, pow};
use vstd::prelude::*;

verus! {

/// Largest mantissa magnitude a decimal can hold (`2^96 - 1`).
pub const MAX_MANTISSA: i128 = 79228162514264337593543950335i128;

/// Largest number of fractional digits a decimal can hold.
pub const MAX_SCALE: u32 = 28u32;

/// A decimal number with value `mantissa / 10^scale`.
#[derive(Clone, Copy, Debug)]
pub struct Dec {
    pub mantissa: i128,
    pub scale: u32,
}

/// `10^n`.
pub open spec fn pow10(n: nat) -> int {
    pow(10, n)
}

impl Dec {
    /// The bounds every decimal respects.
    pub open spec fn wf(self) -> bool {
        &&& self.scale <= MAX_SCALE
        &&& -MAX_MANTISSA <= self.mantissa <= MAX_MANTISSA
    }

    /// Denominator of the value.
    pub open spec fn den(self) -> int {
        pow10(self.scale as nat)
    }

    /// Mantissa of the same value written with `s` fractional digits (`s >= scale`).
    pub open spec fn at_scale(self, s: nat) -> int {
        self.mantissa * pow10((s - self.scale) as nat)
    }

    /// The value is an integer.
    pub open spec fn is_integral(self) -> bool {
        (self.mantissa as int) % self.den() == 0
    }
}

/// Both decimals denote the same rational number.
pub open spec fn same_value(a: Dec, b: Dec) -> bool {
    a.mantissa * b.den() == b.mantissa * a.den()
}

/// `a <= b` as rational numbers.
pub open spec fn value_le(a: Dec, b: Dec) -> bool {
    a.mantissa * b.den() <= b.mantissa * a.den()
}

/// Comparison by value is transitive.
pub proof fn lemma_value_le_trans(a: Dec, b: Dec, c: Dec)
    requires
        value_le(a, b),
        value_le(b, c),
    ensures
        value_le(a, c),
{
    lemma_pow_positive(10, a.scale as nat);
    lemma_pow_positive(10, b.scale as nat);
    lemma_pow_positive(10, c.scale as nat);
    let am = a.mantissa as int;
    let bm = b.mantissa as int;
    let cm = c.mantissa as int;
    let da = a.den();
    let db = b.den();
    let dc = c.den();
    assert(am * dc <= cm * da) by (nonlinear_arith)
        requires
            am * db <= bm * da,
            bm * dc <= cm * db,
            da > 0,
            db > 0,
            dc > 0,
    {
        assert(am * db * dc <= bm * da * dc);
        assert(bm * dc * da <= cm * db * da);
        assert(am * dc * db <= cm * da * db);
    }
}

/// `a < b` as rational numbers.
pub open spec fn value_lt(a: Dec, b: Dec) -> bool {
    a.mantissa * b.den() < b.mantissa * a.den()
}

/// The value is zero.
pub open spec fn is_zero_value(a: Dec) -> bool {
    a.mantissa == 0
}

/// The larger of two scales.
pub open spec fn max_scale(a: Dec, b: Dec) -> nat {
    if a.scale >= b.scale {
        a.scale as nat
    } else {
        b.scale as nat
    }
}

/// The exact sum, written at the larger of the two scales (not necessarily representable).
pub open spec fn exact_add(a: Dec, b: Dec) -> (int, nat) {
    let s = max_scale(a, b);
    (a.at_scale(s) + b.at_scale(s), s)
}

/// The exact difference, written at the larger of the two scales.
pub open spec fn exact_sub(a: Dec, b: Dec) -> (int, nat) {
    let s = max_scale(a, b);
    (a.at_scale(s) - b.at_scale(s), s)
}

/// The exact product.
pub open spec fn exact_mul(a: Dec, b: Dec) -> (int, nat) {
    (a.mantissa * b.mantissa, (a.scale + b.scale) as nat)
}

/// A mantissa/scale pair fits a decimal without rounding.
pub open spec fn representable(v: (int, nat)) -> bool {
    &&& v.1 <= MAX_SCALE
    &&& -MAX_MANTISSA <= v.0 <= MAX_MANTISSA
}

/// `r` has the value of the mantissa/scale pair `v`.
pub open spec fn has_value(r: Dec, v: (int, nat)) -> bool {
    r.mantissa * pow10(v.1) == v.0 * r.den()
}

/// `r` is the exact quotient `a / b`.
pub open spec fn is_quotient(r: Dec, a: Dec, b: Dec) -> bool {
    r.mantissa * b.mantissa * a.den() == a.mantissa * b.den() * r.den()
}

/// The quotient `a / b` lies strictly inside the decimal range, so dividing cannot overflow.
pub open spec fn div_in_range(a: Dec, b: Dec) -> bool {
    &&& b.mantissa != 0
    &&& abs(a.mantissa as int) * b.den() < (MAX_MANTISSA - 1) * abs(b.mantissa as int) * a.den()
}

/// Absolute value.
pub open spec fn abs(x: int) -> int {
    if x < 0 {
        -x
    } else {
        x
    }
}

/// What `rust_decimal` parses a decimal text into, when it accepts it.
pub uninterp spec fn decimal_parse(s: Seq<char>) -> Option<(i128, u32)>;

/// The text `rust_decimal` prints for a decimal.
pub uninterp spec fn decimal_text(d: (i128, u32)) -> Seq<char>;

impl Dec {
    /// The pair of plain values that describes this decimal.
    pub open spec fn parts(self) -> (i128, u32) {
        (self.mantissa, self.scale)
    }

    /// Decimal `mantissa / 10^scale`.
    pub fn new(mantissa: i128, scale: u32) -> (r: Dec)
        requires
            scale <= MAX_SCALE,
            -MAX_MANTISSA <= mantissa <= MAX_MANTISSA,
        ensures
            r.mantissa == mantissa,
            r.scale == scale,
            r.wf(),
    {
        Dec { mantissa, scale }
    }

    /// Zero.
    pub fn zero() -> (r: Dec)
        ensures
            r.wf(),
            r.mantissa == 0,
            r.scale == 0,
    {
        Dec { mantissa: 0, scale: 0 }
    }

    /// One.
    pub fn one() -> (r: Dec)
        ensures
            r.wf(),
            r.mantissa == 1,
            r.scale == 0,
    {
        Dec { mantissa: 1, scale: 0 }
    }

    /// Integer value `v`.
    pub fn from_i64(v: i64) -> (r: Dec)
        ensures
            r.wf(),
            r.mantissa == v,
            r.scale == 0,
    {
        Dec { mantissa: v as i128, scale: 0 }
    }

    /// Whether the value is zero.
    pub fn is_zero(&self) -> (r: bool)
        ensures
            r == (self.mantissa == 0),
    {
        self.mantissa == 0
    }

    /// Negation (exact).
    pub fn neg(&self) -> (r: Dec)
        requires
            self.wf(),
        ensures
            r.wf(),
            r.mantissa == -self.mantissa,
            r.scale == self.scale,
    {
        Dec { mantissa: -self.mantissa, scale: self.scale }
    }
}

/// `-a`.
pub open spec fn neg_dec(a: Dec) -> Dec {
    Dec { mantissa: (-a.mantissa) as i128, scale: a.scale }
}

/// `|a|`.
pub open spec fn abs_dec(a: Dec) -> Dec {
    Dec { mantissa: abs(a.mantissa as int) as i128, scale: a.scale }
}

/// Sign of the value: -1, 0 or 1.
pub open spec fn sign_of(a: Dec) -> int {
    if a.mantissa > 0 {
        1
    } else if a.mantissa < 0 {
        -1
    } else {
        0
    }
}

/// The sign as a decimal of scale 0 (`rust_decimal`'s `signum`).
pub open spec fn signum_dec(a: Dec) -> Dec {
    Dec { mantissa: sign_of(a) as i128, scale: 0 }
}

/// The smaller value; the first one when they are equal (`Ord::min`).
pub open spec fn min_dec(a: Dec, b: Dec) -> Dec {
    if value_le(a, b) {
        a
    } else {
        b
    }
}

impl Dec {
    /// Absolute value (exact).
    pub fn abs(&self) -> (r: Dec)
        requires
            self.wf(),
        ensures
            r == abs_dec(*self),
            r.wf(),
    {
        if self.mantissa < 0 {
            Dec { mantissa: -self.mantissa, scale: self.scale }
        } else {
            *self
        }
    }

    /// `-1`, `0` or `1` with scale 0.
    pub fn signum(&self) -> (r: Dec)
        ensures
            r == signum_dec(*self),
            r.wf(),
    {
        if self.mantissa > 0 {
            Dec { mantissa: 1, scale: 0 }
        } else if self.mantissa < 0 {
            Dec { mantissa: -1, scale: 0 }
        } else {
            Dec { mantissa: 0, scale: 0 }
        }
    }

    /// Sign of the value: -1, 0 or 1.
    pub fn sign(&self) -> (r: i8)
        ensures
            r == sign_of(*self),
    {
        if self.mantissa > 0 {
            1
        } else if self.mantissa < 0 {
            -1
        } else {
            0
        }
    }
}

/// The smaller of two decimals; the first when they are equal.
pub fn dec_min(a: Dec, b: Dec) -> (r: Dec)
    requires
        a.wf(),
        b.wf(),
    ensures
        r == min_dec(a, b),
{
    if dec_le(a, b) {
        a
    } else {
        b
    }
}

/// `a < b` as numbers.
///
/// Trusted: `rust_decimal`'s `PartialOrd` for `Decimal` orders by numeric value.
#[verifier::external_body]
pub(crate) fn dec_lt(a: Dec, b: Dec) -> (r: bool)
    requires
        a.wf(),
        b.wf(),
    ensures
        r == value_lt(a, b),
{
    Decimal::from_i128_with_scale(a.mantissa, a.scale) < Decimal::from_i128_with_scale(
        b.mantissa,
        b.scale,
    )
}

/// `a <= b` as numbers.
pub fn dec_le(a: Dec, b: Dec) -> (r: bool)
    requires
        a.wf(),
        b.wf(),
    ensures
        r == value_le(a, b),
{
    !dec_lt(b, a)
}

/// The decimal with the given mantissa/scale pair.
pub open spec fn dec_of(p: (i128, u32)) -> Dec {
    Dec { mantissa: p.0, scale: p.1 }
}

/// An optional mantissa/scale pair as an optional decimal.
pub open spec fn opt_dec(p: Option<(i128, u32)>) -> Option<Dec> {
    match p {
        Some(x) => Some(dec_of(x)),
        None => None,
    }
}

/// The decimal holding an exact mantissa/scale pair (meaningful when it is representable).
pub open spec fn dec_of_exact(v: (int, nat)) -> Dec {
    Dec { mantissa: v.0 as i128, scale: v.1 as u32 }
}

/// Zero with scale 0, `rust_decimal`'s `Decimal::ZERO`.
pub open spec fn zero_dec() -> Dec {
    Dec { mantissa: 0, scale: 0 }
}

/// What `rust_decimal`'s checked addition returns.
pub uninterp spec fn decimal_checked_sum(a: (i128, u32), b: (i128, u32)) -> Option<(i128, u32)>;

/// What `rust_decimal`'s checked subtraction returns.
pub uninterp spec fn decimal_checked_difference(a: (i128, u32), b: (i128, u32)) -> Option<
    (i128, u32),
>;

/// What `rust_decimal`'s checked multiplication returns.
pub uninterp spec fn decimal_checked_product(a: (i128, u32), b: (i128, u32)) -> Option<
    (i128, u32),
>;

/// What `rust_decimal`'s checked division returns.
pub uninterp spec fn decimal_checked_quotient(a: (i128, u32), b: (i128, u32)) -> Option<
    (i128, u32),
>;

/// `a + b`, `None` on overflow.
pub open spec fn sum_of(a: Dec, b: Dec) -> Option<Dec> {
    opt_dec(decimal_checked_sum(a.parts(), b.parts()))
}

/// `a - b`, `None` on overflow.
pub open spec fn diff_of(a: Dec, b: Dec) -> Option<Dec> {
    opt_dec(decimal_checked_difference(a.parts(), b.parts()))
}

/// `a * b`, `None` on overflow.
pub open spec fn prod_of(a: Dec, b: Dec) -> Option<Dec> {
    opt_dec(decimal_checked_product(a.parts(), b.parts()))
}

/// `a / b`, `None` on a zero divisor or overflow.
pub open spec fn quot_of(a: Dec, b: Dec) -> Option<Dec> {
    opt_dec(decimal_checked_quotient(a.parts(), b.parts()))
}

/// Sign of an integer: -1, 0 or 1.
pub open spec fn sign_int(v: int) -> int {
    if v > 0 {
        1
    } else if v < 0 {
        -1
    } else {
        0
    }
}

/// `x` is the mantissa/scale pair `e` written with at most as many fractional digits: the
/// same value, `e.0 == x.mantissa * 10^(e.1 - x.scale)`.
pub open spec fn scaled_up_to(x: Dec, e: (int, nat)) -> bool {
    &&& x.scale <= e.1
    &&& e.0 == x.mantissa * pow10((e.1 - x.scale) as nat)
}

/// A decimal that is a pair written with fewer digits has the pair's value and sign.
pub proof fn lemma_scaled_value(x: Dec, e: (int, nat))
    requires
        scaled_up_to(x, e),
    ensures
        has_value(x, e),
        sign_of(x) == sign_int(e.0),
{
    let k = (e.1 - x.scale) as nat;
    let p = pow10(k);
    let d = x.den();
    lemma_pow_positive(10, k);
    lemma_pow_positive(10, x.scale as nat);
    lemma_pow_adds(10, k, x.scale as nat);
    assert(k + x.scale as nat == e.1);
    let m = x.mantissa as int;
    assert(m * (p * d) == (m * p) * d) by (nonlinear_arith);
    assert(sign_int(m * p) == sign_int(m)) by (nonlinear_arith)
        requires
            p > 0,
    ;
}

/// `sign(x * p) == sign(x)` for a positive factor `p`.
pub proof fn lemma_sign_int_positive_factor(x: int, p: int)
    requires
        p > 0,
    ensures
        sign_int(x * p) == sign_int(x),
{
    assert(sign_int(x * p) == sign_int(x)) by (nonlinear_arith)
        requires
            p > 0,
    ;
}

/// A checked difference whose exact value fits is that exact difference, possibly written with
/// fewer digits when an operand is zero.
pub proof fn lemma_checked_sub_scaled(a: Dec, b: Dec, r: Option<Dec>)
    requires
        a.wf(),
        b.wf(),
        representable(exact_sub(a, b)),
        a.mantissa == 0 ==> r == Some(Dec { mantissa: (-b.mantissa) as i128, scale: b.scale }),
        a.mantissa != 0 && b.mantissa == 0 ==> r == Some(a),
        a.mantissa != 0 && b.mantissa != 0 && representable(exact_sub(a, b)) ==> r == Some(
            dec_of_exact(exact_sub(a, b)),
        ),
    ensures
        r matches Some(d) && scaled_up_to(d, exact_sub(a, b)),
{
    let s = max_scale(a, b);
    lemma_pow0(10);
    let pa = pow10((s - a.scale) as nat);
    let pb = pow10((s - b.scale) as nat);
    let am = a.mantissa as int;
    let bm = b.mantissa as int;
    if a.mantissa == 0 {
        assert(am * pa == 0) by (nonlinear_arith)
            requires
                am == 0,
        ;
        assert(exact_sub(a, b).0 == -bm * pb) by (nonlinear_arith)
            requires
                exact_sub(a, b).0 == am * pa - bm * pb,
                am * pa == 0,
        ;
    } else if b.mantissa == 0 {
        assert(bm * pb == 0) by (nonlinear_arith)
            requires
                bm == 0,
        ;
    } else {
        let d = dec_of_exact(exact_sub(a, b));
        assert(d.scale == s);
        assert((exact_sub(a, b).1 - d.scale) as nat == 0nat);
        assert(exact_sub(a, b).0 == d.mantissa * 1);
    }
}

/// A checked sum whose exact value fits is that exact sum, possibly written with fewer digits
/// when an operand is zero.
pub proof fn lemma_checked_add_scaled(a: Dec, b: Dec, r: Option<Dec>)
    requires
        a.wf(),
        b.wf(),
        representable(exact_add(a, b)),
        a.mantissa == 0 ==> r == Some(b),
        a.mantissa != 0 && b.mantissa == 0 ==> r == Some(a),
        a.mantissa != 0 && b.mantissa != 0 && representable(exact_add(a, b)) ==> r == Some(
            dec_of_exact(exact_add(a, b)),
        ),
    ensures
        r matches Some(d) && scaled_up_to(d, exact_add(a, b)),
{
    let s = max_scale(a, b);
    lemma_pow0(10);
    let pa = pow10((s - a.scale) as nat);
    let pb = pow10((s - b.scale) as nat);
    let am = a.mantissa as int;
    let bm = b.mantissa as int;
    if a.mantissa == 0 {
        assert(am * pa == 0) by (nonlinear_arith)
            requires
                am == 0,
        ;
    } else if b.mantissa == 0 {
        assert(bm * pb == 0) by (nonlinear_arith)
            requires
                bm == 0,
        ;
    } else {
        let d = dec_of_exact(exact_add(a, b));
        assert(d.scale == s);
        assert((exact_add(a, b).1 - d.scale) as nat == 0nat);
        assert(exact_add(a, b).0 == d.mantissa * 1);
    }
}

/// The exact difference of a mantissa/scale pair and a decimal, at the larger of the two scales.
pub open spec fn pair_minus(e: (int, nat), b: Dec) -> (int, nat) {
    let s = if e.1 >= b.scale {
        e.1
    } else {
        b.scale as nat
    };
    (e.0 * pow10((s - e.1) as nat) - b.mantissa * pow10((s - b.scale) as nat), s)
}

/// `10^0 == 1`.
pub proof fn lemma_pow10_zero()
    ensures
        pow10(0) == 1,
{
    lemma_pow0(10);
}

/// `10^(k - i) == 10^(j - i) * 10^(k - j)` for `i <= j <= k`.
proof fn lemma_pow10_split(i: nat, j: nat, k: nat)
    requires
        i <= j <= k,
    ensures
        pow10((k - i) as nat) == pow10((j - i) as nat) * pow10((k - j) as nat),
{
    lemma_pow_adds(10, (j - i) as nat, (k - j) as nat);
    assert((j - i) as nat + (k - j) as nat == (k - i) as nat);
}

/// A checked difference `x - b`, where `x` is the pair `xe` with fewer digits, is the exact
/// difference of the pair and `b` when that fits, again written with at most as many digits.
pub proof fn lemma_checked_sub_after(x: Dec, xe: (int, nat), b: Dec, r: Option<Dec>)
    requires
        x.wf(),
        b.wf(),
        scaled_up_to(x, xe),
        representable(pair_minus(xe, b)),
        x.mantissa == 0 ==> r == Some(Dec { mantissa: (-b.mantissa) as i128, scale: b.scale }),
        x.mantissa != 0 && b.mantissa == 0 ==> r == Some(x),
        x.mantissa != 0 && b.mantissa != 0 && representable(exact_sub(x, b)) ==> r == Some(
            dec_of_exact(exact_sub(x, b)),
        ),
    ensures
        r matches Some(d) && scaled_up_to(d, pair_minus(xe, b)),
{
    let pm = pair_minus(xe, b);
    let s = pm.1;
    let xm = x.mantissa as int;
    let bm = b.mantissa as int;
    let px = pow10((xe.1 - x.scale) as nat);
    let qx = pow10((s - xe.1) as nat);
    let pbs = pow10((s - b.scale) as nat);
    lemma_pow10_split(x.scale as nat, xe.1, s);
    assert(xe.0 * qx == xm * pow10((s - x.scale) as nat)) by (nonlinear_arith)
        requires
            xe.0 == xm * px,
            pow10((s - x.scale) as nat) == px * qx,
    ;
    if x.mantissa == 0 {
        assert(xm * pow10((s - x.scale) as nat) == 0) by (nonlinear_arith)
            requires
                xm == 0,
        ;
        assert((-bm) * pbs == -(bm * pbs)) by (nonlinear_arith);
        assert(pm.0 == (-bm) * pbs);
        assert(b.scale <= s);
    } else if b.mantissa == 0 {
        assert(bm * pbs == 0) by (nonlinear_arith)
            requires
                bm == 0,
        ;
        assert(pm.0 == xm * pow10((s - x.scale) as nat));
        assert(x.scale <= s);
    } else {
        let t = max_scale(x, b);
        let e = exact_sub(x, b);
        let ptx = pow10((t - x.scale) as nat);
        let ptb = pow10((t - b.scale) as nat);
        let st = pow10((s - t) as nat);
        lemma_pow_positive(10, (s - t) as nat);
        lemma_pow10_split(x.scale as nat, t, s);
        lemma_pow10_split(b.scale as nat, t, s);
        assert(pm.0 == e.0 * st) by (nonlinear_arith)
            requires
                pm.0 == xm * (ptx * st) - bm * (ptb * st),
                e.0 == xm * ptx - bm * ptb,
        ;
        let mx = MAX_MANTISSA as int;
        assert(-mx <= e.0 <= mx) by (nonlinear_arith)
            requires
                st >= 1,
                -mx <= e.0 * st <= mx,
        ;
        assert(representable(e));
        let d = dec_of_exact(e);
        assert(d.scale == t);
        assert(d.mantissa == e.0);
        assert(pm.0 == d.mantissa * pow10((s - d.scale) as nat));
    }
}

/// The exact sum of a mantissa/scale pair and a decimal, at the larger of the two scales.
pub open spec fn pair_plus(e: (int, nat), b: Dec) -> (int, nat) {
    let s = if e.1 >= b.scale {
        e.1
    } else {
        b.scale as nat
    };
    (e.0 * pow10((s - e.1) as nat) + b.mantissa * pow10((s - b.scale) as nat), s)
}

/// A checked sum `x + b`, where `x` is the pair `xe` with fewer digits, is the exact sum of the
/// pair and `b` when that fits, again written with at most as many digits.
pub proof fn lemma_checked_add_after(x: Dec, xe: (int, nat), b: Dec, r: Option<Dec>)
    requires
        x.wf(),
        b.wf(),
        scaled_up_to(x, xe),
        representable(pair_plus(xe, b)),
        x.mantissa == 0 ==> r == Some(b),
        x.mantissa != 0 && b.mantissa == 0 ==> r == Some(x),
        x.mantissa != 0 && b.mantissa != 0 && representable(exact_add(x, b)) ==> r == Some(
            dec_of_exact(exact_add(x, b)),
        ),
    ensures
        r matches Some(d) && scaled_up_to(d, pair_plus(xe, b)),
{
    let pm = pair_plus(xe, b);
    let s = pm.1;
    let xm = x.mantissa as int;
    let bm = b.mantissa as int;
    let px = pow10((xe.1 - x.scale) as nat);
    let qx = pow10((s - xe.1) as nat);
    let pbs = pow10((s - b.scale) as nat);
    lemma_pow10_split(x.scale as nat, xe.1, s);
    assert(xe.0 * qx == xm * pow10((s - x.scale) as nat)) by (nonlinear_arith)
        requires
            xe.0 == xm * px,
            pow10((s - x.scale) as nat) == px * qx,
    ;
    if x.mantissa == 0 {
        assert(xm * pow10((s - x.scale) as nat) == 0) by (nonlinear_arith)
            requires
                xm == 0,
        ;
        assert(pm.0 == bm * pbs);
        assert(b.scale <= s);
    } else if b.mantissa == 0 {
        assert(bm * pbs == 0) by (nonlinear_arith)
            requires
                bm == 0,
        ;
        assert(pm.0 == xm * pow10((s - x.scale) as nat));
        assert(x.scale <= s);
    } else {
        let t = max_scale(x, b);
        let e = exact_add(x, b);
        let ptx = pow10((t - x.scale) as nat);
        let ptb = pow10((t - b.scale) as nat);
        let st = pow10((s - t) as nat);
        lemma_pow_positive(10, (s - t) as nat);
        lemma_pow10_split(x.scale as nat, t, s);
        lemma_pow10_split(b.scale as nat, t, s);
        assert(pm.0 == e.0 * st) by (nonlinear_arith)
            requires
                pm.0 == xm * (ptx * st) + bm * (ptb * st),
                e.0 == xm * ptx + bm * ptb,
        ;
        let mx = MAX_MANTISSA as int;
        assert(-mx <= e.0 <= mx) by (nonlinear_arith)
            requires
                st >= 1,
                -mx <= e.0 * st <= mx,
        ;
        assert(representable(e));
        let d = dec_of_exact(e);
        assert(d.scale == t);
        assert(d.mantissa == e.0);
        assert(pm.0 == d.mantissa * pow10((s - d.scale) as nat));
    }
}

/// The value of the pair `e` is at most that of `d`.
pub open spec fn pair_at_most(e: (int, nat), d: Dec) -> bool {
    e.0 * d.den() <= d.mantissa * pow10(e.1)
}

/// The value of the pair `e` is at least that of `d`.
pub open spec fn pair_at_least(e: (int, nat), d: Dec) -> bool {
    d.mantissa * pow10(e.1) <= e.0 * d.den()
}

/// Comparing with a decimal that has a pair's value is comparing with the pair.
pub proof fn lemma_pair_at_least(n: Dec, e: (int, nat), d: Dec)
    requires
        has_value(n, e),
    ensures
        value_le(d, n) <==> pair_at_least(e, d),
{
    lemma_pow_positive(10, e.1);
    lemma_pow_positive(10, n.scale as nat);
    lemma_pow_positive(10, d.scale as nat);
    let nm = n.mantissa as int;
    let dm = d.mantissa as int;
    let k = pow10(e.1);
    let nd = n.den();
    let dd = d.den();
    assert((dm * nd <= nm * dd) <==> (dm * k <= e.0 * dd)) by (nonlinear_arith)
        requires
            nm * k == e.0 * nd,
            k > 0,
            nd > 0,
            dd > 0,
    {
        assert(nm * dd * k == e.0 * nd * dd);
        assert((dm * nd <= nm * dd) <==> (dm * nd * k <= nm * dd * k));
        assert((dm * k <= e.0 * dd) <==> (dm * k * nd <= e.0 * dd * nd));
    }
}

/// Comparing a decimal that has a pair's value is comparing the pair.
pub proof fn lemma_pair_at_most(n: Dec, e: (int, nat), d: Dec)
    requires
        has_value(n, e),
    ensures
        value_le(n, d) <==> pair_at_most(e, d),
{
    lemma_pow_positive(10, e.1);
    lemma_pow_positive(10, n.scale as nat);
    lemma_pow_positive(10, d.scale as nat);
    let nm = n.mantissa as int;
    let dm = d.mantissa as int;
    let k = pow10(e.1);
    let nd = n.den();
    let dd = d.den();
    assert((nm * dd <= dm * nd) <==> (e.0 * dd <= dm * k)) by (nonlinear_arith)
        requires
            nm * k == e.0 * nd,
            k > 0,
            nd > 0,
            dd > 0,
    {
        assert(nm * dd * k == e.0 * nd * dd);
        assert((nm * dd <= dm * nd) <==> (nm * dd * k <= dm * nd * k));
        assert((e.0 * dd <= dm * k) <==> (e.0 * dd * nd <= dm * k * nd));
    }
}

/// The exact product of a mantissa/scale pair and a decimal.
pub open spec fn pair_times(e: (int, nat), b: Dec) -> (int, nat) {
    (e.0 * b.mantissa, (e.1 + b.scale) as nat)
}

/// A checked product of `a` (the pair `ae` with fewer digits) and `b` whose exact value fits is
/// that exact product, again written with at most as many digits.
pub proof fn lemma_checked_mul_scaled(a: Dec, ae: (int, nat), b: Dec, r: Option<Dec>)
    requires
        a.wf(),
        b.wf(),
        scaled_up_to(a, ae),
        representable(pair_times(ae, b)),
        a.mantissa == 0 || b.mantissa == 0 ==> r == Some(zero_dec()),
        a.mantissa != 0 && b.mantissa != 0 && representable(exact_mul(a, b)) ==> r == Some(
            dec_of_exact(exact_mul(a, b)),
        ),
    ensures
        r matches Some(v) && scaled_up_to(v, pair_times(ae, b)),
{
    let k = (ae.1 - a.scale) as nat;
    let p = pow10(k);
    lemma_pow_positive(10, k);
    let am = a.mantissa as int;
    let bm = b.mantissa as int;
    assert(ae.0 * bm == (am * bm) * p) by (nonlinear_arith)
        requires
            ae.0 == am * p,
    ;
    if am == 0 || bm == 0 {
        assert(am * bm == 0) by (nonlinear_arith)
            requires
                am == 0 || bm == 0,
        ;
        assert(ae.0 * bm == 0) by (nonlinear_arith)
            requires
                ae.0 * bm == (am * bm) * p,
                am * bm == 0,
        ;
        assert(0 * pow10(pair_times(ae, b).1) == 0);
    } else {
        let mx = MAX_MANTISSA as int;
        assert(-mx <= am * bm <= mx) by (nonlinear_arith)
            requires
                p >= 1,
                -mx <= (am * bm) * p <= mx,
        ;
        assert(representable(exact_mul(a, b)));
        let v = dec_of_exact(exact_mul(a, b));
        assert((pair_times(ae, b).1 - v.scale) as nat == k);
    }
}

/// Checked `a + b`.
///
/// Trusted: `Decimal::checked_add`. When either operand is zero it returns the other operand
/// unchanged; when both are non-zero and the exact sum fits at the larger of the two scales it
/// returns that exact sum at that scale; otherwise it rounds or reports overflow, which is named
/// by `decimal_checked_sum`.
#[verifier::external_body]
pub(crate) fn dec_checked_add(a: Dec, b: Dec) -> (r: Option<Dec>)
    requires
        a.wf(),
        b.wf(),
    ensures
        r == opt_dec(decimal_checked_sum(a.parts(), b.parts())),
        r matches Some(x) ==> x.wf(),
        a.mantissa == 0 ==> r == Some(b),
        a.mantissa != 0 && b.mantissa == 0 ==> r == Some(a),
        a.mantissa != 0 && b.mantissa != 0 && representable(exact_add(a, b)) ==> r == Some(
            dec_of_exact(exact_add(a, b)),
        ),
{
    let x = Decimal::from_i128_with_scale(a.mantissa, a.scale);
    let y = Decimal::from_i128_with_scale(b.mantissa, b.scale);
    match x.checked_add(y) {
        Some(z) => Some(Dec { mantissa: z.mantissa(), scale: z.scale() }),
        None => None,
    }
}

/// Checked `a - b`.
///
/// Trusted: `Decimal::checked_sub`. With `a` zero it returns `b` negated (same scale); with only
/// `b` zero it returns `a`; when both are non-zero and the exact difference fits at the larger
/// scale it returns that; otherwise the result is named by `decimal_checked_difference`.
#[verifier::external_body]
pub(crate) fn dec_checked_sub(a: Dec, b: Dec) -> (r: Option<Dec>)
    requires
        a.wf(),
        b.wf(),
    ensures
        r == opt_dec(decimal_checked_difference(a.parts(), b.parts())),
        r matches Some(x) ==> x.wf(),
        a.mantissa == 0 ==> r == Some(Dec { mantissa: (-b.mantissa) as i128, scale: b.scale }),
        a.mantissa != 0 && b.mantissa == 0 ==> r == Some(a),
        a.mantissa != 0 && b.mantissa != 0 && representable(exact_sub(a, b)) ==> r == Some(
            dec_of_exact(exact_sub(a, b)),
        ),
{
    let x = Decimal::from_i128_with_scale(a.mantissa, a.scale);
    let y = Decimal::from_i128_with_scale(b.mantissa, b.scale);
    match x.checked_sub(y) {
        Some(z) => Some(Dec { mantissa: z.mantissa(), scale: z.scale() }),
        None => None,
    }
}

/// Checked `a * b`.
///
/// Trusted: `Decimal::checked_mul`. A zero operand gives `Decimal::ZERO` (scale 0); when the
/// product of the mantissas fits 96 bits and the summed scale is at most 28 the result is that
/// exact product; otherwise it rounds or reports overflow (named by `decimal_checked_product`).
#[verifier::external_body]
pub(crate) fn dec_checked_mul(a: Dec, b: Dec) -> (r: Option<Dec>)
    requires
        a.wf(),
        b.wf(),
    ensures
        r == opt_dec(decimal_checked_product(a.parts(), b.parts())),
        r matches Some(x) ==> x.wf(),
        a.mantissa == 0 || b.mantissa == 0 ==> r == Some(zero_dec()),
        a.mantissa != 0 && b.mantissa != 0 && representable(exact_mul(a, b)) ==> r == Some(
            dec_of_exact(exact_mul(a, b)),
        ),
{
    let x = Decimal::from_i128_with_scale(a.mantissa, a.scale);
    let y = Decimal::from_i128_with_scale(b.mantissa, b.scale);
    match x.checked_mul(y) {
        Some(z) => Some(Dec { mantissa: z.mantissa(), scale: z.scale() }),
        None => None,
    }
}

/// Checked `a / b`.
///
/// Trusted: `Decimal::checked_div`. A zero divisor gives `None`; a zero dividend gives
/// `Decimal::ZERO`; a quotient strictly inside the decimal range never overflows; and when the
/// exact quotient has a decimal representation the result is that exact quotient. How a
/// non-terminating quotient is rounded is named by `decimal_checked_quotient`, not stated.
#[verifier::external_body]
pub(crate) fn dec_checked_div(a: Dec, b: Dec) -> (r: Option<Dec>)
    requires
        a.wf(),
        b.wf(),
    ensures
        r == opt_dec(decimal_checked_quotient(a.parts(), b.parts())),
        r matches Some(x) ==> x.wf(),
        b.mantissa == 0 ==> r.is_none(),
        b.mantissa != 0 && a.mantissa == 0 ==> r == Some(zero_dec()),
        div_in_range(a, b) ==> r.is_some(),
        r matches Some(x) ==> ((exists|q: Dec| q.wf() && #[trigger] is_quotient(q, a, b))
            ==> is_quotient(x, a, b)),
{
    let x = Decimal::from_i128_with_scale(a.mantissa, a.scale);
    let y = Decimal::from_i128_with_scale(b.mantissa, b.scale);
    match x.checked_div(y) {
        Some(z) => Some(Dec { mantissa: z.mantissa(), scale: z.scale() }),
        None => None,
    }
}

/// Largest integer not above `a`.
///
/// Trusted: `Decimal::floor`, documented as "the largest integer less than or equal to a number";
/// its result has scale 0.
#[verifier::external_body]
pub(crate) fn dec_floor(a: Dec) -> (r: Dec)
    requires
        a.wf(),
    ensures
        r.wf(),
        r.scale == 0,
        r.mantissa == (a.mantissa as int) / a.den(),
{
    let x = Decimal::from_i128_with_scale(a.mantissa, a.scale).floor();
    Dec { mantissa: x.mantissa(), scale: x.scale() }
}

/// Nearest integer, ties to even.
///
/// Trusted: `Decimal::round`, documented as banker's rounding to an integer (6.5 -> 6,
/// 7.5 -> 8); its result has scale 0.
#[verifier::external_body]
pub(crate) fn dec_round(a: Dec) -> (r: Dec)
    requires
        a.wf(),
    ensures
        r.wf(),
        r.scale == 0,
        r.mantissa == round_half_even(a),
{
    let x = Decimal::from_i128_with_scale(a.mantissa, a.scale).round();
    Dec { mantissa: x.mantissa(), scale: x.scale() }
}

/// The integer nearest to `a`, ties going to the even neighbour.
pub open spec fn round_half_even(a: Dec) -> int {
    let fl = (a.mantissa as int) / a.den();
    let twice_rem = 2 * ((a.mantissa as int) % a.den());
    if twice_rem < a.den() {
        fl
    } else if twice_rem > a.den() {
        fl + 1
    } else if fl % 2 == 0 {
        fl
    } else {
        fl + 1
    }
}

/// Parse decimal text.
///
/// Trusted: `<Decimal as FromStr>::from_str`; the accepted texts and their values are named by
/// `decimal_parse`, not restated.
#[verifier::external_body]
pub(crate) fn dec_parse(s: &str) -> (r: Option<Dec>)
    ensures
        match r {
            Some(d) => d.wf() && decimal_parse(s@) == Some(d.parts()),
            None => decimal_parse(s@).is_none(),
        },
{
    match s.parse::<Decimal>() {
        Ok(x) => Some(Dec { mantissa: x.mantissa(), scale: x.scale() }),
        Err(_) => None,
    }
}

/// Print a decimal.
///
/// Trusted: `Decimal`'s `Display` through `to_string`; the text is named by `decimal_text`. It
/// prints every fractional digit of the scale, so `FromStr` reads back the same mantissa and
/// scale.
#[verifier::external_body]
pub(crate) fn dec_to_string(a: Dec) -> (r: String)
    requires
        a.wf(),
    ensures
        r@ == decimal_text(a.parts()),
        decimal_parse(r@) == Some(a.parts()),
{
    Decimal::from_i128_with_scale(a.mantissa, a.scale).to_string()
}

} // verus!
