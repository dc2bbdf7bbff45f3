//! Exact decimal numbers: the times of discrete events, which are added and
//! compared without drift, and the tolerances and rates of a configuration.
//!
//! A value is `mantissa / 10^scale`. Arithmetic, reading and writing are done
//! by `rust_decimal`; the library states what it relies on in the contracts of
//! the private wrappers at the end of this file.

use rust_decimal::Decimal;
use std::str::FromStr;
use vstd::prelude::*;

verus! {

/// Largest scale a decimal can carry.
pub const MAX_SCALE: u32 = 28;

/// Largest magnitude of a mantissa: `2^96 - 1`.
pub const MAX_MANTISSA: i128 = 0xFFFF_FFFF_FFFF_FFFF_FFFF_FFFF;

/// `10^n`.
pub open spec fn pow10(n: nat) -> int
    decreases n,
{
    if n == 0 {
        1
    } else {
        10 * pow10((n - 1) as nat)
    }
}

/// Powers of ten are positive, and from the first on at least ten.
pub proof fn lemma_pow10_bounds(n: nat)
    ensures
        pow10(n) >= 1,
        n >= 1 ==> pow10(n) >= 10,
    decreases n,
{
    if n > 0 {
        lemma_pow10_bounds((n - 1) as nat);
    }
}

/// `10^(a + b) = 10^a * 10^b`.
pub proof fn lemma_pow10_adds(a: nat, b: nat)
    ensures
        pow10(a + b) == pow10(a) * pow10(b),
    decreases b,
{
    if b == 0 {
        assert(pow10(a) * 1 == pow10(a));
    } else {
        lemma_pow10_adds(a, (b - 1) as nat);
        assert(pow10(a + b) == 10 * pow10((a + b - 1) as nat));
        assert(10 * (pow10(a) * pow10((b - 1) as nat)) == pow10(a) * (10 * pow10((b - 1) as nat))) by (nonlinear_arith);
    }
}

/// The units of a value are its mantissa at any scale it can be written at,
/// times the power of ten that is left up to the finest scale.
pub proof fn lemma_units_at_scale(a: Exact, s: nat)
    requires
        a.wf(),
        a.scale <= s <= MAX_SCALE,
    ensures
        a.units() == a.mantissa_at(s) * pow10((MAX_SCALE - s) as nat),
{
    lemma_pow10_adds((s - a.scale) as nat, (MAX_SCALE - s) as nat);
    let p = pow10((s - a.scale) as nat);
    let q = pow10((MAX_SCALE - s) as nat);
    assert(a.mantissa * (p * q) == (a.mantissa * p) * q) by (nonlinear_arith);
}

/// Two values add exactly where their units, and the sum of their units, stay
/// within the largest mantissa at the finer of the two scales.
pub proof fn lemma_sum_fits_from_units(a: Exact, b: Exact)
    requires
        a.wf(),
        b.wf(),
        ({
            let bound = MAX_MANTISSA * pow10((MAX_SCALE - a.finer_scale(b)) as nat);
            &&& -bound <= a.units() <= bound
            &&& -bound <= b.units() <= bound
            &&& -bound <= a.units() + b.units() <= bound
        }),
    ensures
        a.sum_fits(b),
{
    let s = a.finer_scale(b);
    let q = pow10((MAX_SCALE - s) as nat);
    lemma_pow10_bounds((MAX_SCALE - s) as nat);
    lemma_units_at_scale(a, s);
    lemma_units_at_scale(b, s);
    let x = a.mantissa_at(s);
    let y = b.mantissa_at(s);
    let m: int = MAX_MANTISSA as int;
    assert(-m <= x <= m) by (nonlinear_arith)
        requires
            q >= 1,
            -(m * q) <= x * q <= m * q,
    ;
    assert(-m <= y <= m) by (nonlinear_arith)
        requires
            q >= 1,
            -(m * q) <= y * q <= m * q,
    ;
    assert(-m <= x + y <= m) by (nonlinear_arith)
        requires
            q >= 1,
            -(m * q) <= x * q + y * q <= m * q,
    ;
}

/// The result of `rust_decimal`'s checked addition on two decimals given by
/// mantissa and scale: `None` on overflow, else the mantissa and scale of the
/// sum as the crate rounds it.
pub uninterp spec fn decimal_sum(a_mantissa: int, a_scale: nat, b_mantissa: int, b_scale: nat) -> Option<(int, nat)>;

/// The decimal that `rust_decimal` reads from a text: `None` where it reads
/// none, else the mantissa and scale of what it reads.
pub uninterp spec fn decimal_parse(text: Seq<char>) -> Option<(int, nat)>;

/// The character of the digit `d`.
pub open spec fn digit(d: nat) -> char {
    seq!['0', '1', '2', '3', '4', '5', '6', '7', '8', '9'][d as int]
}

/// The decimal digits of `n`, the most significant first; none for zero.
pub open spec fn digits(n: nat) -> Seq<char>
    decreases n,
{
    if n == 0 {
        Seq::empty()
    } else {
        digits(n / 10).push(digit(n % 10))
    }
}

/// The text of the decimal of the given mantissa and scale, in plain
/// notation: a minus sign where it is negative, the whole part (`0` where
/// there is none), and after a point as many digits as the scale says.
pub open spec fn decimal_text(mantissa: int, scale: nat) -> Seq<char> {
    let magnitude = if mantissa < 0 { (-mantissa) as nat } else { mantissa as nat };
    let d = digits(magnitude);
    let all = if d.len() < scale { Seq::new((scale - d.len()) as nat, |i: int| '0') + d } else { d };
    let whole = all.subrange(0, all.len() - scale);
    let fraction = all.subrange(all.len() - scale, all.len() as int);
    let sign = if mantissa < 0 { seq!['-'] } else { Seq::empty() };
    let point = if scale > 0 { seq!['.'] + fraction } else { Seq::empty() };
    sign + (if whole.len() == 0 { seq!['0'] } else { whole }) + point
}

/// An exact decimal: a point in time, a duration, a tolerance or a rate.
#[derive(Clone, Copy, Debug)]
pub struct Exact {
    pub mantissa: i128,
    pub scale: u32,
}

impl Exact {
    /// The mantissa and scale are within what a decimal can hold.
    pub open spec fn wf(self) -> bool {
        &&& self.scale <= MAX_SCALE
        &&& -MAX_MANTISSA <= self.mantissa <= MAX_MANTISSA
    }

    /// The value in units of `10^-28`, the finest step any decimal can take.
    /// Two values are the same number exactly when their units agree.
    pub open spec fn units(self) -> int {
        self.mantissa * pow10((MAX_SCALE - self.scale) as nat)
    }

    /// The mantissa this value has when written at scale `s >= self.scale`.
    pub open spec fn mantissa_at(self, s: nat) -> int {
        self.mantissa * pow10((s - self.scale) as nat)
    }

    /// The finer of the two scales.
    pub open spec fn finer_scale(self, other: Exact) -> nat {
        if self.scale >= other.scale {
            self.scale as nat
        } else {
            other.scale as nat
        }
    }

    /// Both operands, and their sum, fit in a mantissa at the finer of the two
    /// scales. Addition is then exact.
    pub open spec fn sum_fits(self, other: Exact) -> bool {
        let s: nat = self.finer_scale(other);
        let a = self.mantissa_at(s);
        let b = other.mantissa_at(s);
        &&& -MAX_MANTISSA <= a <= MAX_MANTISSA
        &&& -MAX_MANTISSA <= b <= MAX_MANTISSA
        &&& -MAX_MANTISSA <= a + b <= MAX_MANTISSA
    }

    /// What `checked_add` returns.
    pub open spec fn spec_checked_add(self, other: Exact) -> Option<Exact> {
        match decimal_sum(self.mantissa as int, self.scale as nat, other.mantissa as int, other.scale as nat) {
            Some((m, s)) => Some(Exact { mantissa: m as i128, scale: s as u32 }),
            None => None,
        }
    }

    /// What `parse` returns.
    pub open spec fn spec_parse(text: Seq<char>) -> Option<Exact> {
        match decimal_parse(text) {
            Some((m, s)) => Some(Exact { mantissa: m as i128, scale: s as u32 }),
            None => None,
        }
    }

    /// `checked_add` gives the exact sum of the two.
    pub open spec fn adds_exactly(self, other: Exact) -> bool {
        match self.spec_checked_add(other) {
            Some(s) => s.units() == self.units() + other.units(),
            None => false,
        }
    }

    /// A time from mantissa and scale; `None` where no decimal holds them.
    pub fn new(mantissa: i128, scale: u32) -> (r: Option<Exact>)
        ensures
            r == (if scale <= MAX_SCALE && -MAX_MANTISSA <= mantissa <= MAX_MANTISSA {
                Some(Exact { mantissa, scale })
            } else {
                None
            }),
            r matches Some(t) ==> t.wf(),
    {
        if scale <= MAX_SCALE && -MAX_MANTISSA <= mantissa && mantissa <= MAX_MANTISSA {
            Some(Exact { mantissa, scale })
        } else {
            None
        }
    }

    /// Reads a decimal from its text, such as `0.1` or `-12.50`; `None` where
    /// the text is no decimal.
    pub fn parse(text: &str) -> (r: Option<Exact>)
        ensures
            r == Self::spec_parse(text@),
            r matches Some(t) ==> t.wf(),
    {
        decimal_from_str(text)
    }

    /// The text of the value, in plain decimal notation: `-12.50` for the
    /// mantissa `-1250` at scale `2`.
    pub fn to_text(&self) -> (r: String)
        requires
            self.wf(),
        ensures
            r@ == decimal_text(self.mantissa as int, self.scale as nat),
    {
        decimal_to_string(self)
    }

    /// The whole number `n`.
    pub fn from_whole(n: i64) -> (r: Exact)
        ensures
            r.wf(),
            r.mantissa == n,
            r.scale == 0,
    {
        Exact { mantissa: n as i128, scale: 0 }
    }

    /// `self <= other` as instants.
    pub fn le(&self, other: &Exact) -> (r: bool)
        requires
            self.wf(),
            other.wf(),
        ensures
            r == (self.units() <= other.units()),
    {
        decimal_le(self, other)
    }

    /// `self < other` as instants.
    pub fn lt(&self, other: &Exact) -> (r: bool)
        requires
            self.wf(),
            other.wf(),
        ensures
            r == (self.units() < other.units()),
    {
        !decimal_le(other, self)
    }

    /// `self` and `other` are the same instant, whatever their scales.
    pub fn same_instant(&self, other: &Exact) -> (r: bool)
        requires
            self.wf(),
            other.wf(),
        ensures
            r == (self.units() == other.units()),
    {
        decimal_le(self, other) && decimal_le(other, self)
    }

    /// The mantissa of the value written at the scale `s`, or `None` where it
    /// does not fit in a mantissa.
    fn aligned(&self, s: u32) -> (r: Option<i128>)
        requires
            self.wf(),
            self.scale <= s <= MAX_SCALE,
        ensures
            r.is_some() <==> -MAX_MANTISSA <= self.mantissa_at(s as nat) <= MAX_MANTISSA,
            r matches Some(m) ==> m == self.mantissa_at(s as nat),
    {
        let mut m: i128 = self.mantissa;
        let mut k: u32 = self.scale;
        assert(self.mantissa * pow10(0) == self.mantissa);
        while k < s
            invariant
                self.wf(),
                self.scale <= k <= s <= MAX_SCALE,
                m == self.mantissa * pow10((k - self.scale) as nat),
                -MAX_MANTISSA <= m <= MAX_MANTISSA,
            decreases s - k,
        {
            proof {
                lemma_pow10_adds((k - self.scale) as nat, (s - k) as nat);
                lemma_pow10_bounds((s - k) as nat);
                let rest = pow10((s - k) as nat);
                let done = pow10((k - self.scale) as nat);
                assert(self.mantissa_at(s as nat) == m * rest) by (nonlinear_arith)
                    requires
                        self.mantissa_at(s as nat) == self.mantissa * (done * rest),
                        m == self.mantissa * done,
                ;
                if m > MAX_MANTISSA / 10 {
                    assert(m * rest > MAX_MANTISSA) by (nonlinear_arith)
                        requires
                            m > MAX_MANTISSA / 10,
                            rest >= 10,
                            MAX_MANTISSA == 0xFFFF_FFFF_FFFF_FFFF_FFFF_FFFF,
                    ;
                }
                if m < -(MAX_MANTISSA / 10) {
                    assert(m * rest < -MAX_MANTISSA) by (nonlinear_arith)
                        requires
                            m < -(MAX_MANTISSA / 10),
                            rest >= 10,
                            MAX_MANTISSA == 0xFFFF_FFFF_FFFF_FFFF_FFFF_FFFF,
                    ;
                }
            }
            if m > MAX_MANTISSA / 10 || m < -(MAX_MANTISSA / 10) {
                return None;
            }
            proof {
                assert(pow10((k + 1 - self.scale) as nat) == 10 * pow10((k - self.scale) as nat));
                assert(self.mantissa * (10 * pow10((k - self.scale) as nat)) == 10 * (self.mantissa * pow10((k - self.scale) as nat))) by (nonlinear_arith);
            }
            m = m * 10;
            k = k + 1;
        }
        Some(m)
    }

    /// Tests whether both values and their sum fit in a mantissa at the finer
    /// of the two scales.
    pub fn fits_sum(&self, other: &Exact) -> (r: bool)
        requires
            self.wf(),
            other.wf(),
        ensures
            r == self.sum_fits(*other),
    {
        let s: u32 = if self.scale >= other.scale { self.scale } else { other.scale };
        match (self.aligned(s), other.aligned(s)) {
            (Some(a), Some(b)) => {
                let sum: i128 = a + b;
                -MAX_MANTISSA <= sum && sum <= MAX_MANTISSA
            },
            _ => false,
        }
    }

    /// `self + other` where the sum is sure to be exact: the two values are
    /// added only if they and their sum fit in a mantissa at the finer scale.
    pub fn add_exact(&self, other: &Exact) -> (r: Option<Exact>)
        requires
            self.wf(),
            other.wf(),
        ensures
            r.is_some() <==> self.sum_fits(*other),
            r matches Some(s) ==> {
                &&& s.wf()
                &&& s.units() == self.units() + other.units()
                &&& self.adds_exactly(*other)
                &&& self.spec_checked_add(*other) == Some(s)
            },
    {
        if self.fits_sum(other) {
            self.checked_add(other)
        } else {
            None
        }
    }

    /// `self + other`, or `None` where the sum overflows a decimal.
    ///
    /// The sum is exact whenever `sum_fits` holds; beyond that it is whatever
    /// the decimal arithmetic rounds to.
    pub fn checked_add(&self, other: &Exact) -> (r: Option<Exact>)
        requires
            self.wf(),
            other.wf(),
        ensures
            r == self.spec_checked_add(*other),
            r matches Some(s) ==> s.wf(),
            self.sum_fits(*other) ==> self.adds_exactly(*other),
    {
        decimal_checked_add(self, other)
    }
}

/// `rust_decimal::Decimal`'s `<=` (its `PartialOrd` impl), on two decimals
/// rebuilt from mantissa and scale. Claims that the order is the numeric order
/// of the values, whatever the scales.
#[verifier::external_body]
fn decimal_le(a: &Exact, b: &Exact) -> (r: bool)
    requires
        a.wf(),
        b.wf(),
    ensures
        r == (a.units() <= b.units()),
{
    Decimal::from_i128_with_scale(a.mantissa, a.scale) <= Decimal::from_i128_with_scale(b.mantissa, b.scale)
}

/// `rust_decimal::Decimal::checked_add`, on two decimals rebuilt from mantissa
/// and scale. Claims that the result depends on the operands alone, that a sum
/// handed back is a decimal again, and that it is the exact sum where both
/// operands and the sum fit in 96 bits at the finer scale (the case in which the
/// crate aligns the scales and adds without rounding).
#[verifier::external_body]
fn decimal_checked_add(a: &Exact, b: &Exact) -> (r: Option<Exact>)
    requires
        a.wf(),
        b.wf(),
    ensures
        decimal_sum(a.mantissa as int, a.scale as nat, b.mantissa as int, b.scale as nat) == (match r {
            Some(s) => Some((s.mantissa as int, s.scale as nat)),
            None => None,
        }),
        r matches Some(s) ==> s.wf(),
        a.sum_fits(*b) ==> r.is_some() && r.unwrap().units() == a.units() + b.units(),
{
    let x = Decimal::from_i128_with_scale(a.mantissa, a.scale);
    let y = Decimal::from_i128_with_scale(b.mantissa, b.scale);
    x.checked_add(y).map(|d| Exact { mantissa: d.mantissa(), scale: d.scale() })
}

/// `rust_decimal::Decimal`'s `FromStr::from_str`. Claims that what is read
/// depends on the text alone and, where a decimal is read, that its mantissa
/// and scale are within a decimal's range.
#[verifier::external_body]
fn decimal_from_str(text: &str) -> (r: Option<Exact>)
    ensures
        decimal_parse(text@) == (match r {
            Some(t) => Some((t.mantissa as int, t.scale as nat)),
            None => None,
        }),
        r matches Some(t) ==> t.wf(),
{
    Decimal::from_str(text).ok().map(|d| Exact { mantissa: d.mantissa(), scale: d.scale() })
}

/// `rust_decimal::Decimal`'s `to_string` (its `Display` impl), on the decimal
/// rebuilt from mantissa and scale. Claims that the text is the plain
/// notation that `decimal_text` describes: sign, whole part, and the
/// fraction with exactly `scale` digits.
#[verifier::external_body]
fn decimal_to_string(a: &Exact) -> (r: String)
    requires
        a.wf(),
    ensures
        r@ == decimal_text(a.mantissa as int, a.scale as nat),
{
    Decimal::from_i128_with_scale(a.mantissa, a.scale).to_string()
}

} // verus!
