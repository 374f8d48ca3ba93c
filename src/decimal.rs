//! Base-ten fixed-point prices.
//!
//! A `Dec` holds a decimal number as a mantissa and a scale, the value being
//! `mantissa / 10^scale`. All arithmetic on prices is done by `rust_decimal`;
//! this module converts to and from its `Decimal` type and states what each
//! operation promises.
use vstd::prelude::*;

verus! {

/// Largest mantissa magnitude that `rust_decimal` can hold (96 bits).
pub const MAX_MANTISSA: i128 = 79228162514264337593543950335;

/// Largest scale that `rust_decimal` can hold.
pub const MAX_SCALE: u32 = 28;

/// `10^n`.
pub open spec fn pow10(n: nat) -> int
    decreases n,
{
    if n == 0 {
        1
    } else {
        10 * pow10((n - 1) as nat)
    }
}

pub proof fn lemma_pow10_positive(n: nat)
    ensures
        pow10(n) > 0,
    decreases n,
{
    if n > 0 {
        lemma_pow10_positive((n - 1) as nat);
    }
}

/// A number at least as large as a positive one is positive.
pub proof fn lemma_not_below_positive(x: Dec, floor: Dec)
    requires
        floor.mantissa > 0,
        !x.lt(floor),
    ensures
        x.mantissa > 0,
{
    lemma_pow10_positive(x.scale as nat);
    lemma_pow10_positive(floor.scale as nat);
    let px = pow10(x.scale as nat);
    let pf = pow10(floor.scale as nat);
    assert(floor.mantissa * px > 0) by (nonlinear_arith)
        requires
            floor.mantissa > 0,
            px > 0,
    ;
    if x.mantissa <= 0 {
        assert(x.mantissa * pf <= 0) by (nonlinear_arith)
            requires
                x.mantissa <= 0,
                pf > 0,
        ;
    }
}

/// A decimal number `mantissa / 10^scale`.
#[derive(Clone, Copy, Debug)]
pub struct Dec {
    pub mantissa: i128,
    pub scale: u32,
}

impl Dec {
    /// Within the range that `rust_decimal::Decimal` represents.
    pub open spec fn wf(self) -> bool {
        &&& self.scale <= MAX_SCALE
        &&& -MAX_MANTISSA <= self.mantissa <= MAX_MANTISSA
    }

    /// Numerically `self < other`, compared over the rationals.
    pub open spec fn lt(self, other: Dec) -> bool {
        self.mantissa * pow10(other.scale as nat) < other.mantissa * pow10(self.scale as nat)
    }

    pub open spec fn is_zero_spec(self) -> bool {
        self.mantissa == 0
    }

    /// The number zero.
    pub fn zero() -> (r: Dec)
        ensures
            r.wf(),
            r.is_zero_spec(),
            r == (Dec { mantissa: 0, scale: 0 }),
    {
        Dec { mantissa: 0, scale: 0 }
    }

    /// The integer `n`.
    pub fn from_u32(n: u32) -> (r: Dec)
        ensures
            r.wf(),
            r.mantissa == n as int,
            r.scale == 0,
    {
        Dec { mantissa: n as i128, scale: 0 }
    }

    pub fn is_zero(&self) -> (r: bool)
        ensures
            r == self.is_zero_spec(),
    {
        self.mantissa == 0
    }

    /// Numeric `self < other`.
    pub fn less_than(&self, other: &Dec) -> (r: bool)
        requires
            self.wf(),
            other.wf(),
        ensures
            r == self.lt(*other),
    {
        decimal_lt(self, other)
    }
}

/// What `rust_decimal` parses from a text; `None` where it refuses the text.
pub uninterp spec fn decimal_of_text(s: Seq<char>) -> Option<Dec>;

/// What `rust_decimal`'s checked subtraction returns for `a - b`; `None` on overflow.
pub uninterp spec fn decimal_difference(a: Dec, b: Dec) -> Option<Dec>;

/// What `rust_decimal`'s checked addition returns for `a + b`; `None` on overflow.
pub uninterp spec fn decimal_sum(a: Dec, b: Dec) -> Option<Dec>;

/// What `rust_decimal`'s checked division returns for `a / b`, rounded to
/// its precision; `None` for a zero divisor or on overflow.
pub uninterp spec fn decimal_quotient(a: Dec, b: Dec) -> Option<Dec>;

/// What `rust_decimal`'s checked multiplication returns for `a * b`, rounded
/// to its precision; `None` on overflow.
pub uninterp spec fn decimal_product(a: Dec, b: Dec) -> Option<Dec>;

/// Relies on `Decimal::from_str`: parses a decimal text, and every value it
/// returns is within the representable range.
#[verifier::external_body]
pub(crate) fn parse_decimal(s: &str) -> (r: Option<Dec>)
    ensures
        r == decimal_of_text(s@),
        r matches Some(d) ==> d.wf(),
{
    match <rust_decimal::Decimal as std::str::FromStr>::from_str(s) {
        Ok(d) => Some(Dec { mantissa: d.mantissa(), scale: d.scale() }),
        Err(_) => None,
    }
}

/// Relies on `Decimal`'s `PartialOrd`, which orders by numeric value.
#[verifier::external_body]
fn decimal_lt(a: &Dec, b: &Dec) -> (r: bool)
    requires
        a.wf(),
        b.wf(),
    ensures
        r == a.lt(*b),
{
    let x = rust_decimal::Decimal::from_i128_with_scale(a.mantissa, a.scale);
    let y = rust_decimal::Decimal::from_i128_with_scale(b.mantissa, b.scale);
    x < y
}

/// Relies on `Decimal::checked_sub`: `None` on overflow; the sign of a
/// difference comes from comparing the operands, so a positive one means `a > b`.
#[verifier::external_body]
pub(crate) fn checked_sub(a: &Dec, b: &Dec) -> (r: Option<Dec>)
    requires
        a.wf(),
        b.wf(),
    ensures
        r == decimal_difference(*a, *b),
        r matches Some(d) ==> d.wf(),
        r matches Some(d) ==> (d.mantissa > 0 ==> b.lt(*a)),
{
    let x = rust_decimal::Decimal::from_i128_with_scale(a.mantissa, a.scale);
    let y = rust_decimal::Decimal::from_i128_with_scale(b.mantissa, b.scale);
    x.checked_sub(y).map(|d| Dec { mantissa: d.mantissa(), scale: d.scale() })
}

/// Relies on `Decimal::checked_add`: `None` on overflow.
#[verifier::external_body]
pub(crate) fn checked_add(a: &Dec, b: &Dec) -> (r: Option<Dec>)
    requires
        a.wf(),
        b.wf(),
    ensures
        r == decimal_sum(*a, *b),
        r matches Some(d) ==> d.wf(),
{
    let x = rust_decimal::Decimal::from_i128_with_scale(a.mantissa, a.scale);
    let y = rust_decimal::Decimal::from_i128_with_scale(b.mantissa, b.scale);
    x.checked_add(y).map(|d| Dec { mantissa: d.mantissa(), scale: d.scale() })
}

/// Signs of two operands agree and neither is zero.
pub open spec fn same_sign(a: Dec, b: Dec) -> bool {
    (a.mantissa > 0 && b.mantissa > 0) || (a.mantissa < 0 && b.mantissa < 0)
}

/// Relies on `Decimal::checked_div`: `None` for a zero divisor or on
/// overflow; the sign of a quotient is the exclusive or of the operands' signs.
#[verifier::external_body]
pub(crate) fn checked_div(a: &Dec, b: &Dec) -> (r: Option<Dec>)
    requires
        a.wf(),
        b.wf(),
    ensures
        r == decimal_quotient(*a, *b),
        r matches Some(d) ==> d.wf(),
        r matches Some(d) ==> (d.mantissa > 0 ==> same_sign(*a, *b)),
        b.mantissa == 0 ==> r is None,
{
    let x = rust_decimal::Decimal::from_i128_with_scale(a.mantissa, a.scale);
    let y = rust_decimal::Decimal::from_i128_with_scale(b.mantissa, b.scale);
    x.checked_div(y).map(|d| Dec { mantissa: d.mantissa(), scale: d.scale() })
}

/// Relies on `Decimal::checked_mul`: `None` on overflow; the sign of a
/// product is the exclusive or of the operands' signs.
#[verifier::external_body]
pub(crate) fn checked_mul(a: &Dec, b: &Dec) -> (r: Option<Dec>)
    requires
        a.wf(),
        b.wf(),
    ensures
        r == decimal_product(*a, *b),
        r matches Some(d) ==> d.wf(),
        r matches Some(d) ==> (d.mantissa > 0 ==> same_sign(*a, *b)),
{
    let x = rust_decimal::Decimal::from_i128_with_scale(a.mantissa, a.scale);
    let y = rust_decimal::Decimal::from_i128_with_scale(b.mantissa, b.scale);
    x.checked_mul(y).map(|d| Dec { mantissa: d.mantissa(), scale: d.scale() })
}

/// Parses a decimal text as the venues send it; an unreadable text counts as zero.
pub fn parse_or_zero(s: &str) -> (r: Dec)
    ensures
        r.wf(),
        r == match decimal_of_text(s@) {
            Some(d) => d,
            None => Dec { mantissa: 0, scale: 0 },
        },
{
    match parse_decimal(s) {
        Some(d) => d,
        None => Dec::zero(),
    }
}

} // verus!
