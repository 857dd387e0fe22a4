//! Exact decimal numbers as plain values, and the arithmetic of `rust_decimal`
//! on them.
use vstd::prelude::*;

verus! {

/// The largest mantissa magnitude a decimal can hold (96 bits).
pub const DECIMAL_MAX_MANTISSA: i128 = 0xFFFF_FFFF_FFFF_FFFF_FFFF_FFFFi128;

/// The largest scale a decimal can hold.
pub const DECIMAL_MAX_SCALE: u32 = 28;

/// A decimal number `mantissa / 10^scale`, as `rust_decimal::Decimal` stores it.
#[derive(Clone, Copy, Debug)]
pub struct Dec {
    pub mantissa: i128,
    pub scale: u32,
}

/// `10^n`.
pub open spec fn pow10(n: nat) -> int
    decreases n,
{
    if n == 0 {
        1
    } else {
        10 * pow10((n - 1) as nat)
    }
}

impl Dec {
    /// The representation invariant of `rust_decimal::Decimal`.
    pub open spec fn wf(self) -> bool {
        &&& self.scale <= DECIMAL_MAX_SCALE
        &&& -DECIMAL_MAX_MANTISSA <= self.mantissa <= DECIMAL_MAX_MANTISSA
    }

    /// The decimal `0`.
    pub fn zero() -> (d: Dec)
        ensures
            d.mantissa == 0,
            d.scale == 0,
            d.wf(),
    {
        Dec { mantissa: 0, scale: 0 }
    }

    /// The integer `n` as a decimal of scale 0.
    pub fn from_u32(n: u32) -> (d: Dec)
        ensures
            d.mantissa == n,
            d.scale == 0,
            d.wf(),
    {
        Dec { mantissa: n as i128, scale: 0 }
    }
}

/// `a < b` as numbers: `a.m / 10^a.s < b.m / 10^b.s`.
pub open spec fn dec_less(a: Dec, b: Dec) -> bool {
    a.mantissa * pow10(b.scale as nat) < b.mantissa * pow10(a.scale as nat)
}

/// `a == b` as numbers (`1.0 == 1.00`).
pub open spec fn dec_same(a: Dec, b: Dec) -> bool {
    a.mantissa * pow10(b.scale as nat) == b.mantissa * pow10(a.scale as nat)
}

/// Every character is an ASCII digit.
pub open spec fn is_ascii_digits(s: Seq<char>) -> bool {
    forall|i: int| 0 <= i < s.len() ==> '0' <= #[trigger] s[i] <= '9'
}

/// The number the ASCII digits of `s` write in base ten.
pub open spec fn digits_value(s: Seq<char>) -> int
    decreases s.len(),
{
    if s.len() == 0 {
        0
    } else {
        digits_value(s.drop_last()) * 10 + (s.last() as int - '0' as int)
    }
}

/// What `rust_decimal`'s `str::parse::<Decimal>` gives for a string.
pub uninterp spec fn decimal_from_str(s: Seq<char>) -> Option<Dec>;

/// What `rust_decimal`'s `Decimal::checked_add` gives.
pub uninterp spec fn decimal_checked_add(a: Dec, b: Dec) -> Option<Dec>;

/// What `rust_decimal`'s `Decimal::checked_sub` gives.
pub uninterp spec fn decimal_checked_sub(a: Dec, b: Dec) -> Option<Dec>;

/// What `rust_decimal`'s `Decimal::checked_div` gives.
pub uninterp spec fn decimal_checked_div(a: Dec, b: Dec) -> Option<Dec>;

/// What reading a decimal from text gives: for one to seventeen ASCII digits
/// the number they write, at scale 0; `rust_decimal`'s result, as named, for
/// any other text.
pub open spec fn decimal_of_text(s: Seq<char>) -> Option<Dec> {
    if 1 <= s.len() <= 17 && is_ascii_digits(s) {
        Some(Dec { mantissa: digits_value(s) as i128, scale: 0 })
    } else {
        decimal_from_str(s)
    }
}

/// Dividing `a` by `b` is exact: a positive dividend that a positive divisor
/// below 2^32 divides, at a scale no smaller than the divisor's.
pub open spec fn is_exact_small_division(a: Dec, b: Dec) -> bool {
    a.mantissa > 0 && 0 < b.mantissa < 0x1_0000_0000 && a.scale >= b.scale && a.mantissa
        % b.mantissa == 0
}

/// What `rust_decimal`'s division gives: the exact quotient at the difference
/// of the scales where the division is exact and small, the named result
/// otherwise.
pub open spec fn decimal_quotient(a: Dec, b: Dec) -> Option<Dec> {
    if is_exact_small_division(a, b) {
        Some(Dec { mantissa: (a.mantissa / b.mantissa) as i128, scale: (a.scale - b.scale) as u32 })
    } else {
        decimal_checked_div(a, b)
    }
}

/// Numeric `<` of `rust_decimal::Decimal` (its `PartialOrd`, which compares the
/// values the two decimals denote, whatever their scales).
#[verifier::external_body]
pub fn dec_lt(a: &Dec, b: &Dec) -> (r: bool)
    requires
        a.wf(),
        b.wf(),
    ensures
        r == dec_less(*a, *b),
{
    rust_decimal::Decimal::from_i128_with_scale(a.mantissa, a.scale)
        < rust_decimal::Decimal::from_i128_with_scale(b.mantissa, b.scale)
}

/// Numeric `==` of `rust_decimal::Decimal` (its `PartialEq`, which compares
/// values, so `1.0 == 1.00`).
#[verifier::external_body]
pub fn dec_eq(a: &Dec, b: &Dec) -> (r: bool)
    requires
        a.wf(),
        b.wf(),
    ensures
        r == dec_same(*a, *b),
{
    rust_decimal::Decimal::from_i128_with_scale(a.mantissa, a.scale)
        == rust_decimal::Decimal::from_i128_with_scale(b.mantissa, b.scale)
}

/// `rust_decimal`'s `FromStr` for `Decimal` (through `str::parse`): the result
/// is named by `decimal_from_str`; a parsed decimal satisfies the type's
/// invariant (a 96-bit mantissa and a scale of at most 28). A string of one to
/// seventeen ASCII digits parses to the number it writes, at scale 0 (the
/// crate's short-string path accumulates the digits in a `u64` and keeps scale
/// 0 without a point). Which other strings it accepts and with which
/// representation is left to the name.
#[verifier::external_body]
pub fn dec_parse(s: &Vec<char>) -> (r: Option<Dec>)
    ensures
        r == decimal_from_str(s@),
        r matches Some(d) ==> d.wf(),
        1 <= s@.len() <= 17 && is_ascii_digits(s@) ==> r == Some(
            Dec { mantissa: digits_value(s@) as i128, scale: 0 },
        ),
{
    let text: String = s.iter().collect();
    match text.parse::<rust_decimal::Decimal>() {
        Ok(d) => Some(Dec { mantissa: d.mantissa(), scale: d.scale() }),
        Err(_) => None,
    }
}

/// `rust_decimal::Decimal::checked_add`: `None` exactly where `+` would panic
/// with "Addition overflowed"; the sum itself is named by `decimal_checked_add`.
#[verifier::external_body]
pub fn dec_checked_add(a: &Dec, b: &Dec) -> (r: Option<Dec>)
    requires
        a.wf(),
        b.wf(),
    ensures
        r == decimal_checked_add(*a, *b),
        r matches Some(d) ==> d.wf(),
{
    let x = rust_decimal::Decimal::from_i128_with_scale(a.mantissa, a.scale);
    let y = rust_decimal::Decimal::from_i128_with_scale(b.mantissa, b.scale);
    match x.checked_add(y) {
        Some(d) => Some(Dec { mantissa: d.mantissa(), scale: d.scale() }),
        None => None,
    }
}

/// `rust_decimal::Decimal::checked_sub`: `None` exactly where `-` would panic
/// with "Subtraction overflowed"; the difference is named by
/// `decimal_checked_sub`.
#[verifier::external_body]
pub fn dec_checked_sub(a: &Dec, b: &Dec) -> (r: Option<Dec>)
    requires
        a.wf(),
        b.wf(),
    ensures
        r == decimal_checked_sub(*a, *b),
        r matches Some(d) ==> d.wf(),
{
    let x = rust_decimal::Decimal::from_i128_with_scale(a.mantissa, a.scale);
    let y = rust_decimal::Decimal::from_i128_with_scale(b.mantissa, b.scale);
    match x.checked_sub(y) {
        Some(d) => Some(Dec { mantissa: d.mantissa(), scale: d.scale() }),
        None => None,
    }
}

/// `rust_decimal::Decimal::checked_div`: `None` exactly where `/` would panic
/// (division by zero or overflow); the quotient, with its rounding, is named by
/// `decimal_checked_div`. One case is stated: a positive dividend that a
/// positive divisor below 2^32 divides exactly, at a scale no smaller than the
/// divisor's, gives the exact quotient at the difference of the scales (the
/// crate's 32-bit divisor path with no remainder).
#[verifier::external_body]
pub fn dec_checked_div(a: &Dec, b: &Dec) -> (r: Option<Dec>)
    requires
        a.wf(),
        b.wf(),
    ensures
        r == decimal_checked_div(*a, *b),
        r matches Some(d) ==> d.wf(),
        is_exact_small_division(*a, *b) ==> r == Some(
            Dec { mantissa: (a.mantissa / b.mantissa) as i128, scale: (a.scale - b.scale) as u32 },
        ),
{
    let x = rust_decimal::Decimal::from_i128_with_scale(a.mantissa, a.scale);
    let y = rust_decimal::Decimal::from_i128_with_scale(b.mantissa, b.scale);
    match x.checked_div(y) {
        Some(d) => Some(Dec { mantissa: d.mantissa(), scale: d.scale() }),
        None => None,
    }
}

/// `10^n` is positive.
pub proof fn lemma_pow10_pos(n: nat)
    ensures
        pow10(n) > 0,
    decreases n,
{
    if n > 0 {
        lemma_pow10_pos((n - 1) as nat);
    }
}

/// Numeric order on decimals is transitive: `a <= b` and `b <= c` give
/// `a <= c`.
pub proof fn lemma_dec_le_trans(a: Dec, b: Dec, c: Dec)
    requires
        !dec_less(b, a),
        !dec_less(c, b),
    ensures
        !dec_less(c, a),
{
    let pa = pow10(a.scale as nat);
    let pb = pow10(b.scale as nat);
    let pc = pow10(c.scale as nat);
    lemma_pow10_pos(a.scale as nat);
    lemma_pow10_pos(b.scale as nat);
    lemma_pow10_pos(c.scale as nat);
    let am = a.mantissa as int;
    let bm = b.mantissa as int;
    let cm = c.mantissa as int;
    assert(am * pc <= cm * pa) by (nonlinear_arith)
        requires
            am * pb <= bm * pa,
            bm * pc <= cm * pb,
            pa > 0,
            pb > 0,
            pc > 0,
    {
        assert(am * pb * pc <= bm * pa * pc);
        assert(bm * pc * pa <= cm * pb * pa);
        assert(am * pc * pb <= cm * pa * pb);
    }
}


/// Numeric order mixes with its strict form: `a <= b` and `b < c` give
/// `a < c`.
pub proof fn lemma_dec_le_lt_trans(a: Dec, b: Dec, c: Dec)
    requires
        !dec_less(b, a),
        dec_less(b, c),
    ensures
        dec_less(a, c),
{
    let pa = pow10(a.scale as nat);
    let pb = pow10(b.scale as nat);
    let pc = pow10(c.scale as nat);
    lemma_pow10_pos(a.scale as nat);
    lemma_pow10_pos(b.scale as nat);
    lemma_pow10_pos(c.scale as nat);
    let am = a.mantissa as int;
    let bm = b.mantissa as int;
    let cm = c.mantissa as int;
    assert(am * pc < cm * pa) by (nonlinear_arith)
        requires
            am * pb <= bm * pa,
            bm * pc < cm * pb,
            pa > 0,
            pb > 0,
            pc > 0,
    {
        assert(am * pb * pc <= bm * pa * pc);
        assert(bm * pc * pa < cm * pb * pa);
        assert(am * pc * pb < cm * pa * pb);
    }
}


/// `a < b` and `b <= c` give `a < c`, numerically.
pub proof fn lemma_dec_lt_le_trans(a: Dec, b: Dec, c: Dec)
    requires
        dec_less(a, b),
        !dec_less(c, b),
    ensures
        dec_less(a, c),
{
    let pa = pow10(a.scale as nat);
    let pb = pow10(b.scale as nat);
    let pc = pow10(c.scale as nat);
    lemma_pow10_pos(a.scale as nat);
    lemma_pow10_pos(b.scale as nat);
    lemma_pow10_pos(c.scale as nat);
    let am = a.mantissa as int;
    let bm = b.mantissa as int;
    let cm = c.mantissa as int;
    assert(am * pc < cm * pa) by (nonlinear_arith)
        requires
            am * pb < bm * pa,
            bm * pc <= cm * pb,
            pa > 0,
            pb > 0,
            pc > 0,
    {
        assert(am * pb * pc < bm * pa * pc);
        assert(bm * pc * pa <= cm * pb * pa);
        assert(am * pc * pb < cm * pa * pb);
    }
}

} // verus!
