//! Arbitrary-precision integers and decimals.
//!
//! Values are held as plain data (a sign, little-endian base-2^32 limbs and a
//! decimal scale); the arithmetic itself is carried out by the `bigdecimal`
//! crate behind small wrappers whose contracts state the exact result.
use bigdecimal::num_bigint::Sign;
use bigdecimal::num_bigint::ToBigInt;
use std::cmp::Ordering;
use vstd::prelude::*;

verus! {

/// Natural number denoted by little-endian base-2^32 limbs.
pub open spec fn limbs_value(limbs: Seq<u32>) -> nat
    decreases limbs.len(),
{
    if limbs.len() == 0 {
        0
    } else {
        limbs[0] as nat + 0x1_0000_0000nat * limbs_value(limbs.drop_first())
    }
}

/// `10^n`.
pub open spec fn pow10(n: nat) -> int
    decreases n,
{
    if n == 0 {
        1
    } else {
        10 * pow10((n - 1) as nat)
    }
}

/// A decimal `(mantissa, scale)` denotes `mantissa * 10^(-scale)`; this is its
/// mantissa once the value is written at the finer scale `k >= scale`.
pub open spec fn at_scale(d: (int, int), k: int) -> int {
    d.0 * pow10((k - d.1) as nat)
}

pub open spec fn max_int(a: int, b: int) -> int {
    if a >= b {
        a
    } else {
        b
    }
}

/// The scale at which two decimals are compared.
pub open spec fn common_scale(a: (int, int), b: (int, int)) -> int {
    max_int(a.1, b.1)
}

pub open spec fn ordering_of(x: int, y: int) -> Ordering {
    if x < y {
        Ordering::Less
    } else if x == y {
        Ordering::Equal
    } else {
        Ordering::Greater
    }
}

/// Numeric comparison of two decimals.
pub open spec fn dec_cmp(a: (int, int), b: (int, int)) -> Ordering {
    ordering_of(at_scale(a, common_scale(a, b)), at_scale(b, common_scale(a, b)))
}

pub open spec fn dec_lt(a: (int, int), b: (int, int)) -> bool {
    dec_cmp(a, b) == Ordering::Less
}

pub open spec fn dec_eq(a: (int, int), b: (int, int)) -> bool {
    dec_cmp(a, b) == Ordering::Equal
}

pub open spec fn dec_nonneg(a: (int, int)) -> bool {
    a.0 >= 0
}

/// `r` is numerically `a + b`.
pub open spec fn is_sum(r: (int, int), a: (int, int), b: (int, int)) -> bool {
    let k = max_int(common_scale(a, b), r.1);
    at_scale(r, k) == at_scale(a, k) + at_scale(b, k)
}

/// `r` is numerically `a - b`.
pub open spec fn is_difference(r: (int, int), a: (int, int), b: (int, int)) -> bool {
    let k = max_int(common_scale(a, b), r.1);
    at_scale(r, k) == at_scale(a, k) - at_scale(b, k)
}

/// A decimal with no fractional part.
pub open spec fn is_integral(d: (int, int)) -> bool {
    d.1 <= 0 || d.0 % pow10(d.1 as nat) == 0
}

/// The integer part of a decimal, rounded toward zero.
pub open spec fn truncated(d: (int, int)) -> int {
    if d.1 <= 0 {
        d.0 * pow10((-d.1) as nat)
    } else if d.0 >= 0 {
        d.0 / pow10(d.1 as nat)
    } else {
        -((-d.0) / pow10(d.1 as nat))
    }
}

/// A scale fine enough for three decimals.
pub open spec fn scale_of3(a: (int, int), b: (int, int), c: (int, int)) -> int {
    max_int(max_int(a.1, b.1), c.1)
}

/// `a < b + c`, numerically.
pub open spec fn dec_lt_sum(a: (int, int), b: (int, int), c: (int, int)) -> bool {
    let k = scale_of3(a, b, c);
    at_scale(a, k) < at_scale(b, k) + at_scale(c, k)
}

/// `r = a + b - c`, numerically.
pub open spec fn is_sum_minus(r: (int, int), a: (int, int), b: (int, int), c: (int, int)) -> bool {
    let k = max_int(scale_of3(a, b, c), r.1);
    at_scale(r, k) == at_scale(a, k) + at_scale(b, k) - at_scale(c, k)
}

/// `r = a - b - c`, numerically.
pub open spec fn is_difference2(r: (int, int), a: (int, int), b: (int, int), c: (int, int)) -> bool {
    let k = max_int(scale_of3(a, b, c), r.1);
    at_scale(r, k) == at_scale(a, k) - at_scale(b, k) - at_scale(c, k)
}

/// What `bigdecimal` parses from a text, as `(mantissa, scale)`.
pub uninterp spec fn decimal_parse(s: Seq<char>) -> Option<(int, int)>;

/// What `num_bigint` parses from a text.
pub uninterp spec fn integer_parse(s: Seq<char>) -> Option<int>;

/// The `Display` text of a decimal `(mantissa, scale)`.
pub uninterp spec fn decimal_text(m: int, s: int) -> Seq<char>;

/// The plain (no exponent) text of a decimal `(mantissa, scale)`.
pub uninterp spec fn decimal_plain_text(m: int, s: int) -> Seq<char>;

/// The decimal text of an integer.
pub uninterp spec fn integer_text(v: int) -> Seq<char>;

/// What `bigdecimal` returns for `a / b` (rounded to its default precision).
pub uninterp spec fn decimal_quotient(am: int, a_scale: int, bm: int, b_scale: int) -> (int, int);

/// Arbitrary-precision signed integer.
#[derive(Debug)]
pub struct BigInt {
    pub negative: bool,
    /// Little-endian base-2^32 limbs of the absolute value.
    pub magnitude: Vec<u32>,
}

impl View for BigInt {
    type V = int;

    open spec fn view(&self) -> int {
        if self.negative {
            -(limbs_value(self.magnitude@) as int)
        } else {
            limbs_value(self.magnitude@) as int
        }
    }
}

/// Arbitrary-precision signed decimal: `digits * 10^(-scale)`.
#[derive(Debug)]
pub struct BigDecimal {
    pub digits: BigInt,
    pub scale: i64,
}

impl View for BigDecimal {
    type V = (int, int);

    open spec fn view(&self) -> (int, int) {
        (self.digits@, self.scale as int)
    }
}

/// Relies on `num_bigint::BigInt::from_str`.
#[verifier::external_body]
fn integer_from_text(s: &str) -> (r: Option<BigInt>)
    ensures
        r matches Some(v) ==> integer_parse(s@) == Some(v@),
        r is None ==> integer_parse(s@) is None,
{
    let v = <bigdecimal::num_bigint::BigInt as std::str::FromStr>::from_str(s).ok()?;
    let (sign, magnitude) = v.to_u32_digits();
    Some(BigInt { negative: sign == Sign::Minus, magnitude })
}

/// The integer of a machine word, as two limbs.
fn integer_from_u64(v: u64) -> (r: BigInt)
    ensures
        r@ == v as int,
{
    let low = (v % 0x1_0000_0000) as u32;
    let high = (v / 0x1_0000_0000) as u32;
    let mut magnitude: Vec<u32> = Vec::new();
    magnitude.push(low);
    magnitude.push(high);
    proof {
        let s = magnitude@;
        assert(s.drop_first().drop_first() =~= Seq::<u32>::empty());
        assert(limbs_value(s.drop_first()) == high as nat + 0x1_0000_0000nat * limbs_value(
            s.drop_first().drop_first(),
        ));
        assert(limbs_value(s) == low as nat + 0x1_0000_0000nat * limbs_value(s.drop_first()));
    }
    BigInt { negative: false, magnitude }
}

/// Relies on `num_bigint`'s `Add`: the exact sum.
#[verifier::external_body]
fn integer_add(a: &BigInt, b: &BigInt) -> (r: BigInt)
    ensures
        r@ == a@ + b@,
{
    let x = bigdecimal::num_bigint::BigInt::new(if a.negative { Sign::Minus } else { Sign::Plus }, a.magnitude.clone());
    let y = bigdecimal::num_bigint::BigInt::new(if b.negative { Sign::Minus } else { Sign::Plus }, b.magnitude.clone());
    let (sign, magnitude) = (x + y).to_u32_digits();
    BigInt { negative: sign == Sign::Minus, magnitude }
}

/// Relies on `num_bigint`'s `Sub`: the exact difference.
#[verifier::external_body]
fn integer_sub(a: &BigInt, b: &BigInt) -> (r: BigInt)
    ensures
        r@ == a@ - b@,
{
    let x = bigdecimal::num_bigint::BigInt::new(if a.negative { Sign::Minus } else { Sign::Plus }, a.magnitude.clone());
    let y = bigdecimal::num_bigint::BigInt::new(if b.negative { Sign::Minus } else { Sign::Plus }, b.magnitude.clone());
    let (sign, magnitude) = (x - y).to_u32_digits();
    BigInt { negative: sign == Sign::Minus, magnitude }
}

/// Relies on `num_bigint`'s `Rem`: for a non-negative dividend and a positive
/// divisor the remainder is the usual one.
#[verifier::external_body]
fn integer_rem(a: &BigInt, b: &BigInt) -> (r: BigInt)
    requires
        a@ >= 0,
        b@ > 0,
    ensures
        r@ == a@ % b@,
{
    let x = bigdecimal::num_bigint::BigInt::new(if a.negative { Sign::Minus } else { Sign::Plus }, a.magnitude.clone());
    let y = bigdecimal::num_bigint::BigInt::new(if b.negative { Sign::Minus } else { Sign::Plus }, b.magnitude.clone());
    let (sign, magnitude) = (x % y).to_u32_digits();
    BigInt { negative: sign == Sign::Minus, magnitude }
}

/// Relies on `num_bigint`'s `Ord`: numeric order.
#[verifier::external_body]
fn integer_cmp(a: &BigInt, b: &BigInt) -> (r: Ordering)
    ensures
        r == ordering_of(a@, b@),
{
    let x = bigdecimal::num_bigint::BigInt::new(if a.negative { Sign::Minus } else { Sign::Plus }, a.magnitude.clone());
    let y = bigdecimal::num_bigint::BigInt::new(if b.negative { Sign::Minus } else { Sign::Plus }, b.magnitude.clone());
    x.cmp(&y)
}

/// Relies on `num_bigint`'s `Display`.
#[verifier::external_body]
fn integer_to_text(a: &BigInt) -> (r: String)
    ensures
        r@ == integer_text(a@),
{
    let x = bigdecimal::num_bigint::BigInt::new(if a.negative { Sign::Minus } else { Sign::Plus }, a.magnitude.clone());
    x.to_string()
}

impl BigInt {
    /// Parses a decimal integer text.
    pub fn from_str(value: &str) -> (r: Result<BigInt, String>)
        ensures
            r matches Ok(v) ==> integer_parse(value@) == Some(v@),
            r is Err <==> integer_parse(value@) is None,
    {
        match integer_from_text(value) {
            Some(v) => Ok(v),
            None => Err(String::from_str("invalid integer")),
        }
    }

    /// The integer with the same value.
    pub fn from_bigint(bigint: BigInt) -> (r: BigInt)
        ensures
            r@ == bigint@,
    {
        bigint
    }

    pub fn from_u64(value: u64) -> (r: Option<BigInt>)
        ensures
            r matches Some(v) && v@ == value as int,
    {
        Some(integer_from_u64(value))
    }

    pub fn zero() -> (r: BigInt)
        ensures
            r@ == 0,
    {
        let r = BigInt { negative: false, magnitude: Vec::new() };
        proof {
            assert(r.magnitude@.len() == 0);
        }
        r
    }

    pub fn plus(&self, other: &BigInt) -> (r: BigInt)
        ensures
            r@ == self@ + other@,
    {
        integer_add(self, other)
    }

    pub fn minus(&self, other: &BigInt) -> (r: BigInt)
        ensures
            r@ == self@ - other@,
    {
        integer_sub(self, other)
    }

    /// Remainder of a non-negative integer by a positive one.
    pub fn modulo(&self, other: &BigInt) -> (r: BigInt)
        requires
            self@ >= 0,
            other@ > 0,
        ensures
            r@ == self@ % other@,
    {
        integer_rem(self, other)
    }

    pub fn compare(&self, other: &BigInt) -> (r: Ordering)
        ensures
            r == ordering_of(self@, other@),
    {
        integer_cmp(self, other)
    }

    pub fn to_string(&self) -> (r: String)
        ensures
            r@ == integer_text(self@),
    {
        integer_to_text(self)
    }
}

impl Clone for BigInt {
    fn clone(&self) -> (r: BigInt)
        ensures
            r@ == self@,
    {
        BigInt { negative: self.negative, magnitude: self.magnitude.clone() }
    }
}

/// The largest scale, in either direction, the library computes with: beyond
/// it `bigdecimal`'s rescaling overflows its `i64` scale or builds powers of
/// ten too large to allocate.
pub const SCALE_LIMIT: i64 = 1_000_000;

/// The most limbs a divisor may have: `bigdecimal`'s division shifts the
/// dividend once per decimal digit of the divisor.
pub const DIVISOR_LIMB_LIMIT: usize = 1024;

/// The decimal's scale is within the library's limit.
pub open spec fn scale_ok(d: (int, int)) -> bool {
    -SCALE_LIMIT <= d.1 <= SCALE_LIMIT
}

/// Relies on `bigdecimal::BigDecimal::from_str`.
#[verifier::external_body]
fn decimal_from_text(s: &str) -> (r: Option<BigDecimal>)
    ensures
        r matches Some(v) ==> decimal_parse(s@) == Some(v@),
        r is None ==> decimal_parse(s@) is None,
{
    let (v, scale) = <bigdecimal::BigDecimal as std::str::FromStr>::from_str(s).ok()?.into_bigint_and_scale();
    let (sign, magnitude) = v.to_u32_digits();
    Some(BigDecimal { digits: BigInt { negative: sign == Sign::Minus, magnitude }, scale })
}

/// Relies on `bigdecimal`'s `Add`: the exact sum, at the scale of one operand
/// (the finer one).
#[verifier::external_body]
fn decimal_add(a: &BigDecimal, b: &BigDecimal) -> (r: BigDecimal)
    requires
        scale_ok(a@),
        scale_ok(b@),
    ensures
        is_sum(r@, a@, b@),
        r@.1 == a@.1 || r@.1 == b@.1,
{
    let x = bigdecimal::BigDecimal::new(bigdecimal::num_bigint::BigInt::new(if a.digits.negative { Sign::Minus } else { Sign::Plus }, a.digits.magnitude.clone()), a.scale);
    let y = bigdecimal::BigDecimal::new(bigdecimal::num_bigint::BigInt::new(if b.digits.negative { Sign::Minus } else { Sign::Plus }, b.digits.magnitude.clone()), b.scale);
    let (v, scale) = (x + y).into_bigint_and_scale();
    let (sign, magnitude) = v.to_u32_digits();
    BigDecimal { digits: BigInt { negative: sign == Sign::Minus, magnitude }, scale }
}

/// Relies on `bigdecimal`'s `Sub`: the exact difference, at the scale of one
/// operand.
#[verifier::external_body]
fn decimal_sub(a: &BigDecimal, b: &BigDecimal) -> (r: BigDecimal)
    requires
        scale_ok(a@),
        scale_ok(b@),
    ensures
        is_difference(r@, a@, b@),
        r@.1 == a@.1 || r@.1 == b@.1,
{
    let x = bigdecimal::BigDecimal::new(bigdecimal::num_bigint::BigInt::new(if a.digits.negative { Sign::Minus } else { Sign::Plus }, a.digits.magnitude.clone()), a.scale);
    let y = bigdecimal::BigDecimal::new(bigdecimal::num_bigint::BigInt::new(if b.digits.negative { Sign::Minus } else { Sign::Plus }, b.digits.magnitude.clone()), b.scale);
    let (v, scale) = (x - y).into_bigint_and_scale();
    let (sign, magnitude) = v.to_u32_digits();
    BigDecimal { digits: BigInt { negative: sign == Sign::Minus, magnitude }, scale }
}

/// Relies on `bigdecimal`'s `Div`, which rounds to its default precision (100
/// digits unless set otherwise when the crate is built). Division by zero
/// panics; the result's `i64` scale is the difference of the scales plus one
/// per digit shifted, so both scales and the divisor's size are bounded.
#[verifier::external_body]
fn decimal_div(a: &BigDecimal, b: &BigDecimal) -> (r: BigDecimal)
    requires
        b@.0 != 0,
        scale_ok(a@),
        scale_ok(b@),
        b.digits.magnitude@.len() <= DIVISOR_LIMB_LIMIT,
    ensures
        r@ == decimal_quotient(a@.0, a@.1, b@.0, b@.1),
{
    let x = bigdecimal::BigDecimal::new(bigdecimal::num_bigint::BigInt::new(if a.digits.negative { Sign::Minus } else { Sign::Plus }, a.digits.magnitude.clone()), a.scale);
    let y = bigdecimal::BigDecimal::new(bigdecimal::num_bigint::BigInt::new(if b.digits.negative { Sign::Minus } else { Sign::Plus }, b.digits.magnitude.clone()), b.scale);
    let (v, scale) = (x / y).into_bigint_and_scale();
    let (sign, magnitude) = v.to_u32_digits();
    BigDecimal { digits: BigInt { negative: sign == Sign::Minus, magnitude }, scale }
}

/// Relies on `bigdecimal`'s `Ord`: numeric order.
#[verifier::external_body]
fn decimal_cmp(a: &BigDecimal, b: &BigDecimal) -> (r: Ordering)
    ensures
        r == dec_cmp(a@, b@),
{
    let x = bigdecimal::BigDecimal::new(bigdecimal::num_bigint::BigInt::new(if a.digits.negative { Sign::Minus } else { Sign::Plus }, a.digits.magnitude.clone()), a.scale);
    let y = bigdecimal::BigDecimal::new(bigdecimal::num_bigint::BigInt::new(if b.digits.negative { Sign::Minus } else { Sign::Plus }, b.digits.magnitude.clone()), b.scale);
    x.cmp(&y)
}

/// Relies on `bigdecimal::BigDecimal::is_integer`: no fractional part. It
/// builds `10^scale`, hence the bound.
#[verifier::external_body]
fn decimal_is_integer(a: &BigDecimal) -> (r: bool)
    requires
        scale_ok(a@),
    ensures
        r == is_integral(a@),
{
    let x = bigdecimal::BigDecimal::new(bigdecimal::num_bigint::BigInt::new(if a.digits.negative { Sign::Minus } else { Sign::Plus }, a.digits.magnitude.clone()), a.scale);
    x.is_integer()
}

/// Relies on `bigdecimal`'s `ToBigInt`: the value rounded toward zero. It
/// rescales by `10^|scale|`, hence the bound.
#[verifier::external_body]
fn decimal_truncate(a: &BigDecimal) -> (r: BigInt)
    requires
        scale_ok(a@),
    ensures
        r@ == truncated(a@),
{
    let x = bigdecimal::BigDecimal::new(bigdecimal::num_bigint::BigInt::new(if a.digits.negative { Sign::Minus } else { Sign::Plus }, a.digits.magnitude.clone()), a.scale);
    let (sign, magnitude) = x.to_bigint().unwrap().to_u32_digits();
    BigInt { negative: sign == Sign::Minus, magnitude }
}

/// Relies on `bigdecimal`'s `Display`.
#[verifier::external_body]
fn decimal_to_text(a: &BigDecimal) -> (r: String)
    ensures
        r@ == decimal_text(a@.0, a@.1),
{
    let x = bigdecimal::BigDecimal::new(bigdecimal::num_bigint::BigInt::new(if a.digits.negative { Sign::Minus } else { Sign::Plus }, a.digits.magnitude.clone()), a.scale);
    x.to_string()
}

/// Relies on `bigdecimal::BigDecimal::to_plain_string`, which writes every
/// zero the scale implies, hence the bound.
#[verifier::external_body]
fn decimal_to_plain_text(a: &BigDecimal) -> (r: String)
    requires
        scale_ok(a@),
    ensures
        r@ == decimal_plain_text(a@.0, a@.1),
{
    let x = bigdecimal::BigDecimal::new(bigdecimal::num_bigint::BigInt::new(if a.digits.negative { Sign::Minus } else { Sign::Plus }, a.digits.magnitude.clone()), a.scale);
    x.to_plain_string()
}

impl BigDecimal {
    /// Parses a decimal text; a value whose scale is beyond the library's
    /// limit is refused.
    pub fn from_str(value: &str) -> (r: Result<BigDecimal, String>)
        ensures
            r matches Ok(v) ==> decimal_parse(value@) == Some(v@) && scale_ok(v@),
            r is Err <==> (decimal_parse(value@) is None || !scale_ok(
                decimal_parse(value@)->0,
            )),
    {
        match decimal_from_text(value) {
            Some(v) => {
                if v.in_range() {
                    Ok(v)
                } else {
                    Err(String::from_str("decimal out of range"))
                }
            },
            None => Err(String::from_str("invalid decimal")),
        }
    }

    /// Whether the scale is within the library's limit.
    pub fn in_range(&self) -> (r: bool)
        ensures
            r == scale_ok(self@),
    {
        -SCALE_LIMIT <= self.scale && self.scale <= SCALE_LIMIT
    }

    /// The integer `value` as a decimal of scale zero.
    pub fn from_usize(value: usize) -> (r: Result<BigDecimal, String>)
        ensures
            r matches Ok(v) && v@ == (value as int, 0int),
    {
        Ok(BigDecimal { digits: integer_from_u64(value as u64), scale: 0 })
    }

    /// The decimal `count * 10^(-scale)`.
    pub fn from_parts(count: u64, scale: i64) -> (r: BigDecimal)
        requires
            -SCALE_LIMIT <= scale <= SCALE_LIMIT,
        ensures
            scale_ok(r@),
            r@ == (count as int, scale as int),
    {
        BigDecimal { digits: integer_from_u64(count), scale }
    }

    /// The integer value of a decimal without fractional part.
    pub fn to_bigint(&self) -> (r: Option<BigInt>)
        requires
            scale_ok(self@),
        ensures
            r is Some <==> is_integral(self@),
            r matches Some(v) ==> v@ == truncated(self@),
    {
        if decimal_is_integer(self) {
            Some(decimal_truncate(self))
        } else {
            None
        }
    }

    pub fn zero() -> (r: BigDecimal)
        ensures
            r@ == (0int, 0int),
    {
        BigDecimal { digits: BigInt::zero(), scale: 0 }
    }

    pub fn is_zero(&self) -> (r: bool)
        ensures
            r == (self@.0 == 0),
    {
        let z = BigInt::zero();
        match integer_cmp(&self.digits, &z) {
            Ordering::Equal => true,
            _ => false,
        }
    }

    pub fn plus(&self, other: &BigDecimal) -> (r: BigDecimal)
        requires
            scale_ok(self@),
            scale_ok(other@),
        ensures
            is_sum(r@, self@, other@),
            scale_ok(r@),
    {
        decimal_add(self, other)
    }

    pub fn minus(&self, other: &BigDecimal) -> (r: BigDecimal)
        requires
            scale_ok(self@),
            scale_ok(other@),
        ensures
            is_difference(r@, self@, other@),
            scale_ok(r@),
    {
        decimal_sub(self, other)
    }

    /// Quotient, rounded as `bigdecimal` does.
    pub fn divided_by(&self, other: &BigDecimal) -> (r: BigDecimal)
        requires
            other@.0 != 0,
            scale_ok(self@),
            scale_ok(other@),
            other.digits.magnitude@.len() <= DIVISOR_LIMB_LIMIT,
        ensures
            r@ == decimal_quotient(self@.0, self@.1, other@.0, other@.1),
    {
        decimal_div(self, other)
    }

    pub fn compare(&self, other: &BigDecimal) -> (r: Ordering)
        ensures
            r == dec_cmp(self@, other@),
    {
        decimal_cmp(self, other)
    }

    pub fn less_than(&self, other: &BigDecimal) -> (r: bool)
        ensures
            r == dec_lt(self@, other@),
    {
        match decimal_cmp(self, other) {
            Ordering::Less => true,
            _ => false,
        }
    }

    /// The `Display` text (it may use an exponent).
    pub fn to_string(&self) -> (r: String)
        ensures
            r@ == decimal_text(self@.0, self@.1),
    {
        decimal_to_text(self)
    }

    /// The text without exponent, as stored and sent over the wire.
    pub fn to_plain_string(&self) -> (r: String)
        requires
            scale_ok(self@),
        ensures
            r@ == decimal_plain_text(self@.0, self@.1),
    {
        decimal_to_plain_text(self)
    }
}

impl Clone for BigDecimal {
    fn clone(&self) -> (r: BigDecimal)
        ensures
            r@ == self@,
    {
        BigDecimal { digits: self.digits.clone(), scale: self.scale }
    }
}

impl PartialEq for BigInt {
    fn eq(&self, other: &BigInt) -> (r: bool) {
        match integer_cmp(self, other) {
            Ordering::Equal => true,
            _ => false,
        }
    }
}

impl vstd::std_specs::cmp::PartialEqSpecImpl for BigInt {
    open spec fn obeys_eq_spec() -> bool {
        true
    }

    open spec fn eq_spec(&self, other: &BigInt) -> bool {
        self@ == other@
    }
}

impl PartialEq for BigDecimal {
    fn eq(&self, other: &BigDecimal) -> (r: bool) {
        match decimal_cmp(self, other) {
            Ordering::Equal => true,
            _ => false,
        }
    }
}

impl vstd::std_specs::cmp::PartialEqSpecImpl for BigDecimal {
    open spec fn obeys_eq_spec() -> bool {
        true
    }

    open spec fn eq_spec(&self, other: &BigDecimal) -> bool {
        dec_eq(self@, other@)
    }
}

} // verus!
