//! Arbitrary-precision decimal numbers.
//!
//! A [`Decimal`] holds the integer mantissa and the decimal scale of a number as plain data; the
//! arithmetic itself is done by the `bigdecimal` crate. Contracts speak of the number through its
//! [`DecimalView`]: the pair of mathematical integers `mantissa` and `scale`, which stands for
//! `mantissa / 10^scale`.
use bigdecimal::num_bigint::{BigInt, Sign};
use bigdecimal::BigDecimal;
use vstd::arithmetic::power::{
    lemma_pow0,
    lemma_pow1,
    lemma_pow_adds,
    lemma_pow_increases,
    lemma_pow_positive,
    pow,
};
use vstd::prelude::*;

verus! {

/// The largest magnitude of the scale of an operand: bringing two decimals to one scale writes out
/// as many digits as their scales lie apart.
pub const OPERAND_SCALE_LIMIT: i64 = 1_000_000_000;

/// The largest magnitude of the scale of a decimal that is written: a quotient of operands has some
/// digits more behind the point than they have.
pub const TEXT_SCALE_LIMIT: i64 = 1_000_001_000;

/// The largest magnitude of the scale of a decimal that is compared: `bigdecimal` estimates in
/// floating point how many bits lie between the scales, which is sure up to a million digits.
pub const COMPARED_SCALE_LIMIT: i64 = 500_000;

/// The number `mantissa / 10^scale`.
pub struct DecimalView {
    pub mantissa: int,
    pub scale: int,
}

/// The natural number that `bytes` write in base 256, least significant byte first.
pub open spec fn little_endian(bytes: Seq<u8>) -> nat
    decreases bytes.len(),
{
    if bytes.len() == 0 {
        0
    } else {
        bytes[0] as nat + 256 * little_endian(bytes.drop_first())
    }
}

/// The integer that `bytes` write in two's complement, least significant byte first.
pub open spec fn twos_complement(bytes: Seq<u8>) -> int {
    if bytes.len() > 0 && bytes.last() >= 128 {
        little_endian(bytes) - pow(256, bytes.len())
    } else {
        little_endian(bytes) as int
    }
}

pub open spec fn max_int(a: int, b: int) -> int {
    if a >= b {
        a
    } else {
        b
    }
}

pub open spec fn abs_int(a: int) -> int {
    if a < 0 {
        -a
    } else {
        a
    }
}

impl DecimalView {
    /// The mantissa of the same number at a scale that is at least its own.
    pub open spec fn aligned(self, scale: int) -> int {
        self.mantissa * pow(10, (scale - self.scale) as nat)
    }

    /// Whether the two stand for the same number.
    pub open spec fn same_value(self, other: DecimalView) -> bool {
        let scale = max_int(self.scale, other.scale);
        self.aligned(scale) == other.aligned(scale)
    }

    /// Whether the number is smaller than the other.
    pub open spec fn less_than(self, other: DecimalView) -> bool {
        let scale = max_int(self.scale, other.scale);
        self.aligned(scale) < other.aligned(scale)
    }

    pub open spec fn plus(self, other: DecimalView) -> DecimalView {
        let scale = max_int(self.scale, other.scale);
        DecimalView { mantissa: self.aligned(scale) + other.aligned(scale), scale }
    }

    /// The difference: a zero operand leaves the scale of the other one as it is.
    pub open spec fn minus(self, other: DecimalView) -> DecimalView {
        if other.mantissa == 0 {
            self
        } else if self.mantissa == 0 {
            DecimalView { mantissa: -other.mantissa, scale: other.scale }
        } else {
            let scale = max_int(self.scale, other.scale);
            DecimalView { mantissa: self.aligned(scale) - other.aligned(scale), scale }
        }
    }

    pub open spec fn times(self, other: DecimalView) -> DecimalView {
        DecimalView { mantissa: self.mantissa * other.mantissa, scale: self.scale + other.scale }
    }

    /// Whether the number is one, written with at most 38 zeros behind the digit.
    pub open spec fn is_written_one(self) -> bool {
        0 <= self.scale <= 38 && self.mantissa == pow(10, self.scale as nat)
    }

    /// The product as it is written: a factor that is seen to be one leaves the other as it is.
    pub open spec fn product(self, other: DecimalView) -> DecimalView {
        if self.is_written_one() {
            other
        } else if other.is_written_one() {
            self
        } else {
            self.times(other)
        }
    }

    pub open spec fn magnitude(self) -> DecimalView {
        DecimalView { mantissa: abs_int(self.mantissa), scale: self.scale }
    }

    /// Whether the number may stand in an operation of [`Decimal`].
    pub open spec fn is_operand(self) -> bool {
        self.within(OPERAND_SCALE_LIMIT as int)
    }

    /// Whether the number may be written as a text.
    pub open spec fn has_text(self) -> bool {
        self.within(TEXT_SCALE_LIMIT as int)
    }

    /// Whether the number may be compared with another.
    pub open spec fn is_comparable(self) -> bool {
        self.within(COMPARED_SCALE_LIMIT as int)
    }

    /// Whether the scale is at most `limit` in magnitude.
    pub open spec fn within(self, limit: int) -> bool {
        -limit <= self.scale <= limit
    }
}

/// The integer as a decimal.
pub open spec fn whole(n: int) -> DecimalView {
    DecimalView { mantissa: n, scale: 0 }
}

/// A decimal number: the bytes of its mantissa in two's complement, least significant first, and
/// its scale.
#[derive(Debug)]
pub struct Decimal {
    pub mantissa: Vec<u8>,
    pub scale: i64,
}

impl View for Decimal {
    type V = DecimalView;

    open spec fn view(&self) -> DecimalView {
        DecimalView { mantissa: twos_complement(self.mantissa@), scale: self.scale as int }
    }
}

/// What `bigdecimal` returns for `a / b`, as mantissa and scale: the quotient, rounded to the
/// precision that the crate was built with where it does not end before.
pub uninterp spec fn decimal_quotient(
    a_mantissa: int,
    a_scale: int,
    b_mantissa: int,
    b_scale: int,
) -> (int, int);

/// What `bigdecimal` writes of a number without an exponent.
pub uninterp spec fn decimal_plain_text(mantissa: int, scale: int) -> Seq<char>;

/// The decimal text that `bigdecimal` writes for a number.
pub uninterp spec fn decimal_text(mantissa: int, scale: int) -> Seq<char>;

/// The mantissa and scale that `bigdecimal` reads from a text, or what it says of one that is no
/// number.
pub uninterp spec fn decimal_parse(text: Seq<char>) -> Result<(int, int), Seq<char>>;

impl DecimalView {
    pub open spec fn over(self, other: DecimalView) -> DecimalView {
        let q = decimal_quotient(self.mantissa, self.scale, other.mantissa, other.scale);
        DecimalView { mantissa: q.0, scale: q.1 }
    }
}

/// The numbers of a sequence of decimals.
pub open spec fn decimal_views(s: Seq<Decimal>) -> Seq<DecimalView> {
    Seq::new(s.len(), |i: int| s[i]@)
}

/// Whether the scales of all decimals are at most `limit` in magnitude.
pub open spec fn all_within(s: Seq<Decimal>, limit: int) -> bool {
    forall|i: int| 0 <= i < s.len() ==> (#[trigger] s[i])@.within(limit)
}

/// The sign of a number.
#[derive(Debug, Clone, Copy, PartialEq, Eq, Structural)]
pub enum DecimalSign {
    Minus,
    Zero,
    Plus,
}

/// How one number compares with another.
#[derive(Debug, Clone, Copy, PartialEq, Eq, Structural)]
pub enum Comparison {
    Less,
    Equal,
    Greater,
}

pub open spec fn sign_of(n: int) -> DecimalSign {
    if n < 0 {
        DecimalSign::Minus
    } else if n == 0 {
        DecimalSign::Zero
    } else {
        DecimalSign::Plus
    }
}

/// The sign of a product or quotient of numbers with the given signs.
pub open spec fn sign_product(a: DecimalSign, b: DecimalSign) -> DecimalSign {
    if a == DecimalSign::Zero || b == DecimalSign::Zero {
        DecimalSign::Zero
    } else if a == b {
        DecimalSign::Plus
    } else {
        DecimalSign::Minus
    }
}

pub open spec fn comparison(a: DecimalView, b: DecimalView) -> Comparison {
    if a.less_than(b) {
        Comparison::Less
    } else if a.same_value(b) {
        Comparison::Equal
    } else {
        Comparison::Greater
    }
}

/// `bigdecimal`'s `&BigDecimal + BigDecimal`: both mantissas brought to the larger scale and added.
#[verifier::external_body]
fn big_plus(a: &Decimal, b: &Decimal) -> (r: Decimal)
    requires
        a@.is_operand(),
        b@.is_operand(),
    ensures
        r@ == a@.plus(b@),
{
    let x = BigDecimal::new(BigInt::from_signed_bytes_le(&a.mantissa), a.scale);
    let y = BigDecimal::new(BigInt::from_signed_bytes_le(&b.mantissa), b.scale);
    let (mantissa, scale) = (&x + y).into_bigint_and_exponent();
    Decimal { mantissa: mantissa.to_signed_bytes_le(), scale }
}

/// `bigdecimal`'s `BigDecimal - &BigDecimal`: the left operand where the right one is zero, the
/// right one negated where the left one is zero, else both mantissas brought to the larger scale
/// and subtracted.
#[verifier::external_body]
fn big_minus(a: &Decimal, b: &Decimal) -> (r: Decimal)
    requires
        a@.is_operand(),
        b@.is_operand(),
    ensures
        r@ == a@.minus(b@),
{
    let x = BigDecimal::new(BigInt::from_signed_bytes_le(&a.mantissa), a.scale);
    let y = BigDecimal::new(BigInt::from_signed_bytes_le(&b.mantissa), b.scale);
    let (mantissa, scale) = (x - &y).into_bigint_and_exponent();
    Decimal { mantissa: mantissa.to_signed_bytes_le(), scale }
}

/// `bigdecimal`'s `BigDecimal * BigDecimal`: the mantissas multiplied and the scales added, except
/// that a factor that is seen to be one leaves the other factor as it is. The crate sees that of a
/// power of ten whose scale is its exponent, up to 38.
#[verifier::external_body]
fn big_times(a: &Decimal, b: &Decimal) -> (r: Decimal)
    requires
        a@.is_operand(),
        b@.is_operand(),
    ensures
        r@ == a@.product(b@),
{
    let x = BigDecimal::new(BigInt::from_signed_bytes_le(&a.mantissa), a.scale);
    let y = BigDecimal::new(BigInt::from_signed_bytes_le(&b.mantissa), b.scale);
    let (mantissa, scale) = (x * y).into_bigint_and_exponent();
    Decimal { mantissa: mantissa.to_signed_bytes_le(), scale }
}

/// `bigdecimal`'s `&BigDecimal / &BigDecimal`, which panics on a zero divisor. The quotient has the
/// sign of the exact one. A zero dividend comes back as it is; a number divided by itself is one.
/// The scale is that of the dividend less that of the divisor, and at most a hundred digits and the
/// digits of the divisor more, or that of the dividend where the divisor is one. Nothing is rounded
/// where a number of fewer than a hundred digits is divided by two.
#[verifier::external_body]
fn big_over(a: &Decimal, b: &Decimal) -> (r: Decimal)
    requires
        a@.is_operand(),
        b@.is_operand(),
        b@.mantissa != 0,
    ensures
        decimal_quotient(a@.mantissa, a@.scale, b@.mantissa, b@.scale) == (r@.mantissa, r@.scale),
        sign_of(r@.mantissa) == sign_product(sign_of(a@.mantissa), sign_of(b@.mantissa)),
        a@.mantissa == 0 ==> r@ == a@,
        a@ == b@ ==> r@.same_value(whole(1)) && 0 <= r@.scale <= max_int(0, a@.scale),
        r@.scale >= a@.scale - b@.scale || r@.scale == a@.scale,
        forall|digits: nat|
            abs_int(b@.mantissa) < #[trigger] pow(10, digits) ==> r@.scale <= max_int(
                a@.scale,
                a@.scale - b@.scale + digits + 100,
            ),
        b@ == whole(2) && abs_int(a@.mantissa) < pow(10, 99) ==> r@.times(whole(2)).same_value(a@),
{
    let x = BigDecimal::new(BigInt::from_signed_bytes_le(&a.mantissa), a.scale);
    let y = BigDecimal::new(BigInt::from_signed_bytes_le(&b.mantissa), b.scale);
    let (mantissa, scale) = (&x / &y).into_bigint_and_exponent();
    Decimal { mantissa: mantissa.to_signed_bytes_le(), scale }
}

/// `bigdecimal`'s `BigDecimal::cmp`: the order of the two numbers by value.
#[verifier::external_body]
fn big_compare(a: &Decimal, b: &Decimal) -> (r: Comparison)
    requires
        a@.is_comparable(),
        b@.is_comparable(),
    ensures
        r == comparison(a@, b@),
{
    let x = BigDecimal::new(BigInt::from_signed_bytes_le(&a.mantissa), a.scale);
    let y = BigDecimal::new(BigInt::from_signed_bytes_le(&b.mantissa), b.scale);
    match x.cmp(&y) {
        std::cmp::Ordering::Less => Comparison::Less,
        std::cmp::Ordering::Equal => Comparison::Equal,
        std::cmp::Ordering::Greater => Comparison::Greater,
    }
}

/// `bigdecimal`'s `BigDecimal::sign`: the sign of the mantissa.
#[verifier::external_body]
fn big_sign(a: &Decimal) -> (r: DecimalSign)
    ensures
        r == sign_of(a@.mantissa),
{
    match BigDecimal::new(BigInt::from_signed_bytes_le(&a.mantissa), a.scale).sign() {
        Sign::Minus => DecimalSign::Minus,
        Sign::NoSign => DecimalSign::Zero,
        Sign::Plus => DecimalSign::Plus,
    }
}

/// `bigdecimal`'s `BigDecimal::abs`: the magnitude, at the same scale.
#[verifier::external_body]
fn big_abs(a: &Decimal) -> (r: Decimal)
    ensures
        r@ == a@.magnitude(),
{
    let x = BigDecimal::new(BigInt::from_signed_bytes_le(&a.mantissa), a.scale);
    let (mantissa, scale) = x.abs().into_bigint_and_exponent();
    Decimal { mantissa: mantissa.to_signed_bytes_le(), scale }
}

/// `bigdecimal`'s `BigDecimal::from(i64)`: the integer at scale zero.
#[verifier::external_body]
fn big_from_i64(n: i64) -> (r: Decimal)
    ensures
        r@ == whole(n as int),
{
    let (mantissa, scale) = BigDecimal::from(n).into_bigint_and_exponent();
    Decimal { mantissa: mantissa.to_signed_bytes_le(), scale }
}

/// `bigdecimal`'s `to_string`: the decimal text of the number. It is made of digits, signs, the
/// decimal point and the letter of the exponent, so it holds no brackets.
#[verifier::external_body]
fn big_text(a: &Decimal) -> (r: String)
    requires
        a@.has_text(),
    ensures
        r@ == decimal_text(a@.mantissa, a@.scale),
        forall|i: int| 0 <= i < r@.len() ==> #[trigger] r@[i] != '(' && r@[i] != ')',
{
    BigDecimal::new(BigInt::from_signed_bytes_le(&a.mantissa), a.scale).to_string()
}

/// `bigdecimal`'s `to_plain_string`: the text of the number without an exponent, which is named. All
/// its zeros are written out, so the scale must not be too large.
#[verifier::external_body]
fn big_plain_text(a: &Decimal) -> (r: String)
    requires
        a@.is_comparable(),
    ensures
        r@ == decimal_plain_text(a@.mantissa, a@.scale),
{
    BigDecimal::new(BigInt::from_signed_bytes_le(&a.mantissa), a.scale).to_plain_string()
}

/// `bigdecimal`'s `FromStr`: the number that the text writes, or the text of the error. A text that
/// `to_string` or `to_plain_string` wrote is read back as a number of the same value; that of
/// `to_string` at a scale of no larger magnitude.
#[verifier::external_body]
fn big_parse(text: &str) -> (r: Result<Decimal, String>)
    ensures
        match r {
            Ok(d) => decimal_parse(text@) == Ok::<(int, int), Seq<char>>((d@.mantissa, d@.scale)),
            Err(e) => decimal_parse(text@) == Err::<(int, int), Seq<char>>(e@),
        },
        forall|mantissa: int, scale: int|
            text@ == #[trigger] decimal_text(mantissa, scale) && -TEXT_SCALE_LIMIT <= scale
                <= TEXT_SCALE_LIMIT ==> r is Ok && r->Ok_0@.same_value(
                (DecimalView { mantissa, scale }),
            ) && abs_int(r->Ok_0@.scale) <= abs_int(scale),
        forall|mantissa: int, scale: int|
            text@ == #[trigger] decimal_plain_text(mantissa, scale) && -COMPARED_SCALE_LIMIT
                <= scale <= COMPARED_SCALE_LIMIT ==> r is Ok && r->Ok_0@.same_value(
                (DecimalView { mantissa, scale }),
            ),
{
    match text.parse::<BigDecimal>() {
        Ok(d) => {
            let (mantissa, scale) = d.into_bigint_and_exponent();
            Ok(Decimal { mantissa: mantissa.to_signed_bytes_le(), scale })
        },
        Err(e) => Err(e.to_string()),
    }
}

impl Clone for Decimal {
    fn clone(&self) -> (r: Decimal)
        ensures
            r@ == self@,
    {
        let mut mantissa: Vec<u8> = Vec::new();
        let mut i: usize = 0;
        while i < self.mantissa.len()
            invariant
                i <= self.mantissa.len(),
                mantissa@ == self.mantissa@.take(i as int),
            decreases self.mantissa.len() - i,
        {
            mantissa.push(self.mantissa[i]);
            i += 1;
        }
        assert(mantissa@ == self.mantissa@);
        Decimal { mantissa, scale: self.scale }
    }
}

impl Decimal {
    /// The integer as a decimal.
    pub fn from_i64(n: i64) -> (r: Decimal)
        ensures
            r@ == whole(n as int),
    {
        big_from_i64(n)
    }

    pub fn plus(&self, other: &Decimal) -> (r: Decimal)
        requires
            self@.is_operand(),
            other@.is_operand(),
        ensures
            r@ == self@.plus(other@),
    {
        big_plus(self, other)
    }

    pub fn minus(&self, other: &Decimal) -> (r: Decimal)
        requires
            self@.is_operand(),
            other@.is_operand(),
        ensures
            r@ == self@.minus(other@),
    {
        big_minus(self, other)
    }

    /// The product.
    pub fn times(&self, other: &Decimal) -> (r: Decimal)
        requires
            self@.is_operand(),
            other@.is_operand(),
        ensures
            r@ == self@.product(other@),
            r@.same_value(self@.times(other@)),
    {
        proof {
            lemma_product_is_times(self@, other@);
        }
        big_times(self, other)
    }

    /// The rounded quotient.
    pub fn over(&self, other: &Decimal) -> (r: Decimal)
        requires
            self@.is_operand(),
            other@.is_operand(),
            other@.mantissa != 0,
        ensures
            r@ == self@.over(other@),
            sign_of(r@.mantissa) == sign_product(
                sign_of(self@.mantissa),
                sign_of(other@.mantissa),
            ),
            self@.mantissa == 0 ==> r@ == self@,
            self@ == other@ ==> r@.same_value(whole(1)) && 0 <= r@.scale <= max_int(0, self@.scale),
            r@.scale >= self@.scale - other@.scale || r@.scale == self@.scale,
            forall|digits: nat|
                abs_int(other@.mantissa) < #[trigger] pow(10, digits) ==> r@.scale <= max_int(
                    self@.scale,
                    self@.scale - other@.scale + digits + 100,
                ),
            other@ == whole(2) && abs_int(self@.mantissa) < pow(10, 99) ==> r@.times(
                whole(2),
            ).same_value(self@),
    {
        big_over(self, other)
    }

    pub fn compare(&self, other: &Decimal) -> (r: Comparison)
        requires
            self@.is_comparable(),
            other@.is_comparable(),
        ensures
            r == comparison(self@, other@),
    {
        big_compare(self, other)
    }

    pub fn sign(&self) -> (r: DecimalSign)
        ensures
            r == sign_of(self@.mantissa),
    {
        big_sign(self)
    }

    pub fn is_zero(&self) -> (r: bool)
        ensures
            r == (self@.mantissa == 0),
    {
        big_sign(self) == DecimalSign::Zero
    }

    pub fn abs(&self) -> (r: Decimal)
        ensures
            r@ == self@.magnitude(),
    {
        big_abs(self)
    }

    /// The decimal text of the number.
    pub fn text(&self) -> (r: String)
        requires
            self@.has_text(),
        ensures
            r@ == decimal_text(self@.mantissa, self@.scale),
            forall|i: int| 0 <= i < r@.len() ==> #[trigger] r@[i] != '(' && r@[i] != ')',
    {
        big_text(self)
    }

    /// The decimal text of the number, without an exponent.
    pub fn plain_text(&self) -> (r: String)
        requires
            self@.is_comparable(),
        ensures
            r@ == decimal_plain_text(self@.mantissa, self@.scale),
    {
        big_plain_text(self)
    }

    /// The number that a decimal text writes, or the text of the error. Every text of
    /// [`Decimal::text`] and of [`Decimal::plain_text`] is read back as a number of the same value;
    /// that of [`Decimal::text`] at a scale of no larger magnitude.
    pub fn parse(text: &str) -> (r: Result<Decimal, String>)
        ensures
            match r {
                Ok(d) => decimal_parse(text@) == Ok::<(int, int), Seq<char>>((d@.mantissa, d@.scale)),
                Err(e) => decimal_parse(text@) == Err::<(int, int), Seq<char>>(e@),
            },
            forall|mantissa: int, scale: int|
                text@ == #[trigger] decimal_text(mantissa, scale) && -TEXT_SCALE_LIMIT <= scale
                    <= TEXT_SCALE_LIMIT ==> r is Ok && r->Ok_0@.same_value(
                    (DecimalView { mantissa, scale }),
                ) && abs_int(r->Ok_0@.scale) <= abs_int(scale),
            forall|mantissa: int, scale: int|
                text@ == #[trigger] decimal_plain_text(mantissa, scale) && -COMPARED_SCALE_LIMIT
                    <= scale <= COMPARED_SCALE_LIMIT ==> r is Ok && r->Ok_0@.same_value(
                    (DecimalView { mantissa, scale }),
                ),
    {
        big_parse(text)
    }
}

proof fn lemma_aligned_further(d: DecimalView, near: int, far: int)
    requires
        d.scale <= near <= far,
    ensures
        d.aligned(far) == d.aligned(near) * pow(10, (far - near) as nat),
{
    let m = d.mantissa;
    let p = pow(10, (near - d.scale) as nat);
    let q = pow(10, (far - near) as nat);
    lemma_pow_adds(10, (near - d.scale) as nat, (far - near) as nat);
    assert((near - d.scale) as nat + (far - near) as nat == (far - d.scale) as nat);
    assert(m * (p * q) == (m * p) * q) by (nonlinear_arith);
}

/// Two decimals have the same value exactly if their mantissas agree at any common scale.
pub proof fn lemma_same_value_at(a: DecimalView, b: DecimalView, scale: int)
    requires
        a.scale <= scale,
        b.scale <= scale,
    ensures
        a.same_value(b) <==> a.aligned(scale) == b.aligned(scale),
        a.less_than(b) <==> a.aligned(scale) < b.aligned(scale),
{
    let near = max_int(a.scale, b.scale);
    let q = pow(10, (scale - near) as nat);
    lemma_aligned_further(a, near, scale);
    lemma_aligned_further(b, near, scale);
    lemma_pow_positive(10, (scale - near) as nat);
    let x = a.aligned(near);
    let y = b.aligned(near);
    assert(x == y <==> x * q == y * q) by (nonlinear_arith)
        requires
            q > 0,
    ;
    assert(x < y <==> x * q < y * q) by (nonlinear_arith)
        requires
            q > 0,
    ;
}

/// Having the same value is an equivalence.
pub proof fn lemma_same_value_transitive(a: DecimalView, b: DecimalView, c: DecimalView)
    requires
        a.same_value(b),
        b.same_value(c),
    ensures
        a.same_value(c),
        b.same_value(a),
{
    let scale = max_int(a.scale, max_int(b.scale, c.scale));
    lemma_same_value_at(a, b, scale);
    lemma_same_value_at(b, a, scale);
    lemma_same_value_at(b, c, scale);
    lemma_same_value_at(a, c, scale);
}

/// A decimal is zero exactly if its mantissa is, whatever its scale.
pub proof fn lemma_zero_value(a: DecimalView, b: DecimalView)
    requires
        a.same_value(b),
    ensures
        a.mantissa == 0 <==> b.mantissa == 0,
{
    let scale = max_int(a.scale, b.scale);
    let p = pow(10, (scale - a.scale) as nat);
    let q = pow(10, (scale - b.scale) as nat);
    let m = a.mantissa;
    let n = b.mantissa;
    lemma_pow_positive(10, (scale - a.scale) as nat);
    lemma_pow_positive(10, (scale - b.scale) as nat);
    assert(m == 0 <==> n == 0) by (nonlinear_arith)
        requires
            m * p == n * q,
            p > 0,
            q > 0,
    ;
}

pub proof fn lemma_plus_at(a: DecimalView, b: DecimalView, scale: int)
    requires
        a.scale <= scale,
        b.scale <= scale,
    ensures
        a.plus(b).aligned(scale) == a.aligned(scale) + b.aligned(scale),
        a.minus(b).aligned(scale) == a.aligned(scale) - b.aligned(scale),
        a.minus(b).scale <= scale,
{
    let near = max_int(a.scale, b.scale);
    let q = pow(10, (scale - near) as nat);
    lemma_aligned_further(a, near, scale);
    lemma_aligned_further(b, near, scale);
    let x = a.aligned(near);
    let y = b.aligned(near);
    assert((x + y) * q == x * q + y * q && (x - y) * q == x * q - y * q) by (nonlinear_arith);
    let p = pow(10, (scale - b.scale) as nat);
    let n = b.mantissa;
    assert((-n) * p == -(n * p)) by (nonlinear_arith);
    assert(0 * p == 0 && 0 * pow(10, (scale - a.scale) as nat) == 0);
}

pub proof fn lemma_times_at(a: DecimalView, b: DecimalView, a_scale: int, b_scale: int)
    requires
        a.scale <= a_scale,
        b.scale <= b_scale,
    ensures
        a.times(b).aligned(a_scale + b_scale) == a.aligned(a_scale) * b.aligned(b_scale),
{
    let s = (a_scale - a.scale) as nat;
    let t = (b_scale - b.scale) as nat;
    lemma_pow_adds(10, s, t);
    assert((a_scale + b_scale - (a.scale + b.scale)) as nat == s + t);
    let m = a.mantissa;
    let n = b.mantissa;
    let p = pow(10, s);
    let q = pow(10, t);
    assert((m * n) * (p * q) == (m * p) * (n * q)) by (nonlinear_arith);
}

/// The product as it is written has the value of the product.
pub proof fn lemma_product_is_times(a: DecimalView, b: DecimalView)
    ensures
        a.product(b).same_value(a.times(b)),
{
    let m = a.mantissa;
    let n = b.mantissa;
    let exact = a.times(b);
    if a.is_written_one() {
        let p = pow(10, a.scale as nat);
        assert(b.aligned(exact.scale) == n * p);
        assert(exact.aligned(exact.scale) == exact.mantissa) by {
            lemma_pow0(10);
        }
        assert(n * p == p * n) by (nonlinear_arith);
        lemma_same_value_at(b, exact, exact.scale);
    } else if b.is_written_one() {
        assert(a.aligned(exact.scale) == m * pow(10, b.scale as nat));
        assert(exact.aligned(exact.scale) == exact.mantissa) by {
            lemma_pow0(10);
        }
        lemma_same_value_at(a, exact, exact.scale);
    }
}

/// The sum of numbers.
pub open spec fn sum_of(s: Seq<DecimalView>) -> DecimalView
    decreases s.len(),
{
    if s.len() == 0 {
        whole(0)
    } else {
        sum_of(s.drop_last()).plus(s.last())
    }
}

/// The scale of a sum is at most that of its largest term.
pub proof fn lemma_sum_within(s: Seq<DecimalView>, limit: nat)
    requires
        forall|i: int| 0 <= i < s.len() ==> (#[trigger] s[i]).within(limit as int),
    ensures
        sum_of(s).within(limit as int),
    decreases s.len(),
{
    if s.len() > 0 {
        let rest = s.drop_last();
        assert forall|i: int| 0 <= i < rest.len() implies (#[trigger] rest[i]).within(
            limit as int,
        ) by {
            assert(rest[i] == s[i]);
        }
        lemma_sum_within(rest, limit);
        assert(s.last() == s[s.len() - 1]);
    }
}

/// How large a sum can be.
pub proof fn lemma_sum_bounds(s: Seq<DecimalView>, limit: nat, digits: nat)
    requires
        forall|i: int|
            0 <= i < s.len() ==> (#[trigger] s[i]).within(limit as int) && abs_int(s[i].mantissa)
                < pow(10, digits),
        s.len() <= u64::MAX,
    ensures
        sum_of(s).within(limit as int),
        abs_int(sum_of(s).mantissa) < pow(10, digits + 2 * limit + 20),
{
    let top = pow(10, digits) * pow(10, 2 * limit);
    lemma_sum_aligned(s, limit, digits);
    let total = sum_of(s);
    let m = total.mantissa;
    let p = pow(10, (limit - total.scale) as nat);
    lemma_pow_positive(10, (limit - total.scale) as nat);
    assert(abs_int(m) <= abs_int(m * p)) by (nonlinear_arith)
        requires
            p > 0,
    ;
    lemma_pow_positive(10, digits);
    lemma_pow_positive(10, 2 * limit);
    lemma_pow_adds(10, digits, 2 * limit);
    lemma_pow_adds(10, digits + 2 * limit, 20);
    lemma_ten_to_twenty();
    lemma_pow_positive(10, digits + 2 * limit);
    let n = s.len() as int;
    let q = pow(10, 20);
    assert(n * top < top * q) by (nonlinear_arith)
        requires
            0 <= n <= 18446744073709551615,
            q == 100_000_000_000_000_000_000,
            top > 0,
    ;
}

proof fn lemma_ten_to_twenty()
    ensures
        pow(10, 20) == 100_000_000_000_000_000_000,
{
    reveal_with_fuel(pow, 21);
}

proof fn lemma_sum_aligned(s: Seq<DecimalView>, limit: nat, digits: nat)
    requires
        forall|i: int|
            0 <= i < s.len() ==> (#[trigger] s[i]).within(limit as int) && abs_int(s[i].mantissa)
                < pow(10, digits),
    ensures
        sum_of(s).within(limit as int),
        abs_int(sum_of(s).aligned(limit as int)) <= s.len() * (pow(10, digits) * pow(10, 2 * limit)),
    decreases s.len(),
{
    let top = pow(10, digits) * pow(10, 2 * limit);
    if s.len() == 0 {
        let p = pow(10, (limit - 0) as nat);
        assert(0 * p == 0);
    } else {
        let rest = s.drop_last();
        assert forall|i: int| 0 <= i < rest.len() implies (#[trigger] rest[i]).within(limit as int)
            && abs_int(rest[i].mantissa) < pow(10, digits) by {
            assert(rest[i] == s[i]);
        }
        lemma_sum_aligned(rest, limit, digits);
        assert(s.last() == s[s.len() - 1]);
        lemma_aligned_bound(s.last(), limit as int, limit, digits);
        lemma_plus_at(sum_of(rest), s.last(), limit as int);
        let n = rest.len() as int;
        assert((n + 1) * top == n * top + top) by (nonlinear_arith);
    }
}

/// Sums and differences of equal numbers are equal, however they are written.
pub proof fn lemma_sum_value(a: DecimalView, b: DecimalView, x: DecimalView, y: DecimalView)
    requires
        a.same_value(x),
        b.same_value(y),
    ensures
        a.plus(b).same_value(x.plus(y)),
        a.minus(b).same_value(x.minus(y)),
{
    let scale = max_int(max_int(a.scale, b.scale), max_int(x.scale, y.scale));
    lemma_same_value_at(a, x, scale);
    lemma_same_value_at(b, y, scale);
    lemma_plus_at(a, b, scale);
    lemma_plus_at(x, y, scale);
    lemma_same_value_at(a.plus(b), x.plus(y), scale);
    lemma_same_value_at(a.minus(b), x.minus(y), scale);
}

/// Products of equal numbers are equal, however they are written.
pub proof fn lemma_product_value(a: DecimalView, b: DecimalView, x: DecimalView, y: DecimalView)
    requires
        a.same_value(x),
        b.same_value(y),
    ensures
        a.times(b).same_value(x.times(y)),
{
    let s = max_int(a.scale, x.scale);
    let t = max_int(b.scale, y.scale);
    lemma_times_at(a, b, s, t);
    lemma_times_at(x, y, s, t);
    lemma_same_value_at(a.times(b), x.times(y), s + t);
}

/// A number plus its negative is zero; so is a number plus its negative times one.
pub proof fn lemma_cancel(a: DecimalView, one: DecimalView)
    requires
        one.same_value(whole(1)),
    ensures
        a.plus(whole(0).minus(a).times(one)).mantissa == 0,
{
    let negative = whole(0).minus(a);
    let exact = negative.times(whole(1));
    lemma_product_value(negative, one, negative, whole(1));
    assert(exact == negative) by {
        assert(negative.mantissa * 1 == negative.mantissa);
    }
    lemma_sum_value(a, negative.times(one), a, negative);
    let scale = max_int(a.scale, 0);
    lemma_plus_at(whole(0), a, scale);
    lemma_plus_at(a, negative, scale);
    let p = pow(10, (scale - 0) as nat);
    assert(0 * p == 0);
    let sum = a.plus(negative);
    assert(sum.aligned(scale) == 0);
    let q = pow(10, (scale - sum.scale) as nat);
    let m = sum.mantissa;
    lemma_pow_positive(10, (scale - sum.scale) as nat);
    assert(m == 0) by (nonlinear_arith)
        requires
            m * q == 0,
            q > 0,
    ;
    lemma_zero_value(a.plus(negative.times(one)), sum);
}

/// Adding a multiple of zero leaves a number as it is.
pub proof fn lemma_plus_nothing(a: DecimalView, b: DecimalView, zero: DecimalView)
    requires
        zero.mantissa == 0,
    ensures
        a.plus(b.times(zero)).same_value(a),
{
    let none = b.times(zero);
    assert(none.mantissa == 0) by {
        assert(b.mantissa * 0 == 0);
    }
    let scale = max_int(a.scale, none.scale);
    lemma_plus_at(a, none, scale);
    let p = pow(10, (scale - none.scale) as nat);
    assert(0 * p == 0);
    lemma_same_value_at(a.plus(none), a, scale);
}

/// The difference of two numbers is zero exactly if they are equal.
pub proof fn lemma_difference_zero(a: DecimalView, b: DecimalView)
    ensures
        a.minus(b).mantissa == 0 <==> a.same_value(b),
{
    let scale = max_int(a.scale, b.scale);
    let p = pow(10, (scale - a.scale) as nat);
    let q = pow(10, (scale - b.scale) as nat);
    let m = a.mantissa;
    let n = b.mantissa;
    lemma_pow_positive(10, (scale - a.scale) as nat);
    lemma_pow_positive(10, (scale - b.scale) as nat);
    assert(0 * p == 0 && 0 * q == 0);
    assert(m == 0 <==> m * p == 0) by (nonlinear_arith)
        requires
            p > 0,
    ;
    assert(n == 0 <==> n * q == 0) by (nonlinear_arith)
        requires
            q > 0,
    ;
}

/// The sign of a difference tells which of two numbers is the larger one.
pub proof fn lemma_difference_sign(a: DecimalView, b: DecimalView)
    ensures
        sign_of(a.minus(b).mantissa) == DecimalSign::Plus <==> b.less_than(a),
        sign_of(a.minus(b).mantissa) == DecimalSign::Minus <==> a.less_than(b),
        sign_of(a.minus(b).mantissa) == DecimalSign::Zero <==> a.same_value(b),
{
    let scale = max_int(a.scale, b.scale);
    let difference = a.minus(b);
    lemma_plus_at(a, b, scale);
    lemma_same_value_at(a, b, scale);
    lemma_same_value_at(b, a, scale);
    let p = pow(10, (scale - difference.scale) as nat);
    let m = difference.mantissa;
    lemma_pow_positive(10, (scale - difference.scale) as nat);
    assert(m * p == a.aligned(scale) - b.aligned(scale));
    assert((m > 0 <==> m * p > 0) && (m < 0 <==> m * p < 0)) by (nonlinear_arith)
        requires
            p > 0,
    ;
}

/// Of two numbers one is smaller, or they have the same value, and the smaller of two others is
/// smaller than the larger.
pub proof fn lemma_order(a: DecimalView, b: DecimalView, c: DecimalView)
    ensures
        a.less_than(b) || b.less_than(a) || a.same_value(b),
        !(a.less_than(b) && b.less_than(a)),
        !(a.less_than(b) && a.same_value(b)),
        a.same_value(b) <==> b.same_value(a),
        a.same_value(a),
        a.less_than(b) && b.less_than(c) ==> a.less_than(c),
        a.less_than(b) && b.same_value(c) ==> a.less_than(c),
        a.same_value(b) && b.less_than(c) ==> a.less_than(c),
        a.same_value(b) && b.same_value(c) ==> a.same_value(c),
{
    let scale = max_int(a.scale, max_int(b.scale, c.scale));
    lemma_same_value_at(a, b, scale);
    lemma_same_value_at(b, a, scale);
    lemma_same_value_at(b, c, scale);
    lemma_same_value_at(a, c, scale);
    lemma_same_value_at(a, a, scale);
}

/// Multiplying by a positive number keeps the order.
pub proof fn lemma_times_keeps_order(a: DecimalView, b: DecimalView, c: DecimalView)
    requires
        c.mantissa > 0,
    ensures
        a.times(c).less_than(b.times(c)) <==> a.less_than(b),
        a.times(c).same_value(b.times(c)) <==> a.same_value(b),
{
    let scale = max_int(a.scale, b.scale);
    lemma_times_at(a, c, scale, c.scale);
    lemma_times_at(b, c, scale, c.scale);
    lemma_pow0(10);
    lemma_same_value_at(a.times(c), b.times(c), scale + c.scale);
    let x = a.aligned(scale);
    let y = b.aligned(scale);
    let z = c.aligned(c.scale);
    assert(z == c.mantissa);
    assert((x * z < y * z <==> x < y) && (x * z == y * z <==> x == y)) by (nonlinear_arith)
        requires
            z > 0,
    ;
}

/// How many digits a difference can have.
pub proof fn lemma_difference_digits(a: DecimalView, b: DecimalView, limit: nat, digits: nat)
    requires
        a.within(limit as int),
        b.within(limit as int),
        abs_int(a.mantissa) < pow(10, digits),
        abs_int(b.mantissa) < pow(10, digits),
    ensures
        abs_int(a.minus(b).mantissa) < pow(10, digits + 2 * limit + 1),
        a.minus(b).within(limit as int),
{
    let scale = max_int(a.scale, b.scale);
    let top = pow(10, digits);
    let span = pow(10, 2 * limit);
    lemma_pow_positive(10, digits);
    lemma_pow_positive(10, 2 * limit);
    lemma_pow_adds(10, digits, 2 * limit);
    lemma_pow_adds(10, digits + 2 * limit, 1);
    lemma_pow1(10);
    lemma_aligned_bound(a, scale, limit, digits);
    lemma_aligned_bound(b, scale, limit, digits);
    assert(top <= top * span) by (nonlinear_arith)
        requires
            top > 0,
            span > 0,
    ;
}

proof fn lemma_aligned_bound(d: DecimalView, scale: int, limit: nat, digits: nat)
    requires
        d.within(limit as int),
        d.scale <= scale <= limit,
        abs_int(d.mantissa) < pow(10, digits),
    ensures
        abs_int(d.aligned(scale)) < pow(10, digits) * pow(10, 2 * limit),
{
    let m = d.mantissa;
    let p = pow(10, (scale - d.scale) as nat);
    let span = pow(10, 2 * limit);
    let top = pow(10, digits);
    lemma_pow_positive(10, (scale - d.scale) as nat);
    lemma_pow_increases(10, (scale - d.scale) as nat, 2 * limit);
    assert(abs_int(m * p) == abs_int(m) * p) by {
        assert((-m) * p == -(m * p)) by (nonlinear_arith);
        assert(m >= 0 ==> m * p >= 0) by (nonlinear_arith)
            requires
                p > 0,
        ;
        assert(m < 0 ==> m * p < 0) by (nonlinear_arith)
            requires
                p > 0,
        ;
    }
    let n = abs_int(m);
    assert(n * p < top * span) by (nonlinear_arith)
        requires
            0 <= n < top,
            0 < p <= span,
    ;
}

}
