//! Fixed-precision decimal numbers, backed by `rust_decimal`.
//!
//! A [`Dec`] holds the two numbers that determine a `rust_decimal::Decimal`:
//! an integer mantissa `m` with `|m| < 2^96` and a scale `s <= 28`, standing for
//! the rational number `m / 10^s`.  All arithmetic, comparison, parsing and
//! formatting is done by `rust_decimal` itself, through the trusted wrappers of
//! this module; the rest of the library reasons about their results.
use vstd::prelude::*;
use rust_decimal::Decimal;
use std::str::FromStr;
use vstd::arithmetic::div_mod::{lemma_fundamental_div_mod, lemma_div_multiples_vanish, lemma_mod_multiples_basic};

verus! {

/// Exclusive bound on the magnitude of a mantissa: `2^96`.
pub open spec fn mantissa_limit() -> int {
    0x1_0000_0000_0000_0000_0000_0000
}

/// Largest scale a decimal can carry.
pub const MAX_SCALE: u32 = 28;

/// `10^n`.
pub open spec fn pow10(n: nat) -> int
    decreases n,
{
    if n == 0 {
        1
    } else {
        10 * pow10((n - 1) as nat)
    }
}

/// The character of a decimal digit `0..=9`.
pub open spec fn digit_char(d: int) -> char {
    if d == 0 { '0' }
    else if d == 1 { '1' }
    else if d == 2 { '2' }
    else if d == 3 { '3' }
    else if d == 4 { '4' }
    else if d == 5 { '5' }
    else if d == 6 { '6' }
    else if d == 7 { '7' }
    else if d == 8 { '8' }
    else { '9' }
}

/// Decimal digits of `n`, most significant first, without leading zeros
/// (the empty sequence for zero).
pub open spec fn digits(n: nat) -> Seq<char>
    decreases n,
{
    if n == 0 {
        Seq::empty()
    } else {
        digits(n / 10).push(digit_char((n % 10) as int))
    }
}

/// Decimal text of a natural number: its digits, or `"0"` for zero.
pub open spec fn nat_text(n: nat) -> Seq<char> {
    if n == 0 {
        seq!['0']
    } else {
        digits(n)
    }
}

/// The number a string of decimal digits denotes, most significant first.
pub open spec fn digits_value(s: Seq<char>) -> int
    decreases s.len(),
{
    if s.len() == 0 {
        0
    } else {
        digits_value(s.drop_last()) * 10 + (s.last() as int - '0' as int)
    }
}

/// The decimal text of a natural number is made of the digits `0` to `9` and
/// reads back as that number.
pub proof fn law_nat_text_reads_back(n: nat)
    ensures
        forall|i: int| 0 <= i < nat_text(n).len() ==> '0' <= #[trigger] nat_text(n)[i] <= '9',
        digits_value(nat_text(n)) == n,
        nat_text(n).len() > 0,
{
    lemma_digits_read_back(n);
    if n == 0 {
        let t = nat_text(n);
        assert(t =~= seq!['0']);
        assert(t.drop_last() =~= Seq::<char>::empty());
        assert(digits_value(t.drop_last()) == 0);
        assert(digits_value(t) == 0);
    }
}

proof fn lemma_digits_read_back(n: nat)
    ensures
        forall|i: int| 0 <= i < digits(n).len() ==> '0' <= #[trigger] digits(n)[i] <= '9',
        digits_value(digits(n)) == n,
    decreases n,
{
    if n > 0 {
        lemma_digits_read_back(n / 10);
        let d = (n % 10) as int;
        let s = digits(n);
        assert(s.drop_last() =~= digits(n / 10));
        assert(digit_char(d) as int - '0' as int == d);
    }
}

/// `k` copies of `'0'`.
pub open spec fn zeros(k: nat) -> Seq<char> {
    Seq::new(k, |i: int| '0')
}

/// How `rust_decimal` displays the value `m / 10^s` held with scale `s`: the
/// digits of `|m|`, left-padded with zeros to at least `s` digits, with a point
/// before the last `s` of them (and a `0` before a point that would lead), and a
/// leading `-` for a negative mantissa.  Trailing zeros of the fraction are kept.
pub open spec fn decimal_text_of(m: int, s: nat) -> Seq<char> {
    let mag: nat = if m < 0 { (-m) as nat } else { m as nat };
    let d = digits(mag);
    let padded = if d.len() < s { zeros((s - d.len()) as nat) + d } else { d };
    let whole_len = padded.len() - s;
    let body = if s == 0 {
        if d.len() == 0 { seq!['0'] } else { d }
    } else {
        (if whole_len == 0 { seq!['0'] } else { padded.subrange(0, whole_len) })
            + seq!['.'] + padded.subrange(whole_len, padded.len() as int)
    };
    if m < 0 { seq!['-'] + body } else { body }
}

/// A decimal number `m / 10^s`, as `rust_decimal::Decimal` represents it.
#[derive(Clone, Copy, Debug)]
pub struct Dec {
    mantissa: i128,
    scale: u32,
}

/// The result of a decimal operation did not fit: `rust_decimal` panics there
/// with its operators, and its checked operations return `None`.
#[derive(Clone, Copy, Debug, PartialEq, Eq, Structural)]
pub struct DecimalOverflow;

/// What `rust_decimal`'s checked addition returns for two decimals.
pub uninterp spec fn decimal_checked_add(a: Dec, b: Dec) -> Option<Dec>;

/// What `rust_decimal`'s checked subtraction returns for two decimals.
pub uninterp spec fn decimal_checked_sub(a: Dec, b: Dec) -> Option<Dec>;

/// What `rust_decimal`'s checked multiplication returns for two decimals.
pub uninterp spec fn decimal_checked_mul(a: Dec, b: Dec) -> Option<Dec>;

/// What `rust_decimal`'s checked division returns for two decimals.
pub uninterp spec fn decimal_checked_div(a: Dec, b: Dec) -> Option<Dec>;

/// What `rust_decimal` parses from a text (`None` where it refuses the text).
pub uninterp spec fn decimal_parsed(text: Seq<char>) -> Option<Dec>;

impl Dec {
    /// The invariant of every `Dec` value of exec code: `valid()`.
    #[verifier::type_invariant]
    pub closed spec fn inv(self) -> bool {
        &&& -mantissa_limit() < self.mantissa < mantissa_limit()
        &&& self.scale <= 28
    }

    /// The mantissa `m` of `m / 10^s`.
    pub closed spec fn spec_mantissa(self) -> int {
        self.mantissa as int
    }

    /// The scale `s` of `m / 10^s`.
    pub closed spec fn spec_scale(self) -> nat {
        self.scale as nat
    }

    /// The decimal zero, with scale 0.
    pub closed spec fn spec_zero() -> Dec {
        Dec { mantissa: 0, scale: 0 }
    }

    /// The whole number `n` (for `0 <= n < 2^64`), with scale 0.
    pub closed spec fn spec_whole(n: nat) -> Dec {
        Dec { mantissa: n as i128, scale: 0 }
    }

    /// A decimal that a `Dec` value of exec code can hold.
    pub open spec fn valid(self) -> bool {
        Self::representable(self.spec_mantissa(), self.spec_scale())
    }

    /// Whether a mantissa and a scale can form a decimal.
    pub open spec fn representable(m: int, s: nat) -> bool {
        -mantissa_limit() < m < mantissa_limit() && s <= 28
    }

    /// The value of `self` as the fraction `spec_mantissa() / 10^spec_scale()`:
    /// `self` has the value `m / 10^s`.
    pub open spec fn has_value(self, m: int, s: nat) -> bool {
        self.spec_mantissa() * pow10(s) == m * pow10(self.spec_scale())
    }

    /// The value of `self` in units of `10^-56` (an integer for every valid
    /// decimal, whose scale is at most 28).
    pub open spec fn units(self) -> int {
        self.spec_mantissa() * pow10((56 - self.spec_scale()) as nat)
    }

    /// `m / 10^s` is the exact quotient `a / b` (for a non-zero `b`).
    pub open spec fn is_quotient(a: Dec, b: Dec, m: int, s: nat) -> bool {
        a.spec_mantissa() * pow10(b.spec_scale()) * pow10(s) == m * b.spec_mantissa() * pow10(
            a.spec_scale(),
        )
    }

    /// A decimal can hold the exact quotient `a / b`.
    pub open spec fn quotient_representable(a: Dec, b: Dec) -> bool {
        b.spec_mantissa() != 0 && exists|m: int, s: nat|
            #![trigger Dec::is_quotient(a, b, m, s)]
            Dec::representable(m, s) && Dec::is_quotient(a, b, m, s)
    }

    /// `self <= other` as numbers.
    pub open spec fn le(self, other: Dec) -> bool {
        self.spec_mantissa() * pow10(other.spec_scale()) <= other.spec_mantissa() * pow10(
            self.spec_scale(),
        )
    }

    /// `self > 0`.
    pub open spec fn is_positive(self) -> bool {
        self.spec_mantissa() > 0
    }

    /// `self == 0`.
    pub open spec fn is_zero(self) -> bool {
        self.spec_mantissa() == 0
    }

    /// The common scale of an addition or subtraction: the larger of the two.
    pub open spec fn common_scale(a: Dec, b: Dec) -> nat {
        if a.spec_scale() >= b.spec_scale() {
            a.spec_scale()
        } else {
            b.spec_scale()
        }
    }

    /// Mantissa of `a + b` at the common scale (exact, unbounded).
    pub open spec fn exact_sum(a: Dec, b: Dec) -> int {
        let s = Self::common_scale(a, b);
        a.spec_mantissa() * pow10((s - a.spec_scale()) as nat) + b.spec_mantissa() * pow10(
            (s - b.spec_scale()) as nat,
        )
    }

    /// Mantissa of `a - b` at the common scale (exact, unbounded).
    pub open spec fn exact_difference(a: Dec, b: Dec) -> int {
        let s = Self::common_scale(a, b);
        a.spec_mantissa() * pow10((s - a.spec_scale()) as nat) - b.spec_mantissa() * pow10(
            (s - b.spec_scale()) as nat,
        )
    }

    /// How `rust_decimal` displays `self`.
    pub open spec fn text(self) -> Seq<char> {
        decimal_text_of(self.spec_mantissa(), self.spec_scale())
    }

    /// The decimal `m / 10^s`, or `None` where `|m| >= 2^96` or `s > 28`.
    pub fn new(mantissa: i128, scale: u32) -> (r: Option<Dec>)
        ensures
            r is Some <==> Self::representable(mantissa as int, scale as nat),
            r matches Some(d) ==> d.spec_mantissa() == mantissa && d.spec_scale() == scale,
    {
        if -0x1_0000_0000_0000_0000_0000_0000i128 < mantissa
            && mantissa < 0x1_0000_0000_0000_0000_0000_0000i128 && scale <= MAX_SCALE {
            Some(Dec { mantissa, scale })
        } else {
            None
        }
    }

    /// Zero, with scale 0.
    pub fn zero() -> (r: Dec)
        ensures
            r == Dec::spec_zero(),
            r.spec_mantissa() == 0,
            r.spec_scale() == 0,
    {
        Dec { mantissa: 0, scale: 0 }
    }

    /// The whole number `n`, with scale 0.
    pub fn from_u64(n: u64) -> (r: Dec)
        ensures
            r == Dec::spec_whole(n as nat),
            r.spec_mantissa() == n,
            r.spec_scale() == 0,
    {
        Dec { mantissa: n as i128, scale: 0 }
    }

    /// The mantissa `m` of `m / 10^s`.
    pub fn mantissa(&self) -> (r: i128)
        ensures
            r == self.spec_mantissa(),
    {
        self.mantissa
    }

    /// The scale `s` of `m / 10^s`.
    pub fn scale(&self) -> (r: u32)
        ensures
            r == self.spec_scale(),
    {
        self.scale
    }

    /// Whether `self == 0`.
    pub fn is_zero_value(&self) -> (r: bool)
        ensures
            r == self.is_zero(),
    {
        self.mantissa == 0
    }
}

/// `rust_decimal`'s `Decimal::checked_add` on the two decimals.  The contract
/// claims: the result is a function of the two arguments; it is `Some` and
/// exact when the exact sum fits in 96 bits at the larger of the two scales,
/// and then its scale is at most that larger scale (it is that scale, or the
/// other operand's where one operand is zero); a result's sign is that of the
/// exact sum (the magnitude may be rounded).
#[verifier::external_body]
pub(crate) fn checked_add(a: Dec, b: Dec) -> (r: Option<Dec>)
    ensures
        r == decimal_checked_add(a, b),
        -mantissa_limit() < Dec::exact_sum(a, b) < mantissa_limit() ==> r is Some && r->0.has_value(
            Dec::exact_sum(a, b),
            Dec::common_scale(a, b),
        ) && r->0.spec_scale() <= Dec::common_scale(a, b),
        r matches Some(x) ==> (Dec::exact_sum(a, b) >= 0 ==> x.spec_mantissa() >= 0) && (
        Dec::exact_sum(a, b) <= 0 ==> x.spec_mantissa() <= 0),
{
    let x = Decimal::from_i128_with_scale(a.mantissa, a.scale);
    let y = Decimal::from_i128_with_scale(b.mantissa, b.scale);
    x.checked_add(y).map(|z| Dec { mantissa: z.mantissa(), scale: z.scale() })
}

/// `rust_decimal`'s `Decimal::checked_sub` on the two decimals.  The contract
/// claims: the result is a function of the two arguments; it is `Some` and
/// exact when the exact difference fits in 96 bits at the larger of the two
/// scales, and then its scale is at most that larger scale; a result's sign
/// is that of the exact difference.
#[verifier::external_body]
pub(crate) fn checked_sub(a: Dec, b: Dec) -> (r: Option<Dec>)
    ensures
        r == decimal_checked_sub(a, b),
        -mantissa_limit() < Dec::exact_difference(a, b) < mantissa_limit() ==> r is Some
            && r->0.has_value(Dec::exact_difference(a, b), Dec::common_scale(a, b))
            && r->0.spec_scale() <= Dec::common_scale(a, b),
        r matches Some(x) ==> (Dec::exact_difference(a, b) >= 0 ==> x.spec_mantissa() >= 0) && (
        Dec::exact_difference(a, b) <= 0 ==> x.spec_mantissa() <= 0),
{
    let x = Decimal::from_i128_with_scale(a.mantissa, a.scale);
    let y = Decimal::from_i128_with_scale(b.mantissa, b.scale);
    x.checked_sub(y).map(|z| Dec { mantissa: z.mantissa(), scale: z.scale() })
}

/// `rust_decimal`'s `Decimal::checked_mul` on the two decimals.  The contract
/// claims: the result is a function of the two arguments; it is `Some` and
/// exact when the product of the mantissas fits in 96 bits and the sum of the
/// scales is at most 28, and then its scale is at most that sum (it is the
/// sum, or 0 for a zero product); a result's sign is that of the exact
/// product.
#[verifier::external_body]
pub(crate) fn checked_mul(a: Dec, b: Dec) -> (r: Option<Dec>)
    ensures
        r == decimal_checked_mul(a, b),
        Dec::representable(a.spec_mantissa() * b.spec_mantissa(), a.spec_scale() + b.spec_scale())
            ==> r is Some && r->0.has_value(
            a.spec_mantissa() * b.spec_mantissa(),
            a.spec_scale() + b.spec_scale(),
        ) && r->0.spec_scale() <= a.spec_scale() + b.spec_scale(),
        r matches Some(x) ==> (a.spec_mantissa() * b.spec_mantissa() >= 0 ==> x.spec_mantissa()
            >= 0) && (a.spec_mantissa() * b.spec_mantissa() <= 0 ==> x.spec_mantissa() <= 0),
{
    let x = Decimal::from_i128_with_scale(a.mantissa, a.scale);
    let y = Decimal::from_i128_with_scale(b.mantissa, b.scale);
    x.checked_mul(y).map(|z| Dec { mantissa: z.mantissa(), scale: z.scale() })
}

/// `rust_decimal`'s `Decimal::checked_div` on the two decimals.  The contract
/// claims: the result is a function of the two arguments; division by zero
/// gives `None`; a quotient that a decimal can hold exactly (some `m / 10^s`
/// with `|m| < 2^96` and `s <= 28`) is returned exactly, with a scale of at
/// most `s + 1` or at most `a.scale - b.scale` (the division keeps the scale
/// `a.scale - b.scale` where that is exact and not negative; otherwise it
/// scales the quotient up by powers of ten and strips trailing zeros again,
/// which can leave one, as in `1 / 2 = 0.50`); a result's sign is that of the
/// exact quotient.  How other quotients are rounded is not stated.
#[verifier::external_body]
pub(crate) fn checked_div(a: Dec, b: Dec) -> (r: Option<Dec>)
    ensures
        r == decimal_checked_div(a, b),
        b.spec_mantissa() == 0 ==> r is None,
        forall|m: int, s: nat|
            #![trigger Dec::is_quotient(a, b, m, s)]
            b.spec_mantissa() != 0 && Dec::representable(m, s) && Dec::is_quotient(a, b, m, s)
                ==> r is Some && r->0.has_value(m, s) && (r->0.spec_scale() <= s + 1
                || r->0.spec_scale() + b.spec_scale() <= a.spec_scale()),
        a.spec_mantissa() == 0 && b.spec_mantissa() != 0 ==> r is Some && r->0.spec_mantissa()
            == 0,
        r matches Some(x) ==> (a.spec_mantissa() * b.spec_mantissa() >= 0 ==> x.spec_mantissa()
            >= 0) && (a.spec_mantissa() * b.spec_mantissa() <= 0 ==> x.spec_mantissa() <= 0),
{
    let x = Decimal::from_i128_with_scale(a.mantissa, a.scale);
    let y = Decimal::from_i128_with_scale(b.mantissa, b.scale);
    x.checked_div(y).map(|z| Dec { mantissa: z.mantissa(), scale: z.scale() })
}

/// `rust_decimal`'s `<=` on two decimals, which compares their values.
#[verifier::external_body]
pub(crate) fn is_le(a: Dec, b: Dec) -> (r: bool)
    ensures
        r == a.le(b),
{
    Decimal::from_i128_with_scale(a.mantissa, a.scale) <= Decimal::from_i128_with_scale(
        b.mantissa,
        b.scale,
    )
}

/// `rust_decimal`'s `Display` of a decimal (`to_string`): the text that
/// `decimal_text_of` describes.
#[verifier::external_body]
pub(crate) fn to_text(d: Dec) -> (r: String)
    ensures
        r@ == d.text(),
{
    Decimal::from_i128_with_scale(d.mantissa, d.scale).to_string()
}

#[verifier::external_type_specification]
#[verifier::external_body]
pub struct ExDecimalError(rust_decimal::Error);

/// `rust_decimal`'s `Decimal::from_str`: the result is `Ok` exactly where the
/// named result `decimal_parsed` is `Some`, and then equals it.  Which texts
/// are accepted and how long fractions are rounded is not stated.
#[verifier::external_body]
pub(crate) fn parse(text: &str) -> (r: Result<Dec, rust_decimal::Error>)
    ensures
        r is Ok <==> decimal_parsed(text@) is Some,
        r matches Ok(d) ==> decimal_parsed(text@) == Some(d),
{
    Decimal::from_str(text).map(|z| Dec { mantissa: z.mantissa(), scale: z.scale() })
}

/// `Dec::spec_zero()` is the mantissa 0 at scale 0.
pub broadcast proof fn lemma_spec_zero()
    ensures
        #[trigger] Dec::spec_zero().spec_mantissa() == 0,
        Dec::spec_zero().spec_scale() == 0,
        Dec::spec_zero().valid(),
{
}

/// `Dec::spec_whole(n)` is the mantissa `n` at scale 0, for `n < 2^96`.
pub broadcast proof fn lemma_spec_whole(n: nat)
    requires
        n < mantissa_limit(),
    ensures
        #[trigger] Dec::spec_whole(n).spec_mantissa() == n,
        Dec::spec_whole(n).spec_scale() == 0,
        Dec::spec_whole(n).valid(),
{
}

/// The values of the decimal constants.
pub broadcast group group_dec_constants {
    lemma_spec_zero,
    lemma_spec_whole,
}

/// `10^n` is positive.
pub proof fn lemma_pow10_positive(n: nat)
    ensures
        pow10(n) > 0,
    decreases n,
{
    if n > 0 {
        lemma_pow10_positive((n - 1) as nat);
    }
}

/// `10^(a+b) = 10^a * 10^b`.
pub proof fn lemma_pow10_add(a: nat, b: nat)
    ensures
        pow10(a + b) == pow10(a) * pow10(b),
    decreases a,
{
    if a > 0 {
        lemma_pow10_add((a - 1) as nat, b);
        assert(pow10(a + b) == 10 * pow10((a - 1 + b) as nat));
        let x = pow10((a - 1) as nat);
        let y = pow10(b);
        assert(pow10(a) * y == 10 * (x * y)) by (nonlinear_arith)
            requires
                pow10(a) == 10 * x,
        ;
        assert(((a - 1 + b) as nat) == ((a - 1) as nat + b));
    }
}

/// Multiplying an inequality by a positive factor keeps it, both ways.
proof fn lemma_scale_le(x: int, y: int, k: int)
    requires
        k > 0,
    ensures
        (x <= y) == (x * k <= y * k),
{
    if x <= y {
        assert(x * k <= y * k) by (nonlinear_arith)
            requires
                x <= y,
                k > 0,
        ;
    } else {
        assert(x * k > y * k) by (nonlinear_arith)
            requires
                x > y,
                k > 0,
        ;
    }
}

/// A valid decimal that has the value `m / 10^s` (with `s <= 56`) has
/// `m * 10^(56 - s)` units.
pub proof fn lemma_units_of_value(x: Dec, m: int, s: nat)
    requires
        x.valid(),
        s <= 56,
        x.has_value(m, s),
    ensures
        x.units() == m * pow10((56 - s) as nat),
{
    let xs = x.spec_scale();
    let xm = x.spec_mantissa();
    lemma_pow10_add((56 - xs) as nat, xs);
    lemma_pow10_add((56 - s) as nat, s);
    lemma_pow10_positive(s);
    let p = pow10(s);
    let big = pow10(56);
    // units(x) * 10^s == xm * 10^(56-xs) * 10^s == xm * 10^s * 10^(56-xs)
    //                 == m * 10^xs * 10^(56-xs) == m * 10^56
    assert(x.units() * p == m * big) by (nonlinear_arith)
        requires
            x.units() == xm * pow10((56 - xs) as nat),
            xm * p == m * pow10(xs),
            big == pow10((56 - xs) as nat) * pow10(xs),
    ;
    assert(m * pow10((56 - s) as nat) * p == m * big) by (nonlinear_arith)
        requires
            big == pow10((56 - s) as nat) * p,
    ;
    lemma_scale_le(x.units(), m * pow10((56 - s) as nat), p);
    lemma_scale_le(m * pow10((56 - s) as nat), x.units(), p);
}

/// For valid decimals, `a <= b` compares their units.
pub proof fn lemma_le_units(a: Dec, b: Dec)
    requires
        a.valid(),
        b.valid(),
    ensures
        a.le(b) == (a.units() <= b.units()),
{
    let k = (56 - a.spec_scale() - b.spec_scale()) as nat;
    lemma_pow10_positive(k);
    lemma_pow10_add(b.spec_scale(), k);
    lemma_pow10_add(a.spec_scale(), k);
    assert(a.spec_mantissa() * pow10(b.spec_scale()) * pow10(k) == a.units()) by (nonlinear_arith)
        requires
            a.units() == a.spec_mantissa() * pow10((56 - a.spec_scale()) as nat),
            pow10((56 - a.spec_scale()) as nat) == pow10(b.spec_scale()) * pow10(k),
    ;
    assert(b.spec_mantissa() * pow10(a.spec_scale()) * pow10(k) == b.units()) by (nonlinear_arith)
        requires
            b.units() == b.spec_mantissa() * pow10((56 - b.spec_scale()) as nat),
            pow10((56 - b.spec_scale()) as nat) == pow10(a.spec_scale()) * pow10(k),
    ;
    lemma_scale_le(
        a.spec_mantissa() * pow10(b.spec_scale()),
        b.spec_mantissa() * pow10(a.spec_scale()),
        pow10(k),
    );
}

/// For valid decimals, the exact sum and difference at the common scale `s`,
/// scaled by `10^(56 - s)`, are the sum and difference of the units.
pub proof fn lemma_exact_units(a: Dec, b: Dec)
    requires
        a.valid(),
        b.valid(),
    ensures
        Dec::exact_sum(a, b) * pow10((56 - Dec::common_scale(a, b)) as nat) == a.units()
            + b.units(),
        Dec::exact_difference(a, b) * pow10((56 - Dec::common_scale(a, b)) as nat) == a.units()
            - b.units(),
{
    let s = Dec::common_scale(a, b);
    let k = pow10((56 - s) as nat);
    let pa = pow10((s - a.spec_scale()) as nat);
    let pb = pow10((s - b.spec_scale()) as nat);
    lemma_pow10_add((s - a.spec_scale()) as nat, (56 - s) as nat);
    lemma_pow10_add((s - b.spec_scale()) as nat, (56 - s) as nat);
    assert(((s - a.spec_scale()) as nat + (56 - s) as nat) == (56 - a.spec_scale()) as nat);
    assert(((s - b.spec_scale()) as nat + (56 - s) as nat) == (56 - b.spec_scale()) as nat);
    assert((a.spec_mantissa() * pa + b.spec_mantissa() * pb) * k == a.spec_mantissa() * (pa * k)
        + b.spec_mantissa() * (pb * k)) by (nonlinear_arith);
    assert((a.spec_mantissa() * pa - b.spec_mantissa() * pb) * k == a.spec_mantissa() * (pa * k)
        - b.spec_mantissa() * (pb * k)) by (nonlinear_arith);
}

/// `<=` on decimals is transitive.
pub proof fn lemma_le_transitive(a: Dec, b: Dec, c: Dec)
    requires
        a.valid(),
        b.valid(),
        c.valid(),
        a.le(b),
        b.le(c),
    ensures
        a.le(c),
{
    lemma_le_units(a, b);
    lemma_le_units(b, c);
    lemma_le_units(a, c);
}

/// What the type invariant of `Dec` says: the value is valid.
pub proof fn lemma_valid(d: Dec)
    requires
        d.inv(),
    ensures
        d.valid(),
{
}

/// The sign of a valid decimal's units is the sign of its mantissa.
pub proof fn lemma_units_sign(x: Dec)
    requires
        x.valid(),
    ensures
        (x.spec_mantissa() >= 0) == (x.units() >= 0),
        (x.spec_mantissa() <= 0) == (x.units() <= 0),
        (x.spec_mantissa() > 0) == (x.units() > 0),
{
    let p = pow10((56 - x.spec_scale()) as nat);
    lemma_pow10_positive((56 - x.spec_scale()) as nat);
    lemma_scale_le(x.spec_mantissa(), 0, p);
    lemma_scale_le(0, x.spec_mantissa(), p);
    assert(0 * p == 0);
}

/// A valid decimal `q` holding the exact quotient `a / b` satisfies
/// `q * b == a` (in units of `10^-56`, scaled by `10^b.scale`).
pub proof fn lemma_quotient_units(a: Dec, b: Dec, q: Dec, m: int, s: nat)
    requires
        a.valid(),
        b.valid(),
        q.valid(),
        Dec::representable(m, s),
        Dec::is_quotient(a, b, m, s),
        q.has_value(m, s),
    ensures
        q.units() * b.spec_mantissa() == a.units() * pow10(b.spec_scale()),
{
    lemma_units_of_value(q, m, s);
    let am = a.spec_mantissa();
    let bm = b.spec_mantissa();
    let as_ = a.spec_scale();
    let bs = b.spec_scale();
    let k = (56 - s - as_) as nat;
    lemma_pow10_add(s, k);
    lemma_pow10_add(as_, k);
    assert((s + k) as nat == (56 - as_) as nat);
    assert((as_ + k) as nat == (56 - s) as nat);
    let ps = pow10(s);
    let pas = pow10(as_);
    let pk = pow10(k);
    let pbs = pow10(bs);
    assert(m * (pas * pk) * bm == (m * bm * pas) * pk) by (nonlinear_arith);
    assert((am * pbs * ps) * pk == am * (ps * pk) * pbs) by (nonlinear_arith);
    assert(q.units() * bm == am * pow10((56 - as_) as nat) * pbs);
}

/// `x` has the value `u` (in units of `10^-56`) and a scale of at most `s`:
/// what exact decimal arithmetic tells of a result.
pub open spec fn within(x: Dec, u: int, s: nat) -> bool {
    x.units() == u && x.spec_scale() <= s
}

/// The value `u` (in units of `10^-56`) can be held exactly at scale `s`.
pub open spec fn fits_at(u: int, s: nat) -> bool {
    &&& s <= 28
    &&& u % pow10((56 - s) as nat) == 0
    &&& Dec::representable(u / pow10((56 - s) as nat), s)
}

/// The larger of two scales.
pub open spec fn max_scale(a: nat, b: nat) -> nat {
    if a >= b { a } else { b }
}

/// The units of a product, from the units of its factors.
pub open spec fn product_units(ua: int, ub: int) -> int {
    ua * ub / pow10(56)
}

/// The units of a quotient, from the units of dividend and divisor.
pub open spec fn quotient_units(ua: int, ub: int) -> int {
    ua * pow10(56) / ub
}

/// Whether the quotient of two values in units is itself a whole number of
/// units.
pub open spec fn divides_units(ua: int, ub: int) -> bool {
    ub != 0 && (ua * pow10(56)) % ub == 0
}

/// The smallest scale from `t` up to 28 at which the value `u` (in units) is
/// a whole number of `10^-scale` (28 where there is none).
pub open spec fn least_scale_from(u: int, t: nat) -> nat
    decreases 28 - t,
{
    if t >= 28 || u % pow10((56 - t) as nat) == 0 {
        t
    } else {
        least_scale_from(u, t + 1)
    }
}

/// The smallest scale at which the value `u` (in units) is exact.
pub open spec fn least_scale(u: int) -> nat {
    least_scale_from(u, 0)
}

/// A valid decimal within `(u, s)`, `s <= 28`, is `u` as a whole mantissa at
/// scale `s`.
proof fn lemma_within_mantissa(x: Dec, u: int, s: nat)
    requires
        x.valid(),
        within(x, u, s),
        s <= 28,
    ensures
        u == x.spec_mantissa() * pow10((s - x.spec_scale()) as nat) * pow10((56 - s) as nat),
        u % pow10((56 - s) as nat) == 0,
        u / pow10((56 - s) as nat) == x.spec_mantissa() * pow10((s - x.spec_scale()) as nat),
{
    let k = (s - x.spec_scale()) as nat;
    let j = (56 - s) as nat;
    lemma_pow10_add(k, j);
    assert((k + j) as nat == (56 - x.spec_scale()) as nat);
    lemma_pow10_positive(j);
    let m = x.spec_mantissa();
    assert(u == m * pow10(k) * pow10(j)) by (nonlinear_arith)
        requires
            u == m * pow10((56 - x.spec_scale()) as nat),
            pow10((56 - x.spec_scale()) as nat) == pow10(k) * pow10(j),
    ;
    lemma_mod_multiples_basic(m * pow10(k), pow10(j));
    lemma_div_multiples_vanish(m * pow10(k), pow10(j));
    assert(pow10(j) * (m * pow10(k)) == m * pow10(k) * pow10(j)) by (nonlinear_arith);
}

/// `|x| <= |x * 10^k|`.
proof fn lemma_abs_scaled(x: int, k: nat)
    ensures
        -mantissa_limit() < x * pow10(k) < mantissa_limit() ==> -mantissa_limit() < x
            < mantissa_limit(),
{
    lemma_pow10_positive(k);
    let p = pow10(k);
    assert(x >= 0 ==> x <= x * p) by (nonlinear_arith)
        requires
            p >= 1,
    ;
    assert(x < 0 ==> x * p <= x) by (nonlinear_arith)
        requires
            p >= 1,
    ;
}

/// The units of a value that fits at scale `s` are its mantissa there times
/// `10^(56 - s)`.
proof fn lemma_fits_parts(u: int, s: nat)
    requires
        fits_at(u, s),
    ensures
        u == (u / pow10((56 - s) as nat)) * pow10((56 - s) as nat),
{
    lemma_pow10_positive((56 - s) as nat);
    lemma_fundamental_div_mod(u, pow10((56 - s) as nat));
}

/// Exact addition: two decimals within `(ua, sa)` and `(ub, sb)` whose sum
/// fits at the larger bound give a sum within `(ua + ub, max(sa, sb))`.
pub proof fn lemma_add_within(a: Dec, b: Dec, r: Option<Dec>, ua: int, sa: nat, ub: int, sb: nat)
    requires
        a.valid(),
        b.valid(),
        within(a, ua, sa),
        within(b, ub, sb),
        fits_at(ua + ub, max_scale(sa, sb)),
        -mantissa_limit() < Dec::exact_sum(a, b) < mantissa_limit() ==> r is Some
            && r->0.has_value(Dec::exact_sum(a, b), Dec::common_scale(a, b))
            && r->0.spec_scale() <= Dec::common_scale(a, b),
        r matches Some(x) ==> x.valid(),
    ensures
        r matches Some(x) && within(x, ua + ub, max_scale(sa, sb)),
{
    let big = max_scale(sa, sb);
    let c = Dec::common_scale(a, b);
    lemma_exact_units(a, b);
    lemma_fits_parts(ua + ub, big);
    let k = (big - c) as nat;
    let j = (56 - big) as nat;
    lemma_pow10_add(k, j);
    assert((k + j) as nat == (56 - c) as nat);
    lemma_pow10_positive(j);
    let e = Dec::exact_sum(a, b);
    let q = (ua + ub) / pow10(j);
    assert(e * pow10(k) == q) by (nonlinear_arith)
        requires
            e * pow10((56 - c) as nat) == ua + ub,
            ua + ub == q * pow10(j),
            pow10((56 - c) as nat) == pow10(k) * pow10(j),
            pow10(j) > 0,
    ;
    lemma_abs_scaled(e, k);
    lemma_units_of_value(r->0, e, c);
}

/// Exact subtraction: as `lemma_add_within`, for `ua - ub`.
pub proof fn lemma_sub_within(a: Dec, b: Dec, r: Option<Dec>, ua: int, sa: nat, ub: int, sb: nat)
    requires
        a.valid(),
        b.valid(),
        within(a, ua, sa),
        within(b, ub, sb),
        fits_at(ua - ub, max_scale(sa, sb)),
        -mantissa_limit() < Dec::exact_difference(a, b) < mantissa_limit() ==> r is Some
            && r->0.has_value(Dec::exact_difference(a, b), Dec::common_scale(a, b))
            && r->0.spec_scale() <= Dec::common_scale(a, b),
        r matches Some(x) ==> x.valid(),
    ensures
        r matches Some(x) && within(x, ua - ub, max_scale(sa, sb)),
{
    let big = max_scale(sa, sb);
    let c = Dec::common_scale(a, b);
    lemma_exact_units(a, b);
    lemma_fits_parts(ua - ub, big);
    let k = (big - c) as nat;
    let j = (56 - big) as nat;
    lemma_pow10_add(k, j);
    assert((k + j) as nat == (56 - c) as nat);
    lemma_pow10_positive(j);
    let e = Dec::exact_difference(a, b);
    let q = (ua - ub) / pow10(j);
    assert(e * pow10(k) == q) by (nonlinear_arith)
        requires
            e * pow10((56 - c) as nat) == ua - ub,
            ua - ub == q * pow10(j),
            pow10((56 - c) as nat) == pow10(k) * pow10(j),
            pow10(j) > 0,
    ;
    lemma_abs_scaled(e, k);
    lemma_units_of_value(r->0, e, c);
}

/// Exact multiplication: two decimals within `(ua, sa)` and `(ub, sb)` whose
/// product fits at scale `sa + sb` give a product within that bound.
pub proof fn lemma_mul_within(a: Dec, b: Dec, r: Option<Dec>, ua: int, sa: nat, ub: int, sb: nat)
    requires
        a.valid(),
        b.valid(),
        within(a, ua, sa),
        within(b, ub, sb),
        fits_at(product_units(ua, ub), sa + sb),
        Dec::representable(a.spec_mantissa() * b.spec_mantissa(), a.spec_scale() + b.spec_scale())
            ==> r is Some && r->0.has_value(
            a.spec_mantissa() * b.spec_mantissa(),
            a.spec_scale() + b.spec_scale(),
        ) && r->0.spec_scale() <= a.spec_scale() + b.spec_scale(),
        r matches Some(x) ==> x.valid(),
    ensures
        r matches Some(x) && within(x, product_units(ua, ub), sa + sb),
{
    lemma_within_mantissa(a, ua, sa);
    lemma_within_mantissa(b, ub, sb);
    let ka = (sa - a.spec_scale()) as nat;
    let kb = (sb - b.spec_scale()) as nat;
    let am = a.spec_mantissa();
    let bm = b.spec_mantissa();
    let x = am * pow10(ka);
    let y = bm * pow10(kb);
    let j = (56 - sa - sb) as nat;
    let pa = pow10((56 - sa) as nat);
    let pb = pow10((56 - sb) as nat);
    lemma_pow10_add((56 - sa) as nat, (56 - sb) as nat);
    lemma_pow10_add(j, 56);
    assert(((56 - sa) as nat + (56 - sb) as nat) == j + 56);
    lemma_pow10_positive(56);
    lemma_pow10_positive(j);
    let p = x * y * pow10(j);
    assert(ua * ub == pow10(56) * p) by (nonlinear_arith)
        requires
            ua == x * pa,
            ub == y * pb,
            pa * pb == pow10(j) * pow10(56),
            p == x * y * pow10(j),
    ;
    lemma_div_multiples_vanish(p, pow10(56));
    assert(product_units(ua, ub) == p);
    lemma_div_multiples_vanish(x * y, pow10(j));
    assert(pow10(j) * (x * y) == p) by (nonlinear_arith)
        requires
            p == x * y * pow10(j),
    ;
    assert(p / pow10(j) == x * y);
    let k = ka + kb;
    lemma_pow10_add(ka, kb);
    assert(am * bm * pow10(k) == x * y) by (nonlinear_arith)
        requires
            x == am * pow10(ka),
            y == bm * pow10(kb),
            pow10(k) == pow10(ka) * pow10(kb),
    ;
    lemma_abs_scaled(am * bm, k);
    let s2 = a.spec_scale() + b.spec_scale();
    lemma_units_of_value(r->0, am * bm, s2);
    lemma_pow10_add(k, j);
    assert((k + j) as nat == (56 - s2) as nat);
    assert(am * bm * pow10((56 - s2) as nat) == p) by (nonlinear_arith)
        requires
            pow10((56 - s2) as nat) == pow10(k) * pow10(j),
            am * bm * pow10(k) == x * y,
            p == x * y * pow10(j),
    ;
}

/// Exact division: a dividend within `(ua, sa)` divided by a divisor within
/// `(ub, sb)`, where the quotient is a whole number of units that fits at
/// scale `t`, gives a quotient within `(quotient_units(ua, ub), max(sa, t + 1))`.
pub proof fn lemma_div_within(
    a: Dec,
    b: Dec,
    r: Option<Dec>,
    ua: int,
    sa: nat,
    ub: int,
    sb: nat,
    t: nat,
)
    requires
        a.valid(),
        b.valid(),
        within(a, ua, sa),
        within(b, ub, sb),
        divides_units(ua, ub),
        fits_at(quotient_units(ua, ub), t),
        forall|m: int, s: nat|
            #![trigger Dec::is_quotient(a, b, m, s)]
            b.spec_mantissa() != 0 && Dec::representable(m, s) && Dec::is_quotient(a, b, m, s)
                ==> r is Some && r->0.has_value(m, s) && (r->0.spec_scale() <= s + 1
                || r->0.spec_scale() + b.spec_scale() <= a.spec_scale()),
        r matches Some(x) ==> x.valid(),
    ensures
        r matches Some(x) && within(x, quotient_units(ua, ub), max_scale(sa, t + 1)),
{
    let uq = quotient_units(ua, ub);
    lemma_fundamental_div_mod(ua * pow10(56), ub);
    assert(ua * pow10(56) == ub * uq);
    lemma_fits_parts(uq, t);
    let m = uq / pow10((56 - t) as nat);
    let am = a.spec_mantissa();
    let bm = b.spec_mantissa();
    let as_ = a.spec_scale();
    let bs = b.spec_scale();
    lemma_units_sign(b);
    assert(bm != 0);
    let e = (112 - as_ - bs - t) as nat;
    lemma_pow10_add(bs, t);
    lemma_pow10_add(bs + t, e);
    lemma_pow10_add((56 - as_) as nat, 56);
    assert(bs + t + e == (56 - as_) as nat + 56);
    lemma_pow10_add(as_, e);
    lemma_pow10_add((56 - bs) as nat, (56 - t) as nat);
    assert(as_ + e == (56 - bs) as nat + (56 - t) as nat);
    lemma_pow10_positive(e);
    let pe = pow10(e);
    let lhs = am * pow10(bs) * pow10(t);
    let rhs = m * bm * pow10(as_);
    assert(lhs * pe == ua * pow10(56)) by (nonlinear_arith)
        requires
            ua == am * pow10((56 - as_) as nat),
            pow10(bs + t) == pow10(bs) * pow10(t),
            pow10(bs + t + e) == pow10(bs + t) * pe,
            pow10(bs + t + e) == pow10((56 - as_) as nat) * pow10(56),
            lhs == am * pow10(bs) * pow10(t),
    ;
    assert(rhs * pe == ub * uq) by (nonlinear_arith)
        requires
            ub == bm * pow10((56 - bs) as nat),
            uq == m * pow10((56 - t) as nat),
            pow10(as_ + e) == pow10(as_) * pe,
            pow10(as_ + e) == pow10((56 - bs) as nat) * pow10((56 - t) as nat),
            rhs == m * bm * pow10(as_),
    ;
    assert(lhs == rhs) by (nonlinear_arith)
        requires
            lhs * pe == rhs * pe,
            pe > 0,
    ;
    assert(Dec::is_quotient(a, b, m, t));
    lemma_units_of_value(r->0, m, t);
}

} // verus!
