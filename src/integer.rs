//! Signed integers of any size. The value is held as plain bytes and every
//! arithmetic step is carried out by `num_bigint`.

use num_bigint::BigInt;
use num_traits::{One, Zero};
use vstd::prelude::*;

verus! {

/// Value of little-endian unsigned bytes.
pub open spec fn unsigned_le(s: Seq<u8>) -> nat
    decreases s.len(),
{
    if s.len() == 0 {
        0
    } else {
        s[0] as nat + 256 * unsigned_le(s.drop_first())
    }
}

/// `256` to the power `n`.
pub open spec fn byte_base(n: nat) -> nat
    decreases n,
{
    if n == 0 {
        1
    } else {
        256 * byte_base((n - 1) as nat)
    }
}

/// Value of little-endian two's-complement bytes; no bytes stand for zero.
pub open spec fn twos_le(s: Seq<u8>) -> int {
    if s.len() > 0 && s.last() >= 128 {
        unsigned_le(s) - byte_base(s.len())
    } else {
        unsigned_le(s) as int
    }
}

/// An arbitrary-precision signed integer.
#[derive(Debug)]
pub struct Int {
    bytes: Vec<u8>,
}

impl View for Int {
    type V = int;

    closed spec fn view(&self) -> int {
        twos_le(self.bytes@)
    }
}

/// Absolute value.
pub open spec fn magnitude(a: int) -> nat {
    if a < 0 {
        (-a) as nat
    } else {
        a as nat
    }
}

/// Quotient of `a` by `b`, rounded toward zero.
pub open spec fn trunc_div(a: int, b: int) -> int {
    let q = magnitude(a) / magnitude(b);
    if (a < 0) == (b < 0) {
        q as int
    } else {
        -q
    }
}

/// Remainder of `a` by `b` that takes the sign of `a`.
pub open spec fn trunc_rem(a: int, b: int) -> int {
    let r = magnitude(a) % magnitude(b);
    if a < 0 {
        -r
    } else {
        r as int
    }
}

/// A decimal digit or the separator `_`.
pub open spec fn digit_or_separator(c: char) -> bool {
    ('0' <= c && c <= '9') || c == '_'
}

/// Decimal digits, with `_` allowed anywhere but first.
pub open spec fn digits_ok(s: Seq<char>) -> bool {
    &&& s.len() > 0
    &&& s[0] != '_'
    &&& forall|i: int| 0 <= i < s.len() ==> digit_or_separator(#[trigger] s[i])
}

/// Value of decimal digits, skipping `_`.
pub open spec fn digits_value(s: Seq<char>) -> nat
    decreases s.len(),
{
    if s.len() == 0 {
        0
    } else if s.last() == '_' {
        digits_value(s.drop_last())
    } else {
        10 * digits_value(s.drop_last()) + ((s.last() as u32) - 48) as nat
    }
}

/// The integer that a decimal literal denotes: an optional sign `-` or `+`
/// followed by digits; `None` for anything else.
pub open spec fn parse_decimal(s: Seq<char>) -> Option<int> {
    if s.len() > 0 && s[0] == '-' && digits_ok(s.drop_first()) {
        Some(-digits_value(s.drop_first()))
    } else if s.len() > 0 && s[0] == '+' && digits_ok(s.drop_first()) {
        Some(digits_value(s.drop_first()) as int)
    } else if digits_ok(s) {
        Some(digits_value(s) as int)
    } else {
        None
    }
}

/// Relies on `BigInt::from_str`: an optional sign, then decimal digits that
/// may hold `_` after the first; an error for anything else.
#[verifier::external_body]
fn big_parse(s: &str) -> (r: Option<Int>)
    ensures
        r is None <==> parse_decimal(s@) is None,
        r is Some ==> parse_decimal(s@) == Some(r.unwrap()@),
{
    match <BigInt as std::str::FromStr>::from_str(s) {
        Ok(b) => Some(Int { bytes: b.to_signed_bytes_le() }),
        Err(_) => None,
    }
}

/// Relies on `PartialOrd` for `BigInt`: the order of the integers.
#[verifier::external_body]
fn big_le(a: &Int, b: &Int) -> (r: bool)
    ensures
        r == (a@ <= b@),
{
    BigInt::from_signed_bytes_le(&a.bytes) <= BigInt::from_signed_bytes_le(&b.bytes)
}

/// Relies on `BigInt::from(i64)`: the same integer.
#[verifier::external_body]
fn big_from_i64(v: i64) -> (r: Int)
    ensures
        r@ == v as int,
{
    Int { bytes: BigInt::from(v).to_signed_bytes_le() }
}

/// Relies on `BigInt::from(u64)`: the same integer.
#[verifier::external_body]
fn big_from_u64(v: u64) -> (r: Int)
    ensures
        r@ == v as int,
{
    Int { bytes: BigInt::from(v).to_signed_bytes_le() }
}

/// Relies on `num_traits::Zero::zero` for `BigInt`.
#[verifier::external_body]
fn big_zero() -> (r: Int)
    ensures
        r@ == 0,
{
    Int { bytes: <BigInt as Zero>::zero().to_signed_bytes_le() }
}

/// Relies on `num_traits::One::one` for `BigInt`.
#[verifier::external_body]
fn big_one() -> (r: Int)
    ensures
        r@ == 1,
{
    Int { bytes: <BigInt as One>::one().to_signed_bytes_le() }
}

/// Relies on `num_traits::Zero::is_zero` for `BigInt`.
#[verifier::external_body]
fn big_is_zero(a: &Int) -> (r: bool)
    ensures
        r == (a@ == 0),
{
    BigInt::from_signed_bytes_le(&a.bytes).is_zero()
}

/// Relies on `PartialEq` for `BigInt`: equal values.
#[verifier::external_body]
fn big_eq(a: &Int, b: &Int) -> (r: bool)
    ensures
        r == (a@ == b@),
{
    BigInt::from_signed_bytes_le(&a.bytes) == BigInt::from_signed_bytes_le(&b.bytes)
}

/// Relies on `&BigInt + &BigInt`.
#[verifier::external_body]
fn big_add(a: &Int, b: &Int) -> (r: Int)
    ensures
        r@ == a@ + b@,
{
    let s = &BigInt::from_signed_bytes_le(&a.bytes) + &BigInt::from_signed_bytes_le(&b.bytes);
    Int { bytes: s.to_signed_bytes_le() }
}

/// Relies on `&BigInt - &BigInt`.
#[verifier::external_body]
fn big_sub(a: &Int, b: &Int) -> (r: Int)
    ensures
        r@ == a@ - b@,
{
    let d = &BigInt::from_signed_bytes_le(&a.bytes) - &BigInt::from_signed_bytes_le(&b.bytes);
    Int { bytes: d.to_signed_bytes_le() }
}

/// Relies on `&BigInt * &BigInt`.
#[verifier::external_body]
fn big_mul(a: &Int, b: &Int) -> (r: Int)
    ensures
        r@ == a@ * b@,
{
    let p = &BigInt::from_signed_bytes_le(&a.bytes) * &BigInt::from_signed_bytes_le(&b.bytes);
    Int { bytes: p.to_signed_bytes_le() }
}

/// Relies on `&BigInt / &BigInt`, which rounds toward zero and panics on a
/// zero divisor.
#[verifier::external_body]
fn big_div(a: &Int, b: &Int) -> (r: Int)
    requires
        b@ != 0,
    ensures
        r@ == trunc_div(a@, b@),
{
    let q = &BigInt::from_signed_bytes_le(&a.bytes) / &BigInt::from_signed_bytes_le(&b.bytes);
    Int { bytes: q.to_signed_bytes_le() }
}

/// Relies on `&BigInt % &BigInt`, whose result takes the sign of the dividend
/// and which panics on a zero divisor.
#[verifier::external_body]
fn big_rem(a: &Int, b: &Int) -> (r: Int)
    requires
        b@ != 0,
    ensures
        r@ == trunc_rem(a@, b@),
{
    let m = &BigInt::from_signed_bytes_le(&a.bytes) % &BigInt::from_signed_bytes_le(&b.bytes);
    Int { bytes: m.to_signed_bytes_le() }
}

/// Truncated division and remainder recompose the dividend, and the
/// remainder is smaller than the divisor.
pub proof fn lemma_trunc_div_rem(a: int, b: int)
    requires
        b != 0,
    ensures
        a == b * trunc_div(a, b) + trunc_rem(a, b),
        magnitude(trunc_rem(a, b)) < magnitude(b),
        a >= 0 ==> 0 <= trunc_rem(a, b),
        a >= 0 && b > 0 ==> trunc_rem(a, b) == a % b && trunc_div(a, b) == a / b,
{
    let ma = magnitude(a) as int;
    let mb = magnitude(b) as int;
    let q = ma / mb;
    let r = ma % mb;
    assert(ma == mb * q + r && 0 <= r < mb) by (nonlinear_arith)
        requires
            mb > 0,
            q == ma / mb,
            r == ma % mb,
    ;
    if a < 0 {
        if b < 0 {
            assert(a == b * q + (-r)) by (nonlinear_arith)
                requires
                    ma == -a,
                    mb == -b,
                    ma == mb * q + r,
            ;
        } else {
            assert(a == b * (-q) + (-r)) by (nonlinear_arith)
                requires
                    ma == -a,
                    mb == b,
                    ma == mb * q + r,
            ;
        }
    } else {
        if b < 0 {
            assert(a == b * (-q) + r) by (nonlinear_arith)
                requires
                    ma == a,
                    mb == -b,
                    ma == mb * q + r,
            ;
        } else {
            assert(a == b * q + r);
        }
    }
}

impl Int {
    /// The integer `v`.
    pub fn from_i64(v: i64) -> (r: Int)
        ensures
            r@ == v as int,
    {
        big_from_i64(v)
    }

    /// The integer `v`.
    pub fn from_u64(v: u64) -> (r: Int)
        ensures
            r@ == v as int,
    {
        big_from_u64(v)
    }

    /// The integer written in decimal in `s`, with an optional sign.
    pub fn parse(s: &str) -> (r: Option<Int>)
        ensures
            r is None <==> parse_decimal(s@) is None,
            r is Some ==> parse_decimal(s@) == Some(r.unwrap()@),
    {
        big_parse(s)
    }

    /// Whether `self <= o`.
    pub fn at_most(&self, o: &Int) -> (r: bool)
        ensures
            r == (self@ <= o@),
    {
        big_le(self, o)
    }

    /// Zero.
    pub fn zero() -> (r: Int)
        ensures
            r@ == 0,
    {
        big_zero()
    }

    /// One.
    pub fn one() -> (r: Int)
        ensures
            r@ == 1,
    {
        big_one()
    }

    /// Whether the value is zero.
    pub fn is_zero(&self) -> (r: bool)
        ensures
            r == (self@ == 0),
    {
        big_is_zero(self)
    }

    /// `self + o`.
    pub fn plus(&self, o: &Int) -> (r: Int)
        ensures
            r@ == self@ + o@,
    {
        big_add(self, o)
    }

    /// `self - o`.
    pub fn minus(&self, o: &Int) -> (r: Int)
        ensures
            r@ == self@ - o@,
    {
        big_sub(self, o)
    }

    /// `self * o`.
    pub fn times(&self, o: &Int) -> (r: Int)
        ensures
            r@ == self@ * o@,
    {
        big_mul(self, o)
    }

    /// Quotient rounded toward zero.
    pub fn quotient(&self, o: &Int) -> (r: Int)
        requires
            o@ != 0,
        ensures
            r@ == trunc_div(self@, o@),
    {
        big_div(self, o)
    }

    /// Remainder with the sign of `self`.
    pub fn remainder(&self, o: &Int) -> (r: Int)
        requires
            o@ != 0,
        ensures
            r@ == trunc_rem(self@, o@),
    {
        big_rem(self, o)
    }
}

impl Clone for Int {
    fn clone(&self) -> (r: Int)
        ensures
            r@ == self@,
    {
        let bytes = self.bytes.clone();
        assert(bytes@ =~= self.bytes@);
        Int { bytes }
    }
}

impl PartialEq for Int {
    fn eq(&self, o: &Int) -> (r: bool) {
        big_eq(self, o)
    }
}

impl vstd::std_specs::cmp::PartialEqSpecImpl for Int {
    open spec fn obeys_eq_spec() -> bool {
        true
    }

    open spec fn eq_spec(&self, o: &Int) -> bool {
        self@ == o@
    }
}

impl Eq for Int {

}

} // verus!
