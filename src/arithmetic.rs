//! Residues modulo a fixed modulus, the extended Euclidean algorithm and
//! modular inversion and division.

use crate::integer::{lemma_trunc_div_rem, magnitude, parse_decimal, trunc_div, trunc_rem, Int};
use std::marker::PhantomData;
use vstd::arithmetic::div_mod::lemma_mod_multiples_vanish;
use vstd::prelude::*;

verus! {

/// A modulus shared by a whole family of residues. Residues of two
/// different families cannot be mixed. `Modulus<N>` gives any modulus that
/// fits in a `u64`; a larger one can come from `parse_modulus`.
pub trait ModField {
    /// The modulus.
    spec fn modulus() -> int;

    /// The modulus as an executable integer.
    fn get_mod() -> (r: Int)
        ensures
            r@ == Self::modulus(),
    ;
}

/// The modulus `N`, fixed in the type.
#[derive(Debug, Clone, Copy)]
pub struct Modulus<const N: u64>;

impl<const N: u64> ModField for Modulus<N> {
    open spec fn modulus() -> int {
        N as int
    }

    fn get_mod() -> (r: Int) {
        Int::from_u64(N)
    }
}

/// Why a modulus was refused.
#[derive(Debug, Clone, Copy, PartialEq, Eq)]
pub enum ModulusError {
    /// The text is not a decimal integer.
    Malformed,
    /// The integer is not greater than one.
    TooSmall,
}

/// Reads a modulus written in decimal. It must be an integer greater than
/// one.
pub fn parse_modulus(s: &str) -> (r: Result<Int, ModulusError>)
    ensures
        r is Ok <==> (parse_decimal(s@) matches Some(v) && v > 1),
        r is Ok ==> parse_decimal(s@) == Some(r.unwrap()@),
        r == Err::<Int, ModulusError>(ModulusError::Malformed) <==> parse_decimal(s@) is None,
        r == Err::<Int, ModulusError>(ModulusError::TooSmall) <==> (parse_decimal(s@) matches Some(
            v,
        ) && v <= 1),
{
    match Int::parse(s) {
        None => Err(ModulusError::Malformed),
        Some(m) => {
            if m.at_most(&Int::one()) {
                Err(ModulusError::TooSmall)
            } else {
                Ok(m)
            }
        },
    }
}

/// `((a % b) + b) % b` with the remainder of `Int`; the least non-negative
/// residue of `a` when `b` is positive.
pub open spec fn rem_spec(a: int, b: int) -> int {
    trunc_rem(trunc_rem(a, b) + b, b)
}

/// For a positive modulus the double remainder is the least non-negative
/// residue.
pub proof fn lemma_rem_is_residue(a: int, b: int)
    requires
        b > 0,
    ensures
        rem_spec(a, b) == a % b,
        0 <= rem_spec(a, b) < b,
{
    let t = trunc_rem(a, b);
    let q = trunc_div(a, b);
    lemma_trunc_div_rem(a, b);
    let u = t + b;
    assert(0 <= u);
    lemma_trunc_div_rem(u, b);
    assert(a == b * (q - 1) + u) by (nonlinear_arith)
        requires
            a == b * q + t,
            u == t + b,
    ;
    lemma_mod_multiples_vanish(q - 1, u, b);
}

/// The remainder of `Int` is congruent to the dividend.
pub proof fn lemma_trunc_rem_congruent(a: int, b: int)
    requires
        b > 0,
    ensures
        trunc_rem(a, b) % b == a % b,
{
    lemma_trunc_div_rem(a, b);
    lemma_mod_multiples_vanish(trunc_div(a, b), trunc_rem(a, b), b);
}

/// `((a % b) + b) % b`, the least non-negative residue of `a` modulo a
/// positive `b`.
pub fn rem(a: &Int, b: &Int) -> (r: Int)
    requires
        b@ != 0,
    ensures
        r@ == rem_spec(a@, b@),
        b@ > 0 ==> r@ == a@ % b@,
{
    let t = a.remainder(b).plus(b);
    let r = t.remainder(b);
    proof {
        if b@ > 0 {
            lemma_rem_is_residue(a@, b@);
        }
    }
    r
}

/// A residue modulo the modulus of `T`, held as its least non-negative
/// representative.
#[derive(Debug)]
pub struct ModN<T: ModField> {
    pub n: Int,
    pub modulo: PhantomData<T>,
}

impl<T: ModField> View for ModN<T> {
    type V = int;

    open spec fn view(&self) -> int {
        self.n@
    }
}

impl<T: ModField> ModN<T> {
    /// The representative lies in `[0, N)`.
    pub open spec fn wf(&self) -> bool {
        0 <= self.n@ < T::modulus()
    }

    /// The residue of `n`: `((n % N) + N) % N`.
    pub fn new(n: Int) -> (r: Self)
        requires
            T::modulus() > 1,
        ensures
            r@ == n@ % T::modulus(),
            r.wf(),
    {
        let m = T::get_mod();
        let v = rem(&n, &m);
        proof {
            lemma_rem_is_residue(n@, m@);
        }
        ModN { n: v, modulo: PhantomData }
    }
}

/// Reduction modulo `m > 1`, as `ModN::new` states it, gives a
/// representative in `[0, m)`, and reducing that representative again
/// gives it back.
pub proof fn lemma_new_canonical(v: int, m: int)
    requires
        m > 1,
    ensures
        0 <= v % m < m,
        (v % m) % m == v % m,
{
    vstd::arithmetic::div_mod::lemma_mod_twice(v, m);
}

impl<T: ModField> std::ops::Add for ModN<T> {
    type Output = ModN<T>;

    /// `(a + b) % N`.
    fn add(self, rhs: ModN<T>) -> (r: ModN<T>)
        ensures
            r@ == (self@ + rhs@) % T::modulus(),
            r.wf(),
    {
        let m = T::get_mod();
        let s = self.n.plus(&rhs.n).remainder(&m);
        proof {
            lemma_trunc_rem_congruent(self@ + rhs@, m@);
        }
        ModN::new(s)
    }
}

impl<T: ModField> vstd::std_specs::ops::AddSpecImpl for ModN<T> {
    // What the operator returns is stated by the `ensures` of `add` above.
    open spec fn obeys_add_spec() -> bool {
        false
    }

    open spec fn add_req(self, rhs: ModN<T>) -> bool {
        T::modulus() > 1
    }

    open spec fn add_spec(self, rhs: ModN<T>) -> ModN<T> {
        self
    }
}

impl<T: ModField> std::ops::Sub for ModN<T> {
    type Output = ModN<T>;

    /// `(a - b) % N`.
    fn sub(self, rhs: ModN<T>) -> (r: ModN<T>)
        ensures
            r@ == (self@ - rhs@) % T::modulus(),
            r.wf(),
    {
        let m = T::get_mod();
        let d = self.n.minus(&rhs.n).remainder(&m);
        proof {
            lemma_trunc_rem_congruent(self@ - rhs@, m@);
        }
        ModN::new(d)
    }
}

impl<T: ModField> vstd::std_specs::ops::SubSpecImpl for ModN<T> {
    // What the operator returns is stated by the `ensures` of `sub` above.
    open spec fn obeys_sub_spec() -> bool {
        false
    }

    open spec fn sub_req(self, rhs: ModN<T>) -> bool {
        T::modulus() > 1
    }

    open spec fn sub_spec(self, rhs: ModN<T>) -> ModN<T> {
        self
    }
}

impl<T: ModField> std::ops::Mul for ModN<T> {
    type Output = ModN<T>;

    /// `(a * b) % N`.
    fn mul(self, rhs: ModN<T>) -> (r: ModN<T>)
        ensures
            r@ == (self@ * rhs@) % T::modulus(),
            r.wf(),
    {
        let m = T::get_mod();
        let p = self.n.times(&rhs.n).remainder(&m);
        proof {
            lemma_trunc_rem_congruent(self@ * rhs@, m@);
        }
        ModN::new(p)
    }
}

impl<T: ModField> vstd::std_specs::ops::MulSpecImpl for ModN<T> {
    // What the operator returns is stated by the `ensures` of `mul` above.
    open spec fn obeys_mul_spec() -> bool {
        false
    }

    open spec fn mul_req(self, rhs: ModN<T>) -> bool {
        T::modulus() > 1
    }

    open spec fn mul_spec(self, rhs: ModN<T>) -> ModN<T> {
        self
    }
}

impl<T: ModField> ModN<T> {
    /// The residue zero.
    pub fn zero() -> (r: Self)
        requires
            T::modulus() > 1,
        ensures
            r@ == 0,
            r.wf(),
    {
        ModN { n: Int::zero(), modulo: PhantomData }
    }

    /// Whether this is the residue zero.
    pub fn is_zero(&self) -> (r: bool)
        ensures
            r == (self@ == 0),
    {
        self.n.is_zero()
    }
}

impl<T: ModField> Clone for ModN<T> {
    fn clone(&self) -> (r: Self)
        ensures
            r@ == self@,
    {
        ModN { n: self.n.clone(), modulo: PhantomData }
    }
}

impl<T: ModField> PartialEq for ModN<T> {
    fn eq(&self, o: &Self) -> (r: bool) {
        self.n == o.n
    }
}

impl<T: ModField> vstd::std_specs::cmp::PartialEqSpecImpl for ModN<T> {
    open spec fn obeys_eq_spec() -> bool {
        true
    }

    open spec fn eq_spec(&self, o: &Self) -> bool {
        self@ == o@
    }
}

impl<T: ModField> Eq for ModN<T> {

}

/// Greatest common divisor of two naturals, by Euclid's recursion.
pub open spec fn gcd(a: nat, b: nat) -> nat
    decreases a,
{
    if a == 0 {
        b
    } else {
        gcd(b % a, a)
    }
}

/// The extended Euclidean algorithm with the quotient and remainder of
/// `Int`: from `egcd(b % a, a) = (g, x1, y1)` it gives
/// `(g, y1 - (b / a) * x1, x1)`, and `(b, 0, 1)` when `a` is zero.
pub open spec fn egcd_spec(a: int, b: int) -> (int, int, int)
    decreases magnitude(a),
{
    if a == 0 {
        (b, 0, 1)
    } else {
        let (g, x1, y1) = egcd_spec(trunc_rem(b, a), a);
        (g, y1 - trunc_div(b, a) * x1, x1)
    }
}

/// The coefficients of `egcd` satisfy Bezout's identity, and on naturals
/// the first component is their greatest common divisor.
pub proof fn lemma_egcd(a: int, b: int)
    ensures
        egcd_spec(a, b).0 == a * egcd_spec(a, b).1 + b * egcd_spec(a, b).2,
        a >= 0 && b >= 0 ==> egcd_spec(a, b).0 == gcd(a as nat, b as nat),
    decreases magnitude(a),
{
    if a != 0 {
        let r = trunc_rem(b, a);
        let q = trunc_div(b, a);
        lemma_trunc_div_rem(b, a);
        lemma_egcd(r, a);
        let (g, x1, y1) = egcd_spec(r, a);
        assert(g == a * (y1 - q * x1) + b * x1) by (nonlinear_arith)
            requires
                g == r * x1 + a * y1,
                b == a * q + r,
        ;
        if a >= 0 && b >= 0 {
            assert(r == b % a);
        }
    }
}

/// Extended Euclidean algorithm: `(g, x, y)` with `g == a * x + b * y`;
/// on naturals `g` is their greatest common divisor.
pub fn egcd(a: &Int, b: &Int) -> (r: (Int, Int, Int))
    ensures
        (r.0@, r.1@, r.2@) == egcd_spec(a@, b@),
        r.0@ == a@ * r.1@ + b@ * r.2@,
        a@ >= 0 && b@ >= 0 ==> r.0@ == gcd(a@ as nat, b@ as nat),
    decreases magnitude(a@),
{
    proof {
        lemma_egcd(a@, b@);
    }
    if a.is_zero() {
        return (b.clone(), Int::zero(), Int::one());
    }
    proof {
        lemma_trunc_div_rem(b@, a@);
    }
    let (g, x1, y1) = egcd(&b.remainder(a), a);
    let x = y1.minus(&b.quotient(a).times(&x1));
    (g, x, x1)
}

/// `m` is a prime number.
pub open spec fn is_prime(m: int) -> bool {
    m > 1 && forall|d: int| 1 < d < m ==> #[trigger] (m % d) != 0
}

/// `x` and `y` multiples of `g` make `x * c + y` one too.
proof fn lemma_multiple_combination(x: int, y: int, c: int, g: int)
    requires
        g > 0,
        x % g == 0,
        y % g == 0,
    ensures
        (x * c + y) % g == 0,
{
    vstd::arithmetic::div_mod::lemma_fundamental_div_mod(x, g);
    vstd::arithmetic::div_mod::lemma_fundamental_div_mod(y, g);
    let kx = x / g;
    let ky = y / g;
    assert(x * c + y == g * (kx * c + ky)) by (nonlinear_arith)
        requires
            x == g * kx,
            y == g * ky,
    ;
    lemma_mod_multiples_vanish(kx * c + ky, 0, g);
}

/// The greatest common divisor of two naturals, not both zero, is positive
/// and divides both.
pub proof fn lemma_gcd_divides(a: nat, b: nat)
    requires
        a + b > 0,
    ensures
        gcd(a, b) > 0,
        a % gcd(a, b) == 0,
        b % gcd(a, b) == 0,
    decreases a,
{
    if a == 0 {
        vstd::arithmetic::div_mod::lemma_mod_self_0(b as int);
    } else {
        let r = b % a;
        lemma_gcd_divides(r, a);
        let g = gcd(r, a);
        vstd::arithmetic::div_mod::lemma_fundamental_div_mod(b as int, a as int);
        lemma_multiple_combination(a as int, r as int, (b / a) as int, g as int);
    }
}

/// In a prime modulus every non-zero residue is invertible.
pub proof fn lemma_prime_invertible(v: int, m: int)
    requires
        is_prime(m),
        0 < v < m,
    ensures
        invertible(v, m),
{
    lemma_gcd_divides(v as nat, m as nat);
    let g = gcd(v as nat, m as nat) as int;
    if g > v {
        vstd::arithmetic::div_mod::lemma_small_mod(v as nat, g as nat);
    }
    if g != 1 {
        assert(m % g != 0);
    }
}

/// The inverse that `inverse_mod` gives: the Bezout coefficient of `a`,
/// reduced modulo `m`.
pub open spec fn inverse_spec(a: int, m: int) -> int {
    egcd_spec(a, m).1 % m
}

/// Whether the residue `a` has an inverse modulo `m`.
pub open spec fn invertible(a: int, m: int) -> bool {
    gcd(a as nat, m as nat) == 1
}

/// The inverse is one: `inverse_spec(a, m) * a` is `1` modulo `m`.
pub proof fn lemma_inverse(a: int, m: int)
    requires
        m > 1,
        0 <= a < m,
        invertible(a, m),
    ensures
        0 <= inverse_spec(a, m) < m,
        (inverse_spec(a, m) * a) % m == 1,
{
    lemma_egcd(a, m);
    let (g, x, y) = egcd_spec(a, m);
    assert(x * a == m * (-y) + 1) by (nonlinear_arith)
        requires
            1 == a * x + m * y,
    ;
    vstd::arithmetic::div_mod::lemma_mul_mod_noop_left(x, a, m);
    lemma_mod_multiples_vanish(-y, 1, m);
    vstd::arithmetic::div_mod::lemma_small_mod(1, m as nat);
}

/// The multiplicative inverse of `a`, when `a` and the modulus are coprime.
pub fn inverse_mod<T: ModField>(a: &ModN<T>) -> (r: Option<ModN<T>>)
    requires
        T::modulus() > 1,
        a.wf(),
    ensures
        r is Some <==> invertible(a@, T::modulus()),
        r is Some ==> r.unwrap()@ == inverse_spec(a@, T::modulus()),
        r is Some ==> r.unwrap().wf(),
        r is Some ==> (r.unwrap()@ * a@) % T::modulus() == 1,
{
    let m = T::get_mod();
    let (g, x, _) = egcd(&a.n, &m);
    if g == Int::one() {
        proof {
            lemma_inverse(a@, m@);
        }
        Some(ModN::new(x))
    } else {
        None
    }
}

/// The quotient `(n * inverse_spec(d, m)) % m` times `d` gives back `n`.
pub proof fn lemma_division(n: int, d: int, m: int)
    requires
        m > 1,
        0 <= n < m,
        0 <= d < m,
        invertible(d, m),
    ensures
        (((n * inverse_spec(d, m)) % m) * d) % m == n,
{
    let i = inverse_spec(d, m);
    lemma_inverse(d, m);
    vstd::arithmetic::div_mod::lemma_mul_mod_noop_left(n * i, d, m);
    assert((n * i) * d == n * (i * d)) by (nonlinear_arith);
    vstd::arithmetic::div_mod::lemma_mul_mod_noop_right(n, i * d, m);
    vstd::arithmetic::div_mod::lemma_small_mod(n as nat, m as nat);
}

/// `num / den` modulo the modulus: `num` times the inverse of `den`.
pub fn modular_division<T: ModField>(num: ModN<T>, den: ModN<T>) -> (r: ModN<T>)
    requires
        T::modulus() > 1,
        num.wf(),
        den.wf(),
        invertible(den@, T::modulus()),
    ensures
        r@ == (num@ * inverse_spec(den@, T::modulus())) % T::modulus(),
        r.wf(),
        (r@ * den@) % T::modulus() == num@,
{
    proof {
        lemma_division(num@, den@, T::modulus());
    }
    let inverse_denominator = inverse_mod(&den).unwrap();
    num * inverse_denominator
}

} // verus!
