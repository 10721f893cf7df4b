use ecc_field::arithmetic::{
    egcd, inverse_mod, modular_division, parse_modulus, rem, ModN, ModulusError, Modulus,
};
use ecc_field::integer::Int;

fn num(v: i64) -> Int {
    Int::from_i64(v)
}

#[test]
fn test_rem() {
    let r1 = rem(&num(80), &num(17));
    let r2 = rem(&num(-5), &num(3));

    assert_eq!(r1, num(12));
    assert_eq!(r2, num(1));
}

#[test]
fn test_egcd() {
    let x = num(180);
    let y = num(150);

    assert_eq!(egcd(&x, &y), (num(30), num(1), num(-1)));
}

#[test]
fn test_inverse_mod() {
    let x: ModN<Modulus<26>> = ModN::new(num(3));

    let r = inverse_mod(&x).unwrap();

    let expected: ModN<Modulus<26>> = ModN::new(num(9));

    assert_eq!(r, expected);
}

#[test]
fn test_modular_division() {
    let x: ModN<Modulus<3>> = ModN::new(num(26));
    let z: ModN<Modulus<3>> = ModN::new(num(4));

    let expected: ModN<Modulus<3>> = ModN::new(num(2));

    assert_eq!(modular_division(x, z), expected);
}

#[test]
fn mod_field_modular_bounds() {
    let x = Int::parse("123123123").unwrap();
    let y = Int::parse("567459").unwrap();

    let w: ModN<Modulus<5>> = ModN::new(x);
    let z: ModN<Modulus<5>> = ModN::new(y);

    assert_eq!(w.n, num(3));
    assert_eq!(z.n, num(4));
}

#[test]
fn modular_sum() {
    let x: ModN<Modulus<2>> = ModN::new(num(10));
    let y: ModN<Modulus<2>> = ModN::new(num(5));

    let r = x + y;

    assert_eq!(r.n, num(1));
}

#[test]
fn modular_mul() {
    let x: ModN<Modulus<7>> = ModN::new(num(5));
    let y: ModN<Modulus<7>> = ModN::new(num(15));

    let r = x * y;

    assert_eq!(r.n, num(5));
}

#[test]
fn modular_sub() {
    let x: ModN<Modulus<7>> = ModN::new(num(13));
    let y: ModN<Modulus<7>> = ModN::new(num(3));

    let r = x - y;

    assert_eq!(r.n, num(3));
}

#[test]
fn new_reduces_negative_values() {
    let v: ModN<Modulus<7>> = ModN::new(num(-15));
    assert_eq!(v.n, num(6));
    let w: ModN<Modulus<7>> = ModN::new(num(-14));
    assert_eq!(w.n, num(0));
    assert!(w.is_zero());
}

#[test]
fn new_is_idempotent() {
    for v in [-1000i64, -97, -1, 0, 1, 96, 97, 98, 123456789] {
        let once: ModN<Modulus<97>> = ModN::new(num(v));
        let twice: ModN<Modulus<97>> = ModN::new(once.n.clone());
        assert_eq!(once, twice);
    }
}

#[test]
fn subtraction_wraps_below_zero() {
    let x: ModN<Modulus<7>> = ModN::new(num(2));
    let y: ModN<Modulus<7>> = ModN::new(num(5));
    assert_eq!((x - y).n, num(4));
}

#[test]
fn zero_residue() {
    let z: ModN<Modulus<11>> = ModN::zero();
    assert!(z.is_zero());
    let one: ModN<Modulus<11>> = ModN::new(num(12));
    assert!(!one.is_zero());
    assert_eq!(one.n, num(1));
}

#[test]
fn egcd_satisfies_bezout() {
    let cases = [(240i64, 46i64), (46, 240), (0, 5), (5, 0), (17, 5), (-35, 15), (35, -15), (-12, -18)];
    for (a, b) in cases {
        let (g, x, y) = egcd(&num(a), &num(b));
        let combo = num(a).times(&x).plus(&num(b).times(&y));
        assert_eq!(g, combo);
    }
    let (g, _, _) = egcd(&num(240), &num(46));
    assert_eq!(g, num(2));
}

#[test]
fn egcd_of_zero_first_argument() {
    assert_eq!(egcd(&num(0), &num(9)), (num(9), num(0), num(1)));
}

#[test]
fn inverse_times_value_is_one() {
    for a in 1i64..97 {
        let v: ModN<Modulus<97>> = ModN::new(num(a));
        let inv = inverse_mod(&v).unwrap();
        let product = inv * v;
        assert_eq!(product.n, num(1));
    }
}

#[test]
fn inverse_missing_when_not_coprime() {
    let v: ModN<Modulus<26>> = ModN::new(num(13));
    assert!(inverse_mod(&v).is_none());
    let z: ModN<Modulus<97>> = ModN::zero();
    assert!(inverse_mod(&z).is_none());
}

#[test]
fn division_undoes_multiplication() {
    let numerator: ModN<Modulus<97>> = ModN::new(num(50));
    let den: ModN<Modulus<97>> = ModN::new(num(7));
    let q = modular_division(numerator.clone(), den.clone());
    assert_eq!(q.clone() * den, numerator);
    assert_eq!(q.n, num(21));
}

#[test]
fn int_operations() {
    assert_eq!(num(7).plus(&num(-10)), num(-3));
    assert_eq!(num(7).minus(&num(10)), num(-3));
    assert_eq!(num(-7).times(&num(6)), num(-42));
    assert_eq!(num(-7).quotient(&num(2)), num(-3));
    assert_eq!(num(7).quotient(&num(-2)), num(-3));
    assert_eq!(num(-7).remainder(&num(2)), num(-1));
    assert_eq!(num(7).remainder(&num(-2)), num(1));
    assert_eq!(Int::from_u64(u64::MAX).plus(&num(1)).minus(&num(1)), Int::from_u64(u64::MAX));
    assert!(Int::zero().is_zero());
    assert!(!Int::one().is_zero());
    assert_eq!(Int::one(), num(1));
    assert_ne!(num(1), num(-1));
}

#[test]
fn int_products_beyond_machine_width() {
    let big = Int::from_u64(u64::MAX);
    let square = big.times(&big);
    let q = square.quotient(&big);
    assert_eq!(q, big);
    assert!(square.remainder(&big).is_zero());
    let r = rem(&square.plus(&num(5)), &big);
    assert_eq!(r, num(5));
}

#[test]
fn parse_decimal_literals() {
    assert_eq!(Int::parse("123123123"), Some(num(123123123)));
    assert_eq!(Int::parse("-5"), Some(num(-5)));
    assert_eq!(Int::parse("+7"), Some(num(7)));
    assert_eq!(Int::parse("1_000"), Some(num(1000)));
    assert_eq!(Int::parse("0"), Some(num(0)));
    assert_eq!(Int::parse("_1"), None);
    assert_eq!(Int::parse(""), None);
    assert_eq!(Int::parse("-"), None);
    assert_eq!(Int::parse("12a"), None);
    assert_eq!(Int::parse("--1"), None);
    assert_eq!(Int::parse("+-1"), None);
    let big = Int::parse("340282366920938463463374607431768211457").unwrap();
    assert_eq!(rem(&big, &num(97)), num(36));
}

#[test]
fn parse_modulus_accepts_and_refuses() {
    assert_eq!(parse_modulus("17"), Ok(num(17)));
    assert_eq!(parse_modulus("1"), Err(ModulusError::TooSmall));
    assert_eq!(parse_modulus("0"), Err(ModulusError::TooSmall));
    assert_eq!(parse_modulus("-3"), Err(ModulusError::TooSmall));
    assert_eq!(parse_modulus("abc"), Err(ModulusError::Malformed));
    assert_eq!(parse_modulus(""), Err(ModulusError::Malformed));
}

#[test]
fn int_order() {
    assert!(num(-3).at_most(&num(2)));
    assert!(num(2).at_most(&num(2)));
    assert!(!num(3).at_most(&num(2)));
}
