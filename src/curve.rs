//! Points of a short Weierstrass curve `y^2 = x^3 + a*x + b` over the
//! residues of a modulus, and the group operations on them.

use crate::arithmetic::{
    inverse_spec, invertible, is_prime, lemma_prime_invertible, modular_division, ModField, ModN,
};
use crate::integer::Int;
use vstd::prelude::*;

verus! {

/// `(u + v) mod m`.
pub open spec fn fadd(u: int, v: int, m: int) -> int {
    (u + v) % m
}

/// `(u - v) mod m`.
pub open spec fn fsub(u: int, v: int, m: int) -> int {
    (u - v) % m
}

/// `(u * v) mod m`.
pub open spec fn fmul(u: int, v: int, m: int) -> int {
    (u * v) % m
}

/// `u / v mod m`: `u` times the inverse of `v`.
pub open spec fn fdiv(u: int, v: int, m: int) -> int {
    (u * inverse_spec(v, m)) % m
}

/// Doubling on the curve with coefficient `a` modulo `m`; `None` stands for
/// the point at infinity. The tangent slope is `s = (3x^2 + a) / (2y)`, the
/// intercept `i = y - s*x`, and the result `(s^2 - 2x, -(s*x' + i))`.
pub open spec fn double_spec(a: int, m: int, p: Option<(int, int)>) -> Option<(int, int)> {
    match p {
        None => None,
        Some((x, y)) => {
            if y == 0 {
                None
            } else {
                let s = fdiv(fadd(fmul(3, fmul(x, x, m), m), a, m), fmul(2, y, m), m);
                let i = fsub(y, fmul(s, x, m), m);
                let rx = fsub(fmul(s, s, m), fmul(2, x, m), m);
                let ry = fsub(fsub(0, fmul(s, rx, m), m), i, m);
                Some((rx, ry))
            }
        },
    }
}

/// Doubling `p` divides only by invertible residues.
pub open spec fn double_ok(m: int, p: Option<(int, int)>) -> bool {
    match p {
        None => true,
        Some((x, y)) => y != 0 ==> invertible(fmul(2, y, m), m),
    }
}

/// Addition on the curve with coefficient `a` modulo `m`. Infinity is the
/// identity; two points on one vertical line add to infinity when their
/// `y` sum to zero and are doubled otherwise; else the chord slope is
/// `s = (qy - py) / (qx - px)` and the result `(s^2 - px - qx, -(s*x' + i))`
/// with `i = py - s*px`.
pub open spec fn add_spec(a: int, m: int, p: Option<(int, int)>, q: Option<(int, int)>) -> Option<
    (int, int),
> {
    match (p, q) {
        (None, _) => q,
        (_, None) => p,
        (Some((px, py)), Some((qx, qy))) => {
            if px == qx {
                if fadd(py, qy, m) == 0 {
                    None
                } else {
                    double_spec(a, m, p)
                }
            } else {
                let s = fdiv(fsub(qy, py, m), fsub(qx, px, m), m);
                let i = fsub(py, fmul(s, px, m), m);
                let rx = fsub(fsub(fmul(s, s, m), px, m), qx, m);
                let ry = fsub(fsub(0, fmul(s, rx, m), m), i, m);
                Some((rx, ry))
            }
        },
    }
}

/// Adding `p` and `q` divides only by invertible residues.
pub open spec fn add_ok(m: int, p: Option<(int, int)>, q: Option<(int, int)>) -> bool {
    match (p, q) {
        (Some((px, py)), Some((qx, qy))) => {
            if px == qx {
                fadd(py, qy, m) != 0 ==> double_ok(m, p)
            } else {
                invertible(fsub(qx, px, m), m)
            }
        },
        _ => true,
    }
}

/// Scalar multiplication `k * p` by double-and-add over the binary digits
/// of `k`, most significant first: `0 * p` is infinity, and `k * p` is
/// `2 * ((k / 2) * p)`, with `p` added once more when `k` is odd.
pub open spec fn smul_spec(a: int, m: int, p: Option<(int, int)>, k: nat) -> Option<(int, int)>
    decreases k,
{
    if k == 0 {
        None
    } else {
        let d = double_spec(a, m, smul_spec(a, m, p, k / 2));
        if k % 2 == 1 {
            add_spec(a, m, d, p)
        } else {
            d
        }
    }
}

/// Every step of `smul_spec` divides only by invertible residues.
pub open spec fn smul_ok(a: int, m: int, p: Option<(int, int)>, k: nat) -> bool
    decreases k,
{
    if k == 0 {
        true
    } else {
        let h = smul_spec(a, m, p, k / 2);
        &&& smul_ok(a, m, p, k / 2)
        &&& double_ok(m, h)
        &&& k % 2 == 1 ==> add_ok(m, double_spec(a, m, h), p)
    }
}

/// Scalar multiplication by one gives the point back, and by zero gives
/// infinity.
pub proof fn lemma_smul_zero_one(a: int, m: int, p: Option<(int, int)>)
    ensures
        smul_spec(a, m, p, 0) is None,
        smul_spec(a, m, p, 1) == p,
        smul_ok(a, m, p, 1),
{
    assert(smul_spec(a, m, p, 0) is None);
    assert(smul_ok(a, m, p, 0));
    assert(double_spec(a, m, None) is None);
    assert(add_ok(m, None, p));
}

/// An affine point `(x, y)` with `y != 0` added to its mirror image
/// `(x, m - y)` gives the point at infinity.
pub proof fn lemma_add_mirror_is_infinity(a: int, m: int, x: int, y: int)
    requires
        m > 1,
        0 <= x < m,
        0 < y < m,
    ensures
        add_ok(m, Some((x, y)), Some((x, m - y))),
        add_spec(a, m, Some((x, y)), Some((x, m - y))) is None,
{
    assert(fadd(y, m - y, m) == 0) by {
        vstd::arithmetic::div_mod::lemma_mod_self_0(m);
    }
}

/// `p` is infinity or has both coordinates in `[0, m)`.
pub open spec fn in_range(m: int, p: Option<(int, int)>) -> bool {
    match p {
        None => true,
        Some((x, y)) => 0 <= x < m && 0 <= y < m,
    }
}

/// Modulo an odd prime, doubling and addition of points with reduced
/// coordinates never divide by a residue without inverse, and their results
/// have reduced coordinates.
pub proof fn lemma_odd_prime_defined(a: int, m: int, p: Option<(int, int)>, q: Option<(int, int)>)
    requires
        is_prime(m),
        m > 2,
        in_range(m, p),
        in_range(m, q),
    ensures
        double_ok(m, p),
        add_ok(m, p, q),
        in_range(m, double_spec(a, m, p)),
        in_range(m, add_spec(a, m, p, q)),
{
    if let Some((px, py)) = p {
        if py != 0 {
            let t = 2 * py;
            if t % m == 0 {
                vstd::arithmetic::div_mod::lemma_fundamental_div_mod(t, m);
                let k = t / m;
                assert(k == 1) by (nonlinear_arith)
                    requires
                        t == m * k,
                        0 < t < 2 * m,
                        m > 0,
                ;
                assert(t == m) by (nonlinear_arith)
                    requires
                        t == m * k,
                        k == 1,
                ;
                assert(m % 2 == 0);
                assert(m % 2 != 0);
            }
            vstd::arithmetic::div_mod::lemma_mod_pos_bound(t, m);
            lemma_prime_invertible(t % m, m);
        }
        if let Some((qx, qy)) = q {
            if px != qx {
                let d = qx - px;
                if d % m == 0 {
                    vstd::arithmetic::div_mod::lemma_fundamental_div_mod(d, m);
                    let k = d / m;
                    assert(d == 0) by (nonlinear_arith)
                        requires
                            d == m * k,
                            -m < d < m,
                            m > 0,
                    ;
                }
                vstd::arithmetic::div_mod::lemma_mod_bound(d, m);
                lemma_prime_invertible(d % m, m);
            }
        }
    }
}

/// Modulo an odd prime, scalar multiplication of a point with reduced
/// coordinates never divides by a residue without inverse.
pub proof fn lemma_odd_prime_smul_defined(a: int, m: int, p: Option<(int, int)>, k: nat)
    requires
        is_prime(m),
        m > 2,
        in_range(m, p),
    ensures
        smul_ok(a, m, p, k),
        in_range(m, smul_spec(a, m, p, k)),
    decreases k,
{
    if k > 0 {
        lemma_odd_prime_smul_defined(a, m, p, k / 2);
        let h = smul_spec(a, m, p, k / 2);
        lemma_odd_prime_defined(a, m, h, p);
        lemma_odd_prime_defined(a, m, double_spec(a, m, h), p);
    }
}

/// A point: the point at infinity or an affine point `(x, y)`.
#[derive(Debug)]
pub enum Point<T: ModField> {
    Inf,
    Pt { x: ModN<T>, y: ModN<T> },
}

impl<T: ModField> View for Point<T> {
    type V = Option<(int, int)>;

    open spec fn view(&self) -> Option<(int, int)> {
        match self {
            Point::Inf => None,
            Point::Pt { x, y } => Some((x@, y@)),
        }
    }
}

impl<T: ModField> Point<T> {
    /// The coordinates of an affine point are reduced residues.
    pub open spec fn wf(&self) -> bool {
        match self {
            Point::Inf => true,
            Point::Pt { x, y } => x.wf() && y.wf(),
        }
    }
}

impl<T: ModField> Clone for Point<T> {
    fn clone(&self) -> (r: Self)
        ensures
            r@ == self@,
            self.wf() ==> r.wf(),
    {
        match self {
            Point::Inf => Point::Inf,
            Point::Pt { x, y } => Point::Pt { x: x.clone(), y: y.clone() },
        }
    }
}

/// The curve `y^2 = x^3 + a*x + b`.
pub struct Curve<T: ModField> {
    pub a: ModN<T>,
    pub b: ModN<T>,
}

impl<T: ModField> Curve<T> {
    /// Both coefficients are reduced residues.
    pub open spec fn wf(&self) -> bool {
        self.a.wf() && self.b.wf()
    }

    /// The residue of a small constant.
    fn constant(c: i64) -> (r: ModN<T>)
        requires
            T::modulus() > 1,
        ensures
            r@ == (c as int) % T::modulus(),
            r.wf(),
    {
        ModN::new(Int::from_i64(c))
    }

    /// Point doubling: the tangent at `p` meets the curve once more; that
    /// point reflected in the x axis is `2p`.
    pub fn double(&self, p: Point<T>) -> (r: Point<T>)
        requires
            T::modulus() > 1,
            self.wf(),
            p.wf(),
            double_ok(T::modulus(), p@),
        ensures
            r@ == double_spec(self.a@, T::modulus(), p@),
            r.wf(),
    {
        let ghost m = T::modulus();
        match p {
            Point::Inf => Point::Inf,
            Point::Pt { x, y } => {
                if y.is_zero() {
                    Point::Inf
                } else {
                    let three = Self::constant(3);
                    let two = Self::constant(2);
                    let xx = x.clone() * x.clone();
                    let den = two.clone() * y.clone();
                    proof {
                        vstd::arithmetic::div_mod::lemma_mul_mod_noop_left(3, xx@, m);
                        vstd::arithmetic::div_mod::lemma_mul_mod_noop_left(2, y@, m);
                        vstd::arithmetic::div_mod::lemma_mul_mod_noop_left(2, x@, m);
                    }
                    let s = modular_division(three * xx + self.a.clone(), den);
                    let i = y - s.clone() * x.clone();
                    let rx = s.clone() * s.clone() - two * x;
                    let ry = ModN::zero() - s * rx.clone() - i;
                    Point::Pt { x: rx, y: ry }
                }
            },
        }
    }

    /// Point addition: infinity is the identity; a point and its mirror image
    /// add to infinity; a point added to itself is doubled; otherwise the
    /// chord through both meets the curve once more, and that point
    /// reflected in the x axis is the sum.
    pub fn add(&self, p: Point<T>, q: Point<T>) -> (r: Point<T>)
        requires
            T::modulus() > 1,
            self.wf(),
            p.wf(),
            q.wf(),
            add_ok(T::modulus(), p@, q@),
        ensures
            r@ == add_spec(self.a@, T::modulus(), p@, q@),
            r.wf(),
    {
        match (p, q) {
            (Point::Inf, q) => q,
            (p, Point::Inf) => p,
            (Point::Pt { x: px, y: py }, Point::Pt { x: qx, y: qy }) => {
                if px == qx {
                    if (py.clone() + qy).is_zero() {
                        Point::Inf
                    } else {
                        self.double(Point::Pt { x: px, y: py })
                    }
                } else {
                    let s = modular_division(qy - py.clone(), qx.clone() - px.clone());
                    let i = py - s.clone() * px.clone();
                    let rx = s.clone() * s.clone() - px - qx;
                    let ry = ModN::zero() - s * rx.clone() - i;
                    Point::Pt { x: rx, y: ry }
                }
            },
        }
    }

    /// Scalar multiplication `m * p` by double-and-add over the binary
    /// digits of `m`, most significant first: each digit doubles the
    /// result, and a digit one then adds `p`. `m == 0` gives infinity.
    pub fn mul(&self, p: Point<T>, m: u128) -> (r: Point<T>)
        requires
            T::modulus() > 1,
            self.wf(),
            p.wf(),
            smul_ok(self.a@, T::modulus(), p@, m as nat),
        ensures
            r@ == smul_spec(self.a@, T::modulus(), p@, m as nat),
            r.wf(),
        decreases m,
    {
        if m == 0 {
            return Point::Inf;
        }
        let half = self.mul(p.clone(), m / 2);
        let doubled = self.double(half);
        if m % 2 == 1 {
            self.add(doubled, p)
        } else {
            doubled
        }
    }
}

} // verus!
