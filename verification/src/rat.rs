//! Exact rational scalars.
//!
//! Every coordinate, weight, knot and parameter value in this crate is an
//! exact rational number: an `i128` numerator over a positive `i128`
//! denominator. Contracts are stated over `RatVal`, the unbounded
//! mathematical value of such a number, so the arithmetic below is exact;
//! an operation returns `None` exactly when some intermediate product or
//! sum falls outside the `i128` range.

use vstd::arithmetic::div_mod::{
    lemma_add_mod_noop, lemma_fundamental_div_mod, lemma_mod_self_0, lemma_mul_mod_noop_left,
    lemma_small_mod,
};
use vstd::prelude::*;

verus! {

/// The mathematical value of a rational number: an unbounded numerator
/// over an unbounded denominator. Well-formed values keep `den > 0`.
pub ghost struct RatVal {
    pub num: int,
    pub den: int,
}

impl RatVal {
    /// Denominators stay positive, so the sign of a value is the sign of
    /// its numerator and cross-multiplied comparisons keep their direction.
    pub open spec fn wf(self) -> bool {
        self.den > 0
    }

    pub open spec fn from_int(n: int) -> RatVal {
        RatVal { num: n, den: 1 }
    }

    pub open spec fn is_zero(self) -> bool {
        self.num == 0
    }

    /// Value equality: `a/b == c/d` iff `a*d == c*b` (denominators nonzero).
    pub open spec fn eq_val(self, other: RatVal) -> bool {
        self.num * other.den == other.num * self.den
    }

    /// Value order, for positive denominators: `a/b <= c/d` iff `a*d <= c*b`.
    pub open spec fn le_val(self, other: RatVal) -> bool {
        self.num * other.den <= other.num * self.den
    }

    pub open spec fn add_val(self, other: RatVal) -> RatVal {
        RatVal {
            num: self.num * other.den + other.num * self.den,
            den: self.den * other.den,
        }
    }

    pub open spec fn sub_val(self, other: RatVal) -> RatVal {
        RatVal {
            num: self.num * other.den - other.num * self.den,
            den: self.den * other.den,
        }
    }

    pub open spec fn mul_val(self, other: RatVal) -> RatVal {
        RatVal { num: self.num * other.num, den: self.den * other.den }
    }

    /// Division normalises the sign so that a well-formed quotient keeps a
    /// positive denominator; meaningful only for `other.num != 0`.
    pub open spec fn div_val(self, other: RatVal) -> RatVal {
        if other.num >= 0 {
            RatVal { num: self.num * other.den, den: self.den * other.num }
        } else {
            RatVal { num: -(self.num * other.den), den: -(self.den * other.num) }
        }
    }
}

/// Whether an unbounded integer fits the machine representation.
pub open spec fn in_i128(x: int) -> bool {
    i128::MIN <= x <= i128::MAX
}

/// Exactly when `rat_add(a, b)` returns a value: both cross products and
/// the exact sum's numerator and denominator fit the machine integers.
pub open spec fn add_fits(a: RatVal, b: RatVal) -> bool {
    &&& in_i128(a.num * b.den)
    &&& in_i128(b.num * a.den)
    &&& in_i128(a.add_val(b).num)
    &&& in_i128(a.add_val(b).den)
}

/// Exactly when `rat_sub(a, b)` returns a value.
pub open spec fn sub_fits(a: RatVal, b: RatVal) -> bool {
    &&& in_i128(a.num * b.den)
    &&& in_i128(b.num * a.den)
    &&& in_i128(a.sub_val(b).num)
    &&& in_i128(a.sub_val(b).den)
}

/// Exactly when `rat_mul(a, b)` returns a value.
pub open spec fn mul_fits(a: RatVal, b: RatVal) -> bool {
    &&& in_i128(a.mul_val(b).num)
    &&& in_i128(a.mul_val(b).den)
}

/// Exactly when `rat_div(a, b)` returns a value.
pub open spec fn div_fits(a: RatVal, b: RatVal) -> bool {
    &&& in_i128(a.num * b.den)
    &&& in_i128(a.den * b.num)
    &&& in_i128(a.div_val(b).num)
    &&& in_i128(a.div_val(b).den)
}

/// Exactly when `rat_le(a, b)` returns an answer: both cross products fit.
pub open spec fn le_fits(a: RatVal, b: RatVal) -> bool {
    &&& in_i128(a.num * b.den)
    &&& in_i128(b.num * a.den)
}

/// The greatest common divisor, as Euclid's recursion computes it.
pub open spec fn gcd_val(a: int, b: int) -> int
    decreases a,
{
    if a <= 0 {
        b
    } else {
        gcd_val(b % a, a)
    }
}

/// The reduced representative of a value: numerator and denominator
/// divided by their greatest common divisor, the sign kept on the
/// numerator. The one numerator whose magnitude is not representable is
/// left as it stands.
pub open spec fn reduce_val(a: RatVal) -> RatVal {
    if a.num == i128::MIN as int {
        a
    } else {
        let m = if a.num < 0 {
            -a.num
        } else {
            a.num
        };
        let g = gcd_val(m, a.den);
        RatVal {
            num: if a.num < 0 {
                -(m / g)
            } else {
                m / g
            },
            den: a.den / g,
        }
    }
}

/// The product of two positive integers is positive.
pub proof fn lemma_pos_mul(a: int, b: int)
    by (nonlinear_arith)
    requires
        a > 0,
        b > 0,
    ensures
        a * b > 0,
{
}

/// The negated product of a positive and a negative integer is positive.
pub proof fn lemma_neg_mul(a: int, b: int)
    by (nonlinear_arith)
    requires
        a > 0,
        b < 0,
    ensures
        -(a * b) > 0,
{
}

/// Negating numerator and denominator together keeps the value.
proof fn lemma_neg_eq(n: int, d: int)
    by (nonlinear_arith)
    ensures
        (RatVal { num: -n, den: -d }).eq_val(RatVal { num: n, den: d }),
        (RatVal { num: n, den: d }).eq_val(RatVal { num: -n, den: -d }),
{
}

/// Value equality is transitive across a value with a nonzero denominator.
pub proof fn lemma_eq_val_trans(a: RatVal, b: RatVal, c: RatVal)
    by (nonlinear_arith)
    requires
        a.eq_val(b),
        b.eq_val(c),
        b.den != 0,
    ensures
        a.eq_val(c),
{
}

/// Multiplication respects value equality in either factor.
pub proof fn lemma_mul_congruence(a: RatVal, b: RatVal, a2: RatVal)
    by (nonlinear_arith)
    requires
        a.eq_val(a2),
    ensures
        a.mul_val(b).eq_val(a2.mul_val(b)),
        b.mul_val(a).eq_val(b.mul_val(a2)),
{
}

/// Addition respects value equality in both summands.
pub proof fn lemma_add_congruence(a: RatVal, b: RatVal, a2: RatVal, b2: RatVal)
    requires
        a.eq_val(a2),
        b.eq_val(b2),
    ensures
        a.add_val(b).eq_val(a2.add_val(b2)),
{
    assert((a.num * b.den) * (a2.den * b2.den) == (a2.num * b2.den) * (a.den * b.den))
        by (nonlinear_arith)
        requires
            a.num * a2.den == a2.num * a.den,
    ;
    assert((b.num * a.den) * (a2.den * b2.den) == (b2.num * a2.den) * (a.den * b.den))
        by (nonlinear_arith)
        requires
            b.num * b2.den == b2.num * b.den,
    ;
    assert((a.num * b.den + b.num * a.den) * (a2.den * b2.den) == (a.num * b.den) * (a2.den
        * b2.den) + (b.num * a.den) * (a2.den * b2.den)) by (nonlinear_arith);
    assert((a2.num * b2.den + b2.num * a2.den) * (a.den * b.den) == (a2.num * b2.den) * (a.den
        * b.den) + (b2.num * a2.den) * (a.den * b.den)) by (nonlinear_arith);
}

/// Multiplication is commutative and a factor can be hoisted across a
/// nested product.
pub proof fn lemma_mul_swap(a: RatVal, f: RatVal, b: RatVal)
    by (nonlinear_arith)
    ensures
        a.mul_val(b) == b.mul_val(a),
        a.mul_val(f.mul_val(b)) == f.mul_val(a.mul_val(b)),
{
}

/// A common factor distributes over a sum, as values.
pub proof fn lemma_mul_distributes(f: RatVal, x: RatVal, y: RatVal)
    ensures
        f.mul_val(x).add_val(f.mul_val(y)).eq_val(f.mul_val(x.add_val(y))),
{
    let lhs = f.mul_val(x).add_val(f.mul_val(y));
    let rhs = f.mul_val(x.add_val(y));
    assert((f.num * x.num) * (f.den * y.den) == f.den * (f.num * (x.num * y.den)))
        by (nonlinear_arith);
    assert((f.num * y.num) * (f.den * x.den) == f.den * (f.num * (y.num * x.den)))
        by (nonlinear_arith);
    assert(f.den * (f.num * (x.num * y.den)) + f.den * (f.num * (y.num * x.den)) == f.den * (f.num
        * (x.num * y.den + y.num * x.den))) by (nonlinear_arith);
    assert(lhs.num == f.den * rhs.num);
    assert(lhs.den == f.den * rhs.den) by (nonlinear_arith)
        requires
            lhs.den == (f.den * x.den) * (f.den * y.den),
            rhs.den == f.den * (x.den * y.den),
    ;
    assert(lhs.num * rhs.den == rhs.num * lhs.den) by (nonlinear_arith)
        requires
            lhs.num == f.den * rhs.num,
            lhs.den == f.den * rhs.den,
    ;
}

/// Dividing value-proportional numerators by the same value keeps the
/// proportion: from `x2 == f * x` follows `x2 / w == f * (x / w)`.
pub proof fn lemma_div_scales(x2: RatVal, x: RatVal, f: RatVal, w: RatVal)
    requires
        x2.eq_val(f.mul_val(x)),
        w.num != 0,
    ensures
        x2.div_val(w).eq_val(f.mul_val(x.div_val(w))),
{
    let lhs = x2.div_val(w);
    let rhs = f.mul_val(x.div_val(w));
    let aa = x2.num * (f.den * x.den);
    let bb = (f.num * x.num) * x2.den;
    let cc = w.den * w.num;
    assert(aa == bb);
    assert(aa * cc == bb * cc) by (nonlinear_arith)
        requires
            aa == bb,
    ;
    if w.num >= 0 {
        assert(lhs.num * rhs.den == aa * cc) by (nonlinear_arith)
            requires
                lhs.num == x2.num * w.den,
                rhs.den == f.den * (x.den * w.num),
                aa == x2.num * (f.den * x.den),
                cc == w.den * w.num,
        ;
        assert(bb * cc == rhs.num * lhs.den) by (nonlinear_arith)
            requires
                rhs.num == f.num * (x.num * w.den),
                lhs.den == x2.den * w.num,
                bb == (f.num * x.num) * x2.den,
                cc == w.den * w.num,
        ;
    } else {
        assert(lhs.num * rhs.den == aa * cc) by (nonlinear_arith)
            requires
                lhs.num == -(x2.num * w.den),
                rhs.den == f.den * (-(x.den * w.num)),
                aa == x2.num * (f.den * x.den),
                cc == w.den * w.num,
        ;
        assert(bb * cc == rhs.num * lhs.den) by (nonlinear_arith)
            requires
                rhs.num == f.num * (-(x.num * w.den)),
                lhs.den == -(x2.den * w.num),
                bb == (f.num * x.num) * x2.den,
                cc == w.den * w.num,
        ;
    }
}

/// An exact rational number. The denominator is kept positive by every
/// operation in this module.
#[derive(Clone, Copy, Debug)]
pub struct Rat {
    pub num: i128,
    pub den: i128,
}

impl View for Rat {
    type V = RatVal;

    open spec fn view(&self) -> RatVal {
        RatVal { num: self.num as int, den: self.den as int }
    }
}

impl Rat {
    pub open spec fn wf(self) -> bool {
        self@.wf()
    }

    /// The rational `num / den`; the sign is normalised onto the numerator.
    pub fn new(num: i128, den: i128) -> (r: Rat)
        requires
            den != 0,
            num != i128::MIN,
            den != i128::MIN,
        ensures
            r.wf(),
            r@.eq_val(RatVal { num: num as int, den: den as int }),
            r@ == (if den >= 0 {
                RatVal { num: num as int, den: den as int }
            } else {
                RatVal { num: -(num as int), den: -(den as int) }
            }),
    {
        if den < 0 {
            proof {
                lemma_neg_eq(num as int, den as int);
            }
            Rat { num: -num, den: -den }
        } else {
            Rat { num, den }
        }
    }

    pub fn from_int(n: i64) -> (r: Rat)
        ensures
            r.wf(),
            r@ == RatVal::from_int(n as int),
    {
        Rat { num: n as i128, den: 1 }
    }
}

/// `a + b`, exactly; `None` exactly when an intermediate cross product or
/// the resulting numerator or denominator does not fit in an `i128`.
pub fn rat_add(a: &Rat, b: &Rat) -> (r: Option<Rat>)
    requires
        a.wf(),
        b.wf(),
    ensures
        r is Some <==> add_fits(a@, b@),
        r is Some ==> r.unwrap()@ == a@.add_val(b@) && r.unwrap().wf(),
{
    let n1 = a.num.checked_mul(b.den);
    if n1.is_none() {
        return None;
    }
    let n2 = b.num.checked_mul(a.den);
    if n2.is_none() {
        return None;
    }
    let num = n1.unwrap().checked_add(n2.unwrap());
    if num.is_none() {
        return None;
    }
    let den = a.den.checked_mul(b.den);
    if den.is_none() {
        return None;
    }
    proof {
        lemma_pos_mul(a@.den, b@.den);
    }
    Some(Rat { num: num.unwrap(), den: den.unwrap() })
}

/// `a - b`, exactly; `None` exactly when an intermediate cross product or
/// the resulting numerator or denominator does not fit in an `i128`.
pub fn rat_sub(a: &Rat, b: &Rat) -> (r: Option<Rat>)
    requires
        a.wf(),
        b.wf(),
    ensures
        r is Some <==> sub_fits(a@, b@),
        r is Some ==> r.unwrap()@ == a@.sub_val(b@) && r.unwrap().wf(),
{
    let n1 = a.num.checked_mul(b.den);
    if n1.is_none() {
        return None;
    }
    let n2 = b.num.checked_mul(a.den);
    if n2.is_none() {
        return None;
    }
    let num = n1.unwrap().checked_sub(n2.unwrap());
    if num.is_none() {
        return None;
    }
    let den = a.den.checked_mul(b.den);
    if den.is_none() {
        return None;
    }
    proof {
        lemma_pos_mul(a@.den, b@.den);
    }
    Some(Rat { num: num.unwrap(), den: den.unwrap() })
}

/// `a * b`, exactly; `None` exactly when the resulting numerator or
/// denominator does not fit in an `i128`.
pub fn rat_mul(a: &Rat, b: &Rat) -> (r: Option<Rat>)
    requires
        a.wf(),
        b.wf(),
    ensures
        r is Some <==> mul_fits(a@, b@),
        r is Some ==> r.unwrap()@ == a@.mul_val(b@) && r.unwrap().wf(),
{
    let num = a.num.checked_mul(b.num);
    if num.is_none() {
        return None;
    }
    let den = a.den.checked_mul(b.den);
    if den.is_none() {
        return None;
    }
    proof {
        lemma_pos_mul(a@.den, b@.den);
    }
    Some(Rat { num: num.unwrap(), den: den.unwrap() })
}

/// `a / b`, exactly, with the sign normalised onto the numerator; `None`
/// exactly when a cross product or the normalised result does not fit in
/// an `i128`.
pub fn rat_div(a: &Rat, b: &Rat) -> (r: Option<Rat>)
    requires
        a.wf(),
        b.wf(),
        b@.num != 0,
    ensures
        r is Some <==> div_fits(a@, b@),
        r is Some ==> r.unwrap()@ == a@.div_val(b@) && r.unwrap().wf(),
{
    let n1 = a.num.checked_mul(b.den);
    if n1.is_none() {
        return None;
    }
    let d1 = a.den.checked_mul(b.num);
    if d1.is_none() {
        return None;
    }
    let num0 = n1.unwrap();
    let den0 = d1.unwrap();
    if b.num >= 0 {
        proof {
            lemma_pos_mul(a@.den, b@.num);
        }
        Some(Rat { num: num0, den: den0 })
    } else {
        let num = 0i128.checked_sub(num0);
        if num.is_none() {
            return None;
        }
        let den = 0i128.checked_sub(den0);
        if den.is_none() {
            return None;
        }
        proof {
            lemma_neg_mul(a@.den, b@.num);
        }
        Some(Rat { num: num.unwrap(), den: den.unwrap() })
    }
}

/// Value equality transfers a zero numerator (denominators positive).
pub proof fn lemma_zero_transfer(a: RatVal, b: RatVal)
    by (nonlinear_arith)
    requires
        a.eq_val(b),
        a.den > 0,
        b.den > 0,
    ensures
        a.num == 0 <==> b.num == 0,
        a.num > 0 <==> b.num > 0,
{
}

/// Division respects value equality in both operands.
pub proof fn lemma_div_congruence(a: RatVal, b: RatVal, a2: RatVal, b2: RatVal)
    requires
        a.wf(),
        b.wf(),
        a2.wf(),
        b2.wf(),
        a.eq_val(a2),
        b.eq_val(b2),
        b.num != 0,
    ensures
        a.div_val(b).eq_val(a2.div_val(b2)),
{
    lemma_zero_transfer(b, b2);
    let lhs = a.div_val(b);
    let rhs = a2.div_val(b2);
    if b.num > 0 {
        assert(lhs.num * rhs.den == rhs.num * lhs.den) by (nonlinear_arith)
            requires
                a.num * a2.den == a2.num * a.den,
                b.num * b2.den == b2.num * b.den,
                lhs.num == a.num * b.den,
                lhs.den == a.den * b.num,
                rhs.num == a2.num * b2.den,
                rhs.den == a2.den * b2.num,
        ;
    } else {
        assert(lhs.num * rhs.den == (a.num * b.den) * (a2.den * b2.num)) by (nonlinear_arith)
            requires
                lhs.num == -(a.num * b.den),
                rhs.den == -(a2.den * b2.num),
        ;
        assert(rhs.num * lhs.den == (a2.num * b2.den) * (a.den * b.num)) by (nonlinear_arith)
            requires
                rhs.num == -(a2.num * b2.den),
                lhs.den == -(a.den * b.num),
        ;
        assert((a.num * b.den) * (a2.den * b2.num) == (a2.num * b2.den) * (a.den * b.num))
            by (nonlinear_arith)
            requires
                a.num * a2.den == a2.num * a.den,
                b.num * b2.den == b2.num * b.den,
        ;
    }
}

/// Euclid's algorithm: a positive common divisor of `a` and `b`.
fn gcd128(a: i128, b: i128) -> (g: i128)
    requires
        0 <= a,
        0 < b,
    ensures
        0 < g,
        a as int % g as int == 0,
        b as int % g as int == 0,
        g as int == gcd_val(a as int, b as int),
    decreases a,
{
    if a == 0 {
        proof {
            lemma_mod_self_0(b as int);
            lemma_small_mod(0nat, b as nat);
        }
        b
    } else {
        let r = b % a;
        let g = gcd128(r, a);
        proof {
            lemma_fundamental_div_mod(b as int, a as int);
            lemma_mul_mod_noop_left(a as int, b as int / a as int, g as int);
            assert((a as int % g as int) * (b as int / a as int) == 0);
            lemma_small_mod(0nat, g as nat);
            lemma_add_mod_noop(
                a as int * (b as int / a as int),
                b as int % a as int,
                g as int,
            );
        }
        g
    }
}

/// The same value in smaller terms: numerator and denominator divided by
/// their greatest common divisor. Total, and exact.
pub fn rat_reduce(a: &Rat) -> (r: Rat)
    requires
        a.wf(),
    ensures
        r.wf(),
        r@.eq_val(a@),
        r@ == reduce_val(a@),
{
    if a.num == i128::MIN {
        // The magnitude of this one numerator is not representable; the
        // value is kept as it stands.
        return *a;
    }
    let n = if a.num < 0 {
        -a.num
    } else {
        a.num
    };
    let g = gcd128(n, a.den);
    proof {
        lemma_fundamental_div_mod(n as int, g as int);
        lemma_fundamental_div_mod(a.den as int, g as int);
    }
    let qn = n / g;
    let qd = a.den / g;
    proof {
        assert(n as int == g as int * (n as int / g as int));
        assert(a.den as int == g as int * (a.den as int / g as int));
        assert(qd > 0) by (nonlinear_arith)
            requires
                a.den as int == g as int * qd as int,
                a.den > 0,
                g > 0,
        ;
    }
    let r = if a.num < 0 {
        Rat { num: -qn, den: qd }
    } else {
        Rat { num: qn, den: qd }
    };
    proof {
        assert(r@.eq_val(a@)) by (nonlinear_arith)
            requires
                n as int == g as int * qn as int,
                a.den as int == g as int * qd as int,
                (a.num < 0 ==> r@.num == -qn as int && a@.num == -(n as int)),
                (a.num >= 0 ==> r@.num == qn as int && a@.num == n as int),
                r@.den == qd as int,
                a@.den == a.den as int,
        ;
        assert(qn as int == n as int / g as int);
        assert(qd as int == a.den as int / g as int);
        assert(r@ == reduce_val(a@));
    }
    r
}

/// `a <= b` as values; `None` exactly when a cross product does not fit in
/// an `i128`.
pub fn rat_le(a: &Rat, b: &Rat) -> (r: Option<bool>)
    requires
        a.wf(),
        b.wf(),
    ensures
        r is Some <==> le_fits(a@, b@),
        r is Some ==> r.unwrap() == a@.le_val(b@),
{
    let n1 = a.num.checked_mul(b.den);
    if n1.is_none() {
        return None;
    }
    let n2 = b.num.checked_mul(a.den);
    if n2.is_none() {
        return None;
    }
    Some(n1.unwrap() <= n2.unwrap())
}

} // verus!
