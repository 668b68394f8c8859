//! Rational de Boor evaluation.
//!
//! A curve is evaluated at a parameter `u` by running de Boor's triangular
//! recursion on the homogeneous control points of the knot span containing
//! `u`, then dividing the resulting `(x, y, z, w)` by its weight `w`.
//!
//! The knot span is the largest `s` in `[degree, control_points - 1]` with
//! `knots[s] <= u`; a parameter outside the valid domain is thus evaluated
//! through the nearest valid span (extrapolation, as no bounds check is
//! performed). A zero-width knot difference contributes an interpolation
//! factor of zero.

use crate::curve::{Curve, CurveVal, HPoint, HVal};
use crate::rat::{
    add_fits, div_fits, le_fits, lemma_div_congruence, lemma_zero_transfer, mul_fits, rat_add,
    rat_div, rat_le, rat_mul, rat_reduce, rat_sub, reduce_val, sub_fits, Rat, RatVal,
};
use vstd::prelude::*;

verus! {

/// The mathematical value of an evaluated (affine) point.
pub ghost struct P3Val {
    pub x: RatVal,
    pub y: RatVal,
    pub z: RatVal,
}

/// An evaluated point in ambient space, after division by the weight.
#[derive(Clone, Copy, Debug)]
pub struct Point3 {
    pub x: Rat,
    pub y: Rat,
    pub z: Rat,
}

impl View for Point3 {
    type V = P3Val;

    open spec fn view(&self) -> P3Val {
        P3Val { x: self.x@, y: self.y@, z: self.z@ }
    }
}

impl Point3 {
    pub open spec fn wf(self) -> bool {
        self.x@.wf() && self.y@.wf() && self.z@.wf()
    }
}

/// The affine projection of a homogeneous point: each coordinate divided
/// by the weight. Meaningful only for a nonzero weight.
pub open spec fn project3_val(h: HVal) -> P3Val {
    P3Val { x: h.x.div_val(h.w), y: h.y.div_val(h.w), z: h.z.div_val(h.w) }
}

/// The knot span that the scan below selects, scanning down from index `i`:
/// the largest index in `[degree, i]` whose knot is at most `u`, or
/// `degree` when there is none.
pub open spec fn span_from(c: CurveVal, u: RatVal, i: int) -> int
    decreases i - c.degree,
{
    if i <= c.degree {
        c.degree
    } else if c.knots[i].le_val(u) {
        i
    } else {
        span_from(c, u, i - 1)
    }
}

/// The knot span used to evaluate `c` at `u`.
pub open spec fn span_of(c: CurveVal, u: RatVal) -> int {
    span_from(c, u, c.cps.len() - 1)
}

/// Linear interpolation `(1 - alpha) * a + alpha * b`, exactly.
pub open spec fn lerp_val(alpha: RatVal, a: RatVal, b: RatVal) -> RatVal {
    RatVal::from_int(1).sub_val(alpha).mul_val(a).add_val(alpha.mul_val(b))
}

/// Componentwise interpolation of homogeneous points.
pub open spec fn hlerp_val(alpha: RatVal, p: HVal, q: HVal) -> HVal {
    HVal {
        x: lerp_val(alpha, p.x, q.x),
        y: lerp_val(alpha, p.y, q.y),
        z: lerp_val(alpha, p.z, q.z),
        w: lerp_val(alpha, p.w, q.w),
    }
}

/// The interpolation factor of de Boor's recursion at span `s`, level `r`,
/// position `j`: `(u - knots[j+s-degree]) / (knots[j+1+s-r] - knots[j+s-degree])`,
/// or zero when that knot difference is zero.
pub open spec fn alpha_val(c: CurveVal, u: RatVal, s: int, r: int, j: int) -> RatVal {
    let lo = c.knots[j + s - c.degree];
    let hi = c.knots[j + 1 + s - r];
    let den = hi.sub_val(lo);
    if den.is_zero() {
        RatVal::from_int(0)
    } else {
        u.sub_val(lo).div_val(den)
    }
}

/// De Boor's triangular recursion in homogeneous space: the point at level
/// `r`, position `j`, for the evaluation of `c` at `u` over span `s`.
/// Level 0 holds the control points of the span; each level interpolates
/// two points of the level below.
pub open spec fn de_boor_point(c: CurveVal, u: RatVal, s: int, r: int, j: int) -> HVal
    decreases r,
{
    if r <= 0 {
        c.cps[j + s - c.degree]
    } else {
        hlerp_val(
            alpha_val(c, u, s, r, j),
            de_boor_point(c, u, s, r - 1, j - 1),
            de_boor_point(c, u, s, r - 1, j),
        )
    }
}

/// The homogeneous result of evaluating `c` at `u`: the top of de Boor's
/// triangle over the selected span.
pub open spec fn de_boor_h(c: CurveVal, u: RatVal) -> HVal {
    de_boor_point(c, u, span_of(c, u), c.degree, c.degree)
}

/// Exactly when every knot comparison the span scan makes, from index `i`
/// down to the selected span, fits the machine integers.
pub open spec fn span_scan_fits(c: CurveVal, u: RatVal, i: int) -> bool
    decreases i - c.degree,
{
    if i <= c.degree {
        true
    } else {
        le_fits(c.knots[i], u) && (if c.knots[i].le_val(u) {
            true
        } else {
            span_scan_fits(c, u, i - 1)
        })
    }
}

/// Exactly when computing `(1 - alpha) * a + alpha * b` stays within the
/// machine integers.
pub open spec fn lerp_fits(alpha: RatVal, a: RatVal, b: RatVal) -> bool {
    let om = RatVal::from_int(1).sub_val(alpha);
    &&& sub_fits(RatVal::from_int(1), alpha)
    &&& mul_fits(om, a)
    &&& mul_fits(alpha, b)
    &&& add_fits(om.mul_val(a), alpha.mul_val(b))
}

/// Componentwise `lerp_fits` over homogeneous points.
pub open spec fn hlerp_fits(alpha: RatVal, p: HVal, q: HVal) -> bool {
    &&& lerp_fits(alpha, p.x, q.x)
    &&& lerp_fits(alpha, p.y, q.y)
    &&& lerp_fits(alpha, p.z, q.z)
    &&& lerp_fits(alpha, p.w, q.w)
}

/// Exactly when computing the interpolation factor at span `s`, level `r`,
/// position `j` stays within the machine integers.
pub open spec fn alpha_fits(c: CurveVal, u: RatVal, s: int, r: int, j: int) -> bool {
    let lo = c.knots[j + s - c.degree];
    let hi = c.knots[j + 1 + s - r];
    let den = hi.sub_val(lo);
    &&& sub_fits(hi, lo)
    &&& (!den.is_zero() ==> sub_fits(u, lo) && div_fits(u.sub_val(lo), den))
}

/// Exactly when every operation of de Boor's triangle below level `r`,
/// position `j` stays within the machine integers.
pub open spec fn triangle_fits(c: CurveVal, u: RatVal, s: int, r: int, j: int) -> bool
    decreases r,
{
    if r <= 0 {
        true
    } else {
        &&& triangle_fits(c, u, s, r - 1, j - 1)
        &&& triangle_fits(c, u, s, r - 1, j)
        &&& alpha_fits(c, u, s, r, j)
        &&& hlerp_fits(
            alpha_val(c, u, s, r, j),
            de_boor_point(c, u, s, r - 1, j - 1),
            de_boor_point(c, u, s, r - 1, j),
        )
    }
}

/// Exactly when dividing the homogeneous result by its weight, in reduced
/// terms, stays within the machine integers.
pub open spec fn projection_fits(h: HVal) -> bool {
    let wr = reduce_val(h.w);
    &&& div_fits(reduce_val(h.x), wr)
    &&& div_fits(reduce_val(h.y), wr)
    &&& div_fits(reduce_val(h.z), wr)
}

/// Exactly when every step of evaluating `c` at `u` — the span scan, de
/// Boor's triangle, and the final projection in reduced terms — stays
/// within the machine integers.
pub open spec fn eval_fits(c: CurveVal, u: RatVal) -> bool {
    &&& span_scan_fits(c, u, c.cps.len() - 1)
    &&& triangle_fits(c, u, span_of(c, u), c.degree, c.degree)
    &&& projection_fits(de_boor_h(c, u))
}

/// Everything de Boor's triangle computes at or below `(r, j)` is also
/// computed at or below any `(r0, j0)` in its cone, so a triangle whose
/// top fits has every inner point fit.
proof fn lemma_triangle_cone(c: CurveVal, u: RatVal, s: int, r: int, j: int, r0: int, j0: int)
    requires
        triangle_fits(c, u, s, r, j),
        0 <= r0 <= r,
        j - (r - r0) <= j0 <= j,
    ensures
        triangle_fits(c, u, s, r0, j0),
    decreases r - r0,
{
    if r0 < r {
        if j0 >= j - (r - 1 - r0) {
            lemma_triangle_cone(c, u, s, r - 1, j, r0, j0);
        } else {
            lemma_triangle_cone(c, u, s, r - 1, j - 1, r0, j0);
        }
    }
}

/// A failing step inside the triangle makes the whole triangle unfit.
proof fn lemma_step_unfit(c: CurveVal, u: RatVal, s: int, r: int, j: int)
    requires
        !triangle_fits(c, u, s, r, j),
        0 <= r <= j <= c.degree,
    ensures
        !triangle_fits(c, u, s, c.degree, c.degree),
{
    if triangle_fits(c, u, s, c.degree, c.degree) {
        lemma_triangle_cone(c, u, s, c.degree, c.degree, r, j);
    }
}

/// Finds the knot span for `u`: the largest `s` in
/// `[degree, control_points - 1]` with `knots[s] <= u`, or `degree` when
/// there is none. `None` only when a knot comparison leaves the
/// fixed-width integer range.
#[verifier::loop_isolation(false)]
fn find_span(curve: &Curve, u: &Rat) -> (res: Option<usize>)
    requires
        curve.wf(),
        u.wf(),
    ensures
        res is Some ==> res.unwrap() as int == span_of(curve@, u@) && curve@.degree <= res.unwrap()
            as int && (res.unwrap() as int) < curve@.cps.len(),
        res is None ==> !span_scan_fits(curve@, u@, curve@.cps.len() - 1),
        res is Some ==> span_scan_fits(curve@, u@, curve@.cps.len() - 1),
{
    let n = curve.num_control_points();
    let p = curve.degree();
    let mut i: usize = n - 1;
    while i > p
        invariant
            p <= i <= n - 1,
            span_from(curve@, u@, n - 1) == span_from(curve@, u@, i as int),
            span_scan_fits(curve@, u@, n - 1) == span_scan_fits(curve@, u@, i as int),
        decreases i,
    {
        let k = curve.knot(i);
        let le = rat_le(&k, u);
        if le.is_none() {
            proof {
                assert(!le_fits(curve@.knots[i as int], u@));
                assert(!span_scan_fits(curve@, u@, i as int));
            }
            return None;
        }
        if le.unwrap() {
            return Some(i);
        }
        i = i - 1;
    }
    Some(p)
}

/// Interpolates `(1 - alpha) * a + alpha * b`, exactly; `None` when an
/// intermediate value leaves the fixed-width integer range.
fn rat_lerp(alpha: &Rat, a: &Rat, b: &Rat) -> (res: Option<Rat>)
    requires
        alpha.wf(),
        a.wf(),
        b.wf(),
    ensures
        res is Some <==> lerp_fits(alpha@, a@, b@),
        res is Some ==> res.unwrap()@ == lerp_val(alpha@, a@, b@) && res.unwrap().wf(),
{
    let one = Rat::from_int(1);
    let om = rat_sub(&one, alpha);
    if om.is_none() {
        return None;
    }
    let t1 = rat_mul(&om.unwrap(), a);
    if t1.is_none() {
        return None;
    }
    let t2 = rat_mul(alpha, b);
    if t2.is_none() {
        return None;
    }
    rat_add(&t1.unwrap(), &t2.unwrap())
}

/// Componentwise interpolation of homogeneous points, exactly; `None` when
/// an intermediate value leaves the fixed-width integer range.
fn hpoint_lerp(alpha: &Rat, p: &HPoint, q: &HPoint) -> (res: Option<HPoint>)
    requires
        alpha.wf(),
        p.wf(),
        q.wf(),
    ensures
        res is Some <==> hlerp_fits(alpha@, p@, q@),
        res is Some ==> res.unwrap()@ == hlerp_val(alpha@, p@, q@) && res.unwrap().wf(),
{
    let x = rat_lerp(alpha, &p.x, &q.x);
    if x.is_none() {
        return None;
    }
    let y = rat_lerp(alpha, &p.y, &q.y);
    if y.is_none() {
        return None;
    }
    let z = rat_lerp(alpha, &p.z, &q.z);
    if z.is_none() {
        return None;
    }
    let w = rat_lerp(alpha, &p.w, &q.w);
    if w.is_none() {
        return None;
    }
    Some(HPoint { x: x.unwrap(), y: y.unwrap(), z: z.unwrap(), w: w.unwrap() })
}

/// Evaluates the curve at parameter `u`: de Boor's recursion in
/// homogeneous space over the selected knot span, then division by the
/// resulting weight. Pure in `(curve, u)`. `None` only when an
/// intermediate value leaves the fixed-width integer range (`eval_fits`)
/// or the resulting weight is zero — on every other input a point is owed.
#[verifier::loop_isolation(false)]
#[verifier::rlimit(100)]
pub fn de_boor(curve: &Curve, u: &Rat) -> (res: Option<Point3>)
    requires
        curve.wf(),
        u.wf(),
    ensures
        res is Some ==> ({
            let h = de_boor_h(curve@, u@);
            &&& !h.w.is_zero()
            &&& res.unwrap()@.x.eq_val(project3_val(h).x)
            &&& res.unwrap()@.y.eq_val(project3_val(h).y)
            &&& res.unwrap()@.z.eq_val(project3_val(h).z)
            &&& res.unwrap().wf()
        }),
        res is Some ==> eval_fits(curve@, u@),
        res is None ==> !eval_fits(curve@, u@) || de_boor_h(curve@, u@).w.is_zero(),
{
    let span = find_span(curve, u);
    if span.is_none() {
        proof {
            assert(!eval_fits(curve@, u@));
        }
        return None;
    }
    let s = span.unwrap();
    let p = curve.degree();
    let nk = curve.num_knots();

    let mut d: Vec<HPoint> = Vec::new();
    let mut j: usize = 0;
    while j <= p
        invariant
            d@.len() == j,
            0 <= j <= p + 1,
            forall|m: int| 0 <= m < j ==> (#[trigger] d@[m])@ == curve@.cps[m + s - p],
            forall|m: int| 0 <= m < j ==> (#[trigger] d@[m])@.wf(),
        decreases p + 1 - j,
    {
        let cp = curve.control_point(s - p + j);
        d.push(cp);
        j = j + 1;
    }

    let mut lvl: usize = 1;
    while lvl <= p
        invariant
            d@.len() == p + 1,
            1 <= lvl <= p + 1,
            forall|m: int|
                lvl - 1 <= m <= p ==> (#[trigger] d@[m])@ == de_boor_point(
                    curve@,
                    u@,
                    s as int,
                    lvl - 1,
                    m,
                ),
            forall|m: int| lvl - 1 <= m <= p ==> (#[trigger] d@[m])@.wf(),
            forall|m: int|
                lvl - 1 <= m <= p ==> #[trigger] triangle_fits(curve@, u@, s as int, lvl - 1, m),
        decreases p + 1 - lvl,
    {
        let mut j: usize = p;
        while j >= lvl
            invariant
                d@.len() == p + 1,
                1 <= lvl <= p,
                lvl - 1 <= j <= p,
                forall|m: int|
                    j < m <= p ==> (#[trigger] d@[m])@ == de_boor_point(
                        curve@,
                        u@,
                        s as int,
                        lvl as int,
                        m,
                    ),
                forall|m: int|
                    lvl - 1 <= m <= j ==> (#[trigger] d@[m])@ == de_boor_point(
                        curve@,
                        u@,
                        s as int,
                        lvl - 1,
                        m,
                    ),
                forall|m: int| lvl - 1 <= m <= p ==> (#[trigger] d@[m])@.wf(),
                forall|m: int|
                    lvl - 1 <= m <= p ==> #[trigger] triangle_fits(
                        curve@,
                        u@,
                        s as int,
                        lvl - 1,
                        m,
                    ),
                forall|m: int|
                    j < m <= p ==> #[trigger] triangle_fits(curve@, u@, s as int, lvl as int, m),
            decreases j,
        {
            assert(lvl <= s && p <= s);
            assert(s - lvl + j + 1 < curve@.knots.len());
            assert(curve@.knots.len() == nk as int);
            let lo = curve.knot(s - p + j);
            let hi = curve.knot(s - lvl + j + 1);
            assert(lo@ == curve@.knots[j + s - p]);
            assert(hi@ == curve@.knots[j + 1 + s - lvl]);
            let den = rat_sub(&hi, &lo);
            if den.is_none() {
                proof {
                    assert(!alpha_fits(curve@, u@, s as int, lvl as int, j as int));
                    assert(!triangle_fits(curve@, u@, s as int, lvl as int, j as int));
                    lemma_step_unfit(curve@, u@, s as int, lvl as int, j as int);
                    assert(!eval_fits(curve@, u@));
                }
                return None;
            }
            let alpha: Rat;
            if den.unwrap().num == 0 {
                alpha = Rat::from_int(0);
            } else {
                let diff = rat_sub(u, &lo);
                if diff.is_none() {
                    proof {
                        assert(!alpha_fits(curve@, u@, s as int, lvl as int, j as int));
                        assert(!triangle_fits(curve@, u@, s as int, lvl as int, j as int));
                        lemma_step_unfit(curve@, u@, s as int, lvl as int, j as int);
                        assert(!eval_fits(curve@, u@));
                    }
                    return None;
                }
                let q = rat_div(&diff.unwrap(), &den.unwrap());
                if q.is_none() {
                    proof {
                        assert(!alpha_fits(curve@, u@, s as int, lvl as int, j as int));
                        assert(!triangle_fits(curve@, u@, s as int, lvl as int, j as int));
                        lemma_step_unfit(curve@, u@, s as int, lvl as int, j as int);
                        assert(!eval_fits(curve@, u@));
                    }
                    return None;
                }
                alpha = q.unwrap();
            }
            assert(alpha@ == alpha_val(curve@, u@, s as int, lvl as int, j as int));
            let stepped = hpoint_lerp(&alpha, &d[j - 1], &d[j]);
            if stepped.is_none() {
                proof {
                    assert(!hlerp_fits(
                        alpha_val(curve@, u@, s as int, lvl as int, j as int),
                        de_boor_point(curve@, u@, s as int, lvl - 1, j - 1),
                        de_boor_point(curve@, u@, s as int, lvl - 1, j as int),
                    ));
                    assert(!triangle_fits(curve@, u@, s as int, lvl as int, j as int));
                    lemma_step_unfit(curve@, u@, s as int, lvl as int, j as int);
                    assert(!eval_fits(curve@, u@));
                }
                return None;
            }
            let np = stepped.unwrap();
            assert(np@ == de_boor_point(curve@, u@, s as int, lvl as int, j as int));
            proof {
                assert(alpha_fits(curve@, u@, s as int, lvl as int, j as int));
                assert(triangle_fits(curve@, u@, s as int, lvl - 1, j - 1));
                assert(triangle_fits(curve@, u@, s as int, lvl - 1, j as int));
                assert(hlerp_fits(
                    alpha_val(curve@, u@, s as int, lvl as int, j as int),
                    de_boor_point(curve@, u@, s as int, lvl - 1, j - 1),
                    de_boor_point(curve@, u@, s as int, lvl - 1, j as int),
                ));
                assert(triangle_fits(curve@, u@, s as int, lvl as int, j as int));
            }
            d.set(j, np);
            j = j - 1;
        }
        lvl = lvl + 1;
    }

    let hp = d[p];
    assert(hp@ == de_boor_h(curve@, u@));
    // Divide in smallest terms: the triangle's exact values carry large
    // common factors in numerator and denominator.
    let xr = rat_reduce(&hp.x);
    let yr = rat_reduce(&hp.y);
    let zr = rat_reduce(&hp.z);
    let wr = rat_reduce(&hp.w);
    if wr.num == 0 {
        proof {
            lemma_zero_transfer(wr@, hp.w@);
            assert(de_boor_h(curve@, u@).w.is_zero());
        }
        return None;
    }
    proof {
        lemma_zero_transfer(wr@, hp.w@);
        lemma_div_congruence(xr@, wr@, hp.x@, hp.w@);
        lemma_div_congruence(yr@, wr@, hp.y@, hp.w@);
        lemma_div_congruence(zr@, wr@, hp.z@, hp.w@);
    }
    let x = rat_div(&xr, &wr);
    if x.is_none() {
        proof {
            assert(!projection_fits(hp@));
            assert(!eval_fits(curve@, u@));
        }
        return None;
    }
    let y = rat_div(&yr, &wr);
    if y.is_none() {
        proof {
            assert(!projection_fits(hp@));
            assert(!eval_fits(curve@, u@));
        }
        return None;
    }
    let z = rat_div(&zr, &wr);
    if z.is_none() {
        proof {
            assert(!projection_fits(hp@));
            assert(!eval_fits(curve@, u@));
        }
        return None;
    }
    proof {
        assert(triangle_fits(curve@, u@, s as int, curve@.degree, curve@.degree));
        assert(projection_fits(hp@));
        assert(eval_fits(curve@, u@));
    }
    Some(Point3 { x: x.unwrap(), y: y.unwrap(), z: z.unwrap() })
}

} // verus!
