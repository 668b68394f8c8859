//! Relations between the library's operations, stated and proved over the
//! mathematical values: uniform scaling commutes with evaluation and with
//! sampling.

use crate::curve::{CurveVal, HVal};
use crate::eval::{
    alpha_val, de_boor_h, de_boor_point, lerp_val, project3_val, span_from, span_of,
};
use crate::rat::{
    lemma_add_congruence, lemma_div_scales, lemma_eq_val_trans, lemma_mul_congruence,
    lemma_mul_distributes, lemma_mul_swap, lemma_neg_mul, lemma_pos_mul, RatVal,
};
use crate::sample::sample_param;
use vstd::prelude::*;

verus! {

/// Scaling keeps a curve well formed: knots are untouched and the scaled
/// coordinates keep positive denominators.
pub proof fn lemma_scaled_wf(c: CurveVal, f: RatVal)
    requires
        c.wf(),
        f.wf(),
    ensures
        c.scaled(f).wf(),
        c.scaled(f).cps.len() == c.cps.len(),
        c.scaled(f).knots == c.knots,
        c.scaled(f).degree == c.degree,
{
    let cs = c.scaled(f);
    assert forall|i: int| 0 <= i < cs.cps.len() implies (#[trigger] cs.cps[i]).wf() by {
        assert(c.cps[i].wf());
        lemma_pos_mul(c.cps[i].x.den, f.den);
        lemma_pos_mul(c.cps[i].y.den, f.den);
        lemma_pos_mul(c.cps[i].z.den, f.den);
    }
}

/// Scaling does not move the selected knot span: the scan reads only the
/// knots and the degree, which scaling keeps.
pub proof fn lemma_span_scaled(c: CurveVal, f: RatVal, u: RatVal, i: int)
    ensures
        span_from(c.scaled(f), u, i) == span_from(c, u, i),
    decreases i - c.degree,
{
    if i <= c.degree {
    } else if c.knots[i].le_val(u) {
    } else {
        lemma_span_scaled(c, f, u, i - 1);
    }
}

/// The scan that selects a knot span stays within `[degree, i]` (and
/// returns `degree` when `i` lies below it).
pub proof fn lemma_span_bounds(c: CurveVal, u: RatVal, i: int)
    ensures
        c.degree <= span_from(c, u, i),
        span_from(c, u, i) <= i || span_from(c, u, i) == c.degree,
    decreases i - c.degree,
{
    if i <= c.degree {
    } else if c.knots[i].le_val(u) {
    } else {
        lemma_span_bounds(c, u, i - 1);
    }
}

/// The interpolation factor of de Boor's recursion is well formed whenever
/// the knots it reads are.
proof fn lemma_alpha_wf(c: CurveVal, u: RatVal, s: int, r: int, j: int)
    requires
        c.wf(),
        u.wf(),
        0 <= j + s - c.degree < c.knots.len(),
        0 <= j + 1 + s - r < c.knots.len(),
    ensures
        alpha_val(c, u, s, r, j).wf(),
{
    let lo = c.knots[j + s - c.degree];
    let hi = c.knots[j + 1 + s - r];
    let den = hi.sub_val(lo);
    lemma_pos_mul(hi.den, lo.den);
    if !den.is_zero() {
        let diff = u.sub_val(lo);
        lemma_pos_mul(u.den, lo.den);
        if den.num >= 0 {
            lemma_pos_mul(diff.den, den.num);
        } else {
            lemma_neg_mul(diff.den, den.num);
        }
    }
}

/// Interpolation of well-formed values is well formed.
proof fn lemma_lerp_wf(alpha: RatVal, a: RatVal, b: RatVal)
    requires
        alpha.wf(),
        a.wf(),
        b.wf(),
    ensures
        lerp_val(alpha, a, b).wf(),
{
    let om = RatVal::from_int(1).sub_val(alpha);
    assert(om.den == 1 * alpha.den);
    lemma_pos_mul(om.den, a.den);
    lemma_pos_mul(alpha.den, b.den);
    lemma_pos_mul(om.den * a.den, alpha.den * b.den);
}

/// Every point of de Boor's triangle is well formed, as long as the level
/// and position address control points of the selected span.
proof fn lemma_de_boor_point_wf(c: CurveVal, u: RatVal, s: int, r: int, j: int)
    requires
        c.wf(),
        u.wf(),
        c.degree <= s < c.cps.len(),
        0 <= r <= j,
        j + s - c.degree < c.cps.len(),
        j - r + s - c.degree >= 0,
    ensures
        de_boor_point(c, u, s, r, j).wf(),
    decreases r,
{
    if r <= 0 {
        assert(c.cps[j + s - c.degree].wf());
    } else {
        lemma_de_boor_point_wf(c, u, s, r - 1, j - 1);
        lemma_de_boor_point_wf(c, u, s, r - 1, j);
        lemma_alpha_wf(c, u, s, r, j);
        let alpha = alpha_val(c, u, s, r, j);
        let a = de_boor_point(c, u, s, r - 1, j - 1);
        let b = de_boor_point(c, u, s, r - 1, j);
        lemma_lerp_wf(alpha, a.x, b.x);
        lemma_lerp_wf(alpha, a.y, b.y);
        lemma_lerp_wf(alpha, a.z, b.z);
        lemma_lerp_wf(alpha, a.w, b.w);
    }
}

/// Interpolation respects a common scale factor: if both inputs equal `f`
/// times reference values, the interpolated value equals `f` times the
/// interpolated reference.
proof fn lemma_lerp_scales(
    alpha: RatVal,
    f: RatVal,
    a: RatVal,
    b: RatVal,
    a2: RatVal,
    b2: RatVal,
)
    requires
        alpha.wf(),
        f.wf(),
        a.wf(),
        b.wf(),
        a2.wf(),
        b2.wf(),
        a2.eq_val(f.mul_val(a)),
        b2.eq_val(f.mul_val(b)),
    ensures
        lerp_val(alpha, a2, b2).eq_val(f.mul_val(lerp_val(alpha, a, b))),
{
    let om = RatVal::from_int(1).sub_val(alpha);
    assert(om.den == 1 * alpha.den);
    lemma_mul_congruence(a2, om, f.mul_val(a));
    lemma_mul_swap(om, f, a);
    lemma_mul_congruence(b2, alpha, f.mul_val(b));
    lemma_mul_swap(alpha, f, b);
    lemma_add_congruence(
        om.mul_val(a2),
        alpha.mul_val(b2),
        f.mul_val(om.mul_val(a)),
        f.mul_val(alpha.mul_val(b)),
    );
    lemma_mul_distributes(f, om.mul_val(a), alpha.mul_val(b));
    let mid = f.mul_val(om.mul_val(a)).add_val(f.mul_val(alpha.mul_val(b)));
    lemma_pos_mul(om.den, a.den);
    lemma_pos_mul(alpha.den, b.den);
    lemma_pos_mul(f.den, om.den * a.den);
    lemma_pos_mul(f.den, alpha.den * b.den);
    lemma_pos_mul(f.den * (om.den * a.den), f.den * (alpha.den * b.den));
    lemma_eq_val_trans(lerp_val(alpha, a2, b2), mid, f.mul_val(lerp_val(alpha, a, b)));
}

/// Scaling the control points scales de Boor's triangle pointwise: the
/// weight component is untouched and each positional component is `f`
/// times the unscaled one.
proof fn lemma_scaled_de_boor_point(c: CurveVal, f: RatVal, u: RatVal, s: int, r: int, j: int)
    requires
        c.wf(),
        f.wf(),
        u.wf(),
        c.degree <= s < c.cps.len(),
        0 <= r <= j,
        j + s - c.degree < c.cps.len(),
        j - r + s - c.degree >= 0,
    ensures
        de_boor_point(c.scaled(f), u, s, r, j).w == de_boor_point(c, u, s, r, j).w,
        de_boor_point(c.scaled(f), u, s, r, j).x.eq_val(f.mul_val(de_boor_point(c, u, s, r, j).x)),
        de_boor_point(c.scaled(f), u, s, r, j).y.eq_val(f.mul_val(de_boor_point(c, u, s, r, j).y)),
        de_boor_point(c.scaled(f), u, s, r, j).z.eq_val(f.mul_val(de_boor_point(c, u, s, r, j).z)),
    decreases r,
{
    let cs = c.scaled(f);
    lemma_scaled_wf(c, f);
    if r <= 0 {
        let idx = j + s - c.degree;
        assert(cs.cps[idx] == (HVal {
            x: c.cps[idx].x.mul_val(f),
            y: c.cps[idx].y.mul_val(f),
            z: c.cps[idx].z.mul_val(f),
            w: c.cps[idx].w,
        }));
        lemma_mul_swap(c.cps[idx].x, f, f);
        lemma_mul_swap(c.cps[idx].y, f, f);
        lemma_mul_swap(c.cps[idx].z, f, f);
        assert(cs.cps[idx].x == f.mul_val(c.cps[idx].x));
        assert(cs.cps[idx].y == f.mul_val(c.cps[idx].y));
        assert(cs.cps[idx].z == f.mul_val(c.cps[idx].z));
    } else {
        lemma_scaled_de_boor_point(c, f, u, s, r - 1, j - 1);
        lemma_scaled_de_boor_point(c, f, u, s, r - 1, j);
        assert(alpha_val(cs, u, s, r, j) == alpha_val(c, u, s, r, j));
        let alpha = alpha_val(c, u, s, r, j);
        lemma_alpha_wf(c, u, s, r, j);
        lemma_de_boor_point_wf(c, u, s, r - 1, j - 1);
        lemma_de_boor_point_wf(c, u, s, r - 1, j);
        lemma_de_boor_point_wf(cs, u, s, r - 1, j - 1);
        lemma_de_boor_point_wf(cs, u, s, r - 1, j);
        let a1 = de_boor_point(c, u, s, r - 1, j - 1);
        let b1 = de_boor_point(c, u, s, r - 1, j);
        let a2 = de_boor_point(cs, u, s, r - 1, j - 1);
        let b2 = de_boor_point(cs, u, s, r - 1, j);
        lemma_lerp_scales(alpha, f, a1.x, b1.x, a2.x, b2.x);
        lemma_lerp_scales(alpha, f, a1.y, b1.y, a2.y, b2.y);
        lemma_lerp_scales(alpha, f, a1.z, b1.z, a2.z, b2.z);
    }
}

/// Uniform scaling commutes with evaluation: scaling a curve by `f` and
/// evaluating gives, at every parameter, the same weight and exactly `f`
/// times each positional coordinate of the unscaled evaluation — both for
/// the homogeneous result and, when the weight is nonzero, for the
/// projected point.
pub proof fn lemma_uniform_scale_evaluation(c: CurveVal, f: RatVal, u: RatVal)
    requires
        c.wf(),
        f.wf(),
        u.wf(),
    ensures
        de_boor_h(c.scaled(f), u).w == de_boor_h(c, u).w,
        de_boor_h(c.scaled(f), u).x.eq_val(f.mul_val(de_boor_h(c, u).x)),
        de_boor_h(c.scaled(f), u).y.eq_val(f.mul_val(de_boor_h(c, u).y)),
        de_boor_h(c.scaled(f), u).z.eq_val(f.mul_val(de_boor_h(c, u).z)),
        !de_boor_h(c, u).w.is_zero() ==> {
            let h2 = de_boor_h(c.scaled(f), u);
            let h1 = de_boor_h(c, u);
            &&& project3_val(h2).x.eq_val(f.mul_val(project3_val(h1).x))
            &&& project3_val(h2).y.eq_val(f.mul_val(project3_val(h1).y))
            &&& project3_val(h2).z.eq_val(f.mul_val(project3_val(h1).z))
        },
{
    let cs = c.scaled(f);
    lemma_scaled_wf(c, f);
    lemma_span_scaled(c, f, u, c.cps.len() - 1);
    assert(cs.cps.len() == c.cps.len());
    let s = span_of(c, u);
    assert(span_of(cs, u) == s);
    lemma_span_bounds(c, u, c.cps.len() - 1);
    assert(c.degree <= s < c.cps.len());
    lemma_scaled_de_boor_point(c, f, u, s, c.degree, c.degree);
    if !de_boor_h(c, u).w.is_zero() {
        let h2 = de_boor_h(cs, u);
        let h1 = de_boor_h(c, u);
        lemma_div_scales(h2.x, h1.x, f, h1.w);
        lemma_div_scales(h2.y, h1.y, f, h1.w);
        lemma_div_scales(h2.z, h1.z, f, h1.w);
    }
}

/// The polyline's ends are the domain's ends: the first sample parameter
/// is `min_u` and the last is `max_u`, so the first and last sampled
/// points are the projected evaluations at the domain bounds.
pub proof fn lemma_sample_param_ends(c: CurveVal, n: int)
    requires
        n >= 1,
    ensures
        sample_param(c, n, 0) == c.min_u(),
        sample_param(c, n, n) == c.max_u(),
{
}

/// Uniform scaling does not move the sample parameters: the knot vector,
/// and with it the parameter domain, is untouched.
pub proof fn lemma_scaled_sample_param(c: CurveVal, f: RatVal, n: int, i: int)
    ensures
        sample_param(c.scaled(f), n, i) == sample_param(c, n, i),
{
    assert(c.scaled(f).cps.len() == c.cps.len());
    assert(c.scaled(f).min_u() == c.min_u());
    assert(c.scaled(f).max_u() == c.max_u());
}

} // verus!
