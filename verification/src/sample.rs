//! Polyline sampling and control-polygon extraction.
//!
//! `sample_polyline` walks the parameter domain at uniform steps
//! `u_i = min_u + i * (max_u - min_u) / n` for `i = 0..=n` and collects the
//! evaluated points, projected to 2D, in increasing order; the first point
//! is taken at `min_u` and the last at `max_u` exactly. A sample count of
//! zero is rejected with `InvalidSampleCount`, since it would yield a
//! single point and no segment; `sampling_fits` says exactly when a
//! polyline is owed.
//!
//! `control_polygon` projects each control point's `(x, y)` — ignoring
//! weight and `z` — in the original order.

use crate::curve::{Curve, CurveVal};
use crate::eval::{de_boor, de_boor_h, eval_fits};
use crate::rat::{
    add_fits, div_fits, mul_fits, rat_add, rat_div, rat_mul, rat_sub, sub_fits, Rat, RatVal,
};
use vstd::prelude::*;

verus! {

/// The mathematical value of a planar point.
pub ghost struct P2Val {
    pub x: RatVal,
    pub y: RatVal,
}

/// A planar point, as handed to a renderer.
#[derive(Clone, Copy, Debug)]
pub struct Point2 {
    pub x: Rat,
    pub y: Rat,
}

impl View for Point2 {
    type V = P2Val;

    open spec fn view(&self) -> P2Val {
        P2Val { x: self.x@, y: self.y@ }
    }
}

/// The parameter of the `i`-th sample out of `n` divisions:
/// `min_u + i * (max_u - min_u) / n`, taken exactly at the domain ends for
/// `i = 0` and `i = n`.
pub open spec fn sample_param(c: CurveVal, n: int, i: int) -> RatVal {
    if i == 0 {
        c.min_u()
    } else if i == n {
        c.max_u()
    } else {
        c.min_u().add_val(
            RatVal::from_int(i).mul_val(c.max_u().sub_val(c.min_u())).div_val(
                RatVal::from_int(n),
            ),
        )
    }
}

/// What one sampled point must be: the homogeneous evaluation at the
/// sample parameter has a nonzero weight, and the point is its affine
/// `(x, y)` projection.
pub open spec fn is_sample_point(c: CurveVal, n: int, i: int, pt: P2Val) -> bool {
    let h = de_boor_h(c, sample_param(c, n, i));
    &&& !h.w.is_zero()
    &&& pt.x.eq_val(h.x.div_val(h.w))
    &&& pt.y.eq_val(h.y.div_val(h.w))
}

/// Why sampling was refused.
#[derive(Clone, Copy, Debug, PartialEq, Eq, Structural)]
pub enum SampleError {
    /// A sample count of zero: a single point and no segment.
    InvalidSampleCount,
    /// Some intermediate value left the fixed-width integer range, or an
    /// evaluated weight was zero.
    OutOfRange,
}

/// Exactly when computing the `i`-th sample parameter stays within the
/// machine integers (the ends are taken directly from the knot vector).
pub open spec fn param_fits(c: CurveVal, n: int, i: int) -> bool {
    if i == 0 || i == n {
        true
    } else {
        let range = c.max_u().sub_val(c.min_u());
        let prod = RatVal::from_int(i).mul_val(range);
        &&& mul_fits(RatVal::from_int(i), range)
        &&& div_fits(prod, RatVal::from_int(n))
        &&& add_fits(c.min_u(), prod.div_val(RatVal::from_int(n)))
    }
}

/// Exactly when the whole sampling of `c` at `n` divisions is owed a
/// polyline: the domain width, every sample parameter, and every
/// evaluation stay within the machine integers, and every evaluated
/// weight is nonzero.
pub open spec fn sampling_fits(c: CurveVal, n: int) -> bool {
    &&& sub_fits(c.max_u(), c.min_u())
    &&& forall|i: int| 0 <= i <= n ==> #[trigger] param_fits(c, n, i)
    &&& forall|i: int| 0 <= i <= n ==> eval_fits(c, #[trigger] sample_param(c, n, i))
    &&& forall|i: int| 0 <= i <= n ==> !de_boor_h(c, #[trigger] sample_param(c, n, i)).w.is_zero()
}

/// Samples the curve at `n + 1` uniformly spaced parameters across its
/// domain and returns the resulting polyline, in increasing parameter
/// order. The first point is the evaluation at `min_u`, the last the
/// evaluation at `max_u`. A sample count of zero is refused with
/// `InvalidSampleCount`; `OutOfRange` comes only when some value of the
/// sampling leaves the fixed-width integer range or an evaluated weight is
/// zero — on every other input a polyline is owed.
#[verifier::loop_isolation(false)]
pub fn sample_polyline(curve: &Curve, n_divisions: usize) -> (res: Result<Vec<Point2>, SampleError>)
    requires
        curve.wf(),
        n_divisions <= i64::MAX,
        n_divisions < usize::MAX,
    ensures
        res matches Err(SampleError::InvalidSampleCount) <==> n_divisions == 0,
        res matches Err(SampleError::OutOfRange) ==> !sampling_fits(curve@, n_divisions as int),
        res is Ok <==> n_divisions >= 1 && sampling_fits(curve@, n_divisions as int),
        res matches Ok(v) ==> v@.len() == n_divisions + 1,
        res matches Ok(v) ==> forall|i: int|
            0 <= i <= n_divisions ==> is_sample_point(
                curve@,
                n_divisions as int,
                i,
                (#[trigger] v@[i])@,
            ),
{
    if n_divisions == 0 {
        return Err(SampleError::InvalidSampleCount);
    }
    let min = curve.min_u();
    let max = curve.max_u();
    let range = rat_sub(&max, &min);
    if range.is_none() {
        proof {
            assert(!sampling_fits(curve@, n_divisions as int));
        }
        return Err(SampleError::OutOfRange);
    }
    let n_rat = Rat::from_int(n_divisions as i64);
    assert(n_rat@ == RatVal::from_int(n_divisions as int));

    let mut pts: Vec<Point2> = Vec::new();
    let mut i: usize = 0;
    while i <= n_divisions
        invariant
            pts@.len() == i,
            0 <= i <= n_divisions + 1,
            range.unwrap().wf(),
            range.unwrap()@ == curve@.max_u().sub_val(curve@.min_u()),
            forall|m: int|
                0 <= m < i ==> is_sample_point(
                    curve@,
                    n_divisions as int,
                    m,
                    (#[trigger] pts@[m])@,
                ),
            forall|m: int| 0 <= m < i ==> #[trigger] param_fits(curve@, n_divisions as int, m),
            forall|m: int|
                0 <= m < i ==> eval_fits(
                    curve@,
                    #[trigger] sample_param(curve@, n_divisions as int, m),
                ),
            forall|m: int|
                0 <= m < i ==> !de_boor_h(
                    curve@,
                    #[trigger] sample_param(curve@, n_divisions as int, m),
                ).w.is_zero(),
        decreases n_divisions + 1 - i,
    {
        let u: Rat;
        if i == 0 {
            u = min;
        } else if i == n_divisions {
            u = max;
        } else {
            let ir = Rat::from_int(i as i64);
            let num = rat_mul(&ir, &range.unwrap());
            if num.is_none() {
                proof {
                    assert(!param_fits(curve@, n_divisions as int, i as int));
                    assert(!sampling_fits(curve@, n_divisions as int));
                }
                return Err(SampleError::OutOfRange);
            }
            let frac = rat_div(&num.unwrap(), &n_rat);
            if frac.is_none() {
                proof {
                    assert(!param_fits(curve@, n_divisions as int, i as int));
                    assert(!sampling_fits(curve@, n_divisions as int));
                }
                return Err(SampleError::OutOfRange);
            }
            let shifted = rat_add(&min, &frac.unwrap());
            if shifted.is_none() {
                proof {
                    assert(!param_fits(curve@, n_divisions as int, i as int));
                    assert(!sampling_fits(curve@, n_divisions as int));
                }
                return Err(SampleError::OutOfRange);
            }
            u = shifted.unwrap();
        }
        assert(u@ == sample_param(curve@, n_divisions as int, i as int));
        let pt = de_boor(curve, &u);
        if pt.is_none() {
            proof {
                assert(!eval_fits(curve@, sample_param(curve@, n_divisions as int, i as int))
                    || de_boor_h(
                    curve@,
                    sample_param(curve@, n_divisions as int, i as int),
                ).w.is_zero());
                assert(!sampling_fits(curve@, n_divisions as int));
            }
            return Err(SampleError::OutOfRange);
        }
        proof {
            assert(param_fits(curve@, n_divisions as int, i as int));
            assert(eval_fits(curve@, sample_param(curve@, n_divisions as int, i as int)));
        }
        let p3 = pt.unwrap();
        pts.push(Point2 { x: p3.x, y: p3.y });
        i = i + 1;
    }
    proof {
        assert(sampling_fits(curve@, n_divisions as int));
    }
    Ok(pts)
}

/// The control polygon: each control point's `(x, y)`, ignoring weight and
/// `z`, in the original control-point order.
#[verifier::loop_isolation(false)]
pub fn control_polygon(curve: &Curve) -> (res: Vec<Point2>)
    ensures
        res@.len() == curve@.cps.len(),
        forall|i: int|
            0 <= i < curve@.cps.len() ==> (#[trigger] res@[i])@ == (P2Val {
                x: curve@.cps[i].x,
                y: curve@.cps[i].y,
            }),
{
    let n = curve.num_control_points();
    let mut pts: Vec<Point2> = Vec::new();
    let mut i: usize = 0;
    while i < n
        invariant
            pts@.len() == i,
            0 <= i <= n,
            forall|m: int|
                0 <= m < i ==> (#[trigger] pts@[m])@ == (P2Val {
                    x: curve@.cps[m].x,
                    y: curve@.cps[m].y,
                }),
        decreases n - i,
    {
        let cp = curve.control_point(i);
        pts.push(Point2 { x: cp.x, y: cp.y });
        i = i + 1;
    }
    pts
}

} // verus!
