//! The curve entity: degree, homogeneous control points and knot vector.
//!
//! Construction validates the structural invariants and never yields a
//! partially valid curve: the knot vector must have exactly
//! `control_points + degree + 1` entries, must be non-decreasing, and there
//! must be at least `degree + 1` control points. The valid parameter domain
//! is `[knots[degree], knots[control_points]]`.

use crate::rat::{in_i128, lemma_pos_mul, mul_fits, rat_le, rat_mul, Rat, RatVal};
use vstd::prelude::*;

verus! {

/// The mathematical value of a homogeneous control point `(x, y, z, w)`,
/// where `w` is the rational weight.
pub ghost struct HVal {
    pub x: RatVal,
    pub y: RatVal,
    pub z: RatVal,
    pub w: RatVal,
}

impl HVal {
    pub open spec fn wf(self) -> bool {
        self.x.wf() && self.y.wf() && self.z.wf() && self.w.wf()
    }
}

/// Exactly when scaling one control point by `f` stays within the machine
/// integers: each positional product fits (the weight is untouched).
pub open spec fn scale_fits(p: HVal, f: RatVal) -> bool {
    &&& mul_fits(p.x, f)
    &&& mul_fits(p.y, f)
    &&& mul_fits(p.z, f)
}

/// A homogeneous control point `(x, y, z, w)` with exact rational
/// coordinates; `w` is the rational weight.
#[derive(Clone, Copy, Debug)]
pub struct HPoint {
    pub x: Rat,
    pub y: Rat,
    pub z: Rat,
    pub w: Rat,
}

impl View for HPoint {
    type V = HVal;

    open spec fn view(&self) -> HVal {
        HVal { x: self.x@, y: self.y@, z: self.z@, w: self.w@ }
    }
}

impl HPoint {
    pub open spec fn wf(self) -> bool {
        self@.wf()
    }
}

/// The mathematical value of a curve.
pub ghost struct CurveVal {
    pub degree: int,
    pub cps: Seq<HVal>,
    pub knots: Seq<RatVal>,
}

impl CurveVal {
    /// Structural validity: enough control points, matching knot count,
    /// non-decreasing knots, and well-formed rational scalars throughout.
    pub open spec fn wf(self) -> bool {
        &&& self.degree >= 0
        &&& self.cps.len() >= self.degree + 1
        &&& self.knots.len() == self.cps.len() + self.degree + 1
        &&& (forall|i: int| 0 <= i < self.cps.len() ==> (#[trigger] self.cps[i]).wf())
        &&& (forall|i: int| 0 <= i < self.knots.len() ==> (#[trigger] self.knots[i]).wf())
        &&& (forall|i: int|
            0 <= i < self.knots.len() - 1 ==> (#[trigger] self.knots[i]).le_val(
                self.knots[i + 1],
            ))
    }

    /// Lower end of the valid parameter domain.
    pub open spec fn min_u(self) -> RatVal {
        self.knots[self.degree]
    }

    /// Upper end of the valid parameter domain.
    pub open spec fn max_u(self) -> RatVal {
        self.knots[self.cps.len() as int]
    }

    /// The same curve with every positional coordinate multiplied by `f`;
    /// weights and knots are untouched.
    pub open spec fn scaled(self, f: RatVal) -> CurveVal {
        CurveVal {
            degree: self.degree,
            cps: self.cps.map_values(
                |p: HVal| HVal { x: p.x.mul_val(f), y: p.y.mul_val(f), z: p.z.mul_val(f), w: p.w },
            ),
            knots: self.knots,
        }
    }
}

/// Why construction of a curve was refused.
#[derive(Clone, Copy, Debug, PartialEq, Eq, Structural)]
pub enum ConstructionError {
    /// The knot vector does not hold exactly `control_points + degree + 1`
    /// entries.
    KnotCountMismatch,
    /// Some knot is smaller than its predecessor.
    NonMonotonicKnots,
    /// Fewer than `degree + 1` control points.
    InsufficientControlPoints,
}

/// Bound on the scalars a knot may hold, so that cross-multiplied knot
/// comparisons always fit in an `i128`.
pub const KNOT_BOUND: i128 = 0x4000_0000_0000_0000;

/// A rational value small enough that any cross product with another such
/// value fits in an `i128`.
pub open spec fn bounded(v: RatVal) -> bool {
    &&& -(KNOT_BOUND as int) <= v.num <= KNOT_BOUND as int
    &&& 0 < v.den <= KNOT_BOUND as int
}

/// Cross products of bounded values stay representable.
pub proof fn lemma_bounded_products(a: RatVal, b: RatVal)
    by (nonlinear_arith)
    requires
        bounded(a),
        bounded(b),
    ensures
        in_i128(a.num * b.den),
        in_i128(b.num * a.den),
{
}

/// A rational B-spline curve: a degree, homogeneous control points and a
/// non-decreasing knot vector. Immutable once constructed.
#[derive(Debug)]
pub struct Curve {
    degree: usize,
    control_points: Vec<HPoint>,
    knots: Vec<Rat>,
}

impl View for Curve {
    type V = CurveVal;

    closed spec fn view(&self) -> CurveVal {
        CurveVal {
            degree: self.degree as int,
            cps: self.control_points@.map_values(|p: HPoint| p@),
            knots: self.knots@.map_values(|k: Rat| k@),
        }
    }
}

impl Curve {
    pub open spec fn wf(self) -> bool {
        self@.wf()
    }

    /// Validated construction. Exactly one of the following holds:
    /// too few control points (`InsufficientControlPoints`), a knot vector
    /// of the wrong length (`KnotCountMismatch`), a decreasing adjacent
    /// knot pair (`NonMonotonicKnots`), or a well-formed curve carrying the
    /// inputs unchanged. Knots must be `bounded` so that the monotonicity
    /// checks stay within the fixed-width integers.
    #[verifier::loop_isolation(false)]
    pub fn new(degree: usize, control_points: Vec<HPoint>, knots: Vec<Rat>) -> (r: Result<
        Curve,
        ConstructionError,
    >)
        requires
            forall|i: int|
                0 <= i < control_points@.len() ==> (#[trigger] control_points@[i]).wf(),
            forall|i: int| 0 <= i < knots@.len() ==> bounded((#[trigger] knots@[i])@),
            degree + 1 <= usize::MAX,
            control_points@.len() + degree + 1 <= usize::MAX,
        ensures
            r matches Err(ConstructionError::InsufficientControlPoints) <==> control_points@.len()
                < degree + 1,
            r matches Err(ConstructionError::KnotCountMismatch) <==> control_points@.len() >= degree
                + 1 && knots@.len() != control_points@.len() + degree + 1,
            r matches Err(ConstructionError::NonMonotonicKnots) <==> control_points@.len() >= degree
                + 1 && knots@.len() == control_points@.len() + degree + 1 && !(forall|i: int|
                0 <= i < knots@.len() - 1 ==> (#[trigger] knots@[i])@.le_val(knots@[i + 1]@)),
            r matches Ok(c) ==> c.wf() && c@ == (CurveVal {
                degree: degree as int,
                cps: control_points@.map_values(|p: HPoint| p@),
                knots: knots@.map_values(|k: Rat| k@),
            }),
            r is Ok <==> control_points@.len() >= degree + 1 && knots@.len()
                == control_points@.len() + degree + 1 && (forall|i: int|
                0 <= i < knots@.len() - 1 ==> (#[trigger] knots@[i])@.le_val(knots@[i + 1]@)),
    {
        if control_points.len() < degree + 1 {
            return Err(ConstructionError::InsufficientControlPoints);
        }
        if knots.len() != control_points.len() + degree + 1 {
            return Err(ConstructionError::KnotCountMismatch);
        }
        let mut i: usize = 0;
        while i < knots.len() - 1
            invariant
                0 <= i <= knots@.len() - 1,
                forall|j: int| 0 <= j < i ==> (#[trigger] knots@[j])@.le_val(knots@[j + 1]@),
            decreases knots@.len() - i,
        {
            proof {
                lemma_bounded_products(knots@[i as int]@, knots@[i + 1]@);
            }
            let le = rat_le(&knots[i], &knots[i + 1]);
            if !le.unwrap() {
                return Err(ConstructionError::NonMonotonicKnots);
            }
            i = i + 1;
        }
        let c = Curve { degree, control_points, knots };
        proof {
            assert forall|j: int| 0 <= j < c@.cps.len() implies (#[trigger] c@.cps[j]).wf() by {
                assert(c@.cps[j] == c.control_points@[j]@);
            }
            assert forall|j: int| 0 <= j < c@.knots.len() implies (#[trigger] c@.knots[j]).wf() by {
                assert(c@.knots[j] == c.knots@[j]@);
            }
            assert forall|j: int|
                0 <= j < c@.knots.len() - 1 implies (#[trigger] c@.knots[j]).le_val(
                c@.knots[j + 1],
            ) by {
                assert(c@.knots[j] == c.knots@[j]@);
                assert(c@.knots[j + 1] == c.knots@[j + 1]@);
            }
        }
        Ok(c)
    }

    pub fn degree(&self) -> (r: usize)
        ensures
            r as int == self@.degree,
    {
        self.degree
    }

    /// How many control points the curve holds.
    pub fn num_control_points(&self) -> (r: usize)
        ensures
            r as int == self@.cps.len(),
    {
        self.control_points.len()
    }

    /// The control point at position `i`.
    pub fn control_point(&self, i: usize) -> (r: HPoint)
        requires
            i < self@.cps.len(),
        ensures
            r@ == self@.cps[i as int],
    {
        self.control_points[i]
    }

    /// How many knots the curve holds.
    pub fn num_knots(&self) -> (r: usize)
        ensures
            r as int == self@.knots.len(),
    {
        self.knots.len()
    }

    /// The knot at position `i`.
    pub fn knot(&self, i: usize) -> (r: Rat)
        requires
            i < self@.knots.len(),
        ensures
            r@ == self@.knots[i as int],
    {
        self.knots[i]
    }

    /// The ordered homogeneous control points, as stored.
    pub fn control_points(&self) -> (r: &Vec<HPoint>)
        ensures
            r@.map_values(|p: HPoint| p@) == self@.cps,
    {
        &self.control_points
    }

    /// Lower end of the valid parameter domain: `knots[degree]`.
    pub fn min_u(&self) -> (r: Rat)
        requires
            self.wf(),
        ensures
            r@ == self@.min_u(),
            r.wf(),
    {
        let r = self.knots[self.degree];
        proof {
            assert(r@ == self@.knots[self@.degree]);
            assert(self@.knots[self@.degree].wf());
        }
        r
    }

    /// Upper end of the valid parameter domain: `knots[control_points]`.
    pub fn max_u(&self) -> (r: Rat)
        requires
            self.wf(),
        ensures
            r@ == self@.max_u(),
            r.wf(),
    {
        let r = self.knots[self.control_points.len()];
        proof {
            assert(r@ == self@.knots[self@.cps.len() as int]);
            assert(self@.knots[self@.cps.len() as int].wf());
        }
        r
    }

    /// A new curve with every positional coordinate multiplied by `factor`;
    /// weights and knots are untouched. `None` exactly when some
    /// coordinate's product leaves the fixed-width integer range
    /// (`scale_fits`).
    pub fn uniform_scale(&self, factor: &Rat) -> (r: Option<Curve>)
        requires
            self.wf(),
            factor.wf(),
        ensures
            r is Some ==> r.unwrap()@ == self@.scaled(factor@) && r.unwrap().wf(),
            r is Some <==> forall|i: int|
                0 <= i < self@.cps.len() ==> scale_fits(#[trigger] self@.cps[i], factor@),
    {
        let mut cps: Vec<HPoint> = Vec::new();
        let n = self.control_points.len();
        let mut i: usize = 0;
        while i < n
            invariant
                self.wf(),
                factor.wf(),
                0 <= i <= n,
                n == self.control_points@.len(),
                cps@.len() == i,
                forall|j: int| 0 <= j < i ==> scale_fits(#[trigger] self@.cps[j], factor@),
                forall|j: int|
                    0 <= j < i ==> (#[trigger] cps@[j])@ == (HVal {
                        x: self@.cps[j].x.mul_val(factor@),
                        y: self@.cps[j].y.mul_val(factor@),
                        z: self@.cps[j].z.mul_val(factor@),
                        w: self@.cps[j].w,
                    }),
            decreases n - i,
        {
            let p = &self.control_points[i];
            assert(p@ == self@.cps[i as int]);
            assert(self@.cps[i as int].wf());
            let x = rat_mul(&p.x, factor);
            let y = rat_mul(&p.y, factor);
            let z = rat_mul(&p.z, factor);
            if x.is_none() || y.is_none() || z.is_none() {
                proof {
                    assert(!scale_fits(self@.cps[i as int], factor@));
                }
                return None;
            }
            cps.push(HPoint { x: x.unwrap(), y: y.unwrap(), z: z.unwrap(), w: p.w });
            i = i + 1;
        }
        let mut knots: Vec<Rat> = Vec::new();
        let m = self.knots.len();
        let mut j: usize = 0;
        while j < m
            invariant
                0 <= j <= m,
                m == self.knots@.len(),
                knots@.len() == j,
                forall|k: int| 0 <= k < j ==> #[trigger] knots@[k] == self.knots@[k],
            decreases m - j,
        {
            knots.push(self.knots[j]);
            j = j + 1;
        }
        let c = Curve { degree: self.degree, control_points: cps, knots };
        proof {
            assert(c@.knots =~= self@.knots);
            assert(c@.cps =~= self@.scaled(factor@).cps);
            assert(c@ == self@.scaled(factor@));
            assert forall|k: int| 0 <= k < c@.cps.len() implies (#[trigger] c@.cps[k]).wf() by {
                lemma_pos_mul(self@.cps[k].x.den, factor@.den);
                lemma_pos_mul(self@.cps[k].y.den, factor@.den);
                lemma_pos_mul(self@.cps[k].z.den, factor@.den);
            }
            assert(c.wf());
        }
        Some(c)
    }
}

} // verus!
