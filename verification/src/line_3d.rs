//! Line3D, an infinite line in 3D space, and its exact intersection test
//! against an axis-aligned bounding box.
//!
//! The line is given by an anchor point and a non-zero direction vector,
//! both with integer coordinates.  The intersection test is exact: it
//! decides whether some real point of the line lies within the box, by
//! comparing the rational entry and exit parameters of the three slabs with
//! cross-multiplication, so no rounding is involved.

use vstd::prelude::*;
use crate::bounding_box_3d::BoundingBox3D;
use crate::point_3d::Point3D;

verus! {

/// An infinite line in 3D space: all points `anchor + t * dir` for real
/// `t`.  Well-formed when `dir` is not the zero vector.
#[derive(Clone, Copy, Debug, PartialEq, Eq, Structural)]
pub struct Line3D {
    pub anchor: Point3D,
    pub dir: Point3D,
}

impl Line3D {
    /// Whether the direction vector is non-zero, so that the line is a
    /// genuine line.
    pub open spec fn wf(self) -> bool {
        !(self.dir.x == 0 && self.dir.y == 0 && self.dir.z == 0)
    }

    /// Creates a new line from an anchor point and a direction vector.
    pub fn new(anchor: Point3D, dir: Point3D) -> (r: Self)
        ensures
            r == (Line3D { anchor, dir }),
    {
        Line3D { anchor, dir }
    }
}

/// Whether the line point at rational parameter `n / dd` lies within
/// `[mn, mx]` on an axis with anchor coordinate `p` and direction
/// coordinate `d`: the interval condition multiplied through by `dd > 0`.
pub open spec fn axis_ok(mn: int, mx: int, p: int, d: int, n: int, dd: int) -> bool {
    mn * dd <= p * dd + n * d && p * dd + n * d <= mx * dd
}

/// Whether the line point at rational parameter `n / dd` lies within the
/// box.
pub open spec fn at_param_in_box(l: Line3D, b: BoundingBox3D, n: int, dd: int) -> bool {
    &&& dd > 0
    &&& axis_ok(b.min.x as int, b.max.x as int, l.anchor.x as int, l.dir.x as int, n, dd)
    &&& axis_ok(b.min.y as int, b.max.y as int, l.anchor.y as int, l.dir.y as int, n, dd)
    &&& axis_ok(b.min.z as int, b.max.z as int, l.anchor.z as int, l.dir.z as int, n, dd)
}

/// Whether the line meets the box: some point of the line lies within the
/// box.  Since all corners and coordinates are integers, a line that meets
/// the box meets it at a rational parameter, so quantifying over rational
/// parameters loses nothing against the real line.
pub open spec fn line_hits_box(l: Line3D, b: BoundingBox3D) -> bool {
    exists|n: int, dd: int| at_param_in_box(l, b, n, dd)
}

/// A line that meets a box also meets every enclosing box.
pub proof fn lemma_line_hits_monotone(l: Line3D, inner: BoundingBox3D, outer: BoundingBox3D)
    requires
        outer.contains_bb(inner),
        line_hits_box(l, inner),
    ensures
        line_hits_box(l, outer),
{
    let (n, dd) = choose|n: int, dd: int| at_param_in_box(l, inner, n, dd);
    assert(outer.min.x * dd <= inner.min.x * dd && inner.max.x * dd <= outer.max.x * dd
        && outer.min.y * dd <= inner.min.y * dd && inner.max.y * dd <= outer.max.y * dd
        && outer.min.z * dd <= inner.min.z * dd && inner.max.z * dd <= outer.max.z * dd)
        by (nonlinear_arith)
        requires
            dd > 0,
            outer.contains_bb(inner),
    ;
    assert(at_param_in_box(l, outer, n, dd));
}

/// Transitivity of the fraction order under cross-multiplication: from
/// `an/ad <= bn/bd` and `bn/bd <= cn/cd` follows `an/ad <= cn/cd`, all
/// denominators positive.
proof fn lemma_frac_le_trans(an: int, ad: int, bn: int, bd: int, cn: int, cd: int)
    requires
        ad > 0,
        bd > 0,
        cd > 0,
        an * bd <= bn * ad,
        bn * cd <= cn * bd,
    ensures
        an * cd <= cn * ad,
{
    assert((an * bd) * cd <= (bn * ad) * cd) by (nonlinear_arith)
        requires
            an * bd <= bn * ad,
            cd > 0,
    ;
    assert((bn * cd) * ad <= (cn * bd) * ad) by (nonlinear_arith)
        requires
            bn * cd <= cn * bd,
            ad > 0,
    ;
    assert((an * cd) * bd <= (cn * ad) * bd) by (nonlinear_arith)
        requires
            (an * bd) * cd <= (bn * ad) * cd,
            (bn * cd) * ad <= (cn * bd) * ad,
    ;
    assert(an * cd <= cn * ad) by (nonlinear_arith)
        requires
            (an * cd) * bd <= (cn * ad) * bd,
            bd > 0,
    ;
}

/// Among finitely many fractions with positive denominators there is a
/// greatest one; returns its index.
proof fn lemma_max_lo(spans: Seq<(i128, i128, i128)>) -> (m: int)
    requires
        spans.len() > 0,
        forall|k: int| 0 <= k < spans.len() ==> (#[trigger] spans[k]).2 > 0,
    ensures
        0 <= m < spans.len(),
        forall|i: int|
            0 <= i < spans.len() ==> (#[trigger] spans[i]).0 * spans[m].2 <= spans[m].0
                * spans[i].2,
    decreases spans.len(),
{
    if spans.len() == 1 {
        0
    } else {
        let rest = spans.drop_last();
        let m0 = lemma_max_lo(rest);
        let last = spans.len() - 1;
        if spans[m0].0 * spans[last].2 <= spans[last].0 * spans[m0].2 {
            // the last fraction is at least the greatest of the rest
            assert forall|i: int|
                0 <= i < spans.len() implies (#[trigger] spans[i]).0 * spans[last].2
                <= spans[last].0 * spans[i].2 by {
                if i < last {
                    assert(rest[i] == spans[i]);
                    assert(rest[m0] == spans[m0]);
                    assert(rest[i].0 * rest[m0].2 <= rest[m0].0 * rest[i].2);
                    lemma_frac_le_trans(
                        spans[i].0 as int,
                        spans[i].2 as int,
                        spans[m0].0 as int,
                        spans[m0].2 as int,
                        spans[last].0 as int,
                        spans[last].2 as int,
                    );
                }
            }
            last
        } else {
            // the greatest of the rest also dominates the last fraction
            assert forall|i: int|
                0 <= i < spans.len() implies (#[trigger] spans[i]).0 * spans[m0].2 <= spans[m0].0
                    * spans[i].2 by {
                if i < last {
                    assert(rest[i] == spans[i]);
                    assert(rest[m0] == spans[m0]);
                    assert(rest[i].0 * rest[m0].2 <= rest[m0].0 * rest[i].2);
                }
            }
            m0
        }
    }
}

/// The constraint one axis puts on the line parameter.
enum AxisSpan {
    /// The line runs parallel to this slab and outside it: no parameter
    /// works.
    Outside,
    /// The line runs parallel to this slab and inside it: every parameter
    /// works.
    Any,
    /// The parameter must lie in `[lo / den, hi / den]` with `den > 0`.
    Span { lo: i128, hi: i128, den: i128 },
}

/// The magnitude bound of span numerators: the difference of two i64
/// values.
const SPAN_NUM_BOUND: i128 = 0xffff_ffff_ffff_ffff;

/// The magnitude bound of span denominators: the magnitude of an i64 value.
const SPAN_DEN_BOUND: i128 = 0x8000_0000_0000_0000;

/// Computes the constraint one axis puts on the line parameter: on this
/// axis the box spans `[mn, mx]`, the line starts at `p` and advances by
/// `d` per parameter unit.
fn axis_interval(mn: i64, mx: i64, p: i64, d: i64) -> (r: AxisSpan)
    requires
        mn <= mx,
    ensures
        r is Outside <==> (d == 0 && (p < mn || p > mx)),
        r is Any <==> (d == 0 && mn <= p && p <= mx),
        r is Outside ==> forall|n: int, dd: int|
            dd > 0 ==> !axis_ok(mn as int, mx as int, p as int, d as int, n, dd),
        r is Any ==> forall|n: int, dd: int|
            dd > 0 ==> axis_ok(mn as int, mx as int, p as int, d as int, n, dd),
        r matches AxisSpan::Span { lo, hi, den } ==> {
            &&& 0 < den <= SPAN_DEN_BOUND
            &&& -SPAN_NUM_BOUND <= lo <= SPAN_NUM_BOUND
            &&& -SPAN_NUM_BOUND <= hi <= SPAN_NUM_BOUND
            &&& forall|n: int, dd: int|
                dd > 0 ==> (axis_ok(mn as int, mx as int, p as int, d as int, n, dd) <==> (lo * dd
                    <= n * den && n * den <= hi * dd))
        },
{
    if d == 0 {
        if p < mn || p > mx {
            proof {
                assert forall|n: int, dd: int| dd > 0 implies !axis_ok(
                    mn as int,
                    mx as int,
                    p as int,
                    0,
                    n,
                    dd,
                ) by {
                    assert(p < mn ==> p * dd < mn * dd) by (nonlinear_arith)
                        requires
                            dd > 0,
                    ;
                    assert(p > mx ==> p * dd > mx * dd) by (nonlinear_arith)
                        requires
                            dd > 0,
                    ;
                }
            }
            AxisSpan::Outside
        } else {
            proof {
                assert forall|n: int, dd: int| dd > 0 implies axis_ok(
                    mn as int,
                    mx as int,
                    p as int,
                    0,
                    n,
                    dd,
                ) by {
                    assert(mn <= p ==> mn * dd <= p * dd) by (nonlinear_arith)
                        requires
                            dd > 0,
                    ;
                    assert(p <= mx ==> p * dd <= mx * dd) by (nonlinear_arith)
                        requires
                            dd > 0,
                    ;
                }
            }
            AxisSpan::Any
        }
    } else if d > 0 {
        let lo = (mn as i128) - (p as i128);
        let hi = (mx as i128) - (p as i128);
        let den = d as i128;
        proof {
            assert forall|n: int, dd: int| dd > 0 implies (axis_ok(
                mn as int,
                mx as int,
                p as int,
                d as int,
                n,
                dd,
            ) <==> (lo * dd <= n * den && n * den <= hi * dd)) by {
                assert((mn - p) * dd == mn * dd - p * dd) by (nonlinear_arith);
                assert((mx - p) * dd == mx * dd - p * dd) by (nonlinear_arith);
            }
        }
        AxisSpan::Span { lo, hi, den }
    } else {
        let lo = (p as i128) - (mx as i128);
        let hi = (p as i128) - (mn as i128);
        let den = -(d as i128);
        proof {
            assert forall|n: int, dd: int| dd > 0 implies (axis_ok(
                mn as int,
                mx as int,
                p as int,
                d as int,
                n,
                dd,
            ) <==> (lo * dd <= n * den && n * den <= hi * dd)) by {
                assert((p - mx) * dd == p * dd - mx * dd) by (nonlinear_arith);
                assert((p - mn) * dd == p * dd - mn * dd) by (nonlinear_arith);
                assert(n * (-(d as int)) == -(n * (d as int))) by (nonlinear_arith);
            }
        }
        AxisSpan::Span { lo, hi, den }
    }
}

/// Whether the parameter `n / dd` lies in every span of `s`.
spec fn span_sat(s: Seq<(i128, i128, i128)>, n: int, dd: int) -> bool {
    forall|k: int|
        0 <= k < s.len() ==> ((#[trigger] s[k]).0 * dd <= n * s[k].2 && n * s[k].2 <= s[k].1 * dd)
}

/// Whether every span of `s` has a positive denominator and numerators and
/// denominators within the bounds the cross-multiplications need.
spec fn spans_bounded(s: Seq<(i128, i128, i128)>) -> bool {
    forall|k: int|
        0 <= k < s.len() ==> {
            &&& 0 < (#[trigger] s[k]).2 <= SPAN_DEN_BOUND
            &&& -SPAN_NUM_BOUND <= s[k].0 <= SPAN_NUM_BOUND
            &&& -SPAN_NUM_BOUND <= s[k].1 <= SPAN_NUM_BOUND
        }
}

/// Compares two fractions with positive denominators:
/// `an / ad <= bn / bd`.
fn le_frac(an: i128, ad: i128, bn: i128, bd: i128) -> (r: bool)
    requires
        0 < ad <= SPAN_DEN_BOUND,
        0 < bd <= SPAN_DEN_BOUND,
        -SPAN_NUM_BOUND <= an <= SPAN_NUM_BOUND,
        -SPAN_NUM_BOUND <= bn <= SPAN_NUM_BOUND,
    ensures
        r == (an * bd <= bn * ad),
{
    proof {
        assert(an * bd <= SPAN_NUM_BOUND * SPAN_DEN_BOUND && an * bd >= -(SPAN_NUM_BOUND
            * SPAN_DEN_BOUND)) by (nonlinear_arith)
            requires
                -SPAN_NUM_BOUND <= an <= SPAN_NUM_BOUND,
                0 < bd <= SPAN_DEN_BOUND,
        ;
        assert(bn * ad <= SPAN_NUM_BOUND * SPAN_DEN_BOUND && bn * ad >= -(SPAN_NUM_BOUND
            * SPAN_DEN_BOUND)) by (nonlinear_arith)
            requires
                -SPAN_NUM_BOUND <= bn <= SPAN_NUM_BOUND,
                0 < ad <= SPAN_DEN_BOUND,
        ;
    }
    an * bd <= bn * ad
}

/// Decides exactly whether the line meets the box.
///
/// Each axis confines the line parameter to a rational interval (or rejects
/// outright, or imposes nothing); the line meets the box exactly when the
/// intervals have a common point, which is checked by comparing every lower
/// bound against every upper bound by cross-multiplication.
pub fn intersection(line: &Line3D, bb: &BoundingBox3D) -> (r: bool)
    requires
        line.wf(),
        bb.wf(),
    ensures
        r == line_hits_box(*line, *bb),
{
    let mut spans: Vec<(i128, i128, i128)> = Vec::new();
    let sx = axis_interval(bb.min.x, bb.max.x, line.anchor.x, line.dir.x);
    match sx {
        AxisSpan::Outside => {
            proof {
                assert forall|n: int, dd: int| !at_param_in_box(*line, *bb, n, dd) by {}
            }
            return false;
        },
        AxisSpan::Any => {},
        AxisSpan::Span { lo, hi, den } => { spans.push((lo, hi, den)); },
    }
    let sy = axis_interval(bb.min.y, bb.max.y, line.anchor.y, line.dir.y);
    match sy {
        AxisSpan::Outside => {
            proof {
                assert forall|n: int, dd: int| !at_param_in_box(*line, *bb, n, dd) by {}
            }
            return false;
        },
        AxisSpan::Any => {},
        AxisSpan::Span { lo, hi, den } => { spans.push((lo, hi, den)); },
    }
    let sz = axis_interval(bb.min.z, bb.max.z, line.anchor.z, line.dir.z);
    match sz {
        AxisSpan::Outside => {
            proof {
                assert forall|n: int, dd: int| !at_param_in_box(*line, *bb, n, dd) by {}
            }
            return false;
        },
        AxisSpan::Any => {},
        AxisSpan::Span { lo, hi, den } => { spans.push((lo, hi, den)); },
    }
    // a non-zero direction has at least one non-parallel axis
    assert(spans@.len() > 0);
    assert(spans_bounded(spans@));
    // together the spans say exactly what the box membership says
    proof {
        assert forall|n: int, dd: int| dd > 0 implies (at_param_in_box(*line, *bb, n, dd)
            <==> span_sat(spans@, n, dd)) by {
            let ax = axis_ok(
                bb.min.x as int,
                bb.max.x as int,
                line.anchor.x as int,
                line.dir.x as int,
                n,
                dd,
            );
            let ay = axis_ok(
                bb.min.y as int,
                bb.max.y as int,
                line.anchor.y as int,
                line.dir.y as int,
                n,
                dd,
            );
            let az = axis_ok(
                bb.min.z as int,
                bb.max.z as int,
                line.anchor.z as int,
                line.dir.z as int,
                n,
                dd,
            );
            if at_param_in_box(*line, *bb, n, dd) {
                assert forall|k: int| 0 <= k < spans@.len() implies ((#[trigger] spans@[k]).0 * dd
                    <= n * spans@[k].2 && n * spans@[k].2 <= spans@[k].1 * dd) by {}
                assert(span_sat(spans@, n, dd));
            }
            if span_sat(spans@, n, dd) {
                if spans@.len() >= 1 {
                    assert(spans@[0].0 * dd <= n * spans@[0].2 && n * spans@[0].2 <= spans@[0].1
                        * dd);
                }
                if spans@.len() >= 2 {
                    assert(spans@[1].0 * dd <= n * spans@[1].2 && n * spans@[1].2 <= spans@[1].1
                        * dd);
                }
                if spans@.len() >= 3 {
                    assert(spans@[2].0 * dd <= n * spans@[2].2 && n * spans@[2].2 <= spans@[2].1
                        * dd);
                }
                assert(at_param_in_box(*line, *bb, n, dd));
            }
        }
    }
    let n_spans = spans.len();
    let mut i: usize = 0;
    while i < n_spans
        invariant
            n_spans == spans@.len(),
            i <= n_spans,
            spans_bounded(spans@),
            forall|n: int, dd: int|
                dd > 0 ==> (at_param_in_box(*line, *bb, n, dd) <==> span_sat(spans@, n, dd)),
            forall|a: int, b: int|
                #![trigger spans@[a], spans@[b]]
                0 <= a < i && 0 <= b < spans@.len() ==> spans@[a].0 * spans@[b].2
                    <= spans@[b].1 * spans@[a].2,
        decreases n_spans - i,
    {
        let mut j: usize = 0;
        while j < n_spans
            invariant
                n_spans == spans@.len(),
                i < n_spans,
                j <= n_spans,
                spans_bounded(spans@),
                forall|n: int, dd: int|
                    dd > 0 ==> (at_param_in_box(*line, *bb, n, dd) <==> span_sat(spans@, n, dd)),
                forall|a: int, b: int|
                    #![trigger spans@[a], spans@[b]]
                    0 <= a < i && 0 <= b < spans@.len() ==> spans@[a].0 * spans@[b].2
                        <= spans@[b].1 * spans@[a].2,
                forall|b: int|
                    0 <= b < j ==> (#[trigger] spans@[i as int]).0 * spans@[b].2 <= spans@[b].1
                        * spans@[i as int].2,
            decreases n_spans - j,
        {
            let (lo_i, _, den_i) = spans[i];
            let (_, hi_j, den_j) = spans[j];
            if !le_frac(lo_i, den_i, hi_j, den_j) {
                proof {
                    // a common parameter would put span i's lower bound at
                    // or below span j's upper bound
                    assert forall|n: int, dd: int| !at_param_in_box(*line, *bb, n, dd) by {
                        if dd > 0 && span_sat(spans@, n, dd) {
                            lemma_frac_le_trans(
                                spans@[i as int].0 as int,
                                spans@[i as int].2 as int,
                                n,
                                dd,
                                spans@[j as int].1 as int,
                                spans@[j as int].2 as int,
                            );
                        }
                    }
                }
                return false;
            }
            j += 1;
        }
        i += 1;
    }
    proof {
        // all pairwise checks passed: the greatest lower bound is a common
        // parameter
        let m = lemma_max_lo(spans@);
        let n_w = spans@[m].0 as int;
        let dd_w = spans@[m].2 as int;
        assert(span_sat(spans@, n_w, dd_w));
        assert(at_param_in_box(*line, *bb, n_w, dd_w));
    }
    true
}

} // verus!
