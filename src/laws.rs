//! Laws relating the transcoder, the bounding box and the document sizer.
use crate::geometry::{contains, encloses, Extent, Point};
use crate::pen::{
    abs, box_height, box_width, fixed_state, holds_points, is_supported, lemma_widen_verbs, run, step,
    tx, ty, verb_letter, verb_points, PenView, Verb,
};
use crate::precision::{pow10, trunc_mag, trunc_to, FRAC_DIGITS};
use vstd::arithmetic::div_mod::{
    lemma_div_is_ordered, lemma_div_multiples_vanish, lemma_fundamental_div_mod,
};
use vstd::prelude::*;

verus! {

/// The SVG-space coordinates of `pts` under the transform of `s`.
pub open spec fn verb_coords(s: PenView, pts: Seq<Point>) -> Seq<(int, int)> {
    pts.map_values(|p: Point| (tx(s, p.x as int), ty(s, p.y as int)))
}

/// The coordinates of every verb's points under the transform of `f`, in
/// order.
pub open spec fn verbs_coords(f: PenView, verbs: Seq<Verb>) -> Seq<(int, int)>
    decreases verbs.len(),
{
    if verbs.len() == 0 {
        seq![]
    } else {
        verbs_coords(f, verbs.drop_last()) + verb_coords(f, verb_points(verbs.last()))
    }
}

/// Every coordinate pair written into the path data, before truncation, in
/// the order it is written.
pub open spec fn emitted(s: PenView, verbs: Seq<Verb>) -> Seq<(int, int)> {
    verbs_coords(fixed_state(s, verbs), verbs)
}

/// The region a viewBox of `b` declares: origin `(minx, miny)`, extent
/// `(|minx| + maxx, |miny| + maxy)`.
pub open spec fn in_viewbox(b: Extent, e: (int, int)) -> bool {
    b.minx <= e.0 <= b.minx + box_width(b) && b.miny <= e.1 <= b.miny + box_height(b)
}

/// Where a transformed point of the box `f.bbox` can land.
pub open spec fn in_image(f: PenView, e: (int, int)) -> bool {
    &&& f.bbox.minx <= e.0 <= f.bbox.maxx
    &&& if f.no_viewbox {
        f.bbox.miny - f.bbox.maxy <= e.1 <= 0
    } else {
        f.bbox.miny <= e.1 <= f.bbox.maxy
    }
}

proof fn lemma_coords_in_image(f: PenView, verbs: Seq<Verb>)
    requires
        forall|j: int| 0 <= j < verbs.len() ==> holds_points(f.bbox, #[trigger] verbs[j]),
    ensures
        forall|i: int|
            0 <= i < verbs_coords(f, verbs).len() ==> in_image(f, #[trigger] verbs_coords(f, verbs)[i]),
    decreases verbs.len(),
{
    if verbs.len() > 0 {
        let prefix = verbs.drop_last();
        assert forall|j: int| 0 <= j < prefix.len() implies holds_points(f.bbox, #[trigger] prefix[j]) by {
            assert(prefix[j] == verbs[j]);
        }
        lemma_coords_in_image(f, prefix);
        let pts = verb_points(verbs.last());
        assert(holds_points(f.bbox, verbs[verbs.len() - 1]));
        let head = verbs_coords(f, prefix);
        let tail = verb_coords(f, pts);
        assert forall|i: int| 0 <= i < verbs_coords(f, verbs).len() implies in_image(
            f,
            #[trigger] verbs_coords(f, verbs)[i],
        ) by {
            if i < head.len() {
                assert(verbs_coords(f, verbs)[i] == head[i]);
            } else {
                let k = i - head.len();
                assert(verbs_coords(f, verbs)[i] == tail[k]);
                assert(contains(f.bbox, pts[k]));
            }
        }
    }
}

proof fn lemma_emitted_in_image(s: PenView, verbs: Seq<Verb>)
    ensures
        forall|i: int|
            0 <= i < emitted(s, verbs).len() ==> in_image(fixed_state(s, verbs), #[trigger] emitted(s, verbs)[i]),
        encloses(run(s, verbs).bbox, s.bbox),
        run(s, verbs).bbox == fixed_state(s, verbs).bbox,
        run(s, verbs).no_viewbox == s.no_viewbox,
        run(s, verbs).precision == s.precision,
{
    lemma_widen_verbs(s.bbox, verbs);
    lemma_coords_in_image(fixed_state(s, verbs), verbs);
}

proof fn lemma_trunc_mag_monotone(a: int, b: int, p: nat)
    requires
        0 <= a <= b,
    ensures
        0 <= trunc_mag(a, p) <= trunc_mag(b, p),
{
    if p < FRAC_DIGITS {
        let d = pow10((FRAC_DIGITS - p) as nat) as int;
        crate::precision::truncation_toward_zero(a, p);
        assert(d > 0) by {
            reveal_with_fuel(pow10, 7);
        }
        lemma_fundamental_div_mod(a, d);
        lemma_fundamental_div_mod(b, d);
        lemma_div_is_ordered(a, b, d);
        assert(d * (a / d) <= d * (b / d)) by (nonlinear_arith)
            requires a / d <= b / d, d > 0;
    }
}

proof fn lemma_trunc_mag_superadditive(a: int, b: int, p: nat)
    requires
        0 <= a,
        0 <= b,
    ensures
        trunc_mag(a, p) + trunc_mag(b, p) <= trunc_mag(a + b, p),
{
    if p < FRAC_DIGITS {
        let d = pow10((FRAC_DIGITS - p) as nat) as int;
        assert(d > 0) by {
            reveal_with_fuel(pow10, 7);
        }
        lemma_fundamental_div_mod(a, d);
        lemma_fundamental_div_mod(b, d);
        lemma_fundamental_div_mod(a + b, d);
        let q = a / d + b / d;
        assert(d * q <= a + b) by (nonlinear_arith)
            requires
                a == d * (a / d) + a % d,
                b == d * (b / d) + b % d,
                a % d >= 0,
                b % d >= 0,
                q == a / d + b / d;
        lemma_div_is_ordered(d * q, a + b, d);
        lemma_div_multiples_vanish(q, d);
        assert(d * q <= d * ((a + b) / d)) by (nonlinear_arith)
            requires q <= (a + b) / d, d > 0;
        assert(d * q == d * (a / d) + d * (b / d)) by (nonlinear_arith)
            requires q == a / d + b / d;
    }
}

/// The far edge of a box from `lo` to a non-negative `hi`, truncated, never
/// passes the truncated origin plus the truncated extent `|lo| + hi`.
proof fn lemma_trunc_extent(lo: int, hi: int, p: nat)
    requires
        lo <= hi,
        0 <= hi,
    ensures
        trunc_to(hi, p) <= trunc_to(lo, p) + trunc_to(abs(lo) + hi, p),
{
    if lo >= 0 {
        truncation_monotone(hi, lo + hi, p);
        crate::precision::truncation_toward_zero(lo, p);
    } else {
        lemma_trunc_mag_superadditive(-lo, hi, p);
    }
}

/// Truncation keeps the order of values.
pub proof fn truncation_monotone(u: int, v: int, p: nat)
    requires
        u <= v,
    ensures
        trunc_to(u, p) <= trunc_to(v, p),
{
    if u >= 0 {
        lemma_trunc_mag_monotone(u, v, p);
    } else if v < 0 {
        lemma_trunc_mag_monotone(-v, -u, p);
    } else {
        crate::precision::truncation_toward_zero(u, p);
        crate::precision::truncation_toward_zero(v, p);
    }
}

/// In viewBox mode every coordinate pair written into the path data lies in
/// the region the final viewBox declares. Truncated to the pen's precision,
/// it stays at or past the truncated origin, and on each axis whose starting
/// maximum is not negative (as with a box seeded at zero) it stays within the
/// truncated origin plus the truncated extent.
pub proof fn emitted_within_viewbox(s: PenView, verbs: Seq<Verb>)
    requires
        !s.no_viewbox,
    ensures
        forall|i: int|
            0 <= i < emitted(s, verbs).len() ==> {
                let b = run(s, verbs).bbox;
                let e = #[trigger] emitted(s, verbs)[i];
                let p = s.precision;
                &&& in_viewbox(b, e)
                &&& trunc_to(b.minx, p) <= trunc_to(e.0, p)
                &&& trunc_to(b.miny, p) <= trunc_to(e.1, p)
                &&& s.bbox.maxx >= 0 ==> trunc_to(e.0, p) <= trunc_to(b.minx, p) + trunc_to(box_width(b), p)
                &&& s.bbox.maxy >= 0 ==> trunc_to(e.1, p) <= trunc_to(b.miny, p) + trunc_to(box_height(b), p)
            },
{
    lemma_emitted_in_image(s, verbs);
    let b = run(s, verbs).bbox;
    assert forall|i: int| 0 <= i < emitted(s, verbs).len() implies {
        let e = #[trigger] emitted(s, verbs)[i];
        let p = s.precision;
        &&& in_viewbox(b, e)
        &&& trunc_to(b.minx, p) <= trunc_to(e.0, p)
        &&& trunc_to(b.miny, p) <= trunc_to(e.1, p)
        &&& s.bbox.maxx >= 0 ==> trunc_to(e.0, p) <= trunc_to(b.minx, p) + trunc_to(box_width(b), p)
        &&& s.bbox.maxy >= 0 ==> trunc_to(e.1, p) <= trunc_to(b.miny, p) + trunc_to(box_height(b), p)
    } by {
        let e = emitted(s, verbs)[i];
        let p = s.precision;
        assert(in_image(fixed_state(s, verbs), e));
        truncation_monotone(b.minx, e.0, p);
        truncation_monotone(e.0, b.maxx, p);
        truncation_monotone(b.miny, e.1, p);
        truncation_monotone(e.1, b.maxy, p);
        if s.bbox.maxx >= 0 {
            lemma_trunc_extent(b.minx, b.maxx, p);
        }
        if s.bbox.maxy >= 0 {
            lemma_trunc_extent(b.miny, b.maxy, p);
        }
    }
}

proof fn lemma_trunc_abs(v: int, p: nat)
    ensures
        abs(trunc_to(v, p)) == trunc_mag(abs(v), p),
{
    crate::precision::truncation_toward_zero(abs(v), p);
}

/// In width/height mode every coordinate pair written into the path data is
/// at most the height away from zero vertically, before and after
/// truncation; horizontally it is at most the width away wherever the
/// starting box's maximum x is not negative (as with a box seeded at zero).
pub proof fn emitted_within_size(s: PenView, verbs: Seq<Verb>)
    requires
        s.no_viewbox,
    ensures
        forall|i: int|
            0 <= i < emitted(s, verbs).len() ==> {
                let b = run(s, verbs).bbox;
                let e = #[trigger] emitted(s, verbs)[i];
                let p = s.precision;
                &&& abs(e.1) <= box_height(b)
                &&& abs(trunc_to(e.1, p)) <= trunc_to(box_height(b), p)
                &&& s.bbox.maxx >= 0 ==> abs(e.0) <= box_width(b)
                &&& s.bbox.maxx >= 0 ==> abs(trunc_to(e.0, p)) <= trunc_to(box_width(b), p)
            },
{
    lemma_emitted_in_image(s, verbs);
    let b = run(s, verbs).bbox;
    assert forall|i: int| 0 <= i < emitted(s, verbs).len() implies {
        let e = #[trigger] emitted(s, verbs)[i];
        let p = s.precision;
        &&& abs(e.1) <= box_height(b)
        &&& abs(trunc_to(e.1, p)) <= trunc_to(box_height(b), p)
        &&& s.bbox.maxx >= 0 ==> abs(e.0) <= box_width(b)
        &&& s.bbox.maxx >= 0 ==> abs(trunc_to(e.0, p)) <= trunc_to(box_width(b), p)
    } by {
        let e = emitted(s, verbs)[i];
        let p = s.precision;
        assert(in_image(fixed_state(s, verbs), e));
        lemma_trunc_abs(e.1, p);
        lemma_trunc_mag_monotone(abs(e.1), box_height(b), p);
        lemma_trunc_abs(e.0, p);
        if s.bbox.maxx >= 0 {
            lemma_trunc_mag_monotone(abs(e.0), box_width(b), p);
        }
    }
}

/// Each verb consumes exactly its own points: one for a move or a line, two
/// for a quadratic, three for a cubic, none for a close, which leaves the
/// box as it was and writes only its letter.
pub proof fn verb_arity(s: PenView, v: Verb)
    requires
        is_supported(v),
    ensures
        verb_points(v).len() == match v {
            Verb::Move(_) | Verb::Line(_) => 1nat,
            Verb::Quad(_, _) => 2nat,
            Verb::Cubic(_, _, _) => 3nat,
            _ => 0nat,
        },
        v is Close ==> step(s, v).bbox == s.bbox && step(s, v).path == s.path + seq!['Z'],
        step(s, v).path.len() >= s.path.len() + 1,
        step(s, v).path[s.path.len() as int] == verb_letter(v),
{
    reveal_with_fuel(crate::geometry::widen_all, 1);
    if v is Close {
        assert(verb_points(v) =~= Seq::<Point>::empty());
        assert(crate::pen::points_text(s, Seq::<Point>::empty()) =~= Seq::<char>::empty());
        assert(step(s, v).path =~= s.path + seq!['Z']);
    }
}

} // verus!
