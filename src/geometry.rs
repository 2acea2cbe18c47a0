//! Points of an outline and the running bounding box that observes them.
use vstd::prelude::*;

verus! {

/// A point in font-design space, each coordinate in millionths of a unit.
#[derive(Clone, Copy, Debug, PartialEq, Eq, Structural)]
pub struct Point {
    pub x: i64,
    pub y: i64,
}

/// Four running extrema of the points seen so far.
pub struct Extent {
    pub minx: int,
    pub maxx: int,
    pub miny: int,
    pub maxy: int,
}

pub open spec fn min(a: int, b: int) -> int {
    if b < a {
        b
    } else {
        a
    }
}

pub open spec fn max(a: int, b: int) -> int {
    if a < b {
        b
    } else {
        a
    }
}

/// The extent widened just enough to hold `p`.
pub open spec fn widen(b: Extent, p: Point) -> Extent {
    Extent {
        minx: min(b.minx, p.x as int),
        maxx: max(b.maxx, p.x as int),
        miny: min(b.miny, p.y as int),
        maxy: max(b.maxy, p.y as int),
    }
}

/// The extent after observing each point of `pts` in order.
pub open spec fn widen_all(b: Extent, pts: Seq<Point>) -> Extent
    decreases pts.len(),
{
    if pts.len() == 0 {
        b
    } else {
        widen(widen_all(b, pts.drop_last()), pts.last())
    }
}

pub open spec fn contains(b: Extent, p: Point) -> bool {
    b.minx <= p.x && p.x <= b.maxx && b.miny <= p.y && p.y <= b.maxy
}

/// `outer` is at least as wide as `inner` on every side.
pub open spec fn encloses(outer: Extent, inner: Extent) -> bool {
    outer.minx <= inner.minx && inner.maxx <= outer.maxx && outer.miny <= inner.miny
        && inner.maxy <= outer.maxy
}

pub proof fn lemma_widen_all_encloses(b: Extent, pts: Seq<Point>)
    ensures
        encloses(widen_all(b, pts), b),
        forall|i: int| 0 <= i < pts.len() ==> contains(widen_all(b, pts), #[trigger] pts[i]),
    decreases pts.len(),
{
    if pts.len() > 0 {
        lemma_widen_all_encloses(b, pts.drop_last());
        let w = widen_all(b, pts.drop_last());
        assert forall|i: int| 0 <= i < pts.len() implies contains(
            widen_all(b, pts),
            #[trigger] pts[i],
        ) by {
            if i < pts.len() - 1 {
                assert(pts[i] == pts.drop_last()[i]);
            }
        }
    }
}

/// Observing points that the box already holds leaves it as it is.
pub proof fn lemma_widen_all_fixed(b: Extent, pts: Seq<Point>)
    requires
        forall|k: int| 0 <= k < pts.len() ==> contains(b, #[trigger] pts[k]),
    ensures
        widen_all(b, pts) == b,
    decreases pts.len(),
{
    if pts.len() > 0 {
        let prefix = pts.drop_last();
        assert forall|k: int| 0 <= k < prefix.len() implies contains(b, #[trigger] prefix[k]) by {
            assert(prefix[k] == pts[k]);
        }
        lemma_widen_all_fixed(b, prefix);
        assert(contains(b, pts[pts.len() - 1]));
    }
}

/// Observing more points never narrows the box: each minimum only falls and
/// each maximum only rises as a sequence grows, and the box after all of them
/// holds every point observed.
pub proof fn bounding_box_monotone(b: Extent, pts: Seq<Point>, i: int, j: int)
    requires
        0 <= i <= j <= pts.len(),
    ensures
        encloses(widen_all(b, pts.subrange(0, j)), widen_all(b, pts.subrange(0, i))),
        forall|k: int| 0 <= k < pts.len() ==> contains(widen_all(b, pts), #[trigger] pts[k]),
    decreases j - i,
{
    lemma_widen_all_encloses(b, pts);
    if i < j {
        bounding_box_monotone(b, pts, i, j - 1);
        let s = pts.subrange(0, j);
        assert(s.drop_last() =~= pts.subrange(0, j - 1));
    }
}

} // verus!
