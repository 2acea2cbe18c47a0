//! The path pen: transcodes outline verbs into SVG path data while it widens
//! its bounding box, and sizes the document from that box afterwards.
use crate::geometry::{
    contains, encloses, lemma_widen_all_encloses, lemma_widen_all_fixed, widen, widen_all, Extent,
    Point,
};
use crate::precision::{fmt, format_fixed};
use vstd::prelude::*;

verus! {

/// One path-construction step, with the points it consumes.
#[derive(Clone, Copy, Debug, PartialEq, Eq, Structural)]
pub enum Verb {
    Move(Point),
    Line(Point),
    /// Control point, then destination.
    Quad(Point, Point),
    /// Conic with a weight; no SVG command draws it.
    Conic(Point, Point),
    /// Two control points, then destination.
    Cubic(Point, Point, Point),
    Close,
    /// End-of-path marker; it is no drawing step.
    Done,
}

/// Why a conversion was refused.
#[derive(Clone, Copy, Debug, PartialEq, Eq, Structural)]
pub enum TranscodeError {
    /// The verb at this index has no SVG path command.
    UnsupportedVerb(usize),
}

pub type XmlTreeAttribute = (String, String);

pub open spec fn is_supported(v: Verb) -> bool {
    !(v is Conic || v is Done)
}

/// The points a verb consumes, in the order the path draws them.
pub open spec fn verb_points(v: Verb) -> Seq<Point> {
    match v {
        Verb::Move(p) => seq![p],
        Verb::Line(p) => seq![p],
        Verb::Quad(c, p) => seq![c, p],
        Verb::Cubic(c1, c2, p) => seq![c1, c2, p],
        _ => seq![],
    }
}

pub open spec fn verb_letter(v: Verb) -> char {
    match v {
        Verb::Move(_) => 'M',
        Verb::Line(_) => 'L',
        Verb::Quad(_, _) => 'Q',
        Verb::Cubic(_, _, _) => 'C',
        _ => 'Z',
    }
}

/// What a pen holds: the path data so far, the bounding box in source space,
/// the truncation depth and the sizing mode.
pub struct PenView {
    pub path: Seq<char>,
    pub bbox: Extent,
    pub precision: nat,
    pub no_viewbox: bool,
}

/// SVG x of a source x: unchanged.
pub open spec fn tx(s: PenView, x: int) -> int {
    x
}

/// SVG y of a source y: flipped, then moved by the box's vertical extrema
/// (both of them in viewBox mode, the minimum alone in width/height mode).
pub open spec fn ty(s: PenView, y: int) -> int {
    if s.no_viewbox {
        -y + s.bbox.miny
    } else {
        -y + s.bbox.maxy + s.bbox.miny
    }
}

/// Text of one point: " x y", transformed and truncated.
pub open spec fn point_text(s: PenView, p: Point) -> Seq<char> {
    seq![' '] + fmt(tx(s, p.x as int), s.precision) + seq![' '] + fmt(ty(s, p.y as int), s.precision)
}

pub open spec fn points_text(s: PenView, pts: Seq<Point>) -> Seq<char>
    decreases pts.len(),
{
    if pts.len() == 0 {
        seq![]
    } else {
        points_text(s, pts.drop_last()) + point_text(s, pts.last())
    }
}

/// The pen after one supported verb: its points widen the box first, then
/// are written with the widened box's transform.
pub open spec fn step(s: PenView, v: Verb) -> PenView {
    let b = widen_all(s.bbox, verb_points(v));
    let s1 = PenView { bbox: b, ..s };
    PenView { path: s.path + seq![verb_letter(v)] + points_text(s1, verb_points(v)), ..s1 }
}

/// The box after observing every point of every verb, in order.
pub open spec fn widen_verbs(b: Extent, verbs: Seq<Verb>) -> Extent
    decreases verbs.len(),
{
    if verbs.len() == 0 {
        b
    } else {
        widen_all(widen_verbs(b, verbs.drop_last()), verb_points(verbs.last()))
    }
}

/// Every point of `v` lies in `b`.
pub open spec fn holds_points(b: Extent, v: Verb) -> bool {
    forall|k: int| 0 <= k < verb_points(v).len() ==> contains(b, #[trigger] verb_points(v)[k])
}

/// Text of one verb: its letter, then its points under the transform of `s`.
pub open spec fn verb_text(s: PenView, v: Verb) -> Seq<char> {
    seq![verb_letter(v)] + points_text(s, verb_points(v))
}

pub open spec fn verbs_text(s: PenView, verbs: Seq<Verb>) -> Seq<char>
    decreases verbs.len(),
{
    if verbs.len() == 0 {
        seq![]
    } else {
        verbs_text(s, verbs.drop_last()) + verb_text(s, verbs.last())
    }
}

/// The pen with its box widened by every point of the outline: the state
/// whose transform writes every verb.
pub open spec fn fixed_state(s: PenView, verbs: Seq<Verb>) -> PenView {
    PenView { bbox: widen_verbs(s.bbox, verbs), ..s }
}

/// The pen after transcoding a whole outline: first every point widens the
/// box, then every verb is written with that one final box's transform.
pub open spec fn run(s: PenView, verbs: Seq<Verb>) -> PenView {
    let f = fixed_state(s, verbs);
    PenView { path: s.path + verbs_text(f, verbs), ..f }
}

pub proof fn lemma_widen_verbs(b: Extent, verbs: Seq<Verb>)
    ensures
        encloses(widen_verbs(b, verbs), b),
        forall|i: int| 0 <= i < verbs.len() ==> holds_points(widen_verbs(b, verbs), #[trigger] verbs[i]),
    decreases verbs.len(),
{
    if verbs.len() > 0 {
        let prefix = verbs.drop_last();
        lemma_widen_verbs(b, prefix);
        let w0 = widen_verbs(b, prefix);
        let w = widen_verbs(b, verbs);
        lemma_widen_all_encloses(w0, verb_points(verbs.last()));
        assert forall|i: int| 0 <= i < verbs.len() implies holds_points(w, #[trigger] verbs[i]) by {
            if i < prefix.len() {
                assert(verbs[i] == prefix[i]);
                assert(holds_points(w0, prefix[i]));
            }
        }
    }
}

proof fn lemma_points_text_same(s: PenView, t: PenView, pts: Seq<Point>)
    requires
        s.bbox == t.bbox,
        s.precision == t.precision,
        s.no_viewbox == t.no_viewbox,
    ensures
        points_text(s, pts) == points_text(t, pts),
    decreases pts.len(),
{
    if pts.len() > 0 {
        lemma_points_text_same(s, t, pts.drop_last());
    }
}

proof fn lemma_step_in_box(s: PenView, v: Verb)
    requires
        holds_points(s.bbox, v),
    ensures
        step(s, v) == (PenView { path: s.path + verb_text(s, v), ..s }),
{
    lemma_widen_all_fixed(s.bbox, verb_points(v));
    assert(s.path + seq![verb_letter(v)] + points_text(s, verb_points(v)) =~= s.path + verb_text(s, v));
}

pub open spec fn abs(v: int) -> int {
    if v < 0 {
        -v
    } else {
        v
    }
}

pub open spec fn box_width(b: Extent) -> int {
    abs(b.minx) + b.maxx
}

pub open spec fn box_height(b: Extent) -> int {
    abs(b.miny) + b.maxy
}

/// "x y dx dy" of the box, each number truncated to `p` places.
pub open spec fn viewbox_text(b: Extent, p: nat) -> Seq<char> {
    fmt(b.minx, p) + seq![' '] + fmt(b.miny, p) + seq![' '] + fmt(box_width(b), p) + seq![' ']
        + fmt(box_height(b), p)
}

pub open spec fn px_text(v: int, p: nat) -> Seq<char> {
    fmt(v, p) + seq!['p', 'x']
}

pub struct SVGPathPen {
    pub path: String,
    pub minx: i64,
    pub maxx: i64,
    pub miny: i64,
    pub maxy: i64,
    pub precision: u8,
    pub no_viewbox: bool,
}

impl View for SVGPathPen {
    type V = PenView;

    open spec fn view(&self) -> PenView {
        PenView {
            path: self.path@,
            bbox: Extent {
                minx: self.minx as int,
                maxx: self.maxx as int,
                miny: self.miny as int,
                maxy: self.maxy as int,
            },
            precision: self.precision as nat,
            no_viewbox: self.no_viewbox,
        }
    }
}

/// Widens the pen's box by each of `points` in turn.
pub fn consider_min_max(svg: &mut SVGPathPen, points: &[Point])
    ensures
        final(svg)@ == (PenView { bbox: widen_all(old(svg)@.bbox, points@), ..old(svg)@ }),
{
    let mut i: usize = 0;
    while i < points.len()
        invariant
            0 <= i <= points@.len(),
            svg@ == (PenView { bbox: widen_all(old(svg)@.bbox, points@.subrange(0, i as int)), ..old(svg)@ }),
        decreases points@.len() - i,
    {
        assert(points@.subrange(0, i as int + 1).drop_last() =~= points@.subrange(0, i as int));
        svg.observe(points[i]);
        i += 1;
    }
    assert(points@.subrange(0, i as int) =~= points@);
}

impl SVGPathPen {
    /// An empty pen: no path, a box at the origin, truncation at sixteen
    /// places, viewBox sizing.
    pub fn new() -> (r: SVGPathPen)
        ensures
            r@.path == Seq::<char>::empty(),
            r@.bbox == (Extent { minx: 0, maxx: 0, miny: 0, maxy: 0 }),
            r@.precision == 16,
            !r@.no_viewbox,
    {
        SVGPathPen {
            path: String::new(),
            minx: 0,
            maxx: 0,
            miny: 0,
            maxy: 0,
            precision: 16,
            no_viewbox: false,
        }
    }

    pub fn extend_path(&mut self, path: &str)
        ensures
            final(self)@ == (PenView { path: old(self)@.path + path@, ..old(self)@ }),
    {
        self.path.append(path);
    }

    /// Widens the box just enough to hold `p`.
    pub fn observe(&mut self, p: Point)
        ensures
            final(self)@ == (PenView { bbox: widen(old(self)@.bbox, p), ..old(self)@ }),
    {
        if p.x < self.minx {
            self.minx = p.x;
        }
        if p.x > self.maxx {
            self.maxx = p.x;
        }
        if p.y < self.miny {
            self.miny = p.y;
        }
        if p.y > self.maxy {
            self.maxy = p.y;
        }
    }

    /// Origin and extent of the document: `(minx, miny, |minx| + maxx, |miny| + maxy)`.
    #[allow(non_snake_case)]
    pub fn viewBox(&self) -> (r: (i128, i128, i128, i128))
        ensures
            r.0 == self@.bbox.minx,
            r.1 == self@.bbox.miny,
            r.2 == box_width(self@.bbox),
            r.3 == box_height(self@.bbox),
    {
        let ax: i128 = if self.minx < 0 { -(self.minx as i128) } else { self.minx as i128 };
        let ay: i128 = if self.miny < 0 { -(self.miny as i128) } else { self.miny as i128 };
        (self.minx as i128, self.miny as i128, ax + self.maxx as i128, ay + self.maxy as i128)
    }

    pub fn width(&self) -> (r: i128)
        ensures
            r == box_width(self@.bbox),
    {
        self.viewBox().2
    }

    pub fn height(&self) -> (r: i128)
        ensures
            r == box_height(self@.bbox),
    {
        self.viewBox().3
    }

    /// Text of `size` truncated to the pen's precision.
    pub fn p(&self, size: i128) -> (r: String)
        ensures
            r@ == fmt(size as int, self@.precision),
    {
        format_fixed(size, self.precision)
    }

    /// An attribute named `name` whose value is `size` in pixels.
    pub fn size_attr_impl(&self, name: &str, size: i128) -> (r: XmlTreeAttribute)
        ensures
            r.0@ == name@,
            r.1@ == px_text(size as int, self@.precision),
    {
        proof {
            reveal_strlit("px");
        }
        let mut v = self.p(size);
        v.append("px");
        (name.to_owned(), v)
    }

    /// The `width` and `height` attributes, in pixels.
    pub fn px_size_attrs(&self) -> (r: Vec<XmlTreeAttribute>)
        ensures
            r@.len() == 2,
            r@[0].0@ == "width"@,
            r@[0].1@ == px_text(box_width(self@.bbox), self@.precision),
            r@[1].0@ == "height"@,
            r@[1].1@ == px_text(box_height(self@.bbox), self@.precision),
    {
        let w = self.size_attr_impl("width", self.width());
        let h = self.size_attr_impl("height", self.height());
        vec![w, h]
    }

    /// The viewBox attribute's value.
    #[allow(non_snake_case)]
    pub fn viewBox_str(&self) -> (r: String)
        ensures
            r@ == viewbox_text(self@.bbox, self@.precision),
    {
        proof {
            reveal_strlit(" ");
        }
        let (x, y, dx, dy) = self.viewBox();
        let mut s = self.p(x);
        s.append(" ");
        s.append(self.p(y).as_str());
        s.append(" ");
        s.append(self.p(dx).as_str());
        s.append(" ");
        s.append(self.p(dy).as_str());
        assert(s@ =~= viewbox_text(self@.bbox, self@.precision));
        s
    }

    pub fn transform_x(&self, x: i64) -> (r: i128)
        ensures
            r == tx(self@, x as int),
    {
        x as i128
    }

    #[allow(non_snake_case)]
    pub fn transform_y_viewBox(&self, y: i64) -> (r: i128)
        ensures
            r == -y + self@.bbox.maxy + self@.bbox.miny,
    {
        -(y as i128) + self.maxy as i128 + self.miny as i128
    }

    pub fn transform_y_wh(&self, y: i64) -> (r: i128)
        ensures
            r == -y + self@.bbox.miny,
    {
        -(y as i128) + self.miny as i128
    }

    pub fn transform_y(&self, y: i64) -> (r: i128)
        ensures
            r == ty(self@, y as int),
    {
        if self.no_viewbox {
            self.transform_y_wh(y)
        } else {
            self.transform_y_viewBox(y)
        }
    }

    /// Appends " x y" for `pt` under the current transform.
    fn push_point(&mut self, pt: Point)
        ensures
            final(self)@ == (PenView { path: old(self)@.path + point_text(old(self)@, pt), ..old(self)@ }),
    {
        proof {
            reveal_strlit(" ");
        }
        let xs = self.p(self.transform_x(pt.x));
        let ys = self.p(self.transform_y(pt.y));
        self.path.append(" ");
        self.path.append(xs.as_str());
        self.path.append(" ");
        self.path.append(ys.as_str());
        assert(self@.path =~= old(self)@.path + point_text(old(self)@, pt));
    }

    pub fn move_to(&mut self, pt: Point)
        ensures
            final(self)@ == step(old(self)@, Verb::Move(pt)),
    {
        proof {
            reveal_strlit("M");
            reveal_with_fuel(points_text, 4);
            reveal_with_fuel(widen_all, 4);
        }
        self.observe(pt);
        self.path.append("M");
        self.push_point(pt);
        let ghost s1 = PenView { bbox: widen(old(self)@.bbox, pt), ..old(self)@ };
        assert(points_text(s1, seq![pt]) =~= point_text(s1, pt)) by {
            assert(seq![pt].drop_last() =~= Seq::<Point>::empty());
        }
        assert(widen_all(old(self)@.bbox, seq![pt]) == widen(old(self)@.bbox, pt)) by {
            assert(seq![pt].drop_last() =~= Seq::<Point>::empty());
        }
        assert(self@.path =~= step(old(self)@, Verb::Move(pt)).path);
    }

    pub fn line_to(&mut self, pt: Point)
        ensures
            final(self)@ == step(old(self)@, Verb::Line(pt)),
    {
        proof {
            reveal_strlit("L");
            reveal_with_fuel(points_text, 4);
            reveal_with_fuel(widen_all, 4);
        }
        self.observe(pt);
        self.path.append("L");
        self.push_point(pt);
        let ghost s1 = PenView { bbox: widen(old(self)@.bbox, pt), ..old(self)@ };
        assert(points_text(s1, seq![pt]) =~= point_text(s1, pt)) by {
            assert(seq![pt].drop_last() =~= Seq::<Point>::empty());
        }
        assert(widen_all(old(self)@.bbox, seq![pt]) == widen(old(self)@.bbox, pt)) by {
            assert(seq![pt].drop_last() =~= Seq::<Point>::empty());
        }
        assert(self@.path =~= step(old(self)@, Verb::Line(pt)).path);
    }

    pub fn qcurve_to(&mut self, c: Point, pt: Point)
        ensures
            final(self)@ == step(old(self)@, Verb::Quad(c, pt)),
    {
        proof {
            reveal_strlit("Q");
            reveal_with_fuel(points_text, 4);
            reveal_with_fuel(widen_all, 4);
        }
        let ghost pts = seq![c, pt];
        assert(pts.drop_last() =~= seq![c]);
        assert(seq![c].drop_last() =~= Seq::<Point>::empty());
        self.observe(c);
        self.observe(pt);
        self.path.append("Q");
        self.push_point(c);
        self.push_point(pt);
        assert(self@.path =~= step(old(self)@, Verb::Quad(c, pt)).path);
    }

    pub fn curve_to(&mut self, c1: Point, c2: Point, pt: Point)
        ensures
            final(self)@ == step(old(self)@, Verb::Cubic(c1, c2, pt)),
    {
        proof {
            reveal_strlit("C");
            reveal_with_fuel(points_text, 4);
            reveal_with_fuel(widen_all, 4);
        }
        let ghost pts = seq![c1, c2, pt];
        assert(pts.drop_last() =~= seq![c1, c2]);
        assert(seq![c1, c2].drop_last() =~= seq![c1]);
        assert(seq![c1].drop_last() =~= Seq::<Point>::empty());
        self.observe(c1);
        self.observe(c2);
        self.observe(pt);
        self.path.append("C");
        self.push_point(c1);
        self.push_point(c2);
        self.push_point(pt);
        assert(self@.path =~= step(old(self)@, Verb::Cubic(c1, c2, pt)).path);
    }

    pub fn close_path(&mut self)
        ensures
            final(self)@ == step(old(self)@, Verb::Close),
    {
        proof {
            reveal_strlit("Z");
        }
        self.extend_path("Z");
        assert(self@.path =~= step(old(self)@, Verb::Close).path);
    }

    /// Widens the box by every point of `v`, in order.
    pub fn observe_verb(&mut self, v: Verb)
        ensures
            final(self)@ == (PenView { bbox: widen_all(old(self)@.bbox, verb_points(v)), ..old(self)@ }),
    {
        proof {
            reveal_with_fuel(widen_all, 4);
        }
        match v {
            Verb::Move(p) => self.observe(p),
            Verb::Line(p) => self.observe(p),
            Verb::Quad(c, p) => {
                self.observe(c);
                self.observe(p);
            },
            Verb::Cubic(c1, c2, p) => {
                self.observe(c1);
                self.observe(c2);
                self.observe(p);
            },
            _ => {},
        }
        proof {
            let pts = verb_points(v);
            if pts.len() == 3 {
                assert(pts.drop_last().drop_last().drop_last() =~= Seq::<Point>::empty());
            } else if pts.len() == 2 {
                assert(pts.drop_last().drop_last() =~= Seq::<Point>::empty());
            } else if pts.len() == 1 {
                assert(pts.drop_last() =~= Seq::<Point>::empty());
            }
        }
    }

    /// Transcodes every verb in order: every point first widens the box, then
    /// every verb is written with the final box's transform, so one flip holds
    /// for the whole outline. If any verb has no SVG command, the first such
    /// index is reported and the pen is left as it was.
    pub fn apply_outline(&mut self, verbs: &Vec<Verb>) -> (r: Result<(), TranscodeError>)
        ensures
            match r {
                Ok(()) => (forall|i: int| 0 <= i < verbs@.len() ==> is_supported(#[trigger] verbs@[i]))
                    && final(self)@ == run(old(self)@, verbs@),
                Err(TranscodeError::UnsupportedVerb(k)) => k < verbs@.len() && !is_supported(verbs@[k as int])
                    && (forall|i: int| 0 <= i < k ==> is_supported(#[trigger] verbs@[i]))
                    && final(self)@ == old(self)@,
            },
    {
        let mut k: usize = 0;
        while k < verbs.len()
            invariant
                0 <= k <= verbs@.len(),
                forall|i: int| 0 <= i < k ==> is_supported(#[trigger] verbs@[i]),
            decreases verbs@.len() - k,
        {
            match verbs[k] {
                Verb::Conic(_, _) | Verb::Done => {
                    return Err(TranscodeError::UnsupportedVerb(k));
                },
                _ => {},
            }
            k += 1;
        }
        let mut i: usize = 0;
        while i < verbs.len()
            invariant
                0 <= i <= verbs@.len(),
                self@ == (PenView { bbox: widen_verbs(old(self)@.bbox, verbs@.subrange(0, i as int)), ..old(self)@ }),
            decreases verbs@.len() - i,
        {
            assert(verbs@.subrange(0, i as int + 1).drop_last() =~= verbs@.subrange(0, i as int));
            self.observe_verb(verbs[i]);
            i += 1;
        }
        assert(verbs@.subrange(0, i as int) =~= verbs@);
        let ghost f = fixed_state(old(self)@, verbs@);
        proof {
            lemma_widen_verbs(old(self)@.bbox, verbs@);
        }
        let mut i: usize = 0;
        while i < verbs.len()
            invariant
                0 <= i <= verbs@.len(),
                f == fixed_state(old(self)@, verbs@),
                forall|j: int| 0 <= j < verbs@.len() ==> is_supported(#[trigger] verbs@[j]),
                forall|j: int| 0 <= j < verbs@.len() ==> holds_points(f.bbox, #[trigger] verbs@[j]),
                self@ == (PenView { path: old(self)@.path + verbs_text(f, verbs@.subrange(0, i as int)), ..f }),
            decreases verbs@.len() - i,
        {
            assert(verbs@.subrange(0, i as int + 1).drop_last() =~= verbs@.subrange(0, i as int));
            let v = verbs[i];
            proof {
                assert(holds_points(f.bbox, verbs@[i as int]));
                lemma_step_in_box(self@, v);
                lemma_points_text_same(self@, f, verb_points(v));
            }
            match v {
                Verb::Move(p) => self.move_to(p),
                Verb::Line(p) => self.line_to(p),
                Verb::Quad(c, p) => self.qcurve_to(c, p),
                Verb::Cubic(c1, c2, p) => self.curve_to(c1, c2, p),
                _ => self.close_path(),
            }
            assert(self@.path =~= old(self)@.path + verbs_text(f, verbs@.subrange(0, i as int + 1)));
            i += 1;
        }
        assert(verbs@.subrange(0, i as int) =~= verbs@);
        Ok(())
    }
}

} // verus!
