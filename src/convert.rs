//! One whole conversion: seed the box from the vertical metrics and the
//! advance width, transcode the outline, then size the document.
use crate::geometry::Extent;
use crate::pen::{
    box_height, box_width, px_text, run, viewbox_text, PenView, SVGPathPen, TranscodeError, Verb,
    XmlTreeAttribute,
};
use vstd::prelude::*;

verus! {

/// How one conversion is configured.
#[derive(Clone, Copy, Debug, PartialEq, Eq, Structural)]
pub struct Options {
    /// Decimal places kept when coordinates are written.
    pub precision: u8,
    /// Size the document by `width`/`height` in pixels instead of a viewBox.
    pub no_viewbox: bool,
    /// Ignore the metrics and advance width; bound by the geometry alone.
    pub no_metrics: bool,
}

/// The vertical metrics of the font, in the coordinates' fixed-point steps.
#[derive(Clone, Copy, Debug, PartialEq, Eq, Structural)]
pub struct VerticalMetrics {
    pub ascender: i64,
    pub descender: i64,
}

/// The result of a conversion: the path data and the sizing attributes.
pub struct Conversion {
    /// The `d` attribute of the glyph's path.
    pub d: String,
    /// `viewBox`, or `width` and `height`, by the sizing mode.
    pub attrs: Vec<XmlTreeAttribute>,
    /// The final box's minimum y, where the baseline sits below the top.
    pub miny: i64,
}

impl Default for Options {
    fn default() -> (r: Options)
        ensures
            r == (Options { precision: 16, no_viewbox: false, no_metrics: false }),
    {
        Options { precision: 16, no_viewbox: false, no_metrics: false }
    }
}

/// The pen before any verb: the metrics set the vertical extrema, the
/// advance width the horizontal ones, unless metrics are switched off.
pub open spec fn seeded(
    options: Options,
    metrics: Option<VerticalMetrics>,
    advance_width: i64,
) -> PenView {
    let (miny, maxy) = match metrics {
        Some(m) if !options.no_metrics => (m.descender as int, m.ascender as int),
        _ => (0, 0),
    };
    let maxx = if options.no_metrics { 0 } else { advance_width as int };
    PenView {
        path: Seq::empty(),
        bbox: Extent { minx: 0, maxx, miny, maxy },
        precision: options.precision as nat,
        no_viewbox: options.no_viewbox,
    }
}

/// Converts `verbs` into path data and sizing attributes. Fails exactly when
/// some verb has no SVG command, naming the first one.
pub fn convert(
    verbs: &Vec<Verb>,
    options: Options,
    metrics: Option<VerticalMetrics>,
    advance_width: i64,
) -> (r: Result<Conversion, TranscodeError>)
    ensures
        match r {
            Ok(c) => {
                let s = run(seeded(options, metrics, advance_width), verbs@);
                &&& forall|i: int| 0 <= i < verbs@.len() ==> crate::pen::is_supported(#[trigger] verbs@[i])
                &&& c.d@ == s.path
                &&& c.miny == s.bbox.miny
                &&& if options.no_viewbox {
                    c.attrs@.len() == 2
                    && c.attrs@[0].0@ == "width"@
                    && c.attrs@[0].1@ == px_text(box_width(s.bbox), s.precision)
                    && c.attrs@[1].0@ == "height"@
                    && c.attrs@[1].1@ == px_text(box_height(s.bbox), s.precision)
                } else {
                    c.attrs@.len() == 1
                    && c.attrs@[0].0@ == "viewBox"@
                    && c.attrs@[0].1@ == viewbox_text(s.bbox, s.precision)
                }
            },
            Err(TranscodeError::UnsupportedVerb(k)) => k < verbs@.len()
                && !crate::pen::is_supported(verbs@[k as int])
                && forall|i: int| 0 <= i < k ==> crate::pen::is_supported(#[trigger] verbs@[i]),
        },
{
    let mut pen = SVGPathPen::new();
    pen.precision = options.precision;
    pen.no_viewbox = options.no_viewbox;
    if !options.no_metrics {
        if let Some(m) = metrics {
            pen.maxy = m.ascender;
            pen.miny = m.descender;
        }
        pen.minx = 0;
        pen.maxx = advance_width;
    }
    assert(pen@ == seeded(options, metrics, advance_width));
    match pen.apply_outline(verbs) {
        Ok(()) => {},
        Err(e) => {
            return Err(e);
        },
    }
    let attrs = if options.no_viewbox {
        pen.px_size_attrs()
    } else {
        vec![(String::from_str("viewBox"), pen.viewBox_str())]
    };
    let miny = pen.miny;
    Ok(Conversion { d: pen.path, attrs, miny })
}

} // verus!
