use glif2svg::convert::{convert, Options, VerticalMetrics};
use glif2svg::geometry::Point;
use glif2svg::pen::{consider_min_max, SVGPathPen, TranscodeError, Verb};
use glif2svg::precision::format_fixed;

const U: i64 = 1_000_000;

fn pt(x: i64, y: i64) -> Point {
    Point { x: x * U, y: y * U }
}

fn opts(precision: u8, no_viewbox: bool, no_metrics: bool) -> Options {
    Options { precision, no_viewbox, no_metrics }
}

fn attr(name: &str, value: &str) -> (String, String) {
    (name.to_string(), value.to_string())
}

#[test]
fn format_drops_trailing_zeros() {
    assert_eq!(format_fixed(1_500_000, 16), "1.5");
    assert_eq!(format_fixed(120_000, 16), "0.12");
    assert_eq!(format_fixed(5, 16), "0.000005");
    assert_eq!(format_fixed(10_000_000, 2), "10");
    assert_eq!(format_fixed(0, 4), "0");
}

#[test]
fn format_truncates_toward_zero() {
    assert_eq!(format_fixed(1_234_567, 3), "1.234");
    assert_eq!(format_fixed(-1_234_567, 3), "-1.234");
    assert_eq!(format_fixed(1_999_999, 0), "1");
    assert_eq!(format_fixed(-1_999_999, 0), "-1");
    assert_eq!(format_fixed(-500_000, 0), "0");
    assert_eq!(format_fixed(5, 5), "0");
}

#[test]
fn format_handles_extreme_values() {
    assert_eq!(format_fixed(i128::MIN, 0), "-170141183460469231731687303715884");
    assert_eq!(format_fixed(i128::MAX, 16), "170141183460469231731687303715884.105727");
}

#[test]
fn format_is_idempotent() {
    for p in 0u8..8 {
        for v in [1_234_567i128, -1_234_567, 987_654_321, -3, 0] {
            let once = format_fixed(v, p);
            let scale = 10i128.pow(6u32.saturating_sub(p as u32));
            let truncated = v - v % scale;
            assert_eq!(format_fixed(truncated, p), once);
        }
    }
}

#[test]
fn precision_zero_renders_integers() {
    let verbs = vec![
        Verb::Move(Point { x: 10_750_000, y: 3_500_000 }),
        Verb::Line(Point { x: -2_250_000, y: -1_500_000 }),
    ];
    let c = convert(&verbs, opts(0, false, true), None, 0).unwrap();
    assert_eq!(c.d, "M 10 -1L -2 3");
    assert_eq!(c.attrs, vec![attr("viewBox", "-2 -1 13 5")]);
}

#[test]
fn square_without_metrics_in_viewbox_mode() {
    let verbs = vec![Verb::Move(pt(10, 10)), Verb::Line(pt(20, 10)), Verb::Line(pt(20, 20)), Verb::Close];
    let c = convert(&verbs, opts(2, false, true), None, 0).unwrap();
    assert_eq!(c.d, "M 10 10L 20 10L 20 0Z");
    assert_eq!(c.attrs, vec![attr("viewBox", "0 0 20 20")]);
}

#[test]
fn empty_outline_keeps_metrics() {
    let m = VerticalMetrics { ascender: 800 * U, descender: -200 * U };
    let c = convert(&vec![], opts(16, false, false), Some(m), 500 * U).unwrap();
    assert_eq!(c.d, "");
    assert_eq!(c.attrs, vec![attr("viewBox", "0 -200 500 1000")]);
    assert_eq!(c.miny, -200 * U);
    let c = convert(&vec![], opts(16, true, false), Some(m), 500 * U).unwrap();
    assert_eq!(c.attrs, vec![attr("width", "500px"), attr("height", "1000px")]);
}

#[test]
fn metrics_seed_the_transform() {
    let m = VerticalMetrics { ascender: 800 * U, descender: -200 * U };
    let c = convert(&vec![Verb::Move(pt(100, 0))], opts(16, false, false), Some(m), 600 * U).unwrap();
    assert_eq!(c.d, "M 100 600");
    assert_eq!(c.attrs, vec![attr("viewBox", "0 -200 600 1000")]);
}

#[test]
fn missing_metrics_fall_back_to_geometry() {
    let c = convert(&vec![Verb::Move(pt(100, 50))], opts(16, false, false), None, 600 * U).unwrap();
    assert_eq!(c.d, "M 100 0");
    assert_eq!(c.attrs, vec![attr("viewBox", "0 0 600 50")]);
}

#[test]
fn no_viewbox_gives_pixel_size() {
    let verbs = vec![Verb::Move(pt(10, 10)), Verb::Line(pt(20, 20))];
    let c = convert(&verbs, opts(16, true, true), None, 0).unwrap();
    assert_eq!(c.d, "M 10 -10L 20 -20");
    assert_eq!(c.attrs, vec![attr("width", "20px"), attr("height", "20px")]);
}

#[test]
fn curves_write_every_point() {
    let verbs = vec![
        Verb::Move(pt(0, 0)),
        Verb::Quad(pt(5, 10), pt(10, 0)),
        Verb::Cubic(pt(12, -4), pt(16, 4), pt(20, 0)),
        Verb::Close,
    ];
    let c = convert(&verbs, opts(16, false, true), None, 0).unwrap();
    assert_eq!(c.d, "M 0 6Q 5 -4 10 6C 12 10 16 2 20 6Z");
    assert_eq!(c.attrs, vec![attr("viewBox", "0 -4 20 14")]);
}

#[test]
fn unsupported_verb_is_reported() {
    let verbs = vec![Verb::Move(pt(1, 1)), Verb::Conic(pt(2, 2), pt(3, 3)), Verb::Done];
    assert!(matches!(convert(&verbs, opts(16, false, true), None, 0), Err(TranscodeError::UnsupportedVerb(1))));
    let mut pen = SVGPathPen::new();
    assert_eq!(pen.apply_outline(&verbs), Err(TranscodeError::UnsupportedVerb(1)));
    assert_eq!(pen.path, "");
    assert_eq!((pen.minx, pen.maxx, pen.miny, pen.maxy), (0, 0, 0, 0));
}

#[test]
fn close_consumes_no_points() {
    let mut pen = SVGPathPen::new();
    pen.move_to(pt(3, 4));
    let before = (pen.minx, pen.maxx, pen.miny, pen.maxy);
    pen.close_path();
    assert_eq!((pen.minx, pen.maxx, pen.miny, pen.maxy), before);
    assert_eq!(pen.path, "M 3 0Z");
}

#[test]
fn bounding_box_only_widens() {
    let mut pen = SVGPathPen::new();
    consider_min_max(&mut pen, &[pt(-5, 7), pt(3, -2)]);
    assert_eq!((pen.minx, pen.maxx, pen.miny, pen.maxy), (-5 * U, 3 * U, -2 * U, 7 * U));
    consider_min_max(&mut pen, &[pt(1, 1)]);
    assert_eq!((pen.minx, pen.maxx, pen.miny, pen.maxy), (-5 * U, 3 * U, -2 * U, 7 * U));
    consider_min_max(&mut pen, &[pt(9, -9)]);
    assert_eq!((pen.minx, pen.maxx, pen.miny, pen.maxy), (-5 * U, 9 * U, -9 * U, 7 * U));
}

#[test]
fn pen_sizing_and_transforms() {
    let mut pen = SVGPathPen::new();
    assert_eq!(pen.precision, 16);
    assert!(!pen.no_viewbox);
    pen.minx = -1_500_000;
    pen.maxx = 10 * U;
    pen.miny = -2 * U;
    pen.maxy = 8 * U;
    assert_eq!(pen.viewBox(), (-1_500_000, -2_000_000, 11_500_000, 10_000_000));
    assert_eq!(pen.width(), 11_500_000);
    assert_eq!(pen.height(), 10_000_000);
    assert_eq!(pen.viewBox_str(), "-1.5 -2 11.5 10");
    assert_eq!(pen.transform_x(3 * U), 3_000_000);
    assert_eq!(pen.transform_y(3 * U), 3_000_000);
    assert_eq!(pen.transform_y_viewBox(3 * U), 3_000_000);
    assert_eq!(pen.transform_y_wh(3 * U), -5_000_000);
    pen.no_viewbox = true;
    assert_eq!(pen.transform_y(3 * U), -5_000_000);
    assert_eq!(pen.size_attr_impl("width", pen.width()), attr("width", "11.5px"));
    assert_eq!(pen.px_size_attrs(), vec![attr("width", "11.5px"), attr("height", "10px")]);
    pen.precision = 0;
    assert_eq!(pen.p(-1_500_000), "-1");
    pen.extend_path("M");
    assert_eq!(pen.path, "M");
}

#[test]
fn emitted_points_stay_inside_viewbox() {
    let verbs = vec![
        Verb::Move(pt(-3, 7)),
        Verb::Cubic(pt(4, -6), pt(9, 12), pt(2, 1)),
        Verb::Line(pt(-8, -9)),
    ];
    let c = convert(&verbs, opts(16, false, true), None, 0).unwrap();
    let nums: Vec<i64> = c
        .d
        .split(|ch: char| ch.is_ascii_alphabetic() || ch == ' ')
        .filter(|s| !s.is_empty())
        .map(|s| s.parse().unwrap())
        .collect();
    let vb: Vec<i64> = c.attrs[0].1.split(' ').map(|s| s.parse().unwrap()).collect();
    for pair in nums.chunks(2) {
        assert!(vb[0] <= pair[0] && pair[0] <= vb[0] + vb[2]);
        assert!(vb[1] <= pair[1] && pair[1] <= vb[1] + vb[3]);
    }
}

#[test]
fn extreme_coordinates_do_not_overflow() {
    let verbs = vec![Verb::Move(Point { x: i64::MIN, y: i64::MAX })];
    let c = convert(&verbs, opts(16, false, true), None, 0).unwrap();
    assert_eq!(c.d, "M -9223372036854.775808 0");
    assert_eq!(
        c.attrs,
        vec![attr("viewBox", "-9223372036854.775808 0 9223372036854.775808 9223372036854.775807")]
    );
}

#[test]
fn one_flip_for_the_whole_outline() {
    let verbs = vec![Verb::Move(pt(0, 0)), Verb::Line(pt(5, 30)), Verb::Line(pt(10, 0)), Verb::Line(pt(15, -10))];
    let c = convert(&verbs, opts(16, false, true), None, 0).unwrap();
    assert_eq!(c.d, "M 0 20L 5 -10L 10 20L 15 30");
    assert_eq!(c.attrs, vec![attr("viewBox", "0 -10 15 40")]);
}

#[test]
fn emitted_points_fit_pixel_size() {
    let verbs = vec![
        Verb::Move(pt(-3, 7)),
        Verb::Cubic(pt(4, -6), pt(9, 12), pt(2, 1)),
        Verb::Line(pt(-8, -9)),
    ];
    let c = convert(&verbs, opts(16, true, true), None, 0).unwrap();
    assert_eq!(c.d, "M -3 -16C 4 -3 9 -21 2 -10L -8 0");
    let nums: Vec<i64> = c
        .d
        .split(|ch: char| ch.is_ascii_alphabetic() || ch == ' ')
        .filter(|s| !s.is_empty())
        .map(|s| s.parse().unwrap())
        .collect();
    let w: i64 = c.attrs[0].1.trim_end_matches("px").parse().unwrap();
    let h: i64 = c.attrs[1].1.trim_end_matches("px").parse().unwrap();
    assert_eq!((w, h), (17, 21));
    for pair in nums.chunks(2) {
        assert!(pair[0].abs() <= w && pair[1].abs() <= h);
    }
}
