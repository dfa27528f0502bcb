use trackviz::figure::{Elem, Figure, Style, Track, DEFAULT_HEIGHT, DEFAULT_WIDTH};
use trackviz::geometry::{Band, Frac, Point, Prim, Scale};

fn elem(style: Style, label: &str, start: usize, length: usize, colour: &str) -> Elem {
    Elem { style, label: label.to_string(), start, length, colour: colour.to_string() }
}

fn track(height: usize, elems: Vec<Elem>) -> Track {
    Track { height, elems }
}

fn frac(num: u128, den: u128) -> Frac {
    Frac { num, den }
}

fn pt(x: Frac, y: Frac) -> Point {
    Point { x, nudge: 0, y }
}

#[test]
fn new_uses_default_canvas() {
    let f = Figure::new(vec![track(10, vec![])]);
    assert_eq!(f.width, DEFAULT_WIDTH);
    assert_eq!(f.width, 1000);
    assert_eq!(f.height, DEFAULT_HEIGHT);
    assert_eq!(f.height, 200);
    assert_eq!(f.tracks.len(), 1);
}

#[test]
fn push_interval_on_empty_figure() {
    let mut f = Figure::new(vec![]);
    f.push_interval(100, 150);
    assert_eq!(f.tracks.len(), 1);
    let t = &f.tracks[0];
    assert_eq!(t.height, 16);
    assert_eq!(t.elems.len(), 1);
    assert_eq!(t.elems[0], elem(Style::Bar, "", 100, 50, "grey"));
    assert_eq!(f.width, 1000);
    assert_eq!(f.height, 200);
}

#[test]
fn push_interval_keeps_earlier_tracks() {
    let first = track(7, vec![elem(Style::Line, "x", 1, 2, "red")]);
    let mut f = Figure::new(vec![first.clone()]);
    f.push_interval(5, 5);
    assert_eq!(f.tracks.len(), 2);
    assert_eq!(f.tracks[0], first);
    assert_eq!(f.tracks[1].elems[0].length, 0);
}

#[test]
fn height_accumulates_over_tracks() {
    let f = Figure::new(vec![
        track(16, vec![elem(Style::Rect, "a", 0, 4, "red")]),
        track(20, vec![]),
        track(10, vec![]),
    ]);
    assert_eq!(f.total_height(), Some(55));
    let d = f.to_svg().unwrap();
    assert_eq!(d.height, 55);
    assert_eq!(d.width, 1000);
}

#[test]
fn rows_are_cumulative() {
    let f = Figure::new(vec![track(16, vec![]), track(20, vec![]), track(10, vec![])]);
    let d = f.to_svg().unwrap();
    let rows: Vec<usize> = d.bands.iter().map(|b| b.y).collect();
    assert_eq!(rows, vec![0, 19, 42]);
}

#[test]
fn rows_advance_for_zero_height_tracks() {
    let f = Figure::new(vec![track(0, vec![]), track(0, vec![])]);
    let d = f.to_svg().unwrap();
    assert_eq!(d.bands[0].y, 0);
    assert_eq!(d.bands[1].y, 3);
    assert_eq!(d.height, 6);
}

#[test]
fn empty_figure_renders_blank_canvas() {
    let f = Figure::new(vec![]);
    let d = f.to_svg().unwrap();
    assert_eq!(d.height, 0);
    assert!(d.bands.is_empty());
}

#[test]
fn figure_without_elements_has_unit_extent() {
    let f = Figure::new(vec![track(12, vec![]), track(4, vec![])]);
    assert_eq!(f.extent(), 0);
    assert_eq!(f.scale(), Scale { extent: 1, width: 1000 });
    let d = f.to_svg().unwrap();
    assert_eq!(d.bands.len(), 2);
    assert!(d.bands.iter().all(|b| b.glyphs.is_empty()));
    assert_eq!(d.height, 22);
}

#[test]
fn zero_length_elements_at_origin() {
    let f = Figure::new(vec![track(10, vec![elem(Style::Line, "", 0, 0, "red")])]);
    assert_eq!(f.scale().extent, 1);
    let d = f.to_svg().unwrap();
    let g = &d.bands[0].glyphs[0];
    assert_eq!(g.x, frac(0, 1));
}

#[test]
fn scale_takes_widest_end_across_tracks() {
    let f = Figure::new(vec![
        track(16, vec![elem(Style::Rect, "A", 0, 10, "red"), elem(Style::Rect, "B", 30, 5, "red")]),
        track(16, vec![elem(Style::Line, "", 5, 20, "blue")]),
    ]);
    assert_eq!(f.tracks[0].extent(), 35);
    assert_eq!(f.tracks[1].extent(), 25);
    assert_eq!(f.extent(), 35);
    assert_eq!(f.scale(), Scale { extent: 35, width: 1000 });
}

#[test]
fn extent_handles_largest_positions() {
    let f = Figure::new(vec![track(1, vec![elem(Style::Rect, "", usize::MAX, usize::MAX, "red")])]);
    assert_eq!(f.extent(), 2 * (usize::MAX as u128));
}

#[test]
fn total_height_overflow_is_reported() {
    let f = Figure::new(vec![track(usize::MAX, vec![])]);
    assert_eq!(f.total_height(), None);
    assert!(f.to_svg().is_none());
    let g = Figure::new(vec![track(usize::MAX - 3, vec![])]);
    assert_eq!(g.total_height(), Some(usize::MAX));
}

#[test]
fn rendering_twice_is_identical() {
    let f = Figure::new(vec![
        track(16, vec![elem(Style::Left, "L", 3, 9, "green")]),
        track(8, vec![elem(Style::Bar, "", 0, 40, "grey")]),
    ]);
    assert_eq!(f.to_svg(), f.to_svg());
}

#[test]
fn rect_geometry() {
    let e = elem(Style::Rect, "A", 10, 20, "red");
    let s = Scale { extent: 40, width: 1000 };
    let g = e.draw(s, 16);
    // 10 units at 40 units per 1000 pixels: 250 pixels.
    assert_eq!(g.x, frac(10_000, 40));
    assert_eq!(
        g.prims,
        vec![
            Prim::Rect { width: frac(20_000, 40), height: frac(16, 1), colour: "red".to_string() },
            Prim::Text { at: pt(frac(20_000, 80), frac(16, 2)), text: "A".to_string() },
        ]
    );
}

#[test]
fn line_geometry() {
    let e = elem(Style::Line, "ignored", 5, 20, "blue");
    let g = e.draw(Scale { extent: 25, width: 500 }, 10);
    assert_eq!(g.x, frac(2500, 25));
    assert_eq!(
        g.prims,
        vec![Prim::Segment {
            from: pt(frac(0, 25), frac(10, 2)),
            to: pt(frac(10_000, 25), frac(10, 2)),
            colour: "blue".to_string(),
        }]
    );
}

#[test]
fn bar_geometry() {
    let e = elem(Style::Bar, "", 100, 50, "grey");
    let g = e.draw(Scale { extent: 150, width: 1000 }, 16);
    let x0 = frac(0, 150);
    let x1 = frac(50_000, 150);
    let grey = "grey".to_string();
    assert_eq!(g.x, frac(100_000, 150));
    assert_eq!(
        g.prims,
        vec![
            Prim::Segment { from: pt(x0, frac(0, 1)), to: pt(x0, frac(16, 1)), colour: grey.clone() },
            Prim::Segment { from: pt(x0, frac(16, 2)), to: pt(x1, frac(16, 2)), colour: grey.clone() },
            Prim::Segment { from: pt(x1, frac(0, 1)), to: pt(x1, frac(16, 1)), colour: grey },
        ]
    );
}

#[test]
fn left_flag_geometry() {
    let e = elem(Style::Left, "rev", 0, 4, "teal");
    let g = e.draw(Scale { extent: 8, width: 100 }, 20);
    let x0 = frac(0, 8);
    let x1 = frac(400, 8);
    let (y0, y1, ym) = (frac(0, 1), frac(20, 1), frac(20, 2));
    assert_eq!(
        g.prims,
        vec![
            Prim::Polygon {
                points: vec![
                    pt(x0, y0),
                    pt(x1, y0),
                    pt(x1, y1),
                    pt(x0, y1),
                    Point { x: x0, nudge: -10, y: ym },
                    pt(x0, y0),
                ],
                colour: "teal".to_string(),
            },
            Prim::Text { at: pt(frac(400, 16), ym), text: "rev".to_string() },
        ]
    );
}

#[test]
fn right_flag_geometry() {
    let e = elem(Style::Right, "fwd", 2, 4, "teal");
    let g = e.draw(Scale { extent: 8, width: 100 }, 20);
    let x0 = frac(0, 8);
    let x1 = frac(400, 8);
    let (y0, y1, ym) = (frac(0, 1), frac(20, 1), frac(20, 2));
    assert_eq!(g.x, frac(200, 8));
    assert_eq!(
        g.prims[0],
        Prim::Polygon {
            points: vec![
                pt(x0, y0),
                pt(x1, y0),
                Point { x: x1, nudge: 10, y: ym },
                pt(x1, y1),
                pt(x0, y1),
                pt(x0, y0),
            ],
            colour: "teal".to_string(),
        }
    );
}

#[test]
fn left_and_right_flags_mirror() {
    let s = Scale { extent: 8, width: 100 };
    let l = elem(Style::Left, "z", 2, 4, "teal").draw(s, 20);
    let r = elem(Style::Right, "z", 2, 4, "teal").draw(s, 20);
    assert_eq!(l.x, r.x);
    assert_eq!(l.prims[1], r.prims[1]);
    let (Prim::Polygon { points: lp, .. }, Prim::Polygon { points: rp, .. }) = (&l.prims[0], &r.prims[0]) else {
        panic!("flags are polygons");
    };
    let span = 400u128;
    for p in lp {
        let m = Point { x: frac(span - p.x.num, p.x.den), nudge: -p.nudge, y: p.y };
        assert!(rp.contains(&m));
    }
    for p in rp {
        let m = Point { x: frac(span - p.x.num, p.x.den), nudge: -p.nudge, y: p.y };
        assert!(lp.contains(&m));
    }
}

#[test]
fn default_style_draws_as_rect() {
    assert_eq!(Style::default(), Style::Rect);
    let s = Scale { extent: 10, width: 1000 };
    let a = elem(Style::default(), "A", 1, 2, "red").draw(s, 16);
    let b = elem(Style::Rect, "A", 1, 2, "red").draw(s, 16);
    assert_eq!(a, b);
}

#[test]
fn track_draws_elements_in_order() {
    let t = track(
        12,
        vec![elem(Style::Line, "", 0, 5, "a"), elem(Style::Rect, "r", 5, 5, "b")],
    );
    let s = Scale { extent: 10, width: 100 };
    let band: Band = t.draw(7, s);
    assert_eq!(band.y, 7);
    assert_eq!(band.glyphs, vec![t.elems[0].draw(s, 12), t.elems[1].draw(s, 12)]);
}

#[test]
fn figure_draws_tracks_at_their_rows() {
    let f = Figure::new(vec![
        track(16, vec![elem(Style::Rect, "A", 0, 10, "red")]),
        track(20, vec![elem(Style::Line, "", 5, 20, "blue")]),
    ]);
    let s = Scale { extent: 25, width: 1000 };
    let d = f.to_svg().unwrap();
    assert_eq!(d.bands, vec![f.tracks[0].draw(0, s), f.tracks[1].draw(19, s)]);
    assert_eq!(d.height, 42);
}

#[test]
fn two_track_document_holds_its_fields() {
    let f = Figure::new(vec![
        track(16, vec![elem(Style::Rect, "A", 0, 10, "red")]),
        track(16, vec![elem(Style::Line, "", 5, 20, "blue")]),
    ]);
    let copy = f.clone();
    assert_eq!(copy, f);
    assert_eq!(copy.tracks[0].elems[0], elem(Style::Rect, "A", 0, 10, "red"));
    assert_eq!(copy.tracks[1].elems[0], elem(Style::Line, "", 5, 20, "blue"));
}
