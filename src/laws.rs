//! Properties of the layout that hold of every figure.
use vstd::prelude::*;
use crate::figure::{
    Elem, Figure, Track, Style, PADDING, default_style, drawing_of, elems_extent,
    end_of, figure_scale, glyph_of, lemma_tracks_extent_bound, at, half_x_px, x_px, y_px, lemma_row_step, row_offset, shapes_of, stack_height,
    tracks_extent,
};
use crate::geometry::{DrawingModel, Frac, Point, Scale, Shape};

verus! {

proof fn lemma_elems_extent_widest(es: Seq<Elem>)
    ensures
        forall|j: int| 0 <= j < es.len() ==> end_of(#[trigger] es[j]) <= elems_extent(es),
        elems_extent(es) > 0 ==> exists|j: int|
            0 <= j < es.len() && end_of(#[trigger] es[j]) == elems_extent(es),
    decreases es.len(),
{
    if es.len() > 0 {
        let rest = es.drop_last();
        lemma_elems_extent_widest(rest);
        assert forall|j: int| 0 <= j < es.len() implies end_of(#[trigger] es[j]) <= elems_extent(
            es,
        ) by {
            if j < es.len() - 1 {
                assert(es[j] == rest[j]);
            }
        }
        if elems_extent(es) > 0 && elems_extent(es) != end_of(es.last()) {
            let j = choose|j: int| 0 <= j < rest.len() && end_of(#[trigger] rest[j]) == elems_extent(
                rest,
            );
            assert(es[j] == rest[j]);
        }
    }
}

/// The scale of a figure is its widest element end across all tracks over
/// its canvas width: no element ends further, and where any element ends
/// past zero, one ends exactly there.
pub proof fn lemma_scale_from_widest_end(f: Figure)
    ensures
        figure_scale(f).width == f.width,
        forall|i: int, j: int|
            0 <= i < f.tracks@.len() && 0 <= j < f.tracks@[i].elems@.len() ==> end_of(
                #[trigger] f.tracks@[i].elems@[j],
            ) <= figure_scale(f).extent,
        tracks_extent(f.tracks@) > 0 ==> {
            &&& figure_scale(f).extent == tracks_extent(f.tracks@)
            &&& exists|i: int, j: int|
                0 <= i < f.tracks@.len() && 0 <= j < f.tracks@[i].elems@.len() && end_of(
                    #[trigger] f.tracks@[i].elems@[j],
                ) == tracks_extent(f.tracks@)
        },
{
    lemma_tracks_extent_widest(f.tracks@);
    lemma_tracks_extent_bound(f.tracks@);
    assert(usize::MAX <= u64::MAX);
    let m = tracks_extent(f.tracks@);
    assert(m == 0 || figure_scale(f).extent == m);
}

proof fn lemma_tracks_extent_widest(ts: Seq<Track>)
    ensures
        forall|i: int, j: int|
            0 <= i < ts.len() && 0 <= j < ts[i].elems@.len() ==> end_of(
                #[trigger] ts[i].elems@[j],
            ) <= tracks_extent(ts),
        tracks_extent(ts) > 0 ==> exists|i: int, j: int|
            0 <= i < ts.len() && 0 <= j < ts[i].elems@.len() && end_of(#[trigger] ts[i].elems@[j])
                == tracks_extent(ts),
    decreases ts.len(),
{
    if ts.len() > 0 {
        let rest = ts.drop_last();
        let n = ts.len() - 1;
        lemma_tracks_extent_widest(rest);
        lemma_elems_extent_widest(ts.last().elems@);
        assert forall|i: int, j: int|
            0 <= i < ts.len() && 0 <= j < ts[i].elems@.len() implies end_of(
                #[trigger] ts[i].elems@[j],
            ) <= tracks_extent(ts) by {
            if i < n {
                assert(ts[i].elems@[j] == rest[i].elems@[j]);
            } else {
                assert(ts[i].elems@[j] == ts.last().elems@[j]);
            }
        }
        if tracks_extent(ts) > 0 {
            if tracks_extent(ts) == elems_extent(ts.last().elems@) {
                let j = choose|j: int|
                    0 <= j < ts.last().elems@.len() && end_of(#[trigger] ts.last().elems@[j])
                        == elems_extent(ts.last().elems@);
                assert(ts[n].elems@[j] == ts.last().elems@[j]);
            } else {
                let (i, j) = choose|i: int, j: int|
                    0 <= i < rest.len() && 0 <= j < rest[i].elems@.len() && end_of(
                        #[trigger] rest[i].elems@[j],
                    ) == tracks_extent(rest);
                assert(ts[i].elems@[j] == rest[i].elems@[j]);
            }
        }
    }
}

/// Rendering depends on the figure alone: two renderings of one figure are
/// the same drawing.
pub proof fn lemma_render_deterministic(f: Figure, a: DrawingModel, b: DrawingModel)
    requires
        a == drawing_of(f),
        b == drawing_of(f),
    ensures
        a == b,
{
}

/// Heights accumulate: tracks stacked one run after another are as high as
/// the two runs stacked apart, added.
pub proof fn lemma_height_accumulates(a: Seq<Track>, b: Seq<Track>)
    ensures
        stack_height(a + b) == stack_height(a) + stack_height(b),
    decreases b.len(),
{
    if b.len() > 0 {
        lemma_height_accumulates(a, b.drop_last());
        assert((a + b).drop_last() =~= a + b.drop_last());
    }
}

/// The first track is drawn at the top; each track is drawn at the height of
/// those before it, stacked, and so lies wholly above every later track,
/// padding between.
pub proof fn lemma_rows_stack(ts: Seq<Track>, i: int, j: int)
    requires
        0 <= i < j <= ts.len(),
    ensures
        row_offset(ts, 0) == 0,
        row_offset(ts, i) == stack_height(ts.take(i)),
        row_offset(ts, i) + ts[i].height + PADDING <= row_offset(ts, j),
        row_offset(ts, i) < row_offset(ts, j),
    decreases j - i,
{
    assert(ts.take(0) =~= Seq::<Track>::empty());
    lemma_row_step(ts, i);
    if j > i + 1 {
        lemma_rows_stack(ts, i + 1, j);
    }
}

/// An element that names no style is drawn exactly as one styled `Rect`.
pub proof fn lemma_default_style_draws_as_rect(a: Elem, b: Elem, s: Scale, h: usize)
    requires
        a.style == default_style(),
        b.style == Style::Rect,
        a.label@ == b.label@,
        a.start == b.start,
        a.length == b.length,
        a.colour@ == b.colour@,
    ensures
        glyph_of(a, s, h) == glyph_of(b, s, h),
{
    assert(shapes_of(a, s, h) =~= shapes_of(b, s, h));
}

/// `p` reflected across the vertical line through the middle of a span
/// `span` pixels wide that starts at the frame's origin.
pub open spec fn mirror(p: Point, span: Frac) -> Point {
    Point {
        x: Frac { num: (span.num - p.x.num) as u128, den: p.x.den },
        nudge: (-p.nudge) as i8,
        y: p.y,
    }
}

/// The outline of a flag glyph.
pub open spec fn outline(shapes: Seq<Shape>) -> Seq<Point> {
    match shapes[0] {
        Shape::Polygon { points, .. } => points,
        _ => Seq::empty(),
    }
}

/// A `Left` and a `Right` flag over one span mirror each other: they sit at
/// one place, each corner of either, reflected across the middle of the span,
/// is a corner of the other (the point sticking out 10 pixels to the left
/// turns into the one 10 pixels to the right), and both carry the label at
/// the middle.
#[verifier::rlimit(40)]
pub proof fn lemma_flags_mirror(l: Elem, r: Elem, s: Scale, h: usize)
    requires
        s.wf(),
        l.style == Style::Left,
        r.style == Style::Right,
        l.start == r.start,
        l.length == r.length,
        l.label@ == r.label@,
        l.colour@ == r.colour@,
    ensures
        ({
            let gl = glyph_of(l, s, h);
            let gr = glyph_of(r, s, h);
            let span = x_px(l.length as int, s);
            &&& gl.x == gr.x
            &&& gl.shapes.len() == 2 && gr.shapes.len() == 2
            &&& gl.shapes[1] == gr.shapes[1]
            &&& gl.shapes[1] is Text
            &&& forall|i: int|
                0 <= i < outline(gl.shapes).len() ==> exists|k: int|
                    0 <= k < outline(gr.shapes).len() && outline(gr.shapes)[k] == mirror(
                        #[trigger] outline(gl.shapes)[i],
                        span,
                    )
            &&& forall|k: int|
                0 <= k < outline(gr.shapes).len() ==> exists|i: int|
                    0 <= i < outline(gl.shapes).len() && outline(gl.shapes)[i] == mirror(
                        #[trigger] outline(gr.shapes)[k],
                        span,
                    )
        }),
{
    let gl = glyph_of(l, s, h);
    let gr = glyph_of(r, s, h);
    let x0 = x_px(0, s);
    let x1 = x_px(l.length as int, s);
    let y0 = y_px(0, 1);
    let y1 = y_px(h as int, 1);
    let ym = y_px(h as int, 2);
    let label = Shape::Text { at: at(half_x_px(l.length as int, s), ym), text: l.label@ };
    assert(gl.shapes =~= seq![Shape::Polygon {
        points: seq![
            at(x0, y0), at(x1, y0), at(x1, y1), at(x0, y1),
            Point { x: x0, nudge: -10i8, y: ym }, at(x0, y0),
        ],
        colour: l.colour@,
    }, label]);
    assert(gr.shapes =~= seq![Shape::Polygon {
        points: seq![
            at(x0, y0), at(x1, y0), Point { x: x1, nudge: 10i8, y: ym },
            at(x1, y1), at(x0, y1), at(x0, y0),
        ],
        colour: l.colour@,
    }, label]);
    assert(outline(gl.shapes) == seq![
        at(x0, y0), at(x1, y0), at(x1, y1), at(x0, y1),
        Point { x: x0, nudge: -10i8, y: ym }, at(x0, y0),
    ]);
    assert(outline(gr.shapes) == seq![
        at(x0, y0), at(x1, y0), Point { x: x1, nudge: 10i8, y: ym },
        at(x1, y1), at(x0, y1), at(x0, y0),
    ]);
    lemma_flag_outlines_mirror(x0, x1, y0, y1, ym);
}

proof fn lemma_flag_outlines_mirror(x0: Frac, x1: Frac, y0: Frac, y1: Frac, ym: Frac)
    requires
        x0.num == 0,
        x0.den == x1.den,
    ensures
        ({
            let lo = seq![
                at(x0, y0), at(x1, y0), at(x1, y1), at(x0, y1),
                Point { x: x0, nudge: -10i8, y: ym }, at(x0, y0),
            ];
            let ro = seq![
                at(x0, y0), at(x1, y0), Point { x: x1, nudge: 10i8, y: ym },
                at(x1, y1), at(x0, y1), at(x0, y0),
            ];
            &&& forall|i: int| 0 <= i < lo.len() ==> exists|k: int|
                0 <= k < ro.len() && ro[k] == mirror(#[trigger] lo[i], x1)
            &&& forall|k: int| 0 <= k < ro.len() ==> exists|i: int|
                0 <= i < lo.len() && lo[i] == mirror(#[trigger] ro[k], x1)
        }),
{
    let lo = seq![
        at(x0, y0), at(x1, y0), at(x1, y1), at(x0, y1),
        Point { x: x0, nudge: -10i8, y: ym }, at(x0, y0),
    ];
    let ro = seq![
        at(x0, y0), at(x1, y0), Point { x: x1, nudge: 10i8, y: ym },
        at(x1, y1), at(x0, y1), at(x0, y0),
    ];
    assert(mirror(at(x0, y0), x1) == at(x1, y0));
    assert(mirror(at(x1, y0), x1) == at(x0, y0));
    assert(mirror(at(x1, y1), x1) == at(x0, y1));
    assert(mirror(at(x0, y1), x1) == at(x1, y1));
    assert(mirror(Point { x: x0, nudge: -10i8, y: ym }, x1) == Point { x: x1, nudge: 10i8, y: ym });
    assert(mirror(Point { x: x1, nudge: 10i8, y: ym }, x1) == Point { x: x0, nudge: -10i8, y: ym });
    assert forall|i: int| 0 <= i < lo.len() implies exists|k: int|
        0 <= k < ro.len() && ro[k] == mirror(#[trigger] lo[i], x1) by {
        if i == 0 || i == 5 {
            assert(ro[1] == mirror(lo[i], x1));
        } else if i == 1 {
            assert(ro[0] == mirror(lo[i], x1));
        } else if i == 2 {
            assert(ro[4] == mirror(lo[i], x1));
        } else if i == 3 {
            assert(ro[3] == mirror(lo[i], x1));
        } else {
            assert(ro[2] == mirror(lo[i], x1));
        }
    }
    assert forall|k: int| 0 <= k < ro.len() implies exists|i: int|
        0 <= i < lo.len() && lo[i] == mirror(#[trigger] ro[k], x1) by {
        if k == 0 || k == 5 {
            assert(lo[1] == mirror(ro[k], x1));
        } else if k == 1 {
            assert(lo[0] == mirror(ro[k], x1));
        } else if k == 2 {
            assert(lo[4] == mirror(ro[k], x1));
        } else if k == 3 {
            assert(lo[3] == mirror(ro[k], x1));
        } else {
            assert(lo[2] == mirror(ro[k], x1));
        }
    }
}

/// A figure with no element anywhere is drawn at a positive scale of one
/// unit to its width, with every band empty: nothing divides by zero.
pub proof fn lemma_empty_figure(f: Figure)
    requires
        forall|i: int| 0 <= i < f.tracks@.len() ==> (#[trigger] f.tracks@[i]).elems@.len() == 0,
    ensures
        figure_scale(f).extent == 1,
        figure_scale(f).wf(),
        forall|i: int|
            0 <= i < f.tracks@.len() ==> (#[trigger] drawing_of(f).bands[i]).glyphs.len() == 0,
{
    lemma_tracks_extent_widest(f.tracks@);
    if tracks_extent(f.tracks@) > 0 {
        let (i, j) = choose|i: int, j: int|
            0 <= i < f.tracks@.len() && 0 <= j < f.tracks@[i].elems@.len() && end_of(
                #[trigger] f.tracks@[i].elems@[j],
            ) == tracks_extent(f.tracks@);
        assert(f.tracks@[i].elems@.len() == 0);
    }
}

} // verus!
