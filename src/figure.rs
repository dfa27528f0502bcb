//! The track document and its layout: one shared horizontal scale taken from
//! the widest element, and tracks stacked top to bottom.
use vstd::prelude::*;
use crate::geometry::{
    Band, BandModel, Drawing, DrawingModel, Frac, Glyph, GlyphModel, Point, Prim, Scale, Shape,
};

verus! {

/// Vertical gap, in pixels, left below every track.
pub const PADDING: usize = 3;

/// Canvas width of a new figure, in pixels.
pub const DEFAULT_WIDTH: usize = 1000;

/// Declared height of a new figure; rendering measures its own.
pub const DEFAULT_HEIGHT: usize = 200;

/// Height of a track added by [`Figure::push_interval`].
pub const INTERVAL_HEIGHT: usize = 16;

/// How far the point of a `Left` or `Right` flag sticks out, in pixels.
pub const FLAG_POINT: i8 = 10;

/// How an element is drawn.
#[derive(Clone, Copy, Debug, PartialEq, Eq, Structural)]
pub enum Style {
    /// A filled box with its label in the middle.
    Rect,
    /// A horizontal stroke through mid-height.
    Line,
    /// An I-beam: a cap at each end and a stroke between them.
    Bar,
    /// A filled flag pointing left, labelled.
    Left,
    /// A filled flag pointing right, labelled.
    Right,
}

/// The style of an element that names none.
pub open spec fn default_style() -> Style {
    Style::Rect
}

impl Default for Style {
    fn default() -> (r: Style)
        ensures
            r == default_style(),
    {
        Style::Rect
    }
}

/// One styled interval of a track: `length` coordinate units from `start`.
#[derive(Clone, Debug, PartialEq)]
pub struct Elem {
    pub style: Style,
    pub label: String,
    pub start: usize,
    pub length: usize,
    pub colour: String,
}

/// `v` coordinate units in pixels, over the element frame's denominator.
pub open spec fn x_px(v: int, s: Scale) -> Frac {
    Frac { num: (v * s.width) as u128, den: s.extent }
}

/// Half of `v` coordinate units in pixels.
pub open spec fn half_x_px(v: int, s: Scale) -> Frac {
    Frac { num: (v * s.width) as u128, den: (2 * s.extent) as u128 }
}

/// `n / d` pixels down.
pub open spec fn y_px(n: int, d: int) -> Frac {
    Frac { num: n as u128, den: d as u128 }
}

pub open spec fn at(x: Frac, y: Frac) -> Point {
    Point { x, nudge: 0, y }
}

/// The primitives of `e` in its own frame, on a band `h` pixels high.
pub open spec fn shapes_of(e: Elem, s: Scale, h: usize) -> Seq<Shape> {
    let x0 = x_px(0, s);
    let x1 = x_px(e.length as int, s);
    let y0 = y_px(0, 1);
    let y1 = y_px(h as int, 1);
    let ym = y_px(h as int, 2);
    let label = Shape::Text { at: at(half_x_px(e.length as int, s), ym), text: e.label@ };
    match e.style {
        Style::Rect => seq![Shape::Rect { width: x1, height: y1, colour: e.colour@ }, label],
        Style::Line => seq![Shape::Segment { from: at(x0, ym), to: at(x1, ym), colour: e.colour@ }],
        Style::Bar => seq![
            Shape::Segment { from: at(x0, y0), to: at(x0, y1), colour: e.colour@ },
            Shape::Segment { from: at(x0, ym), to: at(x1, ym), colour: e.colour@ },
            Shape::Segment { from: at(x1, y0), to: at(x1, y1), colour: e.colour@ },
        ],
        Style::Left => seq![
            Shape::Polygon {
                points: seq![
                    at(x0, y0),
                    at(x1, y0),
                    at(x1, y1),
                    at(x0, y1),
                    Point { x: x0, nudge: (-FLAG_POINT) as i8, y: ym },
                    at(x0, y0),
                ],
                colour: e.colour@,
            },
            label,
        ],
        Style::Right => seq![
            Shape::Polygon {
                points: seq![
                    at(x0, y0),
                    at(x1, y0),
                    Point { x: x1, nudge: FLAG_POINT, y: ym },
                    at(x1, y1),
                    at(x0, y1),
                    at(x0, y0),
                ],
                colour: e.colour@,
            },
            label,
        ],
    }
}

/// The glyph of `e`: its shapes, moved to where it starts.
pub open spec fn glyph_of(e: Elem, s: Scale, h: usize) -> GlyphModel {
    GlyphModel { x: x_px(e.start as int, s), shapes: shapes_of(e, s, h) }
}

proof fn lemma_px_fits(v: int, w: int)
    requires
        0 <= v <= usize::MAX,
        0 <= w <= usize::MAX,
    ensures
        0 <= v * w <= u128::MAX,
{
    assert(usize::MAX <= u64::MAX);
    assert(0 <= v * w <= u64::MAX * u64::MAX) by (nonlinear_arith)
        requires
            0 <= v <= u64::MAX,
            0 <= w <= u64::MAX,
    ;
}

fn at_x(x: Frac, y: Frac) -> (r: Point)
    ensures
        r == at(x, y),
{
    Point { x, nudge: 0, y }
}

impl Elem {
    /// Draws the element on a band `height` pixels high, at `scale`.
    pub fn draw(&self, scale: Scale, height: usize) -> (r: Glyph)
        requires
            scale.wf(),
        ensures
            r@ == glyph_of(*self, scale, height),
    {
        proof {
            lemma_px_fits(self.start as int, scale.width as int);
            lemma_px_fits(self.length as int, scale.width as int);
        }
        let w = scale.width as u128;
        let x0 = Frac { num: 0, den: scale.extent };
        let x1 = Frac { num: self.length as u128 * w, den: scale.extent };
        let xm = Frac { num: self.length as u128 * w, den: 2 * scale.extent };
        let y0 = Frac { num: 0, den: 1 };
        let y1 = Frac { num: height as u128, den: 1 };
        let ym = Frac { num: height as u128, den: 2 };
        let back: i8 = -FLAG_POINT;
        let prims = match self.style {
            Style::Rect => vec![
                Prim::Rect { width: x1, height: y1, colour: self.colour.clone() },
                Prim::Text { at: at_x(xm, ym), text: self.label.clone() },
            ],
            Style::Line => vec![
                Prim::Segment { from: at_x(x0, ym), to: at_x(x1, ym), colour: self.colour.clone() },
            ],
            Style::Bar => vec![
                Prim::Segment { from: at_x(x0, y0), to: at_x(x0, y1), colour: self.colour.clone() },
                Prim::Segment { from: at_x(x0, ym), to: at_x(x1, ym), colour: self.colour.clone() },
                Prim::Segment { from: at_x(x1, y0), to: at_x(x1, y1), colour: self.colour.clone() },
            ],
            Style::Left => vec![
                Prim::Polygon {
                    points: vec![
                        at_x(x0, y0),
                        at_x(x1, y0),
                        at_x(x1, y1),
                        at_x(x0, y1),
                        Point { x: x0, nudge: back, y: ym },
                        at_x(x0, y0),
                    ],
                    colour: self.colour.clone(),
                },
                Prim::Text { at: at_x(xm, ym), text: self.label.clone() },
            ],
            Style::Right => vec![
                Prim::Polygon {
                    points: vec![
                        at_x(x0, y0),
                        at_x(x1, y0),
                        Point { x: x1, nudge: FLAG_POINT, y: ym },
                        at_x(x1, y1),
                        at_x(x0, y1),
                        at_x(x0, y0),
                    ],
                    colour: self.colour.clone(),
                },
                Prim::Text { at: at_x(xm, ym), text: self.label.clone() },
            ],
        };
        let r = Glyph { x: Frac { num: self.start as u128 * w, den: scale.extent }, prims };
        proof {
            assert(r@.shapes =~= shapes_of(*self, scale, height));
        }
        r
    }
}

/// A horizontal band `height` pixels high holding elements in drawing order.
#[derive(Clone, Debug, PartialEq)]
pub struct Track {
    pub height: usize,
    pub elems: Vec<Elem>,
}

/// Where an element ends, in coordinate units.
pub open spec fn end_of(e: Elem) -> nat {
    (e.start + e.length) as nat
}

/// The largest end among `es`, or 0 when there is none.
pub open spec fn elems_extent(es: Seq<Elem>) -> nat
    decreases es.len(),
{
    if es.len() == 0 {
        0
    } else {
        let rest = elems_extent(es.drop_last());
        if end_of(es.last()) >= rest {
            end_of(es.last())
        } else {
            rest
        }
    }
}

/// The largest end among all elements of `ts`, or 0 when there is none.
pub open spec fn tracks_extent(ts: Seq<Track>) -> nat
    decreases ts.len(),
{
    if ts.len() == 0 {
        0
    } else {
        let rest = tracks_extent(ts.drop_last());
        let last = elems_extent(ts.last().elems@);
        if last >= rest {
            last
        } else {
            rest
        }
    }
}

/// Height of `ts` stacked, each track followed by the padding.
pub open spec fn stack_height(ts: Seq<Track>) -> nat
    decreases ts.len(),
{
    if ts.len() == 0 {
        0
    } else {
        (stack_height(ts.drop_last()) + ts.last().height + PADDING) as nat
    }
}

/// How far down the `i`th of `ts` is drawn.
pub open spec fn row_offset(ts: Seq<Track>, i: int) -> nat {
    stack_height(ts.take(i))
}

/// The band of `t` drawn `row` pixels down.
pub open spec fn band_of(t: Track, row: usize, s: Scale) -> BandModel {
    BandModel { y: row, glyphs: t.elems@.map_values(|e: Elem| glyph_of(e, s, t.height)) }
}

proof fn lemma_elems_extent_bound(es: Seq<Elem>)
    ensures
        elems_extent(es) <= 2 * usize::MAX,
    decreases es.len(),
{
    if es.len() > 0 {
        lemma_elems_extent_bound(es.drop_last());
    }
}

impl Track {
    /// The largest end among the track's elements, 0 when it has none.
    pub fn extent(&self) -> (r: u128)
        ensures
            r == elems_extent(self.elems@),
    {
        let mut m: u128 = 0;
        let mut i: usize = 0;
        while i < self.elems.len()
            invariant
                i <= self.elems@.len(),
                m == elems_extent(self.elems@.take(i as int)),
            decreases self.elems@.len() - i,
        {
            let e = &self.elems[i];
            let end = e.start as u128 + e.length as u128;
            proof {
                assert(self.elems@.take(i as int + 1).drop_last() =~= self.elems@.take(i as int));
            }
            if end >= m {
                m = end;
            }
            i = i + 1;
        }
        proof {
            assert(self.elems@.take(i as int) =~= self.elems@);
        }
        m
    }

    /// Draws the track's elements, in order, `row` pixels down, at `scale`.
    pub fn draw(&self, row: usize, scale: Scale) -> (r: Band)
        requires
            scale.wf(),
        ensures
            r@ == band_of(*self, row, scale),
    {
        let mut glyphs: Vec<Glyph> = Vec::new();
        let mut i: usize = 0;
        while i < self.elems.len()
            invariant
                scale.wf(),
                i <= self.elems@.len(),
                glyphs@.len() == i,
                forall|j: int|
                    0 <= j < i ==> #[trigger] glyphs@[j]@ == glyph_of(
                        self.elems@[j],
                        scale,
                        self.height,
                    ),
            decreases self.elems@.len() - i,
        {
            glyphs.push(self.elems[i].draw(scale, self.height));
            i = i + 1;
        }
        let r = Band { y: row, glyphs };
        proof {
            assert(r@.glyphs =~= band_of(*self, row, scale).glyphs);
        }
        r
    }
}

/// A track diagram: a canvas `width` pixels wide and the tracks drawn on it,
/// top to bottom. `height` is only declared: rendering measures the tracks.
#[derive(Clone, Debug, PartialEq)]
pub struct Figure {
    pub width: usize,
    pub height: usize,
    pub tracks: Vec<Track>,
}

/// The scale of `f`: the widest element end across all of its tracks spans
/// the canvas width. A figure with no extent at all takes an extent of one
/// unit, so that no position divides by zero.
pub open spec fn figure_scale(f: Figure) -> Scale {
    let m = tracks_extent(f.tracks@);
    Scale { extent: if m == 0 { 1 } else { m as u128 }, width: f.width }
}

/// What `f` renders to: a canvas of its width and of its stacked height,
/// each track drawn below those before it, all at the figure's scale.
pub open spec fn drawing_of(f: Figure) -> DrawingModel {
    let ts = f.tracks@;
    DrawingModel {
        width: f.width,
        height: stack_height(ts) as usize,
        bands: Seq::new(
            ts.len(),
            |i: int| band_of(ts[i], row_offset(ts, i) as usize, figure_scale(f)),
        ),
    }
}

/// The track that an interval from `s` to `e` adds: 16 pixels high, holding
/// one grey, unlabelled `Bar` over the interval.
pub open spec fn is_interval_track(t: Track, s: usize, e: usize) -> bool {
    &&& t.height == INTERVAL_HEIGHT
    &&& t.elems@.len() == 1
    &&& t.elems@[0].style == Style::Bar
    &&& t.elems@[0].label@ == Seq::<char>::empty()
    &&& t.elems@[0].start == s
    &&& t.elems@[0].length == e - s
    &&& t.elems@[0].colour@ == "grey"@
}

pub(crate) proof fn lemma_tracks_extent_bound(ts: Seq<Track>)
    ensures
        tracks_extent(ts) <= 2 * usize::MAX,
    decreases ts.len(),
{
    if ts.len() > 0 {
        lemma_tracks_extent_bound(ts.drop_last());
        lemma_elems_extent_bound(ts.last().elems@);
    }
}

/// Each prefix of `ts` stacks one track more than the one before it.
pub proof fn lemma_row_step(ts: Seq<Track>, i: int)
    requires
        0 <= i < ts.len(),
    ensures
        row_offset(ts, i + 1) == row_offset(ts, i) + ts[i].height + PADDING,
{
    assert(ts.take(i + 1).drop_last() =~= ts.take(i));
}

/// A prefix of `ts` stacks no higher than `ts` itself.
pub proof fn lemma_row_below_total(ts: Seq<Track>, i: int)
    requires
        0 <= i <= ts.len(),
    ensures
        row_offset(ts, i) <= stack_height(ts),
    decreases ts.len() - i,
{
    if i == ts.len() {
        assert(ts.take(i) =~= ts);
    } else {
        lemma_row_step(ts, i);
        lemma_row_below_total(ts, i + 1);
    }
}

impl Figure {
    /// A figure of the default canvas size holding `tracks`.
    pub fn new(tracks: Vec<Track>) -> (r: Self)
        ensures
            r.width == DEFAULT_WIDTH,
            r.height == DEFAULT_HEIGHT,
            r.tracks@ == tracks@,
    {
        Self { width: DEFAULT_WIDTH, height: DEFAULT_HEIGHT, tracks }
    }

    /// Appends a track holding one grey, unlabelled `Bar` from `s` to `e`.
    pub fn push_interval(&mut self, s: usize, e: usize)
        requires
            s <= e,
        ensures
            final(self).width == old(self).width,
            final(self).height == old(self).height,
            final(self).tracks@.len() == old(self).tracks@.len() + 1,
            final(self).tracks@.take(old(self).tracks@.len() as int) == old(self).tracks@,
            is_interval_track(final(self).tracks@.last(), s, e),
    {
        let elem = Elem {
            style: Style::Bar,
            label: String::new(),
            start: s,
            length: e - s,
            colour: "grey".to_owned(),
        };
        self.tracks.push(Track { height: INTERVAL_HEIGHT, elems: vec![elem] });
        proof {
            assert(final(self).tracks@.take(old(self).tracks@.len() as int) =~= old(self).tracks@);
        }
    }

    /// The widest element end across all tracks, 0 when there is no element.
    pub fn extent(&self) -> (r: u128)
        ensures
            r == tracks_extent(self.tracks@),
    {
        let mut m: u128 = 0;
        let mut i: usize = 0;
        while i < self.tracks.len()
            invariant
                i <= self.tracks@.len(),
                m == tracks_extent(self.tracks@.take(i as int)),
            decreases self.tracks@.len() - i,
        {
            let t = self.tracks[i].extent();
            proof {
                assert(self.tracks@.take(i as int + 1).drop_last() =~= self.tracks@.take(i as int));
            }
            if t >= m {
                m = t;
            }
            i = i + 1;
        }
        proof {
            assert(self.tracks@.take(i as int) =~= self.tracks@);
        }
        m
    }

    /// The scale that the figure is drawn at.
    pub fn scale(&self) -> (r: Scale)
        ensures
            r == figure_scale(*self),
            r.wf(),
    {
        proof {
            lemma_tracks_extent_bound(self.tracks@);
        }
        let m = self.extent();
        Scale { extent: if m == 0 { 1 } else { m }, width: self.width }
    }

    /// The height of the tracks stacked with their padding, when it fits in a
    /// `usize`.
    pub fn total_height(&self) -> (r: Option<usize>)
        ensures
            r is Some <==> stack_height(self.tracks@) <= usize::MAX,
            r is Some ==> r.unwrap() == stack_height(self.tracks@),
    {
        let mut sum: usize = 0;
        let mut i: usize = 0;
        while i < self.tracks.len()
            invariant
                i <= self.tracks@.len(),
                sum == row_offset(self.tracks@, i as int),
            decreases self.tracks@.len() - i,
        {
            proof {
                lemma_row_step(self.tracks@, i as int);
            }
            let h = self.tracks[i].height;
            if h > usize::MAX - PADDING || sum > usize::MAX - PADDING - h {
                proof {
                    lemma_row_below_total(self.tracks@, i as int + 1);
                }
                return None;
            }
            sum = sum + h + PADDING;
            i = i + 1;
        }
        proof {
            assert(self.tracks@.take(i as int) =~= self.tracks@);
        }
        Some(sum)
    }

    /// Draws the figure: every track below those before it, all at the
    /// figure's scale, on a canvas as high as the tracks stacked. `None` when
    /// that height does not fit in a `usize`.
    pub fn to_svg(&self) -> (r: Option<Drawing>)
        ensures
            r is Some <==> stack_height(self.tracks@) <= usize::MAX,
            r is Some ==> r.unwrap()@ == drawing_of(*self),
    {
        let height = match self.total_height() {
            Some(h) => h,
            None => {
                return None;
            },
        };
        let scale = self.scale();
        let ghost ts = self.tracks@;
        let mut bands: Vec<Band> = Vec::new();
        let mut row: usize = 0;
        let mut i: usize = 0;
        while i < self.tracks.len()
            invariant
                ts == self.tracks@,
                scale == figure_scale(*self),
                scale.wf(),
                height == stack_height(ts),
                i <= ts.len(),
                row == row_offset(ts, i as int),
                bands@.len() == i,
                forall|j: int|
                    0 <= j < i ==> #[trigger] bands@[j]@ == band_of(
                        ts[j],
                        row_offset(ts, j) as usize,
                        scale,
                    ),
            decreases ts.len() - i,
        {
            let track = &self.tracks[i];
            bands.push(track.draw(row, scale));
            proof {
                lemma_row_step(ts, i as int);
                lemma_row_below_total(ts, i as int + 1);
            }
            row = row + track.height + PADDING;
            i = i + 1;
        }
        let r = Drawing { width: self.width, height, bands };
        proof {
            assert(r@.bands =~= drawing_of(*self).bands);
        }
        Some(r)
    }
}

} // verus!
