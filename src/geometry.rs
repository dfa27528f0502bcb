//! The vector geometry that a figure renders to, in exact rational pixels.
use vstd::prelude::*;

verus! {

/// A non-negative number of pixels, `num / den`.
#[derive(Clone, Copy, Debug, PartialEq, Eq, Structural)]
pub struct Frac {
    pub num: u128,
    pub den: u128,
}

/// A point of an element's local frame: `x` pixels plus `nudge` whole pixels
/// across, `y` pixels down.
#[derive(Clone, Copy, Debug, PartialEq, Eq, Structural)]
pub struct Point {
    pub x: Frac,
    pub nudge: i8,
    pub y: Frac,
}

/// The horizontal scale of a figure: `extent` coordinate units span `width`
/// pixels.
#[derive(Clone, Copy, Debug, PartialEq, Eq, Structural)]
pub struct Scale {
    pub extent: u128,
    pub width: usize,
}

impl Scale {
    /// The extent is positive, so no position divides by zero, and no larger
    /// than the end of an element can be.
    pub open spec fn wf(&self) -> bool {
        0 < self.extent <= 2 * usize::MAX
    }
}

/// One primitive of an element's drawing.
#[derive(Clone, Debug, PartialEq)]
pub enum Prim {
    /// A box from the origin, filled with `colour`, its stroke transparent.
    Rect { width: Frac, height: Frac, colour: String },
    /// A closed path, filled with `colour`, its stroke transparent.
    Polygon { points: Vec<Point>, colour: String },
    /// A segment stroked with `colour`.
    Segment { from: Point, to: Point, colour: String },
    /// A label in a 12 unit monospaced font, centred on `at`.
    Text { at: Point, text: String },
}

/// What a [`Prim`] draws.
pub enum Shape {
    Rect { width: Frac, height: Frac, colour: Seq<char> },
    Polygon { points: Seq<Point>, colour: Seq<char> },
    Segment { from: Point, to: Point, colour: Seq<char> },
    Text { at: Point, text: Seq<char> },
}

impl View for Prim {
    type V = Shape;

    open spec fn view(&self) -> Shape {
        match self {
            Prim::Rect { width, height, colour } => Shape::Rect {
                width: *width,
                height: *height,
                colour: colour@,
            },
            Prim::Polygon { points, colour } => Shape::Polygon { points: points@, colour: colour@ },
            Prim::Segment { from, to, colour } => Shape::Segment {
                from: *from,
                to: *to,
                colour: colour@,
            },
            Prim::Text { at, text } => Shape::Text { at: *at, text: text@ },
        }
    }
}

/// The drawing of one element: its primitives, in a frame moved `x` pixels
/// to the right.
#[derive(Clone, Debug, PartialEq)]
pub struct Glyph {
    pub x: Frac,
    pub prims: Vec<Prim>,
}

pub struct GlyphModel {
    pub x: Frac,
    pub shapes: Seq<Shape>,
}

impl View for Glyph {
    type V = GlyphModel;

    open spec fn view(&self) -> GlyphModel {
        GlyphModel { x: self.x, shapes: self.prims@.map_values(|p: Prim| p@) }
    }
}

/// The drawing of one track: its elements' glyphs, in order, in a frame moved
/// `y` pixels down.
#[derive(Clone, Debug, PartialEq)]
pub struct Band {
    pub y: usize,
    pub glyphs: Vec<Glyph>,
}

pub struct BandModel {
    pub y: usize,
    pub glyphs: Seq<GlyphModel>,
}

impl View for Band {
    type V = BandModel;

    open spec fn view(&self) -> BandModel {
        BandModel { y: self.y, glyphs: self.glyphs@.map_values(|g: Glyph| g@) }
    }
}

/// A whole figure: a `width` by `height` pixel canvas whose view region is
/// the same rectangle, stretched freely, holding one band per track.
#[derive(Clone, Debug, PartialEq)]
pub struct Drawing {
    pub width: usize,
    pub height: usize,
    pub bands: Vec<Band>,
}

pub struct DrawingModel {
    pub width: usize,
    pub height: usize,
    pub bands: Seq<BandModel>,
}

impl View for Drawing {
    type V = DrawingModel;

    open spec fn view(&self) -> DrawingModel {
        DrawingModel {
            width: self.width,
            height: self.height,
            bands: self.bands@.map_values(|b: Band| b@),
        }
    }
}

} // verus!
