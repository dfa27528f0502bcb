//! Layout and geometry of track diagrams: horizontal bands of positioned,
//! styled intervals laid out on one shared horizontal scale.
pub mod geometry;
pub mod figure;
pub mod laws;
