use vstd::prelude::*;

verus! {

/// A pixel position.
#[derive(Clone, Copy, Debug, PartialEq, Eq, Structural)]
pub struct Point {
    pub x: u32,
    pub y: u32,
}

/// A circle on the image plane.
#[derive(Clone, Copy, Debug, PartialEq, Eq, Structural)]
pub struct Circle {
    pub pos: Point,
    pub radius: u32,
}

/// An axis-aligned rectangle whose top-left corner is `pos`.
#[derive(Clone, Copy, Debug, PartialEq, Eq, Structural)]
pub struct Rect {
    pub width: u32,
    pub height: u32,
    pub pos: Point,
}

/// A segment between two pixels.
#[derive(Clone, Copy, Debug, PartialEq, Eq, Structural)]
pub struct Line {
    pub start: Point,
    pub finish: Point,
}

/// A region of interest drawn on an image.
#[derive(Clone, Copy, Debug, PartialEq, Eq, Structural)]
pub enum Annotation {
    Rect(Rect),
    Line(Line),
}

/// The charts a viewer can subscribe to.
#[derive(Clone, Copy, Debug, PartialEq, Eq, Structural)]
pub enum Chart {
    Histogram,
    LineProfile,
}

/// One bin of a histogram.
#[derive(Clone, Copy, Debug, PartialEq, Eq, Structural)]
pub struct HistogramBin {
    pub range: u32,
    pub count: u32,
}

/// Fired once for every frame pushed to the live buffer.
#[derive(Clone, Copy, Debug, PartialEq, Eq, Structural)]
pub struct StreamCaptureEvent();

/// Fired when a capture is cancelled.
#[derive(Clone, Copy, Debug, PartialEq, Eq, Structural)]
pub struct CancelCaptureEvent();

} // verus!
