//! What the library asks of the host: colors, asset slots, cursor icons and
//! the drawing operations a frame is made of.
use vstd::prelude::*;
use crate::geometry::{Rectangle, Vector};

verus! {

/// An RGBA color.
#[derive(Clone, Copy, Debug, PartialEq, Eq, Structural)]
pub struct Color {
    pub r: u8,
    pub g: u8,
    pub b: u8,
    pub a: u8,
}

/// The slot of an image that the host has loaded.
#[derive(Clone, Copy, Debug, PartialEq, Eq, Structural)]
pub struct ImageId(pub u64);

/// The slot of a font that the host has loaded.
#[derive(Clone, Copy, Debug, PartialEq, Eq, Structural)]
pub struct FontId(pub u64);

/// Everything needed to draw a piece of text.
#[derive(Clone, Copy, Debug, PartialEq, Eq, Structural)]
pub struct FontStyle {
    pub font: FontId,
    /// The font size in pixels; text is placed one size below its anchor.
    pub size: i32,
    pub location: Vector,
    pub color: Color,
}

/// The cursor icon the host shows over the window.
#[derive(Clone, Copy, Debug, PartialEq, Eq, Structural)]
pub enum CursorIcon {
    Default,
    Hand,
    Text,
}

/// One drawing operation on the host's surface.
#[derive(Debug)]
pub enum DrawOp {
    Image { image: ImageId, area: Rectangle },
    TintedImage { image: ImageId, area: Rectangle, tint: Color },
    Text { font: FontId, text: String, color: Color, at: Vector },
    StrokeRect { area: Rectangle, color: Color },
    /// A line of editable text inside `area`, with the caret after `cursor`
    /// characters; laying out the glyphs is left to the host.
    TextField { font: FontId, text: String, color: Color, area: Rectangle, cursor: usize },
}

/// A drawing operation with its text seen as characters.
pub enum DrawOpView {
    Image { image: ImageId, area: Rectangle },
    TintedImage { image: ImageId, area: Rectangle, tint: Color },
    Text { font: FontId, text: Seq<char>, color: Color, at: Vector },
    StrokeRect { area: Rectangle, color: Color },
    TextField { font: FontId, text: Seq<char>, color: Color, area: Rectangle, cursor: usize },
}

impl View for DrawOp {
    type V = DrawOpView;

    open spec fn view(&self) -> DrawOpView {
        match self {
            DrawOp::Image { image, area } => DrawOpView::Image { image: *image, area: *area },
            DrawOp::TintedImage { image, area, tint } => DrawOpView::TintedImage {
                image: *image,
                area: *area,
                tint: *tint,
            },
            DrawOp::Text { font, text, color, at } => DrawOpView::Text {
                font: *font,
                text: text@,
                color: *color,
                at: *at,
            },
            DrawOp::StrokeRect { area, color } => DrawOpView::StrokeRect {
                area: *area,
                color: *color,
            },
            DrawOp::TextField { font, text, color, area, cursor } => DrawOpView::TextField {
                font: *font,
                text: text@,
                color: *color,
                area: *area,
                cursor: *cursor,
            },
        }
    }
}

/// The views of a list of operations.
pub open spec fn ops_view(ops: Seq<DrawOp>) -> Seq<DrawOpView> {
    ops.map_values(|o: DrawOp| o@)
}

/// The operation that draws `text` with `style` at `at`.
pub open spec fn text_op(style: FontStyle, text: Seq<char>, at: Vector) -> DrawOpView {
    DrawOpView::Text { font: style.font, text, color: style.color, at }
}

/// Copies a string.
pub fn copy_string(s: &String) -> (r: String)
    ensures
        r@ == s@,
{
    s.clone()
}

} // verus!
