use vstd::prelude::*;
use embedded_graphics_core::geometry::Point;
use embedded_graphics_core::primitives::Rectangle;

verus! {

/// `embedded_graphics_core::geometry::Point`, a pair of `i32` coordinates.
/// Nothing is claimed of it: values of it are carried, never read.
#[verifier::external_type_specification]
#[verifier::external_body]
pub struct ExPoint(embedded_graphics_core::geometry::Point);

/// `embedded_graphics_core::primitives::Rectangle`, a top left corner and a
/// size. Nothing is claimed of it: values of it are carried, never read.
#[verifier::external_type_specification]
#[verifier::external_body]
pub struct ExRectangle(embedded_graphics_core::primitives::Rectangle);

/// The vertical rendering position of the font.
///
/// The font's metrics, such as ascent and descent, are relative to
/// `FontPos::Baseline`, which is the default.
#[derive(Debug, Clone, Copy, PartialEq, Eq, Structural)]
pub enum FontPos {
    /// Anchored at the font baseline
    Baseline,
    /// Anchored at the top
    Top,
    /// Anchored at the center
    Center,
    /// Anchored at the bottom
    Bottom,
}

impl Default for FontPos {
    fn default() -> (r: Self)
        ensures
            r == FontPos::Baseline,
    {
        FontPos::Baseline
    }
}

/// The dimensions of a rendered glyph or text.
pub struct RenderedDimensions {
    /// The relative offset where a following glyph
    /// would have to get rendered.
    pub advance: Point,
    /// The bounding box of the rendered glyph or text.
    ///
    /// `None` if nothing was rendered, as for a whitespace character.
    pub bounding_box: Option<Rectangle>,
}

} // verus!
