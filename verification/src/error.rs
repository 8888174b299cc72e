use vstd::prelude::*;

verus! {

/// Why a lookup, a decode or a render call failed.
#[derive(Debug, Clone, Copy, PartialEq, Eq, Structural)]
pub enum Error {
    /// A background color was asked for, and the font cannot render one.
    BackgroundColorNotSupported,
    /// The font has no glyph for this character.
    GlyphNotFound(char),
    /// The font data is malformed or cut short.
    InternalError,
}

} // verus!
