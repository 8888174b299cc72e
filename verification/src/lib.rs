//! Lookup, decoding and rendering of glyphs in a compact bitmap font.
//!
//! A font is one blob of bytes, borrowed for as long as it is read.
//!
//! * The first 23 bytes are the header: the glyph count, the flag that
//!   allows a background color, the bounding box of all glyphs, ascent and
//!   descent, and two 16 bit offsets, counted from the header's end: to the
//!   section of the letters in the directory of one-byte codes, and to the
//!   jump table of the two-byte codes. A zero offset means that there is no
//!   such section.
//! * The directory of the one-byte codes follows the header. An entry is the
//!   code, a skip byte and the glyph record. The skip byte is the distance
//!   to the next entry, and zero in the last one.
//! * The jump table is a row of descriptors of four bytes: the distance from
//!   the leaf before to this descriptor's leaf, and the last code that the
//!   leaf covers. A leaf is a directory like the first, with codes of two
//!   bytes.
//! * A glyph record is seven bytes (width, height, x offset, y offset,
//!   advance, and the bit widths of the lengths of unlit and of lit runs)
//!   and the run stream: the lengths of runs of equal pixels in raster
//!   order, unlit and lit in turn, packed from the lowest bit of each byte
//!   up. The runs cover width times height pixels, no more and no fewer.
//!
//! [`glyph_searcher::locate`] finds an entry, [`GlyphReader`] decodes a
//! record, and [`FontRenderer::render_glyph`] computes the pixels to paint.
//! Nothing here touches a display: the caller paints what comes back.
//! The module [`laws`] states what holds of lookups in well-formed fonts, of
//! the two render modes, and of fonts that were cut short.

pub mod error;
pub mod font_reader;
pub mod glyph_reader;
pub mod glyph_searcher;
pub mod laws;
pub mod renderer;
pub mod types;

pub use error::Error;
pub use font_reader::FontReader;
pub use glyph_reader::GlyphReader;
pub use glyph_searcher::GlyphSearcher;
pub use renderer::{create_font_renderer, FontRenderer, Paint};
pub use types::{FontPos, RenderedDimensions};
