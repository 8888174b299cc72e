use vstd::prelude::*;
use crate::error::Error;

verus! {

/// Length of the fixed header at the start of every font.
pub const FONT_HEADER_SIZE: usize = 23;

/// The byte `b` read as a two's complement number.
pub open spec fn signed(b: u8) -> int {
    if b < 128 {
        b as int
    } else {
        b as int - 256
    }
}

/// The big-endian 16 bit number at `data[i]`, `data[i + 1]`.
pub open spec fn u16_at(data: Seq<u8>, i: int) -> int {
    data[i] as int * 256 + data[i + 1] as int
}

/// Reads a byte as a two's complement number.
pub fn to_signed(b: u8) -> (r: i8)
    ensures
        r as int == signed(b),
{
    if b < 128 {
        b as i8
    } else {
        (b as i16 - 256) as i8
    }
}

/// Reads the big-endian 16 bit number at `data[i]`, `data[i + 1]`.
pub fn read_u16(data: &[u8], i: usize) -> (r: u16)
    requires
        i + 1 < data@.len(),
    ensures
        r as int == u16_at(data@, i as int),
{
    let hi: u16 = data[i] as u16;
    let lo: u16 = data[i + 1] as u16;
    hi * 256 + lo
}

/// A typed view of a font's header. The blob is borrowed, never copied.
#[derive(Debug)]
pub struct FontReader {
    pub data: &'static [u8],
}

impl FontReader {
    /// The blob is long enough to hold the header.
    pub open spec fn wf(&self) -> bool {
        self.data@.len() >= FONT_HEADER_SIZE
    }

    /// Wraps a blob, or fails where it is shorter than the header.
    pub fn new(data: &'static [u8]) -> (r: Result<FontReader, Error>)
        ensures
            data@.len() < FONT_HEADER_SIZE <==> r == Err::<FontReader, Error>(Error::InternalError),
            data@.len() >= FONT_HEADER_SIZE <==> r == Ok::<FontReader, Error>(FontReader { data }),
            r is Ok ==> r->Ok_0.wf(),
    {
        if data.len() < FONT_HEADER_SIZE {
            Err(Error::InternalError)
        } else {
            Ok(FontReader { data })
        }
    }

    /// Number of glyphs that the font declares.
    pub fn glyph_count(&self) -> (r: u8)
        requires
            self.wf(),
        ensures
            r == self.data@[0],
    {
        self.data[0]
    }

    /// Whether glyphs of this font can be drawn on a filled background.
    pub fn supports_background_color(&self) -> (r: bool)
        requires
            self.wf(),
        ensures
            r == (self.data@[1] != 0),
    {
        self.data[1] != 0
    }

    /// Width of the box that holds every glyph.
    pub fn bounding_box_width(&self) -> (r: u8)
        requires
            self.wf(),
        ensures
            r == self.data@[9],
    {
        self.data[9]
    }

    /// Height of the box that holds every glyph.
    pub fn bounding_box_height(&self) -> (r: u8)
        requires
            self.wf(),
        ensures
            r == self.data@[10],
    {
        self.data[10]
    }

    /// Horizontal offset of the box that holds every glyph.
    pub fn bounding_box_x_offset(&self) -> (r: i8)
        requires
            self.wf(),
        ensures
            r as int == signed(self.data@[11]),
    {
        to_signed(self.data[11])
    }

    /// Vertical offset of the box that holds every glyph.
    pub fn bounding_box_y_offset(&self) -> (r: i8)
        requires
            self.wf(),
        ensures
            r as int == signed(self.data@[12]),
    {
        to_signed(self.data[12])
    }

    /// Height of the font above the baseline.
    pub fn ascent(&self) -> (r: i8)
        requires
            self.wf(),
        ensures
            r as int == signed(self.data@[13]),
    {
        to_signed(self.data[13])
    }

    /// Depth of the font below the baseline, zero or negative.
    pub fn descent(&self) -> (r: i8)
        requires
            self.wf(),
        ensures
            r as int == signed(self.data@[14]),
    {
        to_signed(self.data[14])
    }

    /// Distance from the end of the header to the first entry for the
    /// letters, the codes from `b'A'` on. Zero where they have no
    /// section of their own.
    pub fn letter_offset(&self) -> (r: u16)
        requires
            self.wf(),
        ensures
            r as int == u16_at(self.data@, 19),
    {
        read_u16(self.data, 19)
    }

    /// Distance from the end of the header to the jump table of the two-byte
    /// codes. Zero where the font has none.
    pub fn unicode_offset(&self) -> (r: u16)
        requires
            self.wf(),
        ensures
            r as int == u16_at(self.data@, 21),
    {
        read_u16(self.data, 21)
    }
}

} // verus!
