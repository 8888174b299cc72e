use vstd::prelude::*;
use vstd::arithmetic::div_mod::lemma_fundamental_div_mod_converse;
use crate::error::Error;
use crate::font_reader::{signed, FontReader, FONT_HEADER_SIZE};
use crate::glyph_reader::{
    expand_runs, glyph_header_ok, glyph_runs, lemma_expand_runs_len, GlyphReader,
};
use crate::glyph_searcher::{lemma_locate_outcome, locate, locate_spec};

verus! {

/// One pixel to paint: with the foreground color where `lit`, with the
/// background color where not.
#[derive(Debug, Clone, Copy, PartialEq, Eq, Structural)]
pub struct Paint {
    pub x: i32,
    pub y: i32,
    pub lit: bool,
}

/// A glyph drawn at pen position `(x, y)` stays within `i32` coordinates,
/// whatever its offsets and size.
pub open spec fn on_surface(x: i32, y: i32) -> bool {
    &&& i32::MIN + 128 <= x <= i32::MAX - 382
    &&& i32::MIN + 128 <= y <= i32::MAX - 382
}

/// The paint for pixel `i`, in raster order, of a bitmap `width` pixels wide
/// whose top left corner is at `(left, top)`.
pub open spec fn paint_at(bitmap: Seq<bool>, width: int, left: int, top: int, i: int) -> Paint {
    Paint { x: (left + i % width) as i32, y: (top + i / width) as i32, lit: bitmap[i] }
}

/// Box fill: every pixel of the bitmap is painted, in raster order.
pub open spec fn box_fill_paints(bitmap: Seq<bool>, width: int, left: int, top: int) -> Seq<
    Paint,
> {
    Seq::new(bitmap.len(), |i: int| paint_at(bitmap, width, left, top, i))
}

/// Transparent: the lit pixels of the bitmap alone are painted, in raster
/// order.
pub open spec fn transparent_paints(bitmap: Seq<bool>, width: int, left: int, top: int) -> Seq<
    Paint,
> {
    box_fill_paints(bitmap, width, left, top).filter(|p: Paint| p.lit)
}

/// What rendering the glyph record at `offset` with the pen at `(x, y)`
/// paints, and the glyph's advance. The bitmap's left edge is the pen's x
/// plus the glyph's x offset, its top edge the pen's y minus the y offset.
pub open spec fn render_spec(data: Seq<u8>, offset: int, x: int, y: int, background: bool)
    -> Result<(Seq<Paint>, i8), Error> {
    match glyph_runs(data, offset) {
        None => Err(Error::InternalError),
        Some(runs) => {
            let left = x + signed(data[offset + 2]);
            let top = y - signed(data[offset + 3]);
            let width = data[offset] as int;
            let paints = if background {
                box_fill_paints(expand_runs(runs), width, left, top)
            } else {
                transparent_paints(expand_runs(runs), width, left, top)
            };
            Ok((paints, signed(data[offset + 4]) as i8))
        },
    }
}

/// The offset of the glyph record of `ch`, where the directory has an
/// entry for it.
pub open spec fn glyph_entry(data: Seq<u8>, ch: char) -> Option<int> {
    if ch as u32 > 0xffff {
        None
    } else {
        match locate_spec(data, ch as int) {
            Ok(Some(entry)) => Some(entry + (if (ch as u32) < 256 { 2int } else { 3int })),
            _ => None,
        }
    }
}

/// What rendering the character `ch` of the font `data` paints, and its
/// advance.
pub open spec fn render_glyph_spec(data: Seq<u8>, ch: char, x: int, y: int, background: bool)
    -> Result<(Seq<Paint>, i8), Error> {
    if background && data[1] == 0 {
        Err(Error::BackgroundColorNotSupported)
    } else if ch as u32 > 0xffff {
        Err(Error::GlyphNotFound(ch))
    } else {
        match locate_spec(data, ch as int) {
            Err(e) => Err(e),
            Ok(None) => Err(Error::GlyphNotFound(ch)),
            Ok(Some(entry)) => render_spec(
                data,
                entry + (if (ch as u32) < 256 { 2int } else { 3int }),
                x,
                y,
                background,
            ),
        }
    }
}

/// Spells the runs out, one `bool` for each pixel.
pub fn expand(runs: &Vec<(bool, usize)>) -> (r: Vec<bool>)
    ensures
        r@ == expand_runs(runs@),
{
    let mut out: Vec<bool> = Vec::new();
    let mut k: usize = 0;
    while k < runs.len()
        invariant
            k <= runs@.len(),
            out@ == expand_runs(runs@.take(k as int)),
        decreases runs@.len() - k,
    {
        let (lit, len) = runs[k];
        let ghost before = out@;
        let mut j: usize = 0;
        while j < len
            invariant
                j <= len,
                out@ =~= before + Seq::new(j as nat, |i: int| lit),
            decreases len - j,
        {
            out.push(lit);
            j = j + 1;
        }
        proof {
            let next = runs@.take(k + 1);
            assert(next.drop_last() =~= runs@.take(k as int));
            assert(next.last() == (lit, len));
            assert(out@ =~= expand_runs(next));
        }
        k = k + 1;
    }
    proof {
        assert(runs@.take(runs@.len() as int) =~= runs@);
    }
    out
}

/// Computes the paints of a bitmap: all pixels where `background`, the lit
/// ones alone where not.
pub fn paint_bitmap(bitmap: &Vec<bool>, width: u8, left: i32, top: i32, background: bool) -> (r:
    Vec<Paint>)
    requires
        bitmap@.len() <= width * 255,
        left + 254 <= i32::MAX,
        top + 254 <= i32::MAX,
    ensures
        background ==> r@ == box_fill_paints(bitmap@, width as int, left as int, top as int),
        !background ==> r@ == transparent_paints(bitmap@, width as int, left as int, top as int),
{
    let ghost all = box_fill_paints(bitmap@, width as int, left as int, top as int);
    let ghost lit_only = |p: Paint| p.lit;
    let mut out: Vec<Paint> = Vec::new();
    let mut i: usize = 0;
    let mut row: i32 = 0;
    let mut col: i32 = 0;
    proof {
        reveal(Seq::filter);
        assert(all.take(0).filter(lit_only) =~= Seq::empty());
    }
    while i < bitmap.len()
        invariant
            i <= bitmap@.len(),
            bitmap@.len() <= width * 255,
            left + 254 <= i32::MAX,
            top + 254 <= i32::MAX,
            0 <= col,
            0 <= row,
            i == row * width + col,
            i < bitmap@.len() ==> col < width,
            all == box_fill_paints(bitmap@, width as int, left as int, top as int),
            lit_only == |p: Paint| p.lit,
            background ==> out@ == all.take(i as int),
            !background ==> out@ == all.take(i as int).filter(lit_only),
        decreases bitmap@.len() - i,
    {
        proof {
            lemma_fundamental_div_mod_converse(i as int, width as int, row as int, col as int);
            assert(row < 255) by (nonlinear_arith)
                requires
                    row * width + col < width * 255,
                    0 <= col,
                    0 <= row,
                    width > 0,
            ;
        }
        let lit = bitmap[i];
        let paint = Paint { x: left + col, y: top + row, lit };
        proof {
            assert(paint == all[i as int]);
            assert(all.take(i + 1) =~= all.take(i as int).push(paint));
            all.take(i as int).lemma_filter_push(paint, lit_only);
        }
        if background || lit {
            out.push(paint);
        }
        i = i + 1;
        col = col + 1;
        if col == width as i32 {
            col = 0;
            row = row + 1;
            assert((row - 1) * width + width == row * width) by (nonlinear_arith);
        }
    }
    proof {
        assert(all.take(i as int) =~= all);
    }
    out
}

impl GlyphReader {
    /// Decodes the bitmap, one `bool` for each pixel in raster order.
    pub fn bitmap(&self) -> (r: Result<Vec<bool>, Error>)
        requires
            self.wf(),
        ensures
            r is Ok <==> glyph_runs(self.blob(), self.offset()) is Some,
            r is Ok ==> r->Ok_0@ == expand_runs(glyph_runs(self.blob(), self.offset())->Some_0),
            r is Ok ==> r->Ok_0@.len() == self.blob()[self.offset()] * self.blob()[self.offset()
                + 1],
            r is Err ==> r->Err_0 == Error::InternalError,
    {
        match self.runs() {
            Ok(runs) => {
                proof {
                    lemma_expand_runs_len(runs@);
                }
                Ok(expand(&runs))
            },
            Err(e) => Err(e),
        }
    }

    /// Computes what rendering the glyph with the pen at `(x, y)` paints:
    /// the whole box where `background`, the lit pixels alone where not.
    pub fn render(&self, x: i32, y: i32, background: bool) -> (r: Result<Vec<Paint>, Error>)
        requires
            self.wf(),
            on_surface(x, y),
        ensures
            r is Ok <==> render_spec(self.blob(), self.offset(), x as int, y as int, background)
                is Ok,
            r is Ok ==> r->Ok_0@ == render_spec(
                self.blob(),
                self.offset(),
                x as int,
                y as int,
                background,
            )->Ok_0.0,
            r is Err ==> r->Err_0 == Error::InternalError,
    {
        let bitmap = match self.bitmap() {
            Ok(bitmap) => bitmap,
            Err(e) => {
                return Err(e);
            },
        };
        let width = self.width();
        let height = self.height();
        let left: i32 = x + self.x_offset() as i32;
        let top: i32 = y - self.y_offset() as i32;
        assert(width * height <= width * 255) by (nonlinear_arith)
            requires
                height <= 255,
                0 <= width,
        ;
        Ok(paint_bitmap(&bitmap, width, left, top, background))
    }

    /// Box fill: paints every pixel of the glyph's box, lit or not.
    pub fn render_as_box_fill(&self, x: i32, y: i32) -> (r: Result<Vec<Paint>, Error>)
        requires
            self.wf(),
            on_surface(x, y),
        ensures
            r is Ok <==> render_spec(self.blob(), self.offset(), x as int, y as int, true) is Ok,
            r is Ok ==> r->Ok_0@ == render_spec(
                self.blob(),
                self.offset(),
                x as int,
                y as int,
                true,
            )->Ok_0.0,
            r is Err ==> r->Err_0 == Error::InternalError,
    {
        self.render(x, y, true)
    }

    /// Transparent: paints the lit pixels of the glyph and no others.
    pub fn render_transparent(&self, x: i32, y: i32) -> (r: Result<Vec<Paint>, Error>)
        requires
            self.wf(),
            on_surface(x, y),
        ensures
            r is Ok <==> render_spec(self.blob(), self.offset(), x as int, y as int, false) is Ok,
            r is Ok ==> r->Ok_0@ == render_spec(
                self.blob(),
                self.offset(),
                x as int,
                y as int,
                false,
            )->Ok_0.0,
            r is Err ==> r->Err_0 == Error::InternalError,
    {
        self.render(x, y, false)
    }
}

impl FontReader {
    /// Finds and decodes the glyph record of `ch`.
    pub fn retrieve_glyph_data(&self, ch: char) -> (r: Result<GlyphReader, Error>)
        requires
            self.wf(),
        ensures
            r is Ok <==> glyph_entry(self.data@, ch) is Some && glyph_header_ok(
                self.data@,
                glyph_entry(self.data@, ch)->Some_0,
            ),
            r is Ok ==> r->Ok_0.wf() && r->Ok_0.blob() == self.data@ && Some(r->Ok_0.offset())
                == glyph_entry(self.data@, ch),
            r is Err ==> r->Err_0 == (if ch as u32 <= 0xffff && locate_spec(
                self.data@,
                ch as int,
            ) != Ok::<Option<usize>, Error>(None) {
                Error::InternalError
            } else {
                Error::GlyphNotFound(ch)
            }),
    {
        let wide: u32 = ch as u32;
        if wide > 0xffff {
            return Err(Error::GlyphNotFound(ch));
        }
        proof {
            lemma_locate_outcome(self.data@, ch as int);
        }
        let entry = match locate(self, wide as u16) {
            Ok(Some(entry)) => entry,
            Ok(None) => {
                return Err(Error::GlyphNotFound(ch));
            },
            Err(e) => {
                return Err(e);
            },
        };
        let skip: usize = if wide < 256 { 2 } else { 3 };
        if entry > self.data.len() || self.data.len() - entry < skip {
            return Err(Error::InternalError);
        }
        GlyphReader::new(self.data, entry + skip)
    }
}

/// Renders the glyphs of one font.
#[derive(Debug)]
pub struct FontRenderer {
    font: FontReader,
}

/// A renderer for the font in `data`. Fails where the blob is shorter than
/// a font header.
pub fn create_font_renderer(data: &'static [u8]) -> (r: Result<FontRenderer, Error>)
    ensures
        r is Ok <==> data@.len() >= FONT_HEADER_SIZE,
        r is Ok ==> r->Ok_0.wf() && r->Ok_0.blob() == data@,
        r is Err ==> r->Err_0 == Error::InternalError,
{
    FontRenderer::new(data)
}

impl FontRenderer {
    /// The font's blob.
    pub closed spec fn blob(&self) -> Seq<u8> {
        self.font.data@
    }

    /// The blob holds a whole header.
    pub open spec fn wf(&self) -> bool {
        self.blob().len() >= FONT_HEADER_SIZE
    }

    /// A renderer for the font in `data`. Fails where the blob is shorter
    /// than a font header.
    pub fn new(data: &'static [u8]) -> (r: Result<FontRenderer, Error>)
        ensures
            r is Ok <==> data@.len() >= FONT_HEADER_SIZE,
            r is Ok ==> r->Ok_0.wf() && r->Ok_0.blob() == data@,
            r is Err ==> r->Err_0 == Error::InternalError,
    {
        match FontReader::new(data) {
            Ok(font) => Ok(FontRenderer { font }),
            Err(e) => Err(e),
        }
    }

    /// The font that this renderer draws.
    pub fn font(&self) -> (r: &FontReader)
        requires
            self.wf(),
        ensures
            r.wf(),
            r.data@ == self.blob(),
    {
        &self.font
    }

    /// Computes what drawing `ch` with the pen at `(x, y)` paints, and how
    /// far the pen then moves. With `background` the glyph's whole box is
    /// painted, without it the lit pixels alone.
    ///
    /// A font that cannot render a background refuses one before anything
    /// else is looked at. A character without a glyph gives
    /// `Error::GlyphNotFound`, malformed font data `Error::InternalError`.
    pub fn render_glyph(&self, ch: char, x: i32, y: i32, background: bool) -> (r: Result<
        (Vec<Paint>, i8),
        Error,
    >)
        requires
            self.wf(),
            on_surface(x, y),
        ensures
            background && self.blob()[1] == 0 ==> r == Err::<(Vec<Paint>, i8), Error>(
                Error::BackgroundColorNotSupported,
            ),
            match render_glyph_spec(self.blob(), ch, x as int, y as int, background) {
                Ok((paints, advance)) => r is Ok && r->Ok_0.0@ == paints && r->Ok_0.1 == advance,
                Err(e) => r == Err::<(Vec<Paint>, i8), Error>(e),
            },
    {
        if background && !self.font.supports_background_color() {
            return Err(Error::BackgroundColorNotSupported);
        }
        proof {
            lemma_locate_outcome(self.blob(), ch as int);
        }
        let glyph = match self.font.retrieve_glyph_data(ch) {
            Ok(glyph) => glyph,
            Err(e) => {
                return Err(e);
            },
        };
        let paints = if background {
            glyph.render_as_box_fill(x, y)
        } else {
            glyph.render_transparent(x, y)
        };
        match paints {
            Ok(paints) => Ok((paints, glyph.advance())),
            Err(e) => Err(e),
        }
    }
}

} // verus!
