use vstd::prelude::*;
use crate::error::Error;
use crate::font_reader::{read_u16, u16_at, FontReader, FONT_HEADER_SIZE};
use crate::glyph_reader::{glyph_header_ok, GlyphReader};

verus! {

/// The first code of the letters' section of the directory.
pub const FIRST_LETTER: u16 = 65;

/// The character code of the directory entry at `pos`: one byte, or two
/// with the high byte first.
pub open spec fn entry_code(data: Seq<u8>, pos: int, width: int) -> int {
    if width == 1 {
        data[pos] as int
    } else {
        u16_at(data, pos)
    }
}

/// Walks the chain of directory entries from `pos` on, looking for `code`.
///
/// An entry is its code in `width` bytes, one skip byte, and the glyph
/// record. The skip byte is the distance from the entry's start to the next
/// entry's; zero ends the chain. The result is the offset of the entry that
/// holds `code`, `None` where the chain ends first, and an error where the
/// walk would leave the blob.
pub open spec fn scan(data: Seq<u8>, pos: int, width: int, code: int) -> Result<
    Option<usize>,
    Error,
>
    decreases data.len() - pos,
{
    if pos < 0 || width < 1 || pos + width > data.len() {
        Err(Error::InternalError)
    } else if entry_code(data, pos, width) == code {
        Ok(Some(pos as usize))
    } else if pos + width >= data.len() {
        Err(Error::InternalError)
    } else if data[pos + width] == 0 {
        Ok(None)
    } else if pos + data[pos + width] > data.len() {
        Err(Error::InternalError)
    } else {
        scan(data, pos + data[pos + width], width, code)
    }
}

/// Walks the jump table from `pos` on and gives the start of the leaf
/// directory that covers `code`.
///
/// A descriptor is four bytes: the distance from the previous leaf to its
/// own (from the table's start, for the first), and the last code that its
/// leaf covers, both with the high byte first. `leaf` is the start of the
/// leaf before the descriptor at `pos`. The first descriptor whose last code
/// is not below `code` wins. `None` where the table or a leaf leaves the
/// blob.
pub open spec fn jump_target(data: Seq<u8>, pos: int, leaf: int, code: int) -> Option<int>
    decreases data.len() - pos,
{
    if pos < 0 || pos + 4 > data.len() {
        None
    } else if leaf + u16_at(data, pos) > data.len() {
        None
    } else if u16_at(data, pos + 2) >= code {
        Some(leaf + u16_at(data, pos))
    } else {
        jump_target(data, pos + 4, leaf + u16_at(data, pos), code)
    }
}

/// Where the directory walk for a one-byte code starts: behind the header,
/// or at the letters' section for the codes from `FIRST_LETTER` on.
pub open spec fn narrow_start(data: Seq<u8>, code: int) -> int {
    if code >= FIRST_LETTER {
        FONT_HEADER_SIZE + u16_at(data, 19)
    } else {
        FONT_HEADER_SIZE as int
    }
}

/// The offset of the directory entry of `code` in a font blob.
///
/// Codes below 256 are looked up in the one-byte directory. The others go
/// through the jump table, which a font without two-byte codes marks as
/// absent by a zero offset in its header.
pub open spec fn locate_spec(data: Seq<u8>, code: int) -> Result<Option<usize>, Error> {
    if code < 256 {
        if narrow_start(data, code) > data.len() {
            Err(Error::InternalError)
        } else {
            scan(data, narrow_start(data, code), 1, code)
        }
    } else if u16_at(data, 21) == 0 {
        Ok(None)
    } else {
        let root = FONT_HEADER_SIZE + u16_at(data, 21);
        if root > data.len() {
            Err(Error::InternalError)
        } else {
            match jump_target(data, root, root, code) {
                Some(leaf) => scan(data, leaf, 2, code),
                None => Err(Error::InternalError),
            }
        }
    }
}

/// A cursor into a font's glyph directory.
///
/// `CHAR_WIDTH` is the number of bytes of a character code, 1 or 2.
/// `JUMPTABLE_MODE` says that the cursor stands in the jump table of the
/// two-byte codes, not on a directory entry.
#[derive(Debug)]
pub struct GlyphSearcher<'a, const CHAR_WIDTH: usize, const JUMPTABLE_MODE: bool> {
    pos: usize,
    font: &'a FontReader,
}

impl<'a, const CHAR_WIDTH: usize, const JUMPTABLE_MODE: bool> GlyphSearcher<'a, CHAR_WIDTH, JUMPTABLE_MODE> {
    /// The whole font blob.
    pub closed spec fn blob(&self) -> Seq<u8> {
        self.font.data@
    }

    /// The font that the cursor walks.
    pub closed spec fn font(&self) -> FontReader {
        *self.font
    }

    /// The byte offset in the blob at which the cursor stands.
    pub closed spec fn position(&self) -> int {
        self.pos as int
    }

    /// The cursor stands inside the blob, or at its end.
    pub open spec fn wf(&self) -> bool {
        &&& self.font().wf()
        &&& self.blob() == self.font().data@
        &&& 0 <= self.position() <= self.blob().len()
    }

    /// The byte offset in the blob at which the cursor stands.
    pub fn offset(&self) -> (r: usize)
        ensures
            r as int == self.position(),
    {
        self.pos
    }
}

impl<'a, const CHAR_WIDTH: usize> GlyphSearcher<'a, CHAR_WIDTH, false> {
    /// Moves the cursor forward by `offset` bytes. Where that would leave
    /// the blob, the cursor stays and the answer is `false`.
    pub fn jump_by(&mut self, offset: u16) -> (r: bool)
        requires
            old(self).wf(),
        ensures
            final(self).wf(),
            final(self).font() == old(self).font(),
            r == (old(self).position() + offset <= old(self).blob().len()),
            r ==> final(self).position() == old(self).position() + offset,
            !r ==> final(self).position() == old(self).position(),
    {
        if offset as usize > self.font.data.len() - self.pos {
            false
        } else {
            self.pos = self.pos + offset as usize;
            true
        }
    }

    /// The skip byte of the entry under the cursor: the distance to the next
    /// entry, or zero in the last one.
    pub open spec fn skip(&self) -> int {
        self.blob()[self.position() + CHAR_WIDTH] as int
    }

    /// Reads the skip byte of the entry under the cursor.
    pub fn get_offset(&self) -> (r: Result<u8, Error>)
        requires
            self.wf(),
        ensures
            r is Ok <==> self.position() + CHAR_WIDTH < self.blob().len(),
            r is Ok ==> r->Ok_0 == self.skip(),
            r is Err ==> r->Err_0 == Error::InternalError,
    {
        if CHAR_WIDTH >= self.font.data.len() - self.pos {
            Err(Error::InternalError)
        } else {
            Ok(self.font.data[self.pos + CHAR_WIDTH])
        }
    }

    /// Moves the cursor to the next entry of the chain. `Ok(false)` where
    /// the chain ends here; an error where the skip byte is missing or
    /// leads out of the blob. The cursor moves only with `Ok(true)`.
    pub fn jump_to_next(&mut self) -> (r: Result<bool, Error>)
        requires
            old(self).wf(),
        ensures
            final(self).wf(),
            final(self).font() == old(self).font(),
            r is Err <==> old(self).position() + CHAR_WIDTH >= old(self).blob().len()
                || (old(self).skip() != 0
                && old(self).position() + old(self).skip() > old(self).blob().len()),
            r is Err ==> r->Err_0 == Error::InternalError,
            r is Ok ==> r->Ok_0 == (old(self).skip() != 0),
            r == Ok::<bool, Error>(true) ==> final(self).position()
                == old(self).position() + old(self).skip(),
            r != Ok::<bool, Error>(true) ==> final(self).position() == old(self).position(),
    {
        let offset = match self.get_offset() {
            Ok(offset) => offset,
            Err(e) => {
                return Err(e);
            },
        };
        if offset == 0 {
            Ok(false)
        } else if self.jump_by(offset as u16) {
            Ok(true)
        } else {
            Err(Error::InternalError)
        }
    }

    /// Decodes the glyph record of the entry under the cursor, which starts
    /// behind the entry's code and skip byte.
    pub fn into_glyph_reader(self) -> (r: Result<GlyphReader, Error>)
        requires
            self.wf(),
        ensures
            r is Ok <==> glyph_header_ok(self.blob(), self.position() + CHAR_WIDTH + 1),
            r is Ok ==> r->Ok_0.wf() && r->Ok_0.blob() == self.blob() && r->Ok_0.offset()
                == self.position() + CHAR_WIDTH + 1,
            r is Err ==> r->Err_0 == Error::InternalError,
    {
        if CHAR_WIDTH >= self.font.data.len() - self.pos {
            Err(Error::InternalError)
        } else {
            GlyphReader::new(self.font.data, self.pos + CHAR_WIDTH + 1)
        }
    }

    /// Reads the character code of the entry under the cursor.
    pub fn entry_code(&self) -> (r: Result<u16, Error>)
        requires
            self.wf(),
            CHAR_WIDTH == 1 || CHAR_WIDTH == 2,
        ensures
            r is Ok <==> self.position() + CHAR_WIDTH <= self.blob().len(),
            r is Ok ==> r->Ok_0 as int == entry_code(
                self.blob(),
                self.position(),
                CHAR_WIDTH as int,
            ),
            r is Err ==> r->Err_0 == Error::InternalError,
    {
        if CHAR_WIDTH > self.font.data.len() - self.pos {
            Err(Error::InternalError)
        } else if CHAR_WIDTH == 1 {
            Ok(self.font.data[self.pos] as u16)
        } else {
            Ok(read_u16(self.font.data, self.pos))
        }
    }

    /// Walks the chain from the cursor on until an entry holds `code`.
    /// With `Ok(true)` the cursor stands on that entry. With `Ok(false)` the
    /// chain ended without one, and the cursor is back where it was, as it
    /// is after an error.
    pub fn find(&mut self, code: u16) -> (r: Result<bool, Error>)
        requires
            old(self).wf(),
            CHAR_WIDTH == 1 || CHAR_WIDTH == 2,
        ensures
            final(self).wf(),
            final(self).font() == old(self).font(),
            r is Err <==> scan(
                old(self).blob(),
                old(self).position(),
                CHAR_WIDTH as int,
                code as int,
            ) is Err,
            r is Err ==> r->Err_0 == Error::InternalError,
            r is Ok ==> r->Ok_0 == (scan(
                old(self).blob(),
                old(self).position(),
                CHAR_WIDTH as int,
                code as int,
            ) != Ok::<Option<usize>, Error>(None)),
            r == Ok::<bool, Error>(true) ==> scan(
                old(self).blob(),
                old(self).position(),
                CHAR_WIDTH as int,
                code as int,
            ) == Ok::<Option<usize>, Error>(Some(final(self).position() as usize)),
            r != Ok::<bool, Error>(true) ==> final(self).position() == old(self).position(),
    {
        let start: usize = self.pos;
        let ghost goal = scan(self.blob(), self.position(), CHAR_WIDTH as int, code as int);
        loop
            invariant
                self.wf(),
                CHAR_WIDTH == 1 || CHAR_WIDTH == 2,
                start == old(self).position(),
                start <= self.position(),
                self.font() == old(self).font(),
                self.blob() == old(self).blob(),
                goal == scan(old(self).blob(), old(self).position(), CHAR_WIDTH as int, code as int),
                goal == scan(self.blob(), self.position(), CHAR_WIDTH as int, code as int),
            decreases self.blob().len() - self.position(),
        {
            let here = match self.entry_code() {
                Ok(here) => here,
                Err(e) => {
                    self.pos = start;
                    return Err(e);
                },
            };
            if here == code {
                return Ok(true);
            }
            match self.jump_to_next() {
                Ok(true) => {},
                Ok(false) => {
                    self.pos = start;
                    return Ok(false);
                },
                Err(e) => {
                    self.pos = start;
                    return Err(e);
                },
            }
        }
    }
}

impl<'a> GlyphSearcher<'a, 1, false> {
    /// A cursor on the first directory entry, right behind the header.
    pub fn new(font: &'a FontReader) -> (r: Self)
        requires
            font.wf(),
        ensures
            r.wf(),
            r.font() == *font,
            r.position() == FONT_HEADER_SIZE,
    {
        GlyphSearcher { pos: FONT_HEADER_SIZE, font }
    }

    /// Reads the character code of the entry under the cursor.
    pub fn get_ch(&self) -> (r: Result<u8, Error>)
        requires
            self.wf(),
        ensures
            r is Ok <==> self.position() < self.blob().len(),
            r is Ok ==> r->Ok_0 == self.blob()[self.position()],
            r is Err ==> r->Err_0 == Error::InternalError,
    {
        if self.pos >= self.font.data.len() {
            Err(Error::InternalError)
        } else {
            Ok(self.font.data[self.pos])
        }
    }

    /// Moves the cursor by `offset` bytes onto the jump table of the
    /// two-byte codes. Fails where that would leave the blob.
    pub fn into_unicode_mode(self, offset: u16) -> (r: Result<GlyphSearcher<'a, 2, true>, Error>)
        requires
            self.wf(),
        ensures
            r is Ok <==> self.position() + offset <= self.blob().len(),
            r is Ok ==> r->Ok_0.wf() && r->Ok_0.font() == self.font() && r->Ok_0.position()
                == self.position() + offset,
            r is Err ==> r->Err_0 == Error::InternalError,
    {
        let mut cursor = self;
        if cursor.jump_by(offset) {
            Ok(GlyphSearcher { pos: cursor.pos, font: cursor.font })
        } else {
            Err(Error::InternalError)
        }
    }
}

impl<'a> GlyphSearcher<'a, 2, true> {
    /// Walks the jump table from the cursor on and moves to the leaf
    /// directory that covers `code`. Fails where the table or a leaf on the
    /// way leaves the blob.
    pub fn descend(self, code: u16) -> (r: Result<GlyphSearcher<'a, 2, false>, Error>)
        requires
            self.wf(),
        ensures
            r is Ok <==> jump_target(self.blob(), self.position(), self.position(), code as int)
                is Some,
            r is Ok ==> r->Ok_0.wf() && r->Ok_0.font() == self.font() && Some(r->Ok_0.position())
                == jump_target(self.blob(), self.position(), self.position(), code as int),
            r is Err ==> r->Err_0 == Error::InternalError,
    {
        let data = self.font.data;
        let size: usize = data.len();
        let mut pos: usize = self.pos;
        let mut leaf: usize = self.pos;
        let ghost goal = jump_target(data@, pos as int, leaf as int, code as int);
        loop
            invariant
                self.wf(),
                data == self.font.data,
                size == data@.len(),
                pos <= size,
                leaf <= size,
                goal == jump_target(self.blob(), self.position(), self.position(), code as int),
                goal == jump_target(data@, pos as int, leaf as int, code as int),
            decreases size - pos,
        {
            if size - pos < 4 {
                return Err(Error::InternalError);
            }
            let delta: u16 = read_u16(data, pos);
            let last: u16 = read_u16(data, pos + 2);
            if delta as usize > size - leaf {
                return Err(Error::InternalError);
            }
            leaf = leaf + delta as usize;
            if last >= code {
                return Ok(GlyphSearcher { pos: leaf, font: self.font });
            }
            pos = pos + 4;
        }
    }
}

/// A directory walk knows one error only.
pub proof fn lemma_scan_outcome(data: Seq<u8>, pos: int, width: int, code: int)
    ensures
        scan(data, pos, width, code) is Err ==> scan(data, pos, width, code) == Err::<
            Option<usize>,
            Error,
        >(Error::InternalError),
    decreases data.len() - pos,
{
    if !(pos < 0 || width < 1 || pos + width > data.len()) && entry_code(data, pos, width) != code
        && pos + width < data.len() && data[pos + width] != 0 && pos + data[pos + width]
        <= data.len() {
        lemma_scan_outcome(data, pos + data[pos + width], width, code);
    }
}

/// A lookup knows one error only.
pub proof fn lemma_locate_outcome(data: Seq<u8>, code: int)
    ensures
        locate_spec(data, code) is Err ==> locate_spec(data, code) == Err::<Option<usize>, Error>(
            Error::InternalError,
        ),
{
    if code < 256 {
        lemma_scan_outcome(data, narrow_start(data, code), 1, code);
    } else {
        let root = FONT_HEADER_SIZE + u16_at(data, 21);
        match jump_target(data, root, root, code) {
            Some(leaf) => {
                lemma_scan_outcome(data, leaf, 2, code);
            },
            None => {},
        }
    }
}

/// Finds the directory entry of `code` and gives its byte offset in the
/// blob. `Ok(None)` where the font has no glyph for `code`; an error only
/// where the directory is malformed or cut short.
pub fn locate(font: &FontReader, code: u16) -> (r: Result<Option<usize>, Error>)
    requires
        font.wf(),
    ensures
        r == locate_spec(font.data@, code as int),
{
    let start = GlyphSearcher::new(font);
    if code < 256 {
        proof {
            lemma_scan_outcome(font.data@, narrow_start(font.data@, code as int), 1, code as int);
        }
        let mut cursor = start;
        if code >= FIRST_LETTER && !cursor.jump_by(font.letter_offset()) {
            return Err(Error::InternalError);
        }
        match cursor.find(code) {
            Ok(true) => Ok(Some(cursor.offset())),
            Ok(false) => Ok(None),
            Err(e) => Err(e),
        }
    } else {
        let offset = font.unicode_offset();
        if offset == 0 {
            return Ok(None);
        }
        let table = match start.into_unicode_mode(offset) {
            Ok(table) => table,
            Err(e) => {
                return Err(e);
            },
        };
        let mut cursor = match table.descend(code) {
            Ok(cursor) => cursor,
            Err(e) => {
                return Err(e);
            },
        };
        proof {
            lemma_scan_outcome(font.data@, cursor.position(), 2, code as int);
        }
        match cursor.find(code) {
            Ok(true) => Ok(Some(cursor.offset())),
            Ok(false) => Ok(None),
            Err(e) => Err(e),
        }
    }
}

} // verus!
