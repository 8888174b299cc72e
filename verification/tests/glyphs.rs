use embedded_graphics_core::geometry::{Point, Size};
use embedded_graphics_core::primitives::Rectangle;
use u8g2_glyphs::font_reader::{read_u16, to_signed, FontReader, FONT_HEADER_SIZE};
use u8g2_glyphs::glyph_reader::{read_bits, GlyphReader};
use u8g2_glyphs::glyph_searcher::{locate, GlyphSearcher};
use u8g2_glyphs::renderer::{create_font_renderer, expand, paint_bitmap, FontRenderer, Paint};
use u8g2_glyphs::types::{FontPos, RenderedDimensions};
use u8g2_glyphs::Error;

fn leak(bytes: Vec<u8>) -> &'static [u8] {
    Box::leak(bytes.into_boxed_slice())
}

fn header(background: u8, letters: u16, unicode: u16) -> Vec<u8> {
    let mut h = vec![2, background, 0, 0, 0, 0, 0, 0, 0, 8, 9, 1, 0xfe, 7, 0xff, 0, 0, 0, 0];
    h.extend_from_slice(&letters.to_be_bytes());
    h.extend_from_slice(&unicode.to_be_bytes());
    assert_eq!(h.len(), FONT_HEADER_SIZE);
    h
}

/// '0' is one lit pixel; '1' is two by two with the diagonal lit.
fn two_entry_font(background: u8) -> Vec<u8> {
    let mut f = header(background, 0, 0);
    f.extend_from_slice(&[b'0', 10, 1, 1, 2, 3, 5, 1, 1, 0x02]);
    f.extend_from_slice(&[b'1', 0, 2, 2, 0, 0xff, 3, 2, 2, 0x64]);
    f
}

/// One one-byte entry, a jump table of two descriptors, and two leaves of
/// one entry each.
fn wide_font() -> Vec<u8> {
    let mut f = header(1, 0, 10);
    f.extend_from_slice(&[b'0', 0, 1, 1, 2, 3, 5, 1, 1, 0x02]);
    f.extend_from_slice(&[0, 8, 0x01, 0xff]);
    f.extend_from_slice(&[0, 11, 0xff, 0xff]);
    f.extend_from_slice(&[0x01, 0x41, 0, 1, 1, 0, 0, 4, 1, 1, 0x02]);
    f.extend_from_slice(&[0x20, 0xac, 0, 1, 1, 0, 0, 6, 1, 1, 0x02]);
    f
}

#[test]
fn header_fields_are_decoded() {
    let font = FontReader::new(leak(header(1, 0x0102, 0x0304))).unwrap();
    assert_eq!(font.glyph_count(), 2);
    assert!(font.supports_background_color());
    assert_eq!(font.bounding_box_width(), 8);
    assert_eq!(font.bounding_box_height(), 9);
    assert_eq!(font.bounding_box_x_offset(), 1);
    assert_eq!(font.bounding_box_y_offset(), -2);
    assert_eq!(font.ascent(), 7);
    assert_eq!(font.descent(), -1);
    assert_eq!(font.letter_offset(), 0x0102);
    assert_eq!(font.unicode_offset(), 0x0304);
    let plain = FontReader::new(leak(header(0, 0, 0))).unwrap();
    assert!(!plain.supports_background_color());
}

#[test]
fn short_blob_is_no_font() {
    let mut bytes = header(1, 0, 0);
    bytes.pop();
    assert_eq!(FontReader::new(leak(bytes.clone())).unwrap_err(), Error::InternalError);
    assert_eq!(FontRenderer::new(leak(bytes.clone())).unwrap_err(), Error::InternalError);
    assert_eq!(create_font_renderer(leak(bytes)).unwrap_err(), Error::InternalError);
    assert_eq!(FontReader::new(leak(Vec::new())).unwrap_err(), Error::InternalError);
    assert!(FontReader::new(leak(header(1, 0, 0))).is_ok());
}

#[test]
fn bytes_are_read_signed_and_big_endian() {
    assert_eq!(to_signed(0), 0);
    assert_eq!(to_signed(127), 127);
    assert_eq!(to_signed(128), -128);
    assert_eq!(to_signed(255), -1);
    assert_eq!(read_u16(&[0x12, 0x34, 0x56], 0), 0x1234);
    assert_eq!(read_u16(&[0x12, 0x34, 0x56], 1), 0x3456);
}

#[test]
fn bits_are_read_lowest_first() {
    let data = [0b1011_0100u8, 0b0000_0110];
    assert_eq!(read_bits(&data, 0, 0, 3), (0b100, 0, 3));
    assert_eq!(read_bits(&data, 0, 2, 4), (0b1101, 0, 6));
    assert_eq!(read_bits(&data, 0, 6, 4), (0b1010, 1, 2));
    assert_eq!(read_bits(&data, 0, 0, 8), (0b1011_0100, 1, 0));
    assert_eq!(read_bits(&data, 1, 0, 0), (0, 1, 0));
}

#[test]
fn cursor_walks_the_chain() {
    let font = FontReader::new(leak(two_entry_font(1))).unwrap();
    let mut cursor = GlyphSearcher::new(&font);
    assert_eq!(cursor.offset(), 23);
    assert_eq!(cursor.get_ch(), Ok(b'0'));
    assert_eq!(cursor.get_offset(), Ok(10));
    assert_eq!(cursor.entry_code(), Ok(u16::from(b'0')));
    assert_eq!(cursor.jump_to_next(), Ok(true));
    assert_eq!(cursor.offset(), 33);
    assert_eq!(cursor.get_ch(), Ok(b'1'));
    assert_eq!(cursor.jump_to_next(), Ok(false));
    assert_eq!(cursor.offset(), 33);
    assert!(!cursor.jump_by(11));
    assert_eq!(cursor.offset(), 33);
    assert!(cursor.jump_by(10));
    assert_eq!(cursor.offset(), 43);
    assert_eq!(cursor.get_ch(), Err(Error::InternalError));
    assert_eq!(cursor.get_offset(), Err(Error::InternalError));
    assert_eq!(cursor.jump_to_next(), Err(Error::InternalError));
    assert_eq!(cursor.entry_code(), Err(Error::InternalError));
    assert_eq!(cursor.into_glyph_reader().unwrap_err(), Error::InternalError);
}

#[test]
fn skip_out_of_the_blob_is_an_error() {
    let mut bytes = header(1, 0, 0);
    bytes.extend_from_slice(&[b'0', 200, 1, 1, 0, 0, 5, 1, 1, 0x02]);
    let font = FontReader::new(leak(bytes)).unwrap();
    let mut cursor = GlyphSearcher::new(&font);
    assert_eq!(cursor.jump_to_next(), Err(Error::InternalError));
    assert_eq!(cursor.offset(), 23);
    assert_eq!(locate(&font, u16::from(b'0')), Ok(Some(23)));
    assert_eq!(locate(&font, u16::from(b'1')), Err(Error::InternalError));
}

#[test]
fn find_stops_on_the_entry() {
    let font = FontReader::new(leak(two_entry_font(1))).unwrap();
    let mut cursor = GlyphSearcher::new(&font);
    assert_eq!(cursor.find(u16::from(b'1')), Ok(true));
    assert_eq!(cursor.offset(), 33);
    let glyph = cursor.into_glyph_reader().unwrap();
    assert_eq!(glyph.width(), 2);
    assert_eq!(glyph.height(), 2);
    assert_eq!(glyph.x_offset(), 0);
    assert_eq!(glyph.y_offset(), -1);
    assert_eq!(glyph.advance(), 3);
    let mut other = GlyphSearcher::new(&font);
    assert_eq!(other.find(u16::from(b'2')), Ok(false));
    assert_eq!(other.offset(), 23);
    assert_eq!(other.find(u16::from(b'0')), Ok(true));
    assert_eq!(other.offset(), 23);
}

#[test]
fn two_entry_font_end_to_end() {
    let data = leak(two_entry_font(1));
    let font = FontReader::new(data).unwrap();
    let first = locate(&font, u16::from(b'0')).unwrap().unwrap();
    assert_eq!(first - FONT_HEADER_SIZE, 0);
    let glyph = GlyphReader::new(data, first + 2).unwrap();
    assert_eq!((glyph.width(), glyph.height()), (1, 1));
    assert_eq!(locate(&font, u16::from(b'2')), Ok(None));
    let renderer = create_font_renderer(data).unwrap();
    let (paints, advance) = renderer.render_glyph('0', 0, 0, false).unwrap();
    assert_eq!(paints, vec![Paint { x: 2, y: -3, lit: true }]);
    assert_eq!(advance, 5);
    assert_eq!(renderer.render_glyph('2', 0, 0, false), Err(Error::GlyphNotFound('2')));
}

#[test]
fn runs_cover_the_bitmap() {
    let data = leak(two_entry_font(1));
    let font = FontReader::new(data).unwrap();
    let glyph = font.retrieve_glyph_data('1').unwrap();
    let runs = glyph.runs().unwrap();
    assert_eq!(runs, vec![(false, 0), (true, 1), (false, 2), (true, 1)]);
    let total: usize = runs.iter().map(|r| r.1).sum();
    assert_eq!(total, usize::from(glyph.width()) * usize::from(glyph.height()));
    assert_eq!(glyph.bitmap().unwrap(), vec![true, false, false, true]);
    assert_eq!(expand(&runs), vec![true, false, false, true]);
    assert_eq!(expand(&Vec::new()), Vec::<bool>::new());
}

#[test]
fn render_modes_agree_on_lit_pixels() {
    let data = leak(two_entry_font(1));
    let font = FontReader::new(data).unwrap();
    let glyph = font.retrieve_glyph_data('1').unwrap();
    let boxed = glyph.render_as_box_fill(10, 20).unwrap();
    let clear = glyph.render_transparent(10, 20).unwrap();
    assert_eq!(
        boxed,
        vec![
            Paint { x: 10, y: 21, lit: true },
            Paint { x: 11, y: 21, lit: false },
            Paint { x: 10, y: 22, lit: false },
            Paint { x: 11, y: 22, lit: true },
        ]
    );
    assert_eq!(clear, vec![Paint { x: 10, y: 21, lit: true }, Paint { x: 11, y: 22, lit: true }]);
    let lit: Vec<Paint> = boxed.iter().copied().filter(|p| p.lit).collect();
    assert_eq!(lit, clear);
    assert_eq!(glyph.render(10, 20, true).unwrap(), boxed);
    assert_eq!(glyph.render(10, 20, false).unwrap(), clear);
}

#[test]
fn paint_bitmap_goes_row_by_row() {
    let bitmap = vec![true, false, true, false, false, true];
    let all = paint_bitmap(&bitmap, 3, -1, 4, true);
    let places: Vec<(i32, i32)> = all.iter().map(|p| (p.x, p.y)).collect();
    assert_eq!(places, vec![(-1, 4), (0, 4), (1, 4), (-1, 5), (0, 5), (1, 5)]);
    let shown = paint_bitmap(&bitmap, 3, -1, 4, false);
    let places: Vec<(i32, i32)> = shown.iter().map(|p| (p.x, p.y)).collect();
    assert_eq!(places, vec![(-1, 4), (1, 4), (1, 5)]);
    assert!(paint_bitmap(&Vec::new(), 0, 0, 0, true).is_empty());
}

#[test]
fn background_needs_the_fonts_support() {
    let renderer = create_font_renderer(leak(two_entry_font(0))).unwrap();
    assert!(!renderer.font().supports_background_color());
    for ch in ['0', '1', '2', '\u{20ac}', '\u{1f600}'] {
        assert_eq!(renderer.render_glyph(ch, 0, 0, true), Err(Error::BackgroundColorNotSupported));
    }
    let (paints, advance) = renderer.render_glyph('1', 0, 0, false).unwrap();
    assert_eq!(paints.len(), 2);
    assert_eq!(advance, 3);
    let able = create_font_renderer(leak(two_entry_font(1))).unwrap();
    let (paints, advance) = able.render_glyph('1', 0, 0, true).unwrap();
    assert_eq!(paints.len(), 4);
    assert_eq!(advance, 3);
}

#[test]
fn characters_without_a_glyph_are_not_found() {
    let renderer = create_font_renderer(leak(two_entry_font(1))).unwrap();
    assert_eq!(renderer.render_glyph('x', 0, 0, false), Err(Error::GlyphNotFound('x')));
    assert_eq!(renderer.render_glyph('\u{141}', 0, 0, false), Err(Error::GlyphNotFound('\u{141}')));
    assert_eq!(
        renderer.render_glyph('\u{1f600}', 0, 0, false),
        Err(Error::GlyphNotFound('\u{1f600}'))
    );
    assert_eq!(
        renderer.font().retrieve_glyph_data('x').unwrap_err(),
        Error::GlyphNotFound('x')
    );
}

#[test]
fn letters_start_at_their_own_section() {
    let mut bytes = header(1, 10, 0);
    bytes.extend_from_slice(&[b'0', 10, 1, 1, 2, 3, 5, 1, 1, 0x02]);
    bytes.extend_from_slice(&[b'A', 0, 1, 1, 0, 0, 7, 1, 1, 0x02]);
    let font = FontReader::new(leak(bytes)).unwrap();
    assert_eq!(locate(&font, u16::from(b'0')), Ok(Some(23)));
    assert_eq!(locate(&font, u16::from(b'A')), Ok(Some(33)));
    assert_eq!(locate(&font, u16::from(b'B')), Ok(None));
    assert_eq!(locate(&font, u16::from(b'@')), Ok(None));
    let far = FontReader::new(leak(header(1, 1, 0))).unwrap();
    assert_eq!(locate(&far, u16::from(b'A')), Err(Error::InternalError));
    assert_eq!(locate(&far, u16::from(b'0')), Err(Error::InternalError));
}

#[test]
fn wide_codes_go_through_the_jump_table() {
    let data = leak(wide_font());
    let font = FontReader::new(data).unwrap();
    assert_eq!(locate(&font, 0x0141), Ok(Some(41)));
    assert_eq!(locate(&font, 0x20ac), Ok(Some(52)));
    assert_eq!(locate(&font, 0x0142), Ok(None));
    assert_eq!(locate(&font, 0x3000), Ok(None));
    assert_eq!(locate(&font, u16::from(b'0')), Ok(Some(23)));
    let table = GlyphSearcher::new(&font).into_unicode_mode(10).unwrap();
    assert_eq!(table.offset(), 33);
    let leaf = table.descend(0x2000).unwrap();
    assert_eq!(leaf.offset(), 52);
    assert_eq!(leaf.entry_code(), Ok(0x20ac));
    let renderer = FontRenderer::new(data).unwrap();
    let (paints, advance) = renderer.render_glyph('\u{20ac}', 7, 9, true).unwrap();
    assert_eq!(paints, vec![Paint { x: 7, y: 9, lit: true }]);
    assert_eq!(advance, 6);
    let none = FontReader::new(leak(two_entry_font(1))).unwrap();
    assert_eq!(locate(&none, 0x20ac), Ok(None));
}

#[test]
fn jump_table_out_of_the_blob_is_an_error() {
    let font = FontReader::new(leak(two_entry_font(1))).unwrap();
    assert_eq!(
        GlyphSearcher::new(&font).into_unicode_mode(21).unwrap_err(),
        Error::InternalError
    );
    let end = GlyphSearcher::new(&font).into_unicode_mode(20).unwrap();
    assert_eq!(end.offset(), 43);
    assert_eq!(end.descend(0x100).unwrap_err(), Error::InternalError);
    let mut bytes = header(1, 0, 1);
    bytes.extend_from_slice(&[0, 0, 9, 0x01, 0xff]);
    let far = FontReader::new(leak(bytes)).unwrap();
    assert_eq!(locate(&far, 0x0141), Err(Error::InternalError));
    let mut bytes = header(1, 0, 1);
    bytes.extend_from_slice(&[0, 0, 4, 0x01, 0x00]);
    let open = FontReader::new(leak(bytes)).unwrap();
    assert_eq!(locate(&open, 0x0141), Err(Error::InternalError));
}

#[test]
fn truncated_font_fails_and_never_lies() {
    let whole = two_entry_font(1);
    let font = FontReader::new(leak(whole.clone())).unwrap();
    let entry = locate(&font, u16::from(b'1')).unwrap().unwrap();
    assert_eq!(entry, 33);
    let runs = font.retrieve_glyph_data('1').unwrap().runs().unwrap();
    for n in FONT_HEADER_SIZE..whole.len() {
        let cut = leak(whole[..n].to_vec());
        let font = FontReader::new(cut).unwrap();
        let found = locate(&font, u16::from(b'1'));
        if n < 34 {
            assert_eq!(found, Err(Error::InternalError));
            assert_eq!(font.retrieve_glyph_data('1').unwrap_err(), Error::InternalError);
        } else {
            assert_eq!(found, Ok(Some(33)));
            match GlyphReader::new(cut, 35) {
                Ok(glyph) => {
                    assert!(n >= 42);
                    assert_eq!(glyph.runs().unwrap_err(), Error::InternalError);
                }
                Err(e) => {
                    assert!(n < 42);
                    assert_eq!(e, Error::InternalError);
                }
            }
        }
        let renderer = FontRenderer::new(cut).unwrap();
        assert_eq!(renderer.render_glyph('1', 0, 0, false), Err(Error::InternalError));
    }
    let mut longer = whole.clone();
    longer.push(0xff);
    let font = FontReader::new(leak(longer)).unwrap();
    assert_eq!(font.retrieve_glyph_data('1').unwrap().runs().unwrap(), runs);
}

#[test]
fn corrupt_run_streams_are_refused() {
    let mut over = header(1, 0, 0);
    over.extend_from_slice(&[b'0', 0, 1, 1, 0, 0, 5, 2, 2, 0b0000_1000]);
    let font = FontReader::new(leak(over)).unwrap();
    assert_eq!(font.retrieve_glyph_data('0').unwrap().runs().unwrap_err(), Error::InternalError);
    let mut under = header(1, 0, 0);
    under.extend_from_slice(&[b'0', 0, 3, 3, 0, 0, 5, 1, 1, 0b0000_0010]);
    let font = FontReader::new(leak(under)).unwrap();
    assert_eq!(font.retrieve_glyph_data('0').unwrap().runs().unwrap_err(), Error::InternalError);
    assert_eq!(font.retrieve_glyph_data('0').unwrap().bitmap().unwrap_err(), Error::InternalError);
    for (unlit, lit) in [(0u8, 1u8), (1, 0), (9, 1), (1, 9)] {
        let mut bad = header(1, 0, 0);
        bad.extend_from_slice(&[b'0', 0, 1, 1, 0, 0, 5, unlit, lit, 0x02]);
        let data = leak(bad);
        assert_eq!(GlyphReader::new(data, 25).unwrap_err(), Error::InternalError);
        let renderer = FontRenderer::new(data).unwrap();
        assert_eq!(renderer.render_glyph('0', 0, 0, false), Err(Error::InternalError));
    }
}

#[test]
fn empty_glyph_paints_nothing() {
    let mut bytes = header(1, 0, 0);
    bytes.extend_from_slice(&[b' ', 0, 0, 0, 0, 0, 4, 1, 1]);
    let renderer = FontRenderer::new(leak(bytes)).unwrap();
    assert_eq!(renderer.render_glyph(' ', 3, 3, true), Ok((Vec::new(), 4)));
    assert_eq!(renderer.render_glyph(' ', 3, 3, false), Ok((Vec::new(), 4)));
}

#[test]
fn wide_run_lengths_are_decoded() {
    let mut bytes = header(1, 0, 0);
    bytes.extend_from_slice(&[b'#', 0, 20, 10, 0, 0, 21, 8, 8, 100, 100, 0, 0]);
    let font = FontReader::new(leak(bytes)).unwrap();
    let glyph = font.retrieve_glyph_data('#').unwrap();
    assert_eq!(glyph.runs().unwrap(), vec![(false, 100), (true, 100)]);
    let boxed = glyph.render_as_box_fill(0, 0).unwrap();
    assert_eq!(boxed.len(), 200);
    assert_eq!(boxed[99], Paint { x: 19, y: 4, lit: false });
    assert_eq!(boxed[100], Paint { x: 0, y: 5, lit: true });
    assert_eq!(glyph.render_transparent(0, 0).unwrap().len(), 100);
}

#[test]
fn font_pos_defaults_to_the_baseline() {
    assert_eq!(FontPos::default(), FontPos::Baseline);
    assert_ne!(FontPos::Top, FontPos::Bottom);
    assert_ne!(FontPos::Center, FontPos::Baseline);
}

#[test]
fn rendered_dimensions_carry_their_fields() {
    let dims = RenderedDimensions {
        advance: Point::new(5, 0),
        bounding_box: Some(Rectangle::new(Point::new(2, -3), Size::new(1, 1))),
    };
    assert_eq!(dims.advance, Point::new(5, 0));
    assert_eq!(dims.bounding_box.unwrap().top_left, Point::new(2, -3));
    let blank = RenderedDimensions { advance: Point::new(4, 0), bounding_box: None };
    assert!(blank.bounding_box.is_none());
}

#[test]
fn every_code_is_found_or_absent_in_a_whole_font() {
    let data = leak(wide_font());
    let font = FontReader::new(data).unwrap();
    for code in 0..=u16::MAX {
        let expected = match code {
            0x30 => Some(23),
            0x0141 => Some(41),
            0x20ac => Some(52),
            _ => None,
        };
        assert_eq!(locate(&font, code), Ok(expected));
        if let Some(entry) = expected {
            let skip = if code < 256 { 2 } else { 3 };
            let glyph = GlyphReader::new(data, entry + skip).unwrap();
            let total: usize = glyph.runs().unwrap().iter().map(|r| r.1).sum();
            assert_eq!(total, usize::from(glyph.width()) * usize::from(glyph.height()));
        }
    }
}

#[test]
fn truncated_wide_font_fails_and_never_lies() {
    let whole = wide_font();
    assert_eq!(whole.len(), 63);
    for n in FONT_HEADER_SIZE..whole.len() {
        let cut = leak(whole[..n].to_vec());
        let font = FontReader::new(cut).unwrap();
        let first = locate(&font, 0x0141);
        if n < 43 {
            assert_eq!(first, Err(Error::InternalError));
        } else {
            assert_eq!(first, Ok(Some(41)));
        }
        let second = locate(&font, 0x20ac);
        if n < 54 {
            assert_eq!(second, Err(Error::InternalError));
        } else {
            assert_eq!(second, Ok(Some(52)));
        }
        let absent = locate(&font, 0x0142);
        if n < 44 {
            assert_eq!(absent, Err(Error::InternalError));
        } else {
            assert_eq!(absent, Ok(None));
        }
        let renderer = FontRenderer::new(cut).unwrap();
        assert_eq!(renderer.render_glyph('\u{20ac}', 0, 0, false), Err(Error::InternalError));
    }
}
