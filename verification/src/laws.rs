use vstd::prelude::*;
use crate::error::Error;
use crate::font_reader::{u16_at, FONT_HEADER_SIZE};
use crate::glyph_reader::{
    bits_value, decode_runs, glyph_runs, lemma_decode_runs_total, total_pixels,
    GLYPH_HEADER_SIZE,
};
use crate::glyph_searcher::{entry_code, jump_target, locate_spec, narrow_start, scan};
use crate::renderer::{box_fill_paints, paint_at, transparent_paints, Paint};

verus! {

/// Every entry of the chain from `pos` on is whole, and its glyph decodes.
pub open spec fn directory_ok(data: Seq<u8>, pos: int, width: int) -> bool
    decreases data.len() - pos,
{
    &&& 0 <= pos
    &&& 1 <= width
    &&& pos + width < data.len()
    &&& glyph_runs(data, pos + width + 1) is Some
    &&& (data[pos + width] == 0 || (pos + data[pos + width] <= data.len() && directory_ok(
        data,
        pos + data[pos + width],
        width,
    )))
}

/// Some entry of the chain from `pos` on holds `code`.
pub open spec fn listed(data: Seq<u8>, pos: int, width: int, code: int) -> bool
    decreases data.len() - pos,
{
    &&& 0 <= pos
    &&& 1 <= width
    &&& pos + width < data.len()
    &&& (entry_code(data, pos, width) == code || (data[pos + width] != 0 && pos + data[pos
        + width] <= data.len() && listed(data, pos + data[pos + width], width, code)))
}

/// The width of the character codes of the directory that holds `code`.
pub open spec fn code_width(code: int) -> int {
    if code < 256 {
        1
    } else {
        2
    }
}

/// The start of the directory that a lookup of `code` walks, where the font
/// has one.
pub open spec fn directory_of(data: Seq<u8>, code: int) -> Option<int> {
    if code < 256 {
        if narrow_start(data, code) <= data.len() {
            Some(narrow_start(data, code))
        } else {
            None
        }
    } else {
        let root = FONT_HEADER_SIZE + u16_at(data, 21);
        if u16_at(data, 21) == 0 || root > data.len() {
            None
        } else {
            jump_target(data, root, root, code)
        }
    }
}

/// The part of the font that a lookup of `code` walks is well formed: the
/// directory is there, or the font marks the two-byte codes as absent, and
/// each of the directory's entries is whole and holds a glyph that decodes.
pub open spec fn font_ok_for(data: Seq<u8>, code: int) -> bool {
    match directory_of(data, code) {
        Some(start) => directory_ok(data, start, code_width(code)),
        None => code >= 256 && u16_at(data, 21) == 0,
    }
}

/// The font has an entry for `code`.
pub open spec fn font_lists(data: Seq<u8>, code: int) -> bool {
    match directory_of(data, code) {
        Some(start) => listed(data, start, code_width(code), code),
        None => false,
    }
}

/// In a well-formed directory a walk never fails. It finds an entry exactly
/// where the chain lists the code, and the entry it finds holds the code and
/// a glyph that decodes.
pub proof fn lemma_scan_directory(data: Seq<u8>, pos: int, width: int, code: int)
    requires
        data.len() <= usize::MAX,
        directory_ok(data, pos, width),
    ensures
        scan(data, pos, width, code) is Ok,
        scan(data, pos, width, code)->Ok_0 is None <==> !listed(data, pos, width, code),
        scan(data, pos, width, code)->Ok_0 is Some ==> ({
            let entry = scan(data, pos, width, code)->Ok_0->Some_0 as int;
            &&& pos <= entry
            &&& entry + width < data.len()
            &&& entry_code(data, entry, width) == code
            &&& glyph_runs(data, entry + width + 1) is Some
        }),
    decreases data.len() - pos,
{
    if entry_code(data, pos, width) != code && data[pos + width] != 0 {
        lemma_scan_directory(data, pos + data[pos + width], width, code);
    }
}

/// In a font whose directory is well formed, a lookup never fails: it gives
/// `None` exactly for the codes that the directory does not list, and for
/// the others the entry of a glyph that decodes, into runs that cover as
/// many pixels as the glyph's width times its height.
pub proof fn lemma_lookup_in_valid_font(data: Seq<u8>, code: int)
    requires
        data.len() <= usize::MAX,
        0 <= code <= 0xffff,
        font_ok_for(data, code),
    ensures
        locate_spec(data, code) is Ok,
        locate_spec(data, code)->Ok_0 is None <==> !font_lists(data, code),
        locate_spec(data, code)->Ok_0 is Some ==> ({
            let glyph = locate_spec(data, code)->Ok_0->Some_0 + code_width(code) + 1;
            &&& glyph_runs(data, glyph) is Some
            &&& total_pixels(glyph_runs(data, glyph)->Some_0) == data[glyph] * data[glyph + 1]
        }),
{
    match directory_of(data, code) {
        Some(start) => {
            lemma_scan_directory(data, start, code_width(code), code);
            if locate_spec(data, code)->Ok_0 is Some {
                let glyph = locate_spec(data, code)->Ok_0->Some_0 + code_width(code) + 1;
                lemma_glyph_runs_total(data, glyph);
            }
        },
        None => {},
    }
}

/// The runs of a glyph cover as many pixels as its width times its height.
pub proof fn lemma_glyph_runs_total(data: Seq<u8>, glyph: int)
    requires
        glyph_runs(data, glyph) is Some,
    ensures
        total_pixels(glyph_runs(data, glyph)->Some_0) == data[glyph] * data[glyph + 1],
{
    let width = data[glyph];
    let height = data[glyph + 1];
    assert(0 <= width * height <= 255 * 255) by (nonlinear_arith)
        requires
            0 <= width <= 255,
            0 <= height <= 255,
    ;
    lemma_decode_runs_total(
        data,
        (glyph + GLYPH_HEADER_SIZE) * 8,
        false,
        width * height,
        data[glyph + 5] as nat,
        data[glyph + 6] as nat,
    );
}

/// Both render modes paint the same lit pixels. Box fill paints each pixel
/// of the bitmap once, in raster order; transparent mode paints what box
/// fill paints lit, and no unlit pixel.
pub proof fn lemma_render_modes_agree(bitmap: Seq<bool>, width: int, left: int, top: int)
    ensures
        box_fill_paints(bitmap, width, left, top).len() == bitmap.len(),
        forall|i: int|
            0 <= i < bitmap.len() ==> #[trigger] box_fill_paints(bitmap, width, left, top)[i]
                == paint_at(bitmap, width, left, top, i),
        forall|p: Paint| #[trigger]
            transparent_paints(bitmap, width, left, top).contains(p) <==> p.lit && box_fill_paints(
                bitmap,
                width,
                left,
                top,
            ).contains(p),
{
    let all = box_fill_paints(bitmap, width, left, top);
    let lit_only = |p: Paint| p.lit;
    let shown = all.filter(lit_only);
    assert forall|p: Paint| #[trigger] shown.contains(p) implies p.lit && all.contains(p) by {
        all.lemma_filter_contains_rev(lit_only, p);
        let j = choose|j: int| 0 <= j < shown.len() && shown[j] == p;
        all.lemma_filter_pred(lit_only, j);
    }
    assert forall|p: Paint| p.lit && all.contains(p) implies #[trigger] shown.contains(p) by {
        let i = choose|i: int| 0 <= i < all.len() && all[i] == p;
        all.lemma_filter_contains(lit_only, i);
    }
}

/// The byte just behind the last one that a walk from `pos` on reads.
pub open spec fn scan_end(data: Seq<u8>, pos: int, width: int, code: int) -> int
    decreases data.len() - pos,
{
    if pos < 0 || width < 1 || pos + width > data.len() {
        pos
    } else if entry_code(data, pos, width) == code || pos + width >= data.len() {
        pos + width
    } else if data[pos + width] == 0 || pos + data[pos + width] > data.len() {
        pos + width + 1
    } else {
        scan_end(data, pos + data[pos + width], width, code)
    }
}

/// A walk that succeeds on a blob fails on each of its prefixes that is cut
/// inside what the walk reads, and gives the same on every other prefix.
pub proof fn lemma_scan_truncated(data: Seq<u8>, pos: int, width: int, code: int, n: int)
    requires
        0 <= n <= data.len(),
        width == 1 || width == 2,
        scan(data, pos, width, code) is Ok,
    ensures
        pos + width <= scan_end(data, pos, width, code) <= data.len(),
        n < scan_end(data, pos, width, code) ==> scan(data.take(n), pos, width, code) == Err::<
            Option<usize>,
            Error,
        >(Error::InternalError),
        n >= scan_end(data, pos, width, code) ==> scan(data.take(n), pos, width, code) == scan(
            data,
            pos,
            width,
            code,
        ),
    decreases data.len() - pos,
{
    let cut = data.take(n);
    if entry_code(data, pos, width) != code && data[pos + width] != 0 {
        lemma_scan_truncated(data, pos + data[pos + width], width, code, n);
    }
    if pos + width <= n {
        assert(entry_code(cut, pos, width) == entry_code(data, pos, width));
        if pos + width < n {
            assert(cut[pos + width] == data[pos + width]);
        }
    }
}

/// The byte just behind the last descriptor that a walk of the jump table
/// from `pos` on reads.
pub open spec fn jump_end(data: Seq<u8>, pos: int, leaf: int, code: int) -> int
    decreases data.len() - pos,
{
    if pos < 0 || pos + 4 > data.len() {
        pos
    } else if leaf + u16_at(data, pos) > data.len() || u16_at(data, pos + 2) >= code {
        pos + 4
    } else {
        jump_end(data, pos + 4, leaf + u16_at(data, pos), code)
    }
}

/// A walk of the jump table that succeeds on a blob fails on each of its
/// prefixes that is cut inside what the walk reads or before the leaf that
/// it leads to, and leads to the same leaf on every other prefix.
pub proof fn lemma_jump_truncated(data: Seq<u8>, pos: int, leaf: int, code: int, n: int)
    requires
        0 <= n <= data.len(),
        jump_target(data, pos, leaf, code) is Some,
    ensures
        pos + 4 <= jump_end(data, pos, leaf, code) <= data.len(),
        leaf <= jump_target(data, pos, leaf, code)->Some_0 <= data.len(),
        n < jump_end(data, pos, leaf, code) || n < jump_target(data, pos, leaf, code)->Some_0
            ==> jump_target(data.take(n), pos, leaf, code) is None,
        n >= jump_end(data, pos, leaf, code) && n >= jump_target(data, pos, leaf, code)->Some_0
            ==> jump_target(data.take(n), pos, leaf, code) == jump_target(data, pos, leaf, code),
    decreases data.len() - pos,
{
    let cut = data.take(n);
    if u16_at(data, pos + 2) < code {
        lemma_jump_truncated(data, pos + 4, leaf + u16_at(data, pos), code, n);
    }
    if pos + 4 <= n {
        assert(u16_at(cut, pos) == u16_at(data, pos));
        assert(u16_at(cut, pos + 2) == u16_at(data, pos + 2));
    }
}

/// The byte just behind the last one that a lookup of `code` reads.
pub open spec fn locate_end(data: Seq<u8>, code: int) -> int {
    if code < 256 {
        scan_end(data, narrow_start(data, code), 1, code)
    } else if u16_at(data, 21) == 0 {
        FONT_HEADER_SIZE as int
    } else {
        let root = FONT_HEADER_SIZE + u16_at(data, 21);
        let table_end = jump_end(data, root, root, code);
        match jump_target(data, root, root, code) {
            Some(leaf) => if scan_end(data, leaf, 2, code) > table_end {
                scan_end(data, leaf, 2, code)
            } else {
                table_end
            },
            None => table_end,
        }
    }
}

/// A lookup that succeeds on a font fails, as on malformed data, on each
/// prefix of the font that holds the header and is cut inside what the
/// lookup reads. On every other such prefix it gives what it gives on the
/// whole font.
pub proof fn lemma_locate_truncated(data: Seq<u8>, code: int, n: int)
    requires
        FONT_HEADER_SIZE <= n <= data.len(),
        locate_spec(data, code) is Ok,
    ensures
        FONT_HEADER_SIZE <= locate_end(data, code) <= data.len(),
        n < locate_end(data, code) ==> locate_spec(data.take(n), code) == Err::<
            Option<usize>,
            Error,
        >(Error::InternalError),
        n >= locate_end(data, code) ==> locate_spec(data.take(n), code) == locate_spec(data, code),
{
    let cut = data.take(n);
    assert(u16_at(cut, 19) == u16_at(data, 19));
    assert(u16_at(cut, 21) == u16_at(data, 21));
    if code < 256 {
        lemma_scan_truncated(data, narrow_start(data, code), 1, code, n);
    } else if u16_at(data, 21) != 0 {
        let root = FONT_HEADER_SIZE + u16_at(data, 21);
        lemma_jump_truncated(data, root, root, code, n);
        let leaf = jump_target(data, root, root, code)->Some_0;
        lemma_scan_truncated(data, leaf, 2, code, n);
    }
}

/// The bit just behind the last one that `decode_runs` reads.
pub open spec fn runs_end(
    data: Seq<u8>,
    k: int,
    lit: bool,
    remaining: int,
    unlit_bits: nat,
    lit_bits: nat,
) -> int
    decreases data.len() * 8 - k,
{
    let n = if lit { lit_bits } else { unlit_bits };
    if remaining <= 0 || n < 1 || k < 0 || k + n > data.len() * 8 {
        k
    } else {
        let len = bits_value(data, k, n);
        if len > remaining {
            k + n
        } else {
            runs_end(data, k + n, !lit, remaining - len, unlit_bits, lit_bits)
        }
    }
}

/// The byte just behind the last one that decoding the glyph at `offset`
/// reads.
pub open spec fn glyph_end(data: Seq<u8>, offset: int) -> int {
    (runs_end(
        data,
        (offset + GLYPH_HEADER_SIZE) * 8,
        false,
        data[offset] * data[offset + 1],
        data[offset + 5] as nat,
        data[offset + 6] as nat,
    ) + 7) / 8
}

/// The bits of a prefix are the bits of the blob.
pub proof fn lemma_bits_of_prefix(data: Seq<u8>, k: int, count: nat, n: int)
    requires
        0 <= k,
        k + count <= n * 8,
        n <= data.len(),
    ensures
        bits_value(data.take(n), k, count) == bits_value(data, k, count),
    decreases count,
{
    if count > 0 {
        assert(data.take(n)[k / 8] == data[k / 8]);
        lemma_bits_of_prefix(data, k + 1, (count - 1) as nat, n);
    }
}

/// A run stream that decodes on a blob does not decode on a prefix that is
/// cut inside the stream, and decodes to the same runs on every other
/// prefix.
pub proof fn lemma_runs_truncated(
    data: Seq<u8>,
    k: int,
    lit: bool,
    remaining: int,
    unlit_bits: nat,
    lit_bits: nat,
    n: int,
)
    requires
        0 <= n <= data.len(),
        0 <= k <= n * 8,
        decode_runs(data, k, lit, remaining, unlit_bits, lit_bits) is Some,
    ensures
        k <= runs_end(data, k, lit, remaining, unlit_bits, lit_bits) <= data.len() * 8,
        n * 8 < runs_end(data, k, lit, remaining, unlit_bits, lit_bits) ==> decode_runs(
            data.take(n),
            k,
            lit,
            remaining,
            unlit_bits,
            lit_bits,
        ) is None,
        n * 8 >= runs_end(data, k, lit, remaining, unlit_bits, lit_bits) ==> decode_runs(
            data.take(n),
            k,
            lit,
            remaining,
            unlit_bits,
            lit_bits,
        ) == decode_runs(data, k, lit, remaining, unlit_bits, lit_bits),
    decreases data.len() * 8 - k,
{
    let count = if lit { lit_bits } else { unlit_bits };
    if remaining > 0 {
        let len = bits_value(data, k, count);
        if k + count <= n * 8 {
            lemma_bits_of_prefix(data, k, count, n);
            lemma_runs_truncated(data, k + count, !lit, remaining - len, unlit_bits, lit_bits, n);
        } else {
            lemma_runs_end_bounds(data, k + count, !lit, remaining - len, unlit_bits, lit_bits);
        }
    }
}

/// Decoding reads forward, and stays inside the blob.
pub proof fn lemma_runs_end_bounds(
    data: Seq<u8>,
    k: int,
    lit: bool,
    remaining: int,
    unlit_bits: nat,
    lit_bits: nat,
)
    requires
        0 <= k <= data.len() * 8,
    ensures
        k <= runs_end(data, k, lit, remaining, unlit_bits, lit_bits) <= data.len() * 8,
    decreases data.len() * 8 - k,
{
    let count = if lit { lit_bits } else { unlit_bits };
    if !(remaining <= 0 || count < 1 || k + count > data.len() * 8) {
        let len = bits_value(data, k, count);
        if len <= remaining {
            lemma_runs_end_bounds(data, k + count, !lit, remaining - len, unlit_bits, lit_bits);
        }
    }
}

/// A glyph that decodes on a blob fails to decode on each prefix of the blob
/// that is cut inside the glyph's record or bitmap, and decodes to the same
/// runs on every other prefix.
pub proof fn lemma_glyph_truncated(data: Seq<u8>, glyph: int, n: int)
    requires
        0 <= n <= data.len(),
        glyph_runs(data, glyph) is Some,
    ensures
        glyph + GLYPH_HEADER_SIZE <= glyph_end(data, glyph) <= data.len(),
        n < glyph_end(data, glyph) ==> glyph_runs(data.take(n), glyph) is None,
        n >= glyph_end(data, glyph) ==> glyph_runs(data.take(n), glyph) == glyph_runs(data, glyph),
{
    let first = (glyph + GLYPH_HEADER_SIZE) * 8;
    let total = data[glyph] * data[glyph + 1];
    let unlit_bits = data[glyph + 5] as nat;
    let lit_bits = data[glyph + 6] as nat;
    lemma_runs_end_bounds(data, first, false, total, unlit_bits, lit_bits);
    if glyph + GLYPH_HEADER_SIZE <= n {
        let cut = data.take(n);
        assert(cut[glyph] == data[glyph]);
        assert(cut[glyph + 1] == data[glyph + 1]);
        assert(cut[glyph + 5] == data[glyph + 5]);
        assert(cut[glyph + 6] == data[glyph + 6]);
        lemma_runs_truncated(data, first, false, total, unlit_bits, lit_bits, n);
    }
}

} // verus!
