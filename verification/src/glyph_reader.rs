use vstd::prelude::*;
use crate::error::Error;
use crate::font_reader::{signed, to_signed};

verus! {

/// Length of the fixed part of a glyph record: width, height, x offset,
/// y offset, advance, and the two bit widths of the run lengths.
pub const GLYPH_HEADER_SIZE: usize = 7;

/// The widest run length field that a glyph record may declare, in bits.
pub const MAX_RUN_BITS: u8 = 8;

/// Bit `k` of the blob, the lowest bit of each byte first.
pub open spec fn bit_at(data: Seq<u8>, k: int) -> int {
    ((data[k / 8] >> ((k % 8) as u8)) & 1) as int
}

/// The number that the `n` bits from bit `k` on spell, lowest bit first.
pub open spec fn bits_value(data: Seq<u8>, k: int, n: nat) -> int
    decreases n,
{
    if n == 0 {
        0
    } else {
        bit_at(data, k) + 2 * bits_value(data, k + 1, (n - 1) as nat)
    }
}

/// The runs of a bitmap of `remaining` pixels whose encoding starts at bit
/// `k` with a run of state `lit`. Runs alternate between unlit and lit; the
/// length of an unlit run has `unlit_bits` bits and that of a lit run
/// `lit_bits`. A run may be empty. `None` where the blob ends
/// inside a length, or a run is longer than what is left of the bitmap.
pub open spec fn decode_runs(
    data: Seq<u8>,
    k: int,
    lit: bool,
    remaining: int,
    unlit_bits: nat,
    lit_bits: nat,
) -> Option<Seq<(bool, usize)>>
    decreases data.len() * 8 - k,
{
    let n = if lit { lit_bits } else { unlit_bits };
    if remaining <= 0 {
        Some(Seq::empty())
    } else if n < 1 || k < 0 || k + n > data.len() * 8 {
        None
    } else {
        let len = bits_value(data, k, n);
        if len > remaining {
            None
        } else {
            match decode_runs(data, k + n, !lit, remaining - len, unlit_bits, lit_bits) {
                Some(rest) => Some(seq![(lit, len as usize)] + rest),
                None => None,
            }
        }
    }
}

/// The number of pixels that the runs cover.
pub open spec fn total_pixels(runs: Seq<(bool, usize)>) -> int
    decreases runs.len(),
{
    if runs.len() == 0 {
        0
    } else {
        total_pixels(runs.drop_last()) + runs.last().1
    }
}

/// The pixels that the runs spell, one `bool` each, in raster order.
pub open spec fn expand_runs(runs: Seq<(bool, usize)>) -> Seq<bool>
    decreases runs.len(),
{
    if runs.len() == 0 {
        Seq::empty()
    } else {
        expand_runs(runs.drop_last()) + Seq::new(runs.last().1 as nat, |i: int| runs.last().0)
    }
}

/// A glyph record starts at `offset`: its fixed part lies inside the blob
/// and both bit widths are between 1 and `MAX_RUN_BITS`.
pub open spec fn glyph_header_ok(data: Seq<u8>, offset: int) -> bool {
    &&& 0 <= offset
    &&& offset + GLYPH_HEADER_SIZE <= data.len()
    &&& 1 <= data[offset + 5] <= MAX_RUN_BITS
    &&& 1 <= data[offset + 6] <= MAX_RUN_BITS
}

/// The runs of the glyph whose record starts at `offset`.
pub open spec fn glyph_runs(data: Seq<u8>, offset: int) -> Option<Seq<(bool, usize)>> {
    if glyph_header_ok(data, offset) {
        decode_runs(
            data,
            (offset + GLYPH_HEADER_SIZE) * 8,
            false,
            data[offset] * data[offset + 1],
            data[offset + 5] as nat,
            data[offset + 6] as nat,
        )
    } else {
        None
    }
}

/// Putting a run in front adds its length to the total.
pub proof fn lemma_total_pixels_prepend(first: (bool, usize), rest: Seq<(bool, usize)>)
    ensures
        total_pixels(seq![first] + rest) == first.1 + total_pixels(rest),
    decreases rest.len(),
{
    let all = seq![first] + rest;
    if rest.len() == 0 {
        assert(all.drop_last() =~= Seq::empty());
        assert(total_pixels(all.drop_last()) == 0);
    } else {
        assert(all.drop_last() =~= seq![first] + rest.drop_last());
        lemma_total_pixels_prepend(first, rest.drop_last());
    }
}

/// A decoded run stream covers exactly the pixels that were asked for.
pub proof fn lemma_decode_runs_total(
    data: Seq<u8>,
    k: int,
    lit: bool,
    remaining: int,
    unlit_bits: nat,
    lit_bits: nat,
)
    requires
        0 <= remaining <= usize::MAX,
        decode_runs(data, k, lit, remaining, unlit_bits, lit_bits) is Some,
    ensures
        total_pixels(decode_runs(data, k, lit, remaining, unlit_bits, lit_bits)->Some_0)
            == remaining,
    decreases data.len() * 8 - k,
{
    if remaining > 0 {
        let n = if lit { lit_bits } else { unlit_bits };
        let len = bits_value(data, k, n);
        lemma_bits_value_bound(data, k, n);
        lemma_decode_runs_total(data, k + n, !lit, remaining - len, unlit_bits, lit_bits);
        let rest = decode_runs(data, k + n, !lit, remaining - len, unlit_bits, lit_bits)->Some_0;
        lemma_total_pixels_prepend((lit, len as usize), rest);
    }
}

/// A number spelled by bits is not negative.
pub proof fn lemma_bits_value_bound(data: Seq<u8>, k: int, n: nat)
    ensures
        0 <= bits_value(data, k, n),
    decreases n,
{
    if n > 0 {
        lemma_bits_value_bound(data, k + 1, (n - 1) as nat);
        let b = data[k / 8];
        let s = (k % 8) as u8;
        assert((b >> s) & 1 >= 0) by (bit_vector);
    }
}

/// The expansion of runs has one pixel for each that they cover.
pub proof fn lemma_expand_runs_len(runs: Seq<(bool, usize)>)
    ensures
        expand_runs(runs).len() == total_pixels(runs),
    decreases runs.len(),
{
    if runs.len() > 0 {
        lemma_expand_runs_len(runs.drop_last());
    }
}

/// Reads the `n` bits that start at bit `bit` of byte `byte`, and gives
/// their value and the place of the bit behind them.
pub fn read_bits(data: &[u8], byte: usize, bit: u8, n: u8) -> (r: (usize, usize, u8))
    requires
        bit < 8,
        n <= MAX_RUN_BITS,
        byte * 8 + bit + n <= data@.len() * 8,
    ensures
        r.0 as int == bits_value(data@, byte * 8 + bit, n as nat),
        r.0 <= 255,
        r.1 * 8 + r.2 == byte * 8 + bit + n,
        r.2 < 8,
{
    let size: usize = data.len();
    let end: usize = bit as usize + n as usize;
    let ghost first: int = byte * 8 + bit;
    let mut acc: u64 = 0;
    let mut j: usize = end;
    assert(0 < (1u64 << 0u64)) by (bit_vector);
    while j > bit as usize
        invariant
            size == data@.len(),
            bit < 8,
            n <= 8,
            end == bit + n,
            bit <= j <= end,
            first == byte * 8 + bit,
            first + n <= data@.len() * 8,
            acc as int == bits_value(data@, byte * 8 + j, (end - j) as nat),
            acc < (1u64 << ((end - j) as u64)),
        decreases j,
    {
        j = j - 1;
        let at: usize = byte + j / 8;
        let shift: u8 = (j % 8) as u8;
        let b: u64 = ((data[at] >> shift) & 1) as u64;
        proof {
            let k = byte * 8 + j;
            assert(k / 8 == at as int);
            assert(k % 8 == shift as int);
            let raw = data@[at as int];
            assert((raw >> shift) & 1 <= 1) by (bit_vector);
            let m: u64 = (end - j - 1) as u64;
            assert(2 * acc + b < (1u64 << ((m + 1) as u64)) && acc < 128) by (bit_vector)
                requires
                    acc < (1u64 << m),
                    m < 8,
                    b <= 1,
            ;
        }
        acc = 2 * acc + b;
    }
    proof {
        let m: u64 = n as u64;
        assert(acc <= 255) by (bit_vector)
            requires
                acc < (1u64 << m),
                m <= 8,
        ;
    }
    (acc as usize, byte + end / 8, (end % 8) as u8)
}

/// A decoded glyph record.
#[derive(Debug)]
pub struct GlyphReader {
    data: &'static [u8],
    start: usize,
}

impl GlyphReader {
    /// The whole font blob.
    pub closed spec fn blob(&self) -> Seq<u8> {
        self.data@
    }

    /// The byte offset in the blob at which the record starts.
    pub closed spec fn offset(&self) -> int {
        self.start as int
    }

    /// The record's fixed part lies inside the blob, with valid bit widths.
    pub open spec fn wf(&self) -> bool {
        &&& glyph_header_ok(self.blob(), self.offset())
        &&& self.blob().len() <= usize::MAX
    }

    /// Decodes the fixed part of the glyph record at `offset`. Fails where
    /// the blob ends before the record's fixed part does, or a bit width is
    /// not between 1 and `MAX_RUN_BITS`.
    pub fn new(data: &'static [u8], offset: usize) -> (r: Result<GlyphReader, Error>)
        ensures
            r is Ok <==> glyph_header_ok(data@, offset as int),
            r is Err ==> r->Err_0 == Error::InternalError,
            r is Ok ==> r->Ok_0.blob() == data@ && r->Ok_0.offset() == offset && r->Ok_0.wf(),
    {
        if offset > data.len() || data.len() - offset < GLYPH_HEADER_SIZE {
            return Err(Error::InternalError);
        }
        let unlit_bits = data[offset + 5];
        let lit_bits = data[offset + 6];
        if unlit_bits < 1 || unlit_bits > MAX_RUN_BITS || lit_bits < 1 || lit_bits > MAX_RUN_BITS {
            return Err(Error::InternalError);
        }
        Ok(GlyphReader { data, start: offset })
    }

    /// Width of the bitmap in pixels.
    pub fn width(&self) -> (r: u8)
        requires
            self.wf(),
        ensures
            r == self.blob()[self.offset()],
    {
        self.data[self.start]
    }

    /// Height of the bitmap in pixels.
    pub fn height(&self) -> (r: u8)
        requires
            self.wf(),
        ensures
            r == self.blob()[self.offset() + 1],
    {
        self.data[self.start + 1]
    }

    /// Distance from the pen position to the left edge of the bitmap.
    pub fn x_offset(&self) -> (r: i8)
        requires
            self.wf(),
        ensures
            r as int == signed(self.blob()[self.offset() + 2]),
    {
        to_signed(self.data[self.start + 2])
    }

    /// Distance from the top edge of the bitmap up to the baseline.
    pub fn y_offset(&self) -> (r: i8)
        requires
            self.wf(),
        ensures
            r as int == signed(self.blob()[self.offset() + 3]),
    {
        to_signed(self.data[self.start + 3])
    }

    /// How far the pen moves to the right for the next glyph.
    pub fn advance(&self) -> (r: i8)
        requires
            self.wf(),
        ensures
            r as int == signed(self.blob()[self.offset() + 4]),
    {
        to_signed(self.data[self.start + 4])
    }

    /// Decodes the run stream of the bitmap, in raster order. Fails where
    /// the stream is cut short or a run overshoots the bitmap; the runs that
    /// come back cover exactly width times height pixels.
    pub fn runs(&self) -> (r: Result<Vec<(bool, usize)>, Error>)
        requires
            self.wf(),
        ensures
            r is Ok <==> glyph_runs(self.blob(), self.offset()) is Some,
            r is Ok ==> Some(r->Ok_0@) == glyph_runs(self.blob(), self.offset()),
            r is Ok ==> total_pixels(r->Ok_0@) == self.blob()[self.offset()] * self.blob()[
                self.offset() + 1],
            r is Err ==> r->Err_0 == Error::InternalError,
    {
        let data = self.data;
        let unlit_bits: u8 = data[self.start + 5];
        let lit_bits: u8 = data[self.start + 6];
        let width: usize = data[self.start] as usize;
        let height: usize = data[self.start + 1] as usize;
        assert(width * height <= 255 * 255) by (nonlinear_arith)
            requires
                width <= 255,
                height <= 255,
        ;
        let total: usize = width * height;
        let ghost first: int = (self.start + GLYPH_HEADER_SIZE) * 8;
        let ghost goal = decode_runs(data@, first, false, total as int, unlit_bits as nat, lit_bits as nat);
        let mut out: Vec<(bool, usize)> = Vec::new();
        let mut remaining: usize = total;
        let mut lit: bool = false;
        let mut byte: usize = self.start + GLYPH_HEADER_SIZE;
        let mut bit: u8 = 0;
        proof {
            assert(seq![] + goal->Some_0 =~= goal->Some_0);
            if goal is Some {
                lemma_decode_runs_total(data@, first, false, total as int, unlit_bits as nat, lit_bits as nat);
            }
        }
        while remaining > 0
            invariant
                1 <= unlit_bits <= 8,
                1 <= lit_bits <= 8,
                bit < 8,
                byte * 8 + bit <= data@.len() * 8,
                goal == glyph_runs(self.blob(), self.offset()),
                goal is Some ==> total_pixels(goal->Some_0) == self.blob()[self.offset()] * self.blob()[
                    self.offset() + 1],
                goal is Some <==> decode_runs(data@, byte * 8 + bit, lit, remaining as int, unlit_bits as nat, lit_bits as nat) is Some,
                goal is Some ==> goal->Some_0 == out@ + decode_runs(data@, byte * 8 + bit, lit, remaining as int, unlit_bits as nat, lit_bits as nat)->Some_0,
            decreases data@.len() * 8 - (byte * 8 + bit),
        {
            let n: u8 = if lit { lit_bits } else { unlit_bits };
            let need: usize = (bit as usize + n as usize + 7) / 8;
            if need > data.len() - byte {
                assert(byte * 8 + bit + n > data@.len() * 8);
                assert(decode_runs(data@, byte * 8 + bit, lit, remaining as int, unlit_bits as nat, lit_bits as nat) is None);
                return Err(Error::InternalError);
            }
            let (len, next_byte, next_bit) = read_bits(data, byte, bit, n);
            if len > remaining {
                assert(decode_runs(data@, byte * 8 + bit, lit, remaining as int, unlit_bits as nat, lit_bits as nat) is None);
                return Err(Error::InternalError);
            }
            proof {
                let here = byte * 8 + bit;
                let rest = decode_runs(data@, here + n, !lit, remaining - len, unlit_bits as nat, lit_bits as nat);
                if rest is Some {
                    assert(out@.push((lit, len)) + rest->Some_0 =~= out@ + (seq![(lit, len)] + rest->Some_0));
                }
            }
            out.push((lit, len));
            remaining = remaining - len;
            lit = !lit;
            byte = next_byte;
            bit = next_bit;
        }
        proof {
            assert(out@ + Seq::<(bool, usize)>::empty() =~= out@);
        }
        Ok(out)
    }
}

} // verus!
