//! The decoder proper: scanlines are put together from the inflated bytes,
//! defiltered against the scanline before, and unpacked into rows of colours.

use crate::chunks::BitDepth;
use crate::chunks::Chunk;
use crate::chunks::ChunkView;
use crate::chunks::ColorType;
use crate::chunks::Colors;
use crate::chunks::Interlace;
use crate::error::parse_failure;
use crate::error::Error;
use crate::error::ErrorKind;
use crate::error::ErrorView;
use crate::filter::defilter;
use crate::filter::spec_defilter;
use crate::inflate::inflate_all;
use crate::inflate::inflated;
use crate::parse::chunk;
use crate::parse::has_signature;
use crate::parse::lemma_chunk_shrinks;
use crate::parse::header;
use crate::parse::spec_chunk;
use crate::parse::spec_header;
use crate::pixel::bits_per_pixel;
use crate::pixel::decode_row;
use crate::pixel::lemma_bits_per_pixel_values;
use crate::pixel::spec_bits_per_pixel;
use crate::pixel::spec_decode_row;
use crate::pixel::Color;
use vstd::prelude::*;
use vstd::slice::slice_subrange;

verus! {

/// The rows of an image as sequences of colours.
pub open spec fn rows_view(rows: Seq<Vec<Color>>) -> Seq<Seq<Color>> {
    rows.map_values(|row: Vec<Color>| row@)
}

/// The state of a decoder, as values.
pub struct RendererView {
    pub width: nat,
    pub height: nat,
    pub bit_depth: BitDepth,
    pub color_type: ColorType,
    pub interlace: Interlace,
    /// The palette, once the stream has given one.
    pub palette: Option<Seq<u8>>,
    /// The bytes of the scanline that is being put together.
    pub next: Seq<u8>,
    /// The scanline before it, reconstructed; empty before the first.
    pub prev: Seq<u8>,
    /// The rows decoded so far.
    pub rows: Seq<Seq<Color>>,
}

impl RendererView {
    /// The number of bits in a pixel.
    pub open spec fn bits(self) -> nat {
        spec_bits_per_pixel(self.bit_depth, self.color_type)->Some_0
    }

    /// The number of bytes from a byte to its neighbour one pixel to the
    /// left: the size of a pixel in whole bytes, rounded up.
    pub open spec fn bytes_per_pixel(self) -> int {
        (self.bits() as int + 7) / 8
    }

    /// The number of bytes in a scanline: one for the filter type, and the
    /// pixels of a row, rounded up to whole bytes.
    pub open spec fn stride(self) -> nat {
        ((self.width * self.bits() + 7) / 8 + 1) as nat
    }

    /// Whether a scanline of this width can be addressed on this machine.
    pub open spec fn row_fits(width: nat, bits: nat) -> bool {
        width * bits + 15 <= usize::MAX
    }

    /// What holds of every decoder that is ready for more bytes.
    pub open spec fn wf(self) -> bool {
        &&& spec_bits_per_pixel(self.bit_depth, self.color_type) is Some
        &&& Self::row_fits(self.width, self.bits())
        &&& self.next.len() < self.stride()
        &&& self.prev.len() == 0 || self.prev.len() == self.stride()
    }

    /// What becomes of a decoder whose scanline is complete: the scanline is
    /// defiltered and unpacked, its row is added, and it becomes the
    /// scanline before. Where the filter type is wrong nothing changes; where
    /// a pixel has no colour the scanline stays, defiltered.
    pub open spec fn spec_scanline(self) -> (RendererView, Option<ErrorView>) {
        match spec_defilter(self.next, self.prev, self.bytes_per_pixel()) {
            Err(e) => (self, Some(e)),
            Ok(record) => match spec_decode_row(
                record.skip(1),
                self.bit_depth,
                self.color_type,
                self.palette,
            ) {
                Err(e) => (RendererView { next: record, ..self }, Some(e)),
                Ok(row) => (
                    RendererView {
                        next: Seq::empty(),
                        prev: record,
                        rows: self.rows.push(row),
                        ..self
                    },
                    None,
                ),
            },
        }
    }

    /// What becomes of a decoder that is given the bytes `buf`: they are
    /// added to the scanline in hand, and each time the scanline is complete
    /// it is decoded and a new one begun. The first error ends it, and the
    /// bytes after it are not looked at.
    #[verifier::opaque]
    pub open spec fn spec_write(self, buf: Seq<u8>) -> (RendererView, Option<ErrorView>)
        decreases buf.len(),
        when self.next.len() < self.stride()
    {
        let spare = self.stride() - self.next.len();
        if buf.len() < spare {
            (RendererView { next: self.next + buf, ..self }, None)
        } else {
            let full = RendererView { next: self.next + buf.take(spare), ..self };
            let (after, error) = full.spec_scanline();
            if error is Some {
                (after, error)
            } else {
                after.spec_write(buf.skip(spare))
            }
        }
    }

    /// The decoder that a header gives, or why it gives none: the depth and
    /// the colour type must go together, and a scanline must fit the machine.
    pub open spec fn spec_new(
        width: nat,
        height: nat,
        bit_depth: BitDepth,
        color_type: ColorType,
        interlace: Interlace,
    ) -> Result<RendererView, ErrorView> {
        match spec_bits_per_pixel(bit_depth, color_type) {
            None => Err(
                ErrorView::InvalidBitColorCombo(bit_depth.spec_code(), color_type.spec_code()),
            ),
            Some(bits) => if Self::row_fits(width, bits) {
                Ok(
                    RendererView {
                        width,
                        height,
                        bit_depth,
                        color_type,
                        interlace,
                        palette: None,
                        next: Seq::empty(),
                        prev: Seq::empty(),
                        rows: Seq::empty(),
                    },
                )
            } else {
                Err(ErrorView::Unknown)
            },
        }
    }
}

/// A decoder for the image data of one stream. It is made from the header,
/// takes the palette and the inflated bytes as they come, and holds the rows
/// of colours that it has decoded.
pub struct Renderer<'data> {
    width: usize,
    height: usize,
    bit_depth: BitDepth,
    color_type: ColorType,
    interlace: Interlace,
    bits_per_pixel: usize,
    stride: usize,
    palette: Option<Colors<'data>>,
    next_scanline: Vec<u8>,
    prev_scanline: Vec<u8>,
    rows: Vec<Vec<Color>>,
}

impl<'data> View for Renderer<'data> {
    type V = RendererView;

    closed spec fn view(&self) -> RendererView {
        RendererView {
            width: self.width as nat,
            height: self.height as nat,
            bit_depth: self.bit_depth,
            color_type: self.color_type,
            interlace: self.interlace,
            palette: match self.palette {
                Some(colors) => Some(colors@),
                None => None,
            },
            next: self.next_scanline@,
            prev: self.prev_scanline@,
            rows: rows_view(self.rows@),
        }
    }
}

impl<'data> Renderer<'data> {
    /// What holds of the fields whatever the scanline in hand.
    spec fn consistent(&self) -> bool {
        &&& spec_bits_per_pixel(self.bit_depth, self.color_type) == Some(self.bits_per_pixel as nat)
        &&& RendererView::row_fits(self.width as nat, self.bits_per_pixel as nat)
        &&& self.stride == self@.stride()
        &&& self.prev_scanline@.len() == 0 || self.prev_scanline@.len() == self.stride
    }

    /// Whether the decoder is ready for more bytes. It is, from its making
    /// until a write fails.
    pub closed spec fn wf(&self) -> bool {
        self.consistent() && self@.wf()
    }

    /// A decoder that is ready is so by its values too, so that what
    /// `spec_write` says of it holds.
    pub proof fn lemma_wf_view(&self)
        requires
            self.wf(),
        ensures
            self@.wf(),
    {
    }

    /// Makes the decoder for an image with this header. It fails with
    /// `InvalidBitColorCombo` where the depth and the colour type do not go
    /// together, and with `Unknown` where a scanline would be too long for
    /// this machine.
    pub fn new(
        width: usize,
        height: usize,
        bit_depth: BitDepth,
        color_type: ColorType,
        interlace: Interlace,
    ) -> (r: Result<Self, Error>)
        ensures
            match RendererView::spec_new(
                width as nat,
                height as nat,
                bit_depth,
                color_type,
                interlace,
            ) {
                Ok(state) => r is Ok && r->Ok_0@ == state && r->Ok_0.wf() && r->Ok_0@.wf(),
                Err(e) => r is Err && r->Err_0@ == e,
            },
    {
        let bits = bits_per_pixel(bit_depth, color_type)?;
        proof {
            lemma_bits_per_pixel_values(bit_depth, color_type);
        }
        let row_bits = match width.checked_mul(bits) {
            Some(row_bits) => row_bits,
            None => {
                return Err(Error::Unknown);
            },
        };
        if row_bits > usize::MAX - 15 {
            return Err(Error::Unknown);
        }
        let stride = (row_bits + 7) / 8 + 1;
        let renderer = Renderer {
            width,
            height,
            bit_depth,
            color_type,
            interlace,
            bits_per_pixel: bits,
            stride,
            palette: None,
            next_scanline: Vec::new(),
            prev_scanline: Vec::new(),
            rows: Vec::new(),
        };
        assert(rows_view(renderer.rows@) =~= Seq::<Seq<Color>>::empty());
        Ok(renderer)
    }

    /// Gives the decoder its palette, in place of any it had.
    pub fn set_palette(&mut self, colors: Colors<'data>)
        requires
            old(self).wf(),
        ensures
            final(self).wf(),
            final(self)@.wf(),
            final(self)@ == (RendererView { palette: Some(colors@), ..old(self)@ }),
    {
        self.palette = Some(colors);
    }

    /// Whether a whole scanline is in hand, waiting to be decoded.
    spec fn full(&self) -> bool {
        self.consistent() && self.next_scanline@.len() == self.stride
    }

    /// Reverses the filter of the scanline in hand against the scanline
    /// before it. An invalid filter type fails and changes nothing.
    fn filter(&mut self) -> (r: Result<(), Error>)
        requires
            old(self).full(),
        ensures
            final(self).full(),
            match spec_defilter(old(self)@.next, old(self)@.prev, old(self)@.bytes_per_pixel()) {
                Ok(record) => r is Ok && final(self)@ == (RendererView {
                    next: record,
                    ..old(self)@
                }),
                Err(e) => r is Err && r->Err_0@ == e && final(self)@ == old(self)@,
            },
    {
        proof {
            lemma_bits_per_pixel_values(self.bit_depth, self.color_type);
        }
        let bytes_per_pixel = (self.bits_per_pixel + 7) / 8;
        let ghost before = self@;
        let r = defilter(&mut self.next_scanline, self.prev_scanline.as_slice(), bytes_per_pixel);
        proof {
            crate::filter::lemma_defilter_keeps_length(
                before.next,
                before.prev,
                bytes_per_pixel as int,
            );
        }
        r
    }

    /// Unpacks the scanline in hand, which must be defiltered, into a row of
    /// colours and adds the row to those decoded. A pixel without a colour
    /// fails and changes nothing.
    fn render(&mut self) -> (r: Result<(), Error>)
        requires
            old(self).full(),
        ensures
            final(self).full(),
            match spec_decode_row(
                old(self)@.next.skip(1),
                old(self)@.bit_depth,
                old(self)@.color_type,
                old(self)@.palette,
            ) {
                Ok(row) => r is Ok && final(self)@ == (RendererView {
                    rows: old(self)@.rows.push(row),
                    ..old(self)@
                }),
                Err(e) => r is Err && r->Err_0@ == e && final(self)@ == old(self)@,
            },
    {
        let sample = slice_subrange(self.next_scanline.as_slice(), 1, self.next_scanline.len());
        let row = decode_row(sample, self.bit_depth, self.color_type, self.palette.as_ref())?;
        let ghost before = rows_view(self.rows@);
        self.rows.push(row);
        assert(rows_view(self.rows@) =~= before.push(row@));
        Ok(())
    }

    /// Takes the next inflated bytes of the image data. They are added to
    /// the scanline in hand; each scanline that they complete is defiltered,
    /// unpacked and added to the rows. Returns the number of bytes taken,
    /// which is all of them, or the first error, after which the decoder
    /// takes no more.
    pub fn write(&mut self, buf: &[u8]) -> (r: Result<usize, Error>)
        requires
            old(self).wf(),
        ensures
            final(self)@ == old(self)@.spec_write(buf@).0,
            match old(self)@.spec_write(buf@).1 {
                None => r == Ok::<usize, Error>(buf@.len() as usize) && final(self).wf()
                    && final(self)@.wf(),
                Some(e) => r is Err && r->Err_0@ == e,
            },
    {
        let len = buf.len();
        let mut at: usize = 0;
        assert(buf@.skip(0) =~= buf@);
        loop
            invariant
                at <= len,
                len == buf@.len(),
                self.wf(),
                old(self)@.spec_write(buf@) == self@.spec_write(buf@.skip(at as int)),
            decreases len - at,
        {
            let ghost state = self@;
            let ghost rest = buf@.skip(at as int);
            proof {
                reveal(RendererView::spec_write);
            }
            let spare = self.stride - self.next_scanline.len();
            if len - at < spare {
                self.next_scanline.extend_from_slice(slice_subrange(buf, at, len));
                assert(self.next_scanline@ =~= state.next + rest);
                return Ok(len);
            }
            self.next_scanline.extend_from_slice(slice_subrange(buf, at, at + spare));
            assert(self.next_scanline@ =~= state.next + rest.take(spare as int));
            assert(rest.skip(spare as int) =~= buf@.skip(at + spare));
            at = at + spare;
            self.filter()?;
            self.render()?;
            std::mem::swap(&mut self.next_scanline, &mut self.prev_scanline);
            self.next_scanline.clear();
        }
    }

    /// The rows decoded so far, the first row first.
    pub fn rows(&self) -> (rows: &Vec<Vec<Color>>)
        ensures
            rows_view(rows@) == self@.rows,
    {
        &self.rows
    }

    /// Gives up the decoder for the rows that it has decoded.
    pub fn into_rows(self) -> (rows: Vec<Vec<Color>>)
        ensures
            rows_view(rows@) == self@.rows,
    {
        self.rows
    }

    /// The number of the scanline in hand: the number of rows decoded.
    pub fn scanline(&self) -> (n: usize)
        ensures
            n == self@.rows.len(),
    {
        self.rows.len()
    }

    /// The order in which the header says that the rows arrive. The decoder
    /// reports it and reads the rows in the order of the stream.
    pub fn interlace(&self) -> (interlace: Interlace)
        ensures
            interlace == self@.interlace,
    {
        self.interlace
    }

    /// The width and the height that the header gives, in pixels.
    pub fn dimensions(&self) -> (size: (usize, usize))
        ensures
            size.0 == self@.width,
            size.1 == self@.height,
    {
        (self.width, self.height)
    }
}

/// The chunks of a stream in their order, from `input` on: up to the end
/// chunk, if there is one, and else up to where the input runs out or is
/// malformed.
pub open spec fn spec_chunk_list(input: Seq<u8>) -> Seq<ChunkView>
    decreases input.len(),
    via chunk_list_shrinks
{
    if input.len() == 0 {
        Seq::empty()
    } else {
        match spec_chunk(input) {
            Err(_) => Seq::empty(),
            Ok((rest, found)) => if found is Iend {
                seq![found]
            } else {
                seq![found] + spec_chunk_list(rest)
            },
        }
    }
}

#[via_fn]
proof fn chunk_list_shrinks(input: Seq<u8>) {
    lemma_chunk_shrinks(input);
}

/// What is left of `input` after the chunks of `spec_chunk_list`.
pub open spec fn spec_after_chunks(input: Seq<u8>) -> Seq<u8>
    decreases input.len(),
    via after_chunks_shrinks
{
    if input.len() == 0 {
        input
    } else {
        match spec_chunk(input) {
            Err(_) => input,
            Ok((rest, found)) => if found is Iend {
                rest
            } else {
                spec_after_chunks(rest)
            },
        }
    }
}

#[via_fn]
proof fn after_chunks_shrinks(input: Seq<u8>) {
    lemma_chunk_shrinks(input);
}

/// The image data that a chunk brings: the body of an image-data chunk, and
/// nothing of any other.
pub open spec fn image_body(chunk: ChunkView) -> Seq<u8> {
    match chunk {
        ChunkView::Idat(body) => body,
        _ => Seq::empty(),
    }
}

/// The image data that chunks bring between them: the bodies of the
/// image-data chunks among them, joined in the order of the chunks.
pub open spec fn joined_image_data(chunks: Seq<ChunkView>) -> Seq<u8>
    decreases chunks.len(),
{
    if chunks.len() == 0 {
        Seq::empty()
    } else {
        image_body(chunks[0]) + joined_image_data(chunks.drop_first())
    }
}

/// The compressed image data of the stream `data`: the bodies of its
/// image-data chunks, joined in the order of the stream. This is what is
/// handed to the inflater, as one stream.
pub open spec fn image_data(data: Seq<u8>) -> Seq<u8> {
    joined_image_data(spec_chunk_list(data.skip(8)))
}

/// A chunk list begins with the chunk read first, and its image data with
/// the image data of that chunk.
pub proof fn lemma_chunk_list_step(input: Seq<u8>)
    requires
        input.len() > 0,
        spec_chunk(input) is Ok,
    ensures
        ({
            let (rest, found) = spec_chunk(input)->Ok_0;
            &&& spec_chunk_list(input) == if found is Iend {
                seq![found]
            } else {
                seq![found] + spec_chunk_list(rest)
            }
            &&& joined_image_data(spec_chunk_list(input)) == if found is Iend {
                Seq::<u8>::empty()
            } else {
                image_body(found) + joined_image_data(spec_chunk_list(rest))
            }
        }),
{
    let (rest, found) = spec_chunk(input)->Ok_0;
    let chunks = spec_chunk_list(input);
    assert(chunks[0] == found);
    if found is Iend {
        assert(chunks.drop_first() =~= Seq::<ChunkView>::empty());
        assert(joined_image_data(chunks.drop_first()) =~= Seq::<u8>::empty());
        assert(joined_image_data(chunks) =~= Seq::<u8>::empty());
    } else {
        assert(chunks.drop_first() =~= spec_chunk_list(rest));
    }
}

/// What reading the chunks after the header gives, from `input` on: the
/// palette that the image data is to be read with, and whether there is
/// image data at all. `palette` and `seen` say the same of the chunks read
/// before. The palette is the last that comes before the first image-data
/// chunk; one that comes later is read and left aside. A second header is an
/// error, and so is input that runs out before the end chunk, or goes on
/// after it. The first error in the order of the stream is the result.
#[verifier::opaque]
pub open spec fn spec_walk(input: Seq<u8>, palette: Option<Seq<u8>>, seen: bool) -> Result<
    (Option<Seq<u8>>, bool),
    ErrorView,
>
    decreases input.len(),
    via walk_shrinks
{
    if input.len() == 0 {
        Err(ErrorView::MissingCritical("IEND"@))
    } else {
        match spec_chunk(input) {
            Err(e) => Err(e),
            Ok((rest, found)) => match found {
                ChunkView::Ihdr { .. } => Err(ErrorView::DuplicateIhdr),
                ChunkView::Plte(colors) => spec_walk(
                    rest,
                    if seen {
                        palette
                    } else {
                        Some(colors)
                    },
                    seen,
                ),
                ChunkView::Idat(_) => spec_walk(rest, palette, true),
                ChunkView::Iend => if rest.len() == 0 {
                    Ok((palette, seen))
                } else {
                    Err(parse_failure(rest, ErrorKind::Eof))
                },
                ChunkView::Unknown => spec_walk(rest, palette, seen),
            },
        }
    }
}

#[via_fn]
proof fn walk_shrinks(input: Seq<u8>, palette: Option<Seq<u8>>, seen: bool) {
    lemma_chunk_shrinks(input);
}

/// One step of `spec_walk`, spelt out.
pub proof fn lemma_walk_step(input: Seq<u8>, palette: Option<Seq<u8>>, seen: bool)
    ensures
        input.len() == 0 ==> spec_walk(input, palette, seen) == Err::<
            (Option<Seq<u8>>, bool),
            ErrorView,
        >(ErrorView::MissingCritical("IEND"@)),
        input.len() > 0 ==> spec_walk(input, palette, seen) == match spec_chunk(input) {
            Err(e) => Err(e),
            Ok((rest, found)) => match found {
                ChunkView::Ihdr { .. } => Err(ErrorView::DuplicateIhdr),
                ChunkView::Plte(colors) => spec_walk(
                    rest,
                    if seen {
                        palette
                    } else {
                        Some(colors)
                    },
                    seen,
                ),
                ChunkView::Idat(_) => spec_walk(rest, palette, true),
                ChunkView::Iend => if rest.len() == 0 {
                    Ok((palette, seen))
                } else {
                    Err(parse_failure(rest, ErrorKind::Eof))
                },
                ChunkView::Unknown => spec_walk(rest, palette, seen),
            },
        },
{
    reveal(spec_walk);
}

/// What opening the stream `data` gives: the decoder that its header makes,
/// with the palette of the stream, and whether the stream has image data.
/// The stream must begin with the signature, its first chunk must be a
/// header that a decoder can be made from, and the chunks after it must be
/// in order up to the end of the stream.
pub open spec fn spec_open(data: Seq<u8>) -> Result<(RendererView, bool), ErrorView> {
    match spec_header(data) {
        Err(e) => Err(e),
        Ok((rest, _)) => match spec_chunk(rest) {
            Err(e) => Err(e),
            Ok((rest, found)) => match found {
                ChunkView::Ihdr { width, height, bit_depth, color_type, interlace } => {
                    match RendererView::spec_new(
                        width as nat,
                        height as nat,
                        bit_depth,
                        color_type,
                        interlace,
                    ) {
                        Err(e) => Err(e),
                        Ok(state) => match spec_walk(rest, None, false) {
                            Err(e) => Err(e),
                            Ok((palette, seen)) => Ok((RendererView { palette, ..state }, seen)),
                        },
                    }
                },
                _ => Err(ErrorView::MissingCritical("IHDR"@)),
            },
        },
    }
}

/// What a decoder in the state `state` makes of the inflated image data:
/// the rows that the bytes hold, or the first error in them. `inflated` is
/// what the inflater gave, the bytes or the message of its failure; where
/// the stream has no image data, it is not looked at and there are no rows.
pub open spec fn spec_finish(
    state: RendererView,
    seen: bool,
    inflated: Result<Seq<u8>, Seq<char>>,
) -> Result<Seq<Seq<Color>>, ErrorView> {
    if !seen {
        Ok(state.rows)
    } else {
        match inflated {
            Err(message) => Err(ErrorView::IoError(message)),
            Ok(bytes) => match state.spec_write(bytes).1 {
                Some(e) => Err(e),
                None => Ok(state.spec_write(bytes).0.rows),
            },
        }
    }
}

/// What decoding the stream `data` gives, where `inflated` is what its
/// image data inflates to: the rows of the image, or the first error. The
/// errors of the framing come first, in the order of the stream; then the
/// failure of the inflater; then the errors of the scanlines, in their
/// order.
pub open spec fn spec_render(data: Seq<u8>, inflated: Result<Seq<u8>, Seq<char>>) -> Result<
    Seq<Seq<Color>>,
    ErrorView,
> {
    match spec_open(data) {
        Err(e) => Err(e),
        Ok((state, seen)) => spec_finish(state, seen, inflated),
    }
}

/// A stream without the signature is not decoded: it fails on the signature,
/// whatever follows, before any chunk is read.
pub proof fn lemma_signature_comes_first(data: Seq<u8>, inflated: Result<Seq<u8>, Seq<char>>)
    requires
        !has_signature(data),
    ensures
        spec_render(data, inflated) == Err::<Seq<Seq<Color>>, ErrorView>(
            parse_failure(data.skip(crate::parse::signature_break(data)), ErrorKind::Tag),
        ),
{
}

proof fn lemma_walk_ok(input: Seq<u8>, palette: Option<Seq<u8>>, seen: bool)
    requires
        spec_walk(input, palette, seen) is Ok,
    ensures
        spec_chunk_list(input).len() >= 1,
        spec_chunk_list(input).last() is Iend,
        forall|i: int|
            0 <= i < spec_chunk_list(input).len() ==> !(#[trigger] spec_chunk_list(input)[i] is Ihdr),
        forall|i: int|
            0 <= i < spec_chunk_list(input).len() - 1 ==> !(#[trigger] spec_chunk_list(input)[i] is Iend),
        spec_after_chunks(input).len() == 0,
        spec_walk(input, palette, seen)->Ok_0.1 == (seen || exists|i: int|
            0 <= i < spec_chunk_list(input).len() && (#[trigger] spec_chunk_list(input)[i]) is Idat),
    decreases input.len(),
{
    lemma_chunk_shrinks(input);
    lemma_walk_step(input, palette, seen);
    let (rest, found) = spec_chunk(input)->Ok_0;
    let chunks = spec_chunk_list(input);
    let tail = spec_chunk_list(rest);
    assert(chunks[0] == found);
    match found {
        ChunkView::Ihdr { .. } => {},
        ChunkView::Iend => {},
        ChunkView::Plte(colors) => {
            let next = if seen {
                palette
            } else {
                Some(colors)
            };
            lemma_walk_ok(rest, next, seen);
            lemma_list_shift(found, tail);
        },
        ChunkView::Idat(_) => {
            lemma_walk_ok(rest, palette, true);
            lemma_list_shift(found, tail);
        },
        ChunkView::Unknown => {
            lemma_walk_ok(rest, palette, seen);
            lemma_list_shift(found, tail);
        },
    }
}

/// What holds of a list holds of it behind one more chunk, one place on.
proof fn lemma_list_shift(first: ChunkView, tail: Seq<ChunkView>)
    ensures
        (seq![first] + tail).len() == tail.len() + 1,
        (seq![first] + tail)[0] == first,
        forall|i: int| 0 <= i < tail.len() ==> #[trigger] (seq![first] + tail)[i + 1] == tail[i],
        forall|i: int| 1 <= i <= tail.len() ==> #[trigger] (seq![first] + tail)[i] == tail[i - 1],
        tail.len() > 0 ==> (seq![first] + tail).last() == tail.last(),
        (exists|i: int| 0 <= i < tail.len() + 1 && (#[trigger] (seq![first] + tail)[i]) is Idat) == (
        first is Idat || exists|i: int| 0 <= i < tail.len() && (#[trigger] tail[i]) is Idat),
{
    let whole = seq![first] + tail;
    if exists|i: int| 0 <= i < tail.len() && (#[trigger] tail[i]) is Idat {
        let i = choose|i: int| 0 <= i < tail.len() && (#[trigger] tail[i]) is Idat;
        assert(whole[i + 1] is Idat);
    }
    if exists|i: int| 0 <= i < tail.len() + 1 && (#[trigger] whole[i]) is Idat {
        let i = choose|i: int| 0 <= i < tail.len() + 1 && (#[trigger] whole[i]) is Idat;
        if i > 0 {
            assert(tail[i - 1] is Idat);
        }
    }
    if first is Idat {
        assert(whole[0] is Idat);
    }
}

/// Whether the chunks of the stream `data` are in their places: after the
/// signature comes a header chunk, which is the only one; the last chunk is an
/// end chunk, which is the only one; and nothing comes after it.
pub open spec fn well_framed(data: Seq<u8>) -> bool {
    let chunks = spec_chunk_list(data.skip(8));
    &&& has_signature(data)
    &&& chunks.len() >= 2
    &&& chunks[0] is Ihdr
    &&& forall|i: int| 1 <= i < chunks.len() ==> !(#[trigger] chunks[i] is Ihdr)
    &&& chunks.last() is Iend
    &&& forall|i: int| 0 <= i < chunks.len() - 1 ==> !(#[trigger] chunks[i] is Iend)
    &&& spec_after_chunks(data.skip(8)).len() == 0
}

/// Whether the chunks of the stream `data` hold image data.
pub open spec fn has_image_data(data: Seq<u8>) -> bool {
    exists|i: int|
        0 <= i < spec_chunk_list(data.skip(8)).len() && (#[trigger] spec_chunk_list(
            data.skip(8),
        )[i]) is Idat
}

/// A stream that opens has one header chunk and no more, and it is the first
/// chunk after the signature; it has one end chunk, and it is the last
/// chunk, with nothing after it. It is then known to have image data or to
/// have none, and its image data is that of the chunks after the header.
pub proof fn lemma_open_is_well_framed(data: Seq<u8>)
    requires
        spec_open(data) is Ok,
    ensures
        well_framed(data),
        spec_open(data)->Ok_0.1 == has_image_data(data),
        image_data(data) == joined_image_data(
            spec_chunk_list(spec_chunk(data.skip(8))->Ok_0.0),
        ),
{
    let input = data.skip(8);
    lemma_chunk_shrinks(input);
    let (rest, found) = spec_chunk(input)->Ok_0;
    lemma_walk_ok(rest, None, false);
    lemma_chunk_list_step(input);
    lemma_list_shift(found, spec_chunk_list(rest));
    assert(image_body(found) + joined_image_data(spec_chunk_list(rest)) =~= joined_image_data(
        spec_chunk_list(rest),
    ));
}

/// A stream that decodes has one header chunk and no more, and it is the
/// first chunk after the signature; it has one end chunk, and it is the last
/// chunk, with nothing after it. So a stream with no header chunk, or with
/// two, does not decode.
pub proof fn lemma_one_header_one_end(data: Seq<u8>, inflated: Result<Seq<u8>, Seq<char>>)
    requires
        spec_render(data, inflated) is Ok,
    ensures
        well_framed(data),
{
    lemma_open_is_well_framed(data);
}

/// The decoding of a stream without image data does not depend on the
/// inflater: whatever the inflater might give, the result is the same.
pub proof fn lemma_without_image_data(
    data: Seq<u8>,
    a: Result<Seq<u8>, Seq<char>>,
    b: Result<Seq<u8>, Seq<char>>,
)
    requires
        !has_image_data(data),
    ensures
        spec_render(data, a) == spec_render(data, b),
{
    if spec_open(data) is Ok {
        lemma_open_is_well_framed(data);
    }
}

/// Whether the chunks from `a` on and the chunks from `b` on are alike but
/// for the cut of one image-data chunk: after `depth` chunks that are the
/// same in both, `a` has one image-data chunk where `b` has two, whose
/// bodies joined are the body of the one, and what follows is the same.
pub open spec fn cut_apart(a: Seq<u8>, b: Seq<u8>, depth: nat) -> bool
    decreases depth,
{
    if depth == 0 {
        &&& spec_chunk(a) is Ok
        &&& spec_chunk(b) is Ok
        &&& spec_chunk(spec_chunk(b)->Ok_0.0) is Ok
        &&& spec_chunk(a)->Ok_0.1 is Idat
        &&& spec_chunk(b)->Ok_0.1 is Idat
        &&& spec_chunk(spec_chunk(b)->Ok_0.0)->Ok_0.1 is Idat
        &&& spec_chunk(spec_chunk(b)->Ok_0.0)->Ok_0.0 == spec_chunk(a)->Ok_0.0
        &&& image_body(spec_chunk(b)->Ok_0.1) + image_body(
            spec_chunk(spec_chunk(b)->Ok_0.0)->Ok_0.1,
        ) == image_body(spec_chunk(a)->Ok_0.1)
    } else {
        &&& spec_chunk(a) is Ok
        &&& spec_chunk(b) is Ok
        &&& spec_chunk(a)->Ok_0.1 == spec_chunk(b)->Ok_0.1
        &&& !(spec_chunk(a)->Ok_0.1 is Iend)
        &&& cut_apart(spec_chunk(a)->Ok_0.0, spec_chunk(b)->Ok_0.0, (depth - 1) as nat)
    }
}

proof fn lemma_cut_walk(a: Seq<u8>, b: Seq<u8>, depth: nat, palette: Option<Seq<u8>>, seen: bool)
    requires
        cut_apart(a, b, depth),
    ensures
        spec_walk(a, palette, seen) == spec_walk(b, palette, seen),
        joined_image_data(spec_chunk_list(a)) == joined_image_data(spec_chunk_list(b)),
    decreases depth,
{
    lemma_chunk_shrinks(a);
    lemma_chunk_shrinks(b);
    lemma_walk_step(a, palette, seen);
    lemma_walk_step(b, palette, seen);
    lemma_chunk_list_step(a);
    lemma_chunk_list_step(b);
    let (rest_a, found_a) = spec_chunk(a)->Ok_0;
    let (rest_b, found_b) = spec_chunk(b)->Ok_0;
    if depth == 0 {
        lemma_chunk_shrinks(rest_b);
        lemma_walk_step(rest_b, palette, true);
        lemma_chunk_list_step(rest_b);
        let tail = joined_image_data(spec_chunk_list(rest_a));
        let second = spec_chunk(rest_b)->Ok_0.1;
        assert(image_body(found_b) + (image_body(second) + tail) =~= (image_body(found_b)
            + image_body(second)) + tail);
    } else {
        match found_a {
            ChunkView::Plte(colors) => {
                let next = if seen {
                    palette
                } else {
                    Some(colors)
                };
                lemma_cut_walk(rest_a, rest_b, (depth - 1) as nat, next, seen);
            },
            ChunkView::Idat(_) => {
                lemma_cut_walk(rest_a, rest_b, (depth - 1) as nat, palette, true);
            },
            _ => {
                lemma_cut_walk(rest_a, rest_b, (depth - 1) as nat, palette, seen);
            },
        }
    }
}

/// How the image data is cut into chunks does not matter. Of two streams
/// that are alike but for one image-data chunk of the one, which the other
/// has in two pieces, the image data is the same, and so is what decoding
/// gives, whatever the image data inflates to.
pub proof fn lemma_cut_of_image_data_is_immaterial(
    a: Seq<u8>,
    b: Seq<u8>,
    depth: nat,
    inflated: Result<Seq<u8>, Seq<char>>,
)
    requires
        has_signature(a),
        has_signature(b),
        cut_apart(a.skip(8), b.skip(8), depth),
    ensures
        image_data(a) == image_data(b),
        spec_render(a, inflated) == spec_render(b, inflated),
        spec_render(a, crate::inflate::inflated(image_data(a))) == spec_render(
            b,
            crate::inflate::inflated(image_data(b)),
        ),
{
    lemma_cut_walk(a.skip(8), b.skip(8), depth, None, false);
    lemma_cut_render(a, b, depth, inflated);
    lemma_cut_render(a, b, depth, crate::inflate::inflated(image_data(a)));
}

proof fn lemma_cut_render(a: Seq<u8>, b: Seq<u8>, depth: nat, inflated: Result<Seq<u8>, Seq<char>>)
    requires
        has_signature(a),
        has_signature(b),
        cut_apart(a.skip(8), b.skip(8), depth),
    ensures
        spec_render(a, inflated) == spec_render(b, inflated),
{
    if depth > 0 {
        let rest_a = spec_chunk(a.skip(8))->Ok_0.0;
        let rest_b = spec_chunk(b.skip(8))->Ok_0.0;
        lemma_cut_walk(rest_a, rest_b, (depth - 1) as nat, None, false);
    }
}

/// Whether `result` is what `model` says, value for value.
pub open spec fn render_matches(
    result: Result<Vec<Vec<Color>>, Error>,
    model: Result<Seq<Seq<Color>>, ErrorView>,
) -> bool {
    match model {
        Ok(rows) => result is Ok && rows_view(result->Ok_0@) == rows,
        Err(e) => result is Err && result->Err_0@ == e,
    }
}

/// A palette that may be absent, as bytes.
pub open spec fn palette_of(palette: Option<Colors>) -> Option<Seq<u8>> {
    match palette {
        Some(colors) => Some(colors@),
        None => None,
    }
}

/// What an inflater gave, as values.
pub open spec fn inflated_view(inflated: Result<Vec<u8>, String>) -> Result<Seq<u8>, Seq<char>> {
    match inflated {
        Ok(bytes) => Ok(bytes@),
        Err(message) => Err(message@),
    }
}

/// Reads the chunks after the header, from `input` to the end of the stream:
/// the palette to read the image data with, the image data of the chunks
/// joined in their order, and whether there was any.
fn walk<'d>(input: &'d [u8]) -> (r: Result<(Option<Colors<'d>>, Vec<u8>, bool), Error>)
    ensures
        match spec_walk(input@, None, false) {
            Err(e) => r is Err && r->Err_0@ == e,
            Ok((palette, seen)) => r is Ok && palette_of(r->Ok_0.0) == palette && r->Ok_0.1@
                == joined_image_data(spec_chunk_list(input@)) && r->Ok_0.2 == seen,
        },
{
    let mut palette: Option<Colors<'d>> = None;
    let mut image: Vec<u8> = Vec::new();
    let mut seen = false;
    let mut rest = input;
    assert(image@ + joined_image_data(spec_chunk_list(rest@)) =~= joined_image_data(
        spec_chunk_list(input@),
    ));
    while rest.len() > 0
        invariant
            spec_walk(input@, None, false) == spec_walk(rest@, palette_of(palette), seen),
            joined_image_data(spec_chunk_list(input@)) == image@ + joined_image_data(
                spec_chunk_list(rest@),
            ),
        decreases rest@.len(),
    {
        let ghost here = rest@;
        let ghost held = image@;
        proof {
            lemma_chunk_shrinks(here);
            lemma_walk_step(here, palette_of(palette), seen);
        }
        let (after, found) = match chunk(rest) {
            Ok(read) => read,
            Err(e) => {
                return Err(e);
            },
        };
        proof {
            lemma_chunk_list_step(here);
        }
        match found {
            Chunk::Ihdr { .. } => {
                return Err(Error::DuplicateIhdr);
            },
            Chunk::Plte(colors) => {
                if !seen {
                    palette = Some(colors);
                }
                assert(held + (image_body(found@) + joined_image_data(spec_chunk_list(after@)))
                    =~= held + joined_image_data(spec_chunk_list(after@)));
            },
            Chunk::Idat(body) => {
                image.extend_from_slice(body.as_bytes());
                seen = true;
                assert(image@ =~= held + body@);
                assert(held + (image_body(found@) + joined_image_data(spec_chunk_list(after@)))
                    =~= image@ + joined_image_data(spec_chunk_list(after@)));
            },
            Chunk::Iend => {
                if after.len() == 0 {
                    assert(held + Seq::<u8>::empty() =~= held);
                    return Ok((palette, image, seen));
                } else {
                    return Err(Error::from_error_kind(after, ErrorKind::Eof));
                }
            },
            Chunk::Unknown => {
                assert(held + (image_body(found@) + joined_image_data(spec_chunk_list(after@)))
                    =~= held + joined_image_data(spec_chunk_list(after@)));
            },
        }
        rest = after;
    }
    proof {
        lemma_walk_step(rest@, palette_of(palette), seen);
    }
    Err(Error::MissingCritical("IEND"))
}

/// Opens the stream `data`: reads the signature, makes the decoder from the
/// header and gives it the palette, and reads the framing of every chunk up
/// to the end of the stream. Returns the decoder, the compressed image data
/// of the stream, and whether the stream has any.
fn open<'d>(data: &'d [u8]) -> (r: Result<(Renderer<'d>, Vec<u8>, bool), Error>)
    ensures
        match spec_open(data@) {
            Err(e) => r is Err && r->Err_0@ == e,
            Ok((state, seen)) => r is Ok && r->Ok_0.0@ == state && r->Ok_0.0.wf() && r->Ok_0.1@
                == image_data(data@) && r->Ok_0.2 == seen,
        },
{
    let (rest, _) = header(data)?;
    let (rest, first) = chunk(rest)?;
    match first {
        Chunk::Ihdr { width, height, bit_depth, color_type, interlace } => {
            let mut renderer = Renderer::new(
                width as usize,
                height as usize,
                bit_depth,
                color_type,
                interlace,
            )?;
            let (palette, image, seen) = walk(rest)?;
            match palette {
                Some(colors) => {
                    renderer.set_palette(colors);
                },
                None => {},
            }
            proof {
                lemma_open_is_well_framed(data@);
            }
            Ok((renderer, image, seen))
        },
        _ => Err(Error::MissingCritical("IHDR")),
    }
}

/// Decodes the inflated image data with the decoder of a stream.
fn finish<'d>(renderer: Renderer<'d>, seen: bool, inflated: Result<Vec<u8>, String>) -> (r: Result<
    Vec<Vec<Color>>,
    Error,
>)
    requires
        renderer.wf(),
    ensures
        render_matches(r, spec_finish(renderer@, seen, inflated_view(inflated))),
{
    if !seen {
        return Ok(renderer.into_rows());
    }
    match inflated {
        Err(message) => Err(Error::IoError(message)),
        Ok(bytes) => {
            let mut decoder = renderer;
            decoder.write(bytes.as_slice())?;
            Ok(decoder.into_rows())
        },
    }
}

/// Decodes the stream `data` into the rows of its image, given what its
/// image data inflates to: the inflated bytes, or the message of the
/// inflater's failure. The result is what `spec_render` gives for the two.
pub fn render_inflated(data: &[u8], inflated: Result<Vec<u8>, String>) -> (result: Result<
    Vec<Vec<Color>>,
    Error,
>)
    ensures
        render_matches(result, spec_render(data@, inflated_view(inflated))),
{
    let (renderer, _, seen) = open(data)?;
    finish(renderer, seen, inflated)
}

/// Decodes the stream `data` into the rows of its image, each row a run of
/// colours from left to right, the first row first. The framing of the whole
/// stream is read first; then the bodies of the image-data chunks, joined in
/// the order of the stream, are inflated as one zlib stream; then the
/// inflated bytes are decoded scanline by scanline. The result is what
/// `spec_render` gives for the stream and for what its image data inflates
/// to. The first error ends the decoding and is the result; no partial
/// image is handed out.
///
/// The palette is the last that comes before the first image-data chunk; a
/// palette that comes later is read and left aside. Bytes after the end
/// chunk are an error. Scanlines are decoded for as long as the inflated
/// bytes last and in their order: the height and the interlace method of the
/// header are reported, not acted on. A stream without image data has no
/// rows, and the inflater is not asked.
pub fn render(data: &[u8]) -> (result: Result<Vec<Vec<Color>>, Error>)
    ensures
        render_matches(result, spec_render(data@, inflated(image_data(data@)))),
        !has_image_data(data@) ==> render_matches(result, spec_render(data@, Ok(Seq::empty()))),
        !has_signature(data@) ==> result is Err && result->Err_0@ == spec_header(data@)->Err_0,
        result is Ok ==> well_framed(data@),
{
    proof {
        if !has_image_data(data@) {
            lemma_without_image_data(data@, inflated(image_data(data@)), Ok(Seq::empty()));
        }
        if spec_open(data@) is Ok {
            lemma_open_is_well_framed(data@);
        }
    }
    let (renderer, image, seen) = open(data)?;
    let given = if seen {
        inflate_all(image.as_slice())
    } else {
        Ok(Vec::new())
    };
    finish(renderer, seen, given)
}

} // verus!
