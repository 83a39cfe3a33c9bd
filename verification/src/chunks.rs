//! The typed contents of chunks: the header's enumerations, the palette, and
//! the chunk itself.

use crate::error::hex_dump;
use crate::error::Error;
use crate::error::ErrorView;
use crate::error::DUMP_WIDTH;
use crate::error::excerpt;
use crate::pixel::Color;
use vstd::prelude::*;
use vstd::std_specs::convert::FromSpecImpl;
use vstd::std_specs::convert::TryFromSpecImpl;

verus! {

/// The number of bits in one sample.
#[derive(Debug, Clone, Copy, PartialEq, Eq, Structural)]
pub enum BitDepth {
    One,
    Two,
    Four,
    Eight,
    Sixteen,
}

impl BitDepth {
    /// The byte that stands for this depth in a header: the number of bits.
    pub open spec fn spec_code(self) -> u8 {
        match self {
            BitDepth::One => 1,
            BitDepth::Two => 2,
            BitDepth::Four => 4,
            BitDepth::Eight => 8,
            BitDepth::Sixteen => 16,
        }
    }

    /// The depth that `value` stands for, if any.
    pub open spec fn spec_from_code(value: u8) -> Option<BitDepth> {
        match value {
            1 => Some(BitDepth::One),
            2 => Some(BitDepth::Two),
            4 => Some(BitDepth::Four),
            8 => Some(BitDepth::Eight),
            16 => Some(BitDepth::Sixteen),
            _ => None,
        }
    }

    /// The byte that stands for this depth in a header: the number of bits.
    #[verifier::when_used_as_spec(spec_code)]
    pub fn code(self) -> (b: u8)
        ensures
            b == self.spec_code(),
    {
        match self {
            BitDepth::One => 1,
            BitDepth::Two => 2,
            BitDepth::Four => 4,
            BitDepth::Eight => 8,
            BitDepth::Sixteen => 16,
        }
    }
}

impl TryFrom<u8> for BitDepth {
    type Error = Error;

    fn try_from(value: u8) -> (r: Result<Self, Error>)
    {
        match value {
            1 => Ok(BitDepth::One),
            2 => Ok(BitDepth::Two),
            4 => Ok(BitDepth::Four),
            8 => Ok(BitDepth::Eight),
            16 => Ok(BitDepth::Sixteen),
            _ => Err(Error::InvalidBitDepth(value)),
        }
    }
}

impl TryFromSpecImpl<u8> for BitDepth {
    open spec fn obeys_try_from_spec() -> bool {
        true
    }

    open spec fn try_from_spec(value: u8) -> Result<Self, Error> {
        match BitDepth::spec_from_code(value) {
            Some(depth) => Ok(depth),
            None => Err(Error::InvalidBitDepth(value)),
        }
    }
}

/// How the samples of a pixel make up its colour.
#[derive(Debug, Clone, Copy, PartialEq, Eq, Structural)]
pub enum ColorType {
    GrayScale,
    Rgb,
    Palette,
    GrayScaleAlpha,
    RgbAlpha,
}

impl ColorType {
    /// The byte that stands for this colour type in a header.
    pub open spec fn spec_code(self) -> u8 {
        match self {
            ColorType::GrayScale => 0,
            ColorType::Rgb => 2,
            ColorType::Palette => 3,
            ColorType::GrayScaleAlpha => 4,
            ColorType::RgbAlpha => 6,
        }
    }

    /// The colour type that `value` stands for, if any.
    pub open spec fn spec_from_code(value: u8) -> Option<ColorType> {
        match value {
            0 => Some(ColorType::GrayScale),
            2 => Some(ColorType::Rgb),
            3 => Some(ColorType::Palette),
            4 => Some(ColorType::GrayScaleAlpha),
            6 => Some(ColorType::RgbAlpha),
            _ => None,
        }
    }

    /// The byte that stands for this colour type in a header.
    #[verifier::when_used_as_spec(spec_code)]
    pub fn code(self) -> (b: u8)
        ensures
            b == self.spec_code(),
    {
        match self {
            ColorType::GrayScale => 0,
            ColorType::Rgb => 2,
            ColorType::Palette => 3,
            ColorType::GrayScaleAlpha => 4,
            ColorType::RgbAlpha => 6,
        }
    }
}

impl TryFrom<u8> for ColorType {
    type Error = Error;

    fn try_from(value: u8) -> (r: Result<Self, Error>) {
        match value {
            0 => Ok(ColorType::GrayScale),
            2 => Ok(ColorType::Rgb),
            3 => Ok(ColorType::Palette),
            4 => Ok(ColorType::GrayScaleAlpha),
            6 => Ok(ColorType::RgbAlpha),
            _ => Err(Error::InvalidColorType(value)),
        }
    }
}

impl TryFromSpecImpl<u8> for ColorType {
    open spec fn obeys_try_from_spec() -> bool {
        true
    }

    open spec fn try_from_spec(value: u8) -> Result<Self, Error> {
        match ColorType::spec_from_code(value) {
            Some(color_type) => Ok(color_type),
            None => Err(Error::InvalidColorType(value)),
        }
    }
}

/// The order in which the rows of the image are transmitted.
#[derive(Debug, Clone, Copy, PartialEq, Eq, Structural)]
pub enum Interlace {
    Null,
    Adam7,
}

impl Interlace {
    /// The byte that stands for this method in a header.
    pub open spec fn spec_code(self) -> u8 {
        match self {
            Interlace::Null => 0,
            Interlace::Adam7 => 1,
        }
    }

    /// The method that `value` stands for, if any.
    pub open spec fn spec_from_code(value: u8) -> Option<Interlace> {
        match value {
            0 => Some(Interlace::Null),
            1 => Some(Interlace::Adam7),
            _ => None,
        }
    }

    /// The byte that stands for this method in a header.
    #[verifier::when_used_as_spec(spec_code)]
    pub fn code(self) -> (b: u8)
        ensures
            b == self.spec_code(),
    {
        match self {
            Interlace::Null => 0,
            Interlace::Adam7 => 1,
        }
    }
}

impl TryFrom<u8> for Interlace {
    type Error = Error;

    fn try_from(value: u8) -> (r: Result<Self, Error>) {
        match value {
            0 => Ok(Interlace::Null),
            1 => Ok(Interlace::Adam7),
            _ => Err(Error::InvalidInterlace(value)),
        }
    }
}

impl TryFromSpecImpl<u8> for Interlace {
    open spec fn obeys_try_from_spec() -> bool {
        true
    }

    open spec fn try_from_spec(value: u8) -> Result<Self, Error> {
        match Interlace::spec_from_code(value) {
            Some(interlace) => Ok(interlace),
            None => Err(Error::InvalidInterlace(value)),
        }
    }
}

/// The largest number of bytes that a palette may have: 256 entries.
pub const MAX_PALETTE_BYTES: usize = 768;

/// Whether `len` bytes make up a palette: whole entries, at least one and no
/// more than 256.
pub open spec fn palette_size_ok(len: nat) -> bool {
    len % 3 == 0 && 0 < len <= MAX_PALETTE_BYTES
}

/// A palette: the body of a palette chunk, three bytes to an entry, in place.
#[derive(Debug, Clone, Copy, PartialEq, Eq)]
pub struct Colors<'data>(&'data [u8]);

impl<'data> View for Colors<'data> {
    type V = Seq<u8>;

    closed spec fn view(&self) -> Seq<u8> {
        self.0@
    }
}

/// The number of entries in a palette of the bytes `palette`.
pub open spec fn palette_len(palette: Seq<u8>) -> nat {
    palette.len() / 3
}

/// Entry `index` of a palette of the bytes `palette`.
pub open spec fn palette_entry(palette: Seq<u8>, index: int) -> Color {
    Color::spec_rgb8(palette[3 * index], palette[3 * index + 1], palette[3 * index + 2])
}

impl<'data> Colors<'data> {
    /// A palette holds whole entries, at least one and no more than 256.
    #[verifier::type_invariant]
    spec fn well_formed(self) -> bool {
        palette_size_ok(self.0@.len())
    }

    /// Takes `input` for a palette if it holds whole entries, at least one
    /// and no more than 256. It fails with `InvalidPaletteSize` on any other
    /// number of bytes, none among them.
    pub fn new(input: &'data [u8]) -> (r: Result<Self, Error>)
        ensures
            palette_size_ok(input@.len()) ==> r is Ok && r->Ok_0@ == input@,
            !palette_size_ok(input@.len()) ==> r is Err && r->Err_0@
                == ErrorView::InvalidPaletteSize(input@.len() as usize),
    {
        if input.len() % 3 > 0 || input.len() == 0 || input.len() > MAX_PALETTE_BYTES {
            Err(Error::InvalidPaletteSize(input.len()))
        } else {
            Ok(Colors(input))
        }
    }

    /// The number of entries.
    pub open spec fn spec_len(&self) -> usize {
        palette_len(self@) as usize
    }

    /// The colour of entry `index`.
    pub fn get(&self, index: usize) -> (c: Color)
        requires
            index < self.len(),
        ensures
            c == palette_entry(self@, index as int),
    {
        let total = self.0.len();
        assert(index * 3 + 3 <= total);
        let at: usize = index * 3;
        Color::rgb8(self.0[at], self.0[at + 1], self.0[at + 2])
    }

    /// The number of entries: a third of the bytes, at least one and no more
    /// than 256.
    #[verifier::when_used_as_spec(spec_len)]
    pub fn len(&self) -> (n: usize)
        ensures
            n == palette_len(self@),
            n == self.spec_len(),
            self@.len() == 3 * n,
            1 <= n <= 256,
    {
        proof {
            use_type_invariant(self);
        }
        self.0.len() / 3
    }

    /// Whether the palette has no entries, which no palette has.
    pub fn is_empty(&self) -> (b: bool)
        ensures
            !b,
            b == (self@.len() == 0),
    {
        proof {
            use_type_invariant(self);
        }
        self.0.len() == 0
    }

    /// The bytes of the palette.
    pub fn as_bytes(&self) -> (bytes: &'data [u8])
        ensures
            bytes@ == self@,
    {
        self.0
    }
}

/// The body of an image-data chunk, in place: compressed bytes that only the
/// inflater can read, with a dump for the curious.
#[derive(Debug, Clone, Copy, PartialEq, Eq)]
pub struct BytesPrinter<'data>(pub &'data [u8]);

impl<'data> View for BytesPrinter<'data> {
    type V = Seq<u8>;

    open spec fn view(&self) -> Seq<u8> {
        self.0@
    }
}

impl<'data> BytesPrinter<'data> {
    /// Wraps `bytes`.
    pub fn new(bytes: &'data [u8]) -> (p: Self)
        ensures
            p@ == bytes@,
    {
        BytesPrinter(bytes)
    }

    /// The bytes themselves.
    pub fn as_bytes(&self) -> (bytes: &'data [u8])
        ensures
            bytes@ == self@,
    {
        self.0
    }

    /// What `dump` returns: a line break and then the hex dump of the first
    /// bytes.
    pub open spec fn spec_dump(bytes: Seq<u8>) -> Seq<char> {
        seq!['\n'] + hex_dump(excerpt(bytes), DUMP_WIDTH)
    }

    /// A hex dump of the first 64 bytes, eight to a line, after a line break.
    pub fn dump(&self) -> (text: String)
        ensures
            text@ == Self::spec_dump(self@),
    {
        let shown: usize = if self.0.len() <= crate::error::EXCERPT_LEN {
            self.0.len()
        } else {
            crate::error::EXCERPT_LEN
        };
        let head = vstd::slice::slice_subrange(self.0, 0, shown);
        assert(head@ =~= excerpt(self@));
        let hex = crate::error::to_hex(head, DUMP_WIDTH);
        let mut text = String::from_str("\n");
        proof {
            reveal_strlit("\n");
        }
        text.append(hex.as_str());
        text
    }
}

impl<'data> From<&'data [u8]> for BytesPrinter<'data> {
    fn from(bytes: &'data [u8]) -> (p: Self) {
        BytesPrinter(bytes)
    }
}

impl<'data> FromSpecImpl<&'data [u8]> for BytesPrinter<'data> {
    open spec fn obeys_from_spec() -> bool {
        true
    }

    open spec fn from_spec(bytes: &'data [u8]) -> Self {
        BytesPrinter(bytes)
    }
}

/// One chunk of a stream, by what it holds.
#[derive(Debug, Clone, PartialEq, Eq)]
pub enum Chunk<'data> {
    /// The header: the geometry and the pixel format of the image.
    Ihdr { width: u32, height: u32, bit_depth: BitDepth, color_type: ColorType, interlace: Interlace },
    /// The palette.
    Plte(Colors<'data>),
    /// A piece of the compressed image data.
    Idat(BytesPrinter<'data>),
    /// The end of the stream.
    Iend,
    /// A chunk that a decoder may pass over.
    Unknown,
}

/// A `Chunk` with its borrowed bodies as byte sequences.
pub enum ChunkView {
    Ihdr { width: u32, height: u32, bit_depth: BitDepth, color_type: ColorType, interlace: Interlace },
    Plte(Seq<u8>),
    Idat(Seq<u8>),
    Iend,
    Unknown,
}

impl<'data> View for Chunk<'data> {
    type V = ChunkView;

    open spec fn view(&self) -> ChunkView {
        match *self {
            Chunk::Ihdr { width, height, bit_depth, color_type, interlace } => ChunkView::Ihdr {
                width,
                height,
                bit_depth,
                color_type,
                interlace,
            },
            Chunk::Plte(colors) => ChunkView::Plte(colors@),
            Chunk::Idat(body) => ChunkView::Idat(body@),
            Chunk::Iend => ChunkView::Iend,
            Chunk::Unknown => ChunkView::Unknown,
        }
    }
}

} // verus!
