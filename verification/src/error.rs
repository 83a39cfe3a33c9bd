//! What can go wrong while a stream is decoded, and how a failure is reported.

use nom::HexDisplay;
use vstd::prelude::*;

verus! {

/// The framing rule that a malformed stream broke.
#[derive(Copy, Clone, Debug, PartialEq, Eq, Structural)]
pub enum ErrorKind {
    /// A fixed byte sequence was expected and something else was found.
    Tag,
    /// The input ended too early, or went on where it had to end.
    Eof,
    /// A run of letters of a fixed length was expected.
    TakeWhileMN,
}

/// A hex dump of the bytes at which decoding stopped.
#[derive(Clone, Debug, PartialEq, Eq)]
pub struct DbgString(pub String);

impl View for DbgString {
    type V = Seq<char>;

    open spec fn view(&self) -> Seq<char> {
        self.0@
    }
}

impl DbgString {
    /// The dump as text.
    pub fn as_str(&self) -> (s: &str)
        ensures
            s@ == self@,
    {
        self.0.as_str()
    }
}

/// A malformed piece of the stream: the rule it broke and where.
#[derive(Clone, Debug, PartialEq, Eq)]
pub struct ParseError {
    pub input: DbgString,
    pub code: ErrorKind,
}

/// Every way in which decoding fails. The first failure ends the decode.
#[derive(Clone, Debug, PartialEq, Eq)]
pub enum Error {
    /// A failure that has no name of its own: an image whose scanlines are
    /// too long for this machine to address.
    Unknown,
    /// The signature or the framing of a chunk is malformed.
    ParseFailed(ParseError),
    /// A chunk that must be understood has a type that is not known. The
    /// type is given in capitals.
    UnknownCriticalChunk(String),
    /// The header names a bit depth that there is not.
    InvalidBitDepth(u8),
    /// The header names a colour type that there is not.
    InvalidColorType(u8),
    /// The bit depth and the colour type of the header do not go together.
    InvalidBitColorCombo(u8, u8),
    /// The header names an interlace method that there is not.
    InvalidInterlace(u8),
    /// A palette of so many bytes: not whole entries, or none, or more than
    /// 256.
    InvalidPaletteSize(usize),
    /// A pixel names a palette entry that the palette does not have.
    InvalidPaletteIndex(usize),
    /// A scanline names a filter that there is not.
    InvalidFilterType(u8),
    /// A chunk that the stream cannot do without is absent.
    MissingCritical(&'static str),
    /// The end chunk has a body.
    InvalidIEnd,
    /// A second header chunk.
    DuplicateIhdr,
    /// The compressed image data could not be inflated; the text says why.
    IoError(String),
}

/// An `Error` with its texts as sequences of characters.
pub enum ErrorView {
    Unknown,
    ParseFailed { input: Seq<char>, code: ErrorKind },
    UnknownCriticalChunk(Seq<char>),
    InvalidBitDepth(u8),
    InvalidColorType(u8),
    InvalidBitColorCombo(u8, u8),
    InvalidInterlace(u8),
    InvalidPaletteSize(usize),
    InvalidPaletteIndex(usize),
    InvalidFilterType(u8),
    MissingCritical(Seq<char>),
    InvalidIEnd,
    DuplicateIhdr,
    IoError(Seq<char>),
}

impl View for Error {
    type V = ErrorView;

    open spec fn view(&self) -> ErrorView {
        match *self {
            Error::Unknown => ErrorView::Unknown,
            Error::ParseFailed(e) => ErrorView::ParseFailed { input: e.input@, code: e.code },
            Error::UnknownCriticalChunk(s) => ErrorView::UnknownCriticalChunk(s@),
            Error::InvalidBitDepth(b) => ErrorView::InvalidBitDepth(b),
            Error::InvalidColorType(b) => ErrorView::InvalidColorType(b),
            Error::InvalidBitColorCombo(d, c) => ErrorView::InvalidBitColorCombo(d, c),
            Error::InvalidInterlace(b) => ErrorView::InvalidInterlace(b),
            Error::InvalidPaletteSize(n) => ErrorView::InvalidPaletteSize(n),
            Error::InvalidPaletteIndex(n) => ErrorView::InvalidPaletteIndex(n),
            Error::InvalidFilterType(b) => ErrorView::InvalidFilterType(b),
            Error::MissingCritical(name) => ErrorView::MissingCritical(name@),
            Error::InvalidIEnd => ErrorView::InvalidIEnd,
            Error::DuplicateIhdr => ErrorView::DuplicateIhdr,
            Error::IoError(s) => ErrorView::IoError(s@),
        }
    }
}

impl Default for Error {
    fn default() -> (e: Self)
        ensures
            e@ == ErrorView::Unknown,
    {
        Error::Unknown
    }
}

/// How many bytes of the offending input an error shows at most.
pub const EXCERPT_LEN: usize = 64;

/// How many bytes stand on one line of a dump.
pub const DUMP_WIDTH: usize = 8;

/// The hex dump of `bytes`, `chunk_size` of them to a line, as
/// `nom::HexDisplay::to_hex` lays it out.
pub uninterp spec fn hex_dump(bytes: Seq<u8>, chunk_size: usize) -> Seq<char>;

/// The part of the remaining input that an error shows.
pub open spec fn excerpt(input: Seq<u8>) -> Seq<u8> {
    if input.len() <= EXCERPT_LEN {
        input
    } else {
        input.take(EXCERPT_LEN as int)
    }
}

/// The error for input that breaks the framing rule `code` at `input`.
pub open spec fn parse_failure(input: Seq<u8>, code: ErrorKind) -> ErrorView {
    ErrorView::ParseFailed { input: hex_dump(excerpt(input), DUMP_WIDTH), code }
}

/// Calls `nom::HexDisplay::to_hex` on a byte slice. The text it builds (an
/// offset, the bytes in hex and the bytes as characters, line by line) is a
/// function of the bytes and the line width alone, and goes by the name
/// `hex_dump`. The bounds keep the buffer it reserves and the padding it
/// writes small.
#[verifier::external_body]
pub(crate) fn to_hex(bytes: &[u8], chunk_size: usize) -> (dump: String)
    requires
        0 < chunk_size <= EXCERPT_LEN,
        bytes@.len() <= EXCERPT_LEN,
    ensures
        dump@ == hex_dump(bytes@, chunk_size),
{
    bytes.to_hex(chunk_size)
}

impl Error {
    /// The error for input that breaks the framing rule `kind`: it shows the
    /// first bytes of `input`, the place where decoding stopped.
    pub fn from_error_kind(input: &[u8], kind: ErrorKind) -> (e: Error)
        ensures
            e@ == parse_failure(input@, kind),
    {
        let shown: usize = if input.len() <= EXCERPT_LEN {
            input.len()
        } else {
            EXCERPT_LEN
        };
        let head = vstd::slice::slice_subrange(input, 0, shown);
        assert(head@ =~= excerpt(input@));
        Error::ParseFailed(ParseError { input: DbgString(to_hex(head, DUMP_WIDTH)), code: kind })
    }
}

} // verus!
