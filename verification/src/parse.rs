//! The framing of a stream: its signature, and chunk after chunk.

use crate::chunks::palette_size_ok;
use crate::chunks::BitDepth;
use crate::chunks::BytesPrinter;
use crate::chunks::Chunk;
use crate::chunks::ChunkView;
use crate::chunks::ColorType;
use crate::chunks::Colors;
use crate::chunks::Interlace;
use crate::error::parse_failure;
use crate::error::Error;
use crate::error::ErrorKind;
use crate::error::ErrorView;
use vstd::prelude::*;
use vstd::slice::slice_subrange;

verus! {

/// Whether `input` begins with the bytes `tag`.
pub open spec fn starts_with(input: Seq<u8>, tag: Seq<u8>) -> bool {
    input.len() >= tag.len() && input.take(tag.len() as int) == tag
}

/// The eight bytes that every stream begins with.
pub open spec fn signature() -> Seq<u8> {
    seq![0x89u8, 0x50u8, 0x4Eu8, 0x47u8, 0x0Du8, 0x0Au8, 0x1Au8, 0x0Au8]
}

/// Whether `input` begins with the signature.
pub open spec fn has_signature(input: Seq<u8>) -> bool {
    starts_with(input, signature())
}

/// The signature is read in three parts: its first byte, the three letters,
/// and the four bytes of line endings. This is where the first part begins
/// that `input` does not start with, if there is one.
pub open spec fn signature_break(input: Seq<u8>) -> int {
    if !starts_with(input, seq![0x89u8]) {
        0
    } else if !starts_with(input.skip(1), seq![0x50u8, 0x4Eu8, 0x47u8]) {
        1
    } else {
        4
    }
}

/// What reading the signature gives: the rest of the input and the
/// signature, or a `Tag` failure at the part that is wrong.
pub open spec fn spec_header(input: Seq<u8>) -> Result<(Seq<u8>, Seq<u8>), ErrorView> {
    if has_signature(input) {
        Ok((input.skip(8), input.take(8)))
    } else {
        Err(parse_failure(input.skip(signature_break(input)), ErrorKind::Tag))
    }
}

/// The number that four bytes spell, the most significant first.
pub open spec fn spec_be_u32(bytes: Seq<u8>) -> u32 {
    (bytes[0] as int * 0x100_0000 + bytes[1] as int * 0x1_0000 + bytes[2] as int * 0x100
        + bytes[3] as int) as u32
}

/// Whether `byte` is a letter, `A` to `Z` or `a` to `z`.
pub open spec fn is_letter(byte: u8) -> bool {
    (0x41 <= byte <= 0x5A) || (0x61 <= byte <= 0x7A)
}

/// Whether `byte` is a capital letter.
pub open spec fn is_upper(byte: u8) -> bool {
    0x41 <= byte <= 0x5A
}

/// `byte` with a small letter made a capital.
pub open spec fn spec_to_upper(byte: u8) -> u8 {
    if 0x61 <= byte <= 0x7A {
        (byte - 0x20) as u8
    } else {
        byte
    }
}

/// Whether `input` begins with four letters, the type of a chunk.
pub open spec fn has_type_tag(input: Seq<u8>) -> bool {
    input.len() >= 4 && is_letter(input[0]) && is_letter(input[1]) && is_letter(input[2])
        && is_letter(input[3])
}

/// Whether the four bytes of `tag`, in capitals, are `a b c d`.
pub open spec fn spells(tag: Seq<u8>, a: u8, b: u8, c: u8, d: u8) -> bool {
    spec_to_upper(tag[0]) == a && spec_to_upper(tag[1]) == b && spec_to_upper(tag[2]) == c
        && spec_to_upper(tag[3]) == d
}

/// The four bytes of `tag`, in capitals, as text.
pub open spec fn tag_text(tag: Seq<u8>) -> Seq<char> {
    seq![
        spec_to_upper(tag[0]) as char,
        spec_to_upper(tag[1]) as char,
        spec_to_upper(tag[2]) as char,
        spec_to_upper(tag[3]) as char,
    ]
}

/// The header that a body of thirteen bytes spells: width, height, depth,
/// colour type, two method bytes that must be zero, and the interlace
/// method. The fields are read in this order and the first that is wrong
/// decides the error; bytes after the thirteenth are an error too.
pub open spec fn spec_ihdr(body: Seq<u8>) -> Result<ChunkView, ErrorView> {
    if body.len() < 4 {
        Err(parse_failure(body, ErrorKind::Eof))
    } else if body.len() < 8 {
        Err(parse_failure(body.skip(4), ErrorKind::Eof))
    } else if body.len() < 9 {
        Err(parse_failure(body.skip(8), ErrorKind::Eof))
    } else if BitDepth::spec_from_code(body[8]) is None {
        Err(ErrorView::InvalidBitDepth(body[8]))
    } else if body.len() < 10 {
        Err(parse_failure(body.skip(9), ErrorKind::Eof))
    } else if ColorType::spec_from_code(body[9]) is None {
        Err(ErrorView::InvalidColorType(body[9]))
    } else if !starts_with(body.skip(10), seq![0u8]) {
        Err(parse_failure(body.skip(10), ErrorKind::Tag))
    } else if !starts_with(body.skip(11), seq![0u8]) {
        Err(parse_failure(body.skip(11), ErrorKind::Tag))
    } else if body.len() < 13 {
        Err(parse_failure(body.skip(12), ErrorKind::Eof))
    } else if Interlace::spec_from_code(body[12]) is None {
        Err(ErrorView::InvalidInterlace(body[12]))
    } else if body.len() > 13 {
        Err(parse_failure(body.skip(13), ErrorKind::Eof))
    } else {
        Ok(
            ChunkView::Ihdr {
                width: spec_be_u32(body),
                height: spec_be_u32(body.skip(4)),
                bit_depth: BitDepth::spec_from_code(body[8])->Some_0,
                color_type: ColorType::spec_from_code(body[9])->Some_0,
                interlace: Interlace::spec_from_code(body[12])->Some_0,
            },
        )
    }
}

/// The palette that a body spells: the body itself, if it holds whole
/// entries, at least one and no more than 256.
pub open spec fn spec_plte(body: Seq<u8>) -> Result<ChunkView, ErrorView> {
    if palette_size_ok(body.len()) {
        Ok(ChunkView::Plte(body))
    } else {
        Err(ErrorView::InvalidPaletteSize(body.len() as usize))
    }
}

/// What a body of the type `tag` holds. The type is told in capitals; a type
/// that is not known is an error if its first letter is a capital, and a
/// chunk to pass over if not.
pub open spec fn spec_body(tag: Seq<u8>, body: Seq<u8>) -> Result<ChunkView, ErrorView> {
    if spells(tag, 0x49, 0x48, 0x44, 0x52) {
        spec_ihdr(body)
    } else if spells(tag, 0x50, 0x4C, 0x54, 0x45) {
        spec_plte(body)
    } else if spells(tag, 0x49, 0x44, 0x41, 0x54) {
        Ok(ChunkView::Idat(body))
    } else if spells(tag, 0x49, 0x45, 0x4E, 0x44) {
        if body.len() == 0 {
            Ok(ChunkView::Iend)
        } else {
            Err(ErrorView::InvalidIEnd)
        }
    } else if is_upper(tag[0]) {
        Err(ErrorView::UnknownCriticalChunk(tag_text(tag)))
    } else {
        Ok(ChunkView::Unknown)
    }
}

/// The head of a chunk: the length of its body and its type. Whether the
/// chunk is critical is told by the type and kept nowhere else.
#[derive(Debug, Clone, Copy, PartialEq, Eq)]
pub struct ChunkHeader {
    pub length: u32,
    pub type_tag: [u8; 4],
}

impl ChunkHeader {
    /// Whether a decoder must understand the chunk: the first letter of its
    /// type is a capital.
    pub open spec fn spec_critical(&self) -> bool {
        is_upper(self.type_tag@[0])
    }

    /// Whether a decoder must understand the chunk: the first letter of its
    /// type is a capital.
    #[verifier::when_used_as_spec(spec_critical)]
    pub fn critical(&self) -> (b: bool)
        ensures
            b == self.spec_critical(),
    {
        0x41 <= self.type_tag[0] && self.type_tag[0] <= 0x5A
    }
}

/// What reading the head of a chunk gives: the rest of the input, the length
/// and the type. The length is four bytes, the type four letters.
pub open spec fn spec_chunk_header(input: Seq<u8>) -> Result<(Seq<u8>, u32, Seq<u8>), ErrorView> {
    if input.len() < 4 {
        Err(parse_failure(input, ErrorKind::Eof))
    } else if !has_type_tag(input.skip(4)) {
        Err(parse_failure(input.skip(4), ErrorKind::TakeWhileMN))
    } else {
        Ok((input.skip(8), spec_be_u32(input), input.subrange(4, 8)))
    }
}

/// What reading one chunk gives: the rest of the input and the chunk. A
/// chunk is a head, a body of the length that the head gives, and a checksum
/// of four bytes, which is passed over unread. The framing is checked before
/// the body is looked at.
#[verifier::opaque]
pub open spec fn spec_chunk(input: Seq<u8>) -> Result<(Seq<u8>, ChunkView), ErrorView> {
    match spec_chunk_header(input) {
        Err(e) => Err(e),
        Ok((after_head, length, tag)) => if after_head.len() < length {
            Err(parse_failure(after_head, ErrorKind::Eof))
        } else if after_head.len() - length < 4 {
            Err(parse_failure(after_head.skip(length as int), ErrorKind::Eof))
        } else {
            match spec_body(tag, after_head.take(length as int)) {
                Err(e) => Err(e),
                Ok(chunk) => Ok((after_head.skip(length + 4), chunk)),
            }
        },
    }
}

/// A chunk takes up twelve bytes and its body: what is left after it is
/// shorter than what it was read from by that much.
pub proof fn lemma_chunk_shrinks(input: Seq<u8>)
    ensures
        spec_chunk(input) matches Ok((rest, _)) ==> 12 <= input.len() && rest.len() + 12
            + spec_be_u32(input) == input.len() && rest == input.skip(12 + spec_be_u32(input)),
{
    reveal(spec_chunk);
}

/// Whether `result` is what `model` says, value for value.
pub open spec fn chunk_matches(
    result: Result<(&[u8], Chunk), Error>,
    model: Result<(Seq<u8>, ChunkView), ErrorView>,
) -> bool {
    match model {
        Ok((rest, chunk)) => result is Ok && result->Ok_0.0@ == rest && result->Ok_0.1@ == chunk,
        Err(e) => result is Err && result->Err_0@ == e,
    }
}

/// `nom::character::is_alphabetic` tells whether a byte is a letter of the
/// ASCII alphabet, in either case.
pub assume_specification[ nom::character::is_alphabetic ](chr: u8) -> (b: bool)
    ensures
        b == is_letter(chr),
;

/// Calls `String::from_utf8_lossy` on bytes that are all ASCII, where it has
/// nothing to replace: the text has one character for each byte, with the
/// byte's value.
#[verifier::external_body]
fn ascii_text(bytes: &[u8]) -> (text: String)
    requires
        forall|i: int| 0 <= i < bytes@.len() ==> bytes@[i] < 128,
    ensures
        text@.len() == bytes@.len(),
        forall|i: int| 0 <= i < bytes@.len() ==> text@[i] == bytes@[i] as char,
{
    String::from_utf8_lossy(bytes).into_owned()
}

/// To begin with `tag` is to be as long and to agree with it byte for byte.
proof fn lemma_starts_with(input: Seq<u8>, tag: Seq<u8>)
    ensures
        starts_with(input, tag) <==> input.len() >= tag.len() && forall|j: int|
            0 <= j < tag.len() ==> input[j] == tag[j],
{
    if input.len() >= tag.len() {
        let head = input.take(tag.len() as int);
        if forall|j: int| 0 <= j < tag.len() ==> input[j] == tag[j] {
            assert(head =~= tag);
        }
        if head == tag {
            assert forall|j: int| 0 <= j < tag.len() implies input[j] == tag[j] by {
                assert(head[j] == input[j]);
            }
        }
    }
}

/// Takes the bytes `expected` off the front of `input`.
fn tag<'a>(input: &'a [u8], expected: &[u8]) -> (r: Result<&'a [u8], Error>)
    ensures
        starts_with(input@, expected@) ==> r is Ok && r->Ok_0@ == input@.skip(
            expected@.len() as int,
        ),
        !starts_with(input@, expected@) ==> r is Err && r->Err_0@ == parse_failure(
            input@,
            ErrorKind::Tag,
        ),
{
    let n = expected.len();
    if input.len() < n {
        return Err(Error::from_error_kind(input, ErrorKind::Tag));
    }
    let mut i: usize = 0;
    while i < n
        invariant
            i <= n,
            n == expected@.len(),
            n <= input@.len(),
            forall|j: int| 0 <= j < i ==> input@[j] == expected@[j],
        decreases n - i,
    {
        if input[i] != expected[i] {
            assert(input@.take(n as int)[i as int] != expected@[i as int]);
            return Err(Error::from_error_kind(input, ErrorKind::Tag));
        }
        i += 1;
    }
    assert(input@.take(n as int) =~= expected@);
    Ok(slice_subrange(input, n, input.len()))
}

/// Takes `count` bytes off the front of `input`: the rest, then the bytes.
fn take<'a>(input: &'a [u8], count: usize) -> (r: Result<(&'a [u8], &'a [u8]), Error>)
    ensures
        count <= input@.len() ==> r is Ok && r->Ok_0.0@ == input@.skip(count as int) && r->Ok_0.1@
            == input@.take(count as int),
        count > input@.len() ==> r is Err && r->Err_0@ == parse_failure(input@, ErrorKind::Eof),
{
    if count > input.len() {
        Err(Error::from_error_kind(input, ErrorKind::Eof))
    } else {
        Ok((slice_subrange(input, count, input.len()), slice_subrange(input, 0, count)))
    }
}

/// Takes a number of four bytes, the most significant first, off the front
/// of `input`.
fn be_u32<'a>(input: &'a [u8]) -> (r: Result<(&'a [u8], u32), Error>)
    ensures
        4 <= input@.len() ==> r is Ok && r->Ok_0.0@ == input@.skip(4) && r->Ok_0.1 == spec_be_u32(
            input@,
        ),
        4 > input@.len() ==> r is Err && r->Err_0@ == parse_failure(input@, ErrorKind::Eof),
{
    let (rest, bytes) = take(input, 4)?;
    let value: u32 = (bytes[0] as u32) * 0x100_0000 + (bytes[1] as u32) * 0x1_0000 + (
    bytes[2] as u32) * 0x100 + (bytes[3] as u32);
    Ok((rest, value))
}

/// Takes one byte off the front of `input`.
fn one_byte<'a>(input: &'a [u8]) -> (r: Result<(&'a [u8], u8), Error>)
    ensures
        1 <= input@.len() ==> r is Ok && r->Ok_0.0@ == input@.skip(1) && r->Ok_0.1 == input@[0],
        1 > input@.len() ==> r is Err && r->Err_0@ == parse_failure(input@, ErrorKind::Eof),
{
    let (rest, bytes) = take(input, 1)?;
    Ok((rest, bytes[0]))
}

/// Fails unless all of the input was read.
fn all_consumed(rest: &[u8]) -> (r: Result<(), Error>)
    ensures
        rest@.len() == 0 ==> r is Ok,
        rest@.len() > 0 ==> r is Err && r->Err_0@ == parse_failure(rest@, ErrorKind::Eof),
{
    if rest.len() == 0 {
        Ok(())
    } else {
        Err(Error::from_error_kind(rest, ErrorKind::Eof))
    }
}

/// `byte` with a small letter made a capital.
fn to_upper(byte: u8) -> (upper: u8)
    ensures
        upper == spec_to_upper(byte),
{
    if 0x61 <= byte && byte <= 0x7A {
        byte - 0x20
    } else {
        byte
    }
}

/// Reads the signature off the front of `input`: the rest of the input, then
/// the signature. A stream that does not begin with the signature fails with
/// a `Tag` failure that shows the input from the part that is wrong.
pub fn header<'a>(input: &'a [u8]) -> (r: Result<(&'a [u8], &'a [u8]), Error>)
    ensures
        match spec_header(input@) {
            Ok((rest, found)) => r is Ok && r->Ok_0.0@ == rest && r->Ok_0.1@ == found,
            Err(e) => r is Err && r->Err_0@ == e,
        },
        r is Ok <==> has_signature(input@),
        r is Ok ==> r->Ok_0.1@ == signature(),
{
    let first: [u8; 1] = [0x89];
    let letters: [u8; 3] = [0x50, 0x4E, 0x47];
    let endings: [u8; 4] = [0x0D, 0x0A, 0x1A, 0x0A];
    proof {
        let s = input@;
        assert(first@ =~= seq![0x89u8]);
        assert(letters@ =~= seq![0x50u8, 0x4Eu8, 0x47u8]);
        assert(endings@ =~= seq![0x0Du8, 0x0Au8, 0x1Au8, 0x0Au8]);
        lemma_starts_with(s, first@);
        lemma_starts_with(s, signature());
        if s.len() >= 1 {
            lemma_starts_with(s.skip(1), letters@);
        }
        if s.len() >= 4 {
            lemma_starts_with(s.skip(4), endings@);
        }
    }
    assert(input@.skip(0) =~= input@);
    let rest = tag(input, first.as_slice())?;
    assert(input@.skip(1) =~= rest@);
    let rest = tag(rest, letters.as_slice())?;
    assert(input@.skip(4) =~= rest@);
    let rest = tag(rest, endings.as_slice())?;
    assert(input@.skip(8) =~= rest@);
    Ok((rest, slice_subrange(input, 0, 8)))
}

/// Whether `result` is what `model` says, value for value.
pub open spec fn body_matches(result: Result<Chunk, Error>, model: Result<ChunkView, ErrorView>) -> bool {
    match model {
        Ok(chunk) => result is Ok && result->Ok_0@ == chunk,
        Err(e) => result is Err && result->Err_0@ == e,
    }
}

/// Reads the body of a header chunk.
pub fn ihdr<'a>(input: &'a [u8]) -> (r: Result<Chunk<'a>, Error>)
    ensures
        body_matches(r, spec_ihdr(input@)),
{
    let zero: [u8; 1] = [0];
    assert(zero@ =~= seq![0u8]);
    let (rest, width) = be_u32(input)?;
    let (rest, height) = be_u32(rest)?;
    assert(rest@ =~= input@.skip(8));
    assert(input@.skip(4)[0] == input@[4] && input@.skip(4)[1] == input@[5] && input@.skip(4)[2]
        == input@[6] && input@.skip(4)[3] == input@[7]);
    let (rest, depth_code) = one_byte(rest)?;
    let bit_depth = BitDepth::try_from(depth_code)?;
    assert(rest@ =~= input@.skip(9));
    let (rest, color_code) = one_byte(rest)?;
    let color_type = ColorType::try_from(color_code)?;
    assert(rest@ =~= input@.skip(10));
    let rest = tag(rest, zero.as_slice())?;
    assert(rest@ =~= input@.skip(11));
    let rest = tag(rest, zero.as_slice())?;
    assert(rest@ =~= input@.skip(12));
    let (rest, interlace_code) = one_byte(rest)?;
    let interlace = Interlace::try_from(interlace_code)?;
    assert(rest@ =~= input@.skip(13));
    all_consumed(rest)?;
    Ok(Chunk::Ihdr { width, height, bit_depth, color_type, interlace })
}

/// Reads the body of a palette chunk.
pub fn plte<'a>(input: &'a [u8]) -> (r: Result<Chunk<'a>, Error>)
    ensures
        body_matches(r, spec_plte(input@)),
{
    Ok(Chunk::Plte(Colors::new(input)?))
}

/// Reads the body of an image-data chunk: the bytes as they are.
pub fn idat<'a>(input: &'a [u8]) -> (r: Result<Chunk<'a>, Error>)
    ensures
        r is Ok && r->Ok_0@ == ChunkView::Idat(input@),
{
    Ok(Chunk::Idat(BytesPrinter::new(input)))
}

/// Reads the body of an end chunk, which must be empty.
pub fn iend<'a>(input: &'a [u8]) -> (r: Result<Chunk<'a>, Error>)
    ensures
        input@.len() == 0 ==> r is Ok && r->Ok_0@ == ChunkView::Iend,
        input@.len() > 0 ==> r is Err && r->Err_0@ == ErrorView::InvalidIEnd,
{
    if input.len() == 0 {
        Ok(Chunk::Iend)
    } else {
        Err(Error::InvalidIEnd)
    }
}

/// Passes over the body of a chunk that need not be understood.
pub fn unknown<'a>(_input: &'a [u8]) -> (r: Result<Chunk<'a>, Error>)
    ensures
        r is Ok && r->Ok_0@ == ChunkView::Unknown,
{
    Ok(Chunk::Unknown)
}

/// Reads the head of a chunk off the front of `input`: the rest of the
/// input, then the head.
pub fn chunk_header<'a>(input: &'a [u8]) -> (r: Result<(&'a [u8], ChunkHeader), Error>)
    ensures
        match spec_chunk_header(input@) {
            Ok((rest, length, tag)) => r is Ok && r->Ok_0.0@ == rest && r->Ok_0.1.length == length
                && r->Ok_0.1.type_tag@ == tag,
            Err(e) => r is Err && r->Err_0@ == e,
        },
{
    let (after_length, length) = be_u32(input)?;
    let (after_type, ty) = match take(after_length, 4) {
        Ok(taken) => taken,
        Err(_) => {
            return Err(Error::from_error_kind(after_length, ErrorKind::TakeWhileMN));
        },
    };
    if !(nom::character::is_alphabetic(ty[0]) && nom::character::is_alphabetic(ty[1])
        && nom::character::is_alphabetic(ty[2]) && nom::character::is_alphabetic(ty[3])) {
        return Err(Error::from_error_kind(after_length, ErrorKind::TakeWhileMN));
    }
    assert(after_type@ =~= input@.skip(8));
    let type_tag: [u8; 4] = [ty[0], ty[1], ty[2], ty[3]];
    assert(type_tag@ =~= input@.subrange(4, 8));
    Ok((after_type, ChunkHeader { length, type_tag }))
}

/// Reads one chunk off the front of `input`: the rest of the input, then the
/// chunk. The length, the type, the body and the checksum are taken in this
/// order, and the first that the input falls short of decides the error; the
/// checksum is not verified. Only then is the body read, by its type.
pub fn chunk<'a>(input: &'a [u8]) -> (r: Result<(&'a [u8], Chunk<'a>), Error>)
    ensures
        chunk_matches(r, spec_chunk(input@)),
{
    reveal(spec_chunk);
    let (after_type, head) = chunk_header(input)?;
    let length = head.length;
    let ty = head.type_tag;
    let critical = head.critical();
    let (after_body, body) = take(after_type, length as usize)?;
    let (rest, _crc) = take(after_body, 4)?;
    assert(rest@ =~= after_type@.skip(length + 4));
    let upper: [u8; 4] = [to_upper(ty[0]), to_upper(ty[1]), to_upper(ty[2]), to_upper(ty[3])];
    let found = if upper[0] == 0x49 && upper[1] == 0x48 && upper[2] == 0x44 && upper[3] == 0x52 {
        ihdr(body)?
    } else if upper[0] == 0x50 && upper[1] == 0x4C && upper[2] == 0x54 && upper[3] == 0x45 {
        plte(body)?
    } else if upper[0] == 0x49 && upper[1] == 0x44 && upper[2] == 0x41 && upper[3] == 0x54 {
        idat(body)?
    } else if upper[0] == 0x49 && upper[1] == 0x45 && upper[2] == 0x4E && upper[3] == 0x44 {
        iend(body)?
    } else if critical {
        let name = ascii_text(upper.as_slice());
        assert(name@ =~= tag_text(ty@));
        return Err(Error::UnknownCriticalChunk(name));
    } else {
        unknown(body)?
    };
    Ok((rest, found))
}

} // verus!
