//! Colours, and the unpacking of one defiltered scanline into a row of them.

use crate::chunks::palette_entry;
use crate::chunks::palette_len;
use crate::chunks::BitDepth;
use crate::chunks::ColorType;
use crate::chunks::Colors;
use crate::error::Error;
use crate::error::ErrorView;
use vstd::prelude::*;

verus! {

/// A colour with whole-numbered channels. Each channel counts from `0`, none
/// of the colour, to `max`, all of it; a host turns it into an intensity by
/// dividing by `max`.
#[derive(Copy, Clone, Debug, PartialEq, Eq, Structural)]
pub struct Color {
    pub red: u16,
    pub green: u16,
    pub blue: u16,
    pub alpha: u16,
    pub max: u16,
}

impl Color {
    /// The opaque grey of level `value` on a scale that ends at `max`.
    pub open spec fn spec_gray(value: u16, max: u16) -> Color {
        Color { red: value, green: value, blue: value, alpha: max, max }
    }

    /// The opaque colour with the given eight-bit channels.
    pub open spec fn spec_rgb8(red: u8, green: u8, blue: u8) -> Color {
        Color { red: red as u16, green: green as u16, blue: blue as u16, alpha: 255, max: 255 }
    }

    /// The opaque grey of level `value` on a scale that ends at `max`.
    #[verifier::when_used_as_spec(spec_gray)]
    pub fn gray(value: u16, max: u16) -> (c: Color)
        ensures
            c == Color::spec_gray(value, max),
    {
        Color { red: value, green: value, blue: value, alpha: max, max }
    }

    /// The opaque colour with the given eight-bit channels.
    #[verifier::when_used_as_spec(spec_rgb8)]
    pub fn rgb8(red: u8, green: u8, blue: u8) -> (c: Color)
        ensures
            c == Color::spec_rgb8(red, green, blue),
    {
        Color { red: red as u16, green: green as u16, blue: blue as u16, alpha: 255, max: 255 }
    }
}

/// The number of samples that make up one pixel.
pub open spec fn channels(color_type: ColorType) -> nat {
    match color_type {
        ColorType::GrayScale => 1,
        ColorType::Rgb => 3,
        ColorType::Palette => 1,
        ColorType::GrayScaleAlpha => 2,
        ColorType::RgbAlpha => 4,
    }
}

/// Whether samples of this depth may make up pixels of this colour type.
pub open spec fn depth_allowed(bit_depth: BitDepth, color_type: ColorType) -> bool {
    match color_type {
        ColorType::GrayScale => true,
        ColorType::Palette => bit_depth != BitDepth::Sixteen,
        _ => bit_depth == BitDepth::Eight || bit_depth == BitDepth::Sixteen,
    }
}

/// The number of bits in one pixel: the depth of a sample times the number
/// of samples, where the two go together.
pub open spec fn spec_bits_per_pixel(bit_depth: BitDepth, color_type: ColorType) -> Option<nat> {
    if depth_allowed(bit_depth, color_type) {
        Some(bit_depth.spec_code() as nat * channels(color_type))
    } else {
        None
    }
}

/// The sizes that a pixel can have: nine in all, from one bit to eight bytes.
pub proof fn lemma_bits_per_pixel_values(bit_depth: BitDepth, color_type: ColorType)
    ensures
        spec_bits_per_pixel(bit_depth, color_type) matches Some(bits) ==> bits == 1 || bits == 2
            || bits == 4 || bits == 8 || bits == 16 || bits == 24 || bits == 32 || bits == 48
            || bits == 64,
{
    match bit_depth {
        BitDepth::One => {},
        BitDepth::Two => {},
        BitDepth::Four => {},
        BitDepth::Eight => {},
        BitDepth::Sixteen => {},
    }
}

/// The number of bits in one pixel, or `InvalidBitColorCombo` where the
/// depth and the colour type do not go together.
pub fn bits_per_pixel(bit_depth: BitDepth, color_type: ColorType) -> (r: Result<usize, Error>)
    ensures
        match spec_bits_per_pixel(bit_depth, color_type) {
            Some(bits) => r == Ok::<usize, Error>(bits as usize),
            None => r == Err::<usize, Error>(
                Error::InvalidBitColorCombo(bit_depth.spec_code(), color_type.spec_code()),
            ),
        },
{
    match (bit_depth, color_type) {
        (BitDepth::One, ColorType::GrayScale | ColorType::Palette) => Ok(1),
        (BitDepth::Two, ColorType::GrayScale | ColorType::Palette) => Ok(2),
        (BitDepth::Four, ColorType::GrayScale | ColorType::Palette) => Ok(4),
        (BitDepth::Eight, ColorType::GrayScale | ColorType::Palette) => Ok(8),
        (BitDepth::Eight, ColorType::GrayScaleAlpha) | (BitDepth::Sixteen, ColorType::GrayScale) => Ok(
            16,
        ),
        (BitDepth::Eight, ColorType::Rgb) => Ok(24),
        (BitDepth::Eight, ColorType::RgbAlpha) | (BitDepth::Sixteen, ColorType::GrayScaleAlpha) => Ok(
            32,
        ),
        (BitDepth::Sixteen, ColorType::Rgb) => Ok(48),
        (BitDepth::Sixteen, ColorType::RgbAlpha) => Ok(64),
        _ => Err(Error::InvalidBitColorCombo(bit_depth.code(), color_type.code())),
    }
}

/// Two to the power `n`, for the few powers that a byte needs.
pub open spec fn two_pow(n: int) -> int {
    if n <= 0 {
        1
    } else if n == 1 {
        2
    } else if n == 2 {
        4
    } else if n == 3 {
        8
    } else if n == 4 {
        16
    } else if n == 5 {
        32
    } else if n == 6 {
        64
    } else if n == 7 {
        128
    } else {
        256
    }
}

/// The largest value of a sample of this depth: all bits set.
pub open spec fn sample_max(bit_depth: BitDepth) -> u16 {
    match bit_depth {
        BitDepth::One => 1,
        BitDepth::Two => 3,
        BitDepth::Four => 15,
        BitDepth::Eight => 255,
        BitDepth::Sixteen => 65535,
    }
}

/// The field in slot `slot` of `byte`, where the byte is cut into fields of
/// `depth` bits and slot `0` holds the most significant bits.
pub open spec fn packed_field(byte: u8, slot: int, depth: int) -> u16 {
    ((byte as int / two_pow(8 - depth * (slot + 1))) % two_pow(depth)) as u16
}

/// Sample `j` of a run of samples of the given depth: for the depths under
/// eight, packed into bytes from the most significant bits down; for sixteen,
/// two bytes with the more significant first.
pub open spec fn sample_value(sample: Seq<u8>, j: int, bit_depth: BitDepth) -> u16 {
    match bit_depth {
        BitDepth::Sixteen => (sample[2 * j] as int * 256 + sample[2 * j + 1] as int) as u16,
        BitDepth::Eight => sample[j] as u16,
        _ => {
            let depth = bit_depth.spec_code() as int;
            let per_byte = 8int / depth;
            packed_field(sample[j / per_byte], j % per_byte, depth)
        },
    }
}

/// The number of whole pixels of `bits` bits each in `len` bytes.
pub open spec fn pixel_count(len: nat, bits: nat) -> nat {
    (len * 8 / bits) as nat
}

/// The colour that a palette gives to `index`: `MissingCritical` with no
/// palette at all, `InvalidPaletteIndex` with one that has no such entry.
pub open spec fn palette_color(palette: Option<Seq<u8>>, index: u16) -> Result<Color, ErrorView> {
    match palette {
        None => Err(ErrorView::MissingCritical("PLTE"@)),
        Some(bytes) => if index < palette_len(bytes) {
            Ok(palette_entry(bytes, index as int))
        } else {
            Err(ErrorView::InvalidPaletteIndex(index as usize))
        },
    }
}

/// Pixel `k` of a row whose samples are `sample`: its samples stand one
/// after the other, from sample `k * channels` on.
pub open spec fn spec_pixel(
    sample: Seq<u8>,
    k: int,
    bit_depth: BitDepth,
    color_type: ColorType,
    palette: Option<Seq<u8>>,
) -> Result<Color, ErrorView> {
    let max = sample_max(bit_depth);
    match color_type {
        ColorType::GrayScale => Ok(Color::spec_gray(sample_value(sample, k, bit_depth), max)),
        ColorType::Palette => palette_color(palette, sample_value(sample, k, bit_depth)),
        ColorType::Rgb => Ok(
            Color {
                red: sample_value(sample, 3 * k, bit_depth),
                green: sample_value(sample, 3 * k + 1, bit_depth),
                blue: sample_value(sample, 3 * k + 2, bit_depth),
                alpha: max,
                max,
            },
        ),
        ColorType::GrayScaleAlpha => Ok(
            Color {
                red: sample_value(sample, 2 * k, bit_depth),
                green: sample_value(sample, 2 * k, bit_depth),
                blue: sample_value(sample, 2 * k, bit_depth),
                alpha: sample_value(sample, 2 * k + 1, bit_depth),
                max,
            },
        ),
        ColorType::RgbAlpha => Ok(
            Color {
                red: sample_value(sample, 4 * k, bit_depth),
                green: sample_value(sample, 4 * k + 1, bit_depth),
                blue: sample_value(sample, 4 * k + 2, bit_depth),
                alpha: sample_value(sample, 4 * k + 3, bit_depth),
                max,
            },
        ),
    }
}

/// The first `n` pixels of a row, or the error of the first pixel among them
/// that has none.
pub open spec fn spec_pixels(
    sample: Seq<u8>,
    n: nat,
    bit_depth: BitDepth,
    color_type: ColorType,
    palette: Option<Seq<u8>>,
) -> Result<Seq<Color>, ErrorView>
    decreases n,
{
    if n == 0 {
        Ok(Seq::empty())
    } else {
        match spec_pixels(sample, (n - 1) as nat, bit_depth, color_type, palette) {
            Err(e) => Err(e),
            Ok(row) => match spec_pixel(sample, n - 1, bit_depth, color_type, palette) {
                Err(e) => Err(e),
                Ok(color) => Ok(row.push(color)),
            },
        }
    }
}

/// The row of pixels that the samples `sample` hold: every whole pixel in
/// them, in order. It fails where the depth and the colour type do not go
/// together, where the pixels are too many to count, and where a pixel has no
/// colour.
pub open spec fn spec_decode_row(
    sample: Seq<u8>,
    bit_depth: BitDepth,
    color_type: ColorType,
    palette: Option<Seq<u8>>,
) -> Result<Seq<Color>, ErrorView> {
    match spec_bits_per_pixel(bit_depth, color_type) {
        None => Err(
            ErrorView::InvalidBitColorCombo(bit_depth.spec_code(), color_type.spec_code()),
        ),
        Some(bits) => if pixel_count(sample.len(), bits) > usize::MAX {
            Err(ErrorView::Unknown)
        } else {
            spec_pixels(sample, pixel_count(sample.len(), bits), bit_depth, color_type, palette)
        },
    }
}

/// A palette that may be absent, as bytes.
pub open spec fn palette_view(palette: Option<&Colors>) -> Option<Seq<u8>> {
    match palette {
        Some(colors) => Some(colors@),
        None => None,
    }
}

/// Whether `result` is what `model` says, value for value.
pub open spec fn row_matches(result: Result<Vec<Color>, Error>, model: Result<Seq<Color>, ErrorView>) -> bool {
    match model {
        Ok(row) => result is Ok && result->Ok_0@ == row,
        Err(e) => result is Err && result->Err_0@ == e,
    }
}

fn power_of_two(n: u8) -> (p: u16)
    requires
        n <= 8,
    ensures
        p == two_pow(n as int),
{
    match n {
        0 => 1,
        1 => 2,
        2 => 4,
        3 => 8,
        4 => 16,
        5 => 32,
        6 => 64,
        7 => 128,
        _ => 256,
    }
}

fn sample_at(sample: &[u8], j: usize, bit_depth: BitDepth) -> (v: u16)
    requires
        (j + 1) * bit_depth.spec_code() <= sample@.len() * 8,
    ensures
        v == sample_value(sample@, j as int, bit_depth),
{
    let len = sample.len();
    match bit_depth {
        BitDepth::Sixteen => {
            assert((j + 1) * 16 <= len * 8);
            let hi: u16 = sample[2 * j] as u16;
            let lo: u16 = sample[2 * j + 1] as u16;
            hi * 256 + lo
        },
        BitDepth::Eight => {
            assert((j + 1) * 8 <= len * 8);
            sample[j] as u16
        },
        _ => {
            let (depth, per_byte): (usize, usize) = match bit_depth {
                BitDepth::One => (1, 8),
                BitDepth::Two => (2, 4),
                _ => (4, 2),
            };
            assert(depth == bit_depth.spec_code() && per_byte == 8int / (depth as int));
            assert(j / per_byte < len) by {
                if depth == 1 {
                    assert(j + 1 <= len * 8);
                } else if depth == 2 {
                    assert((j + 1) * 2 <= len * 8);
                } else {
                    assert((j + 1) * 4 <= len * 8);
                }
            }
            let byte: u8 = sample[j / per_byte];
            let slot: usize = j % per_byte;
            let shift: u8 = (8 - depth * (slot + 1)) as u8;
            let divisor: u16 = power_of_two(shift);
            let modulus: u16 = power_of_two(depth as u8);
            (byte as u16 / divisor) % modulus
        },
    }
}

fn pixel_at(
    sample: &[u8],
    k: usize,
    bit_depth: BitDepth,
    color_type: ColorType,
    palette: Option<&Colors>,
) -> (r: Result<Color, Error>)
    requires
        spec_bits_per_pixel(bit_depth, color_type) is Some,
        k < pixel_count(sample@.len(), spec_bits_per_pixel(bit_depth, color_type)->Some_0),
    ensures
        match spec_pixel(sample@, k as int, bit_depth, color_type, palette_view(palette)) {
            Ok(color) => r == Ok::<Color, Error>(color),
            Err(e) => r is Err && r->Err_0@ == e,
        },
{
    let len = sample.len();
    let ghost depth = bit_depth.spec_code() as int;
    let ghost n = channels(color_type) as int;
    assert(depth == 1 || depth == 2 || depth == 4 || depth == 8 || depth == 16);
    assert(n * (k + 1) * depth <= len * 8) by (nonlinear_arith)
        requires
            k < (len * 8) / (depth * n),
            depth * n > 0,
    ;
    let max: u16 = match bit_depth {
        BitDepth::One => 1,
        BitDepth::Two => 3,
        BitDepth::Four => 15,
        BitDepth::Eight => 255,
        BitDepth::Sixteen => 65535,
    };
    match color_type {
        ColorType::GrayScale => {
            Ok(Color::gray(sample_at(sample, k, bit_depth), max))
        },
        ColorType::Palette => {
            let index = sample_at(sample, k, bit_depth);
            match palette {
                None => {
                    Err(Error::MissingCritical("PLTE"))
                },
                Some(colors) => if (index as usize) < colors.len() {
                    Ok(colors.get(index as usize))
                } else {
                    Err(Error::InvalidPaletteIndex(index as usize))
                },
            }
        },
        ColorType::Rgb => {
            assert(depth == 8 || depth == 16);
            let red = sample_at(sample, 3 * k, bit_depth);
            let green = sample_at(sample, 3 * k + 1, bit_depth);
            let blue = sample_at(sample, 3 * k + 2, bit_depth);
            Ok(Color { red, green, blue, alpha: max, max })
        },
        ColorType::GrayScaleAlpha => {
            assert(depth == 8 || depth == 16);
            let gray = sample_at(sample, 2 * k, bit_depth);
            let alpha = sample_at(sample, 2 * k + 1, bit_depth);
            Ok(Color { red: gray, green: gray, blue: gray, alpha, max })
        },
        ColorType::RgbAlpha => {
            assert(depth == 8 || depth == 16);
            let red = sample_at(sample, 4 * k, bit_depth);
            let green = sample_at(sample, 4 * k + 1, bit_depth);
            let blue = sample_at(sample, 4 * k + 2, bit_depth);
            let alpha = sample_at(sample, 4 * k + 3, bit_depth);
            Ok(Color { red, green, blue, alpha, max })
        },
    }
}

/// Once a pixel has failed, so has every longer run of pixels, and with the
/// same error.
pub proof fn lemma_pixels_error_stays(
    sample: Seq<u8>,
    m: nat,
    n: nat,
    bit_depth: BitDepth,
    color_type: ColorType,
    palette: Option<Seq<u8>>,
)
    requires
        m <= n,
        spec_pixels(sample, m, bit_depth, color_type, palette) is Err,
    ensures
        spec_pixels(sample, n, bit_depth, color_type, palette) == spec_pixels(
            sample,
            m,
            bit_depth,
            color_type,
            palette,
        ),
    decreases n,
{
    if m < n {
        lemma_pixels_error_stays(sample, m, (n - 1) as nat, bit_depth, color_type, palette);
    }
}

/// A run of pixels has colours exactly when each pixel in it has one, and
/// then it holds these colours in order.
pub proof fn lemma_pixels_pointwise(
    sample: Seq<u8>,
    n: nat,
    bit_depth: BitDepth,
    color_type: ColorType,
    palette: Option<Seq<u8>>,
)
    ensures
        spec_pixels(sample, n, bit_depth, color_type, palette) is Ok <==> (forall|k: int|
            0 <= k < n ==> (#[trigger] spec_pixel(sample, k, bit_depth, color_type, palette)) is Ok),
        spec_pixels(sample, n, bit_depth, color_type, palette) matches Ok(row) ==> row.len() == n
            && (forall|k: int|
            0 <= k < n ==> Ok::<Color, ErrorView>(#[trigger] row[k]) == spec_pixel(
                sample,
                k,
                bit_depth,
                color_type,
                palette,
            )),
    decreases n,
{
    if n > 0 {
        lemma_pixels_pointwise(sample, (n - 1) as nat, bit_depth, color_type, palette);
    }
}

/// A palette is never read past its end: a row of palette indices has colours
/// only if the palette is there and has an entry for every index in the row,
/// and then each colour is the entry of its index. An index that the palette
/// lacks makes the row fail.
pub proof fn lemma_palette_lookup_is_checked(
    sample: Seq<u8>,
    bit_depth: BitDepth,
    palette: Option<Seq<u8>>,
)
    requires
        depth_allowed(bit_depth, ColorType::Palette),
        pixel_count(sample.len(), bit_depth.spec_code() as nat) <= usize::MAX,
    ensures
        ({
            let n = pixel_count(sample.len(), bit_depth.spec_code() as nat);
            let result = spec_decode_row(sample, bit_depth, ColorType::Palette, palette);
            &&& result is Ok <==> (n == 0 || palette is Some) && (forall|k: int|
                0 <= k < n ==> (#[trigger] sample_value(sample, k, bit_depth)) < palette_len(
                    palette->Some_0,
                ))
            &&& result matches Ok(row) ==> row.len() == n && (forall|k: int|
                0 <= k < n ==> #[trigger] row[k] == palette_entry(
                    palette->Some_0,
                    sample_value(sample, k, bit_depth) as int,
                ))
        }),
{
    let n = pixel_count(sample.len(), bit_depth.spec_code() as nat);
    lemma_pixels_pointwise(sample, n, bit_depth, ColorType::Palette, palette);
    let result = spec_decode_row(sample, bit_depth, ColorType::Palette, palette);
    assert(result == spec_pixels(sample, n, bit_depth, ColorType::Palette, palette));
    if result is Ok {
        assert forall|k: int| 0 <= k < n implies (#[trigger] sample_value(sample, k, bit_depth))
            < palette_len(palette->Some_0) && palette is Some by {
            assert(spec_pixel(sample, k, bit_depth, ColorType::Palette, palette) is Ok);
        }
        let row = result->Ok_0;
        assert forall|k: int| 0 <= k < n implies #[trigger] row[k] == palette_entry(
            palette->Some_0,
            sample_value(sample, k, bit_depth) as int,
        ) by {
            assert(Ok::<Color, ErrorView>(row[k]) == spec_pixel(
                sample,
                k,
                bit_depth,
                ColorType::Palette,
                palette,
            ));
        }
        if n > 0 {
            assert(spec_pixel(sample, 0, bit_depth, ColorType::Palette, palette) is Ok);
        }
    } else {
        if (n == 0 || palette is Some) && (forall|k: int|
            0 <= k < n ==> (#[trigger] sample_value(sample, k, bit_depth)) < palette_len(
                palette->Some_0,
            )) {
            assert forall|k: int| 0 <= k < n implies (#[trigger] spec_pixel(
                sample,
                k,
                bit_depth,
                ColorType::Palette,
                palette,
            )) is Ok by {
                assert(sample_value(sample, k, bit_depth) < palette_len(palette->Some_0));
            }
        }
    }
}

fn count_pixels(len: usize, bits: usize) -> (count: Option<usize>)
    requires
        bits == 1 || bits == 2 || bits == 4 || bits == 8 || bits == 16 || bits == 24 || bits == 32
            || bits == 48 || bits == 64,
    ensures
        match count {
            Some(n) => n == pixel_count(len as nat, bits as nat),
            None => pixel_count(len as nat, bits as nat) > usize::MAX,
        },
{
    match bits {
        1 => len.checked_mul(8),
        2 => len.checked_mul(4),
        4 => len.checked_mul(2),
        8 => Some(len),
        16 => Some(len / 2),
        24 => Some(len / 3),
        32 => Some(len / 4),
        48 => Some(len / 6),
        _ => Some(len / 8),
    }
}

/// Unpacks the samples of one defiltered scanline into its row of colours:
/// every whole pixel that the bytes hold, in order, so that the bits that
/// fill up the last byte of a row of narrow pixels count as pixels too. Grey
/// levels and colour channels are handed on as they are, with the largest
/// value that their depth allows; palette indices are looked up, and one
/// without an entry fails the row.
pub fn decode_row(
    sample: &[u8],
    bit_depth: BitDepth,
    color_type: ColorType,
    palette: Option<&Colors>,
) -> (r: Result<Vec<Color>, Error>)
    ensures
        row_matches(r, spec_decode_row(sample@, bit_depth, color_type, palette_view(palette))),
{
    let bits = match bits_per_pixel(bit_depth, color_type) {
        Ok(bits) => bits,
        Err(e) => {
            return Err(e);
        },
    };
    proof {
        lemma_bits_per_pixel_values(bit_depth, color_type);
    }
    let count = match count_pixels(sample.len(), bits) {
        Some(count) => count,
        None => {
            return Err(Error::Unknown);
        },
    };
    let ghost model_palette = palette_view(palette);
    let mut row: Vec<Color> = Vec::new();
    let mut k: usize = 0;
    while k < count
        invariant
            k <= count,
            spec_bits_per_pixel(bit_depth, color_type) == Some(bits as nat),
            count == pixel_count(sample@.len(), bits as nat),
            model_palette == palette_view(palette),
            spec_pixels(sample@, k as nat, bit_depth, color_type, model_palette) == Ok::<
                Seq<Color>,
                ErrorView,
            >(row@),
        decreases count - k,
    {
        match pixel_at(sample, k, bit_depth, color_type, palette) {
            Ok(color) => {
                row.push(color);
            },
            Err(e) => {
                proof {
                    lemma_pixels_error_stays(
                        sample@,
                        (k + 1) as nat,
                        count as nat,
                        bit_depth,
                        color_type,
                        model_palette,
                    );
                }
                return Err(e);
            },
        }
        k += 1;
    }
    Ok(row)
}

} // verus!
