use png_viewer::chunks::BitDepth;
use png_viewer::chunks::ColorType;
use png_viewer::chunks::Interlace;
use png_viewer::error::Error;
use png_viewer::pixel::Color;
use png_viewer::render::render;
use png_viewer::render::render_inflated;
use png_viewer::render::Renderer;
use std::io::Write;

const SIGNATURE: [u8; 8] = [0x89, 0x50, 0x4E, 0x47, 0x0D, 0x0A, 0x1A, 0x0A];

fn framed(kind: &[u8; 4], body: &[u8]) -> Vec<u8> {
    let mut out = Vec::new();
    out.extend_from_slice(&(body.len() as u32).to_be_bytes());
    out.extend_from_slice(kind);
    out.extend_from_slice(body);
    out.extend_from_slice(&[0, 0, 0, 0]);
    out
}

fn header_body(width: u32, height: u32, depth: u8, color: u8, interlace: u8) -> Vec<u8> {
    let mut body = Vec::new();
    body.extend_from_slice(&width.to_be_bytes());
    body.extend_from_slice(&height.to_be_bytes());
    body.extend_from_slice(&[depth, color, 0, 0, interlace]);
    body
}

fn deflated(raw: &[u8]) -> Vec<u8> {
    let mut encoder = flate2::write::ZlibEncoder::new(Vec::new(), flate2::Compression::default());
    encoder.write_all(raw).unwrap();
    encoder.finish().unwrap()
}

fn stream(parts: &[Vec<u8>]) -> Vec<u8> {
    let mut out = SIGNATURE.to_vec();
    for part in parts {
        out.extend_from_slice(part);
    }
    out
}

fn rgb(red: u16, green: u16, blue: u16) -> Color {
    Color { red, green, blue, alpha: 255, max: 255 }
}

#[test]
fn render_decodes_a_two_by_two_rgb_image() {
    let raw = [
        0, 10, 20, 30, 40, 50, 60, // unfiltered
        2, 1, 1, 1, 2, 2, 2, // up
    ];
    let data = stream(&[
        framed(b"IHDR", &header_body(2, 2, 8, 2, 0)),
        framed(b"IDAT", &deflated(&raw)),
        framed(b"IEND", &[]),
    ]);
    let rows = render(&data).unwrap();
    assert_eq!(
        rows,
        vec![
            vec![rgb(10, 20, 30), rgb(40, 50, 60)],
            vec![rgb(11, 21, 31), rgb(42, 52, 62)],
        ]
    );
}

#[test]
fn render_joins_image_data_split_over_chunks() {
    let raw = [0, 1, 2, 3, 1, 5, 5, 5, 3, 4, 4, 4, 4, 9, 9, 9];
    let packed = deflated(&raw);
    let (first, second) = packed.split_at(packed.len() / 2);
    let data = stream(&[
        framed(b"IHDR", &header_body(3, 4, 8, 0, 0)),
        framed(b"IDAT", first),
        framed(b"tEXt", b"between"),
        framed(b"IDAT", second),
        framed(b"IEND", &[]),
    ]);
    let rows = render(&data).unwrap();
    let gray = |v: u16| Color { red: v, green: v, blue: v, alpha: 255, max: 255 };
    assert_eq!(rows.len(), 4);
    assert_eq!(rows[0], vec![gray(1), gray(2), gray(3)]);
    assert_eq!(rows[1], vec![gray(5), gray(10), gray(15)]);
    // average: left and up halved
    assert_eq!(rows[2], vec![gray(6), gray(12), gray(17)]);
    // paeth
    assert_eq!(rows[3], vec![gray(15), gray(24), gray(33)]);
}

#[test]
fn render_gives_the_same_rows_however_the_image_data_is_cut() {
    let raw: Vec<u8> = (0..4000u32).map(|i| if i % 40 == 0 { (i / 40 % 5) as u8 } else { (i * 7 % 251) as u8 }).collect();
    let packed = deflated(&raw);
    let whole = stream(&[
        framed(b"IHDR", &header_body(13, 100, 8, 2, 0)),
        framed(b"IDAT", &packed),
        framed(b"IEND", &[]),
    ]);
    let rows = render(&whole).unwrap();
    assert_eq!(rows.len(), 100);
    for cut in [1usize, 2, 7, packed.len() / 2, packed.len() - 1] {
        let mut parts = vec![framed(b"IHDR", &header_body(13, 100, 8, 2, 0))];
        for part in packed.chunks(cut) {
            parts.push(framed(b"IDAT", part));
        }
        parts.push(framed(b"IEND", &[]));
        assert_eq!(render(&stream(&parts)).unwrap(), rows);
    }
}

#[test]
fn render_inflated_decodes_the_bytes_it_is_given() {
    let data = stream(&[
        framed(b"IHDR", &header_body(2, 2, 8, 0, 0)),
        framed(b"IDAT", &[1, 2, 3]),
        framed(b"IEND", &[]),
    ]);
    let gray = |v: u16| Color { red: v, green: v, blue: v, alpha: 255, max: 255 };
    assert_eq!(
        render_inflated(&data, Ok(vec![0, 5, 6, 1, 7, 1])),
        Ok(vec![vec![gray(5), gray(6)], vec![gray(7), gray(8)]])
    );
    assert_eq!(
        render_inflated(&data, Err("no good".to_string())),
        Err(Error::IoError("no good".to_string()))
    );
    assert_eq!(render_inflated(&data, Ok(vec![0, 5, 6, 9, 7, 1])), Err(Error::InvalidFilterType(9)));
    assert_eq!(render_inflated(&data[..20], Ok(vec![0, 5, 6])).is_err(), true);
    let bare = stream(&[framed(b"IHDR", &header_body(2, 2, 8, 0, 0)), framed(b"IEND", &[])]);
    assert_eq!(render_inflated(&bare, Err("not asked".to_string())), Ok(Vec::new()));
}

#[test]
fn renderer_new_checks_the_combination() {
    assert!(Renderer::new(1, 1, BitDepth::One, ColorType::GrayScale, Interlace::Null).is_ok());
    assert_eq!(
        Renderer::new(1, 1, BitDepth::One, ColorType::Rgb, Interlace::Null).err(),
        Some(Error::InvalidBitColorCombo(1, 2))
    );
}

fn failure_at(dump: &str, code: png_viewer::error::ErrorKind) -> Error {
    Error::ParseFailed(png_viewer::error::ParseError {
        input: png_viewer::error::DbgString(dump.to_string()),
        code,
    })
}

fn gray8(v: u16) -> Color {
    Color { red: v, green: v, blue: v, alpha: 255, max: 255 }
}

#[test]
fn a_stream_without_the_signature_is_not_decoded() {
    let mut data = stream(&[
        framed(b"IHDR", &header_body(1, 1, 8, 0, 0)),
        framed(b"IDAT", &deflated(&[0, 7])),
        framed(b"IEND", &[]),
    ]);
    assert_eq!(render(&data), Ok(vec![vec![gray8(7)]]));
    data[1] = b'p';
    match render(&data) {
        Err(Error::ParseFailed(e)) => {
            assert_eq!(e.code, png_viewer::error::ErrorKind::Tag);
            assert!(e.input.as_str().starts_with("00000000\t70 4e 47 0d 0a 1a 0a 00 \tpNG.....\n"));
            assert_eq!(e.input.as_str().lines().count(), 8);
        }
        other => panic!("{other:?}"),
    }
    match render(&data[8..]) {
        Err(Error::ParseFailed(e)) => {
            assert_eq!(e.code, png_viewer::error::ErrorKind::Tag);
            assert!(e.input.as_str().starts_with("00000000\t00 00 00 0d 49 48 44 52 \t....IHDR\n"));
        }
        other => panic!("{other:?}"),
    }
    assert_eq!(render(&[]), Err(failure_at("", png_viewer::error::ErrorKind::Tag)));
}

#[test]
fn the_header_chunk_must_come_first() {
    let data = stream(&[
        framed(b"IDAT", &deflated(&[0, 7])),
        framed(b"IHDR", &header_body(1, 1, 8, 0, 0)),
        framed(b"IEND", &[]),
    ]);
    assert_eq!(render(&data), Err(Error::MissingCritical("IHDR")));
    let data = stream(&[framed(b"IEND", &[])]);
    assert_eq!(render(&data), Err(Error::MissingCritical("IHDR")));
    let data = stream(&[framed(b"tEXt", b"hello"), framed(b"IHDR", &header_body(1, 1, 8, 0, 0))]);
    assert_eq!(render(&data), Err(Error::MissingCritical("IHDR")));
}

#[test]
fn a_second_header_chunk_is_an_error() {
    let data = stream(&[
        framed(b"IHDR", &header_body(1, 1, 8, 0, 0)),
        framed(b"IHDR", &header_body(1, 1, 8, 0, 0)),
        framed(b"IDAT", &deflated(&[0, 7])),
        framed(b"IEND", &[]),
    ]);
    assert_eq!(render(&data), Err(Error::DuplicateIhdr));
    let data = stream(&[
        framed(b"IHDR", &header_body(1, 1, 8, 0, 0)),
        framed(b"IDAT", &deflated(&[0, 7])),
        framed(b"ihdr", &header_body(1, 1, 8, 0, 0)),
        framed(b"IEND", &[]),
    ]);
    assert_eq!(render(&data), Err(Error::DuplicateIhdr));
}

#[test]
fn a_stream_must_end_with_the_end_chunk() {
    let data = stream(&[
        framed(b"IHDR", &header_body(1, 1, 8, 0, 0)),
        framed(b"IDAT", &deflated(&[0, 7])),
    ]);
    assert_eq!(render(&data), Err(Error::MissingCritical("IEND")));
    let data = stream(&[framed(b"IHDR", &header_body(1, 1, 8, 0, 0))]);
    assert_eq!(render(&data), Err(Error::MissingCritical("IEND")));
}

#[test]
fn bytes_after_the_end_chunk_are_an_error() {
    let mut data = stream(&[
        framed(b"IHDR", &header_body(1, 1, 8, 0, 0)),
        framed(b"IDAT", &deflated(&[0, 7])),
        framed(b"IEND", &[]),
    ]);
    data.extend_from_slice(&[1, 2, 3]);
    assert_eq!(
        render(&data),
        Err(failure_at(
            &format!("00000000\t01 02 03 {}\t...\n", " ".repeat(15)),
            png_viewer::error::ErrorKind::Eof
        ))
    );
}

#[test]
fn a_malformed_chunk_ends_the_decoding_with_its_error() {
    let mut data = stream(&[
        framed(b"IHDR", &header_body(1, 1, 8, 0, 0)),
        framed(b"IDAT", &deflated(&[0, 7])),
    ]);
    data.extend_from_slice(&[0, 0]);
    assert_eq!(
        render(&data),
        Err(failure_at(
            &format!("00000000\t00 00 {}\t..\n", " ".repeat(18)),
            png_viewer::error::ErrorKind::Eof
        ))
    );
    let data = stream(&[
        framed(b"IHDR", &header_body(1, 1, 8, 0, 0)),
        framed(b"FOOb", &[1]),
        framed(b"IEND", &[]),
    ]);
    assert_eq!(render(&data), Err(Error::UnknownCriticalChunk("FOOB".to_string())));
    let data = stream(&[
        framed(b"IHDR", &header_body(1, 1, 8, 0, 0)),
        framed(b"IEND", &[0]),
    ]);
    assert_eq!(render(&data), Err(Error::InvalidIEnd));
    let data = stream(&[
        framed(b"IHDR", &header_body(1, 1, 8, 3, 0)),
        framed(b"PLTE", &[1, 2, 3, 4]),
        framed(b"IEND", &[]),
    ]);
    assert_eq!(render(&data), Err(Error::InvalidPaletteSize(4)));
}

#[test]
fn the_header_decides_before_any_pixel() {
    let data = stream(&[
        framed(b"IHDR", &header_body(1, 1, 1, 2, 0)),
        framed(b"IDAT", &[0xFF; 4]),
        framed(b"IEND", &[]),
    ]);
    assert_eq!(render(&data), Err(Error::InvalidBitColorCombo(1, 2)));
    let data = stream(&[framed(b"IHDR", &header_body(1, 1, 9, 2, 0))]);
    assert_eq!(render(&data), Err(Error::InvalidBitDepth(9)));
}

#[test]
fn image_data_that_does_not_inflate_is_an_error() {
    let data = stream(&[
        framed(b"IHDR", &header_body(1, 1, 8, 0, 0)),
        framed(b"IDAT", &[0xFF; 6]),
        framed(b"IEND", &[]),
    ]);
    assert_eq!(render(&data), Err(Error::IoError("corrupt deflate stream".to_string())));
    let packed = deflated(&[0, 7]);
    let data = stream(&[
        framed(b"IHDR", &header_body(1, 1, 8, 0, 0)),
        framed(b"IDAT", &packed[..packed.len() - 5]),
        framed(b"IEND", &[]),
    ]);
    assert!(matches!(render(&data), Err(Error::IoError(_))));
    let data = stream(&[
        framed(b"IHDR", &header_body(1, 1, 8, 0, 0)),
        framed(b"IDAT", &[]),
        framed(b"IEND", &[]),
    ]);
    assert!(matches!(render(&data), Err(Error::IoError(_))));
}

#[test]
fn bytes_after_the_end_of_the_compressed_stream_are_passed_over() {
    let data = stream(&[
        framed(b"IHDR", &header_body(1, 1, 8, 0, 0)),
        framed(b"IDAT", &deflated(&[0, 7])),
        framed(b"IDAT", &[1, 2, 3]),
        framed(b"IEND", &[]),
    ]);
    assert_eq!(render(&data), Ok(vec![vec![gray8(7)]]));
}

#[test]
fn an_invalid_filter_type_in_the_image_data_is_an_error() {
    let data = stream(&[
        framed(b"IHDR", &header_body(1, 2, 8, 0, 0)),
        framed(b"IDAT", &deflated(&[0, 7, 5, 7])),
        framed(b"IEND", &[]),
    ]);
    assert_eq!(render(&data), Err(Error::InvalidFilterType(5)));
    // the framing of the whole stream is read before the image data
    let mut data = stream(&[
        framed(b"IHDR", &header_body(1, 2, 8, 0, 0)),
        framed(b"IDAT", &deflated(&[0, 7, 5, 7])),
    ]);
    data.extend_from_slice(&[0xFF; 9]);
    match render(&data) {
        Err(Error::ParseFailed(e)) => assert_eq!(e.code, png_viewer::error::ErrorKind::TakeWhileMN),
        other => panic!("{other:?}"),
    }
}

#[test]
fn render_looks_colours_up_in_the_palette() {
    let palette = [1, 2, 3, 40, 50, 60];
    let data = stream(&[
        framed(b"IHDR", &header_body(2, 1, 8, 3, 0)),
        framed(b"PLTE", &palette),
        framed(b"IDAT", &deflated(&[0, 1, 0])),
        framed(b"IEND", &[]),
    ]);
    assert_eq!(render(&data), Ok(vec![vec![rgb(40, 50, 60), rgb(1, 2, 3)]]));
    let data = stream(&[
        framed(b"IHDR", &header_body(2, 1, 8, 3, 0)),
        framed(b"PLTE", &palette),
        framed(b"IDAT", &deflated(&[0, 1, 2])),
        framed(b"IEND", &[]),
    ]);
    assert_eq!(render(&data), Err(Error::InvalidPaletteIndex(2)));
}

#[test]
fn render_needs_the_palette_before_the_pixels() {
    let data = stream(&[
        framed(b"IHDR", &header_body(2, 1, 8, 3, 0)),
        framed(b"IDAT", &deflated(&[0, 1, 0])),
        framed(b"PLTE", &[1, 2, 3, 40, 50, 60]),
        framed(b"IEND", &[]),
    ]);
    assert_eq!(render(&data), Err(Error::MissingCritical("PLTE")));
    // a later palette takes the place of an earlier one
    let data = stream(&[
        framed(b"IHDR", &header_body(1, 1, 8, 3, 0)),
        framed(b"PLTE", &[1, 2, 3]),
        framed(b"PLTE", &[4, 5, 6]),
        framed(b"IDAT", &deflated(&[0, 0])),
        framed(b"IEND", &[]),
    ]);
    assert_eq!(render(&data), Ok(vec![vec![rgb(4, 5, 6)]]));
}

#[test]
fn render_unpacks_bits_into_pixels_row_by_row() {
    let data = stream(&[
        framed(b"IHDR", &header_body(10, 2, 1, 0, 0)),
        framed(b"IDAT", &deflated(&[0, 0xFF, 0xC0, 2, 0x01, 0x00])),
        framed(b"IEND", &[]),
    ]);
    let rows = render(&data).unwrap();
    let bit = |v: u16| Color { red: v, green: v, blue: v, alpha: 1, max: 1 };
    assert_eq!(rows.len(), 2);
    // a scanline is whole bytes: sixteen fields for ten pixels
    assert_eq!(rows[0], [1, 1, 1, 1, 1, 1, 1, 1, 1, 1, 0, 0, 0, 0, 0, 0].map(bit).to_vec());
    // the filter works on bytes: 0x01 + 0xFF wraps to 0x00, 0x00 + 0xC0
    assert_eq!(rows[1], [0, 0, 0, 0, 0, 0, 0, 0, 1, 1, 0, 0, 0, 0, 0, 0].map(bit).to_vec());
}

#[test]
fn render_reads_sixteen_bit_samples() {
    let data = stream(&[
        framed(b"IHDR", &header_body(1, 2, 16, 6, 0)),
        framed(
            b"IDAT",
            &deflated(&[0, 0, 1, 0, 2, 0, 3, 0, 4, 2, 1, 0, 0, 0, 0, 0, 0xFF, 0xFF]),
        ),
        framed(b"IEND", &[]),
    ]);
    assert_eq!(
        render(&data),
        Ok(vec![
            vec![Color { red: 1, green: 2, blue: 3, alpha: 4, max: 65535 }],
            vec![Color { red: 257, green: 2, blue: 3, alpha: 0xFF03, max: 65535 }],
        ])
    );
}

#[test]
fn render_reports_interlacing_and_reads_in_stream_order() {
    let data = stream(&[
        framed(b"IHDR", &header_body(1, 2, 8, 0, 1)),
        framed(b"IDAT", &deflated(&[0, 7, 0, 9])),
        framed(b"IEND", &[]),
    ]);
    assert_eq!(render(&data), Ok(vec![vec![gray8(7)], vec![gray8(9)]]));
    let renderer = Renderer::new(1, 2, BitDepth::Eight, ColorType::GrayScale, Interlace::Adam7).unwrap();
    assert_eq!(renderer.interlace(), Interlace::Adam7);
    assert_eq!(renderer.dimensions(), (1, 2));
}

#[test]
fn render_without_image_data_gives_no_rows() {
    let data = stream(&[
        framed(b"IHDR", &header_body(3, 3, 8, 2, 0)),
        framed(b"tIME", &[0; 7]),
        framed(b"IEND", &[]),
    ]);
    assert_eq!(render(&data), Ok(Vec::new()));
}

#[test]
fn render_decodes_a_picture_of_293_by_165() {
    let mut raw = Vec::new();
    let mut plain = Vec::new();
    let mut before = vec![0u8; 880];
    for y in 0..165u32 {
        let mut record = vec![0u8];
        for x in 0..293u32 {
            record.extend_from_slice(&[(x * 7 % 256) as u8, (y * 3 % 256) as u8, ((x * y) % 256) as u8]);
        }
        let kind = (y % 5) as u8;
        raw.push(kind);
        for i in 1..record.len() {
            let left = if i > 3 { record[i - 3] as i32 } else { 0 };
            let up = before[i] as i32;
            let up_left = if i > 3 { before[i - 3] as i32 } else { 0 };
            let estimate = left + up - up_left;
            let predicted = match kind {
                0 => 0,
                1 => left,
                2 => up,
                3 => (left + up) / 2,
                _ => {
                    let d = [(estimate - left).abs(), (estimate - up).abs(), (estimate - up_left).abs()];
                    if d[0] <= d[1] && d[0] <= d[2] {
                        left
                    } else if d[1] <= d[2] {
                        up
                    } else {
                        up_left
                    }
                }
            };
            raw.push((record[i] as i32 - predicted).rem_euclid(256) as u8);
        }
        plain.push(record[1..].to_vec());
        before = record;
    }
    let packed = deflated(&raw);
    let mut parts = vec![framed(b"IHDR", &header_body(293, 165, 8, 2, 0))];
    parts.push(framed(b"gAMA", &[0, 0, 0xB1, 0x8F]));
    for part in packed.chunks(777) {
        parts.push(framed(b"IDAT", part));
    }
    parts.push(framed(b"IEND", &[]));
    let rows = render(&stream(&parts)).unwrap();
    assert_eq!(rows.len(), 165);
    for (y, row) in rows.iter().enumerate() {
        assert_eq!(row.len(), 293);
        for (x, color) in row.iter().enumerate() {
            let at = &plain[y][3 * x..3 * x + 3];
            assert_eq!(*color, rgb(at[0] as u16, at[1] as u16, at[2] as u16));
        }
    }
}

#[test]
fn renderer_puts_scanlines_together_from_pieces() {
    let mut renderer =
        Renderer::new(2, 2, BitDepth::Eight, ColorType::GrayScale, Interlace::Null).unwrap();
    assert_eq!(renderer.scanline(), 0);
    assert_eq!(renderer.write(&[0, 1]), Ok(2));
    assert_eq!(renderer.scanline(), 0);
    assert!(renderer.rows().is_empty());
    assert_eq!(renderer.write(&[2, 1]), Ok(2));
    assert_eq!(renderer.scanline(), 1);
    assert_eq!(renderer.rows(), &vec![vec![gray8(1), gray8(2)]]);
    assert_eq!(renderer.write(&[]), Ok(0));
    assert_eq!(renderer.write(&[10, 10, 2, 5, 5, 0]), Ok(6));
    assert_eq!(
        renderer.into_rows(),
        vec![
            vec![gray8(1), gray8(2)],
            vec![gray8(10), gray8(20)],
            vec![gray8(15), gray8(25)],
        ]
    );
}

#[test]
fn renderer_gives_the_same_rows_however_the_bytes_are_cut() {
    let raw: Vec<u8> = (0..60u8).map(|i| if i % 4 == 0 { i / 4 % 5 } else { i.wrapping_mul(37) }).collect();
    let mut whole = Renderer::new(1, 15, BitDepth::Eight, ColorType::Rgb, Interlace::Null).unwrap();
    assert_eq!(whole.write(&raw), Ok(60));
    for cut in [1usize, 3, 4, 5, 7, 59] {
        let mut pieces = Renderer::new(1, 15, BitDepth::Eight, ColorType::Rgb, Interlace::Null).unwrap();
        for piece in raw.chunks(cut) {
            assert_eq!(pieces.write(piece), Ok(piece.len()));
        }
        assert_eq!(pieces.rows(), whole.rows());
        assert_eq!(pieces.scanline(), 15);
    }
}

#[test]
fn renderer_stops_at_the_first_error() {
    let mut renderer =
        Renderer::new(1, 3, BitDepth::Eight, ColorType::GrayScale, Interlace::Null).unwrap();
    assert_eq!(renderer.write(&[0, 1, 7, 2, 0, 3]), Err(Error::InvalidFilterType(7)));
    assert_eq!(renderer.rows(), &vec![vec![gray8(1)]]);
}

#[test]
fn renderer_of_no_width_has_scanlines_of_one_byte() {
    let mut renderer =
        Renderer::new(0, 2, BitDepth::Eight, ColorType::Rgb, Interlace::Null).unwrap();
    assert_eq!(renderer.write(&[0, 4]), Ok(2));
    assert_eq!(renderer.into_rows(), vec![Vec::<Color>::new(), Vec::new()]);
}

#[test]
fn renderer_takes_its_palette() {
    let bytes = [9, 9, 9, 8, 8, 8];
    let mut renderer =
        Renderer::new(2, 1, BitDepth::Four, ColorType::Palette, Interlace::Null).unwrap();
    renderer.set_palette(png_viewer::chunks::Colors::new(&bytes).unwrap());
    assert_eq!(renderer.write(&[0, 0x10]), Ok(2));
    assert_eq!(renderer.into_rows(), vec![vec![rgb(8, 8, 8), rgb(9, 9, 9)]]);
}
