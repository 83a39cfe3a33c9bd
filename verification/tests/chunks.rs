use png_viewer::chunks::BitDepth;
use png_viewer::chunks::BytesPrinter;
use png_viewer::chunks::ColorType;
use png_viewer::chunks::Colors;
use png_viewer::chunks::Interlace;
use png_viewer::error::DbgString;
use png_viewer::error::Error;
use png_viewer::pixel::Color;

#[test]
fn bit_depth_from_its_byte() {
    assert_eq!(BitDepth::try_from(1), Ok(BitDepth::One));
    assert_eq!(BitDepth::try_from(2), Ok(BitDepth::Two));
    assert_eq!(BitDepth::try_from(4), Ok(BitDepth::Four));
    assert_eq!(BitDepth::try_from(8), Ok(BitDepth::Eight));
    assert_eq!(BitDepth::try_from(16), Ok(BitDepth::Sixteen));
    for value in 0..=255u8 {
        match BitDepth::try_from(value) {
            Ok(depth) => assert_eq!(depth.code(), value),
            Err(e) => {
                assert!(![1, 2, 4, 8, 16].contains(&value));
                assert_eq!(e, Error::InvalidBitDepth(value));
            }
        }
    }
}

#[test]
fn color_type_from_its_byte() {
    assert_eq!(ColorType::try_from(0), Ok(ColorType::GrayScale));
    assert_eq!(ColorType::try_from(2), Ok(ColorType::Rgb));
    assert_eq!(ColorType::try_from(3), Ok(ColorType::Palette));
    assert_eq!(ColorType::try_from(4), Ok(ColorType::GrayScaleAlpha));
    assert_eq!(ColorType::try_from(6), Ok(ColorType::RgbAlpha));
    for value in 0..=255u8 {
        match ColorType::try_from(value) {
            Ok(color_type) => assert_eq!(color_type.code(), value),
            Err(e) => {
                assert!(![0, 2, 3, 4, 6].contains(&value));
                assert_eq!(e, Error::InvalidColorType(value));
            }
        }
    }
}

#[test]
fn interlace_from_its_byte() {
    assert_eq!(Interlace::try_from(0), Ok(Interlace::Null));
    assert_eq!(Interlace::try_from(1), Ok(Interlace::Adam7));
    assert_eq!(Interlace::try_from(2), Err(Error::InvalidInterlace(2)));
    assert_eq!(Interlace::Null.code(), 0);
    assert_eq!(Interlace::Adam7.code(), 1);
}

#[test]
fn colors_hold_whole_entries() {
    let bytes = [1, 2, 3, 4, 5, 6];
    let colors = Colors::new(&bytes).unwrap();
    assert_eq!(colors.len(), 2);
    assert!(!colors.is_empty());
    assert_eq!(colors.get(0), Color { red: 1, green: 2, blue: 3, alpha: 255, max: 255 });
    assert_eq!(colors.get(1), Color { red: 4, green: 5, blue: 6, alpha: 255, max: 255 });
    assert_eq!(colors.as_bytes(), &bytes);
}

#[test]
fn colors_of_a_wrong_size_are_refused() {
    assert_eq!(Colors::new(&[1]).err(), Some(Error::InvalidPaletteSize(1)));
    assert_eq!(Colors::new(&[1, 2]).err(), Some(Error::InvalidPaletteSize(2)));
    assert_eq!(Colors::new(&[0; 769]).err(), Some(Error::InvalidPaletteSize(769)));
    assert_eq!(Colors::new(&[0; 771]).err(), Some(Error::InvalidPaletteSize(771)));
    let most = [7u8; 768];
    let colors = Colors::new(&most).unwrap();
    assert_eq!(colors.len(), 256);
    assert_eq!(colors.get(255), Color { red: 7, green: 7, blue: 7, alpha: 255, max: 255 });
}

#[test]
fn colors_have_at_least_one_entry() {
    assert_eq!(Colors::new(&[]).err(), Some(Error::InvalidPaletteSize(0)));
    let least = [1u8, 2, 3];
    let colors = Colors::new(&least).unwrap();
    assert_eq!(colors.len(), 1);
    assert!(!colors.is_empty());
}

#[test]
fn bytes_printer_dumps_its_first_bytes() {
    let bytes = [0x78, 0x9C, 0x01];
    let printer = BytesPrinter::new(&bytes);
    assert_eq!(printer.as_bytes(), &bytes);
    assert_eq!(printer.dump(), format!("\n00000000\t78 9c 01 {}\tx\u{FFFD}.\n", " ".repeat(15)));
    let long = [0x30u8; 70];
    let text = BytesPrinter::new(&long).dump();
    assert_eq!(text.lines().count(), 9);
    assert_eq!(text.lines().last(), Some("00000038\t30 30 30 30 30 30 30 30 \t00000000"));
}

#[test]
fn bytes_printers_are_equal_as_their_bytes() {
    let bytes: &[u8] = &[1, 2];
    assert_eq!(BytesPrinter::from(bytes), BytesPrinter::new(&[1, 2]));
    assert_eq!(BytesPrinter::new(&[1, 2]), BytesPrinter::new(&[1, 2]));
    assert_ne!(BytesPrinter::new(&[1, 2]), BytesPrinter::new(&[1, 3]));
}

#[test]
fn dbg_string_gives_its_text() {
    assert_eq!(DbgString("abc".to_string()).as_str(), "abc");
    assert_eq!(Error::default(), Error::Unknown);
}
