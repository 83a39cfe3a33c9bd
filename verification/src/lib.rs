//! A PNG decoder. A stream is read chunk by chunk; its image data is joined
//! and inflated, put together into scanlines, defiltered against the
//! scanline before, and unpacked into rows of colours. What every step gives
//! is stated over sequences of bytes, and proved.
//!
//! - [`parse`] reads the signature and the framing of chunks.
//! - [`chunks`] holds what chunks contain: the header's enumerations, the
//!   palette, the chunk itself.
//! - [`inflate`] hands the compressed image data to the zlib decoder.
//! - [`filter`] reverses the filter of a scanline.
//! - [`pixel`] unpacks a scanline into colours.
//! - [`render`] holds the decoder and decodes whole streams.
//! - [`error`] names what can go wrong.
//! - [`zoom`] keeps the magnification of a viewer.

pub mod chunks;
pub mod error;
pub mod filter;
pub mod inflate;
pub mod parse;
pub mod pixel;
pub mod render;
pub mod zoom;
