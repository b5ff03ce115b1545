//! Loading of NFO release-information files: charset detection, decoding,
//! glyph grid with block detection, stripped text and markup.
pub mod charset;
pub mod cp437;
pub mod text;
pub mod grid;
pub mod decode;
pub mod nfo_data;

pub use charset::Charset;
pub use decode::{decode, detect, encode_cp437, DecodeError};
pub use grid::NfoRendererGrid;
pub use nfo_data::{cpp_char_vector_to_utf8_string, NfoData};
