//! Text codecs and raster image conversion with machine-checked contracts.
//!
//! Every function states what it returns over mathematical models
//! (`Seq<char>`, `Seq<u8>`, `nat`), and Verus proves the bodies against
//! those statements. The image decoder, resampler and encoders, the
//! percent codec and the Base64 engine are called through a small number
//! of trusted declarations, each documented where it stands.

pub mod text;
pub mod decimal;
pub mod radix;
pub mod alpha;
pub mod pixels;
pub mod svg;
pub mod raster;
pub mod convert;
pub mod html;
pub mod unicode_escape;
pub mod url;
pub mod base64_codec;
pub mod greeting;
