//! Decoder for RoQ streams: length-prefixed chunks that carry frame
//! dimensions, a vector-quantization codebook, frames built from that
//! codebook with block-level motion compensation, and DPCM audio.

pub mod blocks;
pub mod bytes;
pub mod codebook;
pub mod colorspace;
pub mod decoder;
pub mod dpcm;
pub mod frame;
pub mod player;
pub mod regions;

pub use self::bytes::{ByteReader, RoqError};
pub use self::colorspace::{Colorspace, ColorspaceBgr565, ColorspaceRgba8888};
pub use self::decoder::{ChunkKind, RoqDecoder};
pub use self::player::{RoqEvent, RoqPlayer};
