//! Output pixel formats: how a decoded (Y, Cb, Cr, alpha) sample becomes one
//! pixel of the frame buffer.

use vstd::prelude::*;

verus! {

/// An output pixel format. The decoder is generic over the format: it calls
/// `default` for pixels that nothing was decoded into yet and `convert`
/// for every codebook sample, and copies the resulting pixels around
/// unchanged.
///
/// Both methods are pure functions of their arguments. The two spec
/// functions give their results a name for contracts to speak of; an
/// implementation that is verified overrides them with its formula, one that
/// is not leaves them as they are.
pub trait Colorspace<C: Copy> {
    /// The pixel that `default` returns.
    open spec fn spec_default() -> C {
        arbitrary()
    }

    /// The pixel that `convert` returns for a sample.
    open spec fn spec_convert(y: int, cb: int, cr: int, a: int) -> C {
        arbitrary()
    }

    /// The pixel of a frame buffer or codebook cell nothing was decoded into.
    fn default() -> (pixel: C)
        ensures
            pixel == Self::spec_default(),
    ;

    /// The pixel for luma `y`, chroma `cb` and `cr`, and opacity `a`.
    fn convert(y: i32, cb: i32, cr: i32, a: u8) -> (pixel: C)
        ensures
            pixel == Self::spec_convert(y as int, cb as int, cr as int, a as int),
    ;
}

/// A 16 bit-per-pixel, 3 channel format: 5 bits of red, 6 of green, 5 of
/// blue, red in the most significant bits.
pub struct ColorspaceBgr565 {}

impl ColorspaceBgr565 {
    /// The pixel of a frame nothing was decoded into: black.
    pub fn default() -> (pixel: u16)
        ensures
            pixel == 0,
    {
        0
    }

    /// The pixel made of the three channels.
    pub open spec fn spec_pack(r5: u16, g6: u16, b5: u16) -> u16 {
        (r5 << 11u16) | (g6 << 5u16) | b5
    }

    /// Packs three channel intensities into a pixel. With each channel in
    /// its range the channels do not overlap, and the pixel is
    /// `r5 * 2048 + g6 * 32 + b5`.
    pub fn pack(r5: u16, g6: u16, b5: u16) -> (pixel: u16)
        ensures
            pixel == Self::spec_pack(r5, g6, b5),
            r5 <= 31 && g6 <= 63 && b5 <= 31 ==> pixel == r5 * 2048 + g6 * 32 + b5,
    {
        assert(r5 <= 31 && g6 <= 63 && b5 <= 31 ==> ((r5 << 11u16) | (g6 << 5u16) | b5) == r5
            * 2048 + g6 * 32 + b5) by (bit_vector);
        (r5 << 11u16) | (g6 << 5u16) | b5
    }
}

/// A 32 bit-per-pixel, 4 channel format: red in the least significant byte,
/// then green, blue and alpha.
pub struct ColorspaceRgba8888 {}

impl ColorspaceRgba8888 {
    /// The pixel of a frame nothing was decoded into: black and fully
    /// transparent.
    pub fn default() -> (pixel: u32)
        ensures
            pixel == 0,
    {
        0
    }

    /// The pixel made of the four channels.
    pub open spec fn spec_pack(r: u32, g: u32, b: u32, a: u8) -> u32 {
        r | (g << 8u32) | (b << 16u32) | ((a as u32) << 24u32)
    }

    /// Packs four channel intensities into a pixel. With each channel below
    /// 256 the channels do not overlap, and the pixel is
    /// `r + 256 * g + 65536 * b + 16777216 * a`.
    pub fn pack(r: u32, g: u32, b: u32, a: u8) -> (pixel: u32)
        ensures
            pixel == Self::spec_pack(r, g, b, a),
            r <= 255 && g <= 255 && b <= 255 ==> pixel == r + 256 * g + 65536 * b + 16777216 * a,
    {
        let a32 = a as u32;
        assert(r <= 255 && g <= 255 && b <= 255 && a32 <= 255 ==> (r | (g << 8u32) | (b << 16u32)
            | (a32 << 24u32)) == r + 256 * g + 65536 * b + 16777216 * a32) by (bit_vector);
        r | (g << 8u32) | (b << 16u32) | (a32 << 24u32)
    }
}

} // verus!
