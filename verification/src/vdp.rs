//! Plain value types of the video display processor interface: colors,
//! rectangles and the state enumerations together with the numeric codes
//! the display processor understands for them.

use vstd::prelude::*;

verus! {

/// A 32-bit color with 8 bits per channel.
#[derive(Clone, Copy, Debug)]
pub struct Color32 {
    pub r: u8,
    pub g: u8,
    pub b: u8,
    pub a: u8,
}

impl Color32 {
    /// Builds a color from its four channels.
    pub fn new(r: u8, g: u8, b: u8, a: u8) -> (color: Color32)
        ensures
            color.r == r,
            color.g == g,
            color.b == b,
            color.a == a,
    {
        Color32 { r, g, b, a }
    }
}

/// An axis-aligned rectangle in pixels.
#[derive(Clone, Copy, Debug)]
pub struct Rectangle {
    pub x: i32,
    pub y: i32,
    pub width: i32,
    pub height: i32,
}

impl Rectangle {
    /// Builds a rectangle from its origin and extent.
    pub fn new(x: i32, y: i32, width: i32, height: i32) -> (rect: Rectangle)
        ensures
            rect.x == x,
            rect.y == y,
            rect.width == width,
            rect.height == height,
    {
        Rectangle { x, y, width, height }
    }
}

/// Why a texture could not be created.
#[derive(Clone, Copy, Debug)]
pub enum TextureError {
    DimensionsInvalid,
    AllocationFailed,
}

/// Depth and query comparison functions.
#[derive(Clone, Copy, Debug)]
pub enum Compare {
    Never,
    Less,
    Equal,
    LessOrEqual,
    Greater,
    NotEqual,
    GreaterOrEqual,
    Always,
}

impl Compare {
    /// The code of each comparison: `0x0200` for `Never`, then counting up.
    pub open spec fn spec_code(self) -> int {
        match self {
            Compare::Never => 0x0200,
            Compare::Less => 0x0201,
            Compare::Equal => 0x0202,
            Compare::LessOrEqual => 0x0203,
            Compare::Greater => 0x0204,
            Compare::NotEqual => 0x0205,
            Compare::GreaterOrEqual => 0x0206,
            Compare::Always => 0x0207,
        }
    }

    /// The numeric code handed to the display processor.
    pub fn code(self) -> (code: i32)
        ensures
            code == self.spec_code(),
    {
        match self {
            Compare::Never => 0x0200,
            Compare::Less => 0x0201,
            Compare::Equal => 0x0202,
            Compare::LessOrEqual => 0x0203,
            Compare::Greater => 0x0204,
            Compare::NotEqual => 0x0205,
            Compare::GreaterOrEqual => 0x0206,
            Compare::Always => 0x0207,
        }
    }
}

/// How source and destination are combined when blending.
#[derive(Clone, Copy, Debug)]
pub enum BlendEquation {
    Add,
    Subtract,
    ReverseSubtract,
}

impl BlendEquation {
    pub open spec fn spec_code(self) -> int {
        match self {
            BlendEquation::Add => 0x8006,
            BlendEquation::Subtract => 0x800A,
            BlendEquation::ReverseSubtract => 0x800B,
        }
    }

    /// The numeric code handed to the display processor.
    pub fn code(self) -> (code: i32)
        ensures
            code == self.spec_code(),
    {
        match self {
            BlendEquation::Add => 0x8006,
            BlendEquation::Subtract => 0x800A,
            BlendEquation::ReverseSubtract => 0x800B,
        }
    }
}

/// The factor a color is scaled by before blending.
#[derive(Clone, Copy, Debug)]
pub enum BlendFactor {
    Zero,
    One,
    SrcColor,
    OneMinusSrcColor,
    SrcAlpha,
    OneMinusSrcAlpha,
    DstAlpha,
    OneMinusDstAlpha,
    DstColor,
    OneMinusDstColor,
}

impl BlendFactor {
    pub open spec fn spec_code(self) -> int {
        match self {
            BlendFactor::Zero => 0,
            BlendFactor::One => 1,
            BlendFactor::SrcColor => 0x0300,
            BlendFactor::OneMinusSrcColor => 0x0301,
            BlendFactor::SrcAlpha => 0x0302,
            BlendFactor::OneMinusSrcAlpha => 0x0303,
            BlendFactor::DstAlpha => 0x0304,
            BlendFactor::OneMinusDstAlpha => 0x0305,
            BlendFactor::DstColor => 0x0306,
            BlendFactor::OneMinusDstColor => 0x0307,
        }
    }

    /// The numeric code handed to the display processor.
    pub fn code(self) -> (code: i32)
        ensures
            code == self.spec_code(),
    {
        match self {
            BlendFactor::Zero => 0,
            BlendFactor::One => 1,
            BlendFactor::SrcColor => 0x0300,
            BlendFactor::OneMinusSrcColor => 0x0301,
            BlendFactor::SrcAlpha => 0x0302,
            BlendFactor::OneMinusSrcAlpha => 0x0303,
            BlendFactor::DstAlpha => 0x0304,
            BlendFactor::OneMinusDstAlpha => 0x0305,
            BlendFactor::DstColor => 0x0306,
            BlendFactor::OneMinusDstColor => 0x0307,
        }
    }
}

/// Which vertex order marks a front face.
#[derive(Clone, Copy, Debug)]
pub enum WindingOrder {
    Clockwise,
    CounterClockwise,
}

impl WindingOrder {
    pub open spec fn spec_code(self) -> int {
        match self {
            WindingOrder::Clockwise => 0x0900,
            WindingOrder::CounterClockwise => 0x0901,
        }
    }

    /// The numeric code handed to the display processor.
    pub fn code(self) -> (code: i32)
        ensures
            code == self.spec_code(),
    {
        match self {
            WindingOrder::Clockwise => 0x0900,
            WindingOrder::CounterClockwise => 0x0901,
        }
    }
}

/// How a vertex list is assembled into primitives.
#[derive(Clone, Copy, Debug)]
pub enum Topology {
    LineList,
    LineStrip,
    TriangleList,
    TriangleStrip,
}

impl Topology {
    pub open spec fn spec_code(self) -> int {
        match self {
            Topology::LineList => 0,
            Topology::LineStrip => 1,
            Topology::TriangleList => 2,
            Topology::TriangleStrip => 3,
        }
    }

    /// The numeric code handed to the display processor.
    pub fn code(self) -> (code: i32)
        ensures
            code == self.spec_code(),
    {
        match self {
            Topology::LineList => 0,
            Topology::LineStrip => 1,
            Topology::TriangleList => 2,
            Topology::TriangleStrip => 3,
        }
    }
}

/// Pixel layouts a texture can have.
#[derive(Clone, Copy, Debug)]
pub enum TextureFormat {
    RGB565,
    RGBA4444,
    RGBA8888,
    DXT1,
    DXT3,
    YUV420,
}

/// Whether `v & (v - 1)` is zero, the subtraction wrapping: true of zero, of
/// every power of two and of the smallest `i32`.
pub open spec fn low_bit_clear(v: i32) -> bool {
    v & v.wrapping_sub(1) == 0
}

impl TextureFormat {
    pub open spec fn spec_code(self) -> int {
        match self {
            TextureFormat::RGB565 => 0,
            TextureFormat::RGBA4444 => 1,
            TextureFormat::RGBA8888 => 2,
            TextureFormat::DXT1 => 3,
            TextureFormat::DXT3 => 4,
            TextureFormat::YUV420 => 5,
        }
    }

    /// The numeric code handed to the display processor.
    pub fn code(self) -> (code: i32)
        ensures
            code == self.spec_code(),
    {
        match self {
            TextureFormat::RGB565 => 0,
            TextureFormat::RGBA4444 => 1,
            TextureFormat::RGBA8888 => 2,
            TextureFormat::DXT1 => 3,
            TextureFormat::DXT3 => 4,
            TextureFormat::YUV420 => 5,
        }
    }

    /// The dimensions a texture of this format may have: any for `YUV420`,
    /// for the others both sides must pass `low_bit_clear`.
    pub open spec fn spec_accepts_dimensions(self, width: i32, height: i32) -> bool {
        self is YUV420 || (low_bit_clear(width) && low_bit_clear(height))
    }

    /// Checks texture dimensions before anything is allocated.
    /// `Err(TextureError::DimensionsInvalid)` exactly when the format does not
    /// accept them.
    pub fn check_dimensions(self, width: i32, height: i32) -> (r: Result<(), TextureError>)
        ensures
            self.spec_accepts_dimensions(width, height) <==> r is Ok,
            r is Err ==> r->Err_0 is DimensionsInvalid,
    {
        let planar = match self {
            TextureFormat::YUV420 => true,
            _ => false,
        };
        if !planar && ((width & width.wrapping_sub(1)) != 0 || (height & height.wrapping_sub(1))
            != 0) {
            return Err(TextureError::DimensionsInvalid);
        }
        Ok(())
    }
}

/// How a texture is sampled between texels.
#[derive(Clone, Copy, Debug)]
pub enum TextureFilter {
    Nearest,
    Linear,
}

impl TextureFilter {
    pub open spec fn spec_code(self) -> int {
        match self {
            TextureFilter::Nearest => 0x2600,
            TextureFilter::Linear => 0x2601,
        }
    }

    /// The numeric code handed to the display processor.
    pub fn code(self) -> (code: i32)
        ensures
            code == self.spec_code(),
    {
        match self {
            TextureFilter::Nearest => 0x2600,
            TextureFilter::Linear => 0x2601,
        }
    }
}

/// How texture coordinates outside the unit square are treated.
#[derive(Clone, Copy, Debug)]
pub enum TextureWrap {
    Clamp,
    Repeat,
    Mirror,
}

impl TextureWrap {
    pub open spec fn spec_code(self) -> int {
        match self {
            TextureWrap::Clamp => 0x812F,
            TextureWrap::Repeat => 0x2901,
            TextureWrap::Mirror => 0x8370,
        }
    }

    /// The numeric code handed to the display processor.
    pub fn code(self) -> (code: i32)
        ensures
            code == self.spec_code(),
    {
        match self {
            TextureWrap::Clamp => 0x812F,
            TextureWrap::Repeat => 0x2901,
            TextureWrap::Mirror => 0x8370,
        }
    }
}

} // verus!
