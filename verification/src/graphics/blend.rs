//! Blend state of a draw call and its OpenGL encoding.
use vstd::prelude::*;

verus! {

/// How source and destination are combined.
#[derive(Clone, Copy, Debug, PartialEq, Eq, Structural)]
pub enum BlendOp {
    Add,
    Subtract,
    ReverseSubtract,
    Min,
    Max,
}

impl BlendOp {
    /// The OpenGL enum of the operation (`glBlendEquation`).
    pub open spec fn gl_enum(self) -> u32 {
        match self {
            BlendOp::Add => 0x8006,
            BlendOp::Subtract => 0x800A,
            BlendOp::ReverseSubtract => 0x800B,
            BlendOp::Min => 0x8007,
            BlendOp::Max => 0x8008,
        }
    }

    /// The OpenGL enum of the operation.
    pub fn to_gl_enum(&self) -> (r: u32)
        ensures
            r == self.gl_enum(),
    {
        match self {
            BlendOp::Add => 0x8006,
            BlendOp::Subtract => 0x800A,
            BlendOp::ReverseSubtract => 0x800B,
            BlendOp::Min => 0x8007,
            BlendOp::Max => 0x8008,
        }
    }
}

/// The factor a blend operand is scaled by.
#[derive(Clone, Copy, Debug, PartialEq, Eq, Structural)]
pub enum BlendFactor {
    Zero,
    One,
    SrcColor,
    OneMinusSrcColor,
    DstColor,
    OneMinusDstColor,
    SrcAlpha,
    OneMinusSrcAlpha,
    DstAlpha,
    OneMinusDstAlpha,
    ConstantColor,
    OneMinusConstantColor,
    ConstantAlpha,
    OneMinusConstantAlpha,
    SrcAlphaSaturate,
    Src1Color,
    OneMinusSrc1Color,
    Src1Alpha,
    OneMinusSrc1Alpha,
}

impl BlendFactor {
    /// The OpenGL enum of the factor (`glBlendFunc`).
    pub open spec fn gl_enum(self) -> u32 {
        match self {
            BlendFactor::Zero => 0,
            BlendFactor::One => 1,
            BlendFactor::SrcColor => 0x0300,
            BlendFactor::OneMinusSrcColor => 0x0301,
            BlendFactor::DstColor => 0x0306,
            BlendFactor::OneMinusDstColor => 0x0307,
            BlendFactor::SrcAlpha => 0x0302,
            BlendFactor::OneMinusSrcAlpha => 0x0303,
            BlendFactor::DstAlpha => 0x0304,
            BlendFactor::OneMinusDstAlpha => 0x0305,
            BlendFactor::ConstantColor => 0x8001,
            BlendFactor::OneMinusConstantColor => 0x8002,
            BlendFactor::ConstantAlpha => 0x8003,
            BlendFactor::OneMinusConstantAlpha => 0x8004,
            BlendFactor::SrcAlphaSaturate => 0x0308,
            BlendFactor::Src1Color => 0x88F9,
            BlendFactor::OneMinusSrc1Color => 0x88FA,
            BlendFactor::Src1Alpha => 0x8589,
            BlendFactor::OneMinusSrc1Alpha => 0x88FB,
        }
    }

    /// The OpenGL enum of the factor.
    pub fn to_gl_enum(&self) -> (r: u32)
        ensures
            r == self.gl_enum(),
    {
        match self {
            BlendFactor::Zero => 0,
            BlendFactor::One => 1,
            BlendFactor::SrcColor => 0x0300,
            BlendFactor::OneMinusSrcColor => 0x0301,
            BlendFactor::DstColor => 0x0306,
            BlendFactor::OneMinusDstColor => 0x0307,
            BlendFactor::SrcAlpha => 0x0302,
            BlendFactor::OneMinusSrcAlpha => 0x0303,
            BlendFactor::DstAlpha => 0x0304,
            BlendFactor::OneMinusDstAlpha => 0x0305,
            BlendFactor::ConstantColor => 0x8001,
            BlendFactor::OneMinusConstantColor => 0x8002,
            BlendFactor::ConstantAlpha => 0x8003,
            BlendFactor::OneMinusConstantAlpha => 0x8004,
            BlendFactor::SrcAlphaSaturate => 0x0308,
            BlendFactor::Src1Color => 0x88F9,
            BlendFactor::OneMinusSrc1Color => 0x88FA,
            BlendFactor::Src1Alpha => 0x8589,
            BlendFactor::OneMinusSrc1Alpha => 0x88FB,
        }
    }
}

/// Distinct operations and distinct factors are sent to OpenGL as distinct
/// enums, so no two blend settings are confused.
pub proof fn lemma_gl_enums_distinct(a: BlendOp, b: BlendOp, f: BlendFactor, g: BlendFactor)
    ensures
        a != b ==> a.gl_enum() != b.gl_enum(),
        f != g ==> f.gl_enum() != g.gl_enum(),
{
}

/// Which color channels a draw writes, one bit per channel.
#[derive(Debug, Clone, Copy, PartialEq, Eq, Structural)]
pub struct BlendMask(pub u32);

impl BlendMask {
    /// No channel.
    pub fn none() -> (r: BlendMask)
        ensures
            r.0 == 0,
    {
        BlendMask(0)
    }

    /// The red channel.
    pub fn red() -> (r: BlendMask)
        ensures
            r.0 == 1,
    {
        BlendMask(1)
    }

    /// The green channel.
    pub fn green() -> (r: BlendMask)
        ensures
            r.0 == 2,
    {
        BlendMask(2)
    }

    /// The blue channel.
    pub fn blue() -> (r: BlendMask)
        ensures
            r.0 == 4,
    {
        BlendMask(4)
    }

    /// The alpha channel.
    pub fn alpha() -> (r: BlendMask)
        ensures
            r.0 == 8,
    {
        BlendMask(8)
    }

    /// The three color channels.
    pub fn rgb() -> (r: BlendMask)
        ensures
            r.0 == 1u32 | 2u32 | 4u32,
    {
        let r = BlendMask(1u32 | 2u32 | 4u32);
        r
    }

    /// All four channels.
    pub fn rgba() -> (r: BlendMask)
        ensures
            r.0 == (1u32 | 2u32 | 4u32) | 8u32,
            r.0 == 15,
    {
        assert((1u32 | 2u32 | 4u32) | 8u32 == 15u32) by (bit_vector);
        BlendMask(15)
    }
}

/// A full blend state: operation and factors for the color and the alpha
/// channels, and the channels written.
#[derive(Debug, Clone, Copy, PartialEq, Eq, Structural)]
pub struct BlendMode {
    pub color_op: BlendOp,
    pub color_src: BlendFactor,
    pub color_dst: BlendFactor,
    pub alpha_op: BlendOp,
    pub alpha_src: BlendFactor,
    pub alpha_dst: BlendFactor,
    pub mask: BlendMask,
}

impl BlendMode {
    /// A blend state with separate color and alpha settings, writing all channels.
    pub fn new_separate(
        color_op: BlendOp,
        color_src: BlendFactor,
        color_dst: BlendFactor,
        alpha_op: BlendOp,
        alpha_src: BlendFactor,
        alpha_dst: BlendFactor,
    ) -> (r: BlendMode)
        ensures
            r == (BlendMode {
                color_op,
                color_src,
                color_dst,
                alpha_op,
                alpha_src,
                alpha_dst,
                mask: BlendMask(15),
            }),
    {
        BlendMode {
            color_op,
            color_src,
            color_dst,
            alpha_op,
            alpha_src,
            alpha_dst,
            mask: BlendMask(15),
        }
    }

    /// A blend state with the same settings for color and alpha, writing all channels.
    pub fn new(blend_op: BlendOp, src: BlendFactor, dst: BlendFactor) -> (r: BlendMode)
        ensures
            r == (BlendMode {
                color_op: blend_op,
                color_src: src,
                color_dst: dst,
                alpha_op: blend_op,
                alpha_src: src,
                alpha_dst: dst,
                mask: BlendMask(15),
            }),
    {
        BlendMode {
            color_op: blend_op,
            color_src: src,
            color_dst: dst,
            alpha_op: blend_op,
            alpha_src: src,
            alpha_dst: dst,
            mask: BlendMask(15),
        }
    }
}

/// Alpha blending: the source over the destination.
pub open spec fn normal_mode() -> BlendMode {
    BlendMode {
        color_op: BlendOp::Add,
        color_src: BlendFactor::SrcAlpha,
        color_dst: BlendFactor::OneMinusSrcAlpha,
        alpha_op: BlendOp::Add,
        alpha_src: BlendFactor::SrcAlpha,
        alpha_dst: BlendFactor::OneMinusSrcAlpha,
        mask: BlendMask(15),
    }
}

/// Alpha blending: the source over the destination.
pub fn normal() -> (r: BlendMode)
    ensures
        r == normal_mode(),
        r == (BlendMode {
            color_op: BlendOp::Add,
            color_src: BlendFactor::SrcAlpha,
            color_dst: BlendFactor::OneMinusSrcAlpha,
            alpha_op: BlendOp::Add,
            alpha_src: BlendFactor::SrcAlpha,
            alpha_dst: BlendFactor::OneMinusSrcAlpha,
            mask: BlendMask(15),
        }),
{
    BlendMode::new_separate(
        BlendOp::Add,
        BlendFactor::SrcAlpha,
        BlendFactor::OneMinusSrcAlpha,
        BlendOp::Add,
        BlendFactor::SrcAlpha,
        BlendFactor::OneMinusSrcAlpha,
    )
}

/// Additive blending: the source, scaled by its alpha, added to the destination.
pub fn additive() -> (r: BlendMode)
    ensures
        r == (BlendMode {
            color_op: BlendOp::Add,
            color_src: BlendFactor::SrcAlpha,
            color_dst: BlendFactor::One,
            alpha_op: BlendOp::Add,
            alpha_src: BlendFactor::SrcAlpha,
            alpha_dst: BlendFactor::One,
            mask: BlendMask(15),
        }),
{
    BlendMode::new_separate(
        BlendOp::Add,
        BlendFactor::SrcAlpha,
        BlendFactor::One,
        BlendOp::Add,
        BlendFactor::SrcAlpha,
        BlendFactor::One,
    )
}

/// Subtractive blending: the source color taken from the destination color;
/// the alphas are added.
pub fn substract() -> (r: BlendMode)
    ensures
        r == (BlendMode {
            color_op: BlendOp::ReverseSubtract,
            color_src: BlendFactor::One,
            color_dst: BlendFactor::One,
            alpha_op: BlendOp::Add,
            alpha_src: BlendFactor::One,
            alpha_dst: BlendFactor::One,
            mask: BlendMask(15),
        }),
{
    BlendMode::new_separate(
        BlendOp::ReverseSubtract,
        BlendFactor::One,
        BlendFactor::One,
        BlendOp::Add,
        BlendFactor::One,
        BlendFactor::One,
    )
}

} // verus!
