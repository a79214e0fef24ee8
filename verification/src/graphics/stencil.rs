//! Stencil settings of a draw batch.
use vstd::prelude::*;

verus! {

/// A stencil configuration: the reference value, the OpenGL comparison and
/// update operation, and whether color and stencil are written.
#[derive(Clone, Copy, PartialEq, Eq, Debug, Structural)]
pub struct Stencil {
    /// Reference value of the comparison; not what is written to the buffer.
    pub stencil_val: u32,
    /// Comparison against the buffer (`glStencilFunc`).
    pub stencil_func: u32,
    /// Update of the buffer where the test passes (`glStencilOp`).
    pub stencil_op: u32,
    /// Whether the color buffer is written (`glColorMask`).
    pub color_mask: u8,
    /// Which stencil bits are written (`glStencilMask`).
    pub stencil_mask: u8,
}

/// OpenGL comparison `GL_EQUAL`.
pub const GL_EQUAL: u32 = 0x0202;
/// OpenGL comparison `GL_LEQUAL`.
pub const GL_LEQUAL: u32 = 0x0203;
/// OpenGL comparison `GL_ALWAYS`.
pub const GL_ALWAYS: u32 = 0x0207;
/// OpenGL stencil operation `GL_KEEP`.
pub const GL_KEEP: u32 = 0x1E00;
/// OpenGL stencil operation `GL_REPLACE`.
pub const GL_REPLACE: u32 = 0x1E01;
/// OpenGL stencil operation `GL_INCR`.
pub const GL_INCR: u32 = 0x1E02;
/// OpenGL stencil operation `GL_DECR`.
pub const GL_DECR: u32 = 0x1E03;
/// OpenGL `GL_TRUE`.
pub const GL_TRUE: u8 = 1;
/// OpenGL `GL_FALSE`.
pub const GL_FALSE: u8 = 0;

impl Stencil {
    /// No stencil test.
    pub fn disable() -> (r: Option<Stencil>)
        ensures
            r is None,
    {
        None
    }

    /// Draws color only where `val` is at most the stencil value; the
    /// stencil is left alone.
    pub fn mask_leq(val: u32) -> (r: Option<Stencil>)
        ensures
            r == Some(
                Stencil {
                    stencil_val: val,
                    stencil_func: GL_LEQUAL,
                    stencil_op: GL_KEEP,
                    color_mask: GL_TRUE,
                    stencil_mask: 0x00,
                },
            ),
    {
        Some(
            Stencil {
                stencil_val: val,
                stencil_func: GL_LEQUAL,
                stencil_op: GL_KEEP,
                color_mask: GL_TRUE,
                stencil_mask: 0x00,
            },
        )
    }

    /// Draws color only where the stencil value equals `val`; the stencil
    /// is left alone.
    pub fn mask_eq(val: u32) -> (r: Option<Stencil>)
        ensures
            r == Some(
                Stencil {
                    stencil_val: val,
                    stencil_func: GL_EQUAL,
                    stencil_op: GL_KEEP,
                    color_mask: GL_TRUE,
                    stencil_mask: 0x00,
                },
            ),
    {
        Some(
            Stencil {
                stencil_val: val,
                stencil_func: GL_EQUAL,
                stencil_op: GL_KEEP,
                color_mask: GL_TRUE,
                stencil_mask: 0x00,
            },
        )
    }

    /// Decrements the stencil everywhere drawn, writing no color.
    pub fn decr() -> (r: Option<Stencil>)
        ensures
            r == Some(
                Stencil {
                    stencil_val: 0,
                    stencil_func: GL_ALWAYS,
                    stencil_op: GL_DECR,
                    color_mask: GL_FALSE,
                    stencil_mask: 0xFF,
                },
            ),
    {
        Some(
            Stencil {
                stencil_val: 0,
                stencil_func: GL_ALWAYS,
                stencil_op: GL_DECR,
                color_mask: GL_FALSE,
                stencil_mask: 0xFF,
            },
        )
    }

    /// Increments the stencil everywhere drawn, writing no color.
    pub fn increment() -> (r: Option<Stencil>)
        ensures
            r == Some(
                Stencil {
                    stencil_val: 0,
                    stencil_func: GL_ALWAYS,
                    stencil_op: GL_INCR,
                    color_mask: GL_FALSE,
                    stencil_mask: 0xFF,
                },
            ),
    {
        Some(
            Stencil {
                stencil_val: 0,
                stencil_func: GL_ALWAYS,
                stencil_op: GL_INCR,
                color_mask: GL_FALSE,
                stencil_mask: 0xFF,
            },
        )
    }

    /// Writes `val` into the stencil everywhere drawn, writing no color.
    pub fn write(val: u32) -> (r: Option<Stencil>)
        ensures
            r == Some(
                Stencil {
                    stencil_val: val,
                    stencil_func: GL_ALWAYS,
                    stencil_op: GL_REPLACE,
                    color_mask: GL_FALSE,
                    stencil_mask: 0xFF,
                },
            ),
    {
        Some(
            Stencil {
                stencil_val: val,
                stencil_func: GL_ALWAYS,
                stencil_op: GL_REPLACE,
                color_mask: GL_FALSE,
                stencil_mask: 0xFF,
            },
        )
    }

    /// Writes `val` into the stencil and the color everywhere drawn.
    pub fn write_color(val: u32) -> (r: Option<Stencil>)
        ensures
            r == Some(
                Stencil {
                    stencil_val: val,
                    stencil_func: GL_ALWAYS,
                    stencil_op: GL_REPLACE,
                    color_mask: GL_TRUE,
                    stencil_mask: 0xFF,
                },
            ),
    {
        Some(
            Stencil {
                stencil_val: val,
                stencil_func: GL_ALWAYS,
                stencil_op: GL_REPLACE,
                color_mask: GL_TRUE,
                stencil_mask: 0xFF,
            },
        )
    }
}

} // verus!
