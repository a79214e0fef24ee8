//! The integer side of the renderer: blend, stencil and sampler state,
//! texture and render-target records, shader uniforms and materials.
use std::rc::Rc;
use vstd::prelude::*;

pub mod batch;
pub mod blend;
pub mod material;
pub mod shader;
pub mod stencil;
pub mod target;
pub mod texture;

verus! {

/// Calls `Rc::clone`: a new pointer to the same value, so the value behind
/// it is the same.
#[verifier::external_body]
pub(crate) fn share<T>(t: &Rc<T>) -> (r: Rc<T>)
    ensures
        *r == **t,
{
    Rc::clone(t)
}

/// An opaque 8-bit color.
#[derive(Clone, Copy, Debug, PartialEq, Eq, Structural)]
pub struct Color {
    pub r: u8,
    pub g: u8,
    pub b: u8,
}

/// Size of the window the engine opens.
pub struct Config {
    pub window_width: u32,
    pub window_height: u32,
}

} // verus!
