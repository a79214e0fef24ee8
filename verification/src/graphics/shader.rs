//! Shader programs and the uniforms they expose.
use vstd::prelude::*;

verus! {

/// Which stage a uniform belongs to.
#[derive(PartialEq, Eq, Clone, Copy, Debug, Structural)]
pub enum ShaderType {
    NONE,
    VERTEX,
    FRAGMENT,
}

/// The type of a uniform.
#[derive(PartialEq, Eq, Clone, Copy, Debug, Structural)]
pub enum UniformType {
    NONE,
    FLOAT,
    FLOAT2,
    FLOAT3,
    FLOAT4,
    Texture2D,
}

/// An active uniform of a linked program: its name, location and type.
#[derive(PartialEq, Clone, Debug)]
pub struct Uniform {
    pub name: String,
    pub location: i32,
    pub uniform_type: UniformType,
    pub shader_type: ShaderType,
}

/// A linked shader program and its active uniforms.
#[derive(PartialEq, Clone, Debug)]
pub struct Shader {
    pub program: u32,
    pub uniforms: Vec<Uniform>,
}

} // verus!
