//! Textures as the renderer tracks them, their samplers and formats, and the
//! OpenGL parameters they are created and sampled with.
use vstd::prelude::*;

verus! {

/// Pixel layout of a texture.
#[derive(Copy, Clone, Debug, PartialEq, Eq, Hash, Structural)]
pub enum TextureFormat {
    /// No pixel storage.
    NoFormat,
    R,
    RG,
    RGBA,
    DepthStencil,
}

/// A texture on the GPU: its OpenGL name, size and format.
#[derive(Clone, Copy, PartialEq, Eq, Debug, Hash, Structural)]
pub struct Texture {
    pub id: u32,
    pub width: i32,
    pub height: i32,
    pub format: TextureFormat,
}

/// The OpenGL formats a texture of a format is created with:
/// internal format, pixel format and pixel type (`glTexImage2D`).
pub open spec fn gl_formats(format: TextureFormat) -> (u32, u32, u32) {
    match format {
        TextureFormat::R => (0x1903, 0x1903, 0x1401),
        TextureFormat::RG => (0x8227, 0x8227, 0x1401),
        TextureFormat::RGBA => (0x1908, 0x1908, 0x1401),
        TextureFormat::DepthStencil => (0x88F0, 0x84F9, 0x84F9),
        TextureFormat::NoFormat => (0, 0, 0),
    }
}

impl Texture {
    /// The placeholder texture: name 99, empty, of no format.
    pub open spec fn placeholder() -> Texture {
        Texture { id: 99, width: 0, height: 0, format: TextureFormat::NoFormat }
    }

    /// The placeholder texture a material holds in a slot nobody has set.
    pub fn default() -> (r: Texture)
        ensures
            r == Texture::placeholder(),
            r.id == 99,
            r.width == 0,
            r.height == 0,
            r.format == TextureFormat::NoFormat,
    {
        Texture { id: 99, width: 0, height: 0, format: TextureFormat::NoFormat }
    }

    /// The OpenGL internal format, pixel format and pixel type of a new
    /// texture of `format`.  There is no texture of format `None`.
    pub fn gl_formats(format: TextureFormat) -> (r: (u32, u32, u32))
        requires
            format != TextureFormat::NoFormat,
        ensures
            r == gl_formats(format),
    {
        match format {
            TextureFormat::R => (0x1903, 0x1903, 0x1401),
            TextureFormat::RG => (0x8227, 0x8227, 0x1401),
            TextureFormat::RGBA => (0x1908, 0x1908, 0x1401),
            TextureFormat::DepthStencil => (0x88F0, 0x84F9, 0x84F9),
            TextureFormat::NoFormat => (0, 0, 0),
        }
    }

    /// Loading an image into an existing texture: nothing is done yet.
    #[allow(non_snake_case)]
    pub fn loadImage(&self, path: &str) {
    }
}

/// How texels are filtered.
#[derive(Clone, Copy, Debug, PartialEq, Eq, Structural)]
pub enum TextureFilter {
    /// No filter (`GL_NONE`).
    NoFilter,
    Linear,
    Nearest,
}

impl TextureFilter {
    /// The OpenGL enum of the filter (`GL_TEXTURE_MIN_FILTER` / `MAG_FILTER`).
    pub open spec fn gl_enum(self) -> u32 {
        match self {
            TextureFilter::NoFilter => 0,
            TextureFilter::Linear => 0x2601,
            TextureFilter::Nearest => 0x2600,
        }
    }

    /// The name of the filter, as it is printed.
    pub open spec fn name(self) -> Seq<char> {
        match self {
            TextureFilter::NoFilter => "None"@,
            TextureFilter::Linear => "Linear"@,
            TextureFilter::Nearest => "Nearest"@,
        }
    }

    /// The OpenGL enum of the filter.
    pub fn to_gl_enum(&self) -> (r: u32)
        ensures
            r == self.gl_enum(),
    {
        match self {
            TextureFilter::NoFilter => 0,
            TextureFilter::Linear => 0x2601,
            TextureFilter::Nearest => 0x2600,
        }
    }

    /// The name of the filter, as it is printed.
    pub fn to_string(&self) -> (r: String)
        ensures
            r@ == self.name(),
    {
        match self {
            TextureFilter::NoFilter => String::from_str("None"),
            TextureFilter::Linear => String::from_str("Linear"),
            TextureFilter::Nearest => String::from_str("Nearest"),
        }
    }
}

/// What is sampled outside the texture.
#[derive(Debug, Clone, Copy, PartialEq, Eq, Structural)]
pub enum TextureWrap {
    Border,
    Clamp,
    Repeat,
}

impl TextureWrap {
    /// The OpenGL enum of the wrap mode (`GL_TEXTURE_WRAP_S` / `_T`).
    pub open spec fn gl_enum(self) -> u32 {
        match self {
            TextureWrap::Border => 0x812D,
            TextureWrap::Clamp => 0x812F,
            TextureWrap::Repeat => 0x2901,
        }
    }

    /// The OpenGL enum of the wrap mode.
    pub fn to_gl_enum(&self) -> (r: u32)
        ensures
            r == self.gl_enum(),
    {
        match self {
            TextureWrap::Border => 0x812D,
            TextureWrap::Clamp => 0x812F,
            TextureWrap::Repeat => 0x2901,
        }
    }
}

/// Filter and wrap modes of a texture slot.
#[derive(Debug, Clone, Copy, PartialEq, Eq, Structural)]
pub struct TextureSampler {
    pub filter: TextureFilter,
    pub wrap_x: TextureWrap,
    pub wrap_y: TextureWrap,
}

impl TextureSampler {
    /// Linear filtering, clamped to the border on both axes.
    pub open spec fn standard() -> TextureSampler {
        TextureSampler {
            filter: TextureFilter::Linear,
            wrap_x: TextureWrap::Border,
            wrap_y: TextureWrap::Border,
        }
    }

    /// Linear filtering, clamped to the border on both axes.
    pub fn default() -> (r: TextureSampler)
        ensures
            r == TextureSampler::standard(),
    {
        TextureSampler {
            filter: TextureFilter::Linear,
            wrap_x: TextureWrap::Border,
            wrap_y: TextureWrap::Border,
        }
    }

    /// The OpenGL values a texture is sampled with: the filter (for both
    /// minification and magnification) and the wrap modes along S and T.
    pub fn gl_parameters(&self) -> (r: (u32, u32, u32))
        ensures
            r == (self.filter.gl_enum(), self.wrap_x.gl_enum(), self.wrap_y.gl_enum()),
    {
        (self.filter.to_gl_enum(), self.wrap_x.to_gl_enum(), self.wrap_y.to_gl_enum())
    }
}

} // verus!
