//! Render targets: framebuffers and the textures they draw into.
use std::rc::Rc;
use vstd::prelude::*;
use crate::graphics::share;
use crate::graphics::texture::{Texture, TextureFormat};

verus! {

/// A framebuffer (`id` 0 is the screen) of a size, with the textures it
/// draws into.  Textures are shared with the materials that sample them.
#[derive(Debug)]
pub struct Target {
    pub id: u32,
    pub width: i32,
    pub height: i32,
    pub attachments: Vec<Rc<Texture>>,
}

/// Whether a texture of this format is a color attachment.
pub open spec fn is_color(t: Texture) -> bool {
    t.format != TextureFormat::DepthStencil
}

/// OpenGL attachment point `GL_COLOR_ATTACHMENT0`; color attachment `i` is
/// bound at this plus `i`.
pub const GL_COLOR_ATTACHMENT0: u32 = 0x8CE0;
/// OpenGL attachment point `GL_DEPTH_STENCIL_ATTACHMENT`.
pub const GL_DEPTH_STENCIL_ATTACHMENT: u32 = 0x821A;

/// Where attachment `i` of format `f` is bound in a framebuffer.
pub open spec fn attachment_point(i: int, f: TextureFormat) -> int {
    if f == TextureFormat::DepthStencil {
        GL_DEPTH_STENCIL_ATTACHMENT as int
    } else {
        GL_COLOR_ATTACHMENT0 + i
    }
}

impl Target {
    /// A target with no framebuffer and no size.
    pub fn empty() -> (r: Target)
        ensures
            r.id == 0,
            r.width == 0,
            r.height == 0,
            r.attachments@.len() == 0,
    {
        Target { id: 0, width: 0, height: 0, attachments: Vec::new() }
    }

    /// The screen (framebuffer 0) of size `w` × `h`.
    pub fn screen(w: i32, h: i32) -> (r: Target)
        ensures
            r.id == 0,
            r.width == w,
            r.height == h,
            r.attachments@.len() == 0,
    {
        Target { id: 0, width: w, height: h, attachments: Vec::new() }
    }

    /// The first color attachment.  The target must have one.
    pub fn color(&self) -> (r: Rc<Texture>)
        requires
            exists|i: int| 0 <= i < self.attachments@.len() && is_color(*#[trigger] self.attachments@[i]),
        ensures
            exists|i: int|
                0 <= i < self.attachments@.len() && is_color(*self.attachments@[i]) && *r
                    == *self.attachments@[i] && forall|j: int|
                    0 <= j < i ==> !is_color(*#[trigger] self.attachments@[j]),
    {
        let mut k: usize = 0;
        while k < self.attachments.len()
            invariant
                k <= self.attachments@.len(),
                forall|j: int| 0 <= j < k ==> !is_color(*#[trigger] self.attachments@[j]),
                exists|i: int| 0 <= i < self.attachments@.len() && is_color(*#[trigger] self.attachments@[i]),
            decreases self.attachments@.len() - k,
        {
            if self.attachments[k].format != TextureFormat::DepthStencil {
                return share(&self.attachments[k]);
            }
            k = k + 1;
        }
        proof {
            let i = choose|i: int| 0 <= i < self.attachments@.len() && is_color(*#[trigger] self.attachments@[i]);
            assert(!is_color(*self.attachments@[i]));
        }
        share(&self.attachments[0])
    }

    /// The attachment point of each attachment of a new framebuffer, in
    /// order: color attachments at `GL_COLOR_ATTACHMENT0` plus their index,
    /// the depth-stencil attachment at `GL_DEPTH_STENCIL_ATTACHMENT`.
    pub fn attachment_points(formats: &[TextureFormat]) -> (r: Vec<u32>)
        requires
            formats@.len() + GL_COLOR_ATTACHMENT0 <= u32::MAX + 1,
        ensures
            r@.len() == formats@.len(),
            forall|i: int| 0 <= i < r@.len() ==> r@[i] == attachment_point(i, #[trigger] formats@[i]),
    {
        let mut r: Vec<u32> = Vec::new();
        let mut i: usize = 0;
        while i < formats.len()
            invariant
                i <= formats@.len(),
                formats@.len() + GL_COLOR_ATTACHMENT0 <= u32::MAX + 1,
                r@.len() == i,
                forall|j: int| 0 <= j < i ==> r@[j] == attachment_point(j, #[trigger] formats@[j]),
            decreases formats@.len() - i,
        {
            if formats[i] == TextureFormat::DepthStencil {
                r.push(GL_DEPTH_STENCIL_ATTACHMENT);
            } else {
                r.push(GL_COLOR_ATTACHMENT0 + i as u32);
            }
            i = i + 1;
        }
        r
    }
}

} // verus!
