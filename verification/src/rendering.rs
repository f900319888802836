//! Choices that a host makes when it draws what the envelopes drive.

use vstd::prelude::*;

verus! {

/// How a model is lit.
#[derive(Debug, Clone, Copy, PartialEq, Eq, Structural)]
pub enum RenderingMode {
    Phong,
    PhongWithNormalMaps,
    PhysicalBasedRendering,
}

impl Default for RenderingMode {
    fn default() -> (r: RenderingMode)
        ensures
            r == RenderingMode::PhysicalBasedRendering,
    {
        RenderingMode::PhysicalBasedRendering
    }
}

impl RenderingMode {
    /// Whether the mode reads normal maps: every mode but plain Phong does.
    pub fn uses_normal_maps(&self) -> (r: bool)
        ensures
            r == (*self != RenderingMode::Phong),
    {
        match self {
            RenderingMode::PhongWithNormalMaps | RenderingMode::PhysicalBasedRendering => true,
            _ => false,
        }
    }
}

/// How a layer's colors are laid over what is below it.
#[derive(Debug, Clone, Copy, PartialEq, Eq, Structural)]
pub enum BlendMode {
    Replace,
    Alpha,
    Screen,
}

impl Default for BlendMode {
    fn default() -> (r: BlendMode)
        ensures
            r == BlendMode::Replace,
    {
        BlendMode::Replace
    }
}

/// How a texture of a model is read, and what stands in for it where the
/// model has none.
#[derive(Debug, Clone, Copy, PartialEq, Eq)]
pub struct TextureSpec {
    /// Whether the texture holds data in linear colors, as a normal map does,
    /// and not colors in sRGB.
    pub linear_colors: bool,
    /// The pixel of the texture that stands in for a missing one.
    pub default_data: [u8; 4],
}

impl TextureSpec {
    /// The base color: sRGB, white where missing.
    pub fn base_color() -> (r: TextureSpec)
        ensures
            !r.linear_colors,
            r.default_data@ == seq![0xffu8, 0xffu8, 0xffu8, 0xffu8],
    {
        TextureSpec { linear_colors: false, default_data: [0xff, 0xff, 0xff, 0xff] }
    }

    /// The normal map: linear, pointing straight up where missing.
    pub fn normal_map() -> (r: TextureSpec)
        ensures
            r.linear_colors,
            r.default_data@ == seq![0x00u8, 0x00u8, 0xffu8, 0x00u8],
    {
        TextureSpec { linear_colors: true, default_data: [0x00, 0x00, 0xff, 0x00] }
    }

    /// The emissive texture: sRGB, black where missing.
    pub fn emissive_texture() -> (r: TextureSpec)
        ensures
            !r.linear_colors,
            r.default_data@ == seq![0x00u8, 0x00u8, 0x00u8, 0x00u8],
    {
        TextureSpec { linear_colors: false, default_data: [0x00, 0x00, 0x00, 0x00] }
    }
}

} // verus!
