//! The packed render state of a batch: six small enumerations, each in a
//! field of five bits.

use vstd::prelude::*;
use crate::error::Warning;
use crate::scene::{AlphaMode, Material, MaterialView, WrappingMode};

verus! {

/// Where the color of a batch comes from.
#[derive(Debug, Clone, Copy, PartialEq, Eq, Structural)]
pub enum TextureSource {
    Disabled,
    Wrap,
    Clamp,
    ClampNoFiltering,
}

/// How the texture color is combined with the current color.
#[derive(Debug, Clone, Copy, PartialEq, Eq, Structural)]
pub enum ColorOp {
    SelectArg0IgnoreCurrentColor,
    SelectArg0,
    Mul,
    Add,
    Mul2x,
}

/// How the texture alpha is combined with the current alpha.
#[derive(Debug, Clone, Copy, PartialEq, Eq, Structural)]
pub enum AlphaOp {
    SelArg2,
    SelArg1,
    SelArg1IgnoreCurrentColor,
    Mul,
}

/// How a batch is blended with what lies behind it.
#[derive(Debug, Clone, Copy, PartialEq, Eq, Structural)]
pub enum AlphaBlend {
    Disabled,
    AlphaAdditive,
    SrcAlpha2,
    AlphaBlendAlpha,
    SrcAlpha4,
    DestColor,
    InvDestColor,
    SwappedSrcDestColor,
}

/// How a batch uses the depth buffer.
#[derive(Debug, Clone, Copy, PartialEq, Eq, Structural)]
pub enum ZbufferType {
    Disabled,
    Read,
    ReadEqFunc,
    Write,
    Full,
    FullAlphaTest,
}

/// How fog is applied to a batch.
#[derive(Debug, Clone, Copy, PartialEq, Eq, Structural)]
pub enum FogType {
    Type0,
    Type1,
    Type2,
    ForceOff,
}

impl TextureSource {
    /// The number that stands for the variant in a file.
    pub open spec fn code(self) -> u32 {
        match self {
            TextureSource::Disabled => 0,
            TextureSource::Wrap => 1,
            TextureSource::Clamp => 2,
            TextureSource::ClampNoFiltering => 3,
        }
    }

    /// Computes [`TextureSource::code`].
    pub fn value(&self) -> (c: u32)
        ensures
            c == self.code(),
    {
        match self {
            TextureSource::Disabled => 0,
            TextureSource::Wrap => 1,
            TextureSource::Clamp => 2,
            TextureSource::ClampNoFiltering => 3,
        }
    }
}

impl ColorOp {
    /// The number that stands for the variant in a file.
    pub open spec fn code(self) -> u32 {
        match self {
            ColorOp::SelectArg0IgnoreCurrentColor => 0,
            ColorOp::SelectArg0 => 1,
            ColorOp::Mul => 2,
            ColorOp::Add => 3,
            ColorOp::Mul2x => 4,
        }
    }

    /// Computes [`ColorOp::code`].
    pub fn value(&self) -> (c: u32)
        ensures
            c == self.code(),
    {
        match self {
            ColorOp::SelectArg0IgnoreCurrentColor => 0,
            ColorOp::SelectArg0 => 1,
            ColorOp::Mul => 2,
            ColorOp::Add => 3,
            ColorOp::Mul2x => 4,
        }
    }
}

impl AlphaOp {
    /// The number that stands for the variant in a file.
    pub open spec fn code(self) -> u32 {
        match self {
            AlphaOp::SelArg2 => 0,
            AlphaOp::SelArg1 => 1,
            AlphaOp::SelArg1IgnoreCurrentColor => 2,
            AlphaOp::Mul => 3,
        }
    }

    /// Computes [`AlphaOp::code`].
    pub fn value(&self) -> (c: u32)
        ensures
            c == self.code(),
    {
        match self {
            AlphaOp::SelArg2 => 0,
            AlphaOp::SelArg1 => 1,
            AlphaOp::SelArg1IgnoreCurrentColor => 2,
            AlphaOp::Mul => 3,
        }
    }
}

impl AlphaBlend {
    /// The number that stands for the variant in a file.
    pub open spec fn code(self) -> u32 {
        match self {
            AlphaBlend::Disabled => 0,
            AlphaBlend::AlphaAdditive => 1,
            AlphaBlend::SrcAlpha2 => 2,
            AlphaBlend::AlphaBlendAlpha => 3,
            AlphaBlend::SrcAlpha4 => 4,
            AlphaBlend::DestColor => 5,
            AlphaBlend::InvDestColor => 6,
            AlphaBlend::SwappedSrcDestColor => 7,
        }
    }

    /// Computes [`AlphaBlend::code`].
    pub fn value(&self) -> (c: u32)
        ensures
            c == self.code(),
    {
        match self {
            AlphaBlend::Disabled => 0,
            AlphaBlend::AlphaAdditive => 1,
            AlphaBlend::SrcAlpha2 => 2,
            AlphaBlend::AlphaBlendAlpha => 3,
            AlphaBlend::SrcAlpha4 => 4,
            AlphaBlend::DestColor => 5,
            AlphaBlend::InvDestColor => 6,
            AlphaBlend::SwappedSrcDestColor => 7,
        }
    }
}

impl ZbufferType {
    /// The number that stands for the variant in a file.
    pub open spec fn code(self) -> u32 {
        match self {
            ZbufferType::Disabled => 0,
            ZbufferType::Read => 1,
            ZbufferType::ReadEqFunc => 2,
            ZbufferType::Write => 3,
            ZbufferType::Full => 4,
            ZbufferType::FullAlphaTest => 5,
        }
    }

    /// Computes [`ZbufferType::code`].
    pub fn value(&self) -> (c: u32)
        ensures
            c == self.code(),
    {
        match self {
            ZbufferType::Disabled => 0,
            ZbufferType::Read => 1,
            ZbufferType::ReadEqFunc => 2,
            ZbufferType::Write => 3,
            ZbufferType::Full => 4,
            ZbufferType::FullAlphaTest => 5,
        }
    }
}

impl FogType {
    /// The number that stands for the variant in a file.
    pub open spec fn code(self) -> u32 {
        match self {
            FogType::Type0 => 0,
            FogType::Type1 => 1,
            FogType::Type2 => 2,
            FogType::ForceOff => 3,
        }
    }

    /// Computes [`FogType::code`].
    pub fn value(&self) -> (c: u32)
        ensures
            c == self.code(),
    {
        match self {
            FogType::Type0 => 0,
            FogType::Type1 => 1,
            FogType::Type2 => 2,
            FogType::ForceOff => 3,
        }
    }
}

/// The six settings that a batch is drawn with.
#[derive(Debug, Clone, Copy, PartialEq, Eq, Structural)]
pub struct RenderState {
    pub texture_source: TextureSource,
    pub color_op: ColorOp,
    pub alpha_op: AlphaOp,
    pub alpha_blend: AlphaBlend,
    pub zbuffer_type: ZbufferType,
    pub fog: FogType,
}

/// Six codes in one word, five bits apart, the first in the lowest bits.
pub open spec fn pack_codes(
    texture_source: u32,
    color_op: u32,
    alpha_op: u32,
    alpha_blend: u32,
    zbuffer_type: u32,
    fog: u32,
) -> u32 {
    texture_source | (color_op << 5) | (alpha_op << 10) | (alpha_blend << 15) | (zbuffer_type
        << 20) | (fog << 25)
}

impl RenderState {
    /// The word that holds the state in a file.
    pub open spec fn packed(self) -> u32 {
        pack_codes(
            self.texture_source.code(),
            self.color_op.code(),
            self.alpha_op.code(),
            self.alpha_blend.code(),
            self.zbuffer_type.code(),
            self.fog.code(),
        )
    }

    /// Computes [`RenderState::packed`].
    pub fn pack(&self) -> (word: u32)
        ensures
            word == self.packed(),
    {
        let texture_source = self.texture_source.value();
        let color_op = self.color_op.value();
        let alpha_op = self.alpha_op.value();
        let alpha_blend = self.alpha_blend.value();
        let zbuffer_type = self.zbuffer_type.value();
        let fog = self.fog.value();
        texture_source | (color_op << 5) | (alpha_op << 10) | (alpha_blend << 15) | (zbuffer_type
            << 20) | (fog << 25)
    }
}

/// The texture source that a material asks for: without a base-color
/// texture it wraps; with one it follows the wrapping along S, where only
/// clamping to the edge clamps and every other mode wraps.
pub open spec fn texture_source(m: MaterialView) -> TextureSource {
    match m.base_color_texture {
        Some(texture) => if texture.wrap_s == WrappingMode::ClampToEdge {
            TextureSource::Clamp
        } else {
            TextureSource::Wrap
        },
        None => TextureSource::Wrap,
    }
}

/// The render state of a material. The color and alpha operations always
/// multiply and the fog type is always the first; blending and the use of
/// the depth buffer follow the alpha mode.
pub open spec fn render_state(m: MaterialView) -> RenderState {
    RenderState {
        texture_source: texture_source(m),
        color_op: ColorOp::Mul,
        alpha_op: AlphaOp::Mul,
        alpha_blend: if m.alpha_mode == AlphaMode::Blend {
            AlphaBlend::AlphaBlendAlpha
        } else {
            AlphaBlend::Disabled
        },
        zbuffer_type: if m.alpha_mode == AlphaMode::Opaque {
            ZbufferType::Full
        } else {
            ZbufferType::FullAlphaTest
        },
        fog: FogType::Type0,
    }
}

/// The diagnostics that go with [`render_state`], in this order: one if the
/// sampler wraps differently along S and T, one if it mirrors along S.
pub open spec fn render_state_warnings(m: MaterialView) -> Seq<Warning> {
    match m.base_color_texture {
        Some(texture) => {
            let mismatch = if texture.wrap_t != texture.wrap_s {
                seq![Warning::WrapModeMismatch]
            } else {
                Seq::empty()
            };
            let mirrored = if texture.wrap_s == WrappingMode::MirroredRepeat {
                seq![Warning::MirroredRepeatUnsupported]
            } else {
                Seq::empty()
            };
            mismatch + mirrored
        },
        None => Seq::empty(),
    }
}

/// Decides how a material is drawn.
pub fn material_render_state(material: &Material) -> (state: RenderState)
    ensures
        state == render_state(material@),
{
    let mut tex_src = TextureSource::Wrap;
    if let Some(texture) = &material.base_color_texture {
        tex_src =
        match texture.wrap_s {
            WrappingMode::ClampToEdge => TextureSource::Clamp,
            _ => TextureSource::Wrap,
        };
    }
    let alpha_blend = match material.alpha_mode {
        AlphaMode::Blend => AlphaBlend::AlphaBlendAlpha,
        _ => AlphaBlend::Disabled,
    };
    let zbuffer_type = match material.alpha_mode {
        AlphaMode::Opaque => ZbufferType::Full,
        _ => ZbufferType::FullAlphaTest,
    };
    RenderState {
        texture_source: tex_src,
        color_op: ColorOp::Mul,
        alpha_op: AlphaOp::Mul,
        alpha_blend,
        zbuffer_type,
        fog: FogType::Type0,
    }
}

/// Computes the packed render state of a material, together with the
/// diagnostics on what the format cannot express of its sampler.
pub fn compute_render_state_for_material(material: &Material) -> (r: (u32, Vec<Warning>))
    ensures
        r.0 == render_state(material@).packed(),
        r.1@ == render_state_warnings(material@),
{
    let mut warnings: Vec<Warning> = Vec::new();
    if let Some(texture) = &material.base_color_texture {
        if texture.wrap_t != texture.wrap_s {
            warnings.push(Warning::WrapModeMismatch);
        }
        if texture.wrap_s == WrappingMode::MirroredRepeat {
            warnings.push(Warning::MirroredRepeatUnsupported);
        }
    }
    let state = material_render_state(material);
    (state.pack(), warnings)
}

/// Each setting can be read back from the packed word: the fields do not overlap.
pub proof fn lemma_packed_fields(state: RenderState)
    ensures
        state.packed() & 31 == state.texture_source.code(),
        (state.packed() >> 5) & 31 == state.color_op.code(),
        (state.packed() >> 10) & 31 == state.alpha_op.code(),
        (state.packed() >> 15) & 31 == state.alpha_blend.code(),
        (state.packed() >> 20) & 31 == state.zbuffer_type.code(),
        (state.packed() >> 25) & 31 == state.fog.code(),
{
    let a = state.texture_source.code();
    let b = state.color_op.code();
    let c = state.alpha_op.code();
    let d = state.alpha_blend.code();
    let e = state.zbuffer_type.code();
    let f = state.fog.code();
    assert(a < 32 && b < 32 && c < 32 && d < 32 && e < 32 && f < 32);
    let w = pack_codes(a, b, c, d, e, f);
    assert(w & 31 == a && (w >> 5) & 31 == b && (w >> 10) & 31 == c && (w >> 15) & 31 == d && (w
        >> 20) & 31 == e && (w >> 25) & 31 == f) by (bit_vector)
        requires
            a < 32 && b < 32 && c < 32 && d < 32 && e < 32 && f < 32,
            w == a | (b << 5) | (c << 10) | (d << 15) | (e << 20) | (f << 25),
    ;
}

} // verus!
