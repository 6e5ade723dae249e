//! `Texture`, `Sampler` and `TextureInfo`.

use vstd::prelude::*;

use crate::image::Image;
use crate::root::Index;

verus! {

/// Texel data type.
#[derive(Clone, Copy, Debug, PartialEq, Eq, Structural)]
pub enum DataType {
    U8,
    U16R5G6B5,
    U16R4G4B4A4,
    U16R5G5B5A1,
}

/// The texture format.
#[derive(Clone, Copy, Debug, PartialEq, Eq, Structural)]
pub enum Format {
    Alpha,
    Rgb,
    Rgba,
    Luminance,
    LuminanceAlpha,
}

/// Magnification filter.
#[derive(Clone, Copy, Debug, PartialEq, Eq, Structural)]
pub enum MagFilter {
    Nearest,
    Linear,
}

/// Minification filter.
#[derive(Clone, Copy, Debug, PartialEq, Eq, Structural)]
pub enum MinFilter {
    Nearest,
    Linear,
    NearestMipmapNearest,
    LinearMipmapNearest,
    NearestMipmapLinear,
    LinearMipmapLinear,
}

/// The target a texture should be bound to.
#[derive(Clone, Copy, Debug, PartialEq, Eq, Structural)]
pub enum Target {
    Texture2d,
}

/// Texture co-ordinate wrapping mode.
#[derive(Clone, Copy, Debug, PartialEq, Eq, Structural)]
pub enum WrappingMode {
    ClampToEdge,
    MirroredRepeat,
    Repeat,
}

impl Default for DataType {
    fn default() -> (r: Self)
        ensures
            r == DataType::U8,
    {
        DataType::U8
    }
}

impl Default for Format {
    fn default() -> (r: Self)
        ensures
            r == Format::Rgba,
    {
        Format::Rgba
    }
}

impl Default for MagFilter {
    fn default() -> (r: Self)
        ensures
            r == MagFilter::Linear,
    {
        MagFilter::Linear
    }
}

impl Default for MinFilter {
    fn default() -> (r: Self)
        ensures
            r == MinFilter::NearestMipmapLinear,
    {
        MinFilter::NearestMipmapLinear
    }
}

impl Default for Target {
    fn default() -> (r: Self)
        ensures
            r == Target::Texture2d,
    {
        Target::Texture2d
    }
}

impl Default for WrappingMode {
    fn default() -> (r: Self)
        ensures
            r == WrappingMode::Repeat,
    {
        WrappingMode::Repeat
    }
}

/// Extension specific data for `Sampler`.
#[derive(Clone, Debug, Default, PartialEq, Eq, Structural)]
pub struct SamplerExtensions {

}

/// Texture sampler properties for filtering and wrapping modes.
#[derive(Clone, Debug)]
pub struct Sampler {
    /// Magnification filter.
    pub mag_filter: MagFilter,
    /// Minification filter.
    pub min_filter: MinFilter,
    /// Optional user-defined name for this object.
    pub name: Option<String>,
    /// `s` wrapping mode.
    pub wrap_s: WrappingMode,
    /// `t` wrapping mode.
    pub wrap_t: WrappingMode,
    /// Extension specific data.
    pub extensions: SamplerExtensions,
}

/// Extension specific data for `Texture`.
#[derive(Clone, Debug, Default, PartialEq, Eq, Structural)]
pub struct TextureExtensions {

}

/// A texture: an image plus the sampler that filters it.
#[derive(Clone, Debug)]
pub struct Texture {
    /// Texel data type.
    pub data_type: DataType,
    /// Optional user-defined name for this object.
    pub name: Option<String>,
    /// The texture format.
    pub format: Format,
    /// The texture internal format.
    pub internal_format: Format,
    /// The index of the sampler used by this texture.
    pub sampler: Index<Sampler>,
    /// The index of the image used by this texture.
    pub source: Index<Image>,
    /// The target the texture should be bound to.
    pub target: Target,
    /// Extension specific data.
    pub extensions: TextureExtensions,
}

/// Extension specific data for `TextureInfo`.
#[derive(Clone, Debug, Default, PartialEq, Eq, Structural)]
pub struct TextureInfoExtensions {

}

/// Reference to a `Texture`.
///
/// Parent structures are expected to include validation for `index` in their
/// own validation pass.
#[derive(Clone, Debug)]
pub struct TextureInfo {
    /// The index of the texture.
    pub index: Index<Texture>,
    /// The set index of the texture's texture co-ordinate attribute.
    pub tex_coord: u32,
    /// Extension specific data.
    pub extensions: TextureInfoExtensions,
}

} // verus!
