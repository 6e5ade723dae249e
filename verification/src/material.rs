//! `Material` and its texture references.

use vstd::prelude::*;

use crate::root::Index;
use crate::texture::{Texture, TextureInfo};

verus! {

/// The alpha rendering mode of a material.
#[derive(Clone, Copy, Debug, PartialEq, Eq, Structural)]
pub enum AlphaMode {
    Opaque,
    Mask,
    Blend,
}

/// Metallic-roughness parameters of a material.
///
/// The factor fields are IEEE 754 quantities carried as 32-bit bit patterns.
#[derive(Clone, Debug)]
pub struct PbrMetallicRoughness {
    /// The base color factor, RGBA (bit patterns).
    pub base_color_factor: [u32; 4],
    /// The base color texture.
    pub base_color_texture: Option<TextureInfo>,
    /// The metalness of the material (bit pattern).
    pub metallic_factor: u32,
    /// The roughness of the material (bit pattern).
    pub roughness_factor: u32,
    /// The metallic-roughness texture.
    pub metallic_roughness_texture: Option<TextureInfo>,
}

/// Defines the normal texture of a material.
#[derive(Clone, Debug)]
pub struct NormalTexture {
    /// The index of the texture.
    pub index: Index<Texture>,
    /// The scalar multiplier applied to each normal vector (bit pattern).
    pub scale: u32,
    /// The set index of the texture's texture co-ordinate attribute.
    pub tex_coord: u32,
}

/// Defines the occlusion texture of a material.
#[derive(Clone, Debug)]
pub struct OcclusionTexture {
    /// The index of the texture.
    pub index: Index<Texture>,
    /// The scalar multiplier controlling the amount of occlusion applied
    /// (bit pattern).
    pub strength: u32,
    /// The set index of the texture's texture co-ordinate attribute.
    pub tex_coord: u32,
}

/// The material appearance of a primitive.
#[derive(Clone, Debug)]
pub struct Material {
    /// Optional user-defined name for this object.
    pub name: Option<String>,
    /// Metallic-roughness parameters.
    pub pbr_metallic_roughness: PbrMetallicRoughness,
    /// A tangent space normal map.
    pub normal_texture: Option<NormalTexture>,
    /// The occlusion map texture.
    pub occlusion_texture: Option<OcclusionTexture>,
    /// The emissive map texture.
    pub emissive_texture: Option<TextureInfo>,
    /// The emissive color of the material, RGB (bit patterns).
    pub emissive_factor: [u32; 3],
    /// The alpha rendering mode.
    pub alpha_mode: AlphaMode,
}

impl Material {
    /// The base color texture, if any.
    pub fn base_color_texture(&self) -> (r: &Option<TextureInfo>)
        ensures
            *r == self.pbr_metallic_roughness.base_color_texture,
    {
        &self.pbr_metallic_roughness.base_color_texture
    }

    /// The metallic-roughness texture, if any.
    pub fn metallic_roughness_texture(&self) -> (r: &Option<TextureInfo>)
        ensures
            *r == self.pbr_metallic_roughness.metallic_roughness_texture,
    {
        &self.pbr_metallic_roughness.metallic_roughness_texture
    }

    /// The normal map texture, if any.
    pub fn normal_texture(&self) -> (r: &Option<NormalTexture>)
        ensures
            *r == self.normal_texture,
    {
        &self.normal_texture
    }

    /// The occlusion map texture, if any.
    pub fn occlusion_texture(&self) -> (r: &Option<OcclusionTexture>)
        ensures
            *r == self.occlusion_texture,
    {
        &self.occlusion_texture
    }

    /// The emissive map texture, if any.
    pub fn emissive_texture(&self) -> (r: &Option<TextureInfo>)
        ensures
            *r == self.emissive_texture,
    {
        &self.emissive_texture
    }
}

} // verus!
