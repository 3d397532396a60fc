//! Material resolution: factors and texture fallbacks.
//!
//! A primitive's material resolves to a complete binding-group plan.
//! Missing factors take documented defaults (unit color, unit
//! metallic, unit roughness, zero alpha cut-off); missing texture
//! references fall back to the fixed 1x1 default textures: opaque
//! white for color-like slots and flat normal for the normal slot.

use vstd::prelude::*;
use crate::desc::MaterialDesc;

verus! {

/// The raw 32-bit encoding of a factor of one.
pub const UNIT_FACTOR_WORD: u32 = 0x3F80_0000;

/// The raw 32-bit encoding of a factor of zero.
pub const ZERO_FACTOR_WORD: u32 = 0;

/// A four-component color factor, carried as raw 32-bit words.
#[derive(Debug, Clone, Copy, PartialEq, Eq, Structural)]
pub struct ColorFactor {
    pub r: u32,
    pub g: u32,
    pub b: u32,
    pub a: u32,
}

/// The factor block uploaded to the material uniform buffer.  The
/// trailing filler word pads the block to a 16-byte multiple.
#[derive(Debug, Clone, Copy, PartialEq, Eq, Structural)]
pub struct MaterialData {
    pub base_color_factor: ColorFactor,
    pub metallic_factor: u32,
    pub roughness_factor: u32,
    pub alpha_cut_off: u32,
    pub filler: u32,
}

/// The texture bound to one material slot: either a decoded image by
/// index, or one of the two fixed 1x1 default textures.
#[derive(Debug, Clone, Copy, PartialEq, Eq, Structural)]
pub enum TextureSel {
    /// A decoded image, by index.
    Image(usize),
    /// The default opaque-white texture.
    White,
    /// The default flat-normal texture.
    FlatNormal,
}

/// A complete material binding-group plan: the factor block plus the
/// three resolved texture slots.
#[derive(Debug, Clone, Copy, PartialEq, Eq, Structural)]
pub struct MaterialGroup {
    pub data: MaterialData,
    pub base_color: TextureSel,
    pub metallic_roughness: TextureSel,
    pub normal: TextureSel,
}

/// The unit color factor.
pub open spec fn spec_unit_color() -> ColorFactor {
    ColorFactor {
        r: UNIT_FACTOR_WORD,
        g: UNIT_FACTOR_WORD,
        b: UNIT_FACTOR_WORD,
        a: UNIT_FACTOR_WORD,
    }
}

/// The factor block of a material, with defaults substituted for
/// every unspecified factor.
pub open spec fn spec_material_data(m: MaterialDesc) -> MaterialData {
    MaterialData {
        base_color_factor: match m.base_color_factor {
            Some(c) => c,
            None => spec_unit_color(),
        },
        metallic_factor: match m.metallic_factor {
            Some(f) => f,
            None => UNIT_FACTOR_WORD,
        },
        roughness_factor: match m.roughness_factor {
            Some(f) => f,
            None => UNIT_FACTOR_WORD,
        },
        alpha_cut_off: match m.alpha_cutoff {
            Some(f) => f,
            None => ZERO_FACTOR_WORD,
        },
        filler: 0,
    }
}

/// The factor block of a primitive that names no material at all:
/// every factor takes its default.
pub open spec fn spec_default_material_data() -> MaterialData {
    MaterialData {
        base_color_factor: spec_unit_color(),
        metallic_factor: UNIT_FACTOR_WORD,
        roughness_factor: UNIT_FACTOR_WORD,
        alpha_cut_off: ZERO_FACTOR_WORD,
        filler: 0,
    }
}

/// A texture slot: the referenced image, or the given fallback.
pub open spec fn spec_texture_sel(t: Option<usize>, fallback: TextureSel) -> TextureSel {
    match t {
        Some(image) => TextureSel::Image(image),
        None => fallback,
    }
}

/// The complete material binding-group plan of a primitive.
pub open spec fn spec_resolve_material(
    materials: Seq<MaterialDesc>,
    material: Option<usize>,
) -> MaterialGroup {
    match material {
        Some(m) => {
            let desc = materials[m as int];
            MaterialGroup {
                data: spec_material_data(desc),
                base_color: spec_texture_sel(desc.base_color_texture, TextureSel::White),
                metallic_roughness: spec_texture_sel(
                    desc.metallic_roughness_texture,
                    TextureSel::White,
                ),
                normal: spec_texture_sel(desc.normal_texture, TextureSel::FlatNormal),
            }
        },
        None => MaterialGroup {
            data: spec_default_material_data(),
            base_color: TextureSel::White,
            metallic_roughness: TextureSel::White,
            normal: TextureSel::FlatNormal,
        },
    }
}

/// Resolves a primitive's material reference to its binding-group
/// plan, substituting defaults for everything unspecified.
pub fn resolve_material(materials: &Vec<MaterialDesc>, material: &Option<usize>) -> (r:
    MaterialGroup)
    requires
        material is Some ==> material.unwrap() < materials@.len(),
    ensures
        r == spec_resolve_material(materials@, *material),
{
    match material {
        Some(m) => {
            let desc = &materials[*m];
            MaterialGroup {
                data: MaterialData {
                    base_color_factor: match desc.base_color_factor {
                        Some(c) => c,
                        None => ColorFactor {
                            r: UNIT_FACTOR_WORD,
                            g: UNIT_FACTOR_WORD,
                            b: UNIT_FACTOR_WORD,
                            a: UNIT_FACTOR_WORD,
                        },
                    },
                    metallic_factor: match desc.metallic_factor {
                        Some(f) => f,
                        None => UNIT_FACTOR_WORD,
                    },
                    roughness_factor: match desc.roughness_factor {
                        Some(f) => f,
                        None => UNIT_FACTOR_WORD,
                    },
                    alpha_cut_off: match desc.alpha_cutoff {
                        Some(f) => f,
                        None => ZERO_FACTOR_WORD,
                    },
                    filler: 0,
                },
                base_color: match desc.base_color_texture {
                    Some(image) => TextureSel::Image(image),
                    None => TextureSel::White,
                },
                metallic_roughness: match desc.metallic_roughness_texture {
                    Some(image) => TextureSel::Image(image),
                    None => TextureSel::White,
                },
                normal: match desc.normal_texture {
                    Some(image) => TextureSel::Image(image),
                    None => TextureSel::FlatNormal,
                },
            }
        },
        None => MaterialGroup {
            data: MaterialData {
                base_color_factor: ColorFactor {
                    r: UNIT_FACTOR_WORD,
                    g: UNIT_FACTOR_WORD,
                    b: UNIT_FACTOR_WORD,
                    a: UNIT_FACTOR_WORD,
                },
                metallic_factor: UNIT_FACTOR_WORD,
                roughness_factor: UNIT_FACTOR_WORD,
                alpha_cut_off: ZERO_FACTOR_WORD,
                filler: 0,
            },
            base_color: TextureSel::White,
            metallic_roughness: TextureSel::White,
            normal: TextureSel::FlatNormal,
        },
    }
}

/// A material that lacks a base-color texture reference resolves to
/// the default opaque-white texture, and one that lacks a normal
/// texture resolves to the default flat-normal texture; a missing
/// metallic-roughness reference falls back to opaque white as well.
pub proof fn lemma_default_textures(materials: Seq<MaterialDesc>, material: Option<usize>)
    requires
        material is Some ==> material.unwrap() < materials.len(),
    ensures
        (match material {
            Some(m) => materials[m as int].base_color_texture is None,
            None => true,
        }) ==> spec_resolve_material(materials, material).base_color == TextureSel::White,
        (match material {
            Some(m) => materials[m as int].metallic_roughness_texture is None,
            None => true,
        }) ==> spec_resolve_material(materials, material).metallic_roughness
            == TextureSel::White,
        (match material {
            Some(m) => materials[m as int].normal_texture is None,
            None => true,
        }) ==> spec_resolve_material(materials, material).normal == TextureSel::FlatNormal,
{
}

} // verus!
