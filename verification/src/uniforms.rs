//! The values that shaders read of lighting and materials.

use vstd::prelude::*;

use crate::authoring::MaterialBaseColorMode;
use crate::layout::PrimitiveUpload;
use crate::material::{
    selected_tex_coord, unscaled, MaterialAlphaMode, MaterialAsset, MaterialInputs, MaterialModel,
    MtoonMaterial, MtoonOutlineWidthMode, ScaledTextureInfo, TextureInfo,
};
use crate::scalar::{clamped_scalar, is_finite, less, whole_bits, Scalar};

verus! {

/// The smallest exponent of a rim light (one ten thousandth).
pub const SMALLEST_RIM_POWER: u32 = 0x38d1_b717;

/// Zero.
pub open spec fn zero() -> Scalar {
    Scalar { bits: 0 }
}

/// One.
pub open spec fn one() -> Scalar {
    Scalar { bits: 0x3f80_0000 }
}

/// One if `set`, else zero.
pub open spec fn flag(set: bool) -> Scalar {
    if set {
        one()
    } else {
        zero()
    }
}

fn flag_value(set: bool) -> (value: Scalar)
    ensures
        value == flag(set),
{
    if set {
        Scalar::one()
    } else {
        Scalar::zero()
    }
}

/// Toon shading of lit models.
#[derive(Clone, Copy, Debug)]
pub struct Toon {
    pub steps: u32,
    pub wrap: Scalar,
}

/// A rim light on lit models.
#[derive(Clone, Copy, Debug)]
pub struct Rim {
    pub color: [Scalar; 3],
    pub strength: Scalar,
    pub power: Scalar,
}

/// Fog between two distances.
#[derive(Clone, Copy, Debug)]
pub struct Fog {
    pub color: [Scalar; 3],
    pub start: Scalar,
    pub end: Scalar,
}

/// The optional lighting of a frame.
#[derive(Clone, Copy, Debug)]
pub struct LightingUniforms {
    /// Band count, wrap, whether it is on.
    pub toon: [Scalar; 4],
    /// Color and strength.
    pub rim_color: [Scalar; 4],
    /// The exponent.
    pub rim_params: [Scalar; 4],
    /// Color and whether it is on.
    pub fog_color: [Scalar; 4],
    /// Start and end.
    pub fog_params: [Scalar; 4],
}

/// `x` if it is finite, else `fallback`, but at least `low`.
pub open spec fn at_least(x: Scalar, fallback: Scalar, low: Scalar) -> Scalar {
    let value = if is_finite(x) {
        x
    } else {
        fallback
    };
    if less(value, low) {
        low
    } else {
        value
    }
}

fn hold_above(x: Scalar, fallback: Scalar, low: Scalar) -> (held: Scalar)
    ensures
        held == at_least(x, fallback, low),
{
    let value = x.finite_or(fallback);
    if value.less(low) {
        low
    } else {
        value
    }
}

/// Whether fog can be shown: everything is finite and it ends behind its
/// start.
pub open spec fn is_usable_fog(fog: Fog) -> bool {
    is_finite(fog.color@[0]) && is_finite(fog.color@[1]) && is_finite(fog.color@[2]) && is_finite(
        fog.start,
    ) && is_finite(fog.end) && less(fog.start, fog.end)
}

/// Whether `uniforms` are the lighting values of a frame. Without toon shading,
/// a rim light or usable fog the values switch it off.
pub open spec fn is_lighting(
    toon: Option<Toon>,
    rim: Option<Rim>,
    fog: Option<Fog>,
    uniforms: LightingUniforms,
) -> bool {
    &&& uniforms.toon@ =~= (match toon {
        Some(toon) => seq![
            Scalar { bits: whole_bits(toon.steps as nat) as u32 },
            clamped_scalar(
                if is_finite(toon.wrap) {
                    toon.wrap
                } else {
                    zero()
                },
                zero(),
                one(),
            ),
            one(),
            zero(),
        ],
        None => seq![zero(), zero(), zero(), zero()],
    })
    &&& uniforms.rim_color@ =~= (match rim {
        Some(rim) => rim.color@.push(at_least(rim.strength, zero(), zero())),
        None => seq![zero(), zero(), zero(), zero()],
    })
    &&& uniforms.rim_params@ =~= (match rim {
        Some(rim) => seq![
            at_least(rim.power, one(), Scalar { bits: SMALLEST_RIM_POWER }),
            zero(),
            zero(),
            zero(),
        ],
        None => seq![one(), zero(), zero(), zero()],
    })
    &&& uniforms.fog_color@ =~= (match fog {
        Some(fog) if is_usable_fog(fog) => fog.color@.push(one()),
        _ => seq![zero(), zero(), zero(), zero()],
    })
    &&& uniforms.fog_params@ =~= (match fog {
        Some(fog) if is_usable_fog(fog) => seq![fog.start, fog.end, zero(), zero()],
        _ => seq![zero(), one(), zero(), zero()],
    })
}

/// The lighting values of a frame. Without toon shading, a rim light or usable
/// fog the values switch it off.
pub fn lighting_uniforms(toon: Option<Toon>, rim: Option<Rim>, fog: Option<Fog>) -> (uniforms:
    LightingUniforms)
    ensures
        is_lighting(toon, rim, fog, uniforms),
        uniforms.toon@ =~= (match toon {
            Some(toon) => seq![
                Scalar { bits: whole_bits(toon.steps as nat) as u32 },
                clamped_scalar(
                    if is_finite(toon.wrap) {
                        toon.wrap
                    } else {
                        zero()
                    },
                    zero(),
                    one(),
                ),
                one(),
                zero(),
            ],
            None => seq![zero(), zero(), zero(), zero()],
        }),
        uniforms.rim_color@ =~= (match rim {
            Some(rim) => rim.color@.push(at_least(rim.strength, zero(), zero())),
            None => seq![zero(), zero(), zero(), zero()],
        }),
        uniforms.rim_params@ =~= (match rim {
            Some(rim) => seq![
                at_least(rim.power, one(), Scalar { bits: SMALLEST_RIM_POWER }),
                zero(),
                zero(),
                zero(),
            ],
            None => seq![one(), zero(), zero(), zero()],
        }),
        uniforms.fog_color@ =~= (match fog {
            Some(fog) if is_usable_fog(fog) => fog.color@.push(one()),
            _ => seq![zero(), zero(), zero(), zero()],
        }),
        uniforms.fog_params@ =~= (match fog {
            Some(fog) if is_usable_fog(fog) => seq![fog.start, fog.end, zero(), zero()],
            _ => seq![zero(), one(), zero(), zero()],
        }),
{
    let off = Scalar::zero();
    let on = Scalar::one();
    let toon_values = match toon {
        Some(toon) => [
            Scalar::from_whole(toon.steps),
            toon.wrap.finite_or(off).clamp(off, on),
            on,
            off,
        ],
        None => [off, off, off, off],
    };
    let (rim_color, rim_params) = match rim {
        Some(rim) => (
            [rim.color[0], rim.color[1], rim.color[2], hold_above(rim.strength, off, off)],
            [hold_above(rim.power, on, Scalar { bits: SMALLEST_RIM_POWER }), off, off, off],
        ),
        None => ([off, off, off, off], [on, off, off, off]),
    };
    let mut fog_color = [off, off, off, off];
    let mut fog_params = [off, on, off, off];
    if let Some(fog) = fog {
        if fog.color[0].is_finite() && fog.color[1].is_finite() && fog.color[2].is_finite()
            && fog.start.is_finite() && fog.end.is_finite() && fog.start.less(fog.end) {
            fog_color = [fog.color[0], fog.color[1], fog.color[2], on];
            fog_params = [fog.start, fog.end, off, off];
        }
    }
    LightingUniforms { toon: toon_values, rim_color, rim_params, fog_color, fog_params }
}

/// The values of a lit or unlit material.
#[derive(Clone, Copy, Debug)]
pub struct MaterialRaw {
    pub base_color_factor: [Scalar; 4],
    /// Whether it is unlit, the alpha cutoff (zero if there is none), whether
    /// it is double sided, whether it is blended.
    pub params: [Scalar; 4],
    /// Whether the base color is monochrome.
    pub style: [Scalar; 4],
}

/// Whether `raw` holds the values of a primitive.
pub open spec fn is_raw(upload: PrimitiveUpload, raw: MaterialRaw) -> bool {
    &&& raw.base_color_factor == upload.base_color_factor
    &&& raw.params@ =~= seq![
        flag(upload.unlit),
        if upload.alpha_mode == MaterialAlphaMode::Mask {
            upload.alpha_cutoff
        } else {
            zero()
        },
        flag(upload.double_sided),
        flag(upload.alpha_mode == MaterialAlphaMode::Blend),
    ]
    &&& raw.style@ =~= seq![
        flag(upload.base_color_mode == MaterialBaseColorMode::Monochrome),
        zero(),
        zero(),
        zero(),
    ]
}

impl MaterialRaw {
    /// The values of a plain white material.
    pub fn plain() -> (raw: Self)
        ensures
            raw.base_color_factor@ =~= seq![one(), one(), one(), one()],
            raw.params@ =~= seq![zero(), zero(), zero(), zero()],
            raw.style@ =~= seq![zero(), zero(), zero(), zero()],
    {
        let off = Scalar::zero();
        let on = Scalar::one();
        MaterialRaw {
            base_color_factor: [on, on, on, on],
            params: [off, off, off, off],
            style: [off, off, off, off],
        }
    }

    /// The values of a primitive.
    pub fn from_upload(upload: &PrimitiveUpload) -> (raw: Self)
        ensures
            is_raw(*upload, raw),
            raw.base_color_factor == upload.base_color_factor,
            raw.params@ =~= seq![
                flag(upload.unlit),
                if upload.alpha_mode == MaterialAlphaMode::Mask {
                    upload.alpha_cutoff
                } else {
                    zero()
                },
                flag(upload.double_sided),
                flag(upload.alpha_mode == MaterialAlphaMode::Blend),
            ],
            raw.style@ =~= seq![
                flag(upload.base_color_mode == MaterialBaseColorMode::Monochrome),
                zero(),
                zero(),
                zero(),
            ],
    {
        let off = Scalar::zero();
        MaterialRaw {
            base_color_factor: upload.base_color_factor,
            params: [
                flag_value(upload.unlit),
                if upload.alpha_mode == MaterialAlphaMode::Mask {
                    upload.alpha_cutoff
                } else {
                    off
                },
                flag_value(upload.double_sided),
                flag_value(upload.alpha_mode == MaterialAlphaMode::Blend),
            ],
            style: [
                flag_value(upload.base_color_mode == MaterialBaseColorMode::Monochrome),
                off,
                off,
                off,
            ],
        }
    }
}

/// How a toon texture is looked up.
#[derive(Clone, Copy, Debug)]
pub struct MtoonUvRaw {
    /// Scale, and the cosine and sine of the rotation.
    pub scale_rotation: [Scalar; 4],
    /// Offset and coordinate set.
    pub offset_set: [Scalar; 4],
}

/// The cosine and sine of a rotation.
#[derive(Clone, Copy, Debug)]
pub struct Turn {
    pub cos: Scalar,
    pub sin: Scalar,
}

/// Whether `raw` is how `texture` is looked up, rotated by `turn`.
pub open spec fn is_uv(texture: Option<TextureInfo>, turn: Turn, raw: MtoonUvRaw) -> bool {
    match texture {
        Some(texture) => {
            &&& raw.scale_rotation@ =~= seq![
                texture.transform.scale@[0],
                texture.transform.scale@[1],
                turn.cos,
                turn.sin,
            ]
            &&& raw.offset_set@ =~= seq![
                texture.transform.offset@[0],
                texture.transform.offset@[1],
                Scalar { bits: whole_bits(selected_tex_coord(texture) as nat) as u32 },
                zero(),
            ]
        },
        None => {
            &&& raw.scale_rotation@ =~= seq![one(), one(), turn.cos, turn.sin]
            &&& raw.offset_set@ =~= seq![zero(), zero(), zero(), zero()]
        },
    }
}

impl MtoonUvRaw {
    /// How `texture` is looked up, or a texture that is not there. `turn` is
    /// the rotation of its transform.
    pub fn from_texture(texture: Option<TextureInfo>, turn: Turn) -> (raw: Self)
        ensures
            is_uv(texture, turn, raw),
    {
        let off = Scalar::zero();
        match texture {
            Some(texture) => MtoonUvRaw {
                scale_rotation: [
                    texture.transform.scale[0],
                    texture.transform.scale[1],
                    turn.cos,
                    turn.sin,
                ],
                offset_set: [
                    texture.transform.offset[0],
                    texture.transform.offset[1],
                    Scalar::from_whole(texture.effective_tex_coord()),
                    off,
                ],
            },
            None => MtoonUvRaw {
                scale_rotation: [Scalar::one(), Scalar::one(), turn.cos, turn.sin],
                offset_set: [off, off, off, off],
            },
        }
    }
}

/// The rotations of the transforms of a toon material's textures.
#[derive(Clone, Copy, Debug)]
pub struct MtoonTurns {
    pub base: Turn,
    pub normal: Turn,
    pub shade: Turn,
    pub shift: Turn,
    pub emissive: Turn,
    pub rim: Turn,
    pub outline: Turn,
    pub uv_animation_mask: Turn,
}

/// The values of a toon material.
#[derive(Clone, Copy, Debug)]
pub struct MtoonRaw {
    pub base_color_factor: [Scalar; 4],
    pub shade_color_factor: [Scalar; 4],
    pub emissive_factor: [Scalar; 4],
    pub matcap_factor: [Scalar; 4],
    pub rim_color_factor: [Scalar; 4],
    /// Fresnel power, lift, lighting mix.
    pub rim_params: [Scalar; 4],
    pub surface: [Scalar; 4],
    pub alpha: [Scalar; 4],
    pub outline_color_factor: [Scalar; 4],
    /// Width mode (none, world, screen), width factor, lighting mix.
    pub outline: [Scalar; 4],
    pub base_uv: MtoonUvRaw,
    pub normal_uv: MtoonUvRaw,
    pub shade_uv: MtoonUvRaw,
    pub shift_uv: MtoonUvRaw,
    pub emissive_uv: MtoonUvRaw,
    pub rim_uv: MtoonUvRaw,
    pub outline_uv: MtoonUvRaw,
    pub uv_animation_mask_uv: MtoonUvRaw,
    pub texture_scales: [Scalar; 4],
    /// Scroll speeds in coordinates per second, rotation speed in radians per
    /// second.
    pub uv_animation: [Scalar; 4],
}

/// The scale of a texture, or zero without one.
pub open spec fn scale_of(texture: Option<ScaledTextureInfo>) -> Scalar {
    match texture {
        Some(texture) => texture.scale,
        None => zero(),
    }
}

fn texture_scale(texture: Option<ScaledTextureInfo>) -> (scale: Scalar)
    ensures
        scale == scale_of(texture),
{
    match texture {
        Some(texture) => texture.scale,
        None => Scalar::zero(),
    }
}

fn without_scale(texture: Option<ScaledTextureInfo>) -> (plain: Option<TextureInfo>)
    ensures
        plain == unscaled(texture),
{
    match texture {
        Some(texture) => Some(texture.texture),
        None => None,
    }
}

/// The number of a width mode.
pub open spec fn mode_number(mode: MtoonOutlineWidthMode) -> Scalar {
    match mode {
        MtoonOutlineWidthMode::Off => zero(),
        MtoonOutlineWidthMode::WorldCoordinates => one(),
        MtoonOutlineWidthMode::ScreenCoordinates => Scalar { bits: 0x4000_0000 },
    }
}

/// Whether `raw` holds the factors of a toon material.
pub open spec fn has_factors(inputs: MaterialInputs, mtoon: MtoonMaterial, raw: MtoonRaw) -> bool {
    &&& raw.base_color_factor == inputs.base_color_factor
    &&& raw.shade_color_factor@ =~= mtoon.shade_color_factor@.push(one())
    &&& raw.emissive_factor@ =~= inputs.emissive_factor@.push(zero())
    &&& raw.matcap_factor@ =~= mtoon.matcap_factor@.push(zero())
    &&& raw.rim_color_factor@ =~= mtoon.parametric_rim_color_factor@.push(zero())
    &&& raw.rim_params@ =~= seq![
        mtoon.parametric_rim_fresnel_power_factor,
        mtoon.parametric_rim_lift_factor,
        mtoon.rim_lighting_mix_factor,
        zero(),
    ]
    &&& raw.surface@ =~= seq![
        mtoon.shading_shift_factor,
        mtoon.shading_toony_factor,
        mtoon.gi_equalization_factor,
        scale_of(inputs.normal_texture),
    ]
    &&& raw.alpha@ =~= seq![
        flag(inputs.alpha_mode == MaterialAlphaMode::Mask),
        inputs.alpha_cutoff,
        flag(inputs.double_sided),
        flag(inputs.alpha_mode == MaterialAlphaMode::Blend),
    ]
    &&& raw.outline_color_factor@ =~= mtoon.outline_color_factor@.push(zero())
    &&& raw.outline@ =~= seq![
        mode_number(mtoon.outline_width_mode),
        mtoon.outline_width_factor,
        mtoon.outline_lighting_mix_factor,
        zero(),
    ]
    &&& raw.texture_scales@ =~= seq![
        scale_of(mtoon.shading_shift_texture),
        zero(),
        zero(),
        zero(),
    ]
    &&& raw.uv_animation@ =~= seq![
        mtoon.uv_animation_scroll_x_speed_factor,
        mtoon.uv_animation_scroll_y_speed_factor,
        mtoon.uv_animation_rotation_speed_factor,
        zero(),
    ]
}

/// Whether `raw` holds how the textures of a toon material are looked up.
pub open spec fn has_lookups(
    inputs: MaterialInputs,
    mtoon: MtoonMaterial,
    turns: MtoonTurns,
    raw: MtoonRaw,
) -> bool {
    &&& is_uv(inputs.base_color_texture, turns.base, raw.base_uv)
    &&& is_uv(unscaled(inputs.normal_texture), turns.normal, raw.normal_uv)
    &&& is_uv(mtoon.shade_multiply_texture, turns.shade, raw.shade_uv)
    &&& is_uv(unscaled(mtoon.shading_shift_texture), turns.shift, raw.shift_uv)
    &&& is_uv(inputs.emissive_texture, turns.emissive, raw.emissive_uv)
    &&& is_uv(mtoon.rim_multiply_texture, turns.rim, raw.rim_uv)
    &&& is_uv(mtoon.outline_width_multiply_texture, turns.outline, raw.outline_uv)
    &&& is_uv(
        mtoon.uv_animation_mask_texture,
        turns.uv_animation_mask,
        raw.uv_animation_mask_uv,
    )
}

impl MtoonRaw {
    /// The values of a toon material, or nothing for other shading models.
    pub fn from_material(material: &MaterialAsset, turns: &MtoonTurns) -> (raw: Option<Self>)
        ensures
            match material.model {
                MaterialModel::Mtoon(mtoon) => raw matches Some(raw) && has_factors(
                    material.inputs,
                    *mtoon,
                    raw,
                ) && has_lookups(material.inputs, *mtoon, *turns, raw),
                _ => raw is None,
            },
            material.model matches MaterialModel::Mtoon(mtoon) ==> {
                let surface = raw.unwrap().surface@;
                &&& surface[0].bits == mtoon.shading_shift_factor.bits
                &&& surface[1].bits == mtoon.shading_toony_factor.bits
                &&& surface[2].bits == mtoon.gi_equalization_factor.bits
                &&& surface[3].bits == (match material.inputs.normal_texture {
                    Some(texture) => texture.scale.bits,
                    None => 0,
                })
            },
    {
        let mtoon = match &material.model {
            MaterialModel::Mtoon(mtoon) => mtoon,
            _ => {
                return None;
            },
        };
        let inputs = &material.inputs;
        let off = Scalar::zero();
        let shade = mtoon.shade_color_factor;
        let emissive = inputs.emissive_factor;
        let matcap = mtoon.matcap_factor;
        let rim = mtoon.parametric_rim_color_factor;
        let outline = mtoon.outline_color_factor;
        Some(
            MtoonRaw {
                base_color_factor: inputs.base_color_factor,
                shade_color_factor: [shade[0], shade[1], shade[2], Scalar::one()],
                emissive_factor: [emissive[0], emissive[1], emissive[2], off],
                matcap_factor: [matcap[0], matcap[1], matcap[2], off],
                rim_color_factor: [rim[0], rim[1], rim[2], off],
                rim_params: [
                    mtoon.parametric_rim_fresnel_power_factor,
                    mtoon.parametric_rim_lift_factor,
                    mtoon.rim_lighting_mix_factor,
                    off,
                ],
                surface: [
                    mtoon.shading_shift_factor,
                    mtoon.shading_toony_factor,
                    mtoon.gi_equalization_factor,
                    texture_scale(inputs.normal_texture),
                ],
                alpha: [
                    flag_value(inputs.alpha_mode == MaterialAlphaMode::Mask),
                    inputs.alpha_cutoff,
                    flag_value(inputs.double_sided),
                    flag_value(inputs.alpha_mode == MaterialAlphaMode::Blend),
                ],
                outline_color_factor: [outline[0], outline[1], outline[2], off],
                outline: [
                    match mtoon.outline_width_mode {
                        MtoonOutlineWidthMode::Off => off,
                        MtoonOutlineWidthMode::WorldCoordinates => Scalar::one(),
                        MtoonOutlineWidthMode::ScreenCoordinates => Scalar { bits: 0x4000_0000 },
                    },
                    mtoon.outline_width_factor,
                    mtoon.outline_lighting_mix_factor,
                    off,
                ],
                base_uv: MtoonUvRaw::from_texture(inputs.base_color_texture, turns.base),
                normal_uv: MtoonUvRaw::from_texture(
                    without_scale(inputs.normal_texture),
                    turns.normal,
                ),
                shade_uv: MtoonUvRaw::from_texture(mtoon.shade_multiply_texture, turns.shade),
                shift_uv: MtoonUvRaw::from_texture(
                    without_scale(mtoon.shading_shift_texture),
                    turns.shift,
                ),
                emissive_uv: MtoonUvRaw::from_texture(inputs.emissive_texture, turns.emissive),
                rim_uv: MtoonUvRaw::from_texture(mtoon.rim_multiply_texture, turns.rim),
                outline_uv: MtoonUvRaw::from_texture(
                    mtoon.outline_width_multiply_texture,
                    turns.outline,
                ),
                uv_animation_mask_uv: MtoonUvRaw::from_texture(
                    mtoon.uv_animation_mask_texture,
                    turns.uv_animation_mask,
                ),
                texture_scales: [texture_scale(mtoon.shading_shift_texture), off, off, off],
                uv_animation: [
                    mtoon.uv_animation_scroll_x_speed_factor,
                    mtoon.uv_animation_scroll_y_speed_factor,
                    mtoon.uv_animation_rotation_speed_factor,
                    off,
                ],
            },
        )
    }
}

/// The shader reads the factors of a toon surface in their slots: the shift
/// first, then the toony factor, the equalization and the strength of the normal
/// map, which is zero without one.
pub proof fn surface_factors_keep_their_slots(
    inputs: MaterialInputs,
    mtoon: MtoonMaterial,
    raw: MtoonRaw,
)
    requires
        has_factors(inputs, mtoon, raw),
    ensures
        raw.surface@[0].bits == mtoon.shading_shift_factor.bits,
        raw.surface@[1].bits == mtoon.shading_toony_factor.bits,
        raw.surface@[2].bits == mtoon.gi_equalization_factor.bits,
        inputs.normal_texture is None ==> raw.surface@[3].bits == 0,
        inputs.normal_texture matches Some(texture) ==> raw.surface@[3].bits == texture.scale.bits,
        mtoon.shading_shift_texture is None ==> raw.texture_scales@[0].bits == 0,
        mtoon.shading_shift_texture matches Some(texture) ==> raw.texture_scales@[0].bits
            == texture.scale.bits,
        forall|k: int| 1 <= k < 4 ==> (#[trigger] raw.texture_scales@[k]).bits == 0,
{
    assert(raw.texture_scales@[1].bits == 0);
    assert(raw.texture_scales@[2].bits == 0);
    assert(raw.texture_scales@[3].bits == 0);
}

/// Two toon surfaces look alike to the shader only if their factors are alike.
pub proof fn surface_factors_are_told_apart(
    inputs: MaterialInputs,
    first: MtoonMaterial,
    second: MtoonMaterial,
    first_raw: MtoonRaw,
    second_raw: MtoonRaw,
)
    requires
        has_factors(inputs, first, first_raw),
        has_factors(inputs, second, second_raw),
    ensures
        first_raw.surface@[0] == second_raw.surface@[0] <==> first.shading_shift_factor
            == second.shading_shift_factor,
        first_raw.surface@[1] == second_raw.surface@[1] <==> first.shading_toony_factor
            == second.shading_toony_factor,
        first_raw.surface@[2] == second_raw.surface@[2] <==> first.gi_equalization_factor
            == second.gi_equalization_factor,
{
}

/// The shader reads each color of a toon material as it was authored, channel by
/// channel, with the fourth number of a color that has three: one for the shade,
/// zero for the others.
pub proof fn toon_colors_keep_their_channels(
    inputs: MaterialInputs,
    mtoon: MtoonMaterial,
    raw: MtoonRaw,
    c: int,
)
    requires
        has_factors(inputs, mtoon, raw),
        0 <= c < 3,
    ensures
        raw.base_color_factor@[c] == inputs.base_color_factor@[c],
        raw.base_color_factor@[3] == inputs.base_color_factor@[3],
        raw.shade_color_factor@[c] == mtoon.shade_color_factor@[c],
        raw.shade_color_factor@[3].bits == 0x3f80_0000,
        raw.emissive_factor@[c] == inputs.emissive_factor@[c],
        raw.emissive_factor@[3].bits == 0,
        raw.matcap_factor@[c] == mtoon.matcap_factor@[c],
        raw.matcap_factor@[3].bits == 0,
        raw.rim_color_factor@[c] == mtoon.parametric_rim_color_factor@[c],
        raw.rim_color_factor@[3].bits == 0,
        raw.outline_color_factor@[c] == mtoon.outline_color_factor@[c],
        raw.outline_color_factor@[3].bits == 0,
{
}

/// The shader reads the rim of a toon material as power, lift and lighting mix,
/// its outline as mode, width and lighting mix, and its animation as the two
/// scroll speeds and the rotation speed.
pub proof fn toon_parameters_keep_their_slots(
    inputs: MaterialInputs,
    mtoon: MtoonMaterial,
    raw: MtoonRaw,
)
    requires
        has_factors(inputs, mtoon, raw),
    ensures
        raw.rim_params@[0].bits == mtoon.parametric_rim_fresnel_power_factor.bits,
        raw.rim_params@[1].bits == mtoon.parametric_rim_lift_factor.bits,
        raw.rim_params@[2].bits == mtoon.rim_lighting_mix_factor.bits,
        raw.rim_params@[3].bits == 0,
        raw.outline@[0].bits == (match mtoon.outline_width_mode {
            MtoonOutlineWidthMode::Off => 0,
            MtoonOutlineWidthMode::WorldCoordinates => 0x3f80_0000u32,
            MtoonOutlineWidthMode::ScreenCoordinates => 0x4000_0000u32,
        }),
        raw.outline@[1].bits == mtoon.outline_width_factor.bits,
        raw.outline@[2].bits == mtoon.outline_lighting_mix_factor.bits,
        raw.outline@[3].bits == 0,
        raw.uv_animation@[0].bits == mtoon.uv_animation_scroll_x_speed_factor.bits,
        raw.uv_animation@[1].bits == mtoon.uv_animation_scroll_y_speed_factor.bits,
        raw.uv_animation@[2].bits == mtoon.uv_animation_rotation_speed_factor.bits,
        raw.uv_animation@[3].bits == 0,
{
}

/// The shader reads the alpha policy of a toon material: whether it is masked,
/// the cutoff, whether it is double sided, whether it is blended.
pub proof fn toon_alpha_keeps_its_slots(
    inputs: MaterialInputs,
    mtoon: MtoonMaterial,
    raw: MtoonRaw,
)
    requires
        has_factors(inputs, mtoon, raw),
    ensures
        raw.alpha@[0].bits == 0x3f80_0000u32 <==> inputs.alpha_mode is Mask,
        raw.alpha@[0].bits == 0 <==> !(inputs.alpha_mode is Mask),
        raw.alpha@[1].bits == inputs.alpha_cutoff.bits,
        raw.alpha@[2].bits == 0x3f80_0000u32 <==> inputs.double_sided,
        raw.alpha@[2].bits == 0 <==> !inputs.double_sided,
        raw.alpha@[3].bits == 0x3f80_0000u32 <==> inputs.alpha_mode is Blend,
        raw.alpha@[3].bits == 0 <==> !(inputs.alpha_mode is Blend),
{
}

/// The shader reads how a texture is looked up: its scale, the cosine and the
/// sine of its rotation, its offset and its coordinate set. Without a texture
/// nothing is scaled or shifted.
pub proof fn lookups_keep_their_slots(texture: Option<TextureInfo>, turn: Turn, raw: MtoonUvRaw)
    requires
        is_uv(texture, turn, raw),
    ensures
        raw.scale_rotation@[2].bits == turn.cos.bits,
        raw.scale_rotation@[3].bits == turn.sin.bits,
        texture matches Some(texture) ==> {
            let set = match texture.transform.tex_coord_override {
                Some(set) => set,
                None => texture.tex_coord,
            };
            &&& raw.scale_rotation@[0].bits == texture.transform.scale@[0].bits
            &&& raw.scale_rotation@[1].bits == texture.transform.scale@[1].bits
            &&& raw.offset_set@[0].bits == texture.transform.offset@[0].bits
            &&& raw.offset_set@[1].bits == texture.transform.offset@[1].bits
            &&& set == 0 ==> raw.offset_set@[2].bits == 0
            &&& set == 1 ==> raw.offset_set@[2].bits == 0x3f80_0000
        },
        texture is None ==> {
            &&& raw.scale_rotation@[0].bits == 0x3f80_0000
            &&& raw.scale_rotation@[1].bits == 0x3f80_0000
            &&& raw.offset_set@[0].bits == 0
            &&& raw.offset_set@[1].bits == 0
            &&& raw.offset_set@[2].bits == 0
        },
{
    reveal_with_fuel(crate::scalar::exponent_of, 2);
    reveal_with_fuel(crate::scalar::two_to, 25);
}

/// Each texture of a toon material is looked up by its own transform: what the
/// shader reads for a role are the scale and the offset of the texture of that
/// role.
pub proof fn toon_textures_keep_their_transforms(
    inputs: MaterialInputs,
    mtoon: MtoonMaterial,
    turns: MtoonTurns,
    raw: MtoonRaw,
    axis: int,
)
    requires
        has_lookups(inputs, mtoon, turns, raw),
        0 <= axis < 2,
    ensures
        reads_transform(inputs.base_color_texture, turns.base, raw.base_uv, axis),
        reads_transform(
            match inputs.normal_texture {
                Some(scaled) => Some(scaled.texture),
                None => None,
            },
            turns.normal,
            raw.normal_uv,
            axis,
        ),
        reads_transform(mtoon.shade_multiply_texture, turns.shade, raw.shade_uv, axis),
        reads_transform(
            match mtoon.shading_shift_texture {
                Some(scaled) => Some(scaled.texture),
                None => None,
            },
            turns.shift,
            raw.shift_uv,
            axis,
        ),
        reads_transform(inputs.emissive_texture, turns.emissive, raw.emissive_uv, axis),
        reads_transform(mtoon.rim_multiply_texture, turns.rim, raw.rim_uv, axis),
        reads_transform(
            mtoon.outline_width_multiply_texture,
            turns.outline,
            raw.outline_uv,
            axis,
        ),
        reads_transform(
            mtoon.uv_animation_mask_texture,
            turns.uv_animation_mask,
            raw.uv_animation_mask_uv,
            axis,
        ),
{
}

/// Whether a lookup turns by `turn` and, along an axis, scales and shifts as the
/// transform of `texture` does.
pub open spec fn reads_transform(
    texture: Option<TextureInfo>,
    turn: Turn,
    raw: MtoonUvRaw,
    axis: int,
) -> bool {
    &&& raw.scale_rotation@[2] == turn.cos
    &&& raw.scale_rotation@[3] == turn.sin
    &&& texture matches Some(texture) ==> raw.scale_rotation@[axis]
        == texture.transform.scale@[axis] && raw.offset_set@[axis]
        == texture.transform.offset@[axis]
}

/// The shader reads of a primitive its color, whether it is unlit, the cutoff of
/// a mask, whether it is double sided, blended and monochrome.
pub proof fn surfaces_keep_their_slots(upload: PrimitiveUpload, raw: MaterialRaw, c: int)
    requires
        is_raw(upload, raw),
        0 <= c < 4,
    ensures
        raw.base_color_factor@[c].bits == upload.base_color_factor@[c].bits,
        raw.params@[0].bits == 0x3f80_0000u32 <==> upload.unlit,
        raw.params@[0].bits == 0 <==> !upload.unlit,
        upload.alpha_mode is Mask ==> raw.params@[1].bits == upload.alpha_cutoff.bits,
        !(upload.alpha_mode is Mask) ==> raw.params@[1].bits == 0,
        raw.params@[2].bits == 0x3f80_0000u32 <==> upload.double_sided,
        raw.params@[2].bits == 0 <==> !upload.double_sided,
        raw.params@[3].bits == 0x3f80_0000u32 <==> upload.alpha_mode is Blend,
        raw.params@[3].bits == 0 <==> !(upload.alpha_mode is Blend),
        raw.style@[0].bits == 0x3f80_0000u32 <==> upload.base_color_mode is Monochrome,
        raw.style@[0].bits == 0 <==> !(upload.base_color_mode is Monochrome),
{
}

/// The shader reads toon shading as its bands, a wrap between zero and one and a
/// switch, which is off without toon shading.
pub proof fn toon_lighting_keeps_its_slots(
    toon: Option<Toon>,
    rim: Option<Rim>,
    fog: Option<Fog>,
    uniforms: LightingUniforms,
)
    requires
        is_lighting(toon, rim, fog, uniforms),
    ensures
        toon is None ==> uniforms.toon@[2].bits == 0,
        toon matches Some(toon) ==> {
            let wrap = uniforms.toon@[1];
            &&& uniforms.toon@[2].bits == 0x3f80_0000
            &&& uniforms.toon@[0].bits == whole_bits(toon.steps as nat) as u32
            &&& !less(wrap, Scalar { bits: 0 }) && !less(Scalar { bits: 0x3f80_0000 }, wrap)
            &&& is_finite(wrap)
            &&& is_finite(toon.wrap) && !less(toon.wrap, Scalar { bits: 0 }) && !less(
                Scalar { bits: 0x3f80_0000 },
                toon.wrap,
            ) ==> wrap == toon.wrap
            &&& !is_finite(toon.wrap) ==> wrap.bits == 0
        },
{
}

/// The shader reads a rim light as its color, a strength that is not negative and
/// an exponent of at least a ten thousandth; without one the strength is zero.
pub proof fn rim_lighting_keeps_its_slots(
    toon: Option<Toon>,
    rim: Option<Rim>,
    fog: Option<Fog>,
    uniforms: LightingUniforms,
    c: int,
)
    requires
        is_lighting(toon, rim, fog, uniforms),
        0 <= c < 3,
    ensures
        rim is None ==> uniforms.rim_color@[3].bits == 0 && uniforms.rim_color@[c].bits == 0
            && uniforms.rim_params@[0].bits == 0x3f80_0000,
        rim matches Some(rim) ==> {
            let (strength, power) = (uniforms.rim_color@[3], uniforms.rim_params@[0]);
            &&& uniforms.rim_color@[c] == rim.color@[c]
            &&& is_finite(strength) && !less(strength, Scalar { bits: 0 })
            &&& is_finite(rim.strength) && !less(rim.strength, Scalar { bits: 0 }) ==> strength
                == rim.strength
            &&& is_finite(power) && !less(power, Scalar { bits: 0x38d1_b717 })
            &&& is_finite(rim.power) && !less(rim.power, Scalar { bits: 0x38d1_b717 }) ==> power
                == rim.power
        },
{
}

/// The shader reads fog as its color, its start and its end and a switch. The
/// switch is on exactly for fog of finite numbers that ends behind its start.
pub proof fn fog_keeps_its_slots(
    toon: Option<Toon>,
    rim: Option<Rim>,
    fog: Option<Fog>,
    uniforms: LightingUniforms,
    c: int,
)
    requires
        is_lighting(toon, rim, fog, uniforms),
        0 <= c < 3,
    ensures
        uniforms.fog_color@[3].bits == 0 || uniforms.fog_color@[3].bits == 0x3f80_0000,
        uniforms.fog_color@[3].bits == 0x3f80_0000 <==> (fog matches Some(fog) && is_finite(
            fog.start,
        ) && is_finite(fog.end) && less(fog.start, fog.end) && is_finite(fog.color@[0])
            && is_finite(fog.color@[1]) && is_finite(fog.color@[2])),
        uniforms.fog_color@[3].bits == 0x3f80_0000 ==> {
            &&& uniforms.fog_color@[c] == fog.unwrap().color@[c]
            &&& uniforms.fog_params@[0] == fog.unwrap().start
            &&& uniforms.fog_params@[1] == fog.unwrap().end
        },
        uniforms.fog_color@[3].bits == 0 ==> uniforms.fog_params@[0].bits == 0
            && uniforms.fog_params@[1].bits == 0x3f80_0000,
{
}

} // verus!
