//! Authored material semantics and per-instance material state.

use std::cmp::Ordering;
use vstd::prelude::*;

use crate::scalar::{is_finite, less, rank, Scalar};

verus! {

/// The alpha policy of an authored material.
#[derive(Clone, Copy, Debug, PartialEq, Eq, Hash, Structural)]
pub enum MaterialAlphaMode {
    Opaque,
    Mask,
    Blend,
}

/// The authored shading model.
#[derive(Clone, Copy, Debug, PartialEq, Eq, Hash, Structural)]
pub enum MaterialKind {
    PocketLit,
    Unlit,
    Mtoon,
}

/// What a texture is sampled for, independent of image or file name.
#[derive(Clone, Copy, Debug, PartialEq, Eq, Hash, PartialOrd, Ord, Structural)]
pub enum TextureRole {
    BaseColor,
    Normal,
    Emissive,
    ShadeMultiply,
    ShadingShift,
    Matcap,
    RimMultiply,
    OutlineWidth,
    UvAnimationMask,
}

/// How the texels of an image are encoded.
#[derive(Clone, Copy, Debug, PartialEq, Eq, Hash, Structural)]
pub enum TextureColorSpace {
    Srgb,
    Linear,
}

/// Whether a texture of this role holds colour.
pub open spec fn is_color_role(role: TextureRole) -> bool {
    role == TextureRole::BaseColor || role == TextureRole::Emissive || role
        == TextureRole::ShadeMultiply || role == TextureRole::Matcap || role
        == TextureRole::RimMultiply
}

/// The colour space of a role: colour is sRGB, everything else is data.
pub open spec fn role_color_space(role: TextureRole) -> TextureColorSpace {
    if is_color_role(role) {
        TextureColorSpace::Srgb
    } else {
        TextureColorSpace::Linear
    }
}

impl TextureRole {
    /// The colour space that a texture of this role is stored in.
    pub fn color_space(self) -> (space: TextureColorSpace)
        ensures
            space == role_color_space(self),
    {
        match self {
            TextureRole::BaseColor
            | TextureRole::Emissive
            | TextureRole::ShadeMultiply
            | TextureRole::Matcap
            | TextureRole::RimMultiply => TextureColorSpace::Srgb,
            TextureRole::Normal
            | TextureRole::ShadingShift
            | TextureRole::OutlineWidth
            | TextureRole::UvAnimationMask => TextureColorSpace::Linear,
        }
    }
}

/// Offset, rotation and scale of texture coordinates, and the set to use
/// instead of the authored one.
#[derive(Clone, Copy, Debug, PartialEq)]
pub struct TextureTransform {
    pub offset: [Scalar; 2],
    pub rotation: Scalar,
    pub scale: [Scalar; 2],
    pub tex_coord_override: Option<u32>,
}

/// Whether `transform` leaves coordinates as they are.
pub open spec fn is_default_transform(transform: TextureTransform) -> bool {
    &&& transform.offset@ =~= seq![Scalar { bits: 0 }, Scalar { bits: 0 }]
    &&& transform.rotation.bits == 0
    &&& transform.scale@ =~= seq![Scalar { bits: 0x3f80_0000 }, Scalar { bits: 0x3f80_0000 }]
    &&& transform.tex_coord_override is None
}

impl Default for TextureTransform {
    fn default() -> (transform: Self)
        ensures
            is_default_transform(transform),
    {
        TextureTransform {
            offset: [Scalar::zero(), Scalar::zero()],
            rotation: Scalar::zero(),
            scale: [Scalar::one(), Scalar::one()],
            tex_coord_override: None,
        }
    }
}

#[derive(Clone, Copy, Debug, PartialEq, Eq, Hash, Structural)]
pub enum GltfMagFilter {
    Nearest,
    Linear,
}

#[derive(Clone, Copy, Debug, PartialEq, Eq, Hash, Structural)]
pub enum GltfMinFilter {
    Nearest,
    Linear,
    NearestMipmapNearest,
    LinearMipmapNearest,
    NearestMipmapLinear,
    LinearMipmapLinear,
}

#[derive(Clone, Copy, Debug, PartialEq, Eq, Hash, Structural)]
pub enum GltfWrapMode {
    ClampToEdge,
    MirroredRepeat,
    Repeat,
}

/// Authored sampler values. Missing filters stay distinguishable from authored
/// ones.
#[derive(Clone, Copy, Debug, PartialEq, Eq, Hash)]
pub struct GltfSampler {
    pub index: Option<usize>,
    pub mag_filter: Option<GltfMagFilter>,
    pub min_filter: Option<GltfMinFilter>,
    pub wrap_s: GltfWrapMode,
    pub wrap_t: GltfWrapMode,
}

/// The sampler of a texture that names none.
pub open spec fn default_sampler() -> GltfSampler {
    GltfSampler {
        index: None,
        mag_filter: None,
        min_filter: None,
        wrap_s: GltfWrapMode::Repeat,
        wrap_t: GltfWrapMode::Repeat,
    }
}

impl Default for GltfSampler {
    fn default() -> (sampler: Self)
        ensures
            sampler == default_sampler(),
    {
        GltfSampler {
            index: None,
            mag_filter: None,
            min_filter: None,
            wrap_s: GltfWrapMode::Repeat,
            wrap_t: GltfWrapMode::Repeat,
        }
    }
}

/// A texture filter of the device.
#[derive(Clone, Copy, Debug, PartialEq, Eq, Hash, Structural)]
pub enum FilterMode {
    Nearest,
    Linear,
}

/// The device state that a sampler resolves to. The authored index is not part
/// of it.
#[derive(Clone, Copy, Debug, PartialEq, Eq, Hash, Structural)]
pub struct GltfSamplerKey {
    pub mag_filter: FilterMode,
    pub min_filter: FilterMode,
    pub mipmap_filter: FilterMode,
    pub wrap_s: GltfWrapMode,
    pub wrap_t: GltfWrapMode,
    pub uses_mipmaps: bool,
}

/// Whether a minification filter looks at smaller levels.
pub open spec fn filter_uses_mipmaps(filter: Option<GltfMinFilter>) -> bool {
    match filter {
        None => false,
        Some(filter) => filter != GltfMinFilter::Nearest && filter != GltfMinFilter::Linear,
    }
}

/// The filter between the texels of one level: the format's default is linear.
pub open spec fn texel_filter(filter: Option<GltfMinFilter>) -> FilterMode {
    match filter {
        Some(GltfMinFilter::Nearest)
        | Some(GltfMinFilter::NearestMipmapNearest)
        | Some(GltfMinFilter::NearestMipmapLinear) => FilterMode::Nearest,
        _ => FilterMode::Linear,
    }
}

/// The filter between levels.
pub open spec fn level_filter(filter: Option<GltfMinFilter>) -> FilterMode {
    match filter {
        Some(GltfMinFilter::NearestMipmapLinear)
        | Some(GltfMinFilter::LinearMipmapLinear) => FilterMode::Linear,
        _ => FilterMode::Nearest,
    }
}

/// The device state of `sampler`.
pub open spec fn sampler_key(sampler: GltfSampler) -> GltfSamplerKey {
    GltfSamplerKey {
        mag_filter: if sampler.mag_filter == Some(GltfMagFilter::Nearest) {
            FilterMode::Nearest
        } else {
            FilterMode::Linear
        },
        min_filter: texel_filter(sampler.min_filter),
        mipmap_filter: level_filter(sampler.min_filter),
        wrap_s: sampler.wrap_s,
        wrap_t: sampler.wrap_t,
        uses_mipmaps: filter_uses_mipmaps(sampler.min_filter),
    }
}

impl GltfSampler {
    /// The device state: missing filters become linear ones, and a filter that
    /// ignores smaller levels pins sampling to the first.
    pub fn key(self) -> (key: GltfSamplerKey)
        ensures
            key == sampler_key(self),
    {
        let (min_filter, mipmap_filter) = match self.min_filter {
            None => (FilterMode::Linear, FilterMode::Nearest),
            Some(filter) => match filter {
                GltfMinFilter::Linear => (FilterMode::Linear, FilterMode::Nearest),
                GltfMinFilter::Nearest => (FilterMode::Nearest, FilterMode::Nearest),
                GltfMinFilter::NearestMipmapNearest => (FilterMode::Nearest, FilterMode::Nearest),
                GltfMinFilter::LinearMipmapNearest => (FilterMode::Linear, FilterMode::Nearest),
                GltfMinFilter::NearestMipmapLinear => (FilterMode::Nearest, FilterMode::Linear),
                GltfMinFilter::LinearMipmapLinear => (FilterMode::Linear, FilterMode::Linear),
            },
        };
        let uses_mipmaps = match self.min_filter {
            None => false,
            Some(filter) => match filter {
                GltfMinFilter::Nearest | GltfMinFilter::Linear => false,
                _ => true,
            },
        };
        GltfSamplerKey {
            mag_filter: match self.mag_filter {
                Some(GltfMagFilter::Nearest) => FilterMode::Nearest,
                _ => FilterMode::Linear,
            },
            min_filter,
            mipmap_filter,
            wrap_s: self.wrap_s,
            wrap_t: self.wrap_t,
            uses_mipmaps,
        }
    }
}

/// Reuses equal sampler states even when the authored indices differ. A slot
/// names a sampler that the owner of the cache has made for the state.
#[derive(Debug)]
pub struct GltfSamplerCache {
    keys: Vec<GltfSamplerKey>,
}

/// Whether no value occurs twice.
pub open spec fn all_different<T>(values: Seq<T>) -> bool {
    forall|i: int, j: int|
        0 <= i < j < values.len() ==> #[trigger] values[i] != #[trigger] values[j]
}

impl View for GltfSamplerCache {
    type V = Seq<GltfSamplerKey>;

    closed spec fn view(&self) -> Seq<GltfSamplerKey> {
        self.keys@
    }
}

impl Default for GltfSamplerCache {
    fn default() -> (cache: Self)
        ensures
            cache@.len() == 0,
            cache.wf(),
    {
        GltfSamplerCache { keys: Vec::new() }
    }
}

/// The states of a cache after one was asked for: a state that is not there
/// gets the next slot.
pub open spec fn with_sampler(
    states: Seq<GltfSamplerKey>,
    state: GltfSamplerKey,
) -> Seq<GltfSamplerKey> {
    if states.contains(state) {
        states
    } else {
        states.push(state)
    }
}

impl GltfSamplerCache {
    /// Whether every state has one slot.
    pub open spec fn wf(&self) -> bool {
        all_different(self@)
    }

    /// A cache without samplers.
    pub fn new() -> (cache: Self)
        ensures
            cache@.len() == 0,
            cache.wf(),
    {
        GltfSamplerCache { keys: Vec::new() }
    }

    /// How many samplers there are.
    pub fn len(&self) -> (count: usize)
        ensures
            count == self@.len(),
    {
        self.keys.len()
    }

    /// Whether there is no sampler.
    pub fn is_empty(&self) -> (empty: bool)
        ensures
            empty == (self@.len() == 0),
    {
        self.keys.len() == 0
    }

    /// The state of a slot.
    pub fn key(&self, slot: usize) -> (key: GltfSamplerKey)
        requires
            slot < self@.len(),
        ensures
            key == self@[slot as int],
    {
        self.keys[slot]
    }

    /// The slot of the state of `sampler`, and whether a sampler has to be made
    /// for it: a state that is not there gets the next slot.
    pub fn get_or_create(&mut self, sampler: GltfSampler) -> (slot: (usize, bool))
        requires
            old(self).wf(),
        ensures
            final(self).wf(),
            slot.0 < final(self)@.len(),
            final(self)@[slot.0 as int] == sampler_key(sampler),
            slot.1 == !old(self)@.contains(sampler_key(sampler)),
            final(self)@ == with_sampler(old(self)@, sampler_key(sampler)),
    {
        let key = sampler.key();
        let mut i: usize = 0;
        while i < self.keys.len()
            invariant
                i <= self.keys.len(),
                key == sampler_key(sampler),
                old(self).wf(),
                self@ == old(self)@,
                self.keys@ == self@,
                forall|k: int| 0 <= k < i ==> #[trigger] self@[k] != key,
            decreases self.keys.len() - i,
        {
            if self.keys[i] == key {
                assert(old(self)@[i as int] == key);
                return (i, false);
            }
            i += 1;
        }
        self.keys.push(key);
        (i, true)
    }
}

/// Samplers that resolve to the same device state share a slot, whatever their
/// authored indices are.
pub proof fn equal_states_share_a_slot(
    cache: GltfSamplerCache,
    first: GltfSampler,
    second: GltfSampler,
    first_slot: int,
    second_slot: int,
)
    requires
        cache.wf(),
        sampler_key(first) == sampler_key(second),
        0 <= first_slot < cache@.len(),
        0 <= second_slot < cache@.len(),
        cache@[first_slot] == sampler_key(first),
        cache@[second_slot] == sampler_key(second),
    ensures
        first_slot == second_slot,
{
}

/// A texture as a material refers to it.
#[derive(Clone, Copy, Debug, PartialEq)]
pub struct TextureInfo {
    pub texture_index: usize,
    pub image_index: usize,
    pub sampler: GltfSampler,
    pub tex_coord: u32,
    pub transform: TextureTransform,
    pub role: TextureRole,
    pub color_space: TextureColorSpace,
}

/// The coordinate set that a texture is sampled with: the one of its transform
/// if there is one, else the authored one.
pub open spec fn selected_tex_coord(texture: TextureInfo) -> u32 {
    match texture.transform.tex_coord_override {
        Some(set) => set,
        None => texture.tex_coord,
    }
}

impl TextureInfo {
    /// The coordinate set that the texture is sampled with.
    pub fn effective_tex_coord(&self) -> (set: u32)
        ensures
            set == selected_tex_coord(*self),
    {
        match self.transform.tex_coord_override {
            Some(set) => set,
            None => self.tex_coord,
        }
    }

    /// Whether the lit and unlit shaders, which sample only the first
    /// coordinate set, can show the texture.
    pub fn current_base_color_fallback_uv_supported(&self) -> (supported: bool)
        ensures
            supported == (selected_tex_coord(*self) == 0),
    {
        self.effective_tex_coord() == 0
    }
}

/// A texture whose samples are scaled.
#[derive(Clone, Copy, Debug, PartialEq)]
pub struct ScaledTextureInfo {
    pub texture: TextureInfo,
    pub scale: Scalar,
}

/// The inputs that every shading model has.
#[derive(Clone, Copy, Debug, PartialEq)]
pub struct MaterialInputs {
    pub base_color_factor: [Scalar; 4],
    pub base_color_texture: Option<TextureInfo>,
    pub normal_texture: Option<ScaledTextureInfo>,
    pub emissive_factor: [Scalar; 3],
    pub emissive_texture: Option<TextureInfo>,
    pub alpha_mode: MaterialAlphaMode,
    pub alpha_cutoff: Scalar,
    pub double_sided: bool,
}

/// The pattern of one half, the alpha cutoff of a material that has none.
pub const HALF: u32 = 0x3f00_0000;

/// Whether `inputs` are those of a material that authors none: opaque white.
pub open spec fn are_default_inputs(inputs: MaterialInputs) -> bool {
    &&& forall|k: int|
        0 <= k < 4 ==> (#[trigger] inputs.base_color_factor@[k]).bits == 0x3f80_0000
    &&& inputs.base_color_texture is None
    &&& inputs.normal_texture is None
    &&& forall|k: int| 0 <= k < 3 ==> (#[trigger] inputs.emissive_factor@[k]).bits == 0
    &&& inputs.emissive_texture is None
    &&& inputs.alpha_mode == MaterialAlphaMode::Opaque
    &&& inputs.alpha_cutoff.bits == HALF
    &&& !inputs.double_sided
}

impl Default for MaterialInputs {
    fn default() -> (inputs: Self)
        ensures
            are_default_inputs(inputs),
    {
        MaterialInputs {
            base_color_factor: [Scalar::one(), Scalar::one(), Scalar::one(), Scalar::one()],
            base_color_texture: None,
            normal_texture: None,
            emissive_factor: [Scalar::zero(), Scalar::zero(), Scalar::zero()],
            emissive_texture: None,
            alpha_mode: MaterialAlphaMode::Opaque,
            alpha_cutoff: Scalar { bits: HALF },
            double_sided: false,
        }
    }
}

#[derive(Clone, Copy, Debug, PartialEq, Eq, Structural)]
pub enum MtoonOutlineWidthMode {
    Off,
    WorldCoordinates,
    ScreenCoordinates,
}

/// The parameters of the toon shading model.
#[derive(Debug, PartialEq)]
pub struct MtoonMaterial {
    pub spec_version: String,
    pub transparent_with_z_write: bool,
    pub render_queue_offset_number: i32,
    pub shade_color_factor: [Scalar; 3],
    pub shade_multiply_texture: Option<TextureInfo>,
    pub shading_shift_factor: Scalar,
    pub shading_shift_texture: Option<ScaledTextureInfo>,
    pub shading_toony_factor: Scalar,
    pub gi_equalization_factor: Scalar,
    pub matcap_factor: [Scalar; 3],
    pub matcap_texture: Option<TextureInfo>,
    pub parametric_rim_color_factor: [Scalar; 3],
    pub parametric_rim_fresnel_power_factor: Scalar,
    pub parametric_rim_lift_factor: Scalar,
    pub rim_multiply_texture: Option<TextureInfo>,
    pub rim_lighting_mix_factor: Scalar,
    pub outline_width_mode: MtoonOutlineWidthMode,
    pub outline_width_factor: Scalar,
    pub outline_width_multiply_texture: Option<TextureInfo>,
    pub outline_color_factor: [Scalar; 3],
    pub outline_lighting_mix_factor: Scalar,
    pub uv_animation_mask_texture: Option<TextureInfo>,
    pub uv_animation_scroll_x_speed_factor: Scalar,
    pub uv_animation_scroll_y_speed_factor: Scalar,
    pub uv_animation_rotation_speed_factor: Scalar,
}

impl Clone for MtoonMaterial {
    fn clone(&self) -> (copy: Self)
        ensures
            copy == *self,
    {
        MtoonMaterial {
            spec_version: self.spec_version.clone(),
            transparent_with_z_write: self.transparent_with_z_write,
            render_queue_offset_number: self.render_queue_offset_number,
            shade_color_factor: self.shade_color_factor,
            shade_multiply_texture: self.shade_multiply_texture,
            shading_shift_factor: self.shading_shift_factor,
            shading_shift_texture: self.shading_shift_texture,
            shading_toony_factor: self.shading_toony_factor,
            gi_equalization_factor: self.gi_equalization_factor,
            matcap_factor: self.matcap_factor,
            matcap_texture: self.matcap_texture,
            parametric_rim_color_factor: self.parametric_rim_color_factor,
            parametric_rim_fresnel_power_factor: self.parametric_rim_fresnel_power_factor,
            parametric_rim_lift_factor: self.parametric_rim_lift_factor,
            rim_multiply_texture: self.rim_multiply_texture,
            rim_lighting_mix_factor: self.rim_lighting_mix_factor,
            outline_width_mode: self.outline_width_mode,
            outline_width_factor: self.outline_width_factor,
            outline_width_multiply_texture: self.outline_width_multiply_texture,
            outline_color_factor: self.outline_color_factor,
            outline_lighting_mix_factor: self.outline_lighting_mix_factor,
            uv_animation_mask_texture: self.uv_animation_mask_texture,
            uv_animation_scroll_x_speed_factor: self.uv_animation_scroll_x_speed_factor,
            uv_animation_scroll_y_speed_factor: self.uv_animation_scroll_y_speed_factor,
            uv_animation_rotation_speed_factor: self.uv_animation_rotation_speed_factor,
        }
    }
}

/// Toon parameters for one authored material, addressed by its index.
#[derive(Clone, Debug, PartialEq)]
pub struct MtoonMaterialDescriptor {
    pub material_index: usize,
    pub inputs: MaterialInputs,
    pub mtoon: MtoonMaterial,
}

#[derive(Clone, Copy, Debug, PartialEq, Default)]
pub struct PocketLitMaterial;

#[derive(Clone, Copy, Debug, PartialEq, Default)]
pub struct UnlitMaterial;

/// The shading model of a material with its own parameters.
#[derive(Clone, Debug, PartialEq)]
pub enum MaterialModel {
    PocketLit(PocketLitMaterial),
    Unlit(UnlitMaterial),
    Mtoon(Box<MtoonMaterial>),
}

/// The shading model that `model` is.
pub open spec fn kind_of(model: MaterialModel) -> MaterialKind {
    match model {
        MaterialModel::PocketLit(_) => MaterialKind::PocketLit,
        MaterialModel::Unlit(_) => MaterialKind::Unlit,
        MaterialModel::Mtoon(_) => MaterialKind::Mtoon,
    }
}

impl MaterialModel {
    /// The shading model.
    pub fn kind(&self) -> (kind: MaterialKind)
        ensures
            kind == kind_of(*self),
    {
        match self {
            MaterialModel::PocketLit(_) => MaterialKind::PocketLit,
            MaterialModel::Unlit(_) => MaterialKind::Unlit,
            MaterialModel::Mtoon(_) => MaterialKind::Mtoon,
        }
    }
}

/// An authored material.
#[derive(Clone, Debug, PartialEq)]
pub struct MaterialAsset {
    pub gltf_material_index: usize,
    pub name: Option<String>,
    pub inputs: MaterialInputs,
    pub model: MaterialModel,
}

/// The texture of `scaled`, if there is one.
pub open spec fn unscaled(scaled: Option<ScaledTextureInfo>) -> Option<TextureInfo> {
    match scaled {
        Some(scaled) => Some(scaled.texture),
        None => None,
    }
}

/// `texture` as a sequence of at most one.
pub open spec fn as_seq(texture: Option<TextureInfo>) -> Seq<TextureInfo> {
    match texture {
        Some(texture) => seq![texture],
        None => seq![],
    }
}

/// The textures of `inputs`: base colour, normal, emissive.
pub open spec fn input_textures(inputs: MaterialInputs) -> Seq<TextureInfo> {
    as_seq(inputs.base_color_texture) + as_seq(unscaled(inputs.normal_texture)) + as_seq(
        inputs.emissive_texture,
    )
}

/// The textures of `mtoon`: shade, shift, matcap, rim, outline, animation mask.
pub open spec fn mtoon_textures(mtoon: MtoonMaterial) -> Seq<TextureInfo> {
    as_seq(mtoon.shade_multiply_texture) + as_seq(unscaled(mtoon.shading_shift_texture)) + as_seq(
        mtoon.matcap_texture,
    ) + as_seq(mtoon.rim_multiply_texture) + as_seq(mtoon.outline_width_multiply_texture) + as_seq(
        mtoon.uv_animation_mask_texture,
    )
}

/// Every texture of `material`.
pub open spec fn material_textures(material: MaterialAsset) -> Seq<TextureInfo> {
    match material.model {
        MaterialModel::Mtoon(mtoon) => input_textures(material.inputs) + mtoon_textures(*mtoon),
        _ => input_textures(material.inputs),
    }
}

fn push_texture(textures: &mut Vec<TextureInfo>, texture: Option<TextureInfo>)
    ensures
        final(textures)@ == old(textures)@ + as_seq(texture),
{
    match texture {
        Some(texture) => {
            textures.push(texture);
            assert(textures@ =~= old(textures)@ + seq![texture]);
        },
        None => {
            assert(textures@ =~= old(textures)@ + Seq::<TextureInfo>::empty());
        },
    }
}

fn without_scale(scaled: Option<ScaledTextureInfo>) -> (texture: Option<TextureInfo>)
    ensures
        texture == unscaled(scaled),
{
    match scaled {
        Some(scaled) => Some(scaled.texture),
        None => None,
    }
}

impl MaterialInputs {
    /// The textures of the inputs: base colour, normal, emissive.
    pub fn textures(&self) -> (textures: Vec<TextureInfo>)
        ensures
            textures@ == input_textures(*self),
    {
        let mut textures: Vec<TextureInfo> = Vec::new();
        push_texture(&mut textures, self.base_color_texture);
        push_texture(&mut textures, without_scale(self.normal_texture));
        push_texture(&mut textures, self.emissive_texture);
        assert(textures@ =~= input_textures(*self));
        textures
    }
}

impl MtoonMaterial {
    fn push_textures(&self, textures: &mut Vec<TextureInfo>)
        ensures
            final(textures)@ == old(textures)@ + mtoon_textures(*self),
    {
        push_texture(textures, self.shade_multiply_texture);
        push_texture(textures, without_scale(self.shading_shift_texture));
        push_texture(textures, self.matcap_texture);
        push_texture(textures, self.rim_multiply_texture);
        push_texture(textures, self.outline_width_multiply_texture);
        push_texture(textures, self.uv_animation_mask_texture);
        assert(textures@ =~= old(textures)@ + mtoon_textures(*self));
    }
}

impl MtoonMaterialDescriptor {
    /// Every texture that the descriptor names.
    pub fn textures(&self) -> (textures: Vec<TextureInfo>)
        ensures
            textures@ == input_textures(self.inputs) + mtoon_textures(self.mtoon),
    {
        let mut textures = self.inputs.textures();
        self.mtoon.push_textures(&mut textures);
        textures
    }
}

/// Texture transforms by role, at most one for each.
#[derive(Clone, Copy, Debug, PartialEq)]
pub struct TextureTransforms {
    base_color: Option<TextureTransform>,
    normal: Option<TextureTransform>,
    emissive: Option<TextureTransform>,
    shade_multiply: Option<TextureTransform>,
    shading_shift: Option<TextureTransform>,
    matcap: Option<TextureTransform>,
    rim_multiply: Option<TextureTransform>,
    outline_width: Option<TextureTransform>,
    uv_animation_mask: Option<TextureTransform>,
}

impl TextureTransforms {
    /// The transform of `role`.
    closed spec fn at(self, role: TextureRole) -> Option<TextureTransform> {
        match role {
            TextureRole::BaseColor => self.base_color,
            TextureRole::Normal => self.normal,
            TextureRole::Emissive => self.emissive,
            TextureRole::ShadeMultiply => self.shade_multiply,
            TextureRole::ShadingShift => self.shading_shift,
            TextureRole::Matcap => self.matcap,
            TextureRole::RimMultiply => self.rim_multiply,
            TextureRole::OutlineWidth => self.outline_width,
            TextureRole::UvAnimationMask => self.uv_animation_mask,
        }
    }
}

impl View for TextureTransforms {
    type V = Map<TextureRole, TextureTransform>;

    closed spec fn view(&self) -> Map<TextureRole, TextureTransform> {
        Map::new(
            |role: TextureRole| self.at(role) is Some,
            |role: TextureRole| self.at(role)->Some_0,
        )
    }
}

impl TextureTransforms {
    /// No transforms.
    pub fn new() -> (transforms: Self)
        ensures
            transforms@ == Map::<TextureRole, TextureTransform>::empty(),
    {
        let transforms = TextureTransforms {
            base_color: None,
            normal: None,
            emissive: None,
            shade_multiply: None,
            shading_shift: None,
            matcap: None,
            rim_multiply: None,
            outline_width: None,
            uv_animation_mask: None,
        };
        assert(transforms@ =~= Map::<TextureRole, TextureTransform>::empty());
        transforms
    }

    /// Sets the transform of `role`.
    pub fn insert(&mut self, role: TextureRole, transform: TextureTransform)
        ensures
            final(self)@ == old(self)@.insert(role, transform),
    {
        match role {
            TextureRole::BaseColor => self.base_color = Some(transform),
            TextureRole::Normal => self.normal = Some(transform),
            TextureRole::Emissive => self.emissive = Some(transform),
            TextureRole::ShadeMultiply => self.shade_multiply = Some(transform),
            TextureRole::ShadingShift => self.shading_shift = Some(transform),
            TextureRole::Matcap => self.matcap = Some(transform),
            TextureRole::RimMultiply => self.rim_multiply = Some(transform),
            TextureRole::OutlineWidth => self.outline_width = Some(transform),
            TextureRole::UvAnimationMask => self.uv_animation_mask = Some(transform),
        }
        assert(self@ =~= old(self)@.insert(role, transform));
    }

    /// The transform of `role`, if it has one.
    pub fn get(&self, role: TextureRole) -> (transform: Option<TextureTransform>)
        ensures
            transform == (if self@.dom().contains(role) {
                Some(self@[role])
            } else {
                None
            }),
    {
        match role {
            TextureRole::BaseColor => self.base_color,
            TextureRole::Normal => self.normal,
            TextureRole::Emissive => self.emissive,
            TextureRole::ShadeMultiply => self.shade_multiply,
            TextureRole::ShadingShift => self.shading_shift,
            TextureRole::Matcap => self.matcap,
            TextureRole::RimMultiply => self.rim_multiply,
            TextureRole::OutlineWidth => self.outline_width,
            TextureRole::UvAnimationMask => self.uv_animation_mask,
        }
    }
}

/// Transforms are the same as soon as each role has the same one, in whatever
/// order they were set.
pub proof fn transforms_are_their_map(a: TextureTransforms, b: TextureTransforms)
    requires
        a@ == b@,
    ensures
        a == b,
{
    assert forall|role: TextureRole| a.at(role) == #[trigger] b.at(role) by {
        assert(a@.dom().contains(role) == b@.dom().contains(role));
        if a@.dom().contains(role) {
            assert(a@[role] == a.at(role)->Some_0);
            assert(b@[role] == b.at(role)->Some_0);
        } else {
            assert(a.at(role) is None);
            assert(b.at(role) is None);
        }
    }
    assert(a.at(TextureRole::BaseColor) == b.at(TextureRole::BaseColor));
    assert(a.at(TextureRole::Normal) == b.at(TextureRole::Normal));
    assert(a.at(TextureRole::Emissive) == b.at(TextureRole::Emissive));
    assert(a.at(TextureRole::ShadeMultiply) == b.at(TextureRole::ShadeMultiply));
    assert(a.at(TextureRole::ShadingShift) == b.at(TextureRole::ShadingShift));
    assert(a.at(TextureRole::Matcap) == b.at(TextureRole::Matcap));
    assert(a.at(TextureRole::RimMultiply) == b.at(TextureRole::RimMultiply));
    assert(a.at(TextureRole::OutlineWidth) == b.at(TextureRole::OutlineWidth));
    assert(a.at(TextureRole::UvAnimationMask) == b.at(TextureRole::UvAnimationMask));
}

/// The mutable toon values of one instance.
#[derive(Clone, Copy, Debug, PartialEq)]
pub struct MtoonMaterialState {
    pub shade_color_factor: [Scalar; 3],
    pub matcap_factor: [Scalar; 3],
    pub parametric_rim_color_factor: [Scalar; 3],
    pub outline_color_factor: [Scalar; 3],
}

/// The mutable material values of one instance.
#[derive(Clone, Debug, PartialEq)]
pub struct MaterialState {
    pub base_color_factor: [Scalar; 4],
    pub emissive_factor: [Scalar; 3],
    pub mtoon: Option<MtoonMaterialState>,
    pub texture_transforms: TextureTransforms,
}

/// The transform of each role among the first `count` of `textures`.
pub open spec fn authored_transforms(textures: Seq<TextureInfo>, count: nat) -> Map<
    TextureRole,
    TextureTransform,
>
    decreases count,
{
    if count == 0 {
        Map::empty()
    } else {
        authored_transforms(textures, (count - 1) as nat).insert(
            textures[count - 1].role,
            textures[count - 1].transform,
        )
    }
}

/// Whether `state` holds exactly the authored values of `material`.
pub open spec fn is_authored_state(material: MaterialAsset, state: MaterialState) -> bool {
    &&& state.base_color_factor == material.inputs.base_color_factor
    &&& state.emissive_factor == material.inputs.emissive_factor
    &&& state.mtoon == (match material.model {
        MaterialModel::Mtoon(mtoon) => Some(
            MtoonMaterialState {
                shade_color_factor: mtoon.shade_color_factor,
                matcap_factor: mtoon.matcap_factor,
                parametric_rim_color_factor: mtoon.parametric_rim_color_factor,
                outline_color_factor: mtoon.outline_color_factor,
            },
        ),
        _ => None,
    })
    &&& state.texture_transforms@ == authored_transforms(
        material_textures(material),
        material_textures(material).len(),
    )
}

impl MaterialAsset {
    /// The shading model.
    pub fn kind(&self) -> (kind: MaterialKind)
        ensures
            kind == kind_of(self.model),
    {
        self.model.kind()
    }

    /// A lit material with default inputs.
    pub fn pocket_lit(gltf_material_index: usize, name: Option<String>) -> (material: Self)
        ensures
            material.gltf_material_index == gltf_material_index,
            material.name == name,
            are_default_inputs(material.inputs),
            material.model == MaterialModel::PocketLit(PocketLitMaterial),
    {
        let inputs = MaterialInputs::default();
        MaterialAsset {
            gltf_material_index,
            name,
            inputs,
            model: MaterialModel::PocketLit(PocketLitMaterial),
        }
    }

    /// Every texture of the material.
    pub fn textures(&self) -> (textures: Vec<TextureInfo>)
        ensures
            textures@ == material_textures(*self),
    {
        let mut textures = self.inputs.textures();
        if let MaterialModel::Mtoon(mtoon) = &self.model {
            mtoon.push_textures(&mut textures);
        }
        textures
    }

    /// The authored values, as the start of an instance's own.
    pub fn authored_state(&self) -> (state: MaterialState)
        ensures
            is_authored_state(*self, state),
    {
        let mtoon = match &self.model {
            MaterialModel::Mtoon(mtoon) => Some(
                MtoonMaterialState {
                    shade_color_factor: mtoon.shade_color_factor,
                    matcap_factor: mtoon.matcap_factor,
                    parametric_rim_color_factor: mtoon.parametric_rim_color_factor,
                    outline_color_factor: mtoon.outline_color_factor,
                },
            ),
            _ => None,
        };
        let textures = self.textures();
        let mut texture_transforms = TextureTransforms::new();
        let mut i: usize = 0;
        while i < textures.len()
            invariant
                i <= textures.len(),
                texture_transforms@ == authored_transforms(textures@, i as nat),
            decreases textures.len() - i,
        {
            texture_transforms.insert(textures[i].role, textures[i].transform);
            i += 1;
        }
        MaterialState {
            base_color_factor: self.inputs.base_color_factor,
            emissive_factor: self.inputs.emissive_factor,
            mtoon,
            texture_transforms,
        }
    }
}

/// Per-instance state, indexed by authored material index.
#[derive(Clone, Debug, PartialEq)]
pub struct MaterialStateSet {
    states: Vec<MaterialState>,
}

impl View for MaterialStateSet {
    type V = Seq<MaterialState>;

    closed spec fn view(&self) -> Seq<MaterialState> {
        self.states@
    }
}

/// Whether `states` holds exactly the authored values of `materials`.
pub open spec fn are_authored_states(
    materials: Seq<MaterialAsset>,
    states: Seq<MaterialState>,
) -> bool {
    &&& states.len() == materials.len()
    &&& forall|i: int|
        0 <= i < states.len() ==> #[trigger] is_authored_state(materials[i], states[i])
}

impl Default for MaterialStateSet {
    fn default() -> (set: Self)
        ensures
            set@.len() == 0,
    {
        MaterialStateSet { states: Vec::new() }
    }
}

impl MaterialStateSet {
    fn push_authored(&mut self, materials: &[MaterialAsset])
        requires
            old(self)@.len() == 0,
        ensures
            are_authored_states(materials@, final(self)@),
    {
        let mut i: usize = 0;
        while i < materials.len()
            invariant
                i <= materials.len(),
                self@.len() == i,
                forall|k: int|
                    0 <= k < i ==> #[trigger] is_authored_state(materials@[k], self@[k]),
            decreases materials.len() - i,
        {
            let state = materials[i].authored_state();
            let ghost before = self@;
            self.states.push(state);
            assert(self@ =~= before.push(state));
            i += 1;
        }
    }

    /// The authored values of `materials`, which stand at their own indices.
    pub fn from_assets(materials: &[MaterialAsset]) -> (set: Self)
        requires
            forall|i: int|
                0 <= i < materials@.len() ==> (#[trigger] materials@[i]).gltf_material_index == i,
        ensures
            are_authored_states(materials@, set@),
    {
        let mut set = MaterialStateSet { states: Vec::new() };
        set.push_authored(materials);
        set
    }

    /// The state of a material, if there is such a material.
    pub fn get(&self, gltf_material_index: usize) -> (state: Option<&MaterialState>)
        ensures
            match state {
                Some(state) => gltf_material_index < self@.len() && *state
                    == self@[gltf_material_index as int],
                None => gltf_material_index >= self@.len(),
            },
    {
        if gltf_material_index < self.states.len() {
            Some(&self.states[gltf_material_index])
        } else {
            None
        }
    }

    /// The state of a material for changing it, if there is such a material.
    pub fn get_mut(&mut self, gltf_material_index: usize) -> (state: Option<&mut MaterialState>)
        ensures
            match state {
                Some(state) => gltf_material_index < old(self)@.len() && *state
                    == old(self)@[gltf_material_index as int] && final(self)@ == old(self)@.update(
                    gltf_material_index as int,
                    *final(state),
                ),
                None => gltf_material_index >= old(self)@.len() && final(self)@ == old(self)@,
            },
    {
        if gltf_material_index < self.states.len() {
            Some(&mut self.states[gltf_material_index])
        } else {
            None
        }
    }

    /// Restores every value from the authored materials, so that what is built
    /// on top does not depend on earlier frames.
    pub fn reset_from_assets(&mut self, materials: &[MaterialAsset])
        ensures
            are_authored_states(materials@, final(self)@),
    {
        self.states.clear();
        self.push_authored(materials);
    }

    /// How many materials there are.
    pub fn len(&self) -> (count: usize)
        ensures
            count == self@.len(),
    {
        self.states.len()
    }

    /// Whether there is no material.
    pub fn is_empty(&self) -> (empty: bool)
        ensures
            empty == (self@.len() == 0),
    {
        self.states.len() == 0
    }
}

/// The order in which surfaces are drawn.
#[derive(Clone, Copy, Debug, PartialEq, Eq, Hash, PartialOrd, Ord, Structural)]
pub enum RenderPhase {
    Opaque,
    Mask,
    MtoonBlendZWrite,
    Blend,
}

/// Render states that surfaces of a phase share.
#[derive(Clone, Copy, Debug, PartialEq, Eq, Structural)]
pub enum RenderPassClass {
    Solid,
    Blend,
}

/// The phase of a surface that does not write depth while blending.
pub open spec fn fallback_phase(alpha_mode: MaterialAlphaMode) -> RenderPhase {
    match alpha_mode {
        MaterialAlphaMode::Opaque => RenderPhase::Opaque,
        MaterialAlphaMode::Mask => RenderPhase::Mask,
        MaterialAlphaMode::Blend => RenderPhase::Blend,
    }
}

/// Whether surfaces of `phase` are blended over what is behind them.
pub open spec fn is_blended(phase: RenderPhase) -> bool {
    phase == RenderPhase::MtoonBlendZWrite || phase == RenderPhase::Blend
}

/// The phase of a surface while its whole instance has the opacity `alpha`.
pub open spec fn faded_phase(phase: RenderPhase, alpha: Scalar) -> RenderPhase {
    if less(alpha, Scalar { bits: 0x3f80_0000 }) && !is_blended(phase) {
        RenderPhase::Blend
    } else {
        phase
    }
}

impl RenderPhase {
    /// The phase of a surface with this alpha policy.
    pub fn fallback(alpha_mode: MaterialAlphaMode) -> (phase: Self)
        ensures
            phase == fallback_phase(alpha_mode),
    {
        match alpha_mode {
            MaterialAlphaMode::Opaque => RenderPhase::Opaque,
            MaterialAlphaMode::Mask => RenderPhase::Mask,
            MaterialAlphaMode::Blend => RenderPhase::Blend,
        }
    }

    /// The render states of the phase.
    pub fn pass_class(self) -> (class: RenderPassClass)
        ensures
            class == (if is_blended(self) {
                RenderPassClass::Blend
            } else {
                RenderPassClass::Solid
            }),
    {
        match self {
            RenderPhase::Opaque | RenderPhase::Mask => RenderPassClass::Solid,
            RenderPhase::MtoonBlendZWrite | RenderPhase::Blend => RenderPassClass::Blend,
        }
    }

    /// The phase while the whole instance fades: solid surfaces join the blend
    /// phase, blended ones keep their own.
    pub fn with_presentation_alpha(self, presentation_alpha: Scalar) -> (phase: Self)
        ensures
            phase == faded_phase(self, presentation_alpha),
    {
        let fading = presentation_alpha.less(Scalar::one());
        match self {
            RenderPhase::Opaque | RenderPhase::Mask => if fading {
                RenderPhase::Blend
            } else {
                self
            },
            _ => self,
        }
    }

    /// The place of the phase in the drawing order.
    fn index(self) -> (at: u8)
        ensures
            at == phase_rank(self),
    {
        match self {
            RenderPhase::Opaque => 0,
            RenderPhase::Mask => 1,
            RenderPhase::MtoonBlendZWrite => 2,
            RenderPhase::Blend => 3,
        }
    }
}

/// The place of `phase` in the drawing order.
pub open spec fn phase_rank(phase: RenderPhase) -> int {
    match phase {
        RenderPhase::Opaque => 0,
        RenderPhase::Mask => 1,
        RenderPhase::MtoonBlendZWrite => 2,
        RenderPhase::Blend => 3,
    }
}

/// What decides when a surface is drawn.
#[derive(Clone, Copy, Debug, PartialEq)]
pub struct RenderSortKey {
    pub phase: RenderPhase,
    pub queue_offset: i32,
    pub camera_depth: Scalar,
    pub author_draw_order: u64,
}

/// `depth`, or zero if it is not finite.
pub open spec fn safe_depth(depth: Scalar) -> Scalar {
    if is_finite(depth) {
        depth
    } else {
        Scalar { bits: 0 }
    }
}

/// The place of a key within its phase and queue offset by depth: far before
/// near where surfaces are blended, no preference elsewhere.
pub open spec fn depth_place(key: RenderSortKey) -> int {
    if is_blended(key.phase) {
        -rank(safe_depth(key.camera_depth))
    } else {
        0
    }
}

/// Whether `a` is drawn before `b`: by phase, then queue offset, then depth,
/// then authored order.
pub open spec fn drawn_before(a: RenderSortKey, b: RenderSortKey) -> bool {
    if phase_rank(a.phase) != phase_rank(b.phase) {
        phase_rank(a.phase) < phase_rank(b.phase)
    } else if a.queue_offset != b.queue_offset {
        a.queue_offset < b.queue_offset
    } else if depth_place(a) != depth_place(b) {
        depth_place(a) < depth_place(b)
    } else {
        a.author_draw_order < b.author_draw_order
    }
}

impl RenderSortKey {
    /// The rank of the depth in the total order of numbers.
    fn depth_rank(&self) -> (at: i64)
        ensures
            at == rank(safe_depth(self.camera_depth)),
    {
        self.camera_depth.finite_or(Scalar::zero()).total_rank()
    }

    /// Whether this surface is drawn before, with or after `other`.
    pub fn compare(&self, other: &Self) -> (order: Ordering)
        ensures
            order == (if drawn_before(*self, *other) {
                Ordering::Less
            } else if drawn_before(*other, *self) {
                Ordering::Greater
            } else {
                Ordering::Equal
            }),
    {
        let phase: u8 = self.phase.index();
        let other_phase: u8 = other.phase.index();
        if phase != other_phase {
            return if phase < other_phase {
                Ordering::Less
            } else {
                Ordering::Greater
            };
        }
        if self.queue_offset != other.queue_offset {
            return if self.queue_offset < other.queue_offset {
                Ordering::Less
            } else {
                Ordering::Greater
            };
        }
        if self.phase.pass_class() == RenderPassClass::Blend {
            let depth: i64 = self.depth_rank();
            let other_depth: i64 = other.depth_rank();
            if depth != other_depth {
                return if depth > other_depth {
                    Ordering::Less
                } else {
                    Ordering::Greater
                };
            }
        }
        if self.author_draw_order < other.author_draw_order {
            Ordering::Less
        } else if self.author_draw_order > other.author_draw_order {
            Ordering::Greater
        } else {
            Ordering::Equal
        }
    }
}

/// The drawing order is a strict order, and surfaces that it does not tell
/// apart have the same authored place.
pub proof fn drawing_order_is_strict(a: RenderSortKey, b: RenderSortKey, c: RenderSortKey)
    ensures
        !drawn_before(a, a),
        drawn_before(a, b) ==> !drawn_before(b, a),
        drawn_before(a, b) && drawn_before(b, c) ==> drawn_before(a, c),
        !drawn_before(a, b) && !drawn_before(b, a) ==> a.author_draw_order == b.author_draw_order
            && a.phase == b.phase && a.queue_offset == b.queue_offset,
{
}

/// Every solid surface is drawn before every blended one, whatever the queue
/// offsets and depths are.
pub proof fn solid_surfaces_come_first(a: RenderSortKey, b: RenderSortKey)
    requires
        !is_blended(a.phase),
        is_blended(b.phase),
    ensures
        drawn_before(a, b),
{
}

/// Blended surfaces of one phase and queue offset are drawn far before near.
pub proof fn far_surfaces_come_first(a: RenderSortKey, b: RenderSortKey)
    requires
        is_blended(a.phase),
        a.phase == b.phase,
        a.queue_offset == b.queue_offset,
        less(safe_depth(b.camera_depth), safe_depth(a.camera_depth)),
    ensures
        drawn_before(a, b),
{
    crate::scalar::rank_extends_less(safe_depth(b.camera_depth), safe_depth(a.camera_depth));
}

#[derive(Clone, Copy, Debug, PartialEq, Eq, Hash, Structural)]
pub enum PipelineShadingModel {
    PocketLit,
    Unlit,
    Mtoon,
}

#[derive(Clone, Copy, Debug, PartialEq, Eq, Hash, Structural)]
pub enum PipelineBlendDepthFamily {
    OpaqueOrMask,
    BlendNoDepthWrite,
    BlendDepthWrite,
}

#[derive(Clone, Copy, Debug, PartialEq, Eq, Hash, Structural)]
pub enum PipelineCullMode {
    Back,
    Off,
    Front,
}

#[derive(Clone, Copy, Debug, PartialEq, Eq, Hash, Structural)]
pub enum MaterialRenderPass {
    Surface,
    Outline,
}

/// What decides which device pipeline draws a surface.
#[derive(Clone, Copy, Debug, PartialEq, Eq, Hash, Structural)]
pub struct MaterialPipelineKey {
    pub shading_model: PipelineShadingModel,
    pub blend_depth_family: PipelineBlendDepthFamily,
    pub cull_mode: PipelineCullMode,
    pub render_pass: MaterialRenderPass,
    pub sample_count: u32,
}

/// The blend and depth states of a phase.
pub open spec fn family_of(phase: RenderPhase) -> PipelineBlendDepthFamily {
    match phase {
        RenderPhase::Opaque => PipelineBlendDepthFamily::OpaqueOrMask,
        RenderPhase::Mask => PipelineBlendDepthFamily::OpaqueOrMask,
        RenderPhase::MtoonBlendZWrite => PipelineBlendDepthFamily::BlendDepthWrite,
        RenderPhase::Blend => PipelineBlendDepthFamily::BlendNoDepthWrite,
    }
}

fn blend_depth_family(phase: RenderPhase) -> (family: PipelineBlendDepthFamily)
    ensures
        family == family_of(phase),
{
    match phase {
        RenderPhase::Opaque | RenderPhase::Mask => PipelineBlendDepthFamily::OpaqueOrMask,
        RenderPhase::MtoonBlendZWrite => PipelineBlendDepthFamily::BlendDepthWrite,
        RenderPhase::Blend => PipelineBlendDepthFamily::BlendNoDepthWrite,
    }
}

fn surface_cull_mode(double_sided: bool) -> (cull_mode: PipelineCullMode)
    ensures
        cull_mode == (if double_sided {
            PipelineCullMode::Off
        } else {
            PipelineCullMode::Back
        }),
{
    if double_sided {
        PipelineCullMode::Off
    } else {
        PipelineCullMode::Back
    }
}

impl MaterialPipelineKey {
    /// The pipeline of a toon surface.
    pub fn native_stage_d(phase: RenderPhase, double_sided: bool, sample_count: u32) -> (key: Self)
        ensures
            key == (MaterialPipelineKey {
                shading_model: PipelineShadingModel::Mtoon,
                blend_depth_family: family_of(phase),
                cull_mode: if double_sided {
                    PipelineCullMode::Off
                } else {
                    PipelineCullMode::Back
                },
                render_pass: MaterialRenderPass::Surface,
                sample_count,
            }),
    {
        MaterialPipelineKey {
            shading_model: PipelineShadingModel::Mtoon,
            blend_depth_family: blend_depth_family(phase),
            cull_mode: surface_cull_mode(double_sided),
            render_pass: MaterialRenderPass::Surface,
            sample_count,
        }
    }

    /// The pipeline of a toon outline, which always culls front faces.
    pub fn native_stage_e_outline(phase: RenderPhase, sample_count: u32) -> (key: Self)
        ensures
            key == (MaterialPipelineKey {
                shading_model: PipelineShadingModel::Mtoon,
                blend_depth_family: family_of(phase),
                cull_mode: PipelineCullMode::Front,
                render_pass: MaterialRenderPass::Outline,
                sample_count,
            }),
    {
        MaterialPipelineKey {
            shading_model: PipelineShadingModel::Mtoon,
            blend_depth_family: blend_depth_family(phase),
            cull_mode: PipelineCullMode::Front,
            render_pass: MaterialRenderPass::Outline,
            sample_count,
        }
    }

    /// The pipeline of a lit or unlit surface.
    pub fn current_fallback(
        unlit: bool,
        phase: RenderPhase,
        double_sided: bool,
        sample_count: u32,
    ) -> (key: Self)
        ensures
            key == (MaterialPipelineKey {
                shading_model: if unlit {
                    PipelineShadingModel::Unlit
                } else {
                    PipelineShadingModel::PocketLit
                },
                blend_depth_family: family_of(phase),
                cull_mode: if double_sided {
                    PipelineCullMode::Off
                } else {
                    PipelineCullMode::Back
                },
                render_pass: MaterialRenderPass::Surface,
                sample_count,
            }),
    {
        MaterialPipelineKey {
            shading_model: if unlit {
                PipelineShadingModel::Unlit
            } else {
                PipelineShadingModel::PocketLit
            },
            blend_depth_family: blend_depth_family(phase),
            cull_mode: surface_cull_mode(double_sided),
            render_pass: MaterialRenderPass::Surface,
            sample_count,
        }
    }
}

/// Colors are decoded from sRGB, data is read as it is: base, emissive, shade,
/// matcap and rim textures are colors.
pub proof fn only_colors_are_decoded(role: TextureRole)
    ensures
        role_color_space(role) is Srgb <==> role is BaseColor || role is Emissive
            || role is ShadeMultiply || role is Matcap || role is RimMultiply,
        role_color_space(role) is Linear <==> role is Normal || role is ShadingShift
            || role is OutlineWidth || role is UvAnimationMask,
{
}

/// A sampler is resolved as the file asks: it is linear but where the file asks
/// for the nearest texel or level, it has levels only where the file asks for
/// them, and each axis wraps as in the file.
pub proof fn samplers_are_resolved_as_asked(sampler: GltfSampler)
    ensures
        ({
            let key = sampler_key(sampler);
            let filter = sampler.min_filter;
            &&& key.mag_filter is Nearest <==> (sampler.mag_filter matches Some(filter)
                && filter is Nearest)
            &&& key.min_filter is Nearest <==> (filter matches Some(filter) && (filter is Nearest
                || filter is NearestMipmapNearest || filter is NearestMipmapLinear))
            &&& key.mipmap_filter is Linear <==> (filter matches Some(filter) && (
            filter is NearestMipmapLinear || filter is LinearMipmapLinear))
            &&& key.uses_mipmaps <==> (filter matches Some(filter) && !(filter is Nearest) && !(
            filter is Linear))
            &&& key.wrap_s == sampler.wrap_s
            &&& key.wrap_t == sampler.wrap_t
        }),
{
}

/// A texture samples the coordinates that its transform names, else its own.
pub proof fn transforms_choose_the_coordinates(texture: TextureInfo)
    ensures
        texture.transform.tex_coord_override matches Some(set) ==> selected_tex_coord(texture)
            == set,
        texture.transform.tex_coord_override is None ==> selected_tex_coord(texture)
            == texture.tex_coord,
{
}

/// The phases are drawn in their order: opaque, masked, blended with depth,
/// blended.
pub proof fn phases_come_in_order(a: RenderSortKey, b: RenderSortKey)
    ensures
        a.phase is Opaque && !(b.phase is Opaque) ==> drawn_before(a, b) && !drawn_before(b, a),
        a.phase is Mask && (b.phase is MtoonBlendZWrite || b.phase is Blend) ==> drawn_before(a, b)
            && !drawn_before(b, a),
        a.phase is MtoonBlendZWrite && b.phase is Blend ==> drawn_before(a, b) && !drawn_before(
            b,
            a,
        ),
{
}

/// Within a phase lower queue offsets are drawn first, and within a queue what
/// was authored first, unless depth decides between blended surfaces.
pub proof fn queues_come_before_the_authored_order(a: RenderSortKey, b: RenderSortKey)
    requires
        a.phase == b.phase,
    ensures
        a.queue_offset < b.queue_offset ==> drawn_before(a, b),
        a.queue_offset == b.queue_offset && (a.phase is Opaque || a.phase is Mask)
            && a.author_draw_order < b.author_draw_order ==> drawn_before(a, b),
        a.queue_offset == b.queue_offset && a.camera_depth == b.camera_depth
            && a.author_draw_order < b.author_draw_order ==> drawn_before(a, b),
{
}

/// A solid surface of an instance that is less than opaque is blended; nothing
/// else changes its phase.
pub proof fn fading_blends_solid_surfaces(phase: RenderPhase, alpha: Scalar)
    ensures
        less(alpha, Scalar { bits: 0x3f80_0000 }) && (phase is Opaque || phase is Mask)
            ==> faded_phase(phase, alpha) is Blend,
        !less(alpha, Scalar { bits: 0x3f80_0000 }) ==> faded_phase(phase, alpha) == phase,
        phase is Blend || phase is MtoonBlendZWrite ==> faded_phase(phase, alpha) == phase,
        is_blended(phase) <==> phase is Blend || phase is MtoonBlendZWrite,
        fallback_phase(MaterialAlphaMode::Opaque) is Opaque,
        fallback_phase(MaterialAlphaMode::Mask) is Mask,
        fallback_phase(MaterialAlphaMode::Blend) is Blend,
{
}

/// Solid surfaces write depth without blending, blended ones blend, and of those
/// the toon phase that is meant to writes depth.
pub proof fn families_follow_the_phase(phase: RenderPhase)
    ensures
        family_of(phase) is OpaqueOrMask <==> phase is Opaque || phase is Mask,
        family_of(phase) is BlendDepthWrite <==> phase is MtoonBlendZWrite,
        family_of(phase) is BlendNoDepthWrite <==> phase is Blend,
{
}

/// Whether `texture` is one that a material samples.
pub open spec fn samples(material: MaterialAsset, texture: TextureInfo) -> bool {
    ||| material.inputs.base_color_texture == Some(texture)
    ||| (material.inputs.normal_texture matches Some(scaled) && scaled.texture == texture)
    ||| material.inputs.emissive_texture == Some(texture)
    ||| (material.model matches MaterialModel::Mtoon(mtoon) && {
        ||| mtoon.shade_multiply_texture == Some(texture)
        ||| (mtoon.shading_shift_texture matches Some(scaled) && scaled.texture == texture)
        ||| mtoon.matcap_texture == Some(texture)
        ||| mtoon.rim_multiply_texture == Some(texture)
        ||| mtoon.outline_width_multiply_texture == Some(texture)
        ||| mtoon.uv_animation_mask_texture == Some(texture)
    })
}

proof fn joined_contains<T>(a: Seq<T>, b: Seq<T>, value: T)
    ensures
        (a + b).contains(value) <==> a.contains(value) || b.contains(value),
{
    if a.contains(value) {
        let i = choose|i: int| 0 <= i < a.len() && a[i] == value;
        assert((a + b)[i] == value);
    }
    if b.contains(value) {
        let i = choose|i: int| 0 <= i < b.len() && b[i] == value;
        assert((a + b)[a.len() + i] == value);
    }
}

proof fn optional_contains(texture: Option<TextureInfo>, value: TextureInfo)
    ensures
        as_seq(texture).contains(value) <==> texture == Some(value),
{
    if texture == Some(value) {
        assert(as_seq(texture)[0] == value);
    }
}

/// A material lists exactly the textures that it samples.
pub proof fn every_sampled_texture_is_listed(material: MaterialAsset, texture: TextureInfo)
    ensures
        material_textures(material).contains(texture) <==> samples(material, texture),
{
    let inputs = material.inputs;
    let base = as_seq(inputs.base_color_texture);
    let normal = as_seq(unscaled(inputs.normal_texture));
    let emissive = as_seq(inputs.emissive_texture);
    joined_contains(base, normal, texture);
    joined_contains(base + normal, emissive, texture);
    optional_contains(inputs.base_color_texture, texture);
    optional_contains(unscaled(inputs.normal_texture), texture);
    optional_contains(inputs.emissive_texture, texture);
    if let MaterialModel::Mtoon(mtoon) = material.model {
        every_toon_texture_is_listed(inputs, *mtoon, texture);
    }
}

proof fn transforms_up_to(textures: Seq<TextureInfo>, count: nat, role: TextureRole)
    requires
        count <= textures.len(),
    ensures
        authored_transforms(textures, count).dom().contains(role) <==> exists|i: int|
            0 <= i < count && (#[trigger] textures[i]).role == role,
        authored_transforms(textures, count).dom().contains(role) ==> exists|i: int|
            0 <= i < count && (#[trigger] textures[i]).role == role && textures[i].transform
                == authored_transforms(textures, count)[role] && (forall|j: int|
                i < j < count ==> (#[trigger] textures[j]).role != role),
    decreases count,
{
    if count > 0 {
        transforms_up_to(textures, (count - 1) as nat, role);
        let last = textures[count - 1];
        if last.role == role {
            assert(textures[count - 1].role == role);
        } else if authored_transforms(textures, count).dom().contains(role) {
            let i = choose|i: int|
                0 <= i < count - 1 && (#[trigger] textures[i]).role == role
                    && textures[i].transform == authored_transforms(
                    textures,
                    (count - 1) as nat,
                )[role] && (forall|j: int|
                    i < j < count - 1 ==> (#[trigger] textures[j]).role != role);
            assert(textures[i].role == role);
        }
    }
}

/// The state of an instance starts with the colors that its material was
/// authored with, those of toon shading only for a toon material, and with the
/// transform of each of its textures.
pub proof fn states_start_as_authored(
    material: MaterialAsset,
    state: MaterialState,
    role: TextureRole,
)
    requires
        is_authored_state(material, state),
    ensures
        state.base_color_factor == material.inputs.base_color_factor,
        state.emissive_factor == material.inputs.emissive_factor,
        state.mtoon is Some <==> material.model is Mtoon,
        material.model matches MaterialModel::Mtoon(mtoon) ==> {
            let toon = state.mtoon.unwrap();
            &&& toon.shade_color_factor == mtoon.shade_color_factor
            &&& toon.matcap_factor == mtoon.matcap_factor
            &&& toon.parametric_rim_color_factor == mtoon.parametric_rim_color_factor
            &&& toon.outline_color_factor == mtoon.outline_color_factor
        },
        state.texture_transforms@.dom().contains(role) <==> exists|texture: TextureInfo|
            #[trigger] samples(material, texture) && texture.role == role,
        state.texture_transforms@.dom().contains(role) ==> exists|texture: TextureInfo|
            #[trigger] samples(material, texture) && texture.role == role && texture.transform
                == state.texture_transforms@[role],
{
    let textures = material_textures(material);
    transforms_up_to(textures, textures.len(), role);
    if state.texture_transforms@.dom().contains(role) {
        let i = choose|i: int|
            0 <= i < textures.len() && (#[trigger] textures[i]).role == role
                && textures[i].transform == authored_transforms(textures, textures.len())[role]
                && (forall|j: int|
                i < j < textures.len() ==> (#[trigger] textures[j]).role != role);
        assert(textures.contains(textures[i]));
        every_sampled_texture_is_listed(material, textures[i]);
    }
    if exists|texture: TextureInfo| #[trigger]
        samples(material, texture) && texture.role == role {
        let texture = choose|texture: TextureInfo| #[trigger]
            samples(material, texture) && texture.role == role;
        every_sampled_texture_is_listed(material, texture);
        let i = choose|i: int| 0 <= i < textures.len() && textures[i] == texture;
        assert(textures[i].role == role);
    }
}

/// A material that says nothing is opaque and white, does not shine, has no
/// textures, is cut at one half and is seen from one side.
pub proof fn plain_materials_are_white(inputs: MaterialInputs, k: int)
    requires
        are_default_inputs(inputs),
        0 <= k < 4,
    ensures
        inputs.base_color_factor@[k].bits == 0x3f80_0000,
        k < 3 ==> inputs.emissive_factor@[k].bits == 0,
        inputs.base_color_texture is None,
        inputs.normal_texture is None,
        inputs.emissive_texture is None,
        inputs.alpha_mode is Opaque,
        inputs.alpha_cutoff.bits == 0x3f00_0000,
        !inputs.double_sided,
{
}

/// There is one state for each material, in their order, each as authored.
pub proof fn every_material_has_its_state(
    materials: Seq<MaterialAsset>,
    states: Seq<MaterialState>,
    i: int,
)
    requires
        are_authored_states(materials, states),
        0 <= i < materials.len(),
    ensures
        states.len() == materials.len(),
        states[i].base_color_factor == materials[i].inputs.base_color_factor,
        states[i].emissive_factor == materials[i].inputs.emissive_factor,
        states[i].mtoon is Some <==> materials[i].model is Mtoon,
{
    assert(is_authored_state(materials[i], states[i]));
}

/// The kind of a material is that of its model.
pub proof fn kinds_are_those_of_the_model(model: MaterialModel)
    ensures
        kind_of(model) is PocketLit <==> model is PocketLit,
        kind_of(model) is Unlit <==> model is Unlit,
        kind_of(model) is Mtoon <==> model is Mtoon,
{
}

/// Whether `texture` is one that a toon material with these inputs samples.
pub open spec fn toon_samples(
    inputs: MaterialInputs,
    mtoon: MtoonMaterial,
    texture: TextureInfo,
) -> bool {
    ||| inputs.base_color_texture == Some(texture)
    ||| (inputs.normal_texture matches Some(scaled) && scaled.texture == texture)
    ||| inputs.emissive_texture == Some(texture)
    ||| mtoon.shade_multiply_texture == Some(texture)
    ||| (mtoon.shading_shift_texture matches Some(scaled) && scaled.texture == texture)
    ||| mtoon.matcap_texture == Some(texture)
    ||| mtoon.rim_multiply_texture == Some(texture)
    ||| mtoon.outline_width_multiply_texture == Some(texture)
    ||| mtoon.uv_animation_mask_texture == Some(texture)
}

/// A toon material lists exactly the textures that it samples.
pub proof fn every_toon_texture_is_listed(
    inputs: MaterialInputs,
    mtoon: MtoonMaterial,
    texture: TextureInfo,
)
    ensures
        (input_textures(inputs) + mtoon_textures(mtoon)).contains(texture) <==> toon_samples(
            inputs,
            mtoon,
            texture,
        ),
{
    let base = as_seq(inputs.base_color_texture);
    let normal = as_seq(unscaled(inputs.normal_texture));
    let emissive = as_seq(inputs.emissive_texture);
    joined_contains(base, normal, texture);
    joined_contains(base + normal, emissive, texture);
    optional_contains(inputs.base_color_texture, texture);
    optional_contains(unscaled(inputs.normal_texture), texture);
    optional_contains(inputs.emissive_texture, texture);
    let a = as_seq(mtoon.shade_multiply_texture);
    let b = as_seq(unscaled(mtoon.shading_shift_texture));
    let c = as_seq(mtoon.matcap_texture);
    let d = as_seq(mtoon.rim_multiply_texture);
    let e = as_seq(mtoon.outline_width_multiply_texture);
    let f = as_seq(mtoon.uv_animation_mask_texture);
    joined_contains(a, b, texture);
    joined_contains(a + b, c, texture);
    joined_contains(a + b + c, d, texture);
    joined_contains(a + b + c + d, e, texture);
    joined_contains(a + b + c + d + e, f, texture);
    joined_contains(input_textures(inputs), mtoon_textures(mtoon), texture);
    optional_contains(mtoon.shade_multiply_texture, texture);
    optional_contains(unscaled(mtoon.shading_shift_texture), texture);
    optional_contains(mtoon.matcap_texture, texture);
    optional_contains(mtoon.rim_multiply_texture, texture);
    optional_contains(mtoon.outline_width_multiply_texture, texture);
    optional_contains(mtoon.uv_animation_mask_texture, texture);
}

} // verus!
