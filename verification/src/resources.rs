//! Which textures and samplers a model needs: what is uploaded, what is shared
//! through the caches, and what stands in where a material has no texture.

use vstd::prelude::*;

use crate::authoring::{
    are_authored, authoring_error, descriptor_error, descriptor_for, descriptor_texture_error,
    is_authored, is_mtoon, native_stage_f_capable,
};
use crate::import::{descriptor_textures, ImageData, PixelFormat};
use crate::layout::{all_placements, is_placed, placements_exist};
use crate::material::{
    as_seq, default_sampler, sampler_key, unscaled, with_sampler, GltfSampler, GltfSamplerCache,
    GltfSamplerKey, MaterialAsset, MaterialModel, MtoonMaterial, MtoonMaterialDescriptor,
    TextureColorSpace, TextureInfo,
};
use crate::model::{is_model_layout, ModelAsset};
use crate::overrides::MaterialTextureOverride;
use crate::search::{first_some, first_some_found, first_some_none};
use crate::source::{names_one, SourceModel};
use crate::texture::{
    cap_texture_rgba, cap_texture_rgba_semantic, capped, images_are_not_capped_needlessly,
    is_capped, is_image, mtoon_texture_semantic, rgba_of, role_semantic, to_rgba8, with_texture,
    MipSemantic, ModelTextureCache, ModelTextureCacheKey, TextureCacheView, TextureKey,
};

verus! {

/// Whether an image can be uploaded: it has a size, and the texels for it.
pub open spec fn is_uploadable(image: ImageData) -> bool {
    &&& 0 < image.width
    &&& 0 < image.height
    &&& is_image(rgba_of(image), image.width, image.height)
}

/// Whether every image can be uploaded.
pub open spec fn are_uploadable(images: Seq<ImageData>) -> bool {
    forall|i: int| 0 <= i < images.len() ==> is_uploadable(#[trigger] images[i])
}

/// Whether `after` holds the keys of `before` at their slots.
pub open spec fn keeps<K>(before: Seq<K>, after: Seq<K>) -> bool {
    &&& before.len() <= after.len()
    &&& forall|k: int| 0 <= k < before.len() ==> #[trigger] after[k] == before[k]
}

/// What an image is uploaded as where it is a base colour.
pub open spec fn base_color_key(image: ImageData, max_texture_dim: Option<u32>) -> TextureKey {
    let (rgba, width, height) = match max_texture_dim {
        Some(limit) => capped(rgba_of(image), image.width, image.height, limit),
        None => (rgba_of(image), image.width, image.height),
    };
    TextureKey {
        width,
        height,
        rgba,
        color_space: TextureColorSpace::Srgb,
        mip_semantic: MipSemantic::Legacy,
    }
}

/// Whether `slots` say where the used images among `images` stand in the cache.
pub open spec fn are_base_slots(
    images: Seq<ImageData>,
    used: Seq<bool>,
    max_texture_dim: Option<u32>,
    keys: Seq<TextureKey>,
    slots: Seq<Option<usize>>,
) -> bool {
    forall|i: int| #![trigger slots[i]]
        0 <= i < slots.len() ==> (slots[i] is Some) == used[i] && (slots[i] matches Some(slot)
            ==> slot < keys.len() && keys[slot as int] == base_color_key(
            images[i],
            max_texture_dim,
        ))
}

/// A cache after the used ones among the first `count` images were put into it.
pub open spec fn with_base_colors(
    cache: TextureCacheView,
    images: Seq<ImageData>,
    used: Seq<bool>,
    max_texture_dim: Option<u32>,
    count: nat,
) -> TextureCacheView
    decreases count,
{
    if count == 0 {
        cache
    } else {
        let earlier = with_base_colors(cache, images, used, max_texture_dim, (count - 1) as nat);
        if used[count - 1] {
            with_texture(earlier, base_color_key(images[count - 1], max_texture_dim))
        } else {
            earlier
        }
    }
}

/// Puts the used images of a model into the cache and returns their slots. The
/// others share a white texture.
pub fn upload_base_colors(
    images: &Vec<ImageData>,
    used: &Vec<bool>,
    max_texture_dim: Option<u32>,
    cache: &mut ModelTextureCache,
) -> (slots: Vec<Option<usize>>)
    requires
        used@.len() == images@.len(),
        are_uploadable(images@),
        max_texture_dim != Some(0u32),
        old(cache).wf(),
        old(cache)@.hits + images@.len() <= usize::MAX,
    ensures
        slots@.len() == images@.len(),
        are_base_slots(images@, used@, max_texture_dim, final(cache)@.keys, slots@),
        final(cache).wf(),
        keeps(old(cache)@.keys, final(cache)@.keys),
        final(cache)@ == with_base_colors(
            old(cache)@,
            images@,
            used@,
            max_texture_dim,
            images@.len(),
        ),
        final(cache)@.hits <= old(cache)@.hits + images@.len(),
{
    let ghost before = cache@;
    let mut slots: Vec<Option<usize>> = Vec::new();
    let mut i: usize = 0;
    while i < images.len()
        invariant
            i <= images@.len(),
            used@.len() == images@.len(),
            are_uploadable(images@),
            max_texture_dim != Some(0u32),
            cache.wf(),
            before == old(cache)@,
            before.hits + images@.len() <= usize::MAX,
            cache@.hits <= before.hits + i,
            keeps(before.keys, cache@.keys),
            slots@.len() == i,
            are_base_slots(images@, used@, max_texture_dim, cache@.keys, slots@),
            cache@ == with_base_colors(before, images@, used@, max_texture_dim, i as nat),
        decreases images@.len() - i,
    {
        let ghost earlier = cache@.keys;
        if used[i] {
            let image = &images[i];
            assert(is_uploadable(images@[i as int]));
            assert(0 <= image.width * image.height) by (nonlinear_arith)
                requires
                    image.width >= 0,
                    image.height >= 0,
            ;
            let (rgba, width, height) = cap_texture_rgba(
                to_rgba8(image),
                image.width,
                image.height,
                max_texture_dim,
            );
            let (slot, _) = cache.get_or_upload(width, height, rgba, TextureColorSpace::Srgb);
            slots.push(Some(slot));
            assert(cache@.keys[slot as int] == base_color_key(*image, max_texture_dim));
        } else {
            slots.push(None);
        }
        assert(keeps(earlier, cache@.keys));
        i += 1;
    }
    slots
}

/// How many textures a toon material has.
pub const MTOON_TEXTURES: usize = 9;

/// A texture of a toon material.
#[derive(Clone, Copy, Debug, PartialEq, Eq, Structural)]
pub enum MtoonTexture {
    /// One of the cache.
    Cached { slot: usize },
    /// A white colour.
    White,
    /// A normal that points straight out.
    FlatNormal,
    /// No shift of the shading.
    ZeroShift,
    /// No light from the environment.
    Black,
    /// Data that is one everywhere.
    WhiteData,
}

/// The textures of a toon material, in the order of its bindings.
pub open spec fn mtoon_texture_infos(material: MaterialAsset) -> Seq<Option<TextureInfo>>
    recommends
        is_mtoon(material),
{
    let mtoon = material.model->Mtoon_0;
    seq![
        material.inputs.base_color_texture,
        match material.inputs.normal_texture {
            Some(normal) => Some(normal.texture),
            None => None,
        },
        mtoon.shade_multiply_texture,
        match mtoon.shading_shift_texture {
            Some(shift) => Some(shift.texture),
            None => None,
        },
        material.inputs.emissive_texture,
        mtoon.matcap_texture,
        mtoon.rim_multiply_texture,
        mtoon.outline_width_multiply_texture,
        mtoon.uv_animation_mask_texture,
    ]
}

/// What stands in for each texture, in the order of the bindings.
pub open spec fn mtoon_fallbacks() -> Seq<MtoonTexture> {
    seq![
        MtoonTexture::White,
        MtoonTexture::FlatNormal,
        MtoonTexture::White,
        MtoonTexture::ZeroShift,
        MtoonTexture::White,
        MtoonTexture::Black,
        MtoonTexture::White,
        MtoonTexture::WhiteData,
        MtoonTexture::WhiteData,
    ]
}

/// Whether `key` is what an image is uploaded as for a toon texture.
pub open spec fn is_mtoon_key<F: Fn(MipSemantic, [[u8; 4]; 4]) -> [u8; 4]>(
    filter: F,
    image: ImageData,
    info: TextureInfo,
    max_texture_dim: Option<u32>,
    key: TextureKey,
) -> bool {
    let semantic = role_semantic(info.role);
    &&& key.color_space == info.color_space
    &&& key.mip_semantic == semantic
    &&& match max_texture_dim {
        Some(limit) => is_capped(
            filter,
            semantic,
            rgba_of(image),
            image.width,
            image.height,
            limit,
            (key.rgba, key.width, key.height),
        ),
        None => (key.rgba, key.width, key.height) == (rgba_of(image), image.width, image.height),
    }
}

/// Whether `texture` is what a toon material binds for `info`.
pub open spec fn is_mtoon_texture<F: Fn(MipSemantic, [[u8; 4]; 4]) -> [u8; 4]>(
    filter: F,
    images: Seq<ImageData>,
    max_texture_dim: Option<u32>,
    keys: Seq<TextureKey>,
    info: Option<TextureInfo>,
    fallback: MtoonTexture,
    texture: MtoonTexture,
) -> bool {
    match info {
        Some(info) => texture matches MtoonTexture::Cached { slot } && slot < keys.len()
            && is_mtoon_key(
            filter,
            images[info.image_index as int],
            info,
            max_texture_dim,
            keys[slot as int],
        ),
        None => texture == fallback,
    }
}

/// The texture that a toon material binds: its own from the cache, or what
/// stands in for it.
pub fn mtoon_texture<F: Fn(MipSemantic, [[u8; 4]; 4]) -> [u8; 4]>(
    cache: &mut ModelTextureCache,
    images: &Vec<ImageData>,
    max_texture_dim: Option<u32>,
    info: Option<TextureInfo>,
    fallback: MtoonTexture,
    filter: &F,
) -> (texture: MtoonTexture)
    requires
        info matches Some(info) ==> info.image_index < images@.len(),
        are_uploadable(images@),
        max_texture_dim != Some(0u32),
        old(cache).wf(),
        old(cache)@.hits < usize::MAX,
        forall|semantic: MipSemantic, block: [[u8; 4]; 4]| #[trigger]
            call_requires(*filter, (semantic, block)),
    ensures
        is_mtoon_texture(
            *filter,
            images@,
            max_texture_dim,
            final(cache)@.keys,
            info,
            fallback,
            texture,
        ),
        final(cache).wf(),
        keeps(old(cache)@.keys, final(cache)@.keys),
        final(cache)@ == (match texture {
            MtoonTexture::Cached { slot } if info is Some => with_texture(
                old(cache)@,
                final(cache)@.keys[slot as int],
            ),
            _ => old(cache)@,
        }),
        final(cache)@.hits <= old(cache)@.hits + 1,
{
    let info = match info {
        Some(info) => info,
        None => {
            return fallback;
        },
    };
    let image = &images[info.image_index];
    assert(is_uploadable(images@[info.image_index as int]));
    assert(0 <= image.width * image.height) by (nonlinear_arith)
        requires
            image.width >= 0,
            image.height >= 0,
    ;
    let semantic = mtoon_texture_semantic(&info);
    let (rgba, width, height) = cap_texture_rgba_semantic(
        to_rgba8(image),
        image.width,
        image.height,
        max_texture_dim,
        semantic,
        filter,
    );
    let (slot, _) = cache.get_or_upload_semantic(
        ModelTextureCacheKey {
            width,
            height,
            rgba,
            color_space: info.color_space,
            mip_semantic: semantic,
        },
    );
    MtoonTexture::Cached { slot }
}

/// What a toon material binds.
#[derive(Debug)]
pub struct MtoonGroup {
    pub material: usize,
    pub textures: Vec<MtoonTexture>,
    /// The slots of the samplers of the textures.
    pub samplers: Vec<usize>,
}

/// The sampler state of a texture; without one it is the default.
pub open spec fn sampler_state(info: Option<TextureInfo>) -> GltfSamplerKey {
    match info {
        Some(info) => sampler_key(info.sampler),
        None => sampler_key(default_sampler()),
    }
}

/// Whether `group` is what a toon material binds.
pub open spec fn is_mtoon_group<F: Fn(MipSemantic, [[u8; 4]; 4]) -> [u8; 4]>(
    filter: F,
    images: Seq<ImageData>,
    max_texture_dim: Option<u32>,
    keys: Seq<TextureKey>,
    samplers: Seq<GltfSamplerKey>,
    material: MaterialAsset,
    group: MtoonGroup,
) -> bool {
    let infos = mtoon_texture_infos(material);
    &&& group.material == material.gltf_material_index
    &&& group.textures@.len() == MTOON_TEXTURES
    &&& group.samplers@.len() == MTOON_TEXTURES
    &&& forall|k: int|
        0 <= k < MTOON_TEXTURES ==> is_mtoon_texture(
            filter,
            images,
            max_texture_dim,
            keys,
            infos[k],
            mtoon_fallbacks()[k],
            #[trigger] group.textures@[k],
        )
    &&& forall|k: int|
        0 <= k < MTOON_TEXTURES ==> (#[trigger] group.samplers@[k]) < samplers.len()
            && samplers[group.samplers@[k] as int] == sampler_state(infos[k])
}

/// A cache after the first `count` textures of a group were asked for, where
/// `keys` are what its slots hold in the end.
pub open spec fn with_textures(
    cache: TextureCacheView,
    keys: Seq<TextureKey>,
    textures: Seq<MtoonTexture>,
    count: nat,
) -> TextureCacheView
    decreases count,
{
    if count == 0 {
        cache
    } else {
        let earlier = with_textures(cache, keys, textures, (count - 1) as nat);
        match textures[count - 1] {
            MtoonTexture::Cached { slot } => with_texture(earlier, keys[slot as int]),
            _ => earlier,
        }
    }
}

/// A cache after the textures of the first `count` groups were asked for.
pub open spec fn with_groups(
    cache: TextureCacheView,
    keys: Seq<TextureKey>,
    groups: Seq<MtoonGroup>,
    count: nat,
) -> TextureCacheView
    decreases count,
{
    if count == 0 {
        cache
    } else {
        with_textures(
            with_groups(cache, keys, groups, (count - 1) as nat),
            keys,
            groups[count - 1].textures@,
            MTOON_TEXTURES as nat,
        )
    }
}

/// The states of a cache after the samplers of the first `count` textures were
/// asked for.
pub open spec fn with_samplers(
    states: Seq<GltfSamplerKey>,
    infos: Seq<Option<TextureInfo>>,
    count: nat,
) -> Seq<GltfSamplerKey>
    decreases count,
{
    if count == 0 {
        states
    } else {
        with_sampler(
            with_samplers(states, infos, (count - 1) as nat),
            sampler_state(infos[count - 1]),
        )
    }
}

/// The states of a cache after the samplers of the toon materials among the
/// first `count` were asked for.
pub open spec fn with_mtoon_samplers(
    states: Seq<GltfSamplerKey>,
    materials: Seq<MaterialAsset>,
    count: nat,
) -> Seq<GltfSamplerKey>
    decreases count,
{
    if count == 0 {
        states
    } else {
        let earlier = with_mtoon_samplers(states, materials, (count - 1) as nat);
        if is_mtoon(materials[count - 1]) {
            with_samplers(
                earlier,
                mtoon_texture_infos(materials[count - 1]),
                MTOON_TEXTURES as nat,
            )
        } else {
            earlier
        }
    }
}

/// Whether the cached ones among the first `count` textures have a slot.
spec fn have_slots(textures: Seq<MtoonTexture>, keys: Seq<TextureKey>, count: nat) -> bool {
    forall|k: int|
        0 <= k < count ==> (#[trigger] textures[k] matches MtoonTexture::Cached { slot } ==> slot
            < keys.len())
}

proof fn with_textures_keeps(
    cache: TextureCacheView,
    keys: Seq<TextureKey>,
    more_keys: Seq<TextureKey>,
    textures: Seq<MtoonTexture>,
    more_textures: Seq<MtoonTexture>,
    count: nat,
)
    requires
        keeps(keys, more_keys),
        have_slots(textures, keys, count),
        count <= textures.len(),
        keeps(textures, more_textures),
    ensures
        with_textures(cache, keys, textures, count) == with_textures(
            cache,
            more_keys,
            more_textures,
            count,
        ),
    decreases count,
{
    if count > 0 {
        with_textures_keeps(
            cache,
            keys,
            more_keys,
            textures,
            more_textures,
            (count - 1) as nat,
        );
        assert(more_textures[count - 1] == textures[count - 1]);
        if let MtoonTexture::Cached { slot } = textures[count - 1] {
            assert(more_keys[slot as int] == keys[slot as int]);
        }
    }
}

proof fn with_groups_keeps(
    cache: TextureCacheView,
    keys: Seq<TextureKey>,
    more_keys: Seq<TextureKey>,
    groups: Seq<MtoonGroup>,
    more_groups: Seq<MtoonGroup>,
    count: nat,
)
    requires
        keeps(keys, more_keys),
        forall|g: int|
            0 <= g < count ==> (#[trigger] groups[g]).textures@.len() == MTOON_TEXTURES
                && have_slots(groups[g].textures@, keys, MTOON_TEXTURES as nat),
        count <= groups.len(),
        keeps(groups, more_groups),
    ensures
        with_groups(cache, keys, groups, count) == with_groups(
            cache,
            more_keys,
            more_groups,
            count,
        ),
    decreases count,
{
    if count > 0 {
        with_groups_keeps(cache, keys, more_keys, groups, more_groups, (count - 1) as nat);
        let group = groups[count - 1];
        assert(more_groups[count - 1] == group);
        with_textures_keeps(
            with_groups(cache, keys, groups, (count - 1) as nat),
            keys,
            more_keys,
            group.textures@,
            group.textures@,
            MTOON_TEXTURES as nat,
        );
    }
}

/// Whether every texture of a material is one of `count` images.
pub open spec fn has_images(material: MaterialAsset, count: nat) -> bool {
    is_mtoon(material) ==> forall|k: int|
        0 <= k < MTOON_TEXTURES ==> (#[trigger] mtoon_texture_infos(material)[k] matches Some(info)
            ==> info.image_index < count)
}

fn list_infos(material: &MaterialAsset) -> (infos: Option<Vec<Option<TextureInfo>>>)
    ensures
        match infos {
            Some(infos) => is_mtoon(*material) && infos@ == mtoon_texture_infos(*material),
            None => !is_mtoon(*material),
        },
{
    if !native_stage_f_capable(material) {
        return None;
    }
    match &material.model {
        MaterialModel::Mtoon(mtoon) => {
            let mut infos: Vec<Option<TextureInfo>> = Vec::new();
            infos.push(material.inputs.base_color_texture);
            infos.push(
                match material.inputs.normal_texture {
                    Some(normal) => Some(normal.texture),
                    None => None,
                },
            );
            infos.push(mtoon.shade_multiply_texture);
            infos.push(
                match mtoon.shading_shift_texture {
                    Some(shift) => Some(shift.texture),
                    None => None,
                },
            );
            infos.push(material.inputs.emissive_texture);
            infos.push(mtoon.matcap_texture);
            infos.push(mtoon.rim_multiply_texture);
            infos.push(mtoon.outline_width_multiply_texture);
            infos.push(mtoon.uv_animation_mask_texture);
            assert(infos@ =~= mtoon_texture_infos(*material));
            Some(infos)
        },
        _ => None,
    }
}

fn fallback_at(k: usize) -> (fallback: MtoonTexture)
    requires
        k < MTOON_TEXTURES,
    ensures
        fallback == mtoon_fallbacks()[k as int],
{
    if k == 1 {
        MtoonTexture::FlatNormal
    } else if k == 3 {
        MtoonTexture::ZeroShift
    } else if k == 5 {
        MtoonTexture::Black
    } else if k >= 7 {
        MtoonTexture::WhiteData
    } else {
        MtoonTexture::White
    }
}

proof fn groups_survive<F: Fn(MipSemantic, [[u8; 4]; 4]) -> [u8; 4]>(
    filter: F,
    images: Seq<ImageData>,
    max_texture_dim: Option<u32>,
    keys: Seq<TextureKey>,
    more_keys: Seq<TextureKey>,
    samplers: Seq<GltfSamplerKey>,
    more_samplers: Seq<GltfSamplerKey>,
    material: MaterialAsset,
    group: MtoonGroup,
)
    requires
        is_mtoon_group(filter, images, max_texture_dim, keys, samplers, material, group),
        keeps(keys, more_keys),
        keeps(samplers, more_samplers),
    ensures
        is_mtoon_group(filter, images, max_texture_dim, more_keys, more_samplers, material, group),
{
    assert forall|k: int| 0 <= k < MTOON_TEXTURES implies is_mtoon_texture(
        filter,
        images,
        max_texture_dim,
        more_keys,
        mtoon_texture_infos(material)[k],
        mtoon_fallbacks()[k],
        #[trigger] group.textures@[k],
    ) by {
        if let MtoonTexture::Cached { slot } = group.textures@[k] {
            if mtoon_texture_infos(material)[k] is Some {
                assert(more_keys[slot as int] == keys[slot as int]);
            }
        }
    }
    assert forall|k: int| 0 <= k < MTOON_TEXTURES implies (#[trigger] group.samplers@[k])
        < more_samplers.len() && more_samplers[group.samplers@[k] as int] == sampler_state(
        mtoon_texture_infos(material)[k],
    ) by {
        let slot = group.samplers@[k] as int;
        assert(more_samplers[slot] == samplers[slot]);
    }
}

fn mtoon_group<F: Fn(MipSemantic, [[u8; 4]; 4]) -> [u8; 4]>(
    material: &MaterialAsset,
    images: &Vec<ImageData>,
    max_texture_dim: Option<u32>,
    cache: &mut ModelTextureCache,
    samplers: &mut GltfSamplerCache,
    filter: &F,
) -> (group: Option<MtoonGroup>)
    requires
        has_images(*material, images@.len()),
        are_uploadable(images@),
        max_texture_dim != Some(0u32),
        old(cache).wf(),
        old(cache)@.hits + MTOON_TEXTURES <= usize::MAX,
        old(samplers).wf(),
        forall|semantic: MipSemantic, block: [[u8; 4]; 4]| #[trigger]
            call_requires(*filter, (semantic, block)),
    ensures
        final(cache).wf(),
        final(samplers).wf(),
        keeps(old(cache)@.keys, final(cache)@.keys),
        keeps(old(samplers)@, final(samplers)@),
        final(cache)@.hits <= old(cache)@.hits + MTOON_TEXTURES,
        match group {
            Some(group) => {
                &&& is_mtoon(*material)
                &&& is_mtoon_group(
                    *filter,
                    images@,
                    max_texture_dim,
                    final(cache)@.keys,
                    final(samplers)@,
                    *material,
                    group,
                )
                &&& have_slots(group.textures@, final(cache)@.keys, MTOON_TEXTURES as nat)
                &&& final(cache)@ == with_textures(
                    old(cache)@,
                    final(cache)@.keys,
                    group.textures@,
                    MTOON_TEXTURES as nat,
                )
                &&& final(samplers)@ == with_samplers(
                    old(samplers)@,
                    mtoon_texture_infos(*material),
                    MTOON_TEXTURES as nat,
                )
            },
            None => {
                &&& !is_mtoon(*material)
                &&& final(cache)@ == old(cache)@
                &&& final(samplers)@ == old(samplers)@
            },
        },
{
    let infos = match list_infos(material) {
        Some(infos) => infos,
        None => {
            return None;
        },
    };
    let ghost kept = (cache@, samplers@);
    let mut textures: Vec<MtoonTexture> = Vec::new();
    let mut slots: Vec<usize> = Vec::new();
    let mut k: usize = 0;
    while k < MTOON_TEXTURES
        invariant
            k <= MTOON_TEXTURES,
            kept == (old(cache)@, old(samplers)@),
            is_mtoon(*material),
            infos@ == mtoon_texture_infos(*material),
            has_images(*material, images@.len()),
            are_uploadable(images@),
            max_texture_dim != Some(0u32),
            forall|semantic: MipSemantic, block: [[u8; 4]; 4]| #[trigger]
                call_requires(*filter, (semantic, block)),
            cache.wf(),
            samplers.wf(),
            keeps(kept.0.keys, cache@.keys),
            keeps(kept.1, samplers@),
            kept.0.hits + MTOON_TEXTURES <= usize::MAX,
            cache@.hits <= kept.0.hits + k,
            textures@.len() == k,
            slots@.len() == k,
            forall|j: int|
                0 <= j < k ==> is_mtoon_texture(
                    *filter,
                    images@,
                    max_texture_dim,
                    cache@.keys,
                    infos@[j],
                    mtoon_fallbacks()[j],
                    #[trigger] textures@[j],
                ),
            forall|j: int|
                0 <= j < k ==> (#[trigger] slots@[j]) < samplers@.len()
                    && samplers@[slots@[j] as int] == sampler_state(infos@[j]),
            have_slots(textures@, cache@.keys, k as nat),
            cache@ == with_textures(kept.0, cache@.keys, textures@, k as nat),
            samplers@ == with_samplers(kept.1, infos@, k as nat),
        decreases MTOON_TEXTURES - k,
    {
        let info = infos[k];
        assert(mtoon_texture_infos(*material)[k as int] == info);
        let ghost earlier = (cache@.keys, samplers@, textures@);
        let texture = mtoon_texture(
            cache,
            images,
            max_texture_dim,
            info,
            fallback_at(k),
            filter,
        );
        let sampler = match info {
            Some(info) => info.sampler,
            None => GltfSampler::default(),
        };
        let (slot, _) = samplers.get_or_create(sampler);
        textures.push(texture);
        slots.push(slot);
        proof {
            assert forall|j: int| 0 <= j < k implies is_mtoon_texture(
                *filter,
                images@,
                max_texture_dim,
                cache@.keys,
                infos@[j],
                mtoon_fallbacks()[j],
                #[trigger] textures@[j],
            ) by {
                if let MtoonTexture::Cached { slot } = textures@[j] {
                    if infos@[j] is Some {
                        assert(cache@.keys[slot as int] == earlier.0[slot as int]);
                    }
                }
            }
            assert forall|j: int| 0 <= j < k implies (#[trigger] slots@[j]) < samplers@.len()
                && samplers@[slots@[j] as int] == sampler_state(infos@[j]) by {
                assert(samplers@[slots@[j] as int] == earlier.1[slots@[j] as int]);
            }
            assert(keeps(earlier.1, samplers@));
            with_textures_keeps(
                kept.0,
                earlier.0,
                cache@.keys,
                earlier.2,
                textures@,
                k as nat,
            );
        }
        k += 1;
    }
    Some(MtoonGroup { material: material.gltf_material_index, textures, samplers: slots })
}

/// How many of the first `count` materials are toon materials.
pub open spec fn mtoon_count(materials: Seq<MaterialAsset>, count: nat) -> nat
    decreases count,
{
    if count == 0 {
        0
    } else {
        mtoon_count(materials, (count - 1) as nat) + (if is_mtoon(materials[count - 1]) {
            1nat
        } else {
            0nat
        })
    }
}

/// Whether `groups` are what the first `count` materials bind: one group for
/// each toon material, in their order.
pub open spec fn are_mtoon_groups<F: Fn(MipSemantic, [[u8; 4]; 4]) -> [u8; 4]>(
    filter: F,
    images: Seq<ImageData>,
    max_texture_dim: Option<u32>,
    keys: Seq<TextureKey>,
    samplers: Seq<GltfSamplerKey>,
    materials: Seq<MaterialAsset>,
    count: nat,
    groups: Seq<MtoonGroup>,
) -> bool {
    &&& groups.len() == mtoon_count(materials, count)
    &&& forall|m: int|
        0 <= m < count && is_mtoon(#[trigger] materials[m]) ==> is_mtoon_group(
            filter,
            images,
            max_texture_dim,
            keys,
            samplers,
            materials[m],
            groups[mtoon_count(materials, m as nat) as int],
        )
}

proof fn mtoon_count_grows(materials: Seq<MaterialAsset>, m: nat, count: nat)
    requires
        m < count,
        is_mtoon(materials[m as int]),
    ensures
        mtoon_count(materials, m) < mtoon_count(materials, count),
    decreases count,
{
    if m < count - 1 {
        mtoon_count_grows(materials, m, (count - 1) as nat);
    }
}

/// Puts the textures and samplers of the toon materials into the caches.
pub fn bind_mtoon_materials<F: Fn(MipSemantic, [[u8; 4]; 4]) -> [u8; 4]>(
    materials: &Vec<MaterialAsset>,
    images: &Vec<ImageData>,
    max_texture_dim: Option<u32>,
    cache: &mut ModelTextureCache,
    samplers: &mut GltfSamplerCache,
    filter: &F,
) -> (groups: Vec<MtoonGroup>)
    requires
        forall|m: int|
            0 <= m < materials@.len() ==> has_images(#[trigger] materials@[m], images@.len()),
        are_uploadable(images@),
        max_texture_dim != Some(0u32),
        old(cache).wf(),
        old(cache)@.hits + MTOON_TEXTURES * materials@.len() <= usize::MAX,
        old(samplers).wf(),
        forall|semantic: MipSemantic, block: [[u8; 4]; 4]| #[trigger]
            call_requires(*filter, (semantic, block)),
    ensures
        are_mtoon_groups(
            *filter,
            images@,
            max_texture_dim,
            final(cache)@.keys,
            final(samplers)@,
            materials@,
            materials@.len(),
            groups@,
        ),
        final(cache).wf(),
        final(samplers).wf(),
        keeps(old(cache)@.keys, final(cache)@.keys),
        keeps(old(samplers)@, final(samplers)@),
        final(cache)@ == with_groups(
            old(cache)@,
            final(cache)@.keys,
            groups@,
            groups@.len(),
        ),
        final(samplers)@ == with_mtoon_samplers(
            old(samplers)@,
            materials@,
            materials@.len(),
        ),
{
    let ghost kept = (cache@, samplers@);
    let mut groups: Vec<MtoonGroup> = Vec::new();
    let mut m: usize = 0;
    while m < materials.len()
        invariant
            m <= materials@.len(),
            kept == (old(cache)@, old(samplers)@),
            forall|m: int|
                0 <= m < materials@.len() ==> has_images(#[trigger] materials@[m], images@.len()),
            are_uploadable(images@),
            max_texture_dim != Some(0u32),
            forall|semantic: MipSemantic, block: [[u8; 4]; 4]| #[trigger]
                call_requires(*filter, (semantic, block)),
            cache.wf(),
            samplers.wf(),
            keeps(kept.0.keys, cache@.keys),
            keeps(kept.1, samplers@),
            kept.0.hits + MTOON_TEXTURES * materials@.len() <= usize::MAX,
            cache@.hits <= kept.0.hits + MTOON_TEXTURES * m,
            are_mtoon_groups(
                *filter,
                images@,
                max_texture_dim,
                cache@.keys,
                samplers@,
                materials@,
                m as nat,
                groups@,
            ),
            forall|g: int|
                0 <= g < groups@.len() ==> (#[trigger] groups@[g]).textures@.len()
                    == MTOON_TEXTURES && have_slots(
                    groups@[g].textures@,
                    cache@.keys,
                    MTOON_TEXTURES as nat,
                ),
            cache@ == with_groups(kept.0, cache@.keys, groups@, groups@.len()),
            samplers@ == with_mtoon_samplers(kept.1, materials@, m as nat),
        decreases materials@.len() - m,
    {
        let ghost earlier = (cache@.keys, samplers@, groups@);
        let group = mtoon_group(
            &materials[m],
            images,
            max_texture_dim,
            cache,
            samplers,
            filter,
        );
        if let Some(group) = group {
            groups.push(group);
        }
        proof {
            with_groups_keeps(
                kept.0,
                earlier.0,
                cache@.keys,
                earlier.2,
                groups@,
                earlier.2.len(),
            );
            assert forall|g: int| 0 <= g < groups@.len() implies have_slots(
                (#[trigger] groups@[g]).textures@,
                cache@.keys,
                MTOON_TEXTURES as nat,
            ) by {
                if g < earlier.2.len() {
                    assert(groups@[g] == earlier.2[g]);
                }
            }
            assert forall|j: int| 0 <= j < m + 1 && is_mtoon(#[trigger] materials@[j]) implies {
                is_mtoon_group(
                    *filter,
                    images@,
                    max_texture_dim,
                    cache@.keys,
                    samplers@,
                    materials@[j],
                    groups@[mtoon_count(materials@, j as nat) as int],
                )
            } by {
                if j < m {
                    mtoon_count_grows(materials@, j as nat, m as nat);
                    let at = mtoon_count(materials@, j as nat) as int;
                    assert(groups@[at] == earlier.2[at]);
                    groups_survive(
                        *filter,
                        images@,
                        max_texture_dim,
                        earlier.0,
                        cache@.keys,
                        earlier.1,
                        samplers@,
                        materials@[j],
                        groups@[at],
                    );
                }
            }
        }
        m += 1;
    }
    groups
}

/// The length of an image's texels with four channels.
fn rgba_length(image: &ImageData) -> (length: Option<usize>)
    requires
        image.width * image.height * 4 <= u32::MAX,
    ensures
        match length {
            Some(length) => length == rgba_of(*image).len(),
            None => rgba_of(*image).len() > usize::MAX,
        },
{
    let length: usize = image.pixels.len();
    match image.format {
        PixelFormat::R8G8B8A8 => Some(length),
        PixelFormat::R8G8B8 => (length / 3).checked_mul(4),
        PixelFormat::R8 => length.checked_mul(4),
        PixelFormat::R8G8 => (length / 2).checked_mul(4),
        PixelFormat::Other => {
            assert(0 <= image.width * image.height) by (nonlinear_arith)
                requires
                    image.width >= 0,
                    image.height >= 0,
            ;
            Some((image.width * image.height * 4) as usize)
        },
    }
}

/// Whether every image can be uploaded.
pub fn can_upload(images: &Vec<ImageData>) -> (uploadable: bool)
    ensures
        uploadable == are_uploadable(images@),
{
    let mut i: usize = 0;
    while i < images.len()
        invariant
            i <= images@.len(),
            forall|k: int| 0 <= k < i ==> is_uploadable(#[trigger] images@[k]),
        decreases images@.len() - i,
    {
        let image = &images[i];
        assert(image.width * image.height <= u64::MAX) by (nonlinear_arith)
            requires
                image.width <= u32::MAX,
                image.height <= u32::MAX,
        ;
        let texels: u64 = image.width as u64 * image.height as u64;
        let mut fits: bool = false;
        if 0 < image.width && 0 < image.height && texels <= u32::MAX as u64 / 4 {
            if let Some(length) = rgba_length(image) {
                fits = length as u64 >= texels * 4;
            } else {
                fits = true;
            }
        }
        assert(fits == is_uploadable(images@[i as int]));
        if !fits {
            return false;
        }
        i += 1;
    }
    true
}

proof fn listed_texture(
    model: SourceModel,
    descriptor: MtoonMaterialDescriptor,
    index: usize,
    at: int,
)
    requires
        0 <= at < descriptor_textures(descriptor).len(),
        first_some(
            descriptor_textures(descriptor).len(),
            |k: int|
                descriptor_texture_error(
                    index,
                    descriptor_textures(descriptor)[k],
                    model.textures@.len(),
                    model.images@.len(),
                ),
        ) is None,
    ensures
        descriptor_textures(descriptor)[at].image_index < model.images@.len(),
{
    let check = |k: int|
        descriptor_texture_error(
            index,
            descriptor_textures(descriptor)[k],
            model.textures@.len(),
            model.images@.len(),
        );
    first_some_none(descriptor_textures(descriptor).len(), check);
    assert(check(at) is None);
}

proof fn parts_are_contained(parts: Seq<Option<TextureInfo>>, whole: Seq<TextureInfo>, k: int)
    requires
        parts.len() == MTOON_TEXTURES,
        0 <= k < MTOON_TEXTURES,
        parts[k] is Some,
        whole == as_seq(parts[0]) + as_seq(parts[1]) + as_seq(parts[4]) + (as_seq(parts[2])
            + as_seq(parts[3]) + as_seq(parts[5]) + as_seq(parts[6]) + as_seq(parts[7]) + as_seq(
            parts[8],
        )),
    ensures
        exists|at: int| 0 <= at < whole.len() && #[trigger] whole[at] == parts[k].unwrap(),
{
    let lengths = |j: int| as_seq(parts[j]).len() as int;
    let inputs = lengths(0) + lengths(1) + lengths(4);
    let at = if k == 0 {
        0
    } else if k == 1 {
        lengths(0)
    } else if k == 4 {
        lengths(0) + lengths(1)
    } else if k == 2 {
        inputs
    } else if k == 3 {
        inputs + lengths(2)
    } else if k == 5 {
        inputs + lengths(2) + lengths(3)
    } else if k == 6 {
        inputs + lengths(2) + lengths(3) + lengths(5)
    } else if k == 7 {
        inputs + lengths(2) + lengths(3) + lengths(5) + lengths(6)
    } else {
        inputs + lengths(2) + lengths(3) + lengths(5) + lengths(6) + lengths(7)
    };
    assert(whole[at] == as_seq(parts[k])[0]);
}

/// The textures of authored toon materials are images of the model.
pub proof fn authored_textures_are_images(
    model: SourceModel,
    descriptors: Seq<MtoonMaterialDescriptor>,
    native_mtoon: bool,
    materials: Seq<MaterialAsset>,
    m: int,
)
    requires
        authoring_error(model, descriptors, native_mtoon) is None,
        are_authored(model, descriptors, materials),
        0 <= m < materials.len(),
    ensures
        has_images(materials[m], model.images@.len()),
{
    let material = materials[m];
    if is_mtoon(material) {
        assert(is_authored(model, descriptors, m, material));
        let find = |d: int|
            if descriptors[d].material_index == m {
                Some(d)
            } else {
                None
            };
        let d = descriptor_for(descriptors, m).unwrap();
        first_some_found(descriptors.len(), find);
        let wrong = |d: int| descriptor_error(model, descriptors, d);
        first_some_none(descriptors.len(), wrong);
        assert(wrong(d) is None);
        let descriptor = descriptors[d];
        let textures = descriptor_textures(descriptor);
        let infos = mtoon_texture_infos(material);
        assert forall|k: int| 0 <= k < MTOON_TEXTURES implies (#[trigger] infos[k] matches Some(
            info,
        ) ==> info.image_index < model.images@.len()) by {
            if let Some(info) = infos[k] {
                parts_are_contained(infos, textures, k);
                let at = choose|at: int|
                    0 <= at < textures.len() && #[trigger] textures[at] == info;
                listed_texture(model, descriptor, descriptor.material_index, at);
            }
        }
    }
}

/// A primitive that is drawn with native toon shading finds the group of its
/// material among those that are bound for the model.
pub proof fn native_primitives_have_a_group<F: Fn(MipSemantic, [[u8; 4]; 4]) -> [u8; 4]>(
    model: SourceModel,
    overrides: Seq<MaterialTextureOverride>,
    native_mtoon: bool,
    descriptors: Seq<MtoonMaterialDescriptor>,
    layout: ModelAsset,
    filter: F,
    images: Seq<ImageData>,
    max_texture_dim: Option<u32>,
    keys: Seq<TextureKey>,
    samplers: Seq<GltfSamplerKey>,
    groups: Seq<MtoonGroup>,
    k: int,
)
    requires
        model.in_range(),
        is_model_layout(model, overrides, native_mtoon, descriptors, layout),
        are_mtoon_groups(
            filter,
            images,
            max_texture_dim,
            keys,
            samplers,
            layout.materials@,
            layout.materials@.len(),
            groups,
        ),
        0 <= k < layout.primitives@.len(),
        layout.primitives@[k].native,
    ensures
        layout.primitives@[k].material_index is Some,
        exists|g: int|
            0 <= g < groups.len() && (#[trigger] groups[g]).material
                == layout.primitives@[k].material_index->Some_0,
{
    placements_exist(model, model.nodes@.len());
    let placement = all_placements(model)[k];
    assert(is_placed(model, placement));
    let index = layout.primitives@[k].material_index->Some_0;
    let primitive = model.meshes@[placement.mesh as int]@[placement.primitive as int];
    assert(names_one(primitive.material, model.materials@.len()));
    assert(is_mtoon(layout.materials@[index as int]));
    mtoon_count_grows(layout.materials@, index as nat, layout.materials@.len());
    let g = mtoon_count(layout.materials@, index as nat) as int;
    assert(groups[g].material == index);
}

/// What a slot of a toon group holds: the image of the texture that the slot is
/// for, or the stand-in where the material has none, each read through the
/// sampler of the texture.
pub open spec fn binds<F: Fn(MipSemantic, [[u8; 4]; 4]) -> [u8; 4]>(
    filter: F,
    images: Seq<ImageData>,
    max_texture_dim: Option<u32>,
    keys: Seq<TextureKey>,
    samplers: Seq<GltfSamplerKey>,
    group: MtoonGroup,
    slot: int,
    texture: Option<TextureInfo>,
    fallback: MtoonTexture,
) -> bool {
    let state = samplers[group.samplers@[slot] as int];
    match texture {
        Some(info) => {
            &&& group.textures@[slot] matches MtoonTexture::Cached { slot: key } && key < keys.len()
                && is_mtoon_key(
                filter,
                images[info.image_index as int],
                info,
                max_texture_dim,
                keys[key as int],
            )
            &&& state == sampler_key(info.sampler)
        },
        None => {
            &&& group.textures@[slot] == fallback
            &&& state == sampler_key(default_sampler())
        },
    }
}

/// The slots of a toon group are, in order: base color, normal, shade, shading
/// shift, emission, matcap, rim, outline width and the mask of the animation.
/// Where a texture is missing, colors and widths are white, the normal is flat,
/// the shading is not shifted and the environment is black.
pub proof fn toon_groups_keep_their_slots<F: Fn(MipSemantic, [[u8; 4]; 4]) -> [u8; 4]>(
    filter: F,
    images: Seq<ImageData>,
    max_texture_dim: Option<u32>,
    keys: Seq<TextureKey>,
    samplers: Seq<GltfSamplerKey>,
    material: MaterialAsset,
    mtoon: MtoonMaterial,
    group: MtoonGroup,
)
    requires
        is_mtoon_group(filter, images, max_texture_dim, keys, samplers, material, group),
        material.model matches MaterialModel::Mtoon(own) && *own == mtoon,
    ensures
        ({
            let held = |slot: int, texture: Option<TextureInfo>, fallback: MtoonTexture|
                binds(
                    filter,
                    images,
                    max_texture_dim,
                    keys,
                    samplers,
                    group,
                    slot,
                    texture,
                    fallback,
                );
            let inputs = material.inputs;
            &&& group.material == material.gltf_material_index
            &&& group.textures@.len() == 9
            &&& group.samplers@.len() == 9
            &&& held(0, inputs.base_color_texture, MtoonTexture::White)
            &&& held(1, unscaled(inputs.normal_texture), MtoonTexture::FlatNormal)
            &&& held(2, mtoon.shade_multiply_texture, MtoonTexture::White)
            &&& held(3, unscaled(mtoon.shading_shift_texture), MtoonTexture::ZeroShift)
            &&& held(4, inputs.emissive_texture, MtoonTexture::White)
            &&& held(5, mtoon.matcap_texture, MtoonTexture::Black)
            &&& held(6, mtoon.rim_multiply_texture, MtoonTexture::White)
            &&& held(7, mtoon.outline_width_multiply_texture, MtoonTexture::WhiteData)
            &&& held(8, mtoon.uv_animation_mask_texture, MtoonTexture::WhiteData)
        }),
{
    assert forall|k: int| 0 <= k < 9 implies {
        let info = mtoon_texture_infos(material)[k];
        &&& is_mtoon_texture(
            filter,
            images,
            max_texture_dim,
            keys,
            info,
            mtoon_fallbacks()[k],
            #[trigger] group.textures@[k],
        )
        &&& samplers[group.samplers@[k] as int] == sampler_state(info)
    } by {
        assert(group.samplers@[k] < samplers.len());
    }
    assert(group.textures@[0] == group.textures@[0]);
    assert(group.textures@[1] == group.textures@[1]);
    assert(group.textures@[2] == group.textures@[2]);
    assert(group.textures@[3] == group.textures@[3]);
    assert(group.textures@[4] == group.textures@[4]);
    assert(group.textures@[5] == group.textures@[5]);
    assert(group.textures@[6] == group.textures@[6]);
    assert(group.textures@[7] == group.textures@[7]);
    assert(group.textures@[8] == group.textures@[8]);
}

/// The image of a toon texture keeps the color space of the texture, and its
/// size and bytes where no limit is set.
pub proof fn unlimited_toon_images_stay<F: Fn(MipSemantic, [[u8; 4]; 4]) -> [u8; 4]>(
    filter: F,
    image: ImageData,
    info: TextureInfo,
    max_texture_dim: Option<u32>,
    key: TextureKey,
)
    requires
        is_mtoon_key(filter, image, info, max_texture_dim, key),
    ensures
        key.color_space == info.color_space,
        max_texture_dim is None ==> key.rgba == rgba_of(image) && key.width == image.width
            && key.height == image.height,
{
}

/// A base color is uploaded exactly where it is used, decoded from sRGB, and as
/// it is where no limit is set or both sides are within it.
pub proof fn used_base_colors_are_uploaded(
    images: Seq<ImageData>,
    used: Seq<bool>,
    max_texture_dim: Option<u32>,
    keys: Seq<TextureKey>,
    slots: Seq<Option<usize>>,
    i: int,
)
    requires
        are_base_slots(images, used, max_texture_dim, keys, slots),
        max_texture_dim != Some(0u32),
        0 <= i < slots.len(),
    ensures
        slots[i] is Some <==> used[i],
        slots[i] matches Some(slot) ==> slot < keys.len() && ({
            let key = keys[slot as int];
            &&& key.color_space is Srgb
            &&& key.mip_semantic is Legacy
            &&& max_texture_dim is None || (max_texture_dim matches Some(limit) && images[i].width
                <= limit && images[i].height <= limit) ==> key.rgba == rgba_of(images[i])
                && key.width == images[i].width && key.height == images[i].height
        }),
{
    if let Some(limit) = max_texture_dim {
        if images[i].width <= limit && images[i].height <= limit {
            images_are_not_capped_needlessly(
                rgba_of(images[i]),
                images[i].width,
                images[i].height,
                limit,
            );
        }
    }
}

proof fn cached_contains(cache: TextureCacheView, key: TextureKey, value: TextureKey)
    ensures
        with_texture(cache, key).keys.contains(value) <==> cache.keys.contains(value) || value
            == key,
        with_texture(cache, key).keys.len() + with_texture(cache, key).hits == cache.keys.len()
            + cache.hits + 1,
{
    let longer = cache.keys.push(key);
    if cache.keys.contains(value) {
        let i = choose|i: int| 0 <= i < cache.keys.len() && cache.keys[i] == value;
        assert(longer[i] == value);
    }
    assert(longer[cache.keys.len() as int] == key);
}

/// Uploading base colors caches those that are used and nothing else, and each
/// of them is either new or counted as found.
pub proof fn used_base_colors_are_cached(
    cache: TextureCacheView,
    images: Seq<ImageData>,
    used: Seq<bool>,
    max_texture_dim: Option<u32>,
    count: nat,
    key: TextureKey,
)
    requires
        count <= images.len(),
    ensures
        ({
            let after = with_base_colors(cache, images, used, max_texture_dim, count);
            &&& after.keys.contains(key) <==> cache.keys.contains(key) || exists|i: int|
                0 <= i < count && used[i] && base_color_key(#[trigger] images[i], max_texture_dim)
                    == key
            &&& count > 0 && used[count - 1] ==> {
                let earlier = with_base_colors(
                    cache,
                    images,
                    used,
                    max_texture_dim,
                    (count - 1) as nat,
                );
                after.keys.len() + after.hits == earlier.keys.len() + earlier.hits + 1
            }
            &&& (forall|i: int| 0 <= i < count ==> !#[trigger] used[i]) ==> after == cache
        }),
    decreases count,
{
    if count > 0 {
        let before = (count - 1) as nat;
        let earlier = with_base_colors(cache, images, used, max_texture_dim, before);
        used_base_colors_are_cached(cache, images, used, max_texture_dim, before, key);
        let last = base_color_key(images[count - 1], max_texture_dim);
        cached_contains(earlier, last, key);
        assert(used[count - 1] || !used[count - 1]);
        if used[count - 1] && last == key {
            assert(base_color_key(images[count - 1], max_texture_dim) == key);
        }
    }
}

/// Binding textures makes the sampler of each of them and no other.
pub proof fn samplers_of_textures_are_made(
    states: Seq<GltfSamplerKey>,
    infos: Seq<Option<TextureInfo>>,
    count: nat,
    state: GltfSamplerKey,
)
    requires
        count <= infos.len(),
    ensures
        with_samplers(states, infos, count).contains(state) <==> states.contains(state)
            || exists|k: int|
            0 <= k < count && (match #[trigger] infos[k] {
                Some(info) => sampler_key(info.sampler),
                None => sampler_key(default_sampler()),
            }) == state,
    decreases count,
{
    if count > 0 {
        let earlier = with_samplers(states, infos, (count - 1) as nat);
        samplers_of_textures_are_made(states, infos, (count - 1) as nat, state);
        let last = sampler_state(infos[count - 1]);
        let longer = earlier.push(last);
        if earlier.contains(state) {
            let i = choose|i: int| 0 <= i < earlier.len() && earlier[i] == state;
            assert(longer[i] == state);
        }
        assert(longer[earlier.len() as int] == last);
        if last == state {
            let info = infos[count - 1];
            assert((match info {
                Some(info) => sampler_key(info.sampler),
                None => sampler_key(default_sampler()),
            }) == state);
        }
    }
}

/// Binding a toon group caches the images of its textures and nothing else.
pub proof fn bound_textures_are_cached(
    cache: TextureCacheView,
    keys: Seq<TextureKey>,
    textures: Seq<MtoonTexture>,
    count: nat,
    key: TextureKey,
)
    requires
        count <= textures.len(),
    ensures
        with_textures(cache, keys, textures, count).keys.contains(key) <==> cache.keys.contains(key)
            || exists|k: int|
            0 <= k < count && (#[trigger] textures[k] matches MtoonTexture::Cached { slot }
                && keys[slot as int] == key),
    decreases count,
{
    if count > 0 {
        let earlier = with_textures(cache, keys, textures, (count - 1) as nat);
        bound_textures_are_cached(cache, keys, textures, (count - 1) as nat, key);
        if let MtoonTexture::Cached { slot } = textures[count - 1] {
            cached_contains(earlier, keys[slot as int], key);
            if keys[slot as int] == key {
                assert(textures[count - 1] == textures[count - 1]);
            }
        }
    }
}

/// An image can be uploaded exactly where it has a size that can be addressed and
/// texels enough to fill it.
pub proof fn uploadable_images_are_filled(image: ImageData)
    ensures
        is_uploadable(image) <==> image.width > 0 && image.height > 0 && image.width * image.height
            * 4 <= u32::MAX && rgba_of(image).len() >= image.width * image.height * 4,
{
}

} // verus!
