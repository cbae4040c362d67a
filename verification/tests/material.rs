use std::cmp::Ordering;

use pocket3d::material::{
    FilterMode, GltfMagFilter, GltfMinFilter, GltfSampler, GltfSamplerCache, GltfWrapMode,
    MaterialAlphaMode, MaterialAsset, MaterialInputs, MaterialKind, MaterialModel,
    MaterialPipelineKey, MaterialRenderPass, MaterialStateSet, MtoonMaterial,
    MtoonOutlineWidthMode, PipelineBlendDepthFamily, PipelineCullMode, PipelineShadingModel,
    RenderPassClass, RenderPhase, RenderSortKey, TextureColorSpace, TextureInfo, TextureRole,
    TextureTransform, TextureTransforms, UnlitMaterial,
};
use pocket3d::scalar::Scalar;

fn scalar(value: f32) -> Scalar {
    Scalar {
        bits: value.to_bits(),
    }
}

#[test]
fn texture_roles_have_explicit_color_spaces() {
    for role in [
        TextureRole::BaseColor,
        TextureRole::ShadeMultiply,
        TextureRole::Emissive,
        TextureRole::Matcap,
        TextureRole::RimMultiply,
    ] {
        assert_eq!(role.color_space(), TextureColorSpace::Srgb, "{role:?}");
    }
    for role in [
        TextureRole::Normal,
        TextureRole::ShadingShift,
        TextureRole::OutlineWidth,
        TextureRole::UvAnimationMask,
    ] {
        assert_eq!(role.color_space(), TextureColorSpace::Linear, "{role:?}");
    }
}

#[test]
fn sampler_conversion_covers_filters_and_wraps() {
    let sampler = GltfSampler {
        index: Some(4),
        mag_filter: Some(GltfMagFilter::Nearest),
        min_filter: Some(GltfMinFilter::NearestMipmapLinear),
        wrap_s: GltfWrapMode::ClampToEdge,
        wrap_t: GltfWrapMode::MirroredRepeat,
    };
    let descriptor = sampler.key();
    assert_eq!(descriptor.mag_filter, FilterMode::Nearest);
    assert_eq!(descriptor.min_filter, FilterMode::Nearest);
    assert_eq!(descriptor.mipmap_filter, FilterMode::Linear);
    assert_eq!(descriptor.wrap_s, GltfWrapMode::ClampToEdge);
    assert_eq!(descriptor.wrap_t, GltfWrapMode::MirroredRepeat);

    let defaults = GltfSampler::default().key();
    assert_eq!(defaults.mag_filter, FilterMode::Linear);
    assert_eq!(defaults.min_filter, FilterMode::Linear);
    assert_eq!(defaults.mipmap_filter, FilterMode::Nearest);
    assert_eq!(defaults.wrap_s, GltfWrapMode::Repeat);
    assert_eq!(defaults.wrap_t, GltfWrapMode::Repeat);

    let cases = [
        (
            GltfMinFilter::Nearest,
            FilterMode::Nearest,
            FilterMode::Nearest,
        ),
        (
            GltfMinFilter::Linear,
            FilterMode::Linear,
            FilterMode::Nearest,
        ),
        (
            GltfMinFilter::NearestMipmapNearest,
            FilterMode::Nearest,
            FilterMode::Nearest,
        ),
        (
            GltfMinFilter::LinearMipmapNearest,
            FilterMode::Linear,
            FilterMode::Nearest,
        ),
        (
            GltfMinFilter::NearestMipmapLinear,
            FilterMode::Nearest,
            FilterMode::Linear,
        ),
        (
            GltfMinFilter::LinearMipmapLinear,
            FilterMode::Linear,
            FilterMode::Linear,
        ),
    ];
    for (filter, expected_min, expected_mip) in cases {
        let descriptor = GltfSampler {
            min_filter: Some(filter),
            ..GltfSampler::default()
        }
        .key();
        assert_eq!(descriptor.min_filter, expected_min, "{filter:?}");
        assert_eq!(descriptor.mipmap_filter, expected_mip, "{filter:?}");
    }
}

#[test]
fn sampler_cache_key_reuses_equivalent_resolved_state() {
    let authored = GltfSampler {
        index: Some(8),
        mag_filter: Some(GltfMagFilter::Linear),
        min_filter: Some(GltfMinFilter::Linear),
        ..GltfSampler::default()
    };
    assert_eq!(authored.key(), GltfSampler::default().key());
    let different = GltfSampler {
        min_filter: Some(GltfMinFilter::LinearMipmapLinear),
        ..GltfSampler::default()
    };
    assert_ne!(different.key(), GltfSampler::default().key());

    let mut cache = GltfSamplerCache::new();
    assert!(cache.is_empty());
    assert_eq!(cache.get_or_create(authored), (0, true));
    assert_eq!(cache.get_or_create(GltfSampler::default()), (0, false));
    assert_eq!(cache.get_or_create(different), (1, true));
    assert_eq!(cache.get_or_create(different), (1, false));
    assert_eq!(cache.len(), 2);
}

#[test]
fn texture_transform_preserves_override_and_effective_texcoord() {
    let info = TextureInfo {
        texture_index: 2,
        image_index: 3,
        sampler: GltfSampler::default(),
        tex_coord: 0,
        transform: TextureTransform {
            offset: [scalar(0.25), scalar(-0.5)],
            rotation: scalar(0.75),
            scale: [scalar(2.0), scalar(3.0)],
            tex_coord_override: Some(1),
        },
        role: TextureRole::BaseColor,
        color_space: TextureColorSpace::Srgb,
    };
    assert_eq!(info.effective_tex_coord(), 1);
    assert!(!info.current_base_color_fallback_uv_supported());
    assert_eq!(info.transform.offset, [scalar(0.25), scalar(-0.5)]);
    assert_eq!(info.transform.rotation, scalar(0.75));
    assert_eq!(info.transform.scale, [scalar(2.0), scalar(3.0)]);
    let mut supported = info;
    supported.transform.tex_coord_override = Some(0);
    assert!(supported.current_base_color_fallback_uv_supported());
    supported.transform.tex_coord_override = None;
    supported.tex_coord = 1;
    assert!(!supported.current_base_color_fallback_uv_supported());
}

#[test]
fn material_kinds_and_instance_state_are_independent() {
    let zero = scalar(0.0);
    let one = scalar(1.0);
    let pocket_lit = MaterialAsset::pocket_lit(0, Some("lit".into()));
    let unlit = MaterialAsset {
        gltf_material_index: 1,
        name: Some("unlit".into()),
        inputs: MaterialInputs::default(),
        model: MaterialModel::Unlit(UnlitMaterial),
    };
    let mtoon = MaterialAsset {
        gltf_material_index: 2,
        name: Some("mtoon".into()),
        inputs: MaterialInputs::default(),
        model: MaterialModel::Mtoon(Box::new(MtoonMaterial {
            spec_version: "1.0".into(),
            transparent_with_z_write: false,
            render_queue_offset_number: 0,
            shade_color_factor: [zero; 3],
            shade_multiply_texture: None,
            shading_shift_factor: zero,
            shading_shift_texture: None,
            shading_toony_factor: scalar(0.9),
            gi_equalization_factor: scalar(0.9),
            matcap_factor: [one; 3],
            matcap_texture: None,
            parametric_rim_color_factor: [zero; 3],
            parametric_rim_fresnel_power_factor: scalar(5.0),
            parametric_rim_lift_factor: zero,
            rim_multiply_texture: None,
            rim_lighting_mix_factor: one,
            outline_width_mode: MtoonOutlineWidthMode::Off,
            outline_width_factor: zero,
            outline_width_multiply_texture: None,
            outline_color_factor: [zero; 3],
            outline_lighting_mix_factor: one,
            uv_animation_mask_texture: None,
            uv_animation_scroll_x_speed_factor: zero,
            uv_animation_scroll_y_speed_factor: zero,
            uv_animation_rotation_speed_factor: zero,
        })),
    };
    assert_eq!(pocket_lit.kind(), MaterialKind::PocketLit);
    assert_eq!(unlit.kind(), MaterialKind::Unlit);
    assert_eq!(mtoon.kind(), MaterialKind::Mtoon);

    let assets = vec![pocket_lit, unlit, mtoon];
    let mut first = MaterialStateSet::from_assets(&assets);
    let second = MaterialStateSet::from_assets(&assets);
    first
        .get_mut(2)
        .unwrap()
        .mtoon
        .as_mut()
        .unwrap()
        .shade_color_factor = [scalar(0.5); 3];
    assert_eq!(
        assets[2].authored_state().mtoon.unwrap().shade_color_factor,
        [zero; 3]
    );
    assert_eq!(
        second
            .get(2)
            .unwrap()
            .mtoon
            .as_ref()
            .unwrap()
            .shade_color_factor,
        [zero; 3]
    );
    assert_eq!(
        first.get(2).unwrap().mtoon.as_ref().unwrap().shade_color_factor,
        [scalar(0.5); 3]
    );
    first.reset_from_assets(&assets);
    assert_eq!(
        first.get(2).unwrap().mtoon.as_ref().unwrap().shade_color_factor,
        [zero; 3]
    );
    assert!(first.get(3).is_none());
    assert_eq!(first.len(), 3);
    assert!(!first.is_empty());
}

#[test]
fn render_phases_have_explicit_semantic_priority() {
    assert_eq!(
        RenderPhase::fallback(MaterialAlphaMode::Opaque),
        RenderPhase::Opaque
    );
    assert_eq!(
        RenderPhase::fallback(MaterialAlphaMode::Mask),
        RenderPhase::Mask
    );
    assert_eq!(
        RenderPhase::fallback(MaterialAlphaMode::Blend),
        RenderPhase::Blend
    );
    assert_eq!(RenderPhase::Opaque.pass_class(), RenderPassClass::Solid);
    assert_eq!(RenderPhase::Mask.pass_class(), RenderPassClass::Solid);

    let key = |phase, queue_offset| RenderSortKey {
        phase,
        queue_offset,
        camera_depth: scalar(0.0),
        author_draw_order: 0,
    };
    assert_eq!(
        key(RenderPhase::Opaque, i32::MAX).compare(&key(RenderPhase::Mask, i32::MIN)),
        Ordering::Less,
    );
    assert_eq!(
        key(RenderPhase::Mask, i32::MAX).compare(&key(RenderPhase::MtoonBlendZWrite, i32::MIN)),
        Ordering::Less,
    );
    assert_eq!(
        key(RenderPhase::MtoonBlendZWrite, i32::MAX).compare(&key(RenderPhase::Blend, i32::MIN)),
        Ordering::Less,
    );
}

#[test]
fn transparent_sort_uses_queue_then_back_to_front_then_stable_tie() {
    let key = |queue_offset, camera_depth, author_draw_order| RenderSortKey {
        phase: RenderPhase::Blend,
        queue_offset,
        camera_depth: scalar(camera_depth),
        author_draw_order,
    };
    let near_early_queue = key(-1, 2.0, 0);
    let far_late_queue = key(0, 20.0, 1);
    assert_eq!(
        near_early_queue.compare(&far_late_queue),
        Ordering::Less,
        "queue offset must outrank depth",
    );

    let near = key(0, 2.0, 0);
    let far = key(0, 20.0, 1);
    assert_eq!(far.compare(&near), Ordering::Less);
    assert_eq!(near.compare(&far), Ordering::Greater);

    let zwrite_near = RenderSortKey {
        phase: RenderPhase::MtoonBlendZWrite,
        ..near
    };
    let zwrite_far = RenderSortKey {
        phase: RenderPhase::MtoonBlendZWrite,
        ..far
    };
    assert_eq!(
        zwrite_far.compare(&zwrite_near),
        Ordering::Less,
        "equal-queue BLEND+ZWrite must also draw back-to-front"
    );

    let first = key(0, 2.0, 4);
    let second = key(0, 2.0, 5);
    assert_eq!(first.compare(&second), Ordering::Less);
    assert_eq!(first.compare(&first), Ordering::Equal);
}

#[test]
fn non_finite_transparent_depth_has_a_deterministic_safe_fallback() {
    let key = |camera_depth, author_draw_order| RenderSortKey {
        phase: RenderPhase::Blend,
        queue_offset: 0,
        camera_depth: scalar(camera_depth),
        author_draw_order,
    };
    assert_eq!(key(f32::NAN, 2).compare(&key(0.0, 3)), Ordering::Less);
    assert_eq!(
        key(f32::INFINITY, 2).compare(&key(f32::NEG_INFINITY, 3)),
        Ordering::Less,
    );
}

#[test]
fn presentation_fade_only_overrides_authored_solid_phases() {
    let half = scalar(0.5);
    assert_eq!(
        RenderPhase::Opaque.with_presentation_alpha(half),
        RenderPhase::Blend
    );
    assert_eq!(
        RenderPhase::Mask.with_presentation_alpha(half),
        RenderPhase::Blend
    );
    assert_eq!(
        RenderPhase::MtoonBlendZWrite.with_presentation_alpha(half),
        RenderPhase::MtoonBlendZWrite
    );
    assert_eq!(
        RenderPhase::Blend.with_presentation_alpha(half),
        RenderPhase::Blend
    );
    assert_eq!(
        RenderPhase::Mask.with_presentation_alpha(scalar(1.0)),
        RenderPhase::Mask
    );
}

#[test]
fn mtoon_authorship_does_not_activate_native_pipeline() {
    let key = MaterialPipelineKey::current_fallback(true, RenderPhase::Blend, false, 4);
    assert_eq!(key.shading_model, PipelineShadingModel::Unlit);
    assert_eq!(
        key.blend_depth_family,
        PipelineBlendDepthFamily::BlendNoDepthWrite
    );
    assert_eq!(key.render_pass, MaterialRenderPass::Surface);
}

#[test]
fn stage_d_pipeline_key_covers_four_phases_and_both_cull_modes() {
    for phase in [
        RenderPhase::Opaque,
        RenderPhase::Mask,
        RenderPhase::MtoonBlendZWrite,
        RenderPhase::Blend,
    ] {
        for double_sided in [false, true] {
            let key = MaterialPipelineKey::native_stage_d(phase, double_sided, 4);
            assert_eq!(key.shading_model, PipelineShadingModel::Mtoon);
            assert_eq!(
                key.blend_depth_family,
                match phase {
                    RenderPhase::Opaque | RenderPhase::Mask => {
                        PipelineBlendDepthFamily::OpaqueOrMask
                    }
                    RenderPhase::MtoonBlendZWrite => PipelineBlendDepthFamily::BlendDepthWrite,
                    RenderPhase::Blend => PipelineBlendDepthFamily::BlendNoDepthWrite,
                }
            );
            assert_eq!(key.sample_count, 4);
            assert_eq!(
                key.cull_mode,
                if double_sided {
                    PipelineCullMode::Off
                } else {
                    PipelineCullMode::Back
                }
            );
        }
    }
    assert_eq!(
        MaterialPipelineKey::current_fallback(false, RenderPhase::Opaque, false, 4).shading_model,
        PipelineShadingModel::PocketLit,
    );
    assert_eq!(
        MaterialPipelineKey::current_fallback(true, RenderPhase::Opaque, false, 4).shading_model,
        PipelineShadingModel::Unlit,
    );
}

#[test]
fn stage_e_outline_pipeline_key_has_four_families_and_fixed_front_culling() {
    for phase in [
        RenderPhase::Opaque,
        RenderPhase::Mask,
        RenderPhase::MtoonBlendZWrite,
        RenderPhase::Blend,
    ] {
        let key = MaterialPipelineKey::native_stage_e_outline(phase, 4);
        assert_eq!(key.shading_model, PipelineShadingModel::Mtoon);
        assert_eq!(key.cull_mode, PipelineCullMode::Front);
        assert_eq!(key.render_pass, MaterialRenderPass::Outline);
        assert_eq!(key.sample_count, 4);
        assert_eq!(
            key.blend_depth_family,
            match phase {
                RenderPhase::Opaque | RenderPhase::Mask => PipelineBlendDepthFamily::OpaqueOrMask,
                RenderPhase::MtoonBlendZWrite => PipelineBlendDepthFamily::BlendDepthWrite,
                RenderPhase::Blend => PipelineBlendDepthFamily::BlendNoDepthWrite,
            }
        );
    }
}

#[test]
fn non_mipmap_min_filters_clamp_to_base_level() {
    for filter in [
        None,
        Some(GltfMinFilter::Nearest),
        Some(GltfMinFilter::Linear),
    ] {
        assert!(
            !GltfSampler {
                min_filter: filter,
                ..Default::default()
            }
            .key()
            .uses_mipmaps
        );
    }
    assert!(
        GltfSampler {
            min_filter: Some(GltfMinFilter::LinearMipmapLinear),
            ..Default::default()
        }
        .key()
        .uses_mipmaps
    );
}

#[test]
fn scalars_compare_as_numbers() {
    let samples = [
        f32::NEG_INFINITY,
        -2.5,
        -f32::MIN_POSITIVE,
        -0.0,
        0.0,
        f32::MIN_POSITIVE,
        1.0,
        f32::MAX,
        f32::INFINITY,
        f32::NAN,
    ];
    for a in samples {
        assert_eq!(scalar(a).is_nan(), a.is_nan());
        assert_eq!(scalar(a).is_finite(), a.is_finite());
        for b in samples {
            assert_eq!(scalar(a).less(scalar(b)), a < b, "{a} < {b}");
            assert_eq!(scalar(a).less_or_equal(scalar(b)), a <= b, "{a} <= {b}");
            assert_eq!(scalar(a).equal(scalar(b)), a == b, "{a} == {b}");
            assert_eq!(
                scalar(a).total_rank() < scalar(b).total_rank(),
                a.total_cmp(&b) == Ordering::Less
            );
        }
        if !a.is_nan() {
            assert_eq!(
                scalar(a).clamp(scalar(0.0), scalar(1.0)),
                scalar(a.clamp(0.0, 1.0))
            );
        }
    }
}

#[test]
fn whole_numbers_round_like_floats() {
    let mut n: u32 = 1;
    for _ in 0..200 {
        assert_eq!(Scalar::from_whole(n), scalar(n as f32), "{n}");
        n = n.wrapping_mul(1_664_525).wrapping_add(1_013_904_223);
    }
    for n in [
        0,
        1,
        2,
        3,
        0xff_ffff,
        0x100_0000,
        0x100_0001,
        0x100_0002,
        0x100_0003,
        0x1ff_ffff,
        0x7fff_ffff,
        0x8000_0000,
        0xffff_ff7f,
        0xffff_ff80,
        u32::MAX,
    ] {
        assert_eq!(Scalar::from_whole(n), scalar(n as f32), "{n}");
    }
}

#[test]
fn texture_transforms_hold_one_entry_per_role() {
    let moved = TextureTransform {
        offset: [scalar(0.5), scalar(0.0)],
        ..TextureTransform::default()
    };
    let mut first = TextureTransforms::new();
    first.insert(TextureRole::Normal, TextureTransform::default());
    first.insert(TextureRole::Matcap, moved);
    first.insert(TextureRole::Normal, moved);
    let mut second = TextureTransforms::new();
    second.insert(TextureRole::Normal, moved);
    assert_ne!(first, second);
    second.insert(TextureRole::Matcap, moved);
    assert_eq!(first, second);
    assert_eq!(first.get(TextureRole::Normal), Some(moved));
    assert_eq!(first.get(TextureRole::BaseColor), None);
}
