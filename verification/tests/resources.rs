use pocket3d::clips::{flatten3, flatten4, strip_cubic};
use pocket3d::glb::{normalize_glb_container, GlbError};
use pocket3d::import::{ImageData, PixelFormat};
use pocket3d::layout::{MorphMesh, MorphPrim, VertexBinding};
use pocket3d::material::{
    GltfMinFilter, GltfSampler, GltfSamplerCache, MaterialAlphaMode, MaterialAsset,
    MaterialInputs, MaterialModel, MtoonMaterial, MtoonOutlineWidthMode, TextureInfo, TextureRole,
    TextureTransform,
};
use pocket3d::model::ModelAsset;
use pocket3d::morph::{sparse_deltas, MorphState};
use pocket3d::renderer::{order_world_batches, WorldBatchKind, WorldDraw};
use pocket3d::resources::{
    bind_mtoon_materials, can_upload, mtoon_texture, upload_base_colors, MtoonTexture,
};
use pocket3d::scalar::Scalar;
use pocket3d::submission::{collect_frame, DrawRoute, DrawnPrimitive, ModelDraw};
use pocket3d::texture::{mip_levels, MipSemantic, ModelTextureCache};
use pocket3d::uniforms::{lighting_uniforms, Fog, MaterialRaw, Rim, Toon};

fn scalar(value: f32) -> Scalar {
    Scalar {
        bits: value.to_bits(),
    }
}

fn float(value: Scalar) -> f32 {
    f32::from_bits(value.bits)
}

fn image(width: u32, height: u32, fill: u8) -> ImageData {
    ImageData {
        pixels: vec![fill; (width * height * 4) as usize],
        format: PixelFormat::R8G8B8A8,
        width,
        height,
    }
}

fn first_texel(_: MipSemantic, block: [[u8; 4]; 4]) -> [u8; 4] {
    block[0]
}

#[test]
fn used_images_share_slots_with_equal_ones() {
    let images = vec![image(2, 2, 7), image(2, 2, 9), image(2, 2, 7), image(4, 4, 7)];
    let used = vec![true, false, true, true];
    let mut cache = ModelTextureCache::new();
    assert_eq!(
        upload_base_colors(&images, &used, None, &mut cache),
        vec![Some(0), None, Some(0), Some(1)]
    );
    assert_eq!(cache.len(), 2);
    assert_eq!(cache.hit_count(), 1);
    assert_eq!(cache.key(1).width, 4);
    // Halved under a limit, the larger image becomes equal to the smaller one.
    let mut cache = ModelTextureCache::new();
    assert_eq!(
        upload_base_colors(&images, &used, Some(2), &mut cache),
        vec![Some(0), None, Some(0), Some(0)]
    );
}

#[test]
fn images_need_a_size_and_texels_to_be_uploaded() {
    assert!(can_upload(&vec![]));
    assert!(can_upload(&vec![image(2, 2, 7)]));
    assert!(!can_upload(&vec![image(2, 0, 7)]));
    let mut short = image(2, 2, 7);
    short.pixels.pop();
    assert!(!can_upload(&vec![short]));
    let mut gray = image(2, 2, 7);
    gray.format = PixelFormat::R8;
    assert!(can_upload(&vec![gray]));
    let mut colors = image(2, 2, 7);
    colors.format = PixelFormat::R8G8B8;
    colors.pixels.truncate(11);
    assert!(!can_upload(&vec![colors]));
    let huge = ImageData {
        pixels: vec![],
        format: PixelFormat::Other,
        width: u32::MAX,
        height: u32::MAX,
    };
    assert!(!can_upload(&vec![huge]));
}

fn info(role: TextureRole, image_index: usize, min_filter: Option<GltfMinFilter>) -> TextureInfo {
    TextureInfo {
        texture_index: image_index,
        image_index,
        sampler: GltfSampler {
            min_filter,
            ..GltfSampler::default()
        },
        tex_coord: 0,
        transform: TextureTransform::default(),
        role,
        color_space: role.color_space(),
    }
}

fn toon(index: usize, matcap: Option<TextureInfo>, base: Option<TextureInfo>) -> MaterialAsset {
    let (zero, one) = (scalar(0.0), scalar(1.0));
    MaterialAsset {
        gltf_material_index: index,
        name: None,
        inputs: MaterialInputs {
            base_color_texture: base,
            alpha_mode: MaterialAlphaMode::Opaque,
            ..Default::default()
        },
        model: MaterialModel::Mtoon(Box::new(MtoonMaterial {
            spec_version: "1.0".into(),
            transparent_with_z_write: false,
            render_queue_offset_number: 0,
            shade_color_factor: [zero; 3],
            shade_multiply_texture: None,
            shading_shift_factor: zero,
            shading_shift_texture: None,
            shading_toony_factor: one,
            gi_equalization_factor: one,
            matcap_factor: [one; 3],
            matcap_texture: matcap,
            parametric_rim_color_factor: [zero; 3],
            parametric_rim_fresnel_power_factor: one,
            parametric_rim_lift_factor: zero,
            rim_multiply_texture: None,
            rim_lighting_mix_factor: one,
            outline_width_mode: MtoonOutlineWidthMode::Off,
            outline_width_factor: zero,
            outline_width_multiply_texture: None,
            outline_color_factor: [zero; 3],
            outline_lighting_mix_factor: one,
            uv_animation_mask_texture: None,
            uv_animation_scroll_x_speed_factor: zero,
            uv_animation_scroll_y_speed_factor: zero,
            uv_animation_rotation_speed_factor: zero,
        })),
    }
}

#[test]
fn toon_materials_bind_their_textures_or_neutral_ones() {
    let images = vec![image(2, 2, 7), image(1, 1, 200)];
    let smooth = Some(GltfMinFilter::LinearMipmapLinear);
    let materials = vec![
        MaterialAsset::pocket_lit(0, None),
        toon(1, Some(info(TextureRole::Matcap, 1, smooth)), None),
        toon(2, None, Some(info(TextureRole::BaseColor, 0, None))),
    ];
    let mut cache = ModelTextureCache::new();
    let mut samplers = GltfSamplerCache::new();
    let groups = bind_mtoon_materials(
        &materials,
        &images,
        None,
        &mut cache,
        &mut samplers,
        &first_texel,
    );
    assert_eq!(groups.len(), 2);
    assert_eq!(groups[0].material, 1);
    assert_eq!(
        groups[0].textures,
        vec![
            MtoonTexture::White,
            MtoonTexture::FlatNormal,
            MtoonTexture::White,
            MtoonTexture::ZeroShift,
            MtoonTexture::White,
            MtoonTexture::Cached { slot: 0 },
            MtoonTexture::White,
            MtoonTexture::WhiteData,
            MtoonTexture::WhiteData,
        ]
    );
    assert_eq!(groups[0].samplers, vec![0, 0, 0, 0, 0, 1, 0, 0, 0]);
    assert_eq!(groups[1].material, 2);
    assert_eq!(groups[1].textures[0], MtoonTexture::Cached { slot: 1 });
    assert_eq!(groups[1].textures[5], MtoonTexture::Black);
    assert_eq!(groups[1].samplers, vec![0; 9]);
    assert_eq!(cache.key(0).rgba, vec![200; 4]);
    assert_eq!(cache.key(0).mip_semantic, MipSemantic::SrgbColor);
    assert_eq!((cache.len(), cache.hit_count()), (2, 0));
    assert_eq!(samplers.len(), 2);
    assert_eq!(
        mtoon_texture(
            &mut cache,
            &images,
            Some(1),
            Some(info(TextureRole::Normal, 0, None)),
            MtoonTexture::FlatNormal,
            &first_texel
        ),
        MtoonTexture::Cached { slot: 2 }
    );
    assert_eq!(cache.key(2).rgba, vec![7; 4]);
}

#[test]
fn mip_levels_are_filtered_from_the_level_before() {
    let rgba: Vec<u8> = (0..4 * 2 * 4).map(|i| i as u8).collect();
    let levels = mip_levels(
        rgba.clone(),
        4,
        2,
        true,
        MipSemantic::LinearData,
        &first_texel,
    );
    assert_eq!(levels.len(), 3);
    assert_eq!(levels[0], rgba);
    assert_eq!(levels[1], vec![0, 1, 2, 3, 8, 9, 10, 11]);
    assert_eq!(levels[2], vec![0, 1, 2, 3]);
    let single = mip_levels(rgba, 4, 2, false, MipSemantic::Legacy, &first_texel);
    assert_eq!(single.len(), 1);
}

#[test]
fn world_batches_are_grouped_by_kind() {
    let draw = |batch, bind_pipeline| WorldDraw {
        batch,
        bind_pipeline,
    };
    assert_eq!(
        order_world_batches(&[
            WorldBatchKind::Sky,
            WorldBatchKind::Opaque,
            WorldBatchKind::AlphaTest,
            WorldBatchKind::Opaque,
        ]),
        vec![draw(1, true), draw(3, false), draw(2, true), draw(0, true)]
    );
}

#[test]
fn the_view_model_is_submitted_apart() {
    let draw = || ModelDraw {
        presentation_alpha: scalar(1.0),
        primitives: vec![DrawnPrimitive {
            route: DrawRoute {
                native: false,
                phase: pocket3d::material::RenderPhase::Opaque,
                queue_offset: 0,
                outline: false,
            },
            camera_depth: scalar(0.0),
        }],
    };
    let draws = [draw(), draw(), draw()];
    let (scene, viewmodel) = collect_frame(&draws, true);
    assert_eq!((scene.len(), viewmodel.len()), (2, 1));
    assert_eq!(viewmodel[0].draw_index, 0);
    let (scene, viewmodel) = collect_frame(&draws, false);
    assert_eq!((scene.len(), viewmodel.len()), (3, 0));
    let (scene, viewmodel) = collect_frame(&[], true);
    assert!(scene.is_empty() && viewmodel.is_empty());
}

#[test]
fn raw_geometry_makes_one_plain_primitive() {
    let vertex = VertexBinding {
        uv: [scalar(0.0); 2],
        joints: [0; 4],
        weights: [scalar(0.0); 4],
        uv1: [scalar(0.0); 2],
    };
    let asset = ModelAsset::from_geometry("panel", vec![vertex; 4], vec![0, 1, 2, 0, 2, 3]);
    assert_eq!(asset.primitives.len(), 1);
    assert_eq!(asset.primitives[0].index_count, 6);
    assert_eq!(asset.primitives[0].vertex_count, 4);
    assert_eq!(asset.primitives[0].material_name.as_deref(), Some("panel"));
    assert!(!asset.primitives[0].unlit && !asset.primitives[0].double_sided);
    assert_eq!(asset.materials().len(), 1);
    assert_eq!(asset.prim_morph, vec![None]);
    let raw = MaterialRaw::from_upload(&asset.primitives[0]);
    assert_eq!(raw.base_color_factor.map(float), [1.0; 4]);
    assert_eq!(MaterialRaw::plain().params.map(float), [0.0; 4]);
}

#[test]
fn lighting_falls_back_to_neutral_values() {
    let neutral = lighting_uniforms(None, None, None);
    assert_eq!(neutral.toon.map(float), [0.0; 4]);
    assert_eq!(neutral.rim_color.map(float), [0.0; 4]);
    assert_eq!(neutral.rim_params.map(float), [1.0, 0.0, 0.0, 0.0]);
    assert_eq!(neutral.fog_color.map(float), [0.0; 4]);
    assert_eq!(neutral.fog_params.map(float), [0.0, 1.0, 0.0, 0.0]);
    let lit = lighting_uniforms(
        Some(Toon {
            steps: 3,
            wrap: scalar(2.0),
        }),
        Some(Rim {
            color: [scalar(0.5); 3],
            strength: scalar(-1.0),
            power: scalar(f32::NAN),
        }),
        Some(Fog {
            color: [scalar(0.25); 3],
            start: scalar(1.0),
            end: scalar(9.0),
        }),
    );
    assert_eq!(lit.toon.map(float), [3.0, 1.0, 1.0, 0.0]);
    assert_eq!(lit.rim_color.map(float), [0.5, 0.5, 0.5, 0.0]);
    assert_eq!(lit.rim_params.map(float), [1.0, 0.0, 0.0, 0.0]);
    assert_eq!(lit.fog_color.map(float), [0.25, 0.25, 0.25, 1.0]);
    assert_eq!(lit.fog_params.map(float), [1.0, 9.0, 0.0, 0.0]);
    let reversed = lighting_uniforms(
        None,
        None,
        Some(Fog {
            color: [scalar(0.25); 3],
            start: scalar(9.0),
            end: scalar(1.0),
        }),
    );
    assert_eq!(reversed.fog_params.map(float), [0.0, 1.0, 0.0, 0.0]);
}

#[test]
fn morph_weights_read_back_and_upload_once() {
    let mesh = |target_count| MorphMesh {
        mesh: 0,
        target_count,
        prims: vec![MorphPrim {
            primitive: 0,
            vertex_base: 0,
            vertex_count: 3,
            overlay_offset: 0,
        }],
    };
    assert!(MorphState::at_rest(&[]).is_none());
    let mut state = MorphState::at_rest(&[mesh(2), mesh(1)]).unwrap();
    assert!(state.take_uploads().is_empty());
    state.set_weight(1, 0, scalar(0.75));
    assert_eq!(state.weight(1, 0), scalar(0.75));
    assert_eq!(state.weight(0, 1), scalar(0.0));
    assert_eq!(state.weight(7, 0), scalar(0.0));
    assert_eq!(state.take_uploads(), vec![1]);
    assert_eq!(state.active_targets(1, 1), vec![(0, scalar(0.75))]);
    state.set_weight(1, 0, scalar(0.75));
    assert!(state.take_uploads().is_empty());
    assert_eq!(
        sparse_deltas(
            &[[scalar(0.0); 3], [scalar(1.0); 3]],
            &[scalar(0.0), scalar(3.0)]
        ),
        vec![(1, [scalar(1.0); 3])]
    );
}

#[test]
fn cubic_outputs_lose_their_tangents() {
    assert_eq!(strip_cubic(&vec![1, 2, 3, 4, 5, 6], true), vec![2, 5]);
    assert_eq!(strip_cubic(&vec![1, 2, 3], false), vec![1, 2, 3]);
    let flat = flatten3(&vec![[scalar(1.0), scalar(2.0), scalar(3.0)]], false);
    assert_eq!(flat, vec![scalar(1.0), scalar(2.0), scalar(3.0)]);
    let rotation = |v: f32| [scalar(v); 4];
    let flat = flatten4(&vec![rotation(1.0), rotation(2.0), rotation(3.0)], true);
    assert_eq!(flat, vec![scalar(2.0); 4]);
}

fn container(chunks: &[(&[u8; 4], &[u8])]) -> Vec<u8> {
    let mut bytes = b"glTF".to_vec();
    bytes.extend_from_slice(&2u32.to_le_bytes());
    bytes.extend_from_slice(&[0; 4]);
    for (kind, payload) in chunks {
        bytes.extend_from_slice(&(payload.len() as u32).to_le_bytes());
        bytes.extend_from_slice(*kind);
        bytes.extend_from_slice(payload);
    }
    let length = bytes.len() as u32;
    bytes[8..12].copy_from_slice(&length.to_le_bytes());
    bytes
}

#[test]
fn containers_are_repacked_without_unknown_chunks() {
    let plain = container(&[(b"JSON", b"{}  "), (b"BIN\0", &[1, 2, 3, 4])]);
    assert_eq!(normalize_glb_container(&plain), Ok(None));
    let foreign = container(&[
        (b"JSON", b"{}  "),
        (b"TEST", &[9; 8]),
        (b"BIN\0", &[1, 2, 3, 4]),
    ]);
    assert_eq!(normalize_glb_container(&foreign), Ok(Some(plain)));
}

#[test]
fn each_container_fault_has_an_input() {
    let mut version = container(&[(b"JSON", b"{}  ")]);
    version[4] = 1;
    let mut length = container(&[(b"JSON", b"{}  ")]);
    length[8] += 1;
    let mut cut = container(&[(b"JSON", b"{}  ")]);
    cut.extend_from_slice(&[0; 4]);
    let declared = cut.len() as u32;
    cut[8..12].copy_from_slice(&declared.to_le_bytes());
    let mut long = container(&[(b"JSON", b"{}  ")]);
    long[12] = 200;
    let faults: Vec<(Vec<u8>, GlbError)> = vec![
        (b"glTF".to_vec(), GlbError::TruncatedHeader),
        (vec![0; 12], GlbError::BadMagic),
        (version, GlbError::UnsupportedVersion { version: 1 }),
        (
            length,
            GlbError::LengthMismatch {
                declared: 25,
                actual: 24,
            },
        ),
        (cut, GlbError::TruncatedChunkHeader),
        (long, GlbError::ChunkExceedsLength),
        (
            container(&[(b"BIN\0", &[1, 2, 3, 4])]),
            GlbError::FirstChunkNotJson,
        ),
        (
            container(&[(b"JSON", b"{}  "), (b"JSON", b"{}  ")]),
            GlbError::MultipleJsonChunks,
        ),
        (
            container(&[
                (b"JSON", b"{}  "),
                (b"BIN\0", &[0; 4]),
                (b"BIN\0", &[0; 4]),
            ]),
            GlbError::MultipleBinChunks,
        ),
    ];
    for (bytes, fault) in faults {
        let error = normalize_glb_container(&bytes).unwrap_err();
        assert_eq!(error, fault);
        assert!(error.message("broken.glb").contains("invalid GLB broken.glb"));
    }
}
