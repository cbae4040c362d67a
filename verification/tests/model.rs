use base64::Engine as _;
use pocket3d::accessors::ComponentType;
use pocket3d::authoring::{
    authored_materials, authored_render_phase, authored_render_queue_offset,
    mtoon_outline_enabled, native_stage_f_capable, pocket3d_base_color_mode_from_extras,
    pocket3d_role_from_extras, semantic_material_matches, MaterialBaseColorMode, MaterialError,
};
use pocket3d::import::{
    import_glb_slice, import_glb_slice_with_options, BudgetError, ByteImageBudget, ImageData,
    ImportError, ImportedGlb, PixelFormat, MAX_BYTE_IMAGE_BYTES, MAX_BYTE_IMAGE_COUNT,
};
use pocket3d::loading::{load_document, ByteLoadError, DocumentLoadError, LoadedModel};
use pocket3d::material::{
    GltfMagFilter, GltfMinFilter, GltfSampler, MaterialAlphaMode, MaterialAsset, MaterialInputs,
    MaterialModel, MtoonMaterial, MtoonMaterialDescriptor, MtoonOutlineWidthMode, RenderPhase,
    TextureColorSpace, TextureInfo, TextureRole, TextureTransform,
};
use pocket3d::model::{
    find_node_named, palette_from_globals, LoadError, ModelAsset, ModelLoadOptions,
};
use pocket3d::overrides::{
    validate_normalized_texcoord0, validate_overrides, MaterialTextureOverride, OverrideConflict,
    TexCoordError,
};
use pocket3d::scalar::Scalar;
use pocket3d::source::{SourceModel, SourceOutputs};
use pocket3d::texture::{
    cap_texture_rgba, cap_texture_rgba_semantic, mtoon_texture_semantic, to_rgba8, MipSemantic,
};
use pocket3d::uniforms::{MtoonRaw, MtoonTurns, Turn};
use pocket3d::validation::{
    validate_joint_palette_count, validate_model_input, Attribute, InputError,
};

fn scalar(value: f32) -> Scalar {
    Scalar {
        bits: value.to_bits(),
    }
}

fn float(value: Scalar) -> f32 {
    f32::from_bits(value.bits)
}

fn length_squared(rotation: [Scalar; 4]) -> Scalar {
    scalar(rotation.iter().map(|&v| float(v) * float(v)).sum())
}

fn span(coordinates: &Vec<[Scalar; 2]>) -> [Scalar; 2] {
    let axis = |axis: usize| {
        let values = || coordinates.iter().map(|c| float(c[axis]));
        scalar(values().fold(f32::MIN, f32::max) - values().fold(f32::MAX, f32::min))
    };
    [axis(0), axis(1)]
}

fn glb_from_json(json: &str, bin: &[u8]) -> Vec<u8> {
    let with_bin = !bin.is_empty() || json.contains("\"buffers\"");
    let mut json = json.as_bytes().to_vec();
    while json.len() % 4 != 0 {
        json.push(b' ');
    }
    let padded_bin_len = (bin.len() + 3) & !3;
    let total_len = 12 + 8 + json.len() + if with_bin { 8 + padded_bin_len } else { 0 };
    let mut glb = Vec::with_capacity(total_len);
    glb.extend_from_slice(b"glTF");
    glb.extend_from_slice(&2u32.to_le_bytes());
    glb.extend_from_slice(&(total_len as u32).to_le_bytes());
    glb.extend_from_slice(&(json.len() as u32).to_le_bytes());
    glb.extend_from_slice(b"JSON");
    glb.extend_from_slice(&json);
    if with_bin {
        glb.extend_from_slice(&(padded_bin_len as u32).to_le_bytes());
        glb.extend_from_slice(b"BIN\0");
        glb.extend_from_slice(bin);
        glb.resize(glb.len() + padded_bin_len - bin.len(), 0);
    }
    glb
}

fn minimal_glb() -> Vec<u8> {
    glb_from_json(
        r#"{"asset":{"version":"2.0"},"scene":0,"scenes":[{"nodes":[]}]}"#,
        &[],
    )
}

fn append_unknown_chunk(mut glb: Vec<u8>) -> Vec<u8> {
    let payload = [1u8, 2, 3, 4];
    glb.extend_from_slice(&(payload.len() as u32).to_le_bytes());
    glb.extend_from_slice(b"TEST");
    glb.extend_from_slice(&payload);
    let length = glb.len() as u32;
    glb[8..12].copy_from_slice(&length.to_le_bytes());
    glb
}

fn png_bytes(width: u32, height: u32) -> Vec<u8> {
    let mut encoded = Vec::new();
    let mut encoder = png::Encoder::new(&mut encoded, width, height);
    encoder.set_color(png::ColorType::Rgba);
    encoder.set_depth(png::BitDepth::Eight);
    let mut writer = encoder.write_header().unwrap();
    writer
        .write_image_data(&vec![255; (width * height * 4) as usize])
        .unwrap();
    drop(writer);
    encoded
}

/// A binary chunk with the views and accessors that describe it.
#[derive(Default)]
struct Binary {
    bin: Vec<u8>,
    views: Vec<String>,
    accessors: Vec<String>,
}

impl Binary {
    fn view(&mut self, bytes: &[u8], target: bool) -> usize {
        let target = if target { ",\"target\":34962" } else { "" };
        self.views.push(format!(
            "{{\"buffer\":0,\"byteOffset\":{},\"byteLength\":{}{target}}}",
            self.bin.len(),
            bytes.len()
        ));
        self.bin.extend_from_slice(bytes);
        self.views.len() - 1
    }

    fn accessor(&mut self, view: usize, code: u32, count: usize, kind: &str, rest: &str) -> usize {
        self.accessors.push(format!(
            "{{\"bufferView\":{view},\"componentType\":{code},\"count\":{count},\"type\":\"{kind}\"{rest}}}"
        ));
        self.accessors.len() - 1
    }

    fn f32s(&mut self, count: usize, components: usize) -> usize {
        let bytes: Vec<u8> = (0..count * components)
            .flat_map(|i| (i as f32).to_le_bytes())
            .collect();
        let view = self.view(&bytes, true);
        let (kind, rest) = match components {
            1 => ("SCALAR", ""),
            2 => ("VEC2", ""),
            3 => ("VEC3", ",\"min\":[0.0,0.0,0.0],\"max\":[1.0,1.0,1.0]"),
            4 => ("VEC4", ""),
            _ => panic!("unsupported accessor width"),
        };
        self.accessor(view, 5126, count, kind, rest)
    }

    fn u16_vec4s(&mut self, count: usize) -> usize {
        let view = self.view(&vec![0; count * 8], true);
        self.accessor(view, 5123, count, "VEC4", "")
    }

    fn glb(&self, rest: &str) -> Vec<u8> {
        glb_from_json(
            &format!(
                "{{\"asset\":{{\"version\":\"2.0\"}},\"scene\":0,{rest},\"buffers\":[{{\"byteLength\":{}}}],\"bufferViews\":[{}],\"accessors\":[{}]}}",
                self.bin.len(),
                self.views.join(","),
                self.accessors.join(",")
            ),
            &self.bin,
        )
    }
}

fn data_uri_image_glb(width: u32, height: u32) -> Vec<u8> {
    let encoded = base64::engine::general_purpose::STANDARD.encode(png_bytes(width, height));
    let mut binary = Binary::default();
    let position = binary.f32s(3, 3);
    binary.glb(&format!(
        r#""scenes":[{{"nodes":[0]}}],"nodes":[{{"mesh":0}}],
        "meshes":[{{"primitives":[{{"attributes":{{"POSITION":{position}}},"material":0}}]}}],
        "images":[{{"uri":"data:image/png;base64,{encoded}"}}],"textures":[{{"source":0}}],
        "materials":[{{"pbrMetallicRoughness":{{"baseColorTexture":{{"index":0}}}}}}]"#
    ))
}

fn mesh_fixture(
    normal_count: Option<usize>,
    joints_count: Option<usize>,
    weights_count: Option<usize>,
    morph_position_count: Option<usize>,
    morph_normal_count: Option<usize>,
) -> Vec<u8> {
    let mut binary = Binary::default();
    let mut attributes = format!("\"POSITION\":{}", binary.f32s(4, 3));
    if let Some(count) = normal_count {
        attributes += &format!(",\"NORMAL\":{}", binary.f32s(count, 3));
    }
    if let Some(count) = joints_count {
        attributes += &format!(",\"JOINTS_0\":{}", binary.u16_vec4s(count));
    }
    if let Some(count) = weights_count {
        attributes += &format!(",\"WEIGHTS_0\":{}", binary.f32s(count, 4));
    }
    let mut target = Vec::new();
    if let Some(count) = morph_position_count {
        target.push(format!("\"POSITION\":{}", binary.f32s(count, 3)));
    }
    if let Some(count) = morph_normal_count {
        target.push(format!("\"NORMAL\":{}", binary.f32s(count, 3)));
    }
    let targets = if target.is_empty() {
        String::new()
    } else {
        format!(",\"targets\":[{{{}}}]", target.join(","))
    };
    binary.glb(&format!(
        r#""scenes":[{{"nodes":[0]}}],"nodes":[{{"mesh":0}}],
        "meshes":[{{"primitives":[{{"attributes":{{{attributes}}}{targets}}}]}}]"#
    ))
}

fn two_skin_fixture(inverse_bind_count: Option<usize>, invalid_joint: bool) -> Vec<u8> {
    let mut binary = Binary::default();
    let bytes: Vec<u8> = [
        [-0.25_f32, -0.25, 0.0],
        [0.25, -0.25, 0.0],
        [0.0, 0.25, 0.0],
    ]
    .iter()
    .flatten()
    .flat_map(|v| v.to_le_bytes())
    .collect();
    let view = binary.view(&bytes, true);
    binary.accessor(
        view,
        5126,
        3,
        "VEC3",
        ",\"min\":[-0.25,-0.25,0.0],\"max\":[0.25,0.25,0.0]",
    );
    let joint_offset = binary.bin.len();
    let joints = binary.u16_vec4s(3);
    if invalid_joint {
        binary.bin[joint_offset..joint_offset + 2].copy_from_slice(&1_u16.to_le_bytes());
    }
    let weight_offset = binary.bin.len();
    let weights = binary.f32s(3, 4);
    for vertex in 0..3 {
        let offset = weight_offset + vertex * 16;
        binary.bin[offset..offset + 4].copy_from_slice(&1.0_f32.to_le_bytes());
    }
    let bind = match inverse_bind_count {
        Some(count) => {
            let view = binary.view(&vec![0; count * 64], false);
            let accessor = binary.accessor(view, 5126, count, "MAT4", "");
            format!(",\"inverseBindMatrices\":{accessor}")
        }
        None => String::new(),
    };
    let mesh = format!(
        r#"{{"primitives":[{{"attributes":{{"POSITION":0,"JOINTS_0":{joints},"WEIGHTS_0":{weights}}}}}]}}"#
    );
    binary.glb(&format!(
        r#""scenes":[{{"nodes":[0,1,2,3]}}],
        "nodes":[{{"mesh":0,"skin":0}},{{"mesh":1,"skin":1}},
            {{"translation":[-1.0,0.0,0.0]}},{{"translation":[1.0,0.0,0.0]}}],
        "skins":[{{"joints":[2]{bind}}},{{"joints":[3]}}],
        "meshes":[{mesh},{mesh}]"#
    ))
}

fn animation_fixture(
    input_count: usize,
    output_count: usize,
    output_components: usize,
    path: &str,
) -> Vec<u8> {
    animation_fixture_with_interpolation(
        input_count,
        output_count,
        output_components,
        path,
        "LINEAR",
    )
}

fn animation_fixture_with_interpolation(
    input_count: usize,
    output_count: usize,
    output_components: usize,
    path: &str,
    interpolation: &str,
) -> Vec<u8> {
    let mut binary = Binary::default();
    let input = binary.f32s(input_count, 1);
    let output = binary.f32s(output_count, output_components);
    binary.glb(&format!(
        r#""scenes":[{{"nodes":[0]}}],"nodes":[{{}}],
        "animations":[{{"samplers":[{{"input":{input},"output":{output},"interpolation":"{interpolation}"}}],
            "channels":[{{"sampler":0,"target":{{"node":0,"path":"{path}"}}}}]}}]"#
    ))
}

fn animation_fixture_with_duplicate_times() -> Vec<u8> {
    let mut bytes = animation_fixture(2, 2, 3, "translation");
    let json_len = u32::from_le_bytes(bytes[12..16].try_into().unwrap()) as usize;
    let input_start = 12 + 8 + json_len + 8;
    bytes[input_start + 4..input_start + 8].copy_from_slice(&0.0f32.to_le_bytes());
    bytes
}

fn zero_rotation_animation_fixture() -> Vec<u8> {
    let mut bytes = animation_fixture(1, 1, 4, "rotation");
    let json_len = u32::from_le_bytes(bytes[12..16].try_into().unwrap()) as usize;
    let output_start = 12 + 8 + json_len + 8 + 4;
    for offset in (output_start..output_start + 16).step_by(4) {
        bytes[offset..offset + 4].copy_from_slice(&0.0f32.to_le_bytes());
    }
    bytes
}

fn unlit_fixture() -> Vec<u8> {
    let mut binary = Binary::default();
    let position = binary.f32s(3, 3);
    binary.glb(&format!(
        r#""extensionsUsed":["KHR_materials_unlit","X_TEST_VALIDATED"],
        "extensionsRequired":["KHR_materials_unlit","X_TEST_VALIDATED"],
        "scenes":[{{"nodes":[0]}}],"nodes":[{{"mesh":0}}],
        "meshes":[{{"primitives":[{{"attributes":{{"POSITION":{position}}},"material":0}}]}}],
        "materials":[{{"extensions":{{"KHR_materials_unlit":{{}}}},"doubleSided":true}}]"#
    ))
}

/// What was read of a file, with the values of its accessors.
fn source_of(bytes: &[u8]) -> SourceModel {
    let ImportedGlb {
        document,
        source,
        buffers,
        ..
    } = import_glb_slice(bytes, &[]).unwrap();
    source.with_values(&document, &buffers, &length_squared, &span)
}

fn load(bytes: &[u8]) -> Result<LoadedModel, ByteLoadError> {
    ModelAsset::load_glb_bytes(bytes, &length_squared, &span)
}

fn validate_fixture(bytes: &[u8]) -> String {
    validate_model_input(&source_of(bytes))
        .unwrap_err()
        .message("malformed.glb")
}

fn stage_c_texture(role: TextureRole, index: usize) -> TextureInfo {
    TextureInfo {
        texture_index: index,
        image_index: index,
        sampler: GltfSampler {
            mag_filter: Some(GltfMagFilter::Nearest),
            min_filter: Some(GltfMinFilter::Nearest),
            ..Default::default()
        },
        tex_coord: 0,
        transform: TextureTransform::default(),
        role,
        color_space: role.color_space(),
    }
}

fn stage_c_descriptor() -> MtoonMaterialDescriptor {
    let (zero, one) = (scalar(0.0), scalar(1.0));
    MtoonMaterialDescriptor {
        material_index: 0,
        inputs: MaterialInputs {
            base_color_factor: [zero, zero, zero, one],
            double_sided: true,
            ..Default::default()
        },
        mtoon: MtoonMaterial {
            spec_version: "1.0".into(),
            transparent_with_z_write: false,
            render_queue_offset_number: 0,
            shade_color_factor: [zero; 3],
            shade_multiply_texture: None,
            shading_shift_factor: zero,
            shading_shift_texture: None,
            shading_toony_factor: scalar(0.9),
            gi_equalization_factor: scalar(0.9),
            matcap_factor: [one; 3],
            matcap_texture: None,
            parametric_rim_color_factor: [zero; 3],
            parametric_rim_fresnel_power_factor: scalar(5.0),
            parametric_rim_lift_factor: zero,
            rim_multiply_texture: None,
            rim_lighting_mix_factor: one,
            outline_width_mode: MtoonOutlineWidthMode::Off,
            outline_width_factor: zero,
            outline_width_multiply_texture: None,
            outline_color_factor: [zero; 3],
            outline_lighting_mix_factor: one,
            uv_animation_mask_texture: None,
            uv_animation_scroll_x_speed_factor: zero,
            uv_animation_scroll_y_speed_factor: zero,
            uv_animation_rotation_speed_factor: zero,
        },
    }
}

fn mtoon_asset(descriptor: MtoonMaterialDescriptor) -> MaterialAsset {
    MaterialAsset {
        gltf_material_index: 0,
        name: None,
        inputs: descriptor.inputs,
        model: MaterialModel::Mtoon(Box::new(descriptor.mtoon)),
    }
}

fn mtoon_of(material: &mut MaterialAsset) -> &mut MtoonMaterial {
    match &mut material.model {
        MaterialModel::Mtoon(mtoon) => mtoon,
        _ => unreachable!(),
    }
}

#[test]
fn authored_base_color_uv1_fails_instead_of_sampling_uv0() {
    for texture_info in [
        r#"{"index":0,"texCoord":1}"#,
        r#"{"index":0,"extensions":{"KHR_texture_transform":{"texCoord":1}}}"#,
    ] {
        let bytes = glb_from_json(
            &format!(
                r#"{{"asset":{{"version":"2.0"}},
                "materials":[{{"pbrMetallicRoughness":{{"baseColorTexture":{texture_info}}}}}],
                "textures":[{{"source":0}}],
                "images":[{{"uri":"data:image/png;base64,AA=="}}]}}"#
            ),
            &[],
        );
        let document = gltf::Gltf::from_slice_without_validation(&bytes)
            .unwrap()
            .document;
        let error = authored_materials(&SourceModel::read(&document), &[], false)
            .unwrap_err()
            .message("uv1.glb");
        assert!(
            error.contains("material 0") && error.contains("TEXCOORD_1"),
            "{error}"
        );
    }
}

#[test]
fn embedded_glb_imports_from_memory() {
    let imported = import_glb_slice(&minimal_glb(), &[]).unwrap();
    assert_eq!(imported.document.scenes().count(), 1);
    assert!(imported.buffers.is_empty());
    assert!(imported.images.is_empty());
}

#[test]
fn unknown_glb_chunks_are_ignored() {
    let imported = import_glb_slice(&append_unknown_chunk(minimal_glb()), &[]).unwrap();
    assert_eq!(imported.document.scenes().count(), 1);
    assert!(imported.buffers.is_empty());
    assert!(imported.images.is_empty());
}

#[test]
fn embedded_glb_error_includes_label() {
    let error = import_glb_slice(b"not a glb", &[]).unwrap_err();
    assert!(error.message("player.glb").contains("player.glb"));
}

#[test]
fn byte_loader_rejects_external_buffer_uri() {
    let bytes = glb_from_json(
        r#"{"asset":{"version":"2.0"},"buffers":[{"uri":"relative.bin","byteLength":4}],
        "scene":0,"scenes":[{"nodes":[]}]}"#,
        &[],
    );
    let error = import_glb_slice(&bytes, &[])
        .unwrap_err()
        .message("external.glb");
    assert!(error.contains("external buffer URI"));
    assert!(error.contains("not allowed for byte-loaded GLB"));
}

#[test]
fn data_uri_buffer_imports_from_memory() {
    let bytes = glb_from_json(
        r#"{"asset":{"version":"2.0"},"scene":0,"scenes":[{"nodes":[]}],
        "buffers":[{"uri":"data:application/octet-stream;base64,AQIDBA==","byteLength":4}]}"#,
        &[],
    );
    let imported = import_glb_slice(&bytes, &[]).unwrap();
    assert_eq!(&imported.buffers[0][..4], &[1, 2, 3, 4]);
}

#[test]
fn data_uri_image_imports_from_memory() {
    let imported = import_glb_slice(&data_uri_image_glb(2, 1), &[]).unwrap();
    assert_eq!(
        (imported.images[0].width, imported.images[0].height),
        (2, 1)
    );
    assert_eq!(imported.images[0].format, PixelFormat::R8G8B8A8);
    assert_eq!(imported.images[0].pixels, vec![255; 8]);
}

#[test]
fn bytes_image_decode_preserves_downsampling_behavior() {
    let imported = import_glb_slice_with_options(&data_uri_image_glb(2, 1), &[], Some(1)).unwrap();
    let image = &imported.images[0];
    let (pixels, width, height) =
        cap_texture_rgba(to_rgba8(image), image.width, image.height, Some(1));
    assert_eq!((width, height), (1, 1));
    assert_eq!(pixels.len(), 4);
}

#[test]
fn byte_image_budget_rejects_cumulative_decoded_bytes() {
    let mut budget = ByteImageBudget::default();
    for _ in 0..(MAX_BYTE_IMAGE_BYTES / (4096 * 4096 * 4)) as usize {
        budget.reserve(4096, 4096).unwrap();
    }
    let error = budget.reserve(4096, 4096).unwrap_err();
    assert!(error
        .message(4, "budget.glb")
        .contains("decoded image byte budget"));
}

#[test]
fn byte_image_budget_rejects_excessive_image_count() {
    let mut budget = ByteImageBudget::default();
    for _ in 0..MAX_BYTE_IMAGE_COUNT {
        budget.reserve(1, 1).unwrap();
    }
    let error = budget.reserve(1, 1).unwrap_err();
    assert!(error
        .message(MAX_BYTE_IMAGE_COUNT, "count.glb")
        .contains("decoded images"));
}

#[test]
fn oversized_joint_palette_returns_loader_error() {
    let error = validate_joint_palette_count(513)
        .unwrap_err()
        .message("oversized-rig.glb");
    assert!(error.contains("combined skin joint count 513"));
    assert!(error.contains("limit 512"));
}

#[test]
fn wrong_inverse_bind_count_and_invalid_joint_index_remain_loader_errors() {
    let wrong_bind = validate_fixture(&two_skin_fixture(Some(2), false));
    assert!(wrong_bind.contains("inverse bind matrix count 2 does not match skin joint count 1"));
    let invalid_joint = validate_fixture(&two_skin_fixture(None, true));
    assert!(invalid_joint
        .contains("JOINTS_0 vertex 0 index 1 at slot 0 exceeds skin joint count 1"));
}

#[test]
fn two_skin_palettes_keep_per_skin_joint_remapping() {
    let asset = load(&two_skin_fixture(None, false)).unwrap().asset;
    assert_eq!(asset.skins.len(), 2);
    assert_eq!(asset.skins[0].joints, [2]);
    assert_eq!(asset.skins[1].joints, [3]);
    assert_eq!(asset.skin_base, [0, 1]);
    assert_eq!(asset.vertices[0].joints, [0, 0, 0, 0]);
    assert_eq!(asset.vertices[3].joints, [1, 1, 1, 1]);

    let matrix = |values: &[Scalar; 16]| glam::Mat4::from_cols_array(&values.map(float));
    let skins = asset
        .skins
        .iter()
        .map(|skin| pocket3d::mesh::Skin {
            joints: skin.joints.clone(),
            inverse_bind: skin.inverse_bind.iter().map(matrix).collect(),
        })
        .collect();
    let locals: Vec<glam::Mat4> = asset
        .skeleton
        .rest
        .iter()
        .map(|rest| glam::Mat4::from_translation(rest.translation.map(float).into()))
        .collect();
    let mut globals = Vec::new();
    asset.skeleton.globals_from_locals(
        &locals,
        glam::Mat4::IDENTITY,
        |a, b| a * b,
        &mut globals,
    );
    let palette =
        palette_from_globals(&skins, &globals, glam::Mat4::IDENTITY, |a, b| a * b);
    assert_eq!(palette.len(), 2);
    assert_eq!(
        palette[0].w_axis.truncate(),
        glam::Vec3::new(-1.0, 0.0, 0.0)
    );
    assert_eq!(palette[1].w_axis.truncate(), glam::Vec3::new(1.0, 0.0, 0.0));
}

#[test]
fn caller_validated_required_extension_is_tolerated_without_disabling_core_validation() {
    let bytes = glb_from_json(
        r#"{"asset":{"version":"2.0"},"extensionsUsed":["X_TEST_VALIDATED"],
        "extensionsRequired":["X_TEST_VALIDATED"],"scene":0,"scenes":[{"nodes":[]}]}"#,
        &[],
    );
    let imported = import_glb_slice(&bytes, &["X_TEST_VALIDATED".to_owned()]).unwrap();
    assert_eq!(imported.document.scenes().count(), 1);
    assert!(imported.buffers.is_empty());
    assert!(imported.images.is_empty());
}

#[test]
fn unknown_required_extension_is_rejected() {
    let bytes = glb_from_json(
        r#"{"asset":{"version":"2.0"},"extensionsRequired":["X_TEST_UNKNOWN"],
        "scene":0,"scenes":[{"nodes":[]}]}"#,
        &[],
    );
    let error = import_glb_slice(&bytes, &[])
        .unwrap_err()
        .message("unknown-extension.glb");
    assert!(error.contains("required extension X_TEST_UNKNOWN"));
    assert!(error.contains("not enabled or caller-validated"));
}

#[test]
fn odd_texture_dimensions_are_capped_by_max_texture_dim() {
    let rgba = vec![255u8; 5 * 3 * 4];
    let (rgba, width, height) = cap_texture_rgba(rgba, 5, 3, Some(2));
    assert_eq!((width, height), (2, 1));
    assert_eq!(rgba.len(), (width * height * 4) as usize);
}

#[test]
fn short_normal_accessor_returns_loader_error() {
    let error = validate_fixture(&mesh_fixture(Some(3), None, None, None, None));
    assert!(error.contains("NORMAL accessor count 3"));
    assert!(error.contains("POSITION count 4"));
}

#[test]
fn short_joints_accessor_returns_loader_error() {
    let error = validate_fixture(&mesh_fixture(None, Some(3), None, None, None));
    assert!(error.contains("JOINTS_0 accessor count 3"));
    assert!(error.contains("POSITION count 4"));
}

#[test]
fn short_weights_accessor_returns_loader_error() {
    let error = validate_fixture(&mesh_fixture(None, None, Some(3), None, None));
    assert!(error.contains("WEIGHTS_0 accessor count 3"));
    assert!(error.contains("POSITION count 4"));
}

#[test]
fn morph_target_count_mismatch_returns_loader_error() {
    let error = validate_fixture(&mesh_fixture(None, None, None, Some(3), None));
    assert!(error.contains("morph POSITION target 0 accessor count 3"));
    assert!(error.contains("POSITION count 4"));
}

#[test]
fn zero_animation_keys_return_loader_error() {
    let error = validate_fixture(&animation_fixture(0, 1, 3, "translation"));
    assert!(error.contains("has zero input keys"));
}

#[test]
fn animation_input_output_mismatch_returns_loader_error() {
    let error = validate_fixture(&animation_fixture(2, 1, 3, "translation"));
    assert!(error.contains("animation channel output count 1"));
    assert!(error.contains("input key count 2"));
}

#[test]
fn duplicate_animation_times_return_loader_error() {
    let error = validate_fixture(&animation_fixture_with_duplicate_times());
    assert!(error.contains("invalid or unsorted input keys"));
}

#[test]
fn cubic_spline_requires_two_keys() {
    let error = validate_fixture(&animation_fixture_with_interpolation(
        1,
        3,
        3,
        "translation",
        "CUBICSPLINE",
    ));
    assert!(error.contains("fewer than two CUBICSPLINE keys"));
}

#[test]
fn zero_rotation_quaternion_returns_loader_error() {
    let error = validate_fixture(&zero_rotation_animation_fixture());
    assert!(error.contains("zero or non-finite rotation quaternion"));
}

#[test]
fn malformed_rotation_output_returns_loader_error() {
    let error = validate_fixture(&animation_fixture(1, 1, 3, "rotation"));
    assert!(error.contains("output dimensions incompatible with its target"));
}

#[test]
fn valid_animation_fixture_passes_loader_validation() {
    validate_model_input(&source_of(&animation_fixture(2, 2, 3, "translation"))).unwrap();
}

#[test]
fn bytes_options_and_unlit_material_load_into_existing_primitive_state() {
    let options = ModelLoadOptions {
        max_texture_dim: Some(4),
    };
    let asset = ModelAsset::load_glb_bytes_opts_with_allowed_required_extensions(
        &unlit_fixture(),
        &options,
        &["X_TEST_VALIDATED".to_owned()],
        &length_squared,
        &span,
    )
    .unwrap()
    .asset;
    assert_eq!(asset.primitives.len(), 1);
    assert!(asset.primitives[0].unlit);
    assert!(asset.primitives[0].double_sided);
}

#[test]
fn named_node_lookup_returns_first_duplicate_in_index_order() {
    let names = vec![
        Some("root".to_owned()),
        Some("hand.R".to_owned()),
        None,
        Some("hand.R".to_owned()),
    ];
    assert_eq!(find_node_named(&names, "root"), Some(0));
    assert_eq!(find_node_named(&names, "hand.R"), Some(1));
    assert_eq!(find_node_named(&names, "missing"), None);
    assert_eq!(find_node_named(&[], "root"), None);
}

#[test]
fn material_role_reads_pocket3d_extras() {
    assert_eq!(
        pocket3d_role_from_extras(r#"{"pocket3d_role":"dynamic_screen","unrelated":true}"#)
            .as_deref(),
        Some("dynamic_screen")
    );
    assert_eq!(pocket3d_role_from_extras("{}"), None);
    assert_eq!(pocket3d_role_from_extras("not json"), None);
}

#[test]
fn explicit_role_wins_over_name_prefix_fallback() {
    assert!(semantic_material_matches(
        Some("dynamic_screen"),
        Some("anything"),
        "dynamic_screen",
        Some("P3D_dynamic_screen__"),
    ));
    assert!(semantic_material_matches(
        None,
        Some("P3D_dynamic_screen__panel"),
        "dynamic_screen",
        Some("P3D_dynamic_screen__"),
    ));
    assert!(!semantic_material_matches(
        Some("different_role"),
        Some("P3D_dynamic_screen__panel"),
        "dynamic_screen",
        Some("P3D_dynamic_screen__"),
    ));
}

#[test]
fn material_uniform_has_portable_uniform_alignment() {
    assert_eq!(
        std::mem::size_of::<pocket3d::uniforms::MaterialRaw>(),
        48
    );
    assert_eq!(
        std::mem::align_of::<pocket3d::uniforms::MaterialRaw>(),
        4
    );
}

#[test]
fn material_base_color_mode_reads_pocket3d_extras() {
    assert_eq!(
        pocket3d_base_color_mode_from_extras(r#"{"pocket3d_base_color_mode":"monochrome"}"#),
        MaterialBaseColorMode::Monochrome
    );
    assert_eq!(
        pocket3d_base_color_mode_from_extras(r#"{"pocket3d_base_color_mode":"unknown"}"#),
        MaterialBaseColorMode::Authored
    );
    assert_eq!(
        pocket3d_base_color_mode_from_extras("not json"),
        MaterialBaseColorMode::Authored
    );
}

fn color_filter(semantic: MipSemantic, texels: [[u8; 4]; 4]) -> [u8; 4] {
    let mut out = [0u8; 4];
    for c in 0..4 {
        let colored = semantic == MipSemantic::SrgbColor && c < 3;
        let mean = texels
            .iter()
            .map(|texel| {
                let value = texel[c] as f32 / 255.0;
                if !colored {
                    value
                } else if value <= 0.04045 {
                    value / 12.92
                } else {
                    ((value + 0.055) / 1.055).powf(2.4)
                }
            })
            .sum::<f32>()
            * 0.25;
        let encoded = if !colored {
            mean
        } else if mean <= 0.0031308 {
            mean * 12.92
        } else {
            1.055 * mean.powf(1.0 / 2.4) - 0.055
        };
        out[c] = (encoded.clamp(0.0, 1.0) * 255.0).round() as u8;
    }
    out
}

#[test]
fn stage_f_roles_and_capability_gate_accept_uv_animation() {
    let pixels = [
        0, 0, 0, 255, 255, 255, 255, 255, 0, 0, 0, 255, 255, 255, 255, 255,
    ];
    for role in [
        TextureRole::Emissive,
        TextureRole::Matcap,
        TextureRole::RimMultiply,
    ] {
        let info = stage_c_texture(role, 0);
        assert_eq!(info.color_space, TextureColorSpace::Srgb);
        let semantic = mtoon_texture_semantic(&info);
        assert_eq!(semantic, MipSemantic::SrgbColor);
        let (filtered, width, height) =
            cap_texture_rgba_semantic(pixels.to_vec(), 2, 2, Some(1), semantic, &color_filter);
        assert_eq!((width, height), (1, 1));
        assert!((filtered[0] as i32 - 188).abs() <= 1);
    }
    let mut material = mtoon_asset(stage_c_descriptor());
    assert!(native_stage_f_capable(&material));
    material.inputs.emissive_factor = [scalar(1.0), scalar(0.0), scalar(0.0)];
    assert!(native_stage_f_capable(&material));
    let mtoon = mtoon_of(&mut material);
    mtoon.matcap_texture = Some(stage_c_texture(TextureRole::Matcap, 1));
    mtoon.parametric_rim_color_factor = [scalar(1.0); 3];
    mtoon.rim_multiply_texture = Some(stage_c_texture(TextureRole::RimMultiply, 2));
    assert!(native_stage_f_capable(&material));
    material.inputs.alpha_mode = MaterialAlphaMode::Blend;
    let mtoon = mtoon_of(&mut material);
    mtoon.transparent_with_z_write = true;
    mtoon.render_queue_offset_number = 4;
    assert!(native_stage_f_capable(&material));
    let mtoon = mtoon_of(&mut material);
    mtoon.outline_width_mode = MtoonOutlineWidthMode::WorldCoordinates;
    mtoon.outline_width_factor = scalar(0.01);
    mtoon.outline_width_multiply_texture = Some(stage_c_texture(TextureRole::OutlineWidth, 3));
    assert!(native_stage_f_capable(&material));
    assert!(mtoon_outline_enabled(&material));
    let mtoon = mtoon_of(&mut material);
    assert_eq!(
        mtoon_texture_semantic(mtoon.outline_width_multiply_texture.as_ref().unwrap()),
        MipSemantic::LinearData
    );
    mtoon.uv_animation_scroll_x_speed_factor = scalar(0.01);
    mtoon.uv_animation_scroll_y_speed_factor = scalar(-0.02);
    mtoon.uv_animation_rotation_speed_factor = scalar(0.03);
    mtoon.uv_animation_mask_texture = Some(stage_c_texture(TextureRole::UvAnimationMask, 4));
    assert!(native_stage_f_capable(&material));
    let mtoon = mtoon_of(&mut material);
    assert_eq!(
        mtoon_texture_semantic(mtoon.uv_animation_mask_texture.as_ref().unwrap()),
        MipSemantic::LinearData
    );

    let packed_masks = [255, 0, 0, 255, 0, 255, 255, 255];
    let (filtered, width, height) = cap_texture_rgba_semantic(
        packed_masks.to_vec(),
        2,
        1,
        Some(1),
        MipSemantic::LinearData,
        &color_filter,
    );
    assert_eq!((width, height), (1, 1));
    assert_eq!(filtered, [128, 128, 128, 255]);
}

#[test]
fn outline_uniforms_follow_the_authored_material() {
    let mut descriptor = stage_c_descriptor();
    descriptor.mtoon.outline_width_mode = MtoonOutlineWidthMode::ScreenCoordinates;
    descriptor.mtoon.outline_width_factor = scalar(0.125);
    let mut mask = stage_c_texture(TextureRole::OutlineWidth, 1);
    mask.tex_coord = 1;
    mask.transform.offset = [scalar(0.25), scalar(-0.5)];
    mask.transform.rotation = scalar(0.5);
    mask.transform.scale = [scalar(2.0), scalar(3.0)];
    descriptor.mtoon.outline_width_multiply_texture = Some(mask);
    descriptor.mtoon.outline_color_factor = [scalar(0.2), scalar(0.4), scalar(0.6)];
    descriptor.mtoon.outline_lighting_mix_factor = scalar(0.75);
    let mut uv_mask = stage_c_texture(TextureRole::UvAnimationMask, 2);
    uv_mask.tex_coord = 0;
    uv_mask.transform.tex_coord_override = Some(1);
    uv_mask.transform.offset = [scalar(-0.25), scalar(0.5)];
    descriptor.mtoon.uv_animation_mask_texture = Some(uv_mask);
    descriptor.mtoon.uv_animation_scroll_x_speed_factor = scalar(1.0);
    descriptor.mtoon.uv_animation_scroll_y_speed_factor = scalar(-2.0);
    descriptor.mtoon.uv_animation_rotation_speed_factor = scalar(3.0);
    let still = Turn {
        cos: scalar(1.0),
        sin: scalar(0.0),
    };
    let turned = Turn {
        cos: scalar(0.5f32.cos()),
        sin: scalar(0.5f32.sin()),
    };
    let turns = MtoonTurns {
        base: still,
        normal: still,
        shade: still,
        shift: still,
        emissive: still,
        rim: still,
        outline: turned,
        uv_animation_mask: still,
    };
    let raw = MtoonRaw::from_material(&mtoon_asset(descriptor), &turns).unwrap();
    assert_eq!(std::mem::size_of::<MtoonRaw>(), 448);
    assert_eq!(
        raw.outline_color_factor.map(float),
        [0.2, 0.4, 0.6, 0.0]
    );
    assert_eq!(raw.outline.map(float), [2.0, 0.125, 0.75, 0.0]);
    assert_eq!(
        raw.outline_uv.scale_rotation.map(float),
        [2.0, 3.0, 0.5f32.cos(), 0.5f32.sin()]
    );
    assert_eq!(
        raw.outline_uv.offset_set.map(float),
        [0.25, -0.5, 1.0, 0.0]
    );
    assert_eq!(
        raw.uv_animation_mask_uv.offset_set.map(float),
        [-0.25, 0.5, 1.0, 0.0]
    );
    assert_eq!(raw.uv_animation.map(float), [1.0, -2.0, 3.0, 0.0]);
}

#[test]
fn authored_render_metadata_classifies_mtoon_and_non_mtoon_transparency() {
    let mut descriptor = stage_c_descriptor();
    descriptor.inputs.alpha_mode = MaterialAlphaMode::Blend;
    descriptor.inputs.alpha_cutoff = scalar(0.5);
    descriptor.inputs.base_color_factor = [1.0, 1.0, 1.0, 0.5].map(scalar);
    descriptor.inputs.emissive_factor = [scalar(1.0); 3];
    descriptor.inputs.double_sided = false;
    descriptor.mtoon.transparent_with_z_write = true;
    descriptor.mtoon.render_queue_offset_number = 7;
    let mut mtoon = mtoon_asset(descriptor.clone());
    assert_eq!(
        authored_render_phase(MaterialAlphaMode::Blend, Some(&mtoon)),
        RenderPhase::MtoonBlendZWrite
    );
    assert_eq!(
        authored_render_queue_offset(MaterialAlphaMode::Blend, Some(&mtoon)),
        7
    );

    descriptor.mtoon.transparent_with_z_write = false;
    descriptor.mtoon.render_queue_offset_number = -6;
    mtoon.model = MaterialModel::Mtoon(Box::new(descriptor.mtoon));
    assert_eq!(
        authored_render_phase(MaterialAlphaMode::Blend, Some(&mtoon)),
        RenderPhase::Blend
    );
    assert_eq!(
        authored_render_queue_offset(MaterialAlphaMode::Blend, Some(&mtoon)),
        -6
    );

    let ordinary = MaterialAsset::pocket_lit(0, None);
    assert_eq!(
        authored_render_phase(MaterialAlphaMode::Blend, Some(&ordinary)),
        RenderPhase::Blend
    );
    assert_eq!(
        authored_render_queue_offset(MaterialAlphaMode::Blend, Some(&ordinary)),
        0
    );
    assert_eq!(
        authored_render_queue_offset(MaterialAlphaMode::Mask, Some(&mtoon)),
        0
    );
}

#[test]
fn gray_alpha_base_color_expands_to_rgba() {
    let image = ImageData {
        pixels: vec![32, 0, 180, 255],
        format: PixelFormat::R8G8,
        width: 2,
        height: 1,
    };
    assert_eq!(to_rgba8(&image), vec![32, 32, 32, 0, 180, 180, 180, 255]);
}

fn check_texcoords(texcoords: Option<&[[f32; 2]]>, count: usize) -> Result<(), TexCoordError> {
    let texcoords: Option<Vec<[Scalar; 2]>> =
        texcoords.map(|list| list.iter().map(|c| c.map(scalar)).collect());
    let spread = match &texcoords {
        Some(texcoords) => span(texcoords),
        None => [scalar(0.0); 2],
    };
    validate_normalized_texcoord0(&texcoords, count, spread)
}

#[test]
fn live_surface_texcoord_validation_accepts_normalized_full_span() {
    let texcoords = [[-0.005, 0.0], [1.005, 0.0], [1.0, 1.0], [0.0, 1.0]];
    check_texcoords(Some(&texcoords), texcoords.len()).unwrap();
}

#[test]
fn live_surface_texcoord_validation_rejects_missing_or_invalid_uvs() {
    assert_eq!(check_texcoords(None, 4), Err(TexCoordError::Missing));
    assert_eq!(
        check_texcoords(Some(&[[0.0, 0.0], [f32::NAN, 1.0]]), 2),
        Err(TexCoordError::NotFinite)
    );
    assert_eq!(
        check_texcoords(Some(&[[0.0, 0.0], [1.1, 1.0]]), 2),
        Err(TexCoordError::NotNormalized)
    );
    assert_eq!(
        check_texcoords(Some(&[[0.1, 0.1], [0.2, 0.2]]), 2),
        Err(TexCoordError::SpanTooSmall)
    );
    assert_eq!(
        check_texcoords(Some(&[[0.0, 0.0], [1.0, 1.0]]), 3),
        Err(TexCoordError::Count {
            actual: 2,
            vertices: 3
        })
    );
}

/// A document of one triangle with every kind of attribute.
fn full_triangle() -> Vec<u8> {
    let mut binary = Binary::default();
    let position = binary.f32s(3, 3);
    let normal = binary.f32s(3, 3);
    let bytes: Vec<u8> = [0u8, 255, 51, 102, 255, 0].to_vec();
    let view = binary.view(&bytes, true);
    let uv0 = binary.accessor(view, 5121, 3, "VEC2", ",\"normalized\":true");
    binary.bin.resize(binary.bin.len() + 2, 0);
    let uv1 = binary.f32s(3, 2);
    let view = binary.view(&[0, 0, 0, 0, 0, 0, 0, 0, 0, 0, 0, 0], true);
    let joints = binary.accessor(view, 5121, 3, "VEC4", "");
    let weights = binary.f32s(3, 4);
    let view = binary.view(&[2, 0, 1, 0, 0, 0], false);
    let indices = binary.accessor(view, 5123, 3, "SCALAR", "");
    binary.bin.resize(binary.bin.len() + 2, 0);
    let morph = binary.f32s(3, 3);
    let matrix: Vec<u8> = (0..16).flat_map(|i| (i as f32).to_le_bytes()).collect();
    let view = binary.view(&matrix, false);
    let bind = binary.accessor(view, 5126, 1, "MAT4", "");
    binary.glb(&format!(
        r#""scenes":[{{"nodes":[0,1]}}],"nodes":[{{"mesh":0,"skin":0,"name":"body"}},{{}}],
        "skins":[{{"joints":[1],"inverseBindMatrices":{bind}}}],
        "meshes":[{{"primitives":[{{"attributes":{{"POSITION":{position},"NORMAL":{normal},
            "TEXCOORD_0":{uv0},"TEXCOORD_1":{uv1},"JOINTS_0":{joints},"WEIGHTS_0":{weights}}},
            "indices":{indices},"targets":[{{"POSITION":{morph}}}]}}]}}]"#
    ))
}

#[test]
fn accessors_read_as_they_are_stored() {
    let source = source_of(&full_triangle());
    let primitive = &source.meshes[0][0];
    let floats3 = |list: &Option<Vec<[Scalar; 3]>>| {
        list.as_ref()
            .unwrap()
            .iter()
            .map(|v| v.map(float))
            .collect::<Vec<_>>()
    };
    let counted = vec![[0.0, 1.0, 2.0], [3.0, 4.0, 5.0], [6.0, 7.0, 8.0]];
    assert_eq!(floats3(&primitive.positions), counted);
    assert_eq!(floats3(&primitive.normals), counted);
    let uv0 = primitive.tex_coords0.as_ref().unwrap();
    assert_eq!(uv0[0].map(float), [0.0, 1.0]);
    assert!((float(uv0[1][0]) - 0.2).abs() < 1e-6);
    let uv1 = primitive.tex_coords1.as_ref().unwrap();
    assert_eq!(uv1[2].map(float), [4.0, 5.0]);
    assert_eq!(primitive.joints, Some(vec![[0; 4]; 3]));
    assert_eq!(
        primitive.weights.as_ref().unwrap()[1].map(float),
        [4.0, 5.0, 6.0, 7.0]
    );
    assert_eq!(primitive.indices, Some(vec![2, 1, 0]));
    assert_eq!(primitive.targets.len(), 1);
    assert_eq!(floats3(&primitive.targets[0].positions), counted);
    assert!(primitive.targets[0].normals.is_none());
    assert_eq!(primitive.tex_coord_span.map(float), [1.0, 1.0]);
    assert_eq!(primitive.unreadable, None);
    assert!(!source.skins[0].unreadable);
    let bind = source.skins[0].inverse_bind.as_ref().unwrap();
    let expected: Vec<f32> = (0..16).map(|i| i as f32).collect();
    assert_eq!(bind[0].map(float).to_vec(), expected);
}

#[test]
fn key_frames_read_as_they_are_stored() {
    let source = source_of(&animation_fixture(2, 2, 4, "rotation"));
    let channel = &source.animations[0].channels[0];
    let times: Vec<f32> = channel
        .times
        .as_ref()
        .unwrap()
        .iter()
        .map(|&t| float(t))
        .collect();
    assert_eq!(times, [0.0, 1.0]);
    let lengths: Vec<f32> = channel.lengths_squared.iter().map(|&l| float(l)).collect();
    assert_eq!(lengths, [14.0, 126.0]);
    let loaded = load(&animation_fixture(2, 2, 3, "translation")).unwrap();
    let clip = &loaded.asset.clips[0];
    assert_eq!(float(clip.duration), 1.0);
    assert_eq!(clip.channels[0].values.len(), 6);
    assert_eq!(float(clip.channels[0].values[5]), 5.0);
}

/// A primitive of three positions with one more attribute.
fn attributed(binary: &mut Binary, name: &str, accessor: usize) -> Vec<u8> {
    let position = binary.f32s(3, 3);
    binary.glb(&format!(
        r#""scenes":[{{"nodes":[0]}}],"nodes":[{{"mesh":0}}],
        "meshes":[{{"primitives":[{{"attributes":{{"POSITION":{position},"{name}":{accessor}}}}}]}}]"#
    ))
}

fn counted_bytes(count: usize) -> Vec<u8> {
    (0..count).flat_map(|i| (i as f32).to_le_bytes()).collect()
}

#[test]
fn items_that_do_not_lie_in_their_view_are_absent() {
    for kind in ["VEC2", "VEC3"] {
        let mut binary = Binary::default();
        let view = binary.view(&[0; 20], true);
        let normal = binary.accessor(view, 5126, 3, kind, "");
        let source = source_of(&attributed(&mut binary, "NORMAL", normal));
        assert!(source.meshes[0][0].positions.is_some());
        assert!(source.meshes[0][0].normals.is_none());
        assert_eq!(validate_model_input(&source), Ok(()));
    }
    assert_ne!(ComponentType::U8, ComponentType::I8);
}

#[test]
fn attributes_are_read_as_what_they_are_for() {
    let mut binary = Binary::default();
    let view = binary.view(&counted_bytes(9), true);
    let normal = binary.accessor(view, 5126, 3, "VEC2", "");
    let source = source_of(&attributed(&mut binary, "NORMAL", normal));
    let normals = source.meshes[0][0].normals.as_ref().unwrap();
    assert_eq!(normals.len(), 3);
    assert_eq!(normals[2].map(float), [6.0, 7.0, 8.0]);

    let mut binary = Binary::default();
    let view = binary.view(&[0, 255, 51, 102, 255, 0, 0, 0], true);
    let coords = binary.accessor(view, 5121, 3, "SCALAR", "");
    let source = source_of(&attributed(&mut binary, "TEXCOORD_0", coords));
    let coords = source.meshes[0][0].tex_coords0.as_ref().unwrap();
    assert_eq!(coords[0].map(float), [0.0, 1.0]);
    assert!((float(coords[1][0]) - 0.2).abs() < 1e-6);
    assert_eq!(coords.len(), 3);

    let mut binary = Binary::default();
    let joints: Vec<u8> = (0u16..12).flat_map(|i| i.to_le_bytes()).collect();
    let view = binary.view(&joints, true);
    let joints = binary.accessor(view, 5123, 3, "VEC2", "");
    let source = source_of(&attributed(&mut binary, "JOINTS_0", joints));
    assert_eq!(
        source.meshes[0][0].joints,
        Some(vec![[0, 1, 2, 3], [4, 5, 6, 7], [8, 9, 10, 11]])
    );

    let mut binary = Binary::default();
    let weights: Vec<u8> = [65535u16, 0, 0, 65535]
        .iter()
        .flat_map(|w| w.to_le_bytes())
        .collect();
    let view = binary.view(&weights, true);
    let weights = binary.accessor(view, 5123, 1, "VEC3", "");
    let source = source_of(&attributed(&mut binary, "WEIGHTS_0", weights));
    assert_eq!(
        source.meshes[0][0].weights.as_ref().unwrap()[0].map(float),
        [1.0, 0.0, 0.0, 1.0]
    );

    let mut binary = Binary::default();
    let position = binary.f32s(3, 3);
    let view = binary.view(&[2, 0, 1, 0, 0, 0, 0, 0], false);
    let indices = binary.accessor(view, 5123, 3, "VEC2", "");
    let view = binary.view(&counted_bytes(16), false);
    let bind = binary.accessor(view, 5126, 1, "SCALAR", "");
    let view = binary.view(&counted_bytes(9), false);
    let morph = binary.accessor(view, 5126, 3, "VEC4", "");
    let source = source_of(&binary.glb(&format!(
        r#""scenes":[{{"nodes":[0]}}],"nodes":[{{"mesh":0,"skin":0}}],
        "skins":[{{"joints":[0],"inverseBindMatrices":{bind}}}],
        "meshes":[{{"primitives":[{{"attributes":{{"POSITION":{position}}},"indices":{indices},
            "targets":[{{"NORMAL":{morph}}}]}}]}}]"#
    )));
    let primitive = &source.meshes[0][0];
    assert_eq!(primitive.indices, Some(vec![2, 1, 0]));
    let moved = primitive.targets[0].normals.as_ref().unwrap();
    assert_eq!(moved[1].map(float), [3.0, 4.0, 5.0]);
    let bind = source.skins[0].inverse_bind.as_ref().unwrap();
    assert_eq!(bind.len(), 1);
    assert_eq!((float(bind[0][1]), float(bind[0][15])), (1.0, 15.0));
}

#[test]
fn keys_are_read_as_what_they_are_for() {
    let mut binary = Binary::default();
    let view = binary.view(&counted_bytes(2), false);
    let input = binary.accessor(view, 5126, 2, "VEC2", "");
    let turns: Vec<u8> = [32767i16, 0, 0, -32767, 0, 0, 0, 32767]
        .iter()
        .flat_map(|v| v.to_le_bytes())
        .collect();
    let view = binary.view(&turns, false);
    let turns = binary.accessor(view, 5122, 2, "VEC3", "");
    let view = binary.view(&counted_bytes(6), false);
    let moves = binary.accessor(view, 5126, 2, "VEC4", "");
    let source = source_of(&binary.glb(&format!(
        r#""scenes":[{{"nodes":[0]}}],"nodes":[{{}}],
        "animations":[{{"samplers":[{{"input":{input},"output":{turns}}},
                {{"input":{input},"output":{moves}}}],
            "channels":[{{"sampler":0,"target":{{"node":0,"path":"rotation"}}}},
                {{"sampler":1,"target":{{"node":0,"path":"scale"}}}}]}}]"#
    )));
    let channels = &source.animations[0].channels;
    let times = channels[0].times.as_ref().unwrap();
    assert_eq!((float(times[0]), float(times[1])), (0.0, 1.0));
    match channels[0].outputs.as_ref().unwrap() {
        SourceOutputs::Rotations(turns) => {
            assert_eq!(turns[0].map(float), [1.0, 0.0, 0.0, -1.0]);
            assert_eq!(turns[1].map(float), [0.0, 0.0, 0.0, 1.0]);
        }
        outputs => panic!("{outputs:?} are no rotations"),
    }
    match channels[1].outputs.as_ref().unwrap() {
        SourceOutputs::Scales(moves) => assert_eq!(moves[1].map(float), [3.0, 4.0, 5.0]),
        outputs => panic!("{outputs:?} are no scales"),
    }
}

#[test]
fn no_items_are_read_as_none_at_all() {
    let mut binary = Binary::default();
    let view = binary.view(&[0; 12], true);
    let normal = binary.accessor(view, 5126, 0, "VEC3", "");
    let source = source_of(&attributed(&mut binary, "NORMAL", normal));
    assert_eq!(source.meshes[0][0].normals.as_ref().unwrap().len(), 0);
    assert_eq!(
        validate_model_input(&source),
        Err(InputError::AttributeCount {
            attribute: Attribute::Normal,
            actual: 0,
            positions: 3
        })
    );

    let mut binary = Binary::default();
    let view = binary.view(&[0; 12], true);
    let normal = binary.accessor(view, 5126, 0, "VEC3", ",\"byteOffset\":16");
    let source = source_of(&attributed(&mut binary, "NORMAL", normal));
    assert!(source.meshes[0][0].normals.is_none());

    // Nothing replaces the items.
    let mut binary = Binary::default();
    let base = binary.view(&counted_bytes(9), true);
    let part = binary.view(&[0; 12], false);
    let normal = binary.accessor(
        base,
        5126,
        3,
        "VEC3",
        &format!(
            r#","sparse":{{"count":0,"indices":{{"bufferView":{part},"componentType":5121}},
            "values":{{"bufferView":{part}}}}}"#
        ),
    );
    let source = source_of(&attributed(&mut binary, "NORMAL", normal));
    let normals = source.meshes[0][0].normals.as_ref().unwrap();
    assert_eq!(normals[1].map(float), [3.0, 4.0, 5.0]);
}

#[test]
fn accessors_that_cannot_be_read_are_named() {
    // The items reach into each other.
    let mut binary = Binary::default();
    binary.view(&counted_bytes(9), true);
    binary.views[0] = binary.views[0].replace("\"target\"", "\"byteStride\":4,\"target\"");
    let normal = binary.accessor(0, 5126, 3, "VEC3", "");
    let bytes = attributed(&mut binary, "NORMAL", normal);
    let source = source_of(&bytes);
    assert_eq!(source.meshes[0][0].unreadable, Some(Attribute::Normal));
    assert!(source.meshes[0][0].normals.is_none());
    assert_eq!(
        validate_fixture(&bytes),
        "NORMAL accessor cannot be read in malformed.glb"
    );
    assert!(matches!(
        load(&bytes),
        Err(ByteLoadError::Load(LoadError::Input(
            InputError::UnreadableAttribute {
                attribute: Attribute::Normal
            }
        )))
    ));

    // They would, but are not there.
    let mut binary = Binary::default();
    binary.view(&[0; 16], true);
    binary.views[0] = binary.views[0].replace("\"target\"", "\"byteStride\":4,\"target\"");
    let normal = binary.accessor(0, 5126, 3, "VEC3", "");
    let source = source_of(&attributed(&mut binary, "NORMAL", normal));
    assert_eq!(source.meshes[0][0].unreadable, None);
    assert!(source.meshes[0][0].normals.is_none());

    // No joint is a float.
    let mut binary = Binary::default();
    let joints = binary.f32s(3, 4);
    assert_eq!(
        validate_fixture(&attributed(&mut binary, "JOINTS_0", joints)),
        "JOINTS_0 accessor cannot be read in malformed.glb"
    );
}

#[test]
fn documents_load_with_their_buffers() {
    let bytes = full_triangle();
    let (document, buffers, _) = gltf::import_slice(&bytes).unwrap();
    let buffers: Vec<Vec<u8>> = buffers.into_iter().map(|buffer| buffer.0).collect();
    let made = |overrides: &[MaterialTextureOverride<'_>]| {
        load_document(
            &document,
            &buffers,
            overrides,
            false,
            &[],
            &length_squared,
            &span,
        )
    };
    let (source, asset) = made(&[]).unwrap();
    assert_eq!(source.meshes[0][0].indices, Some(vec![2, 1, 0]));
    assert_eq!(asset.indices, load(&bytes).unwrap().asset.indices);
    assert_eq!(asset.vertices.len(), 3);
    let screen = MaterialTextureOverride::new("dynamic_screen", None).expect_primitives(2);
    assert!(matches!(
        made(&[screen]),
        Err(DocumentLoadError::Load(LoadError::OverrideCount(_)))
    ));
    let cut: Vec<Vec<u8>> = vec![vec![]];
    let (source, _) = load_document(&document, &cut, &[], false, &[], &length_squared, &span)
        .unwrap();
    assert!(source.meshes[0][0].positions.is_none());

    let made = |bytes: &[u8]| {
        let (document, buffers, _) = gltf::import_slice(bytes).unwrap();
        let buffers: Vec<Vec<u8>> = buffers.into_iter().map(|buffer| buffer.0).collect();
        load_document(&document, &buffers, &[], false, &[], &length_squared, &span)
    };
    assert!(matches!(
        made(&animation_fixture(0, 1, 3, "translation")),
        Err(DocumentLoadError::Load(LoadError::Input(
            InputError::NoKeys { .. }
        )))
    ));
    assert!(matches!(
        made(&animation_fixture(2, 2, 3, "color")),
        Err(DocumentLoadError::UnknownTarget)
    ));
}

#[test]
fn sparse_accessors_replace_single_items() {
    let mut binary = Binary::default();
    let position = binary.f32s(3, 3);
    let indices = binary.view(&[1, 0, 0, 0], false);
    let bytes: Vec<u8> = [7.0f32, 8.0, 9.0]
        .iter()
        .flat_map(|v| v.to_le_bytes())
        .collect();
    let values = binary.view(&bytes, false);
    binary.accessors.push(format!(
        r#"{{"componentType":5126,"count":3,"type":"VEC3","sparse":{{"count":1,
        "indices":{{"bufferView":{indices},"componentType":5121}},
        "values":{{"bufferView":{values}}}}}}}"#
    ));
    let normal = binary.accessors.len() - 1;
    let bytes = binary.glb(&format!(
        r#""scenes":[{{"nodes":[0]}}],"nodes":[{{"mesh":0}}],
        "meshes":[{{"primitives":[{{"attributes":{{"POSITION":{position},"NORMAL":{normal}}}}}]}}]"#
    ));
    let source = source_of(&bytes);
    let normals = source.meshes[0][0].normals.as_ref().unwrap();
    assert_eq!(normals[0].map(float), [0.0; 3]);
    assert_eq!(normals[1].map(float), [7.0, 8.0, 9.0]);
    assert_eq!(normals[2].map(float), [0.0; 3]);
}

#[test]
fn loaded_primitives_take_their_values_from_the_file() {
    let loaded = load(&full_triangle()).unwrap();
    let asset = &loaded.asset;
    assert_eq!(asset.indices, [2, 1, 0]);
    assert_eq!(asset.vertices.len(), 3);
    assert_eq!(asset.vertices[1].uv1.map(float), [2.0, 3.0]);
    assert_eq!(asset.node_named("body"), Some(0));
    assert_eq!(asset.clip_named("walk"), None);
    assert_eq!(asset.morph_meshes.len(), 1);
    assert_eq!(asset.morph_meshes[0].target_count, 1);
    assert_eq!(asset.morph_mesh_slot(0), Some(0));
    let mut state = asset.create_morph_state().unwrap();
    state.set_weight(0, 0, scalar(0.5));
    assert_eq!(state.weight(0, 0), scalar(0.5));
}

#[test]
fn loaded_indices_stay_with_their_primitive_and_its_overlay() {
    let mut binary = Binary::default();
    let first = binary.f32s(4, 3);
    let second = binary.f32s(3, 3);
    let moved = binary.f32s(3, 3);
    let bytes = binary.glb(&format!(
        r#""scenes":[{{"nodes":[0,1]}}],"nodes":[{{"mesh":0}},{{"mesh":0}}],
        "materials":[{{}},{{"name":"second"}}],
        "meshes":[{{"primitives":[
            {{"attributes":{{"POSITION":{first}}}}},
            {{"attributes":{{"POSITION":{second}}},"material":1,
              "targets":[{{"POSITION":{moved}}}]}}
        ]}}]"#
    ));
    let asset = load(&bytes).unwrap().asset;
    assert_eq!(
        asset.prim_morph,
        [None, Some((0, 0)), None, Some((0, 1))]
    );
    let overlays: Vec<u32> = asset.morph_meshes[0]
        .prims
        .iter()
        .map(|prim| prim.overlay_offset)
        .collect();
    assert_eq!(overlays, [0, 3]);
    for (k, upload) in asset.primitives.iter().enumerate() {
        let own = upload.vertex_base..upload.vertex_base + upload.vertex_count;
        for i in upload.first_index..upload.first_index + upload.index_count {
            let index = asset.indices[i as usize];
            assert!(own.contains(&index));
            if let Some((mesh, slot)) = asset.prim_morph[k] {
                let prim = &asset.morph_meshes[mesh].prims[slot];
                let shifted = (index - prim.vertex_base) + prim.overlay_offset;
                let overlay = prim.overlay_offset..prim.overlay_offset + prim.vertex_count;
                assert!(overlay.contains(&shifted));
            }
        }
    }
    for (index, material) in asset.materials().iter().enumerate() {
        assert_eq!(material.gltf_material_index, index);
    }
}

#[test]
fn options_are_checked_before_the_file() {
    let options = ModelLoadOptions {
        max_texture_dim: Some(0),
    };
    let error =
        ModelAsset::load_glb_bytes_opts(b"not a glb", &options, &length_squared, &span).unwrap_err();
    assert!(matches!(error, ByteLoadError::ZeroTextureDim));
}

#[test]
fn broken_files_are_refused_for_their_first_fault() {
    assert!(matches!(
        load(b"not a glb"),
        Err(ByteLoadError::Import(ImportError::Container(_)))
    ));
    assert!(matches!(
        load(&glb_from_json("{", &[])),
        Err(ByteLoadError::Import(ImportError::Parse(_)))
    ));
    let missing = r#"{"asset":{"version":"2.0"},"meshes":[{"primitives":[{"attributes":{"POSITION":3}}]}]}"#;
    assert!(matches!(
        load(&glb_from_json(missing, &[])),
        Err(ByteLoadError::Import(ImportError::PositionAccessor))
    ));
    let invalid = r#"{"asset":{"version":"2.0"},"scene":0,"scenes":[{"nodes":[4]}]}"#;
    assert!(matches!(
        load(&glb_from_json(invalid, &[])),
        Err(ByteLoadError::Import(ImportError::Validation(_)))
    ));
    let image = r#"{"asset":{"version":"2.0"},"images":[{"uri":"picture.png"}]}"#;
    assert!(matches!(
        load(&glb_from_json(image, &[])),
        Err(ByteLoadError::Import(ImportError::ExternalImage { .. }))
    ));
    let cycle = r#"{"asset":{"version":"2.0"},"nodes":[{"children":[1]},{"children":[2]},{"children":[1]}]}"#;
    assert!(matches!(
        load(&glb_from_json(cycle, &[])),
        Err(ByteLoadError::Load(LoadError::NodeCycle))
    ));
    let unknown = animation_fixture(2, 2, 3, "color");
    assert!(matches!(load(&unknown), Err(ByteLoadError::UnknownTarget)));
    assert!(matches!(
        load(&animation_fixture(0, 1, 3, "translation")),
        Err(ByteLoadError::Load(LoadError::Input(
            InputError::NoKeys { .. }
        )))
    ));
}

#[test]
fn image_budget_names_each_limit() {
    let mut budget = ByteImageBudget::default();
    assert_eq!(budget.reserve(1, 1), Ok(()));
    assert_eq!(budget.decoded_bytes, 4);
    assert_eq!(budget.image_count, 1);
    assert_eq!(
        budget.reserve(u32::MAX, u32::MAX),
        Err(BudgetError::ImageTooLarge)
    );
}

#[test]
fn descriptors_have_to_fit_the_file() {
    let bytes = glb_from_json(
        r#"{"asset":{"version":"2.0"},"extensionsUsed":["KHR_materials_unlit"],
        "materials":[{"extensions":{"KHR_materials_unlit":{}}},{}]}"#,
        &[],
    );
    let imported = import_glb_slice(&bytes, &[]).unwrap();
    let described = |index: usize| MtoonMaterialDescriptor {
        material_index: index,
        ..stage_c_descriptor()
    };
    let author = |descriptors: &[MtoonMaterialDescriptor]| {
        authored_materials(&imported.source, descriptors, false)
    };
    let materials = author(&[described(0)]).unwrap();
    assert_eq!(materials.len(), 2);
    assert!(matches!(materials[0].model, MaterialModel::Mtoon(_)));
    assert!(matches!(
        author(&[described(2)]),
        Err(MaterialError::DescriptorIndex { .. })
    ));
    assert!(matches!(
        author(&[described(0), described(0)]),
        Err(MaterialError::DuplicateDescriptor { .. })
    ));
    assert!(matches!(
        author(&[described(1)]),
        Err(MaterialError::NoUnlitFallback { .. })
    ));
}

#[test]
fn overrides_cannot_force_opposite_phases() {
    let screen = MaterialTextureOverride::new("dynamic_screen", Some("P3D_"));
    assert_eq!(validate_overrides(&[screen.force_opaque()]), Ok(()));
    let screen = MaterialTextureOverride::new("dynamic_screen", Some("P3D_"));
    assert_eq!(
        validate_overrides(&[screen.force_opaque().force_blend()]),
        Err(OverrideConflict { index: 0 })
    );
}
