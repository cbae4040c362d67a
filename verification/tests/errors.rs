use base64::Engine as _;
use pocket3d::anim::{ChannelValidationError, NodeTrs};
use pocket3d::authoring::{authored_materials, MaterialError};
use pocket3d::clips::{build_clips, ClipError};
use pocket3d::frame::{pack_frame, FrameError, FrameInstance, FrameLimits, ModelBuffers};
use pocket3d::import::{
    decode_byte_image, decode_byte_image_source, decode_data_uri, import_byte_images,
    import_glb_slice, keep_pixels, reserve_size, BudgetError, ByteImageBudget, ByteImageError,
    ByteImagesError, ImageEncoding, ImportError, PixelFormat, MAX_BYTE_IMAGE_BYTES,
    MAX_BYTE_IMAGE_COUNT,
};
use pocket3d::layout::{OverrideCountError, PlacementError};
use pocket3d::material::{
    GltfSampler, MaterialAlphaMode, MaterialInputs, MtoonMaterial, MtoonMaterialDescriptor,
    MtoonOutlineWidthMode, TextureColorSpace, TextureInfo, TextureRole, TextureTransform,
};
use pocket3d::model::{load_glb_imported, LoadError};
use pocket3d::overrides::{MaterialTextureOverride, TexCoordError};
use pocket3d::scalar::Scalar;
use pocket3d::source::{
    ChannelSampler, ChannelTarget, Dimensions, SourceAnimation, SourceChannel, SourceImage,
    SourceInterpolation, SourceMaterial, SourceModel, SourceNode, SourceOutputs, SourcePrimitive,
    SourceProperty, SourceSkin, SourceTarget, SourceTexture, SourceView,
};
use pocket3d::validation::{validate_model_input, Attribute, InputError};

fn scalar(value: f32) -> Scalar {
    Scalar {
        bits: value.to_bits(),
    }
}

fn node(mesh: Option<usize>, skin: Option<usize>) -> SourceNode {
    SourceNode {
        name: None,
        children: vec![],
        mesh,
        skin,
    }
}

fn rest() -> NodeTrs {
    NodeTrs {
        translation: [scalar(0.0); 3],
        rotation: [scalar(0.0), scalar(0.0), scalar(0.0), scalar(1.0)],
        scale: [scalar(1.0); 3],
    }
}

fn triangle() -> SourcePrimitive {
    SourcePrimitive {
        material: None,
        positions: Some(vec![[scalar(0.0); 3]; 3]),
        normals: None,
        tex_coords0: None,
        tex_coords1: None,
        joints: None,
        weights: None,
        indices: None,
        targets: vec![],
        tex_coord_span: [scalar(0.0); 2],
        unreadable: None,
    }
}

fn model_of(nodes: Vec<SourceNode>, meshes: Vec<Vec<SourcePrimitive>>) -> SourceModel {
    SourceModel {
        rest: nodes.iter().map(|_| rest()).collect(),
        nodes,
        skins: vec![],
        meshes,
        materials: vec![],
        textures: vec![],
        images: vec![],
        animations: vec![],
    }
}

fn shown(primitive: SourcePrimitive) -> SourceModel {
    model_of(vec![node(Some(0), None)], vec![vec![primitive]])
}

fn skinned(primitive: SourcePrimitive, joints: Vec<usize>) -> SourceModel {
    let mut model = model_of(vec![node(Some(0), Some(0))], vec![vec![primitive]]);
    model.skins.push(SourceSkin {
        joints,
        inverse_bind: None,
        unreadable: false,
    });
    model
}

fn input_error(model: &SourceModel) -> InputError {
    validate_model_input(model).unwrap_err()
}

#[test]
fn each_fault_of_a_skin_is_named() {
    let mut model = skinned(triangle(), vec![0; 513]);
    assert_eq!(
        input_error(&model),
        InputError::JointPalette { count: 513 }
    );
    model.skins[0].joints = vec![0, 7];
    assert_eq!(
        input_error(&model),
        InputError::SkinJoint {
            joint: 1,
            node: 7,
            nodes: 1
        }
    );
    model.skins[0].inverse_bind = Some(vec![[scalar(0.0); 16]; 3]);
    assert_eq!(
        input_error(&model),
        InputError::InverseBindCount {
            matrices: 3,
            joints: 2
        }
    );
}

#[test]
fn what_cannot_be_read_is_named_in_its_turn() {
    let mut model = skinned(triangle(), vec![0, 7]);
    model.skins[0].unreadable = true;
    let error = input_error(&model);
    assert_eq!(error, InputError::UnreadableInverseBinds);
    assert_eq!(
        error.message("a.glb"),
        "inverse bind matrix accessor cannot be read in a.glb"
    );
    for attribute in [
        Attribute::Position,
        Attribute::Normal,
        Attribute::TexCoord0,
        Attribute::TexCoord1,
        Attribute::Joints0,
        Attribute::Weights0,
        Attribute::Indices,
    ] {
        let mut primitive = triangle();
        primitive.unreadable = Some(attribute);
        let error = input_error(&shown(primitive));
        assert_eq!(error, InputError::UnreadableAttribute { attribute });
    }
    for attribute in [
        Attribute::MorphPosition { target: 1 },
        Attribute::MorphNormal { target: 1 },
    ] {
        let mut primitive = triangle();
        for _ in 0..2 {
            primitive.targets.push(SourceTarget {
                positions: None,
                normals: None,
            });
        }
        primitive.unreadable = Some(attribute);
        let error = input_error(&shown(primitive));
        assert_eq!(error, InputError::UnreadableAttribute { attribute });
    }
    let text = |attribute| InputError::UnreadableAttribute { attribute }.message("b.glb");
    assert_eq!(
        text(Attribute::Position),
        "POSITION accessor cannot be read in b.glb"
    );
    assert_eq!(
        text(Attribute::Indices),
        "index accessor cannot be read in b.glb"
    );

    // A fault before it comes first, and without positions nothing is read.
    let mut primitive = triangle();
    primitive.unreadable = Some(Attribute::Weights0);
    primitive.normals = Some(vec![]);
    assert!(matches!(
        input_error(&shown(primitive)),
        InputError::AttributeCount {
            attribute: Attribute::Normal,
            ..
        }
    ));
    let mut primitive = triangle();
    primitive.unreadable = Some(Attribute::Weights0);
    primitive.positions = None;
    assert_eq!(validate_model_input(&shown(primitive)), Ok(()));
}

#[test]
fn each_fault_of_a_primitive_is_named() {
    let mut primitive = triangle();
    primitive.tex_coords1 = Some(vec![[scalar(0.0); 2]; 2]);
    assert_eq!(
        input_error(&shown(primitive)),
        InputError::AttributeCount {
            attribute: Attribute::TexCoord1,
            actual: 2,
            positions: 3
        }
    );
    let mut primitive = triangle();
    primitive.targets.push(SourceTarget {
        positions: None,
        normals: Some(vec![]),
    });
    assert_eq!(
        input_error(&shown(primitive)),
        InputError::AttributeCount {
            attribute: Attribute::MorphNormal { target: 0 },
            actual: 0,
            positions: 3
        }
    );
    let mut primitive = triangle();
    primitive.indices = Some(vec![0, 2, 3]);
    assert_eq!(
        input_error(&shown(primitive)),
        InputError::VertexIndex {
            index: 3,
            positions: 3
        }
    );
    let mut primitive = triangle();
    primitive.joints = Some(vec![[0; 4], [0, 0, 1, 0], [5; 4]]);
    assert_eq!(
        input_error(&skinned(primitive, vec![0])),
        InputError::JointIndex {
            vertex: 1,
            slot: 2,
            joint: 1,
            joints: 1
        }
    );
}

fn channel(property: SourceProperty, keys: usize) -> SourceChannel {
    SourceChannel {
        target: ChannelTarget { node: 0, property },
        sampler: ChannelSampler {
            interpolation: SourceInterpolation::Linear,
            input_count: keys,
            output_count: keys,
        },
        output_dimensions: if property == SourceProperty::Rotation {
            Dimensions::Vec4
        } else {
            Dimensions::Vec3
        },
        times: Some((0..keys).map(|key| scalar(key as f32)).collect()),
        outputs: Some(match property {
            SourceProperty::Rotation => {
                SourceOutputs::Rotations(vec![rest().rotation; keys])
            }
            _ => SourceOutputs::Translations(vec![[scalar(0.0); 3]; keys]),
        }),
        lengths_squared: vec![scalar(1.0); keys],
    }
}

fn animated(channel: SourceChannel) -> SourceModel {
    let mut model = model_of(vec![node(None, None)], vec![]);
    model.animations.push(SourceAnimation {
        name: None,
        channels: vec![channel],
    });
    model
}

#[test]
fn each_fault_of_a_channel_is_named() {
    let (animation, at) = (0, 0);
    let turn = || channel(SourceProperty::Rotation, 2);
    assert_eq!(validate_model_input(&animated(turn())), Ok(()));
    let none = channel(SourceProperty::Rotation, 0);
    assert_eq!(
        input_error(&animated(none)),
        InputError::NoKeys {
            animation,
            channel: at
        }
    );
    let mut unreadable = turn();
    unreadable.times = None;
    assert_eq!(
        input_error(&animated(unreadable)),
        InputError::UnreadableKeys {
            animation,
            channel: at
        }
    );
    let mut unsorted = turn();
    unsorted.times = Some(vec![scalar(1.0), scalar(1.0)]);
    assert_eq!(
        input_error(&animated(unsorted)),
        InputError::InvalidKeys {
            animation,
            channel: at
        }
    );
    let mut cubic = channel(SourceProperty::Rotation, 1);
    cubic.sampler.interpolation = SourceInterpolation::CubicSpline;
    assert_eq!(
        input_error(&animated(cubic)),
        InputError::TooFewCubicKeys {
            animation,
            channel: at
        }
    );
    let mut flat = turn();
    flat.output_dimensions = Dimensions::Vec3;
    assert_eq!(
        input_error(&animated(flat)),
        InputError::OutputDimensions {
            animation,
            channel: at
        }
    );
    let mut miscounted = turn();
    miscounted.sampler.output_count = 5;
    assert_eq!(
        input_error(&animated(miscounted)),
        InputError::OutputCount {
            outputs: 5,
            keys: 2,
            cubic: false
        }
    );
    let mut uncountable = turn();
    uncountable.sampler.interpolation = SourceInterpolation::CubicSpline;
    uncountable.sampler.input_count = usize::MAX;
    assert_eq!(
        input_error(&animated(uncountable)),
        InputError::OutputCountOverflow
    );
    let mut empty = turn();
    empty.outputs = None;
    assert_eq!(
        input_error(&animated(empty)),
        InputError::UnreadableOutputs {
            animation,
            channel: at
        }
    );
    let mut truncated = turn();
    truncated.lengths_squared.pop();
    assert_eq!(
        input_error(&animated(truncated)),
        InputError::TruncatedRotations {
            animation,
            channel: at
        }
    );
    let mut unusable = turn();
    unusable.lengths_squared[1] = scalar(0.0);
    assert_eq!(
        input_error(&animated(unusable)),
        InputError::UnusableRotation {
            animation,
            channel: at,
            key: 1
        }
    );
}

#[test]
fn each_reason_not_to_play_a_channel_is_named() {
    let failure = |channel| build_clips(&animated(channel)).unwrap_err();
    let turn = || channel(SourceProperty::Rotation, 2);
    let mut unreadable = turn();
    unreadable.times = None;
    assert_eq!(failure(unreadable), (0, 0, ClipError::UnreadableKeys));
    let none = channel(SourceProperty::Rotation, 0);
    assert_eq!(failure(none), (0, 0, ClipError::NoKeys));
    let mut cubic = channel(SourceProperty::Rotation, 1);
    cubic.sampler.interpolation = SourceInterpolation::CubicSpline;
    assert_eq!(failure(cubic), (0, 0, ClipError::TooFewCubicKeys));
    let mut empty = turn();
    empty.outputs = None;
    assert_eq!(failure(empty), (0, 0, ClipError::UnreadableOutputs));
    let mut unusable = turn();
    unusable.lengths_squared[1] = scalar(f32::NAN);
    assert_eq!(
        failure(unusable),
        (
            0,
            0,
            ClipError::Channel(ChannelValidationError::InvalidRotationKey { key: 1 })
        )
    );
    let clips = build_clips(&animated(turn())).unwrap();
    assert_eq!(clips[0].name, "anim");
    assert_eq!(clips[0].duration, scalar(1.0));
}

fn texture(role: TextureRole, tex_coord: u32) -> TextureInfo {
    TextureInfo {
        texture_index: 0,
        image_index: 0,
        sampler: GltfSampler::default(),
        tex_coord,
        transform: TextureTransform::default(),
        role,
        color_space: role.color_space(),
    }
}

fn descriptor(base: Option<TextureInfo>) -> MtoonMaterialDescriptor {
    let (zero, one) = (scalar(0.0), scalar(1.0));
    MtoonMaterialDescriptor {
        material_index: 0,
        inputs: MaterialInputs {
            base_color_texture: base,
            ..Default::default()
        },
        mtoon: MtoonMaterial {
            spec_version: "1.0".into(),
            transparent_with_z_write: false,
            render_queue_offset_number: 0,
            shade_color_factor: [zero; 3],
            shade_multiply_texture: None,
            shading_shift_factor: zero,
            shading_shift_texture: None,
            shading_toony_factor: one,
            gi_equalization_factor: one,
            matcap_factor: [one; 3],
            matcap_texture: None,
            parametric_rim_color_factor: [zero; 3],
            parametric_rim_fresnel_power_factor: one,
            parametric_rim_lift_factor: zero,
            rim_multiply_texture: None,
            rim_lighting_mix_factor: one,
            outline_width_mode: MtoonOutlineWidthMode::Off,
            outline_width_factor: zero,
            outline_width_multiply_texture: None,
            outline_color_factor: [zero; 3],
            outline_lighting_mix_factor: one,
            uv_animation_mask_texture: None,
            uv_animation_scroll_x_speed_factor: zero,
            uv_animation_scroll_y_speed_factor: zero,
            uv_animation_rotation_speed_factor: zero,
        },
    }
}

fn textured(mut primitive: SourcePrimitive, unlit: bool) -> SourceModel {
    primitive.material = Some(0);
    let mut model = shown(primitive);
    model.materials.push(SourceMaterial {
        name: Some("screen glass".into()),
        inputs: MaterialInputs::default(),
        unlit,
        extras: None,
    });
    model.textures.push(SourceTexture {
        image: 0,
        sampler: None,
        mag_filter: None,
        min_filter: None,
        wrap_s: 10497,
        wrap_t: 10497,
    });
    model.images.push(SourceImage {
        view: None,
        uri: None,
        mime_type: None,
    });
    model
}

#[test]
fn each_fault_of_a_material_is_named() {
    let model = textured(triangle(), true);
    let fault = |model: &SourceModel, descriptors: &[MtoonMaterialDescriptor]| {
        authored_materials(model, descriptors, false).unwrap_err()
    };
    let base = |tex_coord| texture(TextureRole::BaseColor, tex_coord);
    let mut wrong = base(0);
    wrong.color_space = TextureColorSpace::Linear;
    assert_eq!(
        fault(&model, &[descriptor(Some(wrong))]),
        MaterialError::ColorSpace {
            material: 0,
            role: TextureRole::BaseColor
        }
    );
    let mut absent = base(0);
    absent.image_index = 4;
    assert_eq!(
        fault(&model, &[descriptor(Some(absent))]),
        MaterialError::TextureIndex {
            material: 0,
            role: TextureRole::BaseColor,
            texture: 0,
            image: 4,
            textures: 1,
            images: 1
        }
    );
    assert_eq!(
        fault(&model, &[descriptor(Some(base(2)))]),
        MaterialError::TexCoord {
            material: 0,
            role: TextureRole::BaseColor,
            set: 2
        }
    );
    assert_eq!(
        fault(&model, &[descriptor(Some(base(1)))]),
        MaterialError::MtoonBaseTexCoord {
            material: 0,
            set: 1
        }
    );
    assert!(authored_materials(&model, &[descriptor(Some(base(1)))], true).is_ok());
    let mut far = textured(triangle(), true);
    far.materials[0].inputs.base_color_texture = Some(base(1));
    assert_eq!(
        fault(&far, &[]),
        MaterialError::BaseTexCoord {
            material: 0,
            set: 1
        }
    );
    assert_eq!(
        fault(&textured(triangle(), false), &[descriptor(None)]),
        MaterialError::NoUnlitFallback { material: 0 }
    );
    assert!(matches!(
        load_glb_imported(&far, &[], false, &[]),
        Err(LoadError::Material(MaterialError::BaseTexCoord { .. }))
    ));
}

fn load_failure(
    model: &SourceModel,
    overrides: &[MaterialTextureOverride],
    descriptors: &[MtoonMaterialDescriptor],
) -> LoadError {
    load_glb_imported(model, overrides, true, descriptors).unwrap_err()
}

#[test]
fn each_reason_not_to_place_a_primitive_is_named() {
    let bare = skinned(triangle(), vec![]);
    assert!(matches!(
        load_failure(&bare, &[], &[]),
        LoadError::Placement {
            error: PlacementError::Joints(InputError::JointIndex { joints: 0, .. }),
            ..
        }
    ));
    let model = textured(triangle(), true);
    let toon = descriptor(Some(texture(TextureRole::BaseColor, 1)));
    assert!(matches!(
        load_failure(&model, &[], &[toon]),
        LoadError::Placement {
            error: PlacementError::MtoonTexCoord {
                material: 0,
                role: TextureRole::BaseColor,
                set: 1
            },
            ..
        }
    ));
    let screen = MaterialTextureOverride::new("screen", Some("screen"));
    let glass = MaterialTextureOverride::new("glass", Some("screen glass"));
    assert!(matches!(
        load_failure(&model, &[screen, glass], &[]),
        LoadError::Placement {
            error: PlacementError::MultipleOverrides,
            ..
        }
    ));
    let live = screen.require_normalized_texcoord0();
    assert!(matches!(
        load_failure(&model, &[live], &[]),
        LoadError::Placement {
            error: PlacementError::TexCoords(TexCoordError::Missing),
            ..
        }
    ));
    let twice = screen.expect_primitives(2);
    assert!(matches!(
        load_failure(&model, &[twice], &[]),
        LoadError::OverrideCount(OverrideCountError {
            index: 0,
            expected: 2,
            actual: 1
        })
    ));
}

#[test]
fn overrides_change_the_primitives_that_they_match() {
    let model = textured(triangle(), false);
    let white = MaterialTextureOverride::new("screen", Some("screen"))
        .force_unlit()
        .force_blend()
        .force_white();
    let asset = load_glb_imported(&model, &[white], false, &[]).unwrap();
    assert_eq!(asset.primitives[0].texture_override, Some(0));
    assert!(asset.primitives[0].unlit);
    assert_eq!(asset.primitives[0].alpha_mode, MaterialAlphaMode::Blend);
    let plain = load_glb_imported(&model, &[], false, &[]).unwrap();
    assert_eq!(plain.primitives[0].texture_override, None);
    assert!(!plain.primitives[0].unlit);
}

#[test]
fn channels_that_cannot_be_played_stop_the_load() {
    // Weights are not validated with the other channels, but have to be there.
    let mut weights = channel(SourceProperty::MorphTargetWeights, 1);
    weights.outputs = None;
    assert!(matches!(
        load_failure(&animated(weights), &[], &[]),
        LoadError::Clip {
            animation: 0,
            channel: 0,
            error: ClipError::UnreadableOutputs
        }
    ));
}

fn encoded(format: image::ImageFormat) -> Vec<u8> {
    let mut picture = image::RgbImage::new(2, 3);
    for pixel in picture.pixels_mut() {
        *pixel = image::Rgb([250, 10, 20]);
    }
    let mut bytes = std::io::Cursor::new(Vec::new());
    picture.write_to(&mut bytes, format).unwrap();
    bytes.into_inner()
}

#[test]
fn images_are_decoded_by_their_type() {
    let mut budget = ByteImageBudget::default();
    let png = encoded(image::ImageFormat::Png);
    let jpeg = encoded(image::ImageFormat::Jpeg);
    for encoding in [ImageEncoding::Png, ImageEncoding::Guessed] {
        let image = decode_byte_image(&png, encoding, 16, &mut budget).unwrap();
        assert_eq!((image.width, image.height), (2, 3));
        assert_eq!(image.pixels, [250, 10, 20, 255].repeat(6));
    }
    for encoding in [ImageEncoding::Jpeg, ImageEncoding::Guessed] {
        let image = decode_byte_image(&jpeg, encoding, 16, &mut budget).unwrap();
        assert_eq!((image.width, image.height), (2, 3));
        assert_eq!(image.pixels.len(), 24);
        assert!(image.pixels[0] > 200 && image.pixels[1] < 60 && image.pixels[3] == 255);
    }
    assert_eq!(budget.image_count, 4);
    assert_eq!(budget.decoded_bytes, 4 * 24);
    assert!(matches!(
        decode_byte_image(&png, ImageEncoding::Jpeg, 16, &mut budget),
        Err(ByteImageError::Dimensions(_))
    ));
    assert!(matches!(
        decode_byte_image(&png, ImageEncoding::Png, 2, &mut budget),
        Err(ByteImageError::Dimensions(_))
    ));
    let truncated = &png[..png.len() - 20];
    assert!(matches!(
        decode_byte_image(truncated, ImageEncoding::Png, 16, &mut budget),
        Err(ByteImageError::Decode(_))
    ));
}

fn limit_error() -> image::ImageError {
    image::ImageError::Limits(image::error::LimitError::from_kind(
        image::error::LimitErrorKind::DimensionError,
    ))
}

#[test]
fn whatever_the_decoder_answers_is_kept() {
    let mut budget = ByteImageBudget::default();
    assert!(matches!(
        reserve_size(Err(limit_error()), &mut budget),
        Err(ByteImageError::Dimensions(_))
    ));
    assert_eq!(budget, ByteImageBudget::default());
    assert!(matches!(
        reserve_size(Ok((u32::MAX, u32::MAX)), &mut budget),
        Err(ByteImageError::Budget(BudgetError::ImageTooLarge))
    ));
    assert_eq!(budget, ByteImageBudget::default());
    assert!(reserve_size(Ok((3, 2)), &mut budget).is_ok());
    assert_eq!((budget.image_count, budget.decoded_bytes), (1, 24));
    assert!(matches!(
        keep_pixels(Err(limit_error())),
        Err(ByteImageError::Decode(_))
    ));
    let image = keep_pixels(Ok((vec![9; 8], 2, 1))).unwrap();
    assert_eq!((image.width, image.height), (2, 1));
    assert_eq!(image.format, PixelFormat::R8G8B8A8);
    assert_eq!(image.pixels, vec![9; 8]);
}

#[test]
fn each_fault_of_an_image_source_is_named() {
    let mut budget = ByteImageBudget::default();
    let buffers = vec![vec![0u8; 8]];
    let mut fault = |view: Option<SourceView>, uri: Option<&str>, mime: Option<&str>| {
        let image = SourceImage {
            view,
            uri: uri.map(str::to_owned),
            mime_type: mime.map(str::to_owned),
        };
        decode_byte_image_source(&image, &buffers, 16, &mut budget).unwrap_err()
    };
    let view = |buffer, offset, length| {
        Some(SourceView {
            buffer,
            offset,
            length,
        })
    };
    let png = Some("image/png");
    assert!(matches!(fault(None, None, png), ByteImageError::NoSource));
    assert!(matches!(
        fault(view(0, 0, 8), None, None),
        ByteImageError::NoSource
    ));
    assert!(matches!(
        fault(view(1, 0, 8), None, png),
        ByteImageError::MissingBuffer
    ));
    assert!(matches!(
        fault(view(0, usize::MAX, 8), None, png),
        ByteImageError::ViewOverflow
    ));
    assert!(matches!(
        fault(view(0, 4, 5), None, png),
        ByteImageError::ViewOutOfBounds
    ));
    assert!(matches!(
        fault(view(0, 0, 8), None, png),
        ByteImageError::Dimensions(_)
    ));
    assert!(matches!(
        fault(None, Some("data:image/png,AAAA"), png),
        ByteImageError::UnsupportedDataUri
    ));
    assert!(matches!(
        fault(None, Some("data:image/png;base64,*"), png),
        ByteImageError::DataUri(_)
    ));
}

#[test]
fn data_uris_hold_base64() {
    let text = base64::engine::general_purpose::STANDARD.encode(b"pocket");
    let uri = format!("data:application/octet-stream;base64,{text}");
    assert_eq!(decode_data_uri(&uri).unwrap(), b"pocket");
    assert!(matches!(
        decode_data_uri("picture.png"),
        Err(ByteImageError::UnsupportedDataUri)
    ));
}

#[test]
fn each_limit_of_the_image_budget_is_named() {
    let mut full = ByteImageBudget {
        image_count: MAX_BYTE_IMAGE_COUNT,
        decoded_bytes: 0,
    };
    assert_eq!(full.reserve(1, 1), Err(BudgetError::TooManyImages));
    assert_eq!(full.image_count, MAX_BYTE_IMAGE_COUNT);
    let mut spent = ByteImageBudget {
        image_count: 1,
        decoded_bytes: MAX_BYTE_IMAGE_BYTES,
    };
    assert_eq!(spent.reserve(1, 1), Err(BudgetError::BudgetExceeded));
    let mut broken = ByteImageBudget {
        image_count: 1,
        decoded_bytes: u64::MAX,
    };
    assert_eq!(broken.reserve(1, 1), Err(BudgetError::ByteCountOverflow));
    let mut fresh = ByteImageBudget::default();
    assert_eq!(
        fresh.reserve(u32::MAX, u32::MAX),
        Err(BudgetError::ImageTooLarge)
    );
    assert_eq!(fresh.reserve(1024, 1024), Ok(()));
    assert_eq!(fresh.decoded_bytes, 4 * 1024 * 1024);
    let png = encoded(image::ImageFormat::Png);
    assert!(matches!(
        decode_byte_image(&png, ImageEncoding::Png, 16, &mut spent),
        Err(ByteImageError::Budget(BudgetError::BudgetExceeded))
    ));
}

#[test]
fn sampled_images_have_to_be_there() {
    let mut primitive = triangle();
    primitive.material = Some(0);
    let mut model = textured(primitive, true);
    let images = import_byte_images(&model, &vec![], None, &[]).unwrap();
    assert_eq!(images[0].pixels, [255; 4]);
    model.materials[0].inputs.base_color_texture = Some(texture(TextureRole::BaseColor, 0));
    assert!(matches!(
        import_byte_images(&model, &vec![], None, &[]),
        Err(ByteImagesError::Image {
            image: 0,
            error: ByteImageError::NoSource
        })
    ));
    for _ in 0..MAX_BYTE_IMAGE_COUNT {
        model.images.push(SourceImage {
            view: None,
            uri: None,
            mime_type: None,
        });
    }
    assert!(matches!(
        import_byte_images(&model, &vec![], None, &[]),
        Err(ByteImagesError::TooManyImages { count: 65 })
    ));
}

fn json_glb(json: &str) -> Vec<u8> {
    let mut text = json.as_bytes().to_vec();
    while text.len() % 4 != 0 {
        text.push(b' ');
    }
    let mut bytes = b"glTF".to_vec();
    bytes.extend_from_slice(&2u32.to_le_bytes());
    bytes.extend_from_slice(&(20 + text.len() as u32).to_le_bytes());
    bytes.extend_from_slice(&(text.len() as u32).to_le_bytes());
    bytes.extend_from_slice(b"JSON");
    bytes.extend_from_slice(&text);
    bytes
}

#[test]
fn each_reason_not_to_import_a_file_is_named() {
    let fault = |json: &str| match import_glb_slice(&json_glb(json), &[]) {
        Ok(_) => panic!("the file has been imported"),
        Err(error) => error,
    };
    let required = fault(
        r#"{"asset":{"version":"2.0"},"extensionsUsed":["X_TEST"],"extensionsRequired":["X_TEST"]}"#,
    );
    assert!(matches!(&required, ImportError::RequiredExtension { name } if name == "X_TEST"));
    let external = fault(
        r#"{"asset":{"version":"2.0"},"buffers":[{"byteLength":4,"uri":"vertices.bin"}]}"#,
    );
    assert!(matches!(&external, ImportError::ExternalBuffer { uri } if uri == "vertices.bin"));
    let missing = fault(r#"{"asset":{"version":"2.0"},"buffers":[{"byteLength":4}]}"#);
    assert!(matches!(missing, ImportError::Buffers(_)));
    let zeros = "A".repeat(48);
    let images = fault(&format!(
        r#"{{"asset":{{"version":"2.0"}},"nodes":[{{"mesh":0}}],
            "meshes":[{{"primitives":[{{"attributes":{{"POSITION":0}},"material":0}}]}}],
            "accessors":[{{"bufferView":0,"componentType":5126,"count":3,"type":"VEC3",
                "min":[0,0,0],"max":[0,0,0]}}],
            "bufferViews":[{{"buffer":0,"byteLength":36}}],
            "buffers":[{{"byteLength":36,
                "uri":"data:application/octet-stream;base64,{zeros}"}}],
            "materials":[{{"pbrMetallicRoughness":{{"baseColorTexture":{{"index":0}}}}}}],
            "textures":[{{"source":0}}],"images":[{{"uri":"data:image/png;base64,AAAA"}}]}}"#,
    ));
    assert!(matches!(images, ImportError::Images(_)));
    assert!(images.message("avatar.vrm").contains("avatar.vrm"));
}

#[test]
fn shared_bindings_have_to_fit_the_buffer() {
    let instances = [
        FrameInstance {
            joints: 8,
            primitives: 1,
        },
        FrameInstance {
            joints: 1,
            primitives: 1,
        },
    ];
    let limits = FrameLimits {
        binding_limit: 1024,
        buffer_limit: 600,
        joint_alignment: 256,
        material_stride: 256,
    };
    let mut buffers = ModelBuffers {
        instance_capacity: 1024,
        joints_capacity: 1024,
        joint_binding_size: 64,
        material_instance_capacity: 1024,
    };
    // The last palette lies within the buffer, but its binding is as long as
    // the longest palette.
    assert_eq!(
        pack_frame(&instances, &limits, &mut buffers),
        Err(FrameError::BindingTooLarge {
            required: 1024,
            limit: 600
        })
    );
}
