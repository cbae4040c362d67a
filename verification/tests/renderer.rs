use glam::{Mat4, Vec3};
use pocket3d::frame::{
    aligned_size, drawn_frame, grow_vertex_buffer, joint_buffer_capacity, joint_palette_bytes,
    joint_palette_offset, pack_frame, DrawOffsets, FrameError, FrameInstance, FrameLimits,
    ModelBuffers,
};
use pocket3d::material::{
    MaterialRenderPass, PipelineBlendDepthFamily, PipelineCullMode, PipelineShadingModel,
    RenderPhase, RenderSortKey,
};
use pocket3d::renderer::{
    aspect_for_viewport, sample_count_transition, select_effective_sample_count, supported_sample_counts, ColorTarget,
    FormatSupport, FramePasses, Renderer, RendererConfig, TargetResizePlan,
};
use pocket3d::scalar::Scalar;
use pocket3d::submission::{
    collect_submissions, draw_step, model_pipelines, presentation_alpha, DrawRoute, DrawnPrimitive, ModelDraw,
    ModelPipeline,
};

fn scalar(value: f32) -> Scalar {
    Scalar {
        bits: value.to_bits(),
    }
}

#[test]
fn joint_binding_and_packing_follow_injected_device_limits() {
    assert_eq!(joint_palette_bytes(512, 512 * 64).unwrap(), 32768);
    assert_eq!(joint_palette_bytes(513, 513 * 64).unwrap(), 32832);
    assert!(joint_palette_bytes(514, 513 * 64).is_err());
    assert!(joint_palette_bytes(usize::MAX, u64::MAX).is_err());
    assert_eq!(
        joint_palette_offset(32832, 256, 64, 65536).unwrap(),
        (33024, 33088)
    );
    assert!(joint_palette_offset(u64::MAX, 256, 64, u64::MAX).is_err());
    assert!(joint_palette_offset(65536, 256, 64, 65536).is_err());
    assert_eq!(joint_buffer_capacity(900, 512, 1000).unwrap(), 1000);
    assert_eq!(joint_buffer_capacity(1000, 512, 1000).unwrap(), 1000);
    assert!(joint_buffer_capacity(1001, 512, 1000).is_err());
}

#[test]
fn aggregate_joint_frame_overflow_is_reported_as_frame_capacity() {
    let error = joint_palette_offset(900, 256, 128, 1024).unwrap_err();
    assert!(error
        .message()
        .contains("frame joint palettes require 1152 bytes"));
    assert!(error.message().contains("max_buffer_size is 1024 bytes"));
}

#[test]
fn presentation_alpha_is_bounded_and_non_finite_is_opaque() {
    assert_eq!(presentation_alpha(scalar(-1.0)), scalar(0.0));
    assert_eq!(presentation_alpha(scalar(0.25)), scalar(0.25));
    assert_eq!(presentation_alpha(scalar(2.0)), scalar(1.0));
    assert_eq!(presentation_alpha(scalar(f32::NAN)), scalar(1.0));
    assert_eq!(presentation_alpha(scalar(f32::INFINITY)), scalar(1.0));
}

/// The distance along a camera's view of a point that a model places.
fn relative_depth(eye: Vec3, forward: Vec3, model: Mat4, center: Vec3) -> f32 {
    (model.transform_point3(center) - eye).dot(forward)
}

#[test]
fn reversing_the_camera_reverses_the_draw_order() {
    let model = Mat4::IDENTITY;
    let ahead = (Vec3::ZERO, Vec3::new(0.0, 0.0, -1.0));
    let reversed = (Vec3::new(0.0, 0.0, -3.0), Vec3::new(0.0, 0.0, 1.0));
    let near_center = Vec3::new(0.0, 0.0, -1.0);
    let far_center = Vec3::new(0.0, 0.0, -2.0);
    assert_eq!(relative_depth(ahead.0, ahead.1, model, far_center), 2.0);
    assert_eq!(
        relative_depth(reversed.0, reversed.1, model, near_center),
        2.0
    );

    let key = |camera: (Vec3, Vec3), center, order| RenderSortKey {
        phase: RenderPhase::Blend,
        queue_offset: 0,
        camera_depth: scalar(relative_depth(camera.0, camera.1, model, center)),
        author_draw_order: order,
    };
    assert_eq!(
        key(ahead, far_center, 1).compare(&key(ahead, near_center, 0)),
        std::cmp::Ordering::Less
    );
    assert_eq!(
        key(reversed, near_center, 0).compare(&key(reversed, far_center, 1)),
        std::cmp::Ordering::Less,
        "moving through the layers and reversing the camera must reverse their draw order"
    );
}

#[test]
fn default_config_preserves_public_api_defaults() {
    assert_eq!(RendererConfig::default().requested_sample_count, 1);
}

#[test]
fn selects_requested_count_when_supported() {
    assert_eq!(select_effective_sample_count(8, &[1, 2, 4, 8]), 8);
}

#[test]
fn falls_down_to_the_highest_supported_count() {
    assert_eq!(select_effective_sample_count(8, &[1, 2, 4]), 4);
    assert_eq!(select_effective_sample_count(4, &[1, 2]), 2);
    assert_eq!(select_effective_sample_count(2, &[1, 4]), 1);
}

#[test]
fn one_x_request_stays_one_x() {
    assert_eq!(select_effective_sample_count(1, &[1, 2, 4, 8]), 1);
}

#[test]
fn invalid_request_sanitizes_to_one_x() {
    assert_eq!(select_effective_sample_count(0, &[1, 2, 4, 8]), 1);
    assert_eq!(select_effective_sample_count(16, &[1, 2, 4, 8]), 1);
}

#[test]
fn request_can_change_without_rebuilding_for_same_effective_count() {
    let transition = sample_count_transition(8, 4, &[1, 2, 4]);
    assert_eq!(transition.requested_sample_count, 8);
    assert_eq!(transition.effective_sample_count, 4);
    assert!(!transition.rebuild_pipelines);
}

#[test]
fn effective_transition_requires_pipeline_rebuild() {
    let transition = sample_count_transition(4, 1, &[1, 2, 4]);
    assert_eq!(transition.requested_sample_count, 4);
    assert_eq!(transition.effective_sample_count, 4);
    assert!(transition.rebuild_pipelines);
}

#[test]
fn supported_requests_take_effect_and_resolve() {
    let supported = vec![1, 2, 4, 8];
    let mut renderer = Renderer::new(supported.clone());
    for requested in [1, 2, 4, 8, 4, 1] {
        assert!(supported.contains(&requested));
        assert_eq!(renderer.set_requested_sample_count(requested), requested);
        assert_eq!(renderer.requested_sample_count(), requested);
        let passes = renderer.begin_frame((4, 4), false, false).unwrap();
        assert_eq!(passes.resolve.is_some(), requested > 1);
    }
}

#[test]
fn smaa_survives_msaa_transitions_and_keeps_the_hud_last() {
    let mut renderer = Renderer::new(vec![1, 2, 4, 8]);
    assert!(!renderer.smaa_enabled());
    assert!(renderer.set_smaa_enabled(true));
    assert!(!renderer.set_smaa_enabled(true));
    for requested in [1, 2, 4, 8, 4, 1] {
        assert_eq!(renderer.set_requested_sample_count(requested), requested);
        assert_eq!(renderer.effective_sample_count(), requested);
        for enabled in [false, true] {
            renderer.set_smaa_enabled(enabled);
            assert_eq!(renderer.smaa_enabled(), enabled);
            assert_eq!(renderer.effective_sample_count(), requested);
            assert_eq!(renderer.requested_sample_count(), requested);
            let passes = renderer.begin_frame((32, 32), false, true).unwrap();
            let shaded = if enabled {
                ColorTarget::Smaa
            } else {
                ColorTarget::Output
            };
            assert_eq!(
                passes,
                FramePasses {
                    scene: if requested > 1 {
                        ColorTarget::Msaa
                    } else {
                        shaded
                    },
                    viewmodel: None,
                    resolve: if requested > 1 { Some(shaded) } else { None },
                    smaa: enabled,
                    hud: true,
                }
            );
        }
    }
}

#[test]
fn resize_recreates_size_targets_once_and_preserves_aa_state() {
    let mut renderer = Renderer::new_with_config(
        RendererConfig {
            requested_sample_count: 8,
        },
        vec![1, 2, 4],
    );
    renderer.set_smaa_enabled(true);

    let requested = renderer.requested_sample_count();
    let effective = renderer.effective_sample_count();
    assert_eq!((requested, effective), (8, 4));

    assert!(!renderer.resize((0, 0)));
    let first_plan = renderer.target_resize_plan((32, 24));
    assert!(first_plan.recreate_depth);
    assert_eq!(first_plan.recreate_msaa, effective > 1);
    assert!(first_plan.recreate_smaa);
    assert!(renderer.resize((32, 24)));
    assert_eq!(
        renderer.target_resize_plan((32, 24)),
        TargetResizePlan::default()
    );
    assert!(!renderer.resize((32, 24)));

    assert!(renderer.resize((64, 24)));
    assert_eq!(
        renderer.target_resize_plan((64, 24)),
        TargetResizePlan::default()
    );
    assert_eq!(renderer.requested_sample_count(), requested);
    assert_eq!(renderer.effective_sample_count(), effective);
    assert!(renderer.smaa_enabled());

    renderer.suspend();
    let restore_plan = renderer.target_resize_plan((64, 24));
    assert!(restore_plan.recreate_depth);
    assert_eq!(restore_plan.recreate_msaa, effective > 1);
    assert!(restore_plan.recreate_smaa);
    assert!(renderer.resize((64, 24)));
    assert_eq!(renderer.requested_sample_count(), requested);
    assert_eq!(renderer.effective_sample_count(), effective);
    assert!(renderer.smaa_enabled());
}

#[test]
fn viewport_aspect_ignores_zero_dimensions() {
    let divide = |width: u32, height: u32| scalar(width as f32 / height as f32);
    assert_eq!(aspect_for_viewport((0, 600), divide), None);
    assert_eq!(aspect_for_viewport((450, 0), divide), None);
    assert_eq!(aspect_for_viewport((0, 0), divide), None);
    assert_eq!(aspect_for_viewport((450, 600), divide), Some(scalar(0.75)));
    assert_eq!(aspect_for_viewport((900, 600), divide), Some(scalar(1.5)));
}

#[test]
fn frames_without_an_area_are_not_begun() {
    for size in [(0, 600), (450, 0), (0, 0)] {
        let mut renderer = Renderer::new(vec![1]);
        assert_eq!(renderer.begin_frame(size, true, true), None);
        assert_eq!(renderer.depth, None);
    }
}

#[test]
fn every_pipeline_has_its_features() {
    let pipelines = model_pipelines();
    assert_eq!(pipelines.len(), 18);
    for (at, pipeline) in pipelines.iter().enumerate() {
        assert!(!pipelines[..at].contains(pipeline));
    }
    let features = ModelPipeline::MtoonOutlineBlend.features();
    assert!(features.mtoon && features.blends() && !features.writes_depth());
    assert_eq!(features.cull_mode, PipelineCullMode::Front);
    assert_eq!(features.render_pass, MaterialRenderPass::Outline);
    let features = ModelPipeline::BlendZWriteDoubleSided.features();
    assert!(!features.mtoon && features.blends() && features.writes_depth());
    assert_eq!(features.cull_mode, PipelineCullMode::Off);
    let features = ModelPipeline::MtoonMask.features();
    assert_eq!(features.phase, RenderPhase::Mask);
    assert!(!features.blends() && features.writes_depth());
    assert_eq!(features.cull_mode, PipelineCullMode::Back);
}

#[test]
fn viewmodels_share_the_target_of_the_scene() {
    let mut renderer = Renderer::new_with_config(
        RendererConfig {
            requested_sample_count: 4,
        },
        vec![1, 4],
    );
    assert_eq!(
        renderer.begin_frame((16, 8), true, false),
        Some(FramePasses {
            scene: ColorTarget::Msaa,
            viewmodel: Some(ColorTarget::Msaa),
            resolve: Some(ColorTarget::Output),
            smaa: false,
            hud: false,
        })
    );
    assert_eq!(renderer.depth, Some((16, 8)));
}

#[test]
fn sample_counts_need_both_attachments() {
    let color = FormatSupport {
        renderable: true,
        resolvable: true,
        sample_counts: vec![1, 2, 4, 8],
    };
    let depth = FormatSupport {
        renderable: true,
        resolvable: false,
        sample_counts: vec![1, 4],
    };
    assert_eq!(supported_sample_counts(&color, &depth), vec![1, 4]);
    let unresolved = FormatSupport {
        resolvable: false,
        ..color.clone()
    };
    assert_eq!(supported_sample_counts(&unresolved, &depth), vec![1]);
    let hidden = FormatSupport {
        renderable: false,
        ..color
    };
    assert!(supported_sample_counts(&hidden, &depth).is_empty());
}

#[test]
fn each_capacity_error_has_an_input() {
    assert_eq!(
        joint_palette_bytes(514, 513 * 64),
        Err(FrameError::PaletteTooLarge {
            joints: 514,
            bytes: 32896,
            binding_limit: 32832
        })
    );
    assert_eq!(
        joint_palette_bytes(usize::MAX, u64::MAX),
        Err(FrameError::PaletteOverflow)
    );
    assert_eq!(
        joint_palette_offset(u64::MAX, 256, 64, u64::MAX),
        Err(FrameError::OffsetOverflow)
    );
    assert_eq!(
        joint_palette_offset(1 << 32, 256, 64, u64::MAX),
        Err(FrameError::OffsetOutOfRange { offset: 1 << 32 })
    );
    assert_eq!(
        joint_palette_offset(0xffff_ff00, 256, u64::MAX, u64::MAX),
        Err(FrameError::SizeOverflow)
    );
    assert_eq!(
        joint_buffer_capacity(1001, 512, 1000),
        Err(FrameError::FrameTooLarge {
            required: 1001,
            limit: 1000
        })
    );
    assert_eq!(joint_buffer_capacity(400, 512, 1000), Ok(512));
    assert_eq!(joint_buffer_capacity(513, 512, 5000), Ok(1024));
}

#[test]
fn frames_pack_aligned_palettes_in_draw_order() {
    let limits = FrameLimits {
        binding_limit: 65536,
        buffer_limit: 1 << 20,
        joint_alignment: 256,
        material_stride: 256,
    };
    let mut buffers = ModelBuffers {
        instance_capacity: 256,
        joints_capacity: 256,
        joint_binding_size: 64,
        material_instance_capacity: 256,
    };
    let instances = [
        FrameInstance {
            joints: 3,
            primitives: 2,
        },
        FrameInstance {
            joints: 5,
            primitives: 1,
        },
    ];
    let plan = pack_frame(&instances, &limits, &mut buffers).unwrap();
    assert_eq!(
        plan.draws,
        vec![
            DrawOffsets {
                instance: 0,
                joints: 0,
                materials: vec![0, 256]
            },
            DrawOffsets {
                instance: 256,
                joints: 256,
                materials: vec![512]
            },
        ]
    );
    assert_eq!(plan.instance_bytes, 512);
    assert_eq!(plan.joint_bytes, 576);
    assert_eq!(plan.material_bytes, 768);
    assert!(plan.recreate_instances && plan.recreate_joints && plan.recreate_binding);
    assert!(plan.recreate_materials);
    assert_eq!(buffers.joint_binding_size, 320);
    assert!(buffers.joints_capacity >= 576);

    assert_eq!(
        drawn_frame(Ok(plan.clone()), true),
        (Some(plan.clone()), true)
    );
    assert_eq!(
        drawn_frame(Ok(plan.clone()), false),
        (Some(plan.clone()), false)
    );

    let again = pack_frame(&instances, &limits, &mut buffers).unwrap();
    assert_eq!(again.draws, plan.draws);
    assert!(!again.recreate_instances && !again.recreate_joints && !again.recreate_materials);
    assert!(!again.recreate_binding);
}

#[test]
fn a_refused_frame_names_its_limit() {
    let limits = FrameLimits {
        binding_limit: 128,
        buffer_limit: 1 << 20,
        joint_alignment: 256,
        material_stride: 256,
    };
    let mut buffers = ModelBuffers {
        instance_capacity: 256,
        joints_capacity: 256,
        joint_binding_size: 64,
        material_instance_capacity: 256,
    };
    let instances = [FrameInstance {
        joints: 3,
        primitives: 1,
    }];
    let packed = pack_frame(&instances, &limits, &mut buffers);
    assert_eq!(
        packed,
        Err(FrameError::PaletteTooLarge {
            joints: 3,
            bytes: 192,
            binding_limit: 128
        })
    );
    assert_eq!(drawn_frame(packed, true), (None, false));
}

#[test]
fn buffers_grow_to_the_next_power() {
    assert_eq!(aligned_size(1, 256), 256);
    assert_eq!(aligned_size(256, 256), 256);
    assert_eq!(grow_vertex_buffer(100, 128), (128, false));
    assert_eq!(grow_vertex_buffer(129, 128), (256, true));
}

fn primitive(phase: RenderPhase, queue_offset: i32, camera_depth: f32) -> DrawnPrimitive {
    DrawnPrimitive {
        route: DrawRoute {
            native: false,
            phase,
            queue_offset,
            outline: false,
        },
        camera_depth: scalar(camera_depth),
    }
}

#[test]
fn submissions_are_sorted_by_phase_queue_and_depth() {
    let draws = [
        ModelDraw {
            presentation_alpha: scalar(1.0),
            primitives: vec![
                primitive(RenderPhase::Blend, 0, 1.0),
                primitive(RenderPhase::Opaque, 0, 9.0),
            ],
        },
        ModelDraw {
            presentation_alpha: scalar(0.0),
            primitives: vec![primitive(RenderPhase::Opaque, 0, 1.0)],
        },
        ModelDraw {
            presentation_alpha: scalar(0.5),
            primitives: vec![
                primitive(RenderPhase::Opaque, 0, 4.0),
                primitive(RenderPhase::Blend, -1, 2.0),
                primitive(RenderPhase::Mask, 0, 2.0),
            ],
        },
    ];
    let order: Vec<(usize, usize, u64)> = collect_submissions(&draws)
        .iter()
        .map(|s| {
            (
                s.draw_index,
                s.primitive_index,
                s.sort_key.author_draw_order,
            )
        })
        .collect();
    assert_eq!(
        order,
        vec![(0, 1, 1), (2, 1, 4), (2, 0, 3), (2, 2, 5), (0, 0, 0)]
    );
}

#[test]
fn native_draws_pick_their_pipeline_and_outline() {
    let route = DrawRoute {
        native: true,
        phase: RenderPhase::Mask,
        queue_offset: 0,
        outline: true,
    };
    let step = draw_step(route, RenderPhase::Mask, false, true, 4, Some((300, 100)));
    assert_eq!(step.pipeline, ModelPipeline::MtoonMaskDoubleSided);
    assert_eq!(step.outline, Some(ModelPipeline::MtoonOutlineMask));
    assert_eq!(step.key.shading_model, PipelineShadingModel::Mtoon);
    assert_eq!(step.key.cull_mode, PipelineCullMode::Off);
    assert_eq!(step.key.sample_count, 4);
    assert_eq!(step.base_vertex, 200);

    let fallback = DrawRoute {
        native: false,
        outline: false,
        ..route
    };
    let step = draw_step(
        fallback,
        RenderPhase::MtoonBlendZWrite,
        true,
        false,
        1,
        None,
    );
    assert_eq!(step.pipeline, ModelPipeline::BlendZWrite);
    assert_eq!(step.outline, None);
    assert_eq!(step.key.shading_model, PipelineShadingModel::Unlit);
    assert_eq!(
        step.key.blend_depth_family,
        PipelineBlendDepthFamily::BlendDepthWrite
    );
    assert_eq!(step.key.render_pass, MaterialRenderPass::Surface);
    assert_eq!(step.base_vertex, 0);
}
