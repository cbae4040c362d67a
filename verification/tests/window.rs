use pocket3d::format::{
    add_transparent_surface_view_format, configure_windows_transparent_surface, non_srgb_variant,
    pick_alpha_mode, CompositeAlphaMode, PresentMode, SurfaceCapabilities, SurfaceConfiguration,
    SurfaceError, TextureFormat, LOGICAL_OUTPUT_FORMAT, PHYSICAL_SURFACE_FORMAT,
};
use pocket3d::window::{
    classify_resize_direction, manual_borderless_resize_enabled, native_drag_requested, AppConfig,
    FrameOutput, FrameStep, Gesture, PointerZone, Redraw, RedrawAnswer, RedrawCall, ResizeAction,
    ResizeDirection, ResizeOutcome, ResizeState, SurfaceStatus, WaitStep, WindowAction, WindowInput, WindowState,
};

const WINDOW: (u32, u32) = (450, 600);

/// Measures a pointer position against the scaled hit zone of each edge.
fn zone(position: (f64, f64), size: (u32, u32), scale_factor: f64) -> PointerZone {
    let (x, y) = position;
    let (width, height) = (f64::from(size.0), f64::from(size.1));
    let reach = 7.0 * scale_factor;
    PointerZone {
        size,
        measurable: scale_factor.is_finite()
            && scale_factor > 0.0
            && x.is_finite()
            && y.is_finite(),
        inside: !(x < 0.0 || x > width || y < 0.0 || y > height),
        near_left: x <= reach,
        near_right: x >= width - reach,
        near_top: y <= reach,
        near_bottom: y >= height - reach,
    }
}

fn hit(position: (f64, f64), scale_factor: f64, resizable: bool) -> Option<ResizeDirection> {
    classify_resize_direction(zone(position, WINDOW, scale_factor), resizable)
}

#[test]
fn default_hook_preserves_native_drag_at_every_cursor() {
    let drag_at = |_: (f32, f32)| true;
    assert!(native_drag_requested(true, None, drag_at));
    assert!(native_drag_requested(true, Some((120.0, 300.0)), drag_at));
}

#[test]
fn game_rejection_blocks_native_drag() {
    let drag_at = |_: (f32, f32)| false;
    assert!(!native_drag_requested(true, Some((120.0, 300.0)), drag_at));
    assert!(native_drag_requested(true, None, drag_at));
}

#[test]
fn drag_window_disabled_never_starts_native_drag() {
    assert!(!native_drag_requested(
        false,
        Some((120.0, 300.0)),
        |_: (f32, f32)| true
    ));
    assert!(!native_drag_requested(false, None, |_: (f32, f32)| false));
}

#[test]
fn manual_borderless_resize_requires_resizable_undecorated_window() {
    assert!(manual_borderless_resize_enabled(true, false));
    assert!(!manual_borderless_resize_enabled(false, false));
    assert!(!manual_borderless_resize_enabled(true, true));
}

#[test]
fn resize_hit_testing_classifies_each_edge() {
    assert_eq!(hit((3.0, 300.0), 1.0, true), Some(ResizeDirection::West));
    assert_eq!(hit((447.0, 300.0), 1.0, true), Some(ResizeDirection::East));
    assert_eq!(hit((225.0, 3.0), 1.0, true), Some(ResizeDirection::North));
    assert_eq!(hit((225.0, 597.0), 1.0, true), Some(ResizeDirection::South));
}

#[test]
fn resize_hit_testing_gives_corners_precedence_over_edges() {
    assert_eq!(hit((3.0, 3.0), 1.0, true), Some(ResizeDirection::NorthWest));
    assert_eq!(
        hit((447.0, 3.0), 1.0, true),
        Some(ResizeDirection::NorthEast)
    );
    assert_eq!(
        hit((3.0, 597.0), 1.0, true),
        Some(ResizeDirection::SouthWest)
    );
    assert_eq!(
        hit((447.0, 597.0), 1.0, true),
        Some(ResizeDirection::SouthEast)
    );
}

#[test]
fn resize_hit_testing_uses_logical_hit_zone_and_ignores_interior() {
    assert_eq!(hit((14.0, 300.0), 2.0, true), Some(ResizeDirection::West));
    assert_eq!(hit((14.1, 300.0), 2.0, true), None);
    assert_eq!(hit((225.0, 300.0), 1.0, true), None);
    assert_eq!(hit((-1.0, 300.0), 1.0, true), None);
}

#[test]
fn resize_hit_testing_is_disabled_when_window_is_not_resizable() {
    for position in [(3.0, 3.0), (3.0, 300.0), (225.0, 3.0), (225.0, 300.0)] {
        assert_eq!(hit(position, 1.0, false), None);
    }
}

#[test]
fn resize_hit_testing_needs_a_measurable_window() {
    assert_eq!(hit((3.0, 300.0), f64::NAN, true), None);
    assert_eq!(hit((3.0, 300.0), 0.0, true), None);
    assert_eq!(hit((f64::NAN, 300.0), 1.0, true), None);
    assert_eq!(
        classify_resize_direction(zone((0.0, 0.0), (0, 600), 1.0), true),
        None
    );
}

#[test]
fn zero_size_resize_suspends_without_changing_surface_viewport() {
    let mut state = ResizeState::new((450, 600));

    assert_eq!(state.apply((0, 0)), ResizeAction::Suspend);
    assert!(state.is_suspended());
    assert_eq!(state.apply((0, 0)), ResizeAction::Noop);
}

#[test]
fn non_zero_resize_updates_viewport_and_same_size_is_a_noop() {
    let mut state = ResizeState::new((450, 600));

    assert_eq!(
        state.apply((900, 600)),
        ResizeAction::Reconfigure { size: (900, 600) }
    );
    assert_eq!(state.viewport_size(), Some((900, 600)));
    assert_eq!(state.apply((900, 600)), ResizeAction::Noop);
}

#[test]
fn restore_after_minimize_requires_one_non_zero_reconfigure() {
    let mut state = ResizeState::new((450, 600));

    assert_eq!(state.apply((0, 600)), ResizeAction::Suspend);
    assert_eq!(
        state.apply((700, 500)),
        ResizeAction::Restore { size: (700, 500) }
    );
    assert_eq!(state.apply((700, 500)), ResizeAction::Noop);
}

#[test]
fn transparent_surface_view_format_policy_is_additive_and_idempotent() {
    let mut view_formats = vec![TextureFormat::Rgba8Unorm];
    add_transparent_surface_view_format(&mut view_formats);
    add_transparent_surface_view_format(&mut view_formats);

    assert_eq!(
        view_formats,
        vec![TextureFormat::Rgba8Unorm, PHYSICAL_SURFACE_FORMAT]
    );
}

#[test]
fn presentation_formats_are_distinct_srgb_source_and_unorm_destination() {
    assert_eq!(LOGICAL_OUTPUT_FORMAT, TextureFormat::Bgra8UnormSrgb);
    assert_eq!(PHYSICAL_SURFACE_FORMAT, TextureFormat::Bgra8Unorm);
}

#[test]
fn edge_view_uses_non_srgb_format_for_srgb_targets() {
    assert_eq!(
        non_srgb_variant(TextureFormat::Rgba8UnormSrgb),
        TextureFormat::Rgba8Unorm
    );
    assert_eq!(
        non_srgb_variant(TextureFormat::Bgra8UnormSrgb),
        TextureFormat::Bgra8Unorm
    );
    assert_eq!(
        non_srgb_variant(TextureFormat::Other(7)),
        TextureFormat::Other(7)
    );
}

fn capabilities(alpha_modes: Vec<CompositeAlphaMode>) -> SurfaceCapabilities {
    SurfaceCapabilities {
        formats: vec![TextureFormat::Bgra8UnormSrgb, TextureFormat::Rgba8Unorm],
        present_modes: vec![PresentMode::Mailbox, PresentMode::Fifo],
        alpha_modes,
    }
}

#[test]
fn transparent_windows_prefer_premultiplied_alpha() {
    assert_eq!(
        pick_alpha_mode(&capabilities(vec![
            CompositeAlphaMode::Inherit,
            CompositeAlphaMode::PostMultiplied,
            CompositeAlphaMode::PreMultiplied,
        ])),
        Some(CompositeAlphaMode::PreMultiplied)
    );
    assert_eq!(
        pick_alpha_mode(&capabilities(vec![
            CompositeAlphaMode::Inherit,
            CompositeAlphaMode::PostMultiplied,
        ])),
        Some(CompositeAlphaMode::PostMultiplied)
    );
    assert_eq!(
        pick_alpha_mode(&capabilities(vec![
            CompositeAlphaMode::Opaque,
            CompositeAlphaMode::Inherit,
        ])),
        Some(CompositeAlphaMode::Inherit)
    );
    assert_eq!(
        pick_alpha_mode(&capabilities(vec![CompositeAlphaMode::Opaque])),
        None
    );
}

#[test]
fn composited_surfaces_need_their_format_and_modes() {
    let mut config = SurfaceConfiguration {
        format: TextureFormat::Rgba8Unorm,
        present_mode: PresentMode::AutoVsync,
        alpha_mode: CompositeAlphaMode::Auto,
        view_formats: vec![],
    };
    let mut offered = capabilities(vec![CompositeAlphaMode::Opaque]);
    assert_eq!(
        configure_windows_transparent_surface(&offered, &mut config),
        Err(SurfaceError::MissingAlphaMode)
    );
    assert_eq!(config.format, TextureFormat::Rgba8Unorm);
    offered.present_modes.pop();
    assert_eq!(
        configure_windows_transparent_surface(&offered, &mut config),
        Err(SurfaceError::MissingPresentMode)
    );
    offered.formats.remove(0);
    assert_eq!(
        configure_windows_transparent_surface(&offered, &mut config),
        Err(SurfaceError::MissingFormat)
    );
    let offered = capabilities(vec![CompositeAlphaMode::PreMultiplied]);
    assert_eq!(
        configure_windows_transparent_surface(&offered, &mut config),
        Ok(())
    );
    assert_eq!(config.format, TextureFormat::Bgra8UnormSrgb);
    assert_eq!(config.present_mode, PresentMode::Fifo);
    assert_eq!(config.alpha_mode, CompositeAlphaMode::PreMultiplied);
    assert_eq!(config.view_formats, vec![PHYSICAL_SURFACE_FORMAT]);
}

fn borderless() -> AppConfig {
    AppConfig {
        decorations: false,
        drag_window: true,
        ..AppConfig::default()
    }
}

#[test]
fn window_defaults_describe_a_decorated_resizable_game_window() {
    let config = AppConfig::default();
    assert_eq!(config.title, "Pocket3D");
    assert_eq!(config.size, (1600, 900));
    assert_eq!(f32::from_bits(config.tick_hz.bits), 64.0);
    assert!(config.capture_mouse && config.decorations && config.resizable);
    assert!(!config.transparent && !config.always_on_top && !config.drag_window);
    assert!(config.max_fps.is_none());
    assert_eq!(config.requested_sample_count, 1);
}

#[test]
fn composited_windows_keep_an_output_of_their_size_while_visible() {
    let mut window = WindowState::new(&borderless(), true, (450, 600));
    assert_eq!(
        window.frame_output(),
        FrameOutput::Logical {
            use_exact_load: true
        }
    );
    assert_eq!(
        window.handle(WindowInput::Keyboard {
            escape: false,
            toggle: true
        }),
        WindowAction::Keys {
            capture: None,
            use_exact_load: Some(false)
        }
    );
    assert_eq!(
        window.handle_resize((900, 600), |_| true),
        ResizeOutcome::Resized {
            size: (900, 600),
            restored: false,
            new_presentation: false
        }
    );
    assert_eq!(
        window.frame_output(),
        FrameOutput::Logical {
            use_exact_load: false
        }
    );
    assert_eq!(
        window.handle_resize((0, 600), |_| unreachable!()),
        ResizeOutcome::Suspended
    );
    assert_eq!(window.frame_size(), None);
    assert_eq!(window.before_wait(None), WaitStep::Nothing);
    assert_eq!(
        window.handle_resize((700, 500), |size| size == (700, 500)),
        ResizeOutcome::Resized {
            size: (700, 500),
            restored: true,
            new_presentation: true
        }
    );
    assert_eq!(window.presentation.unwrap().size, (700, 500));
    assert!(window.presentation.unwrap().use_exact_load);
    assert_eq!(
        window.handle_resize((700, 500), |_| unreachable!()),
        ResizeOutcome::Unchanged
    );
    assert_eq!(
        window.frame_format(TextureFormat::Rgba8Unorm),
        LOGICAL_OUTPUT_FORMAT
    );
}

#[test]
fn a_surface_that_cannot_be_configured_ends_the_window() {
    let mut window = WindowState::new(&AppConfig::default(), false, (450, 600));
    assert_eq!(window.frame_size(), Some((450, 600)));
    assert_eq!(window.frame_output(), FrameOutput::Surface);
    assert_eq!(
        window.frame_format(TextureFormat::Rgba8Unorm),
        TextureFormat::Rgba8Unorm
    );
    assert_eq!(
        window.handle_resize((640, 480), |_| false),
        ResizeOutcome::Failed
    );
    assert_eq!(window.frame_size(), None);
    assert_eq!(window.before_wait(Some(true)), WaitStep::Nothing);
}

#[test]
fn presses_resize_before_they_drag() {
    let mut window = WindowState::new(&borderless(), false, WINDOW);
    assert_eq!(
        window.handle(WindowInput::MouseButton {
            left_pressed: true,
            zone: Some(zone((3.0, 300.0), WINDOW, 1.0))
        }),
        WindowAction::Press {
            recapture: true,
            gesture: Gesture::Resize {
                direction: ResizeDirection::West
            }
        }
    );
    assert!(!window.set_mouse_capture(true, true));
    assert_eq!(
        window.handle(WindowInput::MouseButton {
            left_pressed: true,
            zone: Some(zone((225.0, 300.0), WINDOW, 1.0))
        }),
        WindowAction::Press {
            recapture: false,
            gesture: Gesture::Drag
        }
    );
    assert_eq!(
        window.handle(WindowInput::MouseButton {
            left_pressed: false,
            zone: None
        }),
        WindowAction::Press {
            recapture: false,
            gesture: Gesture::Keep
        }
    );
    assert_eq!(
        window.handle(WindowInput::Keyboard {
            escape: true,
            toggle: true
        }),
        WindowAction::Keys {
            capture: Some(false),
            use_exact_load: None
        }
    );
    assert!(window.set_mouse_capture(false, true));
    assert_eq!(
        window.handle(WindowInput::CursorMoved {
            zone: zone((447.0, 3.0), WINDOW, 1.0)
        }),
        WindowAction::SetCursor {
            direction: Some(ResizeDirection::NorthEast)
        }
    );
    assert_eq!(
        window.handle(WindowInput::CursorLeft),
        WindowAction::SetCursor { direction: None }
    );
    assert_eq!(window.handle(WindowInput::CloseRequested), WindowAction::Exit);
    assert_eq!(
        window.handle(WindowInput::FocusLost),
        WindowAction::ReleaseMouse
    );
    assert_eq!(
        window.handle(WindowInput::RedrawRequested),
        WindowAction::Redraw
    );
    assert_eq!(window.handle(WindowInput::Other), WindowAction::Nothing);
}

#[test]
fn decorated_windows_leave_edges_to_the_system() {
    let mut window = WindowState::new(&AppConfig::default(), false, WINDOW);
    assert_eq!(
        window.handle(WindowInput::CursorMoved {
            zone: zone((3.0, 3.0), WINDOW, 1.0)
        }),
        WindowAction::Nothing
    );
    assert_eq!(
        window.handle(WindowInput::MouseButton {
            left_pressed: true,
            zone: Some(zone((3.0, 3.0), WINDOW, 1.0))
        }),
        WindowAction::Press {
            recapture: true,
            gesture: Gesture::Keep
        }
    );
}

#[test]
fn frames_follow_the_surface_and_the_frame_cap() {
    assert_eq!(
        WindowState::frame_step(SurfaceStatus::Ready),
        FrameStep::Draw
    );
    assert_eq!(
        WindowState::frame_step(SurfaceStatus::Lost),
        FrameStep::Reconfigure
    );
    assert_eq!(
        WindowState::frame_step(SurfaceStatus::Outdated),
        FrameStep::Reconfigure
    );
    assert_eq!(
        WindowState::frame_step(SurfaceStatus::Timeout),
        FrameStep::Skip
    );
    assert_eq!(
        WindowState::frame_step(SurfaceStatus::OutOfMemory),
        FrameStep::Fail
    );
    assert_eq!(
        WindowState::frame_step(SurfaceStatus::Other),
        FrameStep::Skip
    );
    let mut window = WindowState::new(&AppConfig::default(), false, WINDOW);
    assert_eq!(window.before_wait(None), WaitStep::Redraw);
    assert_eq!(window.before_wait(Some(true)), WaitStep::Redraw);
    assert_eq!(window.before_wait(Some(false)), WaitStep::WaitUntilDue);
    window.fail();
    assert_eq!(window.before_wait(None), WaitStep::Nothing);
}

/// The calls of a redraw whose frame has `due` ticks.
fn redraw_calls(
    mut redraw: Redraw,
    due: u32,
    exits: bool,
    status: SurfaceStatus,
    configures: bool,
) -> Vec<RedrawCall> {
    let mut calls = Vec::new();
    while redraw.call != RedrawCall::Finished {
        calls.push(redraw.call);
        redraw.step(match redraw.call {
            RedrawCall::Frame => RedrawAnswer::Ticks { due },
            RedrawCall::AskExit => RedrawAnswer::Exits { wanted: exits },
            RedrawCall::Acquire => RedrawAnswer::Surface { status },
            RedrawCall::Reconfigure => RedrawAnswer::Configured {
                succeeded: configures,
            },
            _ => RedrawAnswer::Done,
        });
    }
    calls
}

#[test]
fn redraws_call_the_game_in_order() {
    let window = WindowState::new(&AppConfig::default(), false, WINDOW);
    let redraw = window.begin_redraw().unwrap();
    assert_eq!((redraw.size, redraw.output), (WINDOW, FrameOutput::Surface));
    let start = vec![
        RedrawCall::Metrics,
        RedrawCall::Frame,
        RedrawCall::Tick { left: 1 },
        RedrawCall::Tick { left: 0 },
        RedrawCall::EndInput,
        RedrawCall::AskExit,
    ];
    let mut drawn = start.clone();
    drawn.extend([
        RedrawCall::Prepare,
        RedrawCall::Acquire,
        RedrawCall::Compose,
        RedrawCall::Overlay,
        RedrawCall::Present,
    ]);
    let ready = SurfaceStatus::Ready;
    assert_eq!(redraw_calls(redraw, 2, false, ready, true), drawn);
    let mut exited = start.clone();
    exited.push(RedrawCall::Exit);
    assert_eq!(redraw_calls(redraw, 2, true, ready, true), exited);
    for (status, configures, last) in [
        (SurfaceStatus::Timeout, true, vec![]),
        (SurfaceStatus::OutOfMemory, true, vec![RedrawCall::Fail]),
        (SurfaceStatus::Lost, true, vec![RedrawCall::Reconfigure]),
        (
            SurfaceStatus::Outdated,
            false,
            vec![RedrawCall::Reconfigure, RedrawCall::Fail],
        ),
    ] {
        let calls = redraw_calls(redraw, 0, false, status, configures);
        assert_eq!(calls[2], RedrawCall::EndInput);
        assert_eq!(calls[5], RedrawCall::Acquire);
        assert_eq!(calls[6..], last[..]);
    }
}

#[test]
fn composited_redraws_pack_their_output() {
    let mut window = WindowState::new(&AppConfig::default(), true, WINDOW);
    let calls = redraw_calls(
        window.begin_redraw().unwrap(),
        0,
        false,
        SurfaceStatus::Ready,
        true,
    );
    assert_eq!(
        calls[7..],
        [
            RedrawCall::Overlay,
            RedrawCall::Pack {
                use_exact_load: true
            },
            RedrawCall::Present
        ]
    );
    window.fail();
    assert_eq!(window.begin_redraw(), None);
}
