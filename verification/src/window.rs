//! What a window does with its events: resizing, capturing the mouse, dragging
//! and presenting.

use vstd::prelude::*;

use crate::format::{TextureFormat, LOGICAL_OUTPUT_FORMAT};
use crate::scalar::Scalar;

verus! {

/// How a window starts out.
#[derive(Debug)]
pub struct AppConfig {
    pub title: String,
    pub size: (u32, u32),
    pub tick_hz: Scalar,
    /// Grab and hide the cursor for mouse look; Escape toggles it.
    pub capture_mouse: bool,
    /// Whether the desktop shows through pixels that a scene leaves
    /// transparent.
    pub transparent: bool,
    /// Title bar and borders.
    pub decorations: bool,
    pub always_on_top: bool,
    pub resizable: bool,
    /// The cap of the frame rate; without one every refresh is drawn.
    pub max_fps: Option<Scalar>,
    /// Whether a press of the left button drags the window.
    pub drag_window: bool,
    pub requested_sample_count: u32,
}

impl Default for AppConfig {
    fn default() -> (config: Self)
        ensures
            config.title@ == "Pocket3D"@,
            config.size == (1600u32, 900u32),
            config.tick_hz.bits == 0x4280_0000,
            config.capture_mouse,
            !config.transparent,
            config.decorations,
            !config.always_on_top,
            config.resizable,
            config.max_fps is None,
            !config.drag_window,
            config.requested_sample_count == 1,
    {
        AppConfig {
            title: "Pocket3D".to_owned(),
            size: (1600, 900),
            tick_hz: Scalar { bits: 0x4280_0000 },
            capture_mouse: true,
            transparent: false,
            decorations: true,
            always_on_top: false,
            resizable: true,
            max_fps: None,
            drag_window: false,
            requested_sample_count: 1,
        }
    }
}

/// Whether the window draws its own resize zones.
pub fn manual_borderless_resize_enabled(resizable: bool, decorations: bool) -> (enabled: bool)
    ensures
        enabled == (resizable && !decorations),
{
    resizable && !decorations
}

/// Whether a press that missed every resize zone drags the window. `drag_at`
/// is asked only if dragging is on and there is a cursor position; without one
/// the press drags.
pub fn native_drag_requested<C, F: FnOnce(C) -> bool>(
    drag_window: bool,
    cursor: Option<C>,
    drag_at: F,
) -> (drags: bool)
    requires
        drag_window ==> (cursor matches Some(cursor) ==> call_requires(drag_at, (cursor,))),
    ensures
        match cursor {
            Some(cursor) => if drag_window {
                call_ensures(drag_at, (cursor,), drags)
            } else {
                !drags
            },
            None => drags == drag_window,
        },
{
    if !drag_window {
        return false;
    }
    match cursor {
        Some(cursor) => drag_at(cursor),
        None => true,
    }
}

/// The edges and corners that a window is resized by.
#[derive(Clone, Copy, Debug, PartialEq, Eq, Structural)]
pub enum ResizeDirection {
    East,
    North,
    NorthEast,
    NorthWest,
    South,
    SouthEast,
    SouthWest,
    West,
}

/// Where the pointer is in a window.
#[derive(Clone, Copy, Debug, PartialEq, Eq)]
pub struct PointerZone {
    /// The size of the window.
    pub size: (u32, u32),
    /// Whether the position is finite and the scale of the window is a
    /// positive number.
    pub measurable: bool,
    /// Whether the position lies in the window.
    pub inside: bool,
    /// Whether the position is no further than the scaled zone from each edge.
    pub near_left: bool,
    pub near_right: bool,
    pub near_top: bool,
    pub near_bottom: bool,
}

/// Whether the pointer can hit a resize zone at all.
pub open spec fn is_hittable(zone: PointerZone, resizable: bool) -> bool {
    resizable && zone.size.0 != 0 && zone.size.1 != 0 && zone.measurable && zone.inside
}

/// The edge or corner that a position hits: corners before edges, left before
/// right and top before bottom where a small window's zones overlap.
pub open spec fn hit_direction(zone: PointerZone, resizable: bool) -> Option<ResizeDirection> {
    if !is_hittable(zone, resizable) {
        None
    } else if zone.near_top && zone.near_left {
        Some(ResizeDirection::NorthWest)
    } else if zone.near_top && zone.near_right {
        Some(ResizeDirection::NorthEast)
    } else if zone.near_bottom && zone.near_left {
        Some(ResizeDirection::SouthWest)
    } else if zone.near_bottom && zone.near_right {
        Some(ResizeDirection::SouthEast)
    } else if zone.near_left {
        Some(ResizeDirection::West)
    } else if zone.near_right {
        Some(ResizeDirection::East)
    } else if zone.near_top {
        Some(ResizeDirection::North)
    } else if zone.near_bottom {
        Some(ResizeDirection::South)
    } else {
        None
    }
}

/// The edge or corner of a borderless window that a position hits.
pub fn classify_resize_direction(zone: PointerZone, resizable: bool) -> (direction: Option<
    ResizeDirection,
>)
    ensures
        direction == hit_direction(zone, resizable),
{
    if !resizable || zone.size.0 == 0 || zone.size.1 == 0 || !zone.measurable {
        return None;
    }
    if !zone.inside {
        return None;
    }
    match (zone.near_left, zone.near_right, zone.near_top, zone.near_bottom) {
        (true, _, true, _) => Some(ResizeDirection::NorthWest),
        (_, true, true, _) => Some(ResizeDirection::NorthEast),
        (true, _, _, true) => Some(ResizeDirection::SouthWest),
        (_, true, _, true) => Some(ResizeDirection::SouthEast),
        (true, _, _, _) => Some(ResizeDirection::West),
        (_, true, _, _) => Some(ResizeDirection::East),
        (_, _, true, _) => Some(ResizeDirection::North),
        (_, _, _, true) => Some(ResizeDirection::South),
        _ => None,
    }
}

/// A position that is near no edge hits nothing, and one that is near two
/// edges of a corner never hits an edge alone.
pub proof fn corners_take_precedence(zone: PointerZone, resizable: bool)
    ensures
        !(zone.near_left || zone.near_right || zone.near_top || zone.near_bottom) ==> hit_direction(
            zone,
            resizable,
        ) is None,
        is_hittable(zone, resizable) && (zone.near_left || zone.near_right) && (zone.near_top
            || zone.near_bottom) ==> {
            let direction = hit_direction(zone, resizable);
            direction == Some(ResizeDirection::NorthWest) || direction == Some(
                ResizeDirection::NorthEast,
            ) || direction == Some(ResizeDirection::SouthWest) || direction == Some(
                ResizeDirection::SouthEast,
            )
        },
{
}

/// What a new window size asks for.
#[derive(Clone, Copy, Debug, PartialEq, Eq)]
pub enum ResizeAction {
    Noop,
    Suspend,
    Reconfigure { size: (u32, u32) },
    Restore { size: (u32, u32) },
}

/// The viewport of a window, or none while it is minimized.
#[derive(Clone, Copy, Debug, PartialEq, Eq)]
pub struct ResizeState {
    pub viewport_size: Option<(u32, u32)>,
}

/// Whether a viewport has an area.
pub open spec fn has_area(size: (u32, u32)) -> bool {
    size.0 != 0 && size.1 != 0
}

/// The viewport of a window of `size`.
pub open spec fn viewport_of(size: (u32, u32)) -> Option<(u32, u32)> {
    if has_area(size) {
        Some(size)
    } else {
        None
    }
}

/// What a new size asks for.
pub open spec fn resize_action(state: ResizeState, size: (u32, u32)) -> ResizeAction {
    if state.viewport_size == viewport_of(size) {
        ResizeAction::Noop
    } else if !has_area(size) {
        ResizeAction::Suspend
    } else if state.viewport_size is None {
        ResizeAction::Restore { size }
    } else {
        ResizeAction::Reconfigure { size }
    }
}

impl ResizeState {
    /// Whether the viewport, if there is one, has an area.
    pub open spec fn wf(self) -> bool {
        self.viewport_size matches Some(size) ==> has_area(size)
    }

    /// The state of a window of `size`.
    pub fn new(size: (u32, u32)) -> (state: Self)
        ensures
            state.wf(),
            state.viewport_size == viewport_of(size),
    {
        ResizeState {
            viewport_size: if Self::is_non_zero(size) {
                Some(size)
            } else {
                None
            },
        }
    }

    /// Takes a new size: zero-sized windows keep the surface that they have,
    /// and a size that is there already changes nothing.
    pub fn apply(&mut self, size: (u32, u32)) -> (action: ResizeAction)
        requires
            old(self).wf(),
        ensures
            final(self).wf(),
            final(self).viewport_size == viewport_of(size),
            action == resize_action(*old(self), size),
    {
        if !Self::is_non_zero(size) {
            if self.viewport_size.is_some() {
                self.viewport_size = None;
                return ResizeAction::Suspend;
            }
            return ResizeAction::Noop;
        }
        let action = match self.viewport_size {
            Some(current) => if current.0 == size.0 && current.1 == size.1 {
                return ResizeAction::Noop;
            } else {
                ResizeAction::Reconfigure { size }
            },
            None => ResizeAction::Restore { size },
        };
        self.viewport_size = Some(size);
        action
    }

    /// The viewport.
    pub fn viewport_size(self) -> (size: Option<(u32, u32)>)
        ensures
            size == self.viewport_size,
    {
        self.viewport_size
    }

    /// Whether the window is minimized.
    pub fn is_suspended(self) -> (suspended: bool)
        ensures
            suspended == self.viewport_size is None,
    {
        self.viewport_size.is_none()
    }

    /// Whether a viewport has an area.
    pub fn is_non_zero(size: (u32, u32)) -> (non_zero: bool)
        ensures
            non_zero == has_area(size),
    {
        size.0 != 0 && size.1 != 0
    }
}

/// The same size twice asks for nothing the second time, and a restored window
/// is configured exactly once.
pub proof fn resizes_settle(state: ResizeState, after: ResizeState, size: (u32, u32))
    requires
        state.wf(),
        after.viewport_size == viewport_of(size),
    ensures
        resize_action(after, size) is Noop,
        state.viewport_size is None && has_area(size) ==> resize_action(state, size)
            == (ResizeAction::Restore { size }),
        resize_action(state, size) matches ResizeAction::Reconfigure { size: configured }
            ==> has_area(configured),
{
}

/// The output that a transparent window is drawn into before it is packed onto
/// its surface.
#[derive(Clone, Copy, Debug, PartialEq, Eq)]
pub struct TransparentPresentation {
    pub size: (u32, u32),
    /// Whether texels are read exactly or filtered.
    pub use_exact_load: bool,
}

impl TransparentPresentation {
    /// An output of `size` that is read exactly.
    pub fn new(size: (u32, u32)) -> (presentation: Self)
        requires
            has_area(size),
        ensures
            presentation.size == size,
            presentation.use_exact_load,
    {
        TransparentPresentation { size, use_exact_load: true }
    }

    /// Replaces the output by one of another size; how it is read stays.
    pub fn resize(&mut self, size: (u32, u32))
        requires
            has_area(size),
        ensures
            final(self).size == size,
            final(self).use_exact_load == old(self).use_exact_load,
    {
        self.size = size;
    }

    /// Switches between reading exactly and filtered.
    pub fn toggle(&mut self) -> (use_exact_load: bool)
        ensures
            use_exact_load == !old(self).use_exact_load,
            final(self).use_exact_load == use_exact_load,
            final(self).size == old(self).size,
    {
        self.use_exact_load = !self.use_exact_load;
        self.use_exact_load
    }
}

/// A window between its events.
#[derive(Clone, Copy, Debug, PartialEq, Eq)]
pub struct WindowState {
    /// Whether the window draws its own resize zones.
    pub manual_resize: bool,
    pub capture_mouse: bool,
    pub drag_window: bool,
    /// Whether the window is transparent through a composition target.
    pub composited: bool,
    pub mouse_captured: bool,
    pub resize_state: ResizeState,
    pub presentation: Option<TransparentPresentation>,
    /// Whether the window gave up.
    pub failed: bool,
}

/// What a resize did.
#[derive(Clone, Copy, Debug, PartialEq, Eq)]
pub enum ResizeOutcome {
    /// Nothing.
    Unchanged,
    /// The window is minimized: size-dependent targets are released.
    Suspended,
    /// The surface was configured: size-dependent targets follow, and the frame
    /// clock starts anew if the window was minimized.
    Resized { size: (u32, u32), restored: bool, new_presentation: bool },
    /// The surface could not be configured.
    Failed,
}

/// The presentation of a window whose surface has been configured to `size`.
pub open spec fn presented(state: WindowState, size: (u32, u32)) -> Option<
    TransparentPresentation,
> {
    if !state.composited {
        state.presentation
    } else {
        match state.presentation {
            Some(presentation) => Some(TransparentPresentation { size, ..presentation }),
            None => Some(TransparentPresentation { size, use_exact_load: true }),
        }
    }
}

/// An event of a window.
#[derive(Clone, Copy, Debug, PartialEq, Eq)]
pub enum WindowInput {
    CloseRequested,
    /// A key changed; whether Escape and the presentation key went down.
    Keyboard { escape: bool, toggle: bool },
    CursorMoved { zone: PointerZone },
    CursorLeft,
    /// A mouse button changed; whether the left one went down, and where the
    /// pointer is, if it has been seen.
    MouseButton { left_pressed: bool, zone: Option<PointerZone> },
    FocusLost,
    RedrawRequested,
    Other,
}

/// What a press of the left button does.
#[derive(Clone, Copy, Debug, PartialEq, Eq)]
pub enum Gesture {
    Keep,
    Resize { direction: ResizeDirection },
    /// The window is dragged if dragging is on and the game does not keep the
    /// press.
    Drag,
}

/// What is to be done for an event.
#[derive(Clone, Copy, Debug, PartialEq, Eq)]
pub enum WindowAction {
    Nothing,
    Exit,
    /// Whether the mouse is to be captured or released, and how texels are read
    /// from now on, if either changed.
    Keys { capture: Option<bool>, use_exact_load: Option<bool> },
    /// The cursor of a resize zone, or the default one.
    SetCursor { direction: Option<ResizeDirection> },
    Press { recapture: bool, gesture: Gesture },
    ReleaseMouse,
    Redraw,
}

/// What a press of the left button at a position does.
pub open spec fn gesture_of(state: WindowState, zone: Option<PointerZone>) -> Gesture {
    let direction = match zone {
        Some(zone) if state.manual_resize => hit_direction(zone, true),
        _ => None,
    };
    match direction {
        Some(direction) => Gesture::Resize { direction },
        None => if state.drag_window {
            Gesture::Drag
        } else {
            Gesture::Keep
        },
    }
}

/// What is to be done for an event.
pub open spec fn action_of(state: WindowState, input: WindowInput) -> WindowAction {
    match input {
        WindowInput::CloseRequested => WindowAction::Exit,
        WindowInput::Keyboard { escape, toggle } => WindowAction::Keys {
            capture: if state.capture_mouse && escape {
                Some(!state.mouse_captured)
            } else {
                None
            },
            use_exact_load: match state.presentation {
                Some(presentation) if state.composited && toggle => Some(
                    !presentation.use_exact_load,
                ),
                _ => None,
            },
        },
        WindowInput::CursorMoved { zone } => if state.manual_resize {
            WindowAction::SetCursor { direction: hit_direction(zone, true) }
        } else {
            WindowAction::Nothing
        },
        WindowInput::CursorLeft => if state.manual_resize {
            WindowAction::SetCursor { direction: None }
        } else {
            WindowAction::Nothing
        },
        WindowInput::MouseButton { left_pressed, zone } => WindowAction::Press {
            recapture: state.capture_mouse && !state.mouse_captured,
            gesture: if left_pressed {
                gesture_of(state, zone)
            } else {
                Gesture::Keep
            },
        },
        WindowInput::FocusLost => WindowAction::ReleaseMouse,
        WindowInput::RedrawRequested => WindowAction::Redraw,
        WindowInput::Other => WindowAction::Nothing,
    }
}

/// The window after an event: only the presentation key changes it.
pub open spec fn state_after(state: WindowState, input: WindowInput) -> WindowState {
    match action_of(state, input) {
        WindowAction::Keys { capture, use_exact_load: Some(exact) } => WindowState {
            presentation: match state.presentation {
                Some(presentation) => Some(
                    TransparentPresentation { use_exact_load: exact, ..presentation },
                ),
                None => None,
            },
            ..state
        },
        _ => state,
    }
}

/// How far a frame got.
#[derive(Clone, Copy, Debug, PartialEq, Eq, Structural)]
pub enum SurfaceStatus {
    Ready,
    Lost,
    Outdated,
    Timeout,
    OutOfMemory,
    Other,
}

/// What a frame does with its surface.
#[derive(Clone, Copy, Debug, PartialEq, Eq, Structural)]
pub enum FrameStep {
    Draw,
    /// The surface is configured anew and the frame skipped.
    Reconfigure,
    Skip,
    /// The window gives up.
    Fail,
}

/// What the loop does before it waits.
#[derive(Clone, Copy, Debug, PartialEq, Eq, Structural)]
pub enum WaitStep {
    Nothing,
    Redraw,
    /// The loop sleeps until the next frame is due.
    WaitUntilDue,
}

/// Where a frame is drawn.
#[derive(Clone, Copy, Debug, PartialEq, Eq, Structural)]
pub enum FrameOutput {
    /// Onto the surface.
    Surface,
    /// Into the logical output, which is then packed onto the surface.
    Logical { use_exact_load: bool },
}

/// What a frame does with the surface that it got.
pub open spec fn step_of(status: SurfaceStatus) -> FrameStep {
    match status {
        SurfaceStatus::Ready => FrameStep::Draw,
        SurfaceStatus::Lost => FrameStep::Reconfigure,
        SurfaceStatus::Outdated => FrameStep::Reconfigure,
        SurfaceStatus::Timeout => FrameStep::Skip,
        SurfaceStatus::OutOfMemory => FrameStep::Fail,
        SurfaceStatus::Other => FrameStep::Skip,
    }
}

/// Where the frames of a window are drawn.
pub open spec fn output_of(state: WindowState) -> FrameOutput {
    match state.presentation {
        Some(presentation) if state.composited => FrameOutput::Logical {
            use_exact_load: presentation.use_exact_load,
        },
        _ => FrameOutput::Surface,
    }
}

impl WindowState {
    /// Whether a composited window has an output of its viewport's size exactly
    /// while it has a viewport, and another window none.
    pub open spec fn wf(self) -> bool {
        &&& self.resize_state.wf()
        &&& !self.composited ==> self.presentation is None
        &&& self.composited && !self.failed ==> match self.presentation {
            Some(presentation) => self.resize_state.viewport_size == Some(presentation.size),
            None => self.resize_state.viewport_size is None,
        }
    }

    /// A window of `size`.
    pub fn new(config: &AppConfig, composited: bool, size: (u32, u32)) -> (state: Self)
        ensures
            state.wf(),
            state.manual_resize == (config.resizable && !config.decorations),
            state.capture_mouse == config.capture_mouse,
            state.drag_window == config.drag_window,
            state.composited == composited,
            !state.mouse_captured,
            state.resize_state.viewport_size == viewport_of(size),
            state.presentation == (if composited && has_area(size) {
                Some(TransparentPresentation { size, use_exact_load: true })
            } else {
                None
            }),
            !state.failed,
    {
        WindowState {
            manual_resize: manual_borderless_resize_enabled(config.resizable, config.decorations),
            capture_mouse: config.capture_mouse,
            drag_window: config.drag_window,
            composited,
            mouse_captured: false,
            resize_state: ResizeState::new(size),
            presentation: if composited && ResizeState::is_non_zero(size) {
                Some(TransparentPresentation::new(size))
            } else {
                None
            },
            failed: false,
        }
    }

    /// Takes a new window size. `configure` configures the surface, and is
    /// asked only for a size that it does not have yet. A minimized window
    /// keeps its surface; a window whose surface cannot be configured gives up.
    pub fn handle_resize<F: FnOnce((u32, u32)) -> bool>(
        &mut self,
        size: (u32, u32),
        configure: F,
    ) -> (outcome: ResizeOutcome)
        requires
            old(self).wf(),
            call_requires(configure, (size,)),
        ensures
            final(self).wf(),
            final(self).resize_state.viewport_size == viewport_of(size),
            final(self).mouse_captured == old(self).mouse_captured,
            final(self).composited == old(self).composited,
            final(self).manual_resize == old(self).manual_resize,
            final(self).capture_mouse == old(self).capture_mouse,
            final(self).drag_window == old(self).drag_window,
            match resize_action(old(self).resize_state, size) {
                ResizeAction::Noop => outcome is Unchanged && *final(self) == *old(self),
                ResizeAction::Suspend => outcome is Suspended && final(self).presentation is None
                    && final(self).failed == old(self).failed,
                _ => match outcome {
                    ResizeOutcome::Resized { size: resized, restored, new_presentation } => {
                        &&& call_ensures(configure, (size,), true)
                        &&& resized == size
                        &&& restored == old(self).resize_state.viewport_size is None
                        &&& new_presentation == (old(self).composited
                            && old(self).presentation is None)
                        &&& final(self).presentation == presented(*old(self), size)
                        &&& final(self).failed == old(self).failed
                    },
                    ResizeOutcome::Failed => {
                        &&& call_ensures(configure, (size,), false)
                        &&& final(self).failed
                        &&& final(self).presentation == old(self).presentation
                    },
                    _ => false,
                },
            },
    {
        match self.resize_state.apply(size) {
            ResizeAction::Noop => ResizeOutcome::Unchanged,
            ResizeAction::Suspend => {
                self.presentation = None;
                ResizeOutcome::Suspended
            },
            action => {
                if !configure(size) {
                    self.failed = true;
                    return ResizeOutcome::Failed;
                }
                let mut new_presentation = false;
                if self.composited {
                    self.presentation = match self.presentation {
                        Some(presentation) => Some(
                            TransparentPresentation {
                                size,
                                use_exact_load: presentation.use_exact_load,
                            },
                        ),
                        None => {
                            new_presentation = true;
                            Some(TransparentPresentation::new(size))
                        },
                    };
                }
                let restored = match action {
                    ResizeAction::Restore { .. } => true,
                    _ => false,
                };
                ResizeOutcome::Resized { size, restored, new_presentation }
            },
        }
    }

    /// Takes an event other than a resize.
    pub fn handle(&mut self, input: WindowInput) -> (action: WindowAction)
        requires
            old(self).wf(),
        ensures
            final(self).wf(),
            action == action_of(*old(self), input),
            *final(self) == state_after(*old(self), input),
    {
        match input {
            WindowInput::CloseRequested => WindowAction::Exit,
            WindowInput::Keyboard { escape, toggle } => {
                let capture = if self.capture_mouse && escape {
                    Some(!self.mouse_captured)
                } else {
                    None
                };
                let mut use_exact_load: Option<bool> = None;
                if self.composited && toggle {
                    if let Some(presentation) = self.presentation {
                        let mut toggled = presentation;
                        use_exact_load = Some(toggled.toggle());
                        self.presentation = Some(toggled);
                    }
                }
                WindowAction::Keys { capture, use_exact_load }
            },
            WindowInput::CursorMoved { zone } => if self.manual_resize {
                WindowAction::SetCursor {
                    direction: classify_resize_direction(zone, self.manual_resize),
                }
            } else {
                WindowAction::Nothing
            },
            WindowInput::CursorLeft => if self.manual_resize {
                WindowAction::SetCursor { direction: None }
            } else {
                WindowAction::Nothing
            },
            WindowInput::MouseButton { left_pressed, zone } => WindowAction::Press {
                recapture: self.capture_mouse && !self.mouse_captured,
                gesture: if left_pressed {
                    self.press(zone)
                } else {
                    Gesture::Keep
                },
            },
            WindowInput::FocusLost => WindowAction::ReleaseMouse,
            WindowInput::RedrawRequested => WindowAction::Redraw,
            WindowInput::Other => WindowAction::Nothing,
        }
    }

    /// What a press of the left button does: resize zones come before dragging.
    fn press(&self, zone: Option<PointerZone>) -> (gesture: Gesture)
        ensures
            gesture == gesture_of(*self, zone),
    {
        let direction = match zone {
            Some(zone) => if self.manual_resize {
                classify_resize_direction(zone, self.manual_resize)
            } else {
                None
            },
            None => None,
        };
        match direction {
            Some(direction) => Gesture::Resize { direction },
            None => if self.drag_window {
                Gesture::Drag
            } else {
                Gesture::Keep
            },
        }
    }

    /// Records whether the mouse was captured: `grabbed` is what the window
    /// system answered to a request to capture it. Tells whether the cursor is
    /// visible.
    pub fn set_mouse_capture(&mut self, captured: bool, grabbed: bool) -> (cursor_visible: bool)
        requires
            old(self).wf(),
        ensures
            final(self).wf(),
            *final(self) == (WindowState { mouse_captured: captured && grabbed, ..*old(self) }),
            cursor_visible == !(captured && grabbed),
    {
        self.mouse_captured = captured && grabbed;
        !self.mouse_captured
    }

    /// Gives up.
    pub fn fail(&mut self)
        requires
            old(self).wf(),
        ensures
            final(self).wf(),
            *final(self) == (WindowState { failed: true, ..*old(self) }),
    {
        self.failed = true;
    }

    /// The viewport that a frame is drawn for, unless the window gave up or is
    /// minimized.
    pub fn frame_size(&self) -> (size: Option<(u32, u32)>)
        ensures
            size == (if self.failed {
                None
            } else {
                self.resize_state.viewport_size
            }),
    {
        if self.failed {
            return None;
        }
        self.resize_state.viewport_size()
    }

    /// What a frame does with the surface that it got.
    pub fn frame_step(status: SurfaceStatus) -> (step: FrameStep)
        ensures
            step == step_of(status),
    {
        match status {
            SurfaceStatus::Ready => FrameStep::Draw,
            SurfaceStatus::Lost | SurfaceStatus::Outdated => FrameStep::Reconfigure,
            SurfaceStatus::OutOfMemory => FrameStep::Fail,
            SurfaceStatus::Timeout | SurfaceStatus::Other => FrameStep::Skip,
        }
    }

    /// Where the frames of a window with a viewport are drawn.
    pub fn frame_output(&self) -> (output: FrameOutput)
        requires
            self.wf(),
            !self.failed,
            self.resize_state.viewport_size is Some,
        ensures
            self.composited ==> self.presentation is Some,
            output == output_of(*self),
    {
        match self.presentation {
            Some(presentation) => if self.composited {
                FrameOutput::Logical { use_exact_load: presentation.use_exact_load }
            } else {
                FrameOutput::Surface
            },
            None => FrameOutput::Surface,
        }
    }

    /// The format that frames are drawn in.
    pub fn frame_format(&self, surface_format: TextureFormat) -> (format: TextureFormat)
        ensures
            format == (if self.composited {
                LOGICAL_OUTPUT_FORMAT
            } else {
                surface_format
            }),
    {
        if self.composited {
            LOGICAL_OUTPUT_FORMAT
        } else {
            surface_format
        }
    }

    /// What the loop does before it waits: `due` tells, for a capped frame
    /// rate, whether the next frame is due.
    pub fn before_wait(&self, due: Option<bool>) -> (step: WaitStep)
        ensures
            step == (if self.failed || self.resize_state.viewport_size is None {
                WaitStep::Nothing
            } else if due == Some(false) {
                WaitStep::WaitUntilDue
            } else {
                WaitStep::Redraw
            }),
    {
        if self.failed || self.resize_state.is_suspended() {
            return WaitStep::Nothing;
        }
        match due {
            Some(false) => WaitStep::WaitUntilDue,
            _ => WaitStep::Redraw,
        }
    }
}

/// Whenever a composited window draws, it has a logical output, and of the
/// viewport's size.
pub proof fn composited_frames_have_an_output(state: WindowState)
    requires
        state.wf(),
        state.composited,
        !state.failed,
        state.resize_state.viewport_size is Some,
    ensures
        state.presentation matches Some(presentation) && Some(presentation.size)
            == state.resize_state.viewport_size && has_area(presentation.size),
{
}

/// What a redraw does next.
#[derive(Clone, Copy, Debug, PartialEq, Eq, Structural)]
pub enum RedrawCall {
    /// The game hears the size and scale of the window.
    Metrics,
    /// The game moves on by the time since the last frame, and the clock says
    /// how many ticks are due.
    Frame,
    /// The game ticks, and `left` times more.
    Tick { left: u32 },
    /// The input of the frame is over.
    EndInput,
    /// The game says whether it wants to exit.
    AskExit,
    /// The game prepares what it renders.
    Prepare,
    /// The surface gives a frame.
    Acquire,
    /// The game composes its scene, which is rendered.
    Compose,
    /// The game draws over it.
    Overlay,
    /// The logical output is packed onto the surface.
    Pack { use_exact_load: bool },
    /// The frame is shown.
    Present,
    /// The surface is configured anew.
    Reconfigure,
    /// The window gives up.
    Fail,
    /// The loop ends.
    Exit,
    Finished,
}

/// What a call of a redraw answered.
#[derive(Clone, Copy, Debug, PartialEq, Eq, Structural)]
pub enum RedrawAnswer {
    Done,
    Ticks { due: u32 },
    Exits { wanted: bool },
    Surface { status: SurfaceStatus },
    Configured { succeeded: bool },
}

/// Whether `call` can answer `answer`.
pub open spec fn can_answer(call: RedrawCall, answer: RedrawAnswer) -> bool {
    match call {
        RedrawCall::Frame => answer is Ticks,
        RedrawCall::AskExit => answer is Exits,
        RedrawCall::Acquire => answer is Surface,
        RedrawCall::Reconfigure => answer is Configured,
        _ => answer is Done,
    }
}

/// What comes next while `ticks` are due: those, then the end of the input.
pub open spec fn ticks_due(ticks: u32) -> RedrawCall {
    if ticks > 0 {
        RedrawCall::Tick { left: (ticks - 1) as u32 }
    } else {
        RedrawCall::EndInput
    }
}

/// What a redraw onto `output` does after `call` answered `answer`.
pub open spec fn call_after(
    output: FrameOutput,
    call: RedrawCall,
    answer: RedrawAnswer,
) -> RedrawCall {
    match (call, answer) {
        (RedrawCall::Metrics, _) => RedrawCall::Frame,
        (RedrawCall::Frame, RedrawAnswer::Ticks { due }) => ticks_due(due),
        (RedrawCall::Tick { left }, _) => ticks_due(left),
        (RedrawCall::EndInput, _) => RedrawCall::AskExit,
        (RedrawCall::AskExit, RedrawAnswer::Exits { wanted }) => if wanted {
            RedrawCall::Exit
        } else {
            RedrawCall::Prepare
        },
        (RedrawCall::Prepare, _) => RedrawCall::Acquire,
        (RedrawCall::Acquire, RedrawAnswer::Surface { status }) => match step_of(status) {
            FrameStep::Draw => RedrawCall::Compose,
            FrameStep::Reconfigure => RedrawCall::Reconfigure,
            FrameStep::Skip => RedrawCall::Finished,
            FrameStep::Fail => RedrawCall::Fail,
        },
        (RedrawCall::Compose, _) => RedrawCall::Overlay,
        (RedrawCall::Overlay, _) => match output {
            FrameOutput::Logical { use_exact_load } => RedrawCall::Pack { use_exact_load },
            FrameOutput::Surface => RedrawCall::Present,
        },
        (RedrawCall::Pack { .. }, _) => RedrawCall::Present,
        (RedrawCall::Reconfigure, RedrawAnswer::Configured { succeeded: false }) => {
            RedrawCall::Fail
        },
        _ => RedrawCall::Finished,
    }
}

/// A redraw of a window.
#[derive(Clone, Copy, Debug, PartialEq, Eq)]
pub struct Redraw {
    pub size: (u32, u32),
    pub output: FrameOutput,
    pub call: RedrawCall,
}

impl WindowState {
    /// Starts a redraw, unless the window gave up or is minimized.
    pub fn begin_redraw(&self) -> (redraw: Option<Redraw>)
        requires
            self.wf(),
        ensures
            redraw == (match self.resize_state.viewport_size {
                Some(size) if !self.failed => Some(
                    Redraw { size, output: output_of(*self), call: RedrawCall::Metrics },
                ),
                _ => None,
            }),
    {
        match self.frame_size() {
            Some(size) => {
                let output = self.frame_output();
                Some(Redraw { size, output, call: RedrawCall::Metrics })
            },
            None => None,
        }
    }
}

impl Redraw {
    /// Takes the answer of the call that was made.
    pub fn step(&mut self, answer: RedrawAnswer)
        requires
            can_answer(old(self).call, answer),
        ensures
            *final(self) == (Redraw {
                call: call_after(old(self).output, old(self).call, answer),
                ..*old(self)
            }),
    {
        self.call = match (self.call, answer) {
            (RedrawCall::Metrics, _) => RedrawCall::Frame,
            (RedrawCall::Frame, RedrawAnswer::Ticks { due }) => Self::next_tick(due),
            (RedrawCall::Tick { left }, _) => Self::next_tick(left),
            (RedrawCall::EndInput, _) => RedrawCall::AskExit,
            (RedrawCall::AskExit, RedrawAnswer::Exits { wanted }) => if wanted {
                RedrawCall::Exit
            } else {
                RedrawCall::Prepare
            },
            (RedrawCall::Prepare, _) => RedrawCall::Acquire,
            (RedrawCall::Acquire, RedrawAnswer::Surface { status }) => {
                match WindowState::frame_step(status) {
                    FrameStep::Draw => RedrawCall::Compose,
                    FrameStep::Reconfigure => RedrawCall::Reconfigure,
                    FrameStep::Skip => RedrawCall::Finished,
                    FrameStep::Fail => RedrawCall::Fail,
                }
            },
            (RedrawCall::Compose, _) => RedrawCall::Overlay,
            (RedrawCall::Overlay, _) => match self.output {
                FrameOutput::Logical { use_exact_load } => RedrawCall::Pack { use_exact_load },
                FrameOutput::Surface => RedrawCall::Present,
            },
            (RedrawCall::Pack { .. }, _) => RedrawCall::Present,
            (RedrawCall::Reconfigure, RedrawAnswer::Configured { succeeded: false }) => {
                RedrawCall::Fail
            },
            _ => RedrawCall::Finished,
        };
    }

    fn next_tick(ticks: u32) -> (call: RedrawCall)
        ensures
            call == ticks_due(ticks),
    {
        if ticks > 0 {
            RedrawCall::Tick { left: ticks - 1 }
        } else {
            RedrawCall::EndInput
        }
    }
}

/// The place of a call in a redraw.
pub open spec fn call_place(call: RedrawCall) -> int {
    match call {
        RedrawCall::Metrics => 0,
        RedrawCall::Frame => 1,
        RedrawCall::Tick { .. } => 2,
        RedrawCall::EndInput => 3,
        RedrawCall::AskExit => 4,
        RedrawCall::Exit => 5,
        RedrawCall::Prepare => 6,
        RedrawCall::Acquire => 7,
        RedrawCall::Compose => 8,
        RedrawCall::Overlay => 9,
        RedrawCall::Pack { .. } => 10,
        RedrawCall::Present => 11,
        RedrawCall::Reconfigure => 12,
        RedrawCall::Fail => 13,
        RedrawCall::Finished => 14,
    }
}

/// A redraw never goes back: each call has a later place than the one before
/// it, but for the ticks, which follow each other until none is left.
pub proof fn redraws_move_on(output: FrameOutput, call: RedrawCall, answer: RedrawAnswer)
    requires
        call != RedrawCall::Finished,
    ensures
        ({
            let next = call_after(output, call, answer);
            match (call, next) {
                (RedrawCall::Tick { left }, RedrawCall::Tick { left: after }) => after + 1 == left,
                _ => call_place(call) < call_place(next),
            }
        }),
{
}

/// The game prepares a frame exactly if it does not want to exit, and composes
/// one exactly if the surface gave it a frame to draw on.
pub proof fn frames_are_drawn_on_demand(
    output: FrameOutput,
    call: RedrawCall,
    answer: RedrawAnswer,
)
    requires
        can_answer(call, answer),
    ensures
        call_after(output, call, answer) == RedrawCall::Prepare <==> call == RedrawCall::AskExit
            && answer == (RedrawAnswer::Exits { wanted: false }),
        call_after(output, call, answer) == RedrawCall::Compose <==> call == RedrawCall::Acquire
            && answer == (RedrawAnswer::Surface { status: SurfaceStatus::Ready }),
{
}

/// The pointer resizes the edge that it is near, and where it is near two that
/// meet, their corner; away from the edges, outside of the window, or where the
/// window cannot be resized, it resizes nothing.
pub proof fn pointers_resize_the_edge_they_are_near(zone: PointerZone)
    requires
        zone.size.0 != 0 && zone.size.1 != 0 && zone.measurable && zone.inside,
        !(zone.near_left && zone.near_right),
        !(zone.near_top && zone.near_bottom),
    ensures
        ({
            let found = hit_direction(zone, true);
            let (n, s, w, e) = (
                zone.near_top,
                zone.near_bottom,
                zone.near_left,
                zone.near_right,
            );
            &&& hit_direction(zone, false) is None
            &&& found == Some(ResizeDirection::North) <==> n && !w && !e
            &&& found == Some(ResizeDirection::South) <==> s && !w && !e
            &&& found == Some(ResizeDirection::West) <==> w && !n && !s
            &&& found == Some(ResizeDirection::East) <==> e && !n && !s
            &&& found == Some(ResizeDirection::NorthWest) <==> n && w
            &&& found == Some(ResizeDirection::NorthEast) <==> n && e
            &&& found == Some(ResizeDirection::SouthWest) <==> s && w
            &&& found == Some(ResizeDirection::SouthEast) <==> s && e
            &&& found is None <==> !n && !s && !w && !e
        }),
{
}

/// A pointer that cannot be placed resizes nothing.
pub proof fn unplaced_pointers_resize_nothing(zone: PointerZone, resizable: bool)
    ensures
        !resizable || zone.size.0 == 0 || zone.size.1 == 0 || !zone.measurable || !zone.inside
            ==> hit_direction(zone, resizable) is None,
{
}

/// A window without an area is suspended, one that gains an area again is
/// restored, and one whose area changes is reconfigured; a size that brings no
/// change does nothing.
pub proof fn sizes_decide_the_resize(state: ResizeState, size: (u32, u32))
    requires
        state.wf(),
    ensures
        ({
            let action = resize_action(state, size);
            let empty = size.0 == 0 || size.1 == 0;
            &&& action is Suspend <==> empty && state.viewport_size is Some
            &&& action is Restore <==> !empty && state.viewport_size is None
            &&& action is Reconfigure <==> !empty && state.viewport_size is Some
                && state.viewport_size != Some(size)
            &&& action is Noop <==> if empty {
                state.viewport_size is None
            } else {
                state.viewport_size == Some(size)
            }
            &&& action matches ResizeAction::Restore { size: to } ==> to == size
            &&& action matches ResizeAction::Reconfigure { size: to } ==> to == size
            &&& viewport_of(size) is None <==> empty
            &&& viewport_of(size) matches Some(viewport) ==> viewport == size
        }),
{
}

/// Closing exits; escape toggles the capture of the mouse where the window
/// captures it; losing the focus releases it; nothing but the toggle of a
/// composited window changes its state.
pub proof fn inputs_decide_the_action(state: WindowState, escape: bool, toggle: bool)
    ensures
        action_of(state, WindowInput::CloseRequested) is Exit,
        action_of(state, WindowInput::FocusLost) is ReleaseMouse,
        action_of(state, WindowInput::RedrawRequested) is Redraw,
        action_of(state, WindowInput::Other) is Nothing,
        ({
            let input = WindowInput::Keyboard { escape, toggle };
            &&& action_of(state, input) matches WindowAction::Keys { capture, use_exact_load } && (
            capture is Some <==> state.capture_mouse && escape) && (capture matches Some(captured)
                ==> captured == !state.mouse_captured) && (use_exact_load is Some <==> toggle
                && state.composited && state.presentation is Some)
            &&& state_after(state, input).mouse_captured == state.mouse_captured
            &&& state_after(state, input).resize_state == state.resize_state
            &&& state_after(state, input).presentation is Some <==> state.presentation is Some
            &&& state.presentation matches Some(before) ==> (state_after(
                state,
                input,
            ).presentation matches Some(after) && after.size == before.size && (
            after.use_exact_load != before.use_exact_load <==> toggle && state.composited))
        }),
{
}

/// A press captures the mouse again where it was let go. The left button resizes
/// where the pointer is on an edge of a window that is resized by hand, else it
/// drags a window that is dragged by its body; other presses do neither.
pub proof fn presses_resize_before_they_drag(
    state: WindowState,
    left_pressed: bool,
    zone: Option<PointerZone>,
)
    ensures
        action_of(state, WindowInput::MouseButton { left_pressed, zone }) matches
            WindowAction::Press { recapture, gesture } && {
            let edge = zone matches Some(zone) && state.manual_resize && hit_direction(
                zone,
                true,
            ) is Some;
            &&& recapture <==> state.capture_mouse && !state.mouse_captured
            &&& gesture is Resize <==> left_pressed && edge
            &&& gesture matches Gesture::Resize { direction } ==> (zone matches Some(zone)
                && hit_direction(zone, true) == Some(direction))
            &&& gesture is Drag <==> left_pressed && !edge && state.drag_window
        },
{
}

/// The cursor shows the edge under the pointer in a window that is resized by
/// hand, and is reset when the pointer leaves; other windows keep their cursor.
pub proof fn cursors_show_the_edge(state: WindowState, zone: PointerZone)
    ensures
        state.manual_resize ==> action_of(state, WindowInput::CursorMoved { zone }) == (
        WindowAction::SetCursor { direction: hit_direction(zone, true) }),
        state.manual_resize ==> action_of(state, WindowInput::CursorLeft) == (
        WindowAction::SetCursor { direction: None }),
        !state.manual_resize ==> action_of(state, WindowInput::CursorMoved { zone }) is Nothing
            && action_of(state, WindowInput::CursorLeft) is Nothing,
{
}

/// A surface that is ready is drawn to, one that was lost or is outdated is
/// configured again, a lack of memory ends the program, and what may pass is
/// waited out.
pub proof fn surfaces_decide_the_frame(status: SurfaceStatus)
    ensures
        step_of(status) is Draw <==> status is Ready,
        step_of(status) is Reconfigure <==> status is Lost || status is Outdated,
        step_of(status) is Fail <==> status is OutOfMemory,
        step_of(status) is Skip <==> status is Timeout || status is Other,
{
}

/// The calls of a frame follow each other: the due ticks run before the input of
/// the frame ends, and only then may the program exit; a frame is prepared before
/// a surface is acquired, and composed, overlaid and, where it is drawn into an
/// image of its own, packed before it is presented.
pub proof fn redraw_calls_follow_each_other(output: FrameOutput, left: u32)
    ensures
        call_after(output, RedrawCall::Metrics, RedrawAnswer::Done) is Frame,
        call_after(output, RedrawCall::Frame, RedrawAnswer::Ticks { due: left }) is EndInput
            <==> left == 0,
        left > 0 ==> call_after(output, RedrawCall::Frame, RedrawAnswer::Ticks { due: left }) == (
        RedrawCall::Tick { left: (left - 1) as u32 }),
        left > 0 ==> call_after(output, RedrawCall::Tick { left }, RedrawAnswer::Done) == (
        RedrawCall::Tick { left: (left - 1) as u32 }),
        call_after(output, RedrawCall::Tick { left: 0 }, RedrawAnswer::Done) is EndInput,
        call_after(output, RedrawCall::EndInput, RedrawAnswer::Done) is AskExit,
        call_after(output, RedrawCall::AskExit, RedrawAnswer::Exits { wanted: true }) is Exit,
        call_after(output, RedrawCall::AskExit, RedrawAnswer::Exits { wanted: false }) is Prepare,
        call_after(output, RedrawCall::Prepare, RedrawAnswer::Done) is Acquire,
        call_after(output, RedrawCall::Compose, RedrawAnswer::Done) is Overlay,
        output is Surface ==> call_after(
            output,
            RedrawCall::Overlay,
            RedrawAnswer::Done,
        ) is Present,
        output matches FrameOutput::Logical { use_exact_load } ==> call_after(
            output,
            RedrawCall::Overlay,
            RedrawAnswer::Done,
        ) == (RedrawCall::Pack { use_exact_load }),
        call_after(
            output,
            RedrawCall::Pack { use_exact_load: left == 0 },
            RedrawAnswer::Done,
        ) is Present,
        call_after(output, RedrawCall::Present, RedrawAnswer::Done) is Finished,
        call_after(output, RedrawCall::Exit, RedrawAnswer::Done) is Finished,
        call_after(output, RedrawCall::Fail, RedrawAnswer::Done) is Finished,
{
}

/// What a surface answers decides what follows: it is composed only where it is
/// ready, and a failure to configure it again ends the program.
pub proof fn answers_decide_what_follows(
    output: FrameOutput,
    status: SurfaceStatus,
    succeeded: bool,
)
    ensures
        ({
            let next = call_after(
                output,
                RedrawCall::Acquire,
                RedrawAnswer::Surface { status },
            );
            &&& next is Compose <==> status is Ready
            &&& next is Reconfigure <==> status is Lost || status is Outdated
            &&& next is Fail <==> status is OutOfMemory
            &&& next is Finished <==> status is Timeout || status is Other
        }),
        ({
            let next = call_after(
                output,
                RedrawCall::Reconfigure,
                RedrawAnswer::Configured { succeeded },
            );
            (next is Fail <==> !succeeded) && (next is Finished <==> succeeded)
        }),
{
}

} // verus!
