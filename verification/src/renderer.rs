//! Sample counts, size-dependent render targets and the passes of a frame.

use vstd::prelude::*;

use crate::frame::{drawn, frame_error, FrameError, FrameInstance, FrameLimits, FramePlan};
use crate::scalar::Scalar;
use crate::smaa::SmaaPass;

verus! {

/// How a renderer starts out. Preferences of a product are mapped to these
/// values at the application boundary.
#[derive(Clone, Copy, Debug, PartialEq, Eq, Structural)]
pub struct RendererConfig {
    pub requested_sample_count: u32,
}

impl Default for RendererConfig {
    fn default() -> (config: Self)
        ensures
            config.requested_sample_count == 1,
    {
        RendererConfig { requested_sample_count: 1 }
    }
}

/// The aspect of a viewport, width by height as `divide` computes it. One
/// without an area has none.
pub fn aspect_for_viewport<F: Fn(u32, u32) -> Scalar>(
    viewport: (u32, u32),
    divide: F,
) -> (aspect: Option<Scalar>)
    requires
        viewport.0 != 0 && viewport.1 != 0 ==> call_requires(divide, viewport),
    ensures
        match aspect {
            Some(aspect) => viewport.0 != 0 && viewport.1 != 0 && call_ensures(
                divide,
                viewport,
                aspect,
            ),
            None => viewport.0 == 0 || viewport.1 == 0,
        },
{
    let (width, height) = viewport;
    if width != 0 && height != 0 {
        Some(divide(width, height))
    } else {
        None
    }
}

/// Whether a pixel can have `count` samples at all.
pub open spec fn is_candidate(count: int) -> bool {
    count == 1 || count == 2 || count == 4 || count == 8
}

/// The request that is honoured for `requested`.
pub open spec fn sanitized(requested: u32) -> u32 {
    if is_candidate(requested as int) {
        requested
    } else {
        1
    }
}

/// `requested` if it is a sample count, else one sample.
pub fn sanitize_requested_sample_count(requested: u32) -> (count: u32)
    ensures
        count == sanitized(requested),
{
    match requested {
        1 | 2 | 4 | 8 => requested,
        _ => 1,
    }
}

/// Whether `count` may serve a request of `requested` samples.
pub open spec fn is_eligible(requested: u32, supported: Seq<u32>, count: u32) -> bool {
    is_candidate(count as int) && count <= sanitized(requested) && supported.contains(count)
}

/// Whether `count` is the highest supported sample count that does not exceed
/// the request, or one without any.
pub open spec fn is_selected(requested: u32, supported: Seq<u32>, count: u32) -> bool {
    if exists|other: u32| is_eligible(requested, supported, other) {
        is_eligible(requested, supported, count) && forall|other: u32|
            is_eligible(requested, supported, other) ==> other <= count
    } else {
        count == 1
    }
}

fn contains(values: &[u32], value: u32) -> (found: bool)
    ensures
        found == values@.contains(value),
{
    let mut i: usize = 0;
    while i < values.len()
        invariant
            i <= values@.len(),
            forall|k: int| 0 <= k < i ==> values@[k] != value,
        decreases values@.len() - i,
    {
        if values[i] == value {
            return true;
        }
        i += 1;
    }
    false
}

/// Selects the highest supported sample count that does not exceed the
/// request, or one without any.
pub fn select_effective_sample_count(requested: u32, supported: &[u32]) -> (count: u32)
    ensures
        is_selected(requested, supported@, count),
{
    let limit: u32 = sanitize_requested_sample_count(requested);
    let selected: u32 = if 8 <= limit && contains(supported, 8) {
        8
    } else if 4 <= limit && contains(supported, 4) {
        4
    } else if 2 <= limit && contains(supported, 2) {
        2
    } else {
        1
    };
    assert(selected != 1 ==> is_eligible(requested, supported@, selected));
    selected
}

#[derive(Clone, Copy, Debug, PartialEq, Eq, Structural)]
pub struct SampleCountTransition {
    pub requested_sample_count: u32,
    pub effective_sample_count: u32,
    pub rebuild_pipelines: bool,
}

/// What a request changes while `current_effective` samples are in use.
pub fn sample_count_transition(
    requested: u32,
    current_effective: u32,
    supported: &[u32],
) -> (transition: SampleCountTransition)
    ensures
        transition.requested_sample_count == sanitized(requested),
        is_selected(requested, supported@, transition.effective_sample_count),
        transition.rebuild_pipelines == (transition.effective_sample_count != current_effective),
{
    let requested_sample_count: u32 = sanitize_requested_sample_count(requested);
    let effective_sample_count: u32 = select_effective_sample_count(
        requested_sample_count,
        supported,
    );
    proof {
        assert forall|other: u32|
            is_eligible(requested_sample_count, supported@, other) == is_eligible(
                requested,
                supported@,
                other,
            ) by {}
    }
    SampleCountTransition {
        requested_sample_count,
        effective_sample_count,
        rebuild_pipelines: effective_sample_count != current_effective,
    }
}

/// At most one sample count can be selected.
pub proof fn selection_is_unique(requested: u32, supported: Seq<u32>, a: u32, b: u32)
    requires
        is_selected(requested, supported, a),
        is_selected(requested, supported, b),
    ensures
        a == b,
{
}

/// A selected sample count never exceeds what was asked for, and asking for
/// more never selects less.
pub proof fn selection_follows_the_request(
    smaller: u32,
    larger: u32,
    supported: Seq<u32>,
    a: u32,
    b: u32,
)
    requires
        sanitized(smaller) <= sanitized(larger),
        is_selected(smaller, supported, a),
        is_selected(larger, supported, b),
    ensures
        a <= sanitized(smaller),
        a <= b,
{
    if exists|other: u32| is_eligible(smaller, supported, other) {
        assert(is_eligible(larger, supported, a));
    }
}

/// What a device says of a texture format.
#[derive(Clone, Debug)]
pub struct FormatSupport {
    /// Whether it can be rendered into.
    pub renderable: bool,
    /// Whether a multisampled texture of it can be resolved.
    pub resolvable: bool,
    /// The sample counts that a texture of it can have.
    pub sample_counts: Vec<u32>,
}

/// Whether a color and a depth format can be rendered together with `count`
/// samples.
pub open spec fn is_supported(color: FormatSupport, depth: FormatSupport, count: u32) -> bool {
    color.renderable && depth.renderable && color.sample_counts@.contains(count)
        && depth.sample_counts@.contains(count) && (count == 1 || color.resolvable)
}

/// The supported ones of the sample counts below or equal `count`.
pub open spec fn supported_up_to(color: FormatSupport, depth: FormatSupport, count: nat) -> Seq<u32>
    decreases count,
{
    if count == 0 {
        Seq::empty()
    } else {
        let before = supported_up_to(color, depth, (count - 1) as nat);
        if is_candidate(count as int) && is_supported(color, depth, count as u32) {
            before.push(count as u32)
        } else {
            before
        }
    }
}

fn supports(color: &FormatSupport, depth: &FormatSupport, count: u32) -> (supported: bool)
    ensures
        supported == is_supported(*color, *depth, count),
{
    color.renderable && depth.renderable && contains(color.sample_counts.as_slice(), count)
        && contains(depth.sample_counts.as_slice(), count) && (count == 1 || color.resolvable)
}

/// The sample counts that a color and a depth format support together, in
/// increasing order.
pub fn supported_sample_counts(color: &FormatSupport, depth: &FormatSupport) -> (counts: Vec<u32>)
    ensures
        counts@ == supported_up_to(*color, *depth, 8),
{
    let mut counts: Vec<u32> = Vec::new();
    let mut count: u32 = 0;
    while count < 8
        invariant
            count <= 8,
            counts@ == supported_up_to(*color, *depth, count as nat),
        decreases 8 - count,
    {
        count += 1;
        if (count == 1 || count == 2 || count == 4 || count == 8) && supports(color, depth, count) {
            counts.push(count);
        }
    }
    counts
}

/// A multisampled color target.
#[derive(Clone, Copy, Debug, PartialEq, Eq)]
pub struct MsaaColorTarget {
    pub size: (u32, u32),
    pub sample_count: u32,
}

/// Which targets do not match a viewport.
#[derive(Clone, Copy, Debug, PartialEq, Eq, Structural)]
pub struct TargetResizePlan {
    pub recreate_depth: bool,
    pub recreate_msaa: bool,
    pub recreate_smaa: bool,
}

impl Default for TargetResizePlan {
    fn default() -> (plan: Self)
        ensures
            !plan.recreate_depth && !plan.recreate_msaa && !plan.recreate_smaa,
    {
        TargetResizePlan { recreate_depth: false, recreate_msaa: false, recreate_smaa: false }
    }
}

impl TargetResizePlan {
    /// Whether every target matches.
    pub fn is_empty(self) -> (empty: bool)
        ensures
            empty == (!self.recreate_depth && !self.recreate_msaa && !self.recreate_smaa),
    {
        !self.recreate_depth && !self.recreate_msaa && !self.recreate_smaa
    }
}

/// The size-dependent state of a renderer: its sample counts and the sizes of
/// its targets. Device objects are kept in step by the application.
#[derive(Clone, Debug)]
pub struct Renderer {
    pub requested_sample_count: u32,
    pub effective_sample_count: u32,
    pub supported_sample_counts: Vec<u32>,
    /// The size of the depth target.
    pub depth: Option<(u32, u32)>,
    pub msaa_color: Option<MsaaColorTarget>,
    pub smaa: Option<SmaaPass>,
}

/// What the targets of a renderer lack for a viewport of `size`.
pub open spec fn resize_plan(renderer: Renderer, size: (u32, u32)) -> TargetResizePlan {
    TargetResizePlan {
        recreate_depth: renderer.depth != Some(size),
        recreate_msaa: renderer.effective_sample_count > 1 && renderer.msaa_color != Some(
            MsaaColorTarget { size, sample_count: renderer.effective_sample_count },
        ),
        recreate_smaa: renderer.smaa matches Some(pass) && pass.targets != Some(size),
    }
}

/// The renderer with every target at `size`.
pub open spec fn with_targets(renderer: Renderer, size: (u32, u32)) -> Renderer {
    Renderer {
        depth: Some(size),
        msaa_color: if renderer.effective_sample_count > 1 {
            Some(
                MsaaColorTarget { size, sample_count: renderer.effective_sample_count },
            )
        } else {
            renderer.msaa_color
        },
        smaa: match renderer.smaa {
            Some(_) => Some(SmaaPass { targets: Some(size) }),
            None => None,
        },
        ..renderer
    }
}

/// A view that a pass draws into.
#[derive(Clone, Copy, Debug, PartialEq, Eq, Structural)]
pub enum ColorTarget {
    /// The multisampled color target.
    Msaa,
    /// The scene input of the morphological pass.
    Smaa,
    /// The view that the caller passed in.
    Output,
}

/// The passes of a frame, in order: the scene, the view model, the resolve, the
/// morphological pass and the overlay.
#[derive(Clone, Copy, Debug, PartialEq, Eq, Structural)]
pub struct FramePasses {
    /// Where the scene is drawn.
    pub scene: ColorTarget,
    /// Where the view model is drawn, if there is one.
    pub viewmodel: Option<ColorTarget>,
    /// Where the multisampled image is resolved to, if there is one.
    pub resolve: Option<ColorTarget>,
    /// Whether the morphological pass writes the output.
    pub smaa: bool,
    /// Whether the overlay is drawn onto the output.
    pub hud: bool,
}

/// Where the 3D passes of a renderer draw.
pub open spec fn scene_target(renderer: Renderer) -> ColorTarget {
    if renderer.msaa_color is Some {
        ColorTarget::Msaa
    } else if renderer.smaa is Some {
        ColorTarget::Smaa
    } else {
        ColorTarget::Output
    }
}

/// The passes of a frame of a renderer.
pub open spec fn frame_passes(
    renderer: Renderer,
    has_viewmodel: bool,
    has_hud: bool,
) -> FramePasses {
    FramePasses {
        scene: scene_target(renderer),
        viewmodel: if has_viewmodel {
            Some(scene_target(renderer))
        } else {
            None
        },
        resolve: if renderer.msaa_color is Some {
            Some(
                if renderer.smaa is Some {
                    ColorTarget::Smaa
                } else {
                    ColorTarget::Output
                },
            )
        } else {
            None
        },
        smaa: renderer.smaa is Some,
        hud: has_hud,
    }
}

impl Renderer {
    /// Whether the sample counts fit each other and the targets fit the sample
    /// count.
    pub open spec fn wf(&self) -> bool {
        &&& is_candidate(self.requested_sample_count as int)
        &&& is_selected(
            self.requested_sample_count,
            self.supported_sample_counts@,
            self.effective_sample_count,
        )
        &&& match self.msaa_color {
            Some(target) => self.effective_sample_count > 1 && target.sample_count
                == self.effective_sample_count,
            None => true,
        }
    }

    /// A renderer of the default configuration without targets.
    pub fn new(supported_sample_counts: Vec<u32>) -> (renderer: Self)
        ensures
            renderer.wf(),
            renderer.requested_sample_count == 1,
            renderer.supported_sample_counts == supported_sample_counts,
            renderer.depth is None,
            renderer.msaa_color is None,
            renderer.smaa is None,
    {
        Self::new_with_config(RendererConfig::default(), supported_sample_counts)
    }

    /// A renderer without targets.
    pub fn new_with_config(config: RendererConfig, supported_sample_counts: Vec<u32>) -> (renderer:
        Self)
        ensures
            renderer.wf(),
            renderer.requested_sample_count == sanitized(config.requested_sample_count),
            renderer.supported_sample_counts == supported_sample_counts,
            renderer.depth is None,
            renderer.msaa_color is None,
            renderer.smaa is None,
    {
        let transition = sample_count_transition(
            config.requested_sample_count,
            1,
            supported_sample_counts.as_slice(),
        );
        proof {
            assert forall|other: u32|
                is_eligible(
                    transition.requested_sample_count,
                    supported_sample_counts@,
                    other,
                ) == is_eligible(
                    config.requested_sample_count,
                    supported_sample_counts@,
                    other,
                ) by {}
        }
        Renderer {
            requested_sample_count: transition.requested_sample_count,
            effective_sample_count: transition.effective_sample_count,
            supported_sample_counts,
            depth: None,
            msaa_color: None,
            smaa: None,
        }
    }

    /// Which targets do not match a viewport of `size`.
    pub fn target_resize_plan(&self, size: (u32, u32)) -> (plan: TargetResizePlan)
        ensures
            plan == resize_plan(*self, size),
    {
        TargetResizePlan {
            recreate_depth: match self.depth {
                Some(depth) => depth.0 != size.0 || depth.1 != size.1,
                None => true,
            },
            recreate_msaa: self.effective_sample_count > 1 && match self.msaa_color {
                Some(target) => target.size.0 != size.0 || target.size.1 != size.1
                    || target.sample_count != self.effective_sample_count,
                None => true,
            },
            recreate_smaa: match &self.smaa {
                Some(pass) => match pass.targets_size() {
                    Some(targets) => targets.0 != size.0 || targets.1 != size.1,
                    None => true,
                },
                None => false,
            },
        }
    }

    /// Brings every target to `size`, and says which ones changed.
    pub fn ensure_targets(&mut self, size: (u32, u32)) -> (plan: TargetResizePlan)
        requires
            old(self).wf(),
        ensures
            final(self).wf(),
            plan == resize_plan(*old(self), size),
            *final(self) == with_targets(*old(self), size),
    {
        let plan = self.target_resize_plan(size);
        if plan.recreate_depth {
            self.depth = Some(size);
        }
        if plan.recreate_msaa {
            self.msaa_color = Some(
                MsaaColorTarget { size, sample_count: self.effective_sample_count },
            );
        }
        if plan.recreate_smaa {
            if let Some(_) = &self.smaa {
                self.smaa = Some(SmaaPass::with_targets(size));
            }
        }
        plan
    }

    /// Brings the targets to a new viewport. A zero-sized one changes nothing;
    /// false means that no target changed. Sample counts and the morphological
    /// pass stay as they are.
    pub fn resize(&mut self, size: (u32, u32)) -> (changed: bool)
        requires
            old(self).wf(),
        ensures
            final(self).wf(),
            changed == (size.0 != 0 && size.1 != 0 && *final(self) != *old(self)),
            *final(self) == (if size.0 == 0 || size.1 == 0 {
                *old(self)
            } else {
                with_targets(*old(self), size)
            }),
    {
        if size.0 == 0 || size.1 == 0 {
            return false;
        }
        let plan = self.target_resize_plan(size);
        if plan.is_empty() {
            proof {
                matching_targets_stay(*old(self), size);
            }
            return false;
        }
        self.ensure_targets(size);
        true
    }

    /// Releases the size-dependent targets while a window is minimized. The
    /// sample counts and the morphological pass stay.
    pub fn suspend(&mut self)
        requires
            old(self).wf(),
        ensures
            final(self).wf(),
            *final(self) == (Renderer {
                depth: None,
                msaa_color: None,
                smaa: match old(self).smaa {
                    Some(_) => Some(SmaaPass { targets: None }),
                    None => None,
                },
                ..*old(self)
            }),
    {
        self.depth = None;
        self.msaa_color = None;
        if let Some(_) = &self.smaa {
            self.smaa = Some(SmaaPass::without_targets());
        }
    }

    /// Requests another sample count between frames, and returns the effective
    /// one. When that changes, the pipelines that depend on it are to be
    /// rebuilt, and the next frame creates the targets anew.
    pub fn set_requested_sample_count(&mut self, requested: u32) -> (effective: u32)
        requires
            old(self).wf(),
        ensures
            final(self).wf(),
            final(self).requested_sample_count == sanitized(requested),
            final(self).supported_sample_counts == old(self).supported_sample_counts,
            final(self).smaa == old(self).smaa,
            effective == final(self).effective_sample_count,
            final(self).depth == (if effective != old(self).effective_sample_count {
                None
            } else {
                old(self).depth
            }),
            final(self).msaa_color == (if effective != old(self).effective_sample_count {
                None
            } else {
                old(self).msaa_color
            }),
    {
        let transition = sample_count_transition(
            requested,
            self.effective_sample_count,
            self.supported_sample_counts.as_slice(),
        );
        proof {
            assert forall|other: u32|
                is_eligible(
                    transition.requested_sample_count,
                    self.supported_sample_counts@,
                    other,
                ) == is_eligible(requested, self.supported_sample_counts@, other) by {}
        }
        self.requested_sample_count = transition.requested_sample_count;
        if !transition.rebuild_pipelines {
            return self.effective_sample_count;
        }
        self.effective_sample_count = transition.effective_sample_count;
        self.depth = None;
        self.msaa_color = None;
        transition.effective_sample_count
    }

    pub fn requested_sample_count(&self) -> (count: u32)
        ensures
            count == self.requested_sample_count,
    {
        self.requested_sample_count
    }

    pub fn effective_sample_count(&self) -> (count: u32)
        ensures
            count == self.effective_sample_count,
    {
        self.effective_sample_count
    }

    /// Whether the morphological pass is on.
    pub fn smaa_enabled(&self) -> (enabled: bool)
        ensures
            enabled == self.smaa is Some,
    {
        self.smaa.is_some()
    }

    /// Turns the morphological pass on or off between frames, and says whether
    /// anything changed. Turned on, it has no targets yet; nothing else
    /// changes.
    pub fn set_smaa_enabled(&mut self, enabled: bool) -> (changed: bool)
        requires
            old(self).wf(),
        ensures
            final(self).wf(),
            changed == (enabled != old(self).smaa is Some),
            *final(self) == (Renderer {
                smaa: if enabled == old(self).smaa is Some {
                    old(self).smaa
                } else if enabled {
                    Some(SmaaPass { targets: None })
                } else {
                    None
                },
                ..*old(self)
            }),
    {
        if enabled == self.smaa_enabled() {
            return false;
        }
        if enabled {
            self.smaa = Some(SmaaPass::without_targets());
        } else {
            self.smaa = None;
        }
        true
    }

    /// Starts a frame: brings the targets to the viewport and lists the passes.
    /// Nothing is drawn to a zero-sized viewport.
    pub fn begin_frame(&mut self, size: (u32, u32), has_viewmodel: bool, has_hud: bool) -> (passes:
        Option<FramePasses>)
        requires
            old(self).wf(),
        ensures
            final(self).wf(),
            *final(self) == (if size.0 == 0 || size.1 == 0 {
                *old(self)
            } else {
                with_targets(*old(self), size)
            }),
            passes == (if size.0 == 0 || size.1 == 0 {
                None
            } else {
                Some(frame_passes(with_targets(*old(self), size), has_viewmodel, has_hud))
            }),
    {
        if size.0 == 0 || size.1 == 0 {
            return None;
        }
        self.ensure_targets(size);
        let scene = if self.msaa_color.is_some() {
            ColorTarget::Msaa
        } else if self.smaa.is_some() {
            ColorTarget::Smaa
        } else {
            ColorTarget::Output
        };
        Some(
            FramePasses {
                scene,
                viewmodel: if has_viewmodel {
                    Some(scene)
                } else {
                    None
                },
                resolve: if self.msaa_color.is_some() {
                    Some(
                        if self.smaa.is_some() {
                            ColorTarget::Smaa
                        } else {
                            ColorTarget::Output
                        },
                    )
                } else {
                    None
                },
                smaa: self.smaa.is_some(),
                hud: has_hud,
            },
        )
    }
}

/// A frame whose models cannot be packed is drawn all the same: without models
/// and without the pass of the view model, and otherwise with the passes that it
/// would have had.
pub proof fn unpacked_frames_are_drawn_without_models(
    renderer: Renderer,
    instances: Seq<FrameInstance>,
    limits: FrameLimits,
    packed: Result<FramePlan, FrameError>,
    has_viewmodel: bool,
    has_hud: bool,
)
    requires
        match frame_error(instances, limits) {
            Some(error) => packed == Err::<FramePlan, FrameError>(error),
            None => packed is Ok,
        },
    ensures
        ({
            let (plan, shown) = drawn(packed, has_viewmodel);
            let whole = frame_passes(renderer, has_viewmodel, has_hud);
            let passes = frame_passes(renderer, shown, has_hud);
            match frame_error(instances, limits) {
                Some(_) => plan is None && passes == (FramePasses { viewmodel: None, ..whole }),
                None => plan == Some(packed->Ok_0) && passes == whole,
            }
        }),
{
}

proof fn matching_targets_stay(renderer: Renderer, size: (u32, u32))
    requires
        renderer.wf(),
        ({
            let plan = resize_plan(renderer, size);
            !plan.recreate_depth && !plan.recreate_msaa && !plan.recreate_smaa
        }),
    ensures
        with_targets(renderer, size) == renderer,
{
}

/// Bringing the targets to a viewport leaves none that does not match it: a
/// second resize to the same viewport changes nothing.
pub proof fn resizing_settles(renderer: Renderer, size: (u32, u32))
    requires
        renderer.wf(),
    ensures
        ({
            let plan = resize_plan(with_targets(renderer, size), size);
            !plan.recreate_depth && !plan.recreate_msaa && !plan.recreate_smaa
        }),
        with_targets(with_targets(renderer, size), size) == with_targets(renderer, size),
{
}

/// Minimizing and restoring a window gives the targets that a plain resize
/// gives.
pub proof fn restoring_equals_resizing(renderer: Renderer, suspended: Renderer, size: (u32, u32))
    requires
        renderer.wf(),
        suspended == (Renderer {
            depth: None,
            msaa_color: None,
            smaa: match renderer.smaa {
                Some(_) => Some(SmaaPass { targets: None }),
                None => None,
            },
            ..renderer
        }),
    ensures
        with_targets(suspended, size) == with_targets(renderer, size),
{
}

/// Where the 3D image is after each pass of a frame: the target that was drawn
/// into, then where the resolve put it, then the output once the morphological
/// pass has run.
pub open spec fn image_after(passes: FramePasses) -> ColorTarget {
    let resolved = match passes.resolve {
        Some(target) if passes.scene == ColorTarget::Msaa => target,
        _ => passes.scene,
    };
    if passes.smaa && resolved == ColorTarget::Smaa {
        ColorTarget::Output
    } else {
        resolved
    }
}

/// Whatever the anti-aliasing modes are, the 3D image of a frame ends in the
/// output, the view model is drawn over the scene, and the overlay is drawn
/// onto the single-sampled output.
pub proof fn every_frame_reaches_the_output(
    renderer: Renderer,
    size: (u32, u32),
    has_viewmodel: bool,
    has_hud: bool,
)
    requires
        renderer.wf(),
    ensures
        ({
            let passes = frame_passes(with_targets(renderer, size), has_viewmodel, has_hud);
            &&& image_after(passes) == ColorTarget::Output
            &&& passes.viewmodel matches Some(target) ==> target == passes.scene
            &&& passes.resolve is Some <==> passes.scene == ColorTarget::Msaa
            &&& passes.scene == ColorTarget::Msaa <==> renderer.effective_sample_count > 1
        }),
{
}

/// How a batch of the world is drawn.
#[derive(Clone, Copy, Debug, PartialEq, Eq, Structural)]
pub enum WorldBatchKind {
    Opaque,
    AlphaTest,
    Sky,
}

/// A draw of a batch, and whether the pipeline of its kind is bound before it.
#[derive(Clone, Copy, Debug, PartialEq, Eq, Structural)]
pub struct WorldDraw {
    pub batch: usize,
    pub bind_pipeline: bool,
}

/// The draws of the batches of one kind among the first `count`. The first of
/// them binds the pipeline.
pub open spec fn kind_draws(kinds: Seq<WorldBatchKind>, kind: WorldBatchKind, count: nat) -> Seq<
    WorldDraw,
>
    decreases count,
{
    if count == 0 {
        seq![]
    } else {
        let before = kind_draws(kinds, kind, (count - 1) as nat);
        if kinds[count - 1] == kind {
            before.push(
                WorldDraw { batch: (count - 1) as usize, bind_pipeline: before.len() == 0 },
            )
        } else {
            before
        }
    }
}

/// The draws of all batches: opaque ones, then alpha-tested ones, then sky.
pub open spec fn world_order(kinds: Seq<WorldBatchKind>) -> Seq<WorldDraw> {
    kind_draws(kinds, WorldBatchKind::Opaque, kinds.len()) + kind_draws(
        kinds,
        WorldBatchKind::AlphaTest,
        kinds.len(),
    ) + kind_draws(kinds, WorldBatchKind::Sky, kinds.len())
}

fn push_kind(kinds: &[WorldBatchKind], kind: WorldBatchKind, draws: &mut Vec<WorldDraw>)
    ensures
        final(draws)@ == old(draws)@ + kind_draws(kinds@, kind, kinds@.len()),
{
    let ghost before = draws@;
    let mut bound: bool = false;
    let mut b: usize = 0;
    assert(draws@ =~= before + kind_draws(kinds@, kind, 0));
    while b < kinds.len()
        invariant
            b <= kinds@.len(),
            draws@ == before + kind_draws(kinds@, kind, b as nat),
            bound == (kind_draws(kinds@, kind, b as nat).len() > 0),
        decreases kinds@.len() - b,
    {
        if kinds[b] == kind {
            draws.push(WorldDraw { batch: b, bind_pipeline: !bound });
            bound = true;
            assert(draws@ =~= before + kind_draws(kinds@, kind, (b + 1) as nat));
        }
        b += 1;
    }
}

/// The draws of the batches of a world, in order.
pub fn order_world_batches(kinds: &[WorldBatchKind]) -> (draws: Vec<WorldDraw>)
    ensures
        draws@ == world_order(kinds@),
{
    let mut draws: Vec<WorldDraw> = Vec::new();
    push_kind(kinds, WorldBatchKind::Opaque, &mut draws);
    push_kind(kinds, WorldBatchKind::AlphaTest, &mut draws);
    push_kind(kinds, WorldBatchKind::Sky, &mut draws);
    assert(draws@ =~= world_order(kinds@));
    draws
}

proof fn kinds_share_batches(kinds: Seq<WorldBatchKind>, count: nat)
    requires
        count <= kinds.len(),
    ensures
        kind_draws(kinds, WorldBatchKind::Opaque, count).len() + kind_draws(
            kinds,
            WorldBatchKind::AlphaTest,
            count,
        ).len() + kind_draws(kinds, WorldBatchKind::Sky, count).len() == count,
    decreases count,
{
    if count > 0 {
        kinds_share_batches(kinds, (count - 1) as nat);
    }
}

proof fn kind_draws_batch(kinds: Seq<WorldBatchKind>, batch: int, count: nat) -> (at: int)
    requires
        0 <= batch < count <= kinds.len(),
        kinds.len() <= usize::MAX,
    ensures
        0 <= at < kind_draws(kinds, kinds[batch], count).len(),
        kind_draws(kinds, kinds[batch], count)[at].batch == batch,
    decreases count,
{
    if batch == count - 1 {
        kind_draws(kinds, kinds[batch], count).len() - 1
    } else {
        kind_draws_batch(kinds, batch, (count - 1) as nat)
    }
}

/// Every batch of a world is drawn, and there are as many draws as batches.
pub proof fn every_batch_is_drawn_once(kinds: Seq<WorldBatchKind>, batch: int)
    requires
        0 <= batch < kinds.len() <= usize::MAX,
    ensures
        world_order(kinds).len() == kinds.len(),
        exists|at: int|
            0 <= at < world_order(kinds).len() && (#[trigger] world_order(kinds)[at]).batch
                == batch,
{
    kinds_share_batches(kinds, kinds.len());
    let at = kind_draws_batch(kinds, batch, kinds.len());
    let opaque = kind_draws(kinds, WorldBatchKind::Opaque, kinds.len()).len();
    let tested = kind_draws(kinds, WorldBatchKind::AlphaTest, kinds.len()).len();
    let place = match kinds[batch] {
        WorldBatchKind::Opaque => at,
        WorldBatchKind::AlphaTest => opaque + at,
        WorldBatchKind::Sky => opaque + tested + at,
    };
    assert(world_order(kinds)[place].batch == batch);
}

/// A request for one, two, four or eight samples stands; any other is for one.
pub proof fn other_requests_ask_for_one_sample(requested: u32)
    ensures
        requested == 1 || requested == 2 || requested == 4 || requested == 8 ==> sanitized(
            requested,
        ) == requested,
        requested != 1 && requested != 2 && requested != 4 && requested != 8 ==> sanitized(
            requested,
        ) == 1,
{
}

/// The selected sample count is the largest supported one that was asked for,
/// and one where none of those is supported.
pub proof fn the_largest_supported_count_is_selected(
    requested: u32,
    supported: Seq<u32>,
    count: u32,
    other: u32,
)
    requires
        is_selected(requested, supported, count),
    ensures
        count == 1 || count == 2 || count == 4 || count == 8,
        count == 1 || supported.contains(count),
        count == 1 || count <= requested,
        (other == 1 || other == 2 || other == 4 || other == 8) && supported.contains(other)
            && other <= requested && (requested == 1 || requested == 2 || requested == 4
            || requested == 8) ==> other <= count,
{
    if (other == 1 || other == 2 || other == 4 || other == 8) && supported.contains(other) && other
        <= requested && (requested == 1 || requested == 2 || requested == 4 || requested == 8) {
        assert(is_eligible(requested, supported, other));
    }
}

proof fn supported_up_to_facts(color: FormatSupport, depth: FormatSupport, limit: nat)
    requires
        limit <= 8,
    ensures
        ({
            let counts = supported_up_to(color, depth, limit);
            &&& forall|count: u32| #[trigger]
                counts.contains(count) <==> (count <= limit && is_candidate(count as int)
                    && is_supported(color, depth, count))
            &&& forall|i: int| 0 <= i < counts.len() ==> #[trigger] counts[i] <= limit
            &&& forall|i: int, j: int|
                0 <= i < j < counts.len() ==> #[trigger] counts[i] < #[trigger] counts[j]
        }),
    decreases limit,
{
    let counts = supported_up_to(color, depth, limit);
    if limit > 0 {
        let before = supported_up_to(color, depth, (limit - 1) as nat);
        supported_up_to_facts(color, depth, (limit - 1) as nat);
        assert forall|count: u32| #[trigger]
            counts.contains(count) <==> (count <= limit && is_candidate(count as int)
                && is_supported(color, depth, count)) by {
            if counts.contains(count) {
                let i = choose|i: int| 0 <= i < counts.len() && counts[i] == count;
                if i < before.len() {
                    assert(before[i] == count);
                    assert(before.contains(count));
                }
            }
            if count <= limit && is_candidate(count as int) && is_supported(color, depth, count) {
                if count == limit {
                    assert(counts[before.len() as int] == count);
                } else {
                    assert(before.contains(count));
                    let i = choose|i: int| 0 <= i < before.len() && before[i] == count;
                    assert(counts[i] == count);
                }
            }
        }
    }
}

/// A sample count is offered where the color and the depth target can both be
/// drawn to with it and a multisampled image can be resolved; the counts rise.
pub proof fn offered_counts_suit_both_targets(
    color: FormatSupport,
    depth: FormatSupport,
    count: u32,
    i: int,
    j: int,
)
    ensures
        ({
            let counts = supported_up_to(color, depth, 8);
            &&& counts.contains(count) <==> (count == 1 || count == 2 || count == 4 || count == 8)
                && color.renderable && depth.renderable && color.sample_counts@.contains(count)
                && depth.sample_counts@.contains(count) && (count == 1 || color.resolvable)
            &&& 0 <= i < j < counts.len() ==> counts[i] < counts[j]
        }),
{
    supported_up_to_facts(color, depth, 8);
}

/// A target is recreated exactly where bringing the targets to a viewport
/// changes it, and each target then has the size of the viewport.
pub proof fn changed_targets_are_recreated(renderer: Renderer, size: (u32, u32))
    requires
        renderer.wf(),
    ensures
        ({
            let plan = resize_plan(renderer, size);
            let after = with_targets(renderer, size);
            &&& plan.recreate_depth <==> after.depth != renderer.depth
            &&& plan.recreate_msaa <==> after.msaa_color != renderer.msaa_color
            &&& plan.recreate_smaa <==> after.smaa != renderer.smaa
            &&& after.depth == Some(size)
            &&& after.msaa_color is Some <==> renderer.effective_sample_count > 1
            &&& after.msaa_color matches Some(target) ==> target.size == size
                && target.sample_count == renderer.effective_sample_count
            &&& after.smaa is Some <==> renderer.smaa is Some
            &&& after.smaa matches Some(pass) ==> pass.targets == Some(size)
            &&& after.requested_sample_count == renderer.requested_sample_count
            &&& after.effective_sample_count == renderer.effective_sample_count
            &&& after.supported_sample_counts == renderer.supported_sample_counts
        }),
{
}

/// The scene is drawn into the multisampled target if there is one, else into
/// the input of the morphological pass if that is on, else into the output; a
/// multisampled image is resolved into the next of these.
pub proof fn scenes_are_drawn_into_the_first_target(
    renderer: Renderer,
    has_viewmodel: bool,
    has_hud: bool,
)
    ensures
        ({
            let passes = frame_passes(renderer, has_viewmodel, has_hud);
            &&& passes.scene is Msaa <==> renderer.msaa_color is Some
            &&& passes.scene is Smaa <==> renderer.msaa_color is None && renderer.smaa is Some
            &&& passes.resolve is Some <==> renderer.msaa_color is Some
            &&& passes.resolve matches Some(target) ==> (target is Smaa <==> renderer.smaa is Some)
                && (target is Output <==> renderer.smaa is None)
            &&& passes.viewmodel is Some <==> has_viewmodel
            &&& passes.viewmodel matches Some(target) ==> target == passes.scene
            &&& passes.smaa <==> renderer.smaa is Some
            &&& passes.hud <==> has_hud
        }),
{
}

proof fn kind_draws_facts(kinds: Seq<WorldBatchKind>, kind: WorldBatchKind, count: nat)
    requires
        count <= kinds.len() <= usize::MAX,
    ensures
        ({
            let draws = kind_draws(kinds, kind, count);
            &&& forall|i: int|
                0 <= i < draws.len() ==> {
                    &&& (#[trigger] draws[i]).batch < count
                    &&& kinds[draws[i].batch as int] == kind
                    &&& draws[i].bind_pipeline == (i == 0)
                }
            &&& forall|i: int, j: int|
                0 <= i < j < draws.len() ==> (#[trigger] draws[i]).batch < (
                #[trigger] draws[j]).batch
        }),
    decreases count,
{
    if count > 0 {
        kind_draws_facts(kinds, kind, (count - 1) as nat);
    }
}

/// The opaque batches of a world are drawn first, then the tested ones, then the
/// sky; those of a kind in their order. The pipeline of a kind is bound once,
/// before its first batch.
pub proof fn batches_are_drawn_by_kind(kinds: Seq<WorldBatchKind>, first: int, second: int)
    requires
        kinds.len() <= usize::MAX,
        0 <= first < second < world_order(kinds).len(),
    ensures
        ({
            let (a, b) = (world_order(kinds)[first], world_order(kinds)[second]);
            &&& a.batch < kinds.len()
            &&& b.batch < kinds.len()
            &&& kinds[b.batch as int] is Opaque ==> kinds[a.batch as int] is Opaque
            &&& kinds[a.batch as int] is Sky ==> kinds[b.batch as int] is Sky
            &&& kinds[a.batch as int] == kinds[b.batch as int] ==> a.batch < b.batch
                && !b.bind_pipeline
            &&& first == 0 ==> a.bind_pipeline
            &&& second == first + 1 && kinds[a.batch as int] != kinds[b.batch as int]
                ==> b.bind_pipeline
        }),
{
    let opaque = kind_draws(kinds, WorldBatchKind::Opaque, kinds.len());
    let tested = kind_draws(kinds, WorldBatchKind::AlphaTest, kinds.len());
    let sky = kind_draws(kinds, WorldBatchKind::Sky, kinds.len());
    kind_draws_facts(kinds, WorldBatchKind::Opaque, kinds.len());
    kind_draws_facts(kinds, WorldBatchKind::AlphaTest, kinds.len());
    kind_draws_facts(kinds, WorldBatchKind::Sky, kinds.len());
    let order = world_order(kinds);
    assert forall|i: int| 0 <= i < order.len() implies #[trigger] order[i] == (if i
        < opaque.len() {
        opaque[i]
    } else if i < opaque.len() + tested.len() {
        tested[i - opaque.len()]
    } else {
        sky[i - opaque.len() - tested.len()]
    }) by {}
    assert(order[first] == order[first]);
    assert(order[second] == order[second]);
}

} // verus!
