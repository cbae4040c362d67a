//! The order and the pipelines in which the primitives of a frame are drawn.

use std::cmp::Ordering;
use vstd::prelude::*;
use vstd::slice::slice_subrange;

use crate::material::{
    drawing_order_is_strict, drawn_before, faded_phase, family_of, is_blended, MaterialPipelineKey,
    MaterialRenderPass, PipelineCullMode, PipelineShadingModel, RenderPassClass, RenderPhase,
    RenderSortKey,
};
use crate::scalar::{clamped_scalar, equal, is_finite, is_nan, less, less_or_equal, Scalar};

verus! {

/// The opacity that an instance is shown with: non-finite values are opaque,
/// others are held between zero and one.
pub open spec fn shown_alpha(alpha: Scalar) -> Scalar {
    clamped_scalar(
        if is_finite(alpha) {
            alpha
        } else {
            Scalar { bits: 0x3f80_0000 }
        },
        Scalar { bits: 0 },
        Scalar { bits: 0x3f80_0000 },
    )
}

/// The opacity that an instance is shown with.
pub fn presentation_alpha(alpha: Scalar) -> (shown: Scalar)
    ensures
        shown == shown_alpha(alpha),
{
    alpha.finite_or(Scalar::one()).clamp(Scalar::zero(), Scalar::one())
}

/// A shown opacity is a number from zero to one.
pub proof fn shown_alpha_is_bounded(alpha: Scalar)
    ensures
        !is_nan(shown_alpha(alpha)),
        less_or_equal(Scalar { bits: 0 }, shown_alpha(alpha)),
        less_or_equal(shown_alpha(alpha), Scalar { bits: 0x3f80_0000 }),
{
}

/// How a primitive is drawn.
#[derive(Clone, Copy, Debug, PartialEq, Eq, Structural)]
pub struct DrawRoute {
    /// Whether the toon shader draws it.
    pub native: bool,
    pub phase: RenderPhase,
    pub queue_offset: i32,
    /// Whether its outline follows.
    pub outline: bool,
}

/// A primitive of a draw.
#[derive(Clone, Copy, Debug, PartialEq)]
pub struct DrawnPrimitive {
    pub route: DrawRoute,
    /// How far its rest bounds are in front of the camera.
    pub camera_depth: Scalar,
}

/// A model instance of a frame.
#[derive(Debug)]
pub struct ModelDraw {
    pub presentation_alpha: Scalar,
    pub primitives: Vec<DrawnPrimitive>,
}

/// A primitive in the drawing order.
#[derive(Clone, Copy, Debug, PartialEq)]
pub struct ModelSubmission {
    pub draw_index: usize,
    pub primitive_index: usize,
    pub sort_key: RenderSortKey,
}

/// The number of primitives of the first `count` draws.
pub open spec fn drawn_total(draws: Seq<ModelDraw>, count: nat) -> nat
    decreases count,
{
    if count == 0 {
        0
    } else {
        drawn_total(draws, (count - 1) as nat) + draws[count - 1].primitives@.len()
    }
}

/// The submission of primitive `p` of draw `d`: its authored place counts the
/// primitives of hidden draws too, and only blended surfaces have a depth.
pub open spec fn submission(draws: Seq<ModelDraw>, d: int, p: int) -> ModelSubmission {
    let primitive = draws[d].primitives@[p];
    let phase = faded_phase(primitive.route.phase, draws[d].presentation_alpha);
    ModelSubmission {
        draw_index: d as usize,
        primitive_index: p as usize,
        sort_key: RenderSortKey {
            phase,
            queue_offset: primitive.route.queue_offset,
            camera_depth: if is_blended(phase) {
                primitive.camera_depth
            } else {
                Scalar { bits: 0 }
            },
            author_draw_order: (drawn_total(draws, d as nat) + p) as u64,
        },
    }
}

/// Whether a draw is invisible.
pub open spec fn is_hidden(draw: ModelDraw) -> bool {
    equal(draw.presentation_alpha, Scalar { bits: 0 })
}

/// The submissions of the first `count` primitives of draw `d`.
pub open spec fn draw_submissions(draws: Seq<ModelDraw>, d: int, count: nat) -> Seq<
    ModelSubmission,
> {
    if is_hidden(draws[d]) {
        Seq::empty()
    } else {
        Seq::new(count, |p: int| submission(draws, d, p))
    }
}

/// The submissions of the first `count` draws in authored order.
pub open spec fn authored_submissions(draws: Seq<ModelDraw>, count: nat) -> Seq<ModelSubmission>
    decreases count,
{
    if count == 0 {
        Seq::empty()
    } else {
        authored_submissions(draws, (count - 1) as nat) + draw_submissions(
            draws,
            count - 1,
            draws[count - 1].primitives@.len(),
        )
    }
}

/// Whether `a` need not be drawn after `b`.
pub open spec fn may_precede(a: ModelSubmission, b: ModelSubmission) -> bool {
    !drawn_before(b.sort_key, a.sort_key)
}

/// Whether submissions follow the drawing order.
pub open spec fn in_drawing_order(list: Seq<ModelSubmission>) -> bool {
    forall|i: int, j: int| 0 <= i < j < list.len() ==> #[trigger] may_precede(list[i], list[j])
}

/// Whether each submission is drawn before those that follow it.
pub open spec fn strictly_ordered(list: Seq<ModelSubmission>) -> bool {
    forall|i: int, j: int|
        0 <= i < j < list.len() ==> drawn_before(
            (#[trigger] list[i]).sort_key,
            (#[trigger] list[j]).sort_key,
        )
}

proof fn precedence_is_transitive(a: ModelSubmission, b: ModelSubmission, c: ModelSubmission)
    requires
        may_precede(a, b),
        may_precede(b, c),
    ensures
        may_precede(a, c),
{
}

fn goes_first(a: &ModelSubmission, b: &ModelSubmission) -> (first: bool)
    ensures
        first == drawn_before(a.sort_key, b.sort_key),
{
    match a.sort_key.compare(&b.sort_key) {
        Ordering::Less => true,
        _ => false,
    }
}

proof fn taking_one_more(list: Seq<ModelSubmission>, i: int)
    requires
        0 <= i < list.len(),
    ensures
        list.take(i + 1).to_multiset() =~= list.take(i).to_multiset().insert(list[i]),
{
    assert(list.take(i + 1) =~= list.take(i).push(list[i]));
    list.take(i).to_multiset_ensures();
}

/// Merges two lists in drawing order.
fn merge(a: &[ModelSubmission], b: &[ModelSubmission]) -> (merged: Vec<ModelSubmission>)
    requires
        in_drawing_order(a@),
        in_drawing_order(b@),
    ensures
        in_drawing_order(merged@),
        merged@.to_multiset() =~= a@.to_multiset().add(b@.to_multiset()),
{
    broadcast use vstd::multiset::group_multiset_axioms;

    let mut merged: Vec<ModelSubmission> = Vec::new();
    let mut i: usize = 0;
    let mut j: usize = 0;
    proof {
        assert(a@.take(0) =~= Seq::empty());
        assert(b@.take(0) =~= Seq::empty());
        assert(merged@ =~= Seq::empty());
        Seq::<ModelSubmission>::empty().to_multiset_ensures();
    }
    while i < a.len() || j < b.len()
        invariant
            i <= a@.len(),
            j <= b@.len(),
            in_drawing_order(a@),
            in_drawing_order(b@),
            in_drawing_order(merged@),
            merged@.to_multiset() =~= a@.take(i as int).to_multiset().add(
                b@.take(j as int).to_multiset(),
            ),
            forall|k: int, m: int|
                0 <= k < merged@.len() && i <= m < a@.len() ==> #[trigger] may_precede(
                    merged@[k],
                    a@[m],
                ),
            forall|k: int, m: int|
                0 <= k < merged@.len() && j <= m < b@.len() ==> #[trigger] may_precede(
                    merged@[k],
                    b@[m],
                ),
        decreases a@.len() - i + (b@.len() - j),
    {
        let ghost before = merged@;
        if i < a.len() && (j >= b.len() || !goes_first(&b[j], &a[i])) {
            let next = a[i];
            proof {
                taking_one_more(a@, i as int);
                before.to_multiset_ensures();
                assert forall|m: int| j <= m < b@.len() implies #[trigger] may_precede(
                    next,
                    b@[m],
                ) by {
                    if m > j {
                        assert(may_precede(b@[j as int], b@[m]));
                        precedence_is_transitive(next, b@[j as int], b@[m]);
                    }
                }
                assert forall|m: int| i < m < a@.len() implies #[trigger] may_precede(
                    next,
                    a@[m],
                ) by {
                    assert(may_precede(a@[i as int], a@[m]));
                }
                assert(forall|k: int|
                    0 <= k < before.len() ==> #[trigger] may_precede(before[k], a@[i as int]));
            }
            merged.push(next);
            i += 1;
        } else {
            let next = b[j];
            proof {
                taking_one_more(b@, j as int);
                before.to_multiset_ensures();
                assert forall|m: int| i <= m < a@.len() implies #[trigger] may_precede(
                    next,
                    a@[m],
                ) by {
                    drawing_order_is_strict(
                        next.sort_key,
                        a@[i as int].sort_key,
                        a@[i as int].sort_key,
                    );
                    assert(may_precede(next, a@[i as int]));
                    if m > i {
                        assert(may_precede(a@[i as int], a@[m]));
                        precedence_is_transitive(next, a@[i as int], a@[m]);
                    }
                }
                assert forall|m: int| j < m < b@.len() implies #[trigger] may_precede(
                    next,
                    b@[m],
                ) by {
                    assert(may_precede(b@[j as int], b@[m]));
                }
                assert(forall|k: int|
                    0 <= k < before.len() ==> #[trigger] may_precede(before[k], b@[j as int]));
            }
            merged.push(next);
            j += 1;
        }
    }
    assert(a@.take(i as int) =~= a@);
    assert(b@.take(j as int) =~= b@);
    merged
}

/// The submissions from `from` to `to` in drawing order.
fn sorted_between(list: &[ModelSubmission], from: usize, to: usize) -> (sorted: Vec<
    ModelSubmission,
>)
    requires
        from <= to <= list@.len(),
    ensures
        in_drawing_order(sorted@),
        sorted@.to_multiset() =~= list@.subrange(from as int, to as int).to_multiset(),
    decreases to - from,
{
    if to - from == 0 {
        let none: Vec<ModelSubmission> = Vec::new();
        assert(none@ =~= list@.subrange(from as int, to as int));
        return none;
    }
    if to - from == 1 {
        let mut single: Vec<ModelSubmission> = Vec::new();
        single.push(list[from]);
        assert(single@ =~= list@.subrange(from as int, to as int));
        return single;
    }
    let middle: usize = from + (to - from) / 2;
    let left = sorted_between(list, from, middle);
    let right = sorted_between(list, middle, to);
    proof {
        let all = list@.subrange(from as int, to as int);
        let first = list@.subrange(from as int, middle as int);
        let second = list@.subrange(middle as int, to as int);
        assert(all =~= first + second);
        vstd::seq_lib::lemma_multiset_commutative(first, second);
    }
    merge(left.as_slice(), right.as_slice())
}

proof fn drawn_totals_grow(draws: Seq<ModelDraw>, earlier: nat, count: nat)
    requires
        earlier <= count,
    ensures
        drawn_total(draws, earlier) <= drawn_total(draws, count),
    decreases count,
{
    if earlier < count {
        drawn_totals_grow(draws, earlier, (count - 1) as nat);
    }
}

/// Authored places of listed submissions are distinct and increase.
proof fn authored_places_increase(draws: Seq<ModelDraw>, count: nat)
    requires
        count <= draws.len(),
        drawn_total(draws, draws.len()) <= u64::MAX,
    ensures
        forall|i: int|
            0 <= i < authored_submissions(draws, count).len()
                ==> (#[trigger] authored_submissions(draws, count)[i]).sort_key.author_draw_order
                < drawn_total(draws, count),
        forall|i: int, j: int|
            0 <= i < j < authored_submissions(draws, count).len() ==> (
            #[trigger] authored_submissions(draws, count)[i]).sort_key.author_draw_order < (
            #[trigger] authored_submissions(draws, count)[j]).sort_key.author_draw_order,
    decreases count,
{
    if count > 0 {
        authored_places_increase(draws, (count - 1) as nat);
        drawn_totals_grow(draws, count, draws.len());
        drawn_totals_grow(draws, (count - 1) as nat, draws.len());
        let before = authored_submissions(draws, (count - 1) as nat);
        let last = draw_submissions(draws, count - 1, draws[count - 1].primitives@.len());
        let all = authored_submissions(draws, count);
        assert(all =~= before + last);
        assert forall|i: int| 0 <= i < all.len() implies (
        #[trigger] all[i]).sort_key.author_draw_order < drawn_total(draws, count) by {
            if i < before.len() {
                assert(all[i] == before[i]);
            } else {
                assert(all[i] == last[i - before.len()]);
            }
        }
        assert forall|i: int, j: int| 0 <= i < j < all.len() implies (
        #[trigger] all[i]).sort_key.author_draw_order < (
        #[trigger] all[j]).sort_key.author_draw_order by {
            if j < before.len() {
                assert(all[i] == before[i] && all[j] == before[j]);
            } else {
                assert(all[j] == last[j - before.len()]);
                if i < before.len() {
                    assert(all[i] == before[i]);
                } else {
                    assert(all[i] == last[i - before.len()]);
                }
            }
        }
    }
}

/// A list in drawing order whose authored places are distinct has only one
/// order.
proof fn distinct_places_order_strictly(list: Seq<ModelSubmission>, authored: Seq<ModelSubmission>)
    requires
        in_drawing_order(list),
        list.to_multiset() =~= authored.to_multiset(),
        forall|i: int, j: int|
            0 <= i < j < authored.len() ==> (#[trigger] authored[i]).sort_key.author_draw_order < (
            #[trigger] authored[j]).sort_key.author_draw_order,
    ensures
        strictly_ordered(list),
{
    broadcast use vstd::multiset::group_multiset_axioms;

    assert(authored.no_duplicates()) by {
        assert forall|i: int, j: int|
            0 <= i < authored.len() && 0 <= j < authored.len() && i != j implies authored[i]
            != authored[j] by {
            if i < j {
                assert(authored[i].sort_key.author_draw_order
                    < authored[j].sort_key.author_draw_order);
            } else {
                assert(authored[j].sort_key.author_draw_order
                    < authored[i].sort_key.author_draw_order);
            }
        }
    }
    authored.lemma_multiset_has_no_duplicates();
    list.lemma_multiset_has_no_duplicates_conv();
    assert forall|i: int, j: int| 0 <= i < j < list.len() implies drawn_before(
        (#[trigger] list[i]).sort_key,
        (#[trigger] list[j]).sort_key,
    ) by {
        let a = list[i];
        let b = list[j];
        assert(may_precede(a, b));
        assert(a != b);
        list.to_multiset_ensures();
        authored.to_multiset_ensures();
        assert(list.contains(a) && list.contains(b));
        assert(list.to_multiset().count(a) > 0 && list.to_multiset().count(b) > 0);
        assert(authored.to_multiset().count(a) > 0 && authored.to_multiset().count(b) > 0);
        assert(authored.contains(a) && authored.contains(b));
        let p = authored.index_of(a);
        let q = authored.index_of(b);
        assert(authored[p] == a && authored[q] == b);
        assert(a.sort_key.author_draw_order != b.sort_key.author_draw_order) by {
            if p < q {
                assert(authored[p].sort_key.author_draw_order
                    < authored[q].sort_key.author_draw_order);
            } else {
                assert(q < p);
                assert(authored[q].sort_key.author_draw_order
                    < authored[p].sort_key.author_draw_order);
            }
        }
        drawing_order_is_strict(a.sort_key, b.sort_key, b.sort_key);
    }
}

/// Whether `list` holds the primitives of the visible draws in drawing order.
pub open spec fn are_submissions(draws: Seq<ModelDraw>, list: Seq<ModelSubmission>) -> bool {
    &&& strictly_ordered(list)
    &&& list.to_multiset() =~= authored_submissions(draws, draws.len()).to_multiset()
}

/// The primitives of visible draws in drawing order. One list spans all draws,
/// so that blended primitives of different models sort against each other.
pub fn collect_submissions(draws: &[ModelDraw]) -> (list: Vec<ModelSubmission>)
    requires
        drawn_total(draws@, draws@.len()) <= u64::MAX,
    ensures
        are_submissions(draws@, list@),
{
    let mut authored: Vec<ModelSubmission> = Vec::new();
    let mut author_draw_order: u64 = 0;
    let mut d: usize = 0;
    while d < draws.len()
        invariant
            d <= draws@.len(),
            drawn_total(draws@, draws@.len()) <= u64::MAX,
            author_draw_order == drawn_total(draws@, d as nat),
            authored@ == authored_submissions(draws@, d as nat),
        decreases draws@.len() - d,
    {
        let draw = &draws[d];
        let ghost before = authored@;
        proof {
            drawn_totals_grow(draws@, (d + 1) as nat, draws@.len());
        }
        if !draw.presentation_alpha.equal(Scalar::zero()) {
            let mut p: usize = 0;
            while p < draw.primitives.len()
                invariant
                    p <= draw.primitives@.len(),
                    d < draws@.len(),
                    *draw == draws@[d as int],
                    !is_hidden(*draw),
                    author_draw_order + draw.primitives@.len() <= u64::MAX,
                    author_draw_order == drawn_total(draws@, d as nat),
                    authored@ == before + draw_submissions(draws@, d as int, p as nat),
                decreases draw.primitives@.len() - p,
            {
                let primitive = draw.primitives[p];
                let phase = primitive.route.phase.with_presentation_alpha(draw.presentation_alpha);
                let camera_depth = if phase.pass_class() == RenderPassClass::Blend {
                    primitive.camera_depth
                } else {
                    Scalar::zero()
                };
                authored.push(
                    ModelSubmission {
                        draw_index: d,
                        primitive_index: p,
                        sort_key: RenderSortKey {
                            phase,
                            queue_offset: primitive.route.queue_offset,
                            camera_depth,
                            author_draw_order: author_draw_order + p as u64,
                        },
                    },
                );
                proof {
                    let some = draw_submissions(draws@, d as int, p as nat);
                    let more = draw_submissions(draws@, d as int, (p + 1) as nat);
                    assert(more =~= some.push(submission(draws@, d as int, p as int)));
                    assert(authored@ =~= before + more);
                }
                p += 1;
            }
        } else {
            assert(authored@ =~= before + draw_submissions(
                draws@,
                d as int,
                draws@[d as int].primitives@.len(),
            ));
        }
        author_draw_order = author_draw_order + draw.primitives.len() as u64;
        d += 1;
    }
    let list = sorted_between(authored.as_slice(), 0, authored.len());
    proof {
        assert(authored@.subrange(0, authored@.len() as int) =~= authored@);
        authored_places_increase(draws@, draws@.len());
        distinct_places_order_strictly(list@, authored@);
    }
    list
}

/// The draws of a frame that belong to the scene: all but the last one, where
/// that is the view model.
pub open spec fn scene_draws(draws: Seq<ModelDraw>, has_viewmodel: bool) -> Seq<ModelDraw> {
    if has_viewmodel && draws.len() > 0 {
        draws.take(draws.len() - 1)
    } else {
        draws
    }
}

/// The lists of a frame: that of the scene, and that of the view model, which is
/// drawn in a pass of its own.
pub fn collect_frame(draws: &[ModelDraw], has_viewmodel: bool) -> (lists: (
    Vec<ModelSubmission>,
    Vec<ModelSubmission>,
))
    requires
        drawn_total(draws@, draws@.len()) <= u64::MAX,
    ensures
        are_submissions(scene_draws(draws@, has_viewmodel), lists.0@),
        are_submissions(
            draws@.skip(scene_draws(draws@, has_viewmodel).len() as int),
            lists.1@,
        ),
{
    let scene: usize = if has_viewmodel && draws.len() > 0 {
        draws.len() - 1
    } else {
        draws.len()
    };
    let front = slice_subrange(draws, 0, scene);
    let back = slice_subrange(draws, scene, draws.len());
    proof {
        assert(front@ =~= scene_draws(draws@, has_viewmodel));
        assert(back@ =~= draws@.skip(scene as int));
        totals_of_parts(draws@, front@, scene as nat);
        if scene < draws@.len() {
            assert(drawn_total(back@, 1) == draws@[scene as int].primitives@.len()) by {
                reveal_with_fuel(drawn_total, 2);
                assert(back@[0] == draws@[scene as int]);
            }
            assert(drawn_total(draws@, draws@.len()) == drawn_total(draws@, scene as nat)
                + draws@[scene as int].primitives@.len());
        }
        drawn_totals_grow(draws@, scene as nat, draws@.len());
    }
    (collect_submissions(front), collect_submissions(back))
}

proof fn totals_of_parts(draws: Seq<ModelDraw>, front: Seq<ModelDraw>, count: nat)
    requires
        count <= front.len() <= draws.len(),
        front =~= draws.take(front.len() as int),
    ensures
        drawn_total(front, count) == drawn_total(draws, count),
    decreases count,
{
    if count > 0 {
        totals_of_parts(draws, front, (count - 1) as nat);
        assert(front[count - 1] == draws[count - 1]);
    }
}

/// There is only one drawing order: two strictly ordered lists of the same
/// submissions are the same list.
pub proof fn drawing_order_is_unique(a: Seq<ModelSubmission>, b: Seq<ModelSubmission>)
    requires
        strictly_ordered(a),
        strictly_ordered(b),
        a.to_multiset() =~= b.to_multiset(),
    ensures
        a == b,
    decreases a.len(),
{
    broadcast use vstd::multiset::group_multiset_axioms;

    a.to_multiset_ensures();
    b.to_multiset_ensures();
    assert(a.len() == b.len());
    if a.len() == 0 {
        assert(a =~= b);
    } else {
        let first = a[0];
        assert(a.contains(first));
        assert(b.to_multiset().count(first) > 0);
        assert(b.contains(first));
        let at = b.index_of(first);
        if at != 0 {
            assert(drawn_before(b[0].sort_key, b[at].sort_key));
            let other = b[0];
            assert(b.contains(other));
            assert(a.to_multiset().count(other) > 0);
            assert(a.contains(other));
            let place = a.index_of(other);
            drawing_order_is_strict(other.sort_key, first.sort_key, first.sort_key);
            assert(place != 0);
            assert(drawn_before(a[0].sort_key, a[place].sort_key));
            assert(false);
        }
        let a_rest = a.remove(0);
        let b_rest = b.remove(0);
        assert(a_rest.to_multiset() =~= b_rest.to_multiset());
        assert forall|i: int, j: int| 0 <= i < j < a_rest.len() implies drawn_before(
            (#[trigger] a_rest[i]).sort_key,
            (#[trigger] a_rest[j]).sort_key,
        ) by {
            assert(drawn_before(a[i + 1].sort_key, a[j + 1].sort_key));
        }
        assert forall|i: int, j: int| 0 <= i < j < b_rest.len() implies drawn_before(
            (#[trigger] b_rest[i]).sort_key,
            (#[trigger] b_rest[j]).sort_key,
        ) by {
            assert(drawn_before(b[i + 1].sort_key, b[j + 1].sort_key));
        }
        drawing_order_is_unique(a_rest, b_rest);
        assert(a =~= seq![first] + a_rest);
        assert(b =~= seq![first] + b_rest);
    }
}

/// The pipelines that draw models.
#[derive(Clone, Copy, Debug, PartialEq, Eq, Structural)]
pub enum ModelPipeline {
    Opaque,
    OpaqueDoubleSided,
    Blend,
    BlendDoubleSided,
    BlendZWrite,
    BlendZWriteDoubleSided,
    MtoonOpaque,
    MtoonOpaqueDoubleSided,
    MtoonMask,
    MtoonMaskDoubleSided,
    MtoonBlendZWrite,
    MtoonBlendZWriteDoubleSided,
    MtoonBlend,
    MtoonBlendDoubleSided,
    MtoonOutlineOpaque,
    MtoonOutlineMask,
    MtoonOutlineBlendZWrite,
    MtoonOutlineBlend,
}

/// What a pipeline has to do: its key without the sample count, except that
/// lit and unlit surfaces share a pipeline and cutouts of toon surfaces have
/// their own.
#[derive(Clone, Copy, Debug, PartialEq, Eq, Structural)]
pub struct PipelineFeatures {
    pub mtoon: bool,
    pub phase: RenderPhase,
    pub cull_mode: PipelineCullMode,
    pub render_pass: MaterialRenderPass,
}

/// What each pipeline does. Lit and unlit cutouts are discarded in the opaque
/// pipeline.
pub open spec fn features(pipeline: ModelPipeline) -> PipelineFeatures {
    let surface = |mtoon: bool, phase: RenderPhase, double_sided: bool|
        PipelineFeatures {
            mtoon,
            phase,
            cull_mode: if double_sided {
                PipelineCullMode::Off
            } else {
                PipelineCullMode::Back
            },
            render_pass: MaterialRenderPass::Surface,
        };
    let outline = |phase: RenderPhase|
        PipelineFeatures {
            mtoon: true,
            phase,
            cull_mode: PipelineCullMode::Front,
            render_pass: MaterialRenderPass::Outline,
        };
    match pipeline {
        ModelPipeline::Opaque => surface(false, RenderPhase::Opaque, false),
        ModelPipeline::OpaqueDoubleSided => surface(false, RenderPhase::Opaque, true),
        ModelPipeline::Blend => surface(false, RenderPhase::Blend, false),
        ModelPipeline::BlendDoubleSided => surface(false, RenderPhase::Blend, true),
        ModelPipeline::BlendZWrite => surface(false, RenderPhase::MtoonBlendZWrite, false),
        ModelPipeline::BlendZWriteDoubleSided => surface(
            false,
            RenderPhase::MtoonBlendZWrite,
            true,
        ),
        ModelPipeline::MtoonOpaque => surface(true, RenderPhase::Opaque, false),
        ModelPipeline::MtoonOpaqueDoubleSided => surface(true, RenderPhase::Opaque, true),
        ModelPipeline::MtoonMask => surface(true, RenderPhase::Mask, false),
        ModelPipeline::MtoonMaskDoubleSided => surface(true, RenderPhase::Mask, true),
        ModelPipeline::MtoonBlendZWrite => surface(true, RenderPhase::MtoonBlendZWrite, false),
        ModelPipeline::MtoonBlendZWriteDoubleSided => surface(
            true,
            RenderPhase::MtoonBlendZWrite,
            true,
        ),
        ModelPipeline::MtoonBlend => surface(true, RenderPhase::Blend, false),
        ModelPipeline::MtoonBlendDoubleSided => surface(true, RenderPhase::Blend, true),
        ModelPipeline::MtoonOutlineOpaque => outline(RenderPhase::Opaque),
        ModelPipeline::MtoonOutlineMask => outline(RenderPhase::Mask),
        ModelPipeline::MtoonOutlineBlendZWrite => outline(RenderPhase::MtoonBlendZWrite),
        ModelPipeline::MtoonOutlineBlend => outline(RenderPhase::Blend),
    }
}

/// Every pipeline.
pub open spec fn all_pipelines() -> Seq<ModelPipeline> {
    seq![
        ModelPipeline::Opaque,
        ModelPipeline::OpaqueDoubleSided,
        ModelPipeline::Blend,
        ModelPipeline::BlendDoubleSided,
        ModelPipeline::BlendZWrite,
        ModelPipeline::BlendZWriteDoubleSided,
        ModelPipeline::MtoonOpaque,
        ModelPipeline::MtoonOpaqueDoubleSided,
        ModelPipeline::MtoonMask,
        ModelPipeline::MtoonMaskDoubleSided,
        ModelPipeline::MtoonBlendZWrite,
        ModelPipeline::MtoonBlendZWriteDoubleSided,
        ModelPipeline::MtoonBlend,
        ModelPipeline::MtoonBlendDoubleSided,
        ModelPipeline::MtoonOutlineOpaque,
        ModelPipeline::MtoonOutlineMask,
        ModelPipeline::MtoonOutlineBlendZWrite,
        ModelPipeline::MtoonOutlineBlend,
    ]
}

/// Whether surfaces of a phase hide what is drawn behind them later.
pub open spec fn writes_depth(phase: RenderPhase) -> bool {
    phase != RenderPhase::Blend
}

impl PipelineFeatures {
    /// Whether the pipeline blends with what is behind.
    pub fn blends(self) -> (blends: bool)
        ensures
            blends == is_blended(self.phase),
    {
        match self.phase {
            RenderPhase::Blend | RenderPhase::MtoonBlendZWrite => true,
            RenderPhase::Opaque | RenderPhase::Mask => false,
        }
    }

    /// Whether the pipeline writes depth.
    pub fn writes_depth(self) -> (writes: bool)
        ensures
            writes == writes_depth(self.phase),
    {
        self.phase != RenderPhase::Blend
    }
}

/// Every pipeline, to be made at the start.
pub fn model_pipelines() -> (pipelines: Vec<ModelPipeline>)
    ensures
        pipelines@ == all_pipelines(),
{
    let pipelines = vec![
        ModelPipeline::Opaque,
        ModelPipeline::OpaqueDoubleSided,
        ModelPipeline::Blend,
        ModelPipeline::BlendDoubleSided,
        ModelPipeline::BlendZWrite,
        ModelPipeline::BlendZWriteDoubleSided,
        ModelPipeline::MtoonOpaque,
        ModelPipeline::MtoonOpaqueDoubleSided,
        ModelPipeline::MtoonMask,
        ModelPipeline::MtoonMaskDoubleSided,
        ModelPipeline::MtoonBlendZWrite,
        ModelPipeline::MtoonBlendZWriteDoubleSided,
        ModelPipeline::MtoonBlend,
        ModelPipeline::MtoonBlendDoubleSided,
        ModelPipeline::MtoonOutlineOpaque,
        ModelPipeline::MtoonOutlineMask,
        ModelPipeline::MtoonOutlineBlendZWrite,
        ModelPipeline::MtoonOutlineBlend,
    ];
    assert(pipelines@ =~= all_pipelines());
    pipelines
}

impl ModelPipeline {
    /// What the pipeline does.
    pub fn features(self) -> (found: PipelineFeatures)
        ensures
            found == features(self),
    {
        match self {
            ModelPipeline::Opaque => surface(false, RenderPhase::Opaque, false),
            ModelPipeline::OpaqueDoubleSided => surface(false, RenderPhase::Opaque, true),
            ModelPipeline::Blend => surface(false, RenderPhase::Blend, false),
            ModelPipeline::BlendDoubleSided => surface(false, RenderPhase::Blend, true),
            ModelPipeline::BlendZWrite => surface(false, RenderPhase::MtoonBlendZWrite, false),
            ModelPipeline::BlendZWriteDoubleSided => surface(
                false,
                RenderPhase::MtoonBlendZWrite,
                true,
            ),
            ModelPipeline::MtoonOpaque => surface(true, RenderPhase::Opaque, false),
            ModelPipeline::MtoonOpaqueDoubleSided => surface(true, RenderPhase::Opaque, true),
            ModelPipeline::MtoonMask => surface(true, RenderPhase::Mask, false),
            ModelPipeline::MtoonMaskDoubleSided => surface(true, RenderPhase::Mask, true),
            ModelPipeline::MtoonBlendZWrite => surface(true, RenderPhase::MtoonBlendZWrite, false),
            ModelPipeline::MtoonBlendZWriteDoubleSided => surface(
                true,
                RenderPhase::MtoonBlendZWrite,
                true,
            ),
            ModelPipeline::MtoonBlend => surface(true, RenderPhase::Blend, false),
            ModelPipeline::MtoonBlendDoubleSided => surface(true, RenderPhase::Blend, true),
            ModelPipeline::MtoonOutlineOpaque => outline(RenderPhase::Opaque),
            ModelPipeline::MtoonOutlineMask => outline(RenderPhase::Mask),
            ModelPipeline::MtoonOutlineBlendZWrite => outline(RenderPhase::MtoonBlendZWrite),
            ModelPipeline::MtoonOutlineBlend => outline(RenderPhase::Blend),
        }
    }
}

fn surface(mtoon: bool, phase: RenderPhase, double_sided: bool) -> (found: PipelineFeatures)
    ensures
        found == (PipelineFeatures {
            mtoon,
            phase,
            cull_mode: if double_sided {
                PipelineCullMode::Off
            } else {
                PipelineCullMode::Back
            },
            render_pass: MaterialRenderPass::Surface,
        }),
{
    PipelineFeatures {
        mtoon,
        phase,
        cull_mode: if double_sided {
            PipelineCullMode::Off
        } else {
            PipelineCullMode::Back
        },
        render_pass: MaterialRenderPass::Surface,
    }
}

fn outline(phase: RenderPhase) -> (found: PipelineFeatures)
    ensures
        found == (PipelineFeatures {
            mtoon: true,
            phase,
            cull_mode: PipelineCullMode::Front,
            render_pass: MaterialRenderPass::Outline,
        }),
{
    PipelineFeatures {
        mtoon: true,
        phase,
        cull_mode: PipelineCullMode::Front,
        render_pass: MaterialRenderPass::Outline,
    }
}

/// Whatever pipeline a draw asks for is among those made at the start.
pub proof fn every_pipeline_is_made(pipeline: ModelPipeline)
    ensures
        all_pipelines().contains(pipeline),
{
    let all = all_pipelines();
    assert(all[0] == ModelPipeline::Opaque);
    assert(all[1] == ModelPipeline::OpaqueDoubleSided);
    assert(all[2] == ModelPipeline::Blend);
    assert(all[3] == ModelPipeline::BlendDoubleSided);
    assert(all[4] == ModelPipeline::BlendZWrite);
    assert(all[5] == ModelPipeline::BlendZWriteDoubleSided);
    assert(all[6] == ModelPipeline::MtoonOpaque);
    assert(all[7] == ModelPipeline::MtoonOpaqueDoubleSided);
    assert(all[8] == ModelPipeline::MtoonMask);
    assert(all[9] == ModelPipeline::MtoonMaskDoubleSided);
    assert(all[10] == ModelPipeline::MtoonBlendZWrite);
    assert(all[11] == ModelPipeline::MtoonBlendZWriteDoubleSided);
    assert(all[12] == ModelPipeline::MtoonBlend);
    assert(all[13] == ModelPipeline::MtoonBlendDoubleSided);
    assert(all[14] == ModelPipeline::MtoonOutlineOpaque);
    assert(all[15] == ModelPipeline::MtoonOutlineMask);
    assert(all[16] == ModelPipeline::MtoonOutlineBlendZWrite);
    assert(all[17] == ModelPipeline::MtoonOutlineBlend);
}

/// How a submission is drawn.
#[derive(Clone, Copy, Debug, PartialEq, Eq, Structural)]
pub struct DrawStep {
    pub key: MaterialPipelineKey,
    pub pipeline: ModelPipeline,
    /// The pipeline of the outline that follows at once, if there is one.
    pub outline: Option<ModelPipeline>,
    /// What is added to the indices: morphing primitives read the overlay.
    pub base_vertex: i32,
}

/// What a surface needs of its pipeline.
pub open spec fn surface_features(native: bool, phase: RenderPhase, double_sided: bool) ->
    PipelineFeatures {
    PipelineFeatures {
        mtoon: native,
        phase: if !native && phase == RenderPhase::Mask {
            RenderPhase::Opaque
        } else {
            phase
        },
        cull_mode: if double_sided {
            PipelineCullMode::Off
        } else {
            PipelineCullMode::Back
        },
        render_pass: MaterialRenderPass::Surface,
    }
}

/// The pipeline of a surface.
fn surface_pipeline(native: bool, phase: RenderPhase, double_sided: bool) -> (pipeline:
    ModelPipeline)
    ensures
        features(pipeline) == surface_features(native, phase, double_sided),
{
    if native {
        match (phase, double_sided) {
            (RenderPhase::Opaque, false) => ModelPipeline::MtoonOpaque,
            (RenderPhase::Opaque, true) => ModelPipeline::MtoonOpaqueDoubleSided,
            (RenderPhase::Mask, false) => ModelPipeline::MtoonMask,
            (RenderPhase::Mask, true) => ModelPipeline::MtoonMaskDoubleSided,
            (RenderPhase::MtoonBlendZWrite, false) => ModelPipeline::MtoonBlendZWrite,
            (RenderPhase::MtoonBlendZWrite, true) => ModelPipeline::MtoonBlendZWriteDoubleSided,
            (RenderPhase::Blend, false) => ModelPipeline::MtoonBlend,
            (RenderPhase::Blend, true) => ModelPipeline::MtoonBlendDoubleSided,
        }
    } else {
        match (phase, double_sided) {
            (RenderPhase::Opaque, false) => ModelPipeline::Opaque,
            (RenderPhase::Mask, false) => ModelPipeline::Opaque,
            (RenderPhase::Opaque, true) => ModelPipeline::OpaqueDoubleSided,
            (RenderPhase::Mask, true) => ModelPipeline::OpaqueDoubleSided,
            (RenderPhase::MtoonBlendZWrite, false) => ModelPipeline::BlendZWrite,
            (RenderPhase::MtoonBlendZWrite, true) => ModelPipeline::BlendZWriteDoubleSided,
            (RenderPhase::Blend, false) => ModelPipeline::Blend,
            (RenderPhase::Blend, true) => ModelPipeline::BlendDoubleSided,
        }
    }
}

/// Whether `step` is how a primitive with this route is drawn in a phase.
pub open spec fn is_draw_step(
    route: DrawRoute,
    phase: RenderPhase,
    unlit: bool,
    double_sided: bool,
    sample_count: u32,
    morph: Option<(u32, u32)>,
    step: DrawStep,
) -> bool {
    &&& step.key == (MaterialPipelineKey {
        shading_model: if route.native {
            PipelineShadingModel::Mtoon
        } else if unlit {
            PipelineShadingModel::Unlit
        } else {
            PipelineShadingModel::PocketLit
        },
        blend_depth_family: family_of(phase),
        cull_mode: if double_sided {
            PipelineCullMode::Off
        } else {
            PipelineCullMode::Back
        },
        render_pass: MaterialRenderPass::Surface,
        sample_count,
    })
    &&& features(step.pipeline) == surface_features(route.native, phase, double_sided)
    &&& step.outline is Some == route.outline
    &&& step.outline matches Some(outline) ==> features(outline) == (PipelineFeatures {
        mtoon: true,
        phase,
        cull_mode: PipelineCullMode::Front,
        render_pass: MaterialRenderPass::Outline,
    })
    &&& step.base_vertex == (match morph {
        Some(starts) => starts.0 - starts.1,
        None => 0,
    })
}

/// How a primitive is drawn: `phase` is the one that it was submitted with,
/// `morph` the start of its overlay and of its own vertices.
pub fn draw_step(
    route: DrawRoute,
    phase: RenderPhase,
    unlit: bool,
    double_sided: bool,
    sample_count: u32,
    morph: Option<(u32, u32)>,
) -> (step: DrawStep)
    requires
        morph matches Some(starts) ==> i32::MIN <= starts.0 - starts.1 <= i32::MAX,
    ensures
        is_draw_step(route, phase, unlit, double_sided, sample_count, morph, step),
        step.key == (MaterialPipelineKey {
            shading_model: if route.native {
                PipelineShadingModel::Mtoon
            } else if unlit {
                PipelineShadingModel::Unlit
            } else {
                PipelineShadingModel::PocketLit
            },
            blend_depth_family: family_of(phase),
            cull_mode: if double_sided {
                PipelineCullMode::Off
            } else {
                PipelineCullMode::Back
            },
            render_pass: MaterialRenderPass::Surface,
            sample_count,
        }),
        features(step.pipeline) == surface_features(route.native, phase, double_sided),
        step.outline is Some == route.outline,
        step.outline matches Some(outline) ==> features(outline) == (PipelineFeatures {
            mtoon: true,
            phase,
            cull_mode: PipelineCullMode::Front,
            render_pass: MaterialRenderPass::Outline,
        }),
        step.base_vertex == (match morph {
            Some(starts) => starts.0 - starts.1,
            None => 0,
        }),
{
    let key = if route.native {
        MaterialPipelineKey::native_stage_d(phase, double_sided, sample_count)
    } else {
        MaterialPipelineKey::current_fallback(unlit, phase, double_sided, sample_count)
    };
    let pipeline = surface_pipeline(
        key.shading_model == PipelineShadingModel::Mtoon,
        phase,
        double_sided,
    );
    let outline = if route.outline {
        Some(
            match phase {
                RenderPhase::Opaque => ModelPipeline::MtoonOutlineOpaque,
                RenderPhase::Mask => ModelPipeline::MtoonOutlineMask,
                RenderPhase::MtoonBlendZWrite => ModelPipeline::MtoonOutlineBlendZWrite,
                RenderPhase::Blend => ModelPipeline::MtoonOutlineBlend,
            },
        )
    } else {
        None
    };
    let base_vertex: i32 = match morph {
        Some((overlay_offset, vertex_base)) => (overlay_offset as i64 - vertex_base as i64) as i32,
        None => 0,
    };
    DrawStep { key, pipeline, outline, base_vertex }
}

/// No two pipelines do the same: what a surface needs names its pipeline.
pub proof fn pipelines_are_distinct(a: ModelPipeline, b: ModelPipeline)
    requires
        features(a) == features(b),
    ensures
        a == b,
{
}

proof fn authored_submissions_facts(draws: Seq<ModelDraw>, count: nat)
    requires
        count <= draws.len() <= usize::MAX,
    ensures
        ({
            let list = authored_submissions(draws, count);
            &&& forall|k: int|
                0 <= k < list.len() ==> {
                    let (d, p) = (list[k].draw_index as int, list[k].primitive_index as int);
                    &&& d < count
                    &&& p < draws[d].primitives@.len()
                    &&& !is_hidden(draws[d])
                    &&& #[trigger] list[k] == submission(draws, d, p)
                }
            &&& forall|j: int, k: int|
                0 <= j < k < list.len() ==> (#[trigger] list[j]).draw_index < (
                #[trigger] list[k]).draw_index || list[j].draw_index == list[k].draw_index
                    && list[j].primitive_index < list[k].primitive_index
            &&& forall|d: int, p: int|
                0 <= d < count && 0 <= p < draws[d].primitives@.len() && !is_hidden(draws[d])
                    ==> list.contains(#[trigger] submission(draws, d, p))
        }),
    decreases count,
{
    if count > 0 {
        authored_submissions_facts(draws, (count - 1) as nat);
        let earlier = authored_submissions(draws, (count - 1) as nat);
        let total = draws[count - 1].primitives@.len();
        assert(draws[count - 1].primitives.len() <= usize::MAX);
        let own = draw_submissions(draws, count - 1, total);
        let list = authored_submissions(draws, count);
        assert(list =~= earlier + own);
        assert forall|k: int| 0 <= k < list.len() implies {
            let (d, p) = (list[k].draw_index as int, list[k].primitive_index as int);
            &&& d < count
            &&& p < draws[d].primitives@.len()
            &&& !is_hidden(draws[d])
            &&& #[trigger] list[k] == submission(draws, d, p)
        } by {
            if k < earlier.len() {
                assert(list[k] == earlier[k]);
            } else {
                assert(list[k] == own[k - earlier.len()]);
            }
        }
        assert forall|j: int, k: int| 0 <= j < k < list.len() implies (
        #[trigger] list[j]).draw_index < (#[trigger] list[k]).draw_index || list[j].draw_index
            == list[k].draw_index && list[j].primitive_index < list[k].primitive_index by {
            if j < earlier.len() {
                assert(list[j] == earlier[j]);
            } else {
                assert(list[j] == own[j - earlier.len()]);
            }
            if k < earlier.len() {
                assert(list[k] == earlier[k]);
            } else {
                assert(list[k] == own[k - earlier.len()]);
            }
        }
        assert forall|d: int, p: int|
            0 <= d < count && 0 <= p < draws[d].primitives@.len() && !is_hidden(
                draws[d],
            ) implies list.contains(#[trigger] submission(draws, d, p)) by {
            if d < count - 1 {
                let k = choose|k: int|
                    0 <= k < earlier.len() && earlier[k] == submission(draws, d, p);
                assert(list[k] == submission(draws, d, p));
            } else {
                assert(list[earlier.len() + p] == own[p]);
            }
        }
    }
}

/// Every primitive of an instance that is not hidden is submitted: in its queue,
/// in its phase, or blended if the instance fades, and at its distance if it is
/// blended.
pub proof fn shown_primitives_are_submitted(
    draws: Seq<ModelDraw>,
    list: Seq<ModelSubmission>,
    d: int,
    p: int,
)
    requires
        are_submissions(draws, list),
        draws.len() <= usize::MAX,
        0 <= d < draws.len(),
        0 <= p < draws[d].primitives@.len(),
        !equal(draws[d].presentation_alpha, Scalar { bits: 0 }),
    ensures
        exists|k: int|
            0 <= k < list.len() && ({
                let found = #[trigger] list[k];
                let primitive = draws[d].primitives@[p];
                let faded = less(draws[d].presentation_alpha, Scalar { bits: 0x3f80_0000 });
                &&& found.draw_index == d
                &&& found.primitive_index == p
                &&& found.sort_key.queue_offset == primitive.route.queue_offset
                &&& faded && (primitive.route.phase is Opaque || primitive.route.phase is Mask)
                    ==> found.sort_key.phase is Blend
                &&& !faded || primitive.route.phase is Blend
                    || primitive.route.phase is MtoonBlendZWrite ==> found.sort_key.phase
                    == primitive.route.phase
                &&& found.sort_key.phase is Blend || found.sort_key.phase is MtoonBlendZWrite
                    ==> found.sort_key.camera_depth == primitive.camera_depth
            }),
{
    let authored = authored_submissions(draws, draws.len());
    authored_submissions_facts(draws, draws.len());
    let wanted = submission(draws, d, p);
    assert(draws[d].primitives.len() <= usize::MAX);
    assert(authored.contains(wanted));
    authored.to_multiset_ensures();
    list.to_multiset_ensures();
    assert(authored.to_multiset().count(wanted) > 0);
    assert(list.to_multiset().count(wanted) > 0);
    assert(list.contains(wanted));
    let k = choose|k: int| 0 <= k < list.len() && list[k] == wanted;
    assert(list[k] == wanted);
}

/// Nothing else is submitted: each submission is a primitive of an instance that
/// is not hidden, and no primitive is submitted twice.
pub proof fn submissions_are_shown_primitives(
    draws: Seq<ModelDraw>,
    list: Seq<ModelSubmission>,
    k: int,
    other: int,
)
    requires
        are_submissions(draws, list),
        draws.len() <= usize::MAX,
        0 <= k < list.len(),
        0 <= other < list.len(),
    ensures
        list[k].draw_index < draws.len(),
        list[k].primitive_index < draws[list[k].draw_index as int].primitives@.len(),
        !equal(draws[list[k].draw_index as int].presentation_alpha, Scalar { bits: 0 }),
        list[k].draw_index == list[other].draw_index && list[k].primitive_index
            == list[other].primitive_index ==> k == other,
{
    let authored = authored_submissions(draws, draws.len());
    authored_submissions_facts(draws, draws.len());
    authored.to_multiset_ensures();
    list.to_multiset_ensures();
    assert(list.contains(list[k]));
    assert(list.to_multiset().count(list[k]) > 0);
    assert(authored.to_multiset().count(list[k]) > 0);
    assert(authored.contains(list[k]));
    let j = choose|j: int| 0 <= j < authored.len() && authored[j] == list[k];
    assert(authored[j] == list[k]);
    assert(list.contains(list[other]));
    assert(list.to_multiset().count(list[other]) > 0);
    assert(authored.to_multiset().count(list[other]) > 0);
    assert(authored.contains(list[other]));
    let i = choose|i: int| 0 <= i < authored.len() && authored[i] == list[other];
    assert(authored[i] == list[other]);
    if list[k].draw_index == list[other].draw_index && list[k].primitive_index
        == list[other].primitive_index && k != other {
        assert(list[k].sort_key == list[other].sort_key);
        if k < other {
            assert(drawn_before(list[k].sort_key, list[other].sort_key));
        } else {
            assert(drawn_before(list[other].sort_key, list[k].sort_key));
        }
        drawing_order_is_strict(list[k].sort_key, list[k].sort_key, list[k].sort_key);
    }
}

/// Submissions are drawn in the order of their keys: opaque before masked before
/// blended, and within a phase by their queue.
pub proof fn submissions_come_in_order(
    draws: Seq<ModelDraw>,
    list: Seq<ModelSubmission>,
    first: int,
    second: int,
)
    requires
        are_submissions(draws, list),
        0 <= first < second < list.len(),
    ensures
        drawn_before(list[first].sort_key, list[second].sort_key),
        list[second].sort_key.phase is Opaque ==> list[first].sort_key.phase is Opaque,
        list[first].sort_key.phase is Blend ==> list[second].sort_key.phase is Blend,
        list[first].sort_key.phase == list[second].sort_key.phase
            ==> list[first].sort_key.queue_offset <= list[second].sort_key.queue_offset,
{
}

/// The view model of a frame is its last instance and is drawn apart; without
/// one all instances are drawn together.
pub proof fn view_models_come_last(draws: Seq<ModelDraw>, has_viewmodel: bool)
    ensures
        !has_viewmodel ==> scene_draws(draws, has_viewmodel) == draws,
        has_viewmodel && draws.len() > 0 ==> scene_draws(draws, has_viewmodel).push(draws.last())
            == draws,
{
    if has_viewmodel && draws.len() > 0 {
        assert(scene_draws(draws, has_viewmodel).push(draws.last()) =~= draws);
    }
}

/// A surface is drawn with the shader of its route, as far as the plain shader
/// has one of its own: it shows a masked surface as an opaque one. A double
/// sided surface is not culled, another from behind.
pub proof fn surfaces_find_their_pipeline(native: bool, phase: RenderPhase, double_sided: bool)
    ensures
        ({
            let found = surface_features(native, phase, double_sided);
            &&& found.mtoon == native
            &&& native || !(phase is Mask) ==> found.phase == phase
            &&& !native && phase is Mask ==> found.phase is Opaque
            &&& found.cull_mode is Off <==> double_sided
            &&& found.cull_mode is Back <==> !double_sided
            &&& found.render_pass is Surface
            &&& writes_depth(phase) <==> !(phase is Blend)
        }),
{
}

/// A draw takes the pipeline of its surface and, if it has an outline, the one
/// of its outline, which is culled from the front; a morphing primitive reads
/// its overlay.
pub proof fn draws_find_their_pipelines(
    route: DrawRoute,
    phase: RenderPhase,
    unlit: bool,
    double_sided: bool,
    sample_count: u32,
    morph: Option<(u32, u32)>,
    step: DrawStep,
)
    requires
        is_draw_step(route, phase, unlit, double_sided, sample_count, morph, step),
    ensures
        route.native ==> step.key.shading_model is Mtoon,
        !route.native && unlit ==> step.key.shading_model is Unlit,
        !route.native && !unlit ==> step.key.shading_model is PocketLit,
        step.key.cull_mode is Off <==> double_sided,
        step.key.sample_count == sample_count,
        step.key.render_pass is Surface,
        step.key.blend_depth_family is OpaqueOrMask <==> phase is Opaque || phase is Mask,
        step.key.blend_depth_family is BlendDepthWrite <==> phase is MtoonBlendZWrite,
        features(step.pipeline).mtoon == route.native,
        features(step.pipeline).cull_mode is Off <==> double_sided,
        features(step.pipeline).render_pass is Surface,
        step.outline is Some <==> route.outline,
        step.outline matches Some(outline) ==> features(outline).mtoon && features(
            outline,
        ).phase == phase && features(outline).cull_mode is Front && features(
            outline,
        ).render_pass is Outline,
        morph is None ==> step.base_vertex == 0,
        morph matches Some((overlay, base)) ==> step.base_vertex + base == overlay,
{
}

} // verus!
