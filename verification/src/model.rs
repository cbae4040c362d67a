//! Loading a model: from what was read of its file to everything that the
//! renderer needs to know of it.

use vstd::prelude::*;

use crate::anim::Clip;
use crate::authoring::{
    are_authored, authored_materials, authoring_error, MaterialBaseColorMode, MaterialError,
};
use crate::clips::{are_clips, build_clips, clip_failure, ClipError};
use crate::layout::{
    all_placements, are_laid_out, check_override_counts, check_placements, fits,
    implicit_joint_error, indices_stay_with_their_placement, is_binding_at, is_consistent,
    is_morph_layout, is_morph_mesh, is_morph_prim, is_morph_slot, is_placed, is_upload, is_white,
    lay_out, lay_out_morphs, list_placements, make_uploads, morphing_of, override_count_error,
    override_of, placed, placement_error, placements_error, placements_exist, sizes_fit,
    vertex_base, vertex_count, MorphMesh, OverrideCountError, Placement, PlacementError,
    PrimitiveUpload, VertexBinding,
};
use crate::material::{
    are_default_inputs, MaterialAlphaMode, MaterialAsset, MaterialModel, MtoonMaterialDescriptor,
    PocketLitMaterial, RenderPhase,
};
use crate::mesh::{is_joint_matrix, Skin};
use crate::morph::{weight_rows, MorphState};
use crate::overrides::MaterialTextureOverride;
use crate::scalar::Scalar;
use crate::search::{first_some, first_some_none};
use crate::skeleton::{
    children_in_range, evaluation_order, forests_are_listed_once, has_cycle, is_forest, named_once,
    node_parents, ordered_hierarchies_put_parents_first, parents_first_order, parents_of, Skeleton,
};
use crate::source::{copy_text, rows, text_of, SourceModel, SourceNode, SourceSkin};
use crate::text::same_text;
use crate::validation::{
    index_error, joint_error, joint_slot_error, joint_total, model_input_error, node_error,
    node_joint_count, primitive_error, skin_error, validate_model_input, vertex_joint_error,
    InputError, MAX_RENDERER_JOINTS,
};

verus! {

/// How a model is loaded.
#[derive(Clone, Copy, Debug, PartialEq, Eq)]
pub struct ModelLoadOptions {
    /// Textures are halved until no side exceeds this.
    pub max_texture_dim: Option<u32>,
}

impl Default for ModelLoadOptions {
    fn default() -> (options: Self)
        ensures
            options.max_texture_dim is None,
    {
        ModelLoadOptions { max_texture_dim: None }
    }
}

/// A texture limit of zero.
#[derive(Clone, Copy, Debug, PartialEq, Eq, Structural)]
pub struct ZeroTextureDim;

/// Checks that a texture limit is not zero.
pub fn validate_load_options(options: &ModelLoadOptions) -> (result: Result<(), ZeroTextureDim>)
    ensures
        result == (if options.max_texture_dim == Some(0u32) {
            Err::<(), ZeroTextureDim>(ZeroTextureDim)
        } else {
            Ok(())
        }),
{
    match options.max_texture_dim {
        Some(dim) => if dim == 0 {
            Err(ZeroTextureDim)
        } else {
            Ok(())
        },
        None => Ok(()),
    }
}

/// Why a model cannot be loaded.
#[derive(Clone, Copy, Debug, PartialEq, Eq, Structural)]
pub enum LoadError {
    Input(InputError),
    Material(MaterialError),
    /// A node is its own ancestor.
    NodeCycle,
    Placement { placement: Placement, error: PlacementError },
    /// The vertices or indices cannot be counted with 32 bits.
    TooLarge,
    OverrideCount(OverrideCountError),
    Clip { animation: usize, channel: usize, error: ClipError },
}

/// A loaded model, up to what takes arithmetic on its numbers: positions and
/// normals in object space, bounds and morph displacements.
#[derive(Debug)]
pub struct ModelAsset {
    pub materials: Vec<MaterialAsset>,
    pub skeleton: Skeleton,
    pub node_names: Vec<Option<String>>,
    pub skins: Vec<Skin<[Scalar; 16]>>,
    /// Where the joints of each skin begin in the joint palette.
    pub skin_base: Vec<u32>,
    pub primitives: Vec<PrimitiveUpload>,
    pub vertices: Vec<VertexBinding>,
    pub indices: Vec<u32>,
    pub morph_meshes: Vec<MorphMesh>,
    /// Per primitive its morph mesh and its place in it, if it has targets.
    pub prim_morph: Vec<Option<(usize, usize)>>,
    pub clips: Vec<Clip>,
}

/// The children of each node of a model.
pub open spec fn children_of(model: SourceModel) -> Seq<Seq<usize>> {
    model.nodes@.map_values(|node: SourceNode| node.children@)
}

/// Whether `skeleton` holds the hierarchy and the rest poses of a model.
pub open spec fn is_skeleton(model: SourceModel, skeleton: Skeleton) -> bool {
    &&& skeleton.parents@ == parents_of(children_of(model), model.nodes@.len())
    &&& skeleton.order@ == evaluation_order(children_of(model))
    &&& skeleton.rest@.len() == model.nodes@.len()
    &&& forall|i: int|
        0 <= i < model.nodes@.len() ==> #[trigger] skeleton.rest@[i] == model.rest@[i]
}

/// Whether `matrix` is the identity, column by column.
pub open spec fn is_identity(matrix: [Scalar; 16]) -> bool {
    forall|k: int|
        0 <= k < 16 ==> (#[trigger] matrix@[k]).bits == (if k % 5 == 0 {
            0x3f80_0000u32
        } else {
            0u32
        })
}

/// Whether `skin` is the skin `source` of the file; without inverse bind
/// matrices they are identities.
pub open spec fn is_skin(source: SourceSkin, skin: Skin<[Scalar; 16]>) -> bool {
    &&& skin.joints@ == source.joints@
    &&& match source.inverse_bind {
        Some(matrices) => skin.inverse_bind@ == matrices@,
        None => {
            &&& skin.inverse_bind@.len() == source.joints@.len()
            &&& forall|k: int|
                0 <= k < skin.inverse_bind@.len() ==> is_identity(#[trigger] skin.inverse_bind@[k])
        },
    }
}

/// Why a model cannot be loaded, if so.
pub open spec fn load_error(
    model: SourceModel,
    overrides: Seq<MaterialTextureOverride>,
    native_mtoon: bool,
    descriptors: Seq<MtoonMaterialDescriptor>,
) -> Option<LoadError> {
    let listed = all_placements(model);
    match model_input_error(model) {
        Some(error) => Some(LoadError::Input(error)),
        None => match authoring_error(model, descriptors, native_mtoon) {
            Some(error) => Some(LoadError::Material(error)),
            None => if has_cycle(children_of(model)) {
                Some(LoadError::NodeCycle)
            } else {
                match placements_error(model, descriptors, overrides, listed) {
                    Some((placement, error)) => Some(LoadError::Placement { placement, error }),
                    None => if !fits(model, listed) {
                        Some(LoadError::TooLarge)
                    } else {
                        match override_count_error(model, overrides, listed) {
                            Some(error) => Some(LoadError::OverrideCount(error)),
                            None => match clip_failure(model.animations@) {
                                Some((animation, channel, error)) => Some(
                                    LoadError::Clip { animation, channel, error },
                                ),
                                None => None,
                            },
                        }
                    },
                }
            },
        },
    }
}

/// Whether `layout` is the layout of a model.
pub open spec fn is_model_layout(
    model: SourceModel,
    overrides: Seq<MaterialTextureOverride>,
    native_mtoon: bool,
    descriptors: Seq<MtoonMaterialDescriptor>,
    layout: ModelAsset,
) -> bool {
    let listed = all_placements(model);
    &&& are_authored(model, descriptors, layout.materials@)
    &&& is_skeleton(model, layout.skeleton)
    &&& layout.node_names@.len() == model.nodes@.len()
    &&& forall|i: int|
        0 <= i < model.nodes@.len() ==> #[trigger] layout.node_names@[i] == model.nodes@[i].name
    &&& layout.skins@.len() == model.skins@.len()
    &&& forall|s: int|
        0 <= s < model.skins@.len() ==> is_skin(model.skins@[s], #[trigger] layout.skins@[s])
    &&& layout.skin_base@.len() == model.skins@.len()
    &&& forall|s: int|
        0 <= s < model.skins@.len() ==> #[trigger] layout.skin_base@[s] == joint_total(
            model.skins@,
            s as nat,
        )
    &&& layout.primitives@.len() == listed.len()
    &&& forall|k: int|
        0 <= k < listed.len() ==> is_upload(
            model,
            layout.materials@,
            overrides,
            native_mtoon,
            listed,
            k,
            #[trigger] layout.primitives@[k],
        )
    &&& are_laid_out(model, listed, listed.len(), layout.vertices@, layout.indices@)
    &&& is_morph_layout(
        model,
        listed,
        listed.len(),
        layout.morph_meshes@,
        layout.prim_morph@,
    )
    &&& are_clips(model.animations@, layout.clips@)
}

/// A primitive of a model that passes validation has an attribute value per
/// position, and its indices name positions.
pub(crate) proof fn validated_primitives_are_consistent(model: SourceModel, placement: Placement)
    requires
        model_input_error(model) is None,
        is_placed(model, placement),
    ensures
        is_consistent(model, placement),
{
    let node = placement.node as int;
    let mesh = placement.mesh as int;
    let k = placement.primitive as int;
    let node_check = |i: int| node_error(model, i);
    first_some_none(model.nodes@.len(), node_check);
    assert(node_check(node) is None);
    let primitive_check = |k: int|
        primitive_error(model.meshes@[mesh]@[k], node_joint_count(model, node));
    first_some_none(model.meshes@[mesh]@.len(), primitive_check);
    assert(primitive_check(k) is None);
    let primitive = placed(model, placement);
    let count = vertex_count(model, placement);
    if let Some(indices) = primitive.indices {
        let index_check = |i: int|
            if indices@[i] >= count {
                Some(InputError::VertexIndex { index: indices@[i], positions: count as usize })
            } else {
                None
            };
        assert(index_error(indices@, count) == first_some(indices@.len(), index_check));
        first_some_none(indices@.len(), index_check);
        assert forall|i: int| 0 <= i < indices@.len() implies #[trigger] indices@[i] < count by {
            assert(index_check(i) is None);
        }
    }
}

/// The joints of a model that passes validation fit one palette, and so do
/// those of its first skins.
proof fn validated_joints_fit(model: SourceModel, count: nat)
    requires
        model_input_error(model) is None,
        count <= model.skins@.len(),
    ensures
        joint_total(model.skins@, count) <= MAX_RENDERER_JOINTS,
    decreases model.skins@.len() - count,
{
    if count < model.skins@.len() {
        validated_joints_fit(model, count + 1);
    }
}

/// The inverse bind matrices of a skin that passes validation go with its
/// joints, which are nodes.
pub(crate) proof fn validated_skins_match(model: SourceModel, s: int)
    requires
        model_input_error(model) is None,
        0 <= s < model.skins@.len(),
    ensures
        model.skins@[s].inverse_bind matches Some(matrices) ==> matrices@.len()
            == model.skins@[s].joints@.len(),
        forall|k: int|
            0 <= k < model.skins@[s].joints@.len() ==> #[trigger] model.skins@[s].joints@[k]
                < model.nodes@.len(),
{
    let skin_check = |i: int| skin_error(model.skins@[i], model.nodes@.len());
    first_some_none(model.skins@.len(), skin_check);
    assert(skin_check(s) is None);
    let skin = model.skins@[s];
    let nodes = model.nodes@.len();
    let joint_check = |joint: int|
        if skin.joints@[joint] >= nodes {
            Some(
                InputError::SkinJoint {
                    joint: joint as usize,
                    node: skin.joints@[joint],
                    nodes: nodes as usize,
                },
            )
        } else {
            None
        };
    first_some_none(skin.joints@.len(), joint_check);
    assert forall|k: int| 0 <= k < skin.joints@.len() implies #[trigger] skin.joints@[k]
        < nodes by {
        assert(joint_check(k) is None);
    }
}

pub(crate) fn copy_indices(indices: &Vec<usize>) -> (copy: Vec<usize>)
    ensures
        copy@ == indices@,
{
    let mut copy: Vec<usize> = Vec::new();
    let mut i: usize = 0;
    while i < indices.len()
        invariant
            i <= indices@.len(),
            copy@ =~= indices@.take(i as int),
        decreases indices@.len() - i,
    {
        copy.push(indices[i]);
        i += 1;
    }
    assert(copy@ =~= indices@);
    copy
}

fn node_children(model: &SourceModel) -> (children: Vec<Vec<usize>>)
    requires
        model.in_range(),
    ensures
        rows(children@) == children_of(*model),
        children_in_range(rows(children@)),
{
    let mut children: Vec<Vec<usize>> = Vec::new();
    let mut i: usize = 0;
    while i < model.nodes.len()
        invariant
            i <= model.nodes@.len(),
            children@.len() == i,
            forall|k: int|
                0 <= k < i ==> (#[trigger] children@[k])@ == model.nodes@[k].children@,
        decreases model.nodes@.len() - i,
    {
        children.push(copy_indices(&model.nodes[i].children));
        i += 1;
    }
    assert(rows(children@) =~= children_of(*model));
    assert forall|i: int, k: int|
        0 <= i < rows(children@).len() && 0 <= k
            < rows(children@)[i].len() implies #[trigger] rows(children@)[i][k] < rows(
        children@,
    ).len() by {
        assert(model.nodes@[i].children@[k] < model.nodes@.len());
    }
    children
}

/// The hierarchy and rest poses of a model, `None` if a node below a root is
/// its own ancestor.
pub fn build_skeleton(model: &SourceModel) -> (skeleton: Option<Skeleton>)
    requires
        model.in_range(),
    ensures
        match skeleton {
            Some(skeleton) => !has_cycle(children_of(*model)) && is_skeleton(*model, skeleton),
            None => has_cycle(children_of(*model)),
        },
{
    let children = node_children(model);
    let parents = node_parents(&children);
    let order = match parents_first_order(&children, &parents) {
        Some(order) => order,
        None => {
            return None;
        },
    };
    let mut rest = Vec::new();
    let mut i: usize = 0;
    while i < model.nodes.len()
        invariant
            i <= model.nodes@.len(),
            model.rest@.len() == model.nodes@.len(),
            rest@.len() == i,
            forall|k: int| 0 <= k < i ==> #[trigger] rest@[k] == model.rest@[k],
        decreases model.nodes@.len() - i,
    {
        rest.push(model.rest[i]);
        i += 1;
    }
    Some(Skeleton { parents, rest, order })
}

fn build_skin(source: &SourceSkin) -> (skin: Skin<[Scalar; 16]>)
    ensures
        is_skin(*source, skin),
{
    let joints = copy_indices(&source.joints);
    let mut inverse_bind: Vec<[Scalar; 16]> = Vec::new();
    match &source.inverse_bind {
        Some(matrices) => {
            let mut i: usize = 0;
            while i < matrices.len()
                invariant
                    i <= matrices@.len(),
                    inverse_bind@ =~= matrices@.take(i as int),
                decreases matrices@.len() - i,
            {
                inverse_bind.push(matrices[i]);
                i += 1;
            }
            assert(inverse_bind@ =~= matrices@);
        },
        None => {
            let o = Scalar::zero();
            let l = Scalar::one();
            let identity: [Scalar; 16] = [l, o, o, o, o, l, o, o, o, o, l, o, o, o, o, l];
            let mut i: usize = 0;
            while i < source.joints.len()
                invariant
                    i <= source.joints@.len(),
                    is_identity(identity),
                    inverse_bind@.len() == i,
                    forall|k: int|
                        0 <= k < inverse_bind@.len() ==> is_identity(#[trigger] inverse_bind@[k]),
                decreases source.joints@.len() - i,
            {
                inverse_bind.push(identity);
                i += 1;
            }
        },
    }
    Skin { joints, inverse_bind }
}

fn build_skins(skins: &Vec<SourceSkin>) -> (built: Vec<Skin<[Scalar; 16]>>)
    ensures
        built@.len() == skins@.len(),
        forall|s: int| 0 <= s < skins@.len() ==> is_skin(skins@[s], #[trigger] built@[s]),
{
    let mut built: Vec<Skin<[Scalar; 16]>> = Vec::new();
    let mut s: usize = 0;
    while s < skins.len()
        invariant
            s <= skins@.len(),
            built@.len() == s,
            forall|k: int| 0 <= k < s ==> is_skin(skins@[k], #[trigger] built@[k]),
        decreases skins@.len() - s,
    {
        built.push(build_skin(&skins[s]));
        s += 1;
    }
    built
}

/// Where the joints of each skin begin in the joint palette.
fn skin_bases(model: &SourceModel) -> (bases: Vec<u32>)
    requires
        model_input_error(*model) is None,
    ensures
        bases@.len() == model.skins@.len(),
        forall|s: int|
            0 <= s < bases@.len() ==> #[trigger] bases@[s] == joint_total(model.skins@, s as nat)
                && bases@[s] <= MAX_RENDERER_JOINTS,
{
    let mut bases: Vec<u32> = Vec::new();
    let mut base: u32 = 0;
    let mut s: usize = 0;
    while s < model.skins.len()
        invariant
            s <= model.skins@.len(),
            model_input_error(*model) is None,
            base == joint_total(model.skins@, s as nat),
            base <= MAX_RENDERER_JOINTS,
            bases@.len() == s,
            forall|k: int|
                0 <= k < bases@.len() ==> #[trigger] bases@[k] == joint_total(
                    model.skins@,
                    k as nat,
                ) && bases@[k] <= MAX_RENDERER_JOINTS,
        decreases model.skins@.len() - s,
    {
        proof {
            validated_joints_fit(*model, (s + 1) as nat);
        }
        bases.push(base);
        base = base + model.skins[s].joints.len() as u32;
        s += 1;
    }
    bases
}

fn copy_names(nodes: &Vec<SourceNode>) -> (names: Vec<Option<String>>)
    ensures
        names@.len() == nodes@.len(),
        forall|i: int| 0 <= i < nodes@.len() ==> #[trigger] names@[i] == nodes@[i].name,
{
    let mut names: Vec<Option<String>> = Vec::new();
    let mut i: usize = 0;
    while i < nodes.len()
        invariant
            i <= nodes@.len(),
            names@.len() == i,
            forall|k: int| 0 <= k < i ==> #[trigger] names@[k] == nodes@[k].name,
        decreases nodes@.len() - i,
    {
        names.push(copy_text(&nodes[i].name));
        i += 1;
    }
    names
}

/// Loads a model from what was read of its file. `overrides` replace base
/// colour textures, `descriptors` make toon materials, which `native_mtoon`
/// says are drawn as such.
pub fn load_glb_imported(
    model: &SourceModel,
    overrides: &[MaterialTextureOverride],
    native_mtoon: bool,
    descriptors: &[MtoonMaterialDescriptor],
) -> (result: Result<ModelAsset, LoadError>)
    requires
        model.in_range(),
        model.known_targets(),
        model.measured(),
    ensures
        match result {
            Ok(layout) => load_error(*model, overrides@, native_mtoon, descriptors@) is None
                && is_model_layout(*model, overrides@, native_mtoon, descriptors@, layout),
            Err(error) => load_error(*model, overrides@, native_mtoon, descriptors@) == Some(
                error,
            ),
        },
{
    if let Err(error) = validate_model_input(model) {
        return Err(LoadError::Input(error));
    }
    let materials = match authored_materials(model, descriptors, native_mtoon) {
        Ok(materials) => materials,
        Err(error) => {
            return Err(LoadError::Material(error));
        },
    };
    let skeleton = match build_skeleton(model) {
        Some(skeleton) => skeleton,
        None => {
            return Err(LoadError::NodeCycle);
        },
    };
    let listed = list_placements(model);
    match check_placements(model, &materials, descriptors, overrides, &listed) {
        Ok(()) => {},
        Err((placement, error)) => {
            return Err(LoadError::Placement { placement, error });
        },
    }
    if !sizes_fit(model, &listed) {
        return Err(LoadError::TooLarge);
    }
    proof {
        assert forall|k: int| 0 <= k < listed@.len() implies is_consistent(
            *model,
            #[trigger] listed@[k],
        ) by {
            assert(is_placed(*model, listed@[k]));
            validated_primitives_are_consistent(*model, listed@[k]);
        }
        let check = |k: int|
            match placement_error(*model, descriptors@, overrides@, listed@[k]) {
                Some(error) => Some((listed@[k], error)),
                None => None,
            };
        first_some_none(listed@.len(), check);
        assert forall|k: int| 0 <= k < listed@.len() implies override_of(
            *model,
            overrides@,
            placed(*model, #[trigger] listed@[k]),
        ) is Ok by {
            assert(check(k) is None);
        }
    }
    let skin_base = skin_bases(model);
    let primitives = make_uploads(model, &materials, overrides, native_mtoon, &listed);
    if let Err(error) = check_override_counts(
        model,
        &materials,
        overrides,
        native_mtoon,
        &listed,
        &primitives,
    ) {
        return Err(LoadError::OverrideCount(error));
    }
    let clips = match build_clips(model) {
        Ok(clips) => clips,
        Err((animation, channel, error)) => {
            return Err(LoadError::Clip { animation, channel, error });
        },
    };
    let (vertices, indices) = lay_out(model, &listed, &skin_base);
    let (morph_meshes, prim_morph) = lay_out_morphs(model, &listed, &primitives);
    let skins = build_skins(&model.skins);
    let node_names = copy_names(&model.nodes);
    Ok(
        ModelAsset {
            materials,
            skeleton,
            node_names,
            skins,
            skin_base,
            primitives,
            vertices,
            indices,
            morph_meshes,
            prim_morph,
            clips,
        },
    )
}

/// The first node called `name`.
pub fn find_node_named(node_names: &[Option<String>], name: &str) -> (found: Option<usize>)
    ensures
        match found {
            Some(node) => node < node_names@.len() && text_of(node_names@[node as int]) == Some(
                name@,
            ) && forall|k: int|
                0 <= k < node ==> text_of(#[trigger] node_names@[k]) != Some(name@),
            None => forall|k: int|
                0 <= k < node_names@.len() ==> text_of(#[trigger] node_names@[k]) != Some(name@),
        },
{
    let mut i: usize = 0;
    while i < node_names.len()
        invariant
            i <= node_names@.len(),
            forall|k: int| 0 <= k < i ==> text_of(#[trigger] node_names@[k]) != Some(name@),
        decreases node_names@.len() - i,
    {
        if let Some(candidate) = &node_names[i] {
            if same_text(candidate.as_str(), name) {
                return Some(i);
            }
        }
        i += 1;
    }
    None
}

/// Where the joints of skin `count` begin in the joint palette.
pub open spec fn palette_base<M>(skins: Seq<Skin<M>>, count: nat) -> nat
    decreases count,
{
    if count == 0 {
        0
    } else {
        palette_base(skins, (count - 1) as nat) + skins[count - 1].joints@.len()
    }
}

/// Whether every skin has an inverse bind transform per joint and its joints
/// name globals.
pub open spec fn are_bound<M>(skins: Seq<Skin<M>>, globals: nat) -> bool {
    forall|s: int|
        0 <= s < skins.len() ==> {
            &&& (#[trigger] skins[s]).joints@.len() == skins[s].inverse_bind@.len()
            &&& forall|k: int|
                0 <= k < skins[s].joints@.len() ==> #[trigger] skins[s].joints@[k] < globals
        }
}

/// Whether joint `k` of skin `s` stands in its place in the palette.
pub open spec fn is_palette_entry<M, F: Fn(M, M) -> M>(
    skins: Seq<Skin<M>>,
    globals: Seq<M>,
    compose: F,
    palette: Seq<M>,
    s: int,
    k: int,
) -> bool {
    is_joint_matrix(
        compose,
        None,
        globals[skins[s].joints@[k] as int],
        skins[s].inverse_bind@[k],
        palette[palette_base(skins, s as nat) + k],
    )
}

proof fn palette_base_grows<M>(skins: Seq<Skin<M>>, earlier: nat, count: nat)
    requires
        earlier <= count,
    ensures
        palette_base(skins, earlier) <= palette_base(skins, count),
    decreases count,
{
    if earlier < count {
        palette_base_grows(skins, earlier, (count - 1) as nat);
    }
}

/// The joint palette of a pose: the joint matrices of all skins, one skin after
/// the other, or one `identity` without joints.
pub fn palette_from_globals<M: Copy, F: Fn(M, M) -> M + Copy>(
    skins: &Vec<Skin<M>>,
    globals: &[M],
    identity: M,
    compose: F,
) -> (palette: Vec<M>)
    requires
        are_bound(skins@, globals@.len()),
        forall|a: M, b: M| #[trigger] call_requires(compose, (a, b)),
    ensures
        ({
            let joints = palette_base(skins@, skins@.len());
            if joints == 0 {
                palette@ == seq![identity]
            } else {
                palette@.len() == joints
            }
        }),
        forall|s: int, k: int|
            0 <= s < skins@.len() && 0 <= k < skins@[s].joints@.len()
                ==> #[trigger] is_palette_entry(skins@, globals@, compose, palette@, s, k),
{
    let mut palette: Vec<M> = Vec::new();
    let mut s: usize = 0;
    while s < skins.len()
        invariant
            s <= skins@.len(),
            are_bound(skins@, globals@.len()),
            forall|a: M, b: M| #[trigger] call_requires(compose, (a, b)),
            palette@.len() == palette_base(skins@, s as nat),
            forall|t: int, k: int|
                0 <= t < s && 0 <= k < skins@[t].joints@.len() ==> #[trigger] is_palette_entry(
                    skins@,
                    globals@,
                    compose,
                    palette@,
                    t,
                    k,
                ),
        decreases skins@.len() - s,
    {
        let ghost before = palette@;
        let mut matrices = skins[s].matrices(globals, None, compose);
        palette.append(&mut matrices);
        proof {
            assert forall|t: int, k: int|
                0 <= t < s + 1 && 0 <= k
                    < skins@[t].joints@.len() implies #[trigger] is_palette_entry(
                skins@,
                globals@,
                compose,
                palette@,
                t,
                k,
            ) by {
                if t < s {
                    palette_base_grows(skins@, (t + 1) as nat, s as nat);
                    assert(is_palette_entry(skins@, globals@, compose, before, t, k));
                }
            }
        }
        s += 1;
    }
    if palette.len() == 0 {
        palette.push(identity);
        proof {
            assert(palette@ =~= seq![identity]);
            assert forall|t: int, k: int|
                0 <= t < skins@.len() && 0 <= k
                    < skins@[t].joints@.len() implies #[trigger] is_palette_entry(
                skins@,
                globals@,
                compose,
                palette@,
                t,
                k,
            ) by {
                palette_base_grows(skins@, (t + 1) as nat, skins@.len());
            }
        }
    }
    palette
}

/// Whether `primitive` draws all of a geometry that was not read from a file:
/// lit, opaque and single-sided, in white.
pub open spec fn is_whole_geometry(
    label: Seq<char>,
    vertices: nat,
    indices: nat,
    primitive: PrimitiveUpload,
) -> bool {
    &&& primitive.placement == (Placement { node: 0, mesh: 0, primitive: 0 })
    &&& primitive.vertex_base == 0
    &&& primitive.vertex_count == vertices
    &&& primitive.first_index == 0
    &&& primitive.index_count == indices
    &&& primitive.image is None
    &&& is_white(primitive.base_color_factor)
    &&& primitive.alpha_mode == MaterialAlphaMode::Opaque
    &&& primitive.alpha_cutoff.bits == 0
    &&& !primitive.double_sided
    &&& !primitive.unlit
    &&& primitive.base_color_mode == MaterialBaseColorMode::Authored
    &&& text_of(primitive.material_name) == Some(label)
    &&& primitive.material_role is None
    &&& primitive.texture_override is None
    &&& primitive.material_index == Some(0usize)
    &&& !primitive.native
    &&& !primitive.mtoon_outline
    &&& primitive.render_phase == RenderPhase::Opaque
    &&& primitive.render_queue_offset == 0
}

impl ModelAsset {
    /// A model of raw geometry: one lit primitive without nodes, skins or
    /// animations.
    pub fn from_geometry(label: &str, vertices: Vec<VertexBinding>, indices: Vec<u32>) -> (asset:
        Self)
        requires
            vertices@.len() <= u32::MAX,
            indices@.len() <= u32::MAX,
        ensures
            asset.vertices == vertices,
            asset.indices == indices,
            asset.primitives@.len() == 1,
            is_whole_geometry(label@, vertices@.len(), indices@.len(), asset.primitives@[0]),
            asset.materials@.len() == 1,
            asset.materials@[0].gltf_material_index == 0,
            text_of(asset.materials@[0].name) == Some(label@),
            are_default_inputs(asset.materials@[0].inputs),
            asset.materials@[0].model == MaterialModel::PocketLit(PocketLitMaterial),
            asset.skeleton.parents@.len() == 0,
            asset.skeleton.rest@.len() == 0,
            asset.skeleton.order@.len() == 0,
            asset.node_names@.len() == 0,
            asset.skins@.len() == 0,
            asset.skin_base@.len() == 0,
            asset.morph_meshes@.len() == 0,
            asset.prim_morph@ == seq![None::<(usize, usize)>],
            asset.clips@.len() == 0,
    {
        let one = Scalar::one();
        let primitive = PrimitiveUpload {
            placement: Placement { node: 0, mesh: 0, primitive: 0 },
            vertex_base: 0,
            vertex_count: vertices.len() as u32,
            first_index: 0,
            index_count: indices.len() as u32,
            image: None,
            base_color_factor: [one, one, one, one],
            alpha_mode: MaterialAlphaMode::Opaque,
            alpha_cutoff: Scalar::zero(),
            double_sided: false,
            unlit: false,
            base_color_mode: MaterialBaseColorMode::Authored,
            material_name: Some(label.to_owned()),
            material_role: None,
            texture_override: None,
            material_index: Some(0),
            native: false,
            mtoon_outline: false,
            render_phase: RenderPhase::Opaque,
            render_queue_offset: 0,
        };
        let mut primitives: Vec<PrimitiveUpload> = Vec::new();
        primitives.push(primitive);
        let mut materials: Vec<MaterialAsset> = Vec::new();
        materials.push(MaterialAsset::pocket_lit(0, Some(label.to_owned())));
        let mut prim_morph: Vec<Option<(usize, usize)>> = Vec::new();
        prim_morph.push(None);
        assert(prim_morph@ =~= seq![None::<(usize, usize)>]);
        ModelAsset {
            materials,
            skeleton: Skeleton { parents: Vec::new(), rest: Vec::new(), order: Vec::new() },
            node_names: Vec::new(),
            skins: Vec::new(),
            skin_base: Vec::new(),
            primitives,
            vertices,
            indices,
            morph_meshes: Vec::new(),
            prim_morph,
            clips: Vec::new(),
        }
    }

    /// The first node called `name`.
    pub fn node_named(&self, name: &str) -> (found: Option<usize>)
        ensures
            match found {
                Some(node) => node < self.node_names@.len() && text_of(
                    self.node_names@[node as int],
                ) == Some(name@) && forall|k: int|
                    0 <= k < node ==> text_of(#[trigger] self.node_names@[k]) != Some(name@),
                None => forall|k: int|
                    0 <= k < self.node_names@.len() ==> text_of(#[trigger] self.node_names@[k])
                        != Some(name@),
            },
    {
        find_node_named(self.node_names.as_slice(), name)
    }

    /// The first clip called `name`.
    pub fn clip_named(&self, name: &str) -> (found: Option<usize>)
        ensures
            match found {
                Some(clip) => clip < self.clips@.len() && self.clips@[clip as int].name@ == name@
                    && forall|k: int|
                    0 <= k < clip ==> (#[trigger] self.clips@[k]).name@ != name@,
                None => forall|k: int|
                    0 <= k < self.clips@.len() ==> (#[trigger] self.clips@[k]).name@ != name@,
            },
    {
        let mut i: usize = 0;
        while i < self.clips.len()
            invariant
                i <= self.clips@.len(),
                forall|k: int| 0 <= k < i ==> (#[trigger] self.clips@[k]).name@ != name@,
            decreases self.clips@.len() - i,
        {
            if same_text(self.clips[i].name.as_str(), name) {
                return Some(i);
            }
            i += 1;
        }
        None
    }

    /// Which morph mesh a mesh of the file became.
    pub fn morph_mesh_slot(&self, gltf_mesh: usize) -> (found: Option<usize>)
        ensures
            match found {
                Some(slot) => slot < self.morph_meshes@.len()
                    && self.morph_meshes@[slot as int].mesh == gltf_mesh && forall|k: int|
                    0 <= k < slot ==> (#[trigger] self.morph_meshes@[k]).mesh != gltf_mesh,
                None => forall|k: int|
                    0 <= k < self.morph_meshes@.len() ==> (#[trigger] self.morph_meshes@[k]).mesh
                        != gltf_mesh,
            },
    {
        let mut i: usize = 0;
        while i < self.morph_meshes.len()
            invariant
                i <= self.morph_meshes@.len(),
                forall|k: int| 0 <= k < i ==> (#[trigger] self.morph_meshes@[k]).mesh != gltf_mesh,
            decreases self.morph_meshes@.len() - i,
        {
            if self.morph_meshes[i].mesh == gltf_mesh {
                return Some(i);
            }
            i += 1;
        }
        None
    }

    /// The morph weights of an instance at rest, if the model has any.
    pub fn create_morph_state(&self) -> (state: Option<MorphState>)
        ensures
            match state {
                Some(state) => {
                    &&& self.morph_meshes@.len() > 0
                    &&& state.dirty == 0
                    &&& weight_rows(state) == Seq::new(
                        self.morph_meshes@.len(),
                        |i: int|
                            Seq::new(
                                self.morph_meshes@[i].target_count as nat,
                                |k: int| Scalar { bits: 0 },
                            ),
                    )
                },
                None => self.morph_meshes@.len() == 0,
            },
    {
        MorphState::at_rest(self.morph_meshes.as_slice())
    }

    /// The authored materials.
    pub fn materials(&self) -> (materials: &[MaterialAsset])
        ensures
            materials@ == self.materials@,
    {
        self.materials.as_slice()
    }
}

/// The skins of a loaded model are bound to its nodes: its joint palette can
/// be built from any globals of its nodes, and has the joints of its file.
pub proof fn loaded_skins_are_bound(
    model: SourceModel,
    overrides: Seq<MaterialTextureOverride>,
    native_mtoon: bool,
    descriptors: Seq<MtoonMaterialDescriptor>,
    layout: ModelAsset,
)
    requires
        load_error(model, overrides, native_mtoon, descriptors) is None,
        is_model_layout(model, overrides, native_mtoon, descriptors, layout),
    ensures
        are_bound(layout.skins@, model.nodes@.len()),
        palette_base(layout.skins@, layout.skins@.len()) == joint_total(
            model.skins@,
            model.skins@.len(),
        ),
        palette_base(layout.skins@, layout.skins@.len()) <= MAX_RENDERER_JOINTS,
{
    assert forall|s: int| 0 <= s < layout.skins@.len() implies (
    #[trigger] layout.skins@[s]).joints@.len() == layout.skins@[s].inverse_bind@.len() && (forall|
        k: int,
    |
        0 <= k < layout.skins@[s].joints@.len() ==> #[trigger] layout.skins@[s].joints@[k]
            < model.nodes@.len()) by {
        validated_skins_match(model, s);
        assert(is_skin(model.skins@[s], layout.skins@[s]));
        assert forall|k: int|
            0 <= k < layout.skins@[s].joints@.len() implies #[trigger] layout.skins@[s].joints@[k]
            < model.nodes@.len() by {
            assert(model.skins@[s].joints@[k] < model.nodes@.len());
        }
    }
    same_joint_counts(model, layout.skins@, layout.skins@.len());
    validated_joints_fit(model, model.skins@.len());
}

proof fn same_joint_counts(model: SourceModel, skins: Seq<Skin<[Scalar; 16]>>, count: nat)
    requires
        count <= skins.len(),
        skins.len() == model.skins@.len(),
        forall|s: int| 0 <= s < skins.len() ==> is_skin(model.skins@[s], #[trigger] skins[s]),
    ensures
        palette_base(skins, count) == joint_total(model.skins@, count),
    decreases count,
{
    if count > 0 {
        same_joint_counts(model, skins, (count - 1) as nat);
        assert(is_skin(model.skins@[count - 1], skins[count - 1]));
    }
}

/// The hierarchy of a loaded model can be walked. Where no node of the file has
/// two parents, parents stand before their children, and where the nodes make a
/// forest, the order lists each of them exactly once.
pub proof fn loaded_hierarchies_can_be_walked(
    model: SourceModel,
    overrides: Seq<MaterialTextureOverride>,
    native_mtoon: bool,
    descriptors: Seq<MtoonMaterialDescriptor>,
    layout: ModelAsset,
)
    requires
        model.in_range(),
        is_model_layout(model, overrides, native_mtoon, descriptors, layout),
    ensures
        layout.skeleton.in_range(model.nodes@.len()),
        named_once(children_of(model)) ==> layout.skeleton.parents_first(),
        is_forest(children_of(model)) ==> forall|node: usize|
            node < model.nodes@.len() ==> #[trigger] layout.skeleton.order@.contains(node),
{
    let children = children_of(model);
    assert(model.nodes.len() <= usize::MAX);
    assert forall|i: int, k: int|
        0 <= i < children.len() && 0 <= k < children[i].len() implies #[trigger] children[i][k]
        < children.len() by {
        assert(model.nodes@[i].children@[k] < model.nodes@.len());
    }
    ordered_hierarchies_put_parents_first(children, layout.skeleton);
    if is_forest(children) {
        forests_are_listed_once(children);
    }
}

/// Skinned vertices of a loaded model address joints of their own skin in the
/// palette of all skins.
pub proof fn loaded_joints_address_their_skin(
    model: SourceModel,
    overrides: Seq<MaterialTextureOverride>,
    native_mtoon: bool,
    descriptors: Seq<MtoonMaterialDescriptor>,
    layout: ModelAsset,
    k: int,
    i: int,
    slot: int,
)
    requires
        model.in_range(),
        load_error(model, overrides, native_mtoon, descriptors) is None,
        is_model_layout(model, overrides, native_mtoon, descriptors, layout),
        0 <= k < all_placements(model).len(),
        0 <= i < vertex_count(model, all_placements(model)[k]),
        0 <= slot < 4,
        model.nodes@[all_placements(model)[k].node as int].skin is Some,
    ensures
        ({
            let placement = all_placements(model)[k];
            let skin = model.nodes@[placement.node as int].skin->Some_0 as int;
            let base = joint_total(model.skins@, skin as nat);
            let vertex = vertex_base(model, all_placements(model), k as nat) + i;
            let joint = layout.vertices@[vertex].joints@[slot];
            base <= joint < base + model.skins@[skin].joints@.len()
        }),
{
    let listed = all_placements(model);
    let placement = listed[k];
    let node = placement.node as int;
    let mesh = placement.mesh as int;
    let skin = model.nodes@[node].skin->Some_0 as int;
    placements_exist(model, model.nodes@.len());
    assert(is_placed(model, placement));
    assert(is_binding_at(model, listed, layout.vertices@, k, i));
    let primitive = placed(model, placement);
    let count = model.skins@[skin].joints@.len();
    match primitive.joints {
        Some(joints) => {
            validated_primitives_are_consistent(model, placement);
            let node_check = |i: int| node_error(model, i);
            first_some_none(model.nodes@.len(), node_check);
            assert(node_check(node) is None);
            let primitive_check = |k: int|
                primitive_error(model.meshes@[mesh]@[k], node_joint_count(model, node));
            first_some_none(model.meshes@[mesh]@.len(), primitive_check);
            assert(primitive_check(placement.primitive as int) is None);
            let vertex_check = |vertex: int| vertex_joint_error(joints@, count, vertex);
            assert(joint_error(joints@, count) is None);
            first_some_none(joints@.len(), vertex_check);
            assert(vertex_check(i) is None);
            assert(joint_slot_error(joints@, count, i, 0) is None);
            assert(joint_slot_error(joints@, count, i, 1) is None);
            assert(joint_slot_error(joints@, count, i, 2) is None);
            assert(joint_slot_error(joints@, count, i, 3) is None);
            assert(joint_slot_error(joints@, count, i, slot) is None);
        },
        None => {
            let check = |k: int|
                match placement_error(model, descriptors, overrides, listed[k]) {
                    Some(error) => Some((listed[k], error)),
                    None => None,
                };
            first_some_none(listed.len(), check);
            assert(check(k) is None);
            assert(implicit_joint_error(model, placement) is None);
        },
    }
}

/// The materials of a loaded model stand at the indices that they have in the
/// file.
pub proof fn loaded_materials_stand_at_their_index(
    model: SourceModel,
    overrides: Seq<MaterialTextureOverride>,
    native_mtoon: bool,
    descriptors: Seq<MtoonMaterialDescriptor>,
    layout: ModelAsset,
)
    requires
        is_model_layout(model, overrides, native_mtoon, descriptors, layout),
    ensures
        layout.materials@.len() == model.materials@.len(),
        forall|i: int|
            0 <= i < layout.materials@.len() ==> (
            #[trigger] layout.materials@[i]).gltf_material_index == i,
{
}

/// Shifted from the vertices of its primitive to its overlay, every index of a
/// morphing primitive names one of the primitive's own overlay vertices.
pub proof fn morphed_indices_stay_in_their_overlay(
    model: SourceModel,
    overrides: Seq<MaterialTextureOverride>,
    native_mtoon: bool,
    descriptors: Seq<MtoonMaterialDescriptor>,
    layout: ModelAsset,
    k: int,
    i: int,
)
    requires
        model.in_range(),
        load_error(model, overrides, native_mtoon, descriptors) is None,
        is_model_layout(model, overrides, native_mtoon, descriptors, layout),
        0 <= k < layout.primitives@.len(),
        layout.prim_morph@[k] is Some,
        0 <= i < layout.primitives@[k].index_count,
    ensures
        ({
            let slot = layout.prim_morph@[k]->Some_0;
            let prim = layout.morph_meshes@[slot.0 as int].prims@[slot.1 as int];
            let index = layout.indices@[layout.primitives@[k].first_index + i];
            let shifted = index + (prim.overlay_offset - prim.vertex_base);
            prim.overlay_offset <= shifted < prim.overlay_offset + prim.vertex_count
        }),
{
    let listed = all_placements(model);
    let slot = layout.prim_morph@[k]->Some_0;
    let mesh = layout.morph_meshes@[slot.0 as int];
    placements_exist(model, model.nodes@.len());
    assert(is_placed(model, listed[k]));
    validated_primitives_are_consistent(model, listed[k]);
    assert(is_upload(
        model,
        layout.materials@,
        overrides,
        native_mtoon,
        listed,
        k,
        layout.primitives@[k],
    ));
    assert(is_morph_slot(model, listed, layout.morph_meshes@, k, layout.prim_morph@[k]));
    assert(is_morph_mesh(model, listed, listed.len(), mesh));
    assert(is_morph_prim(
        model,
        listed,
        morphing_of(model, listed, mesh.mesh, listed.len())[slot.1 as int],
        mesh.prims@[slot.1 as int],
    ));
    indices_stay_with_their_placement(
        model,
        listed,
        layout.vertices@,
        layout.indices@,
        k,
        i,
    );
}

/// In the joint palette the joints of the first skin come first, those of each
/// other skin after the ones before it; each is where its node stands, out of
/// the bind pose.
pub proof fn palettes_hold_the_skins_in_turn<M, F: Fn(M, M) -> M>(
    skins: Seq<Skin<M>>,
    globals: Seq<M>,
    compose: F,
    palette: Seq<M>,
    s: int,
    k: int,
)
    requires
        0 <= s < skins.len(),
        0 <= k < skins[s].joints@.len(),
        is_palette_entry(skins, globals, compose, palette, s, k),
    ensures
        palette_base(skins, 0) == 0,
        palette_base(skins, (s + 1) as nat) == palette_base(skins, s as nat)
            + skins[s].joints@.len(),
        call_ensures(
            compose,
            (globals[skins[s].joints@[k] as int], skins[s].inverse_bind@[k]),
            palette[palette_base(skins, s as nat) + k],
        ),
{
}

/// A model of raw geometry is one white primitive over all of it, opaque, lit and
/// single-sided, under its label.
pub proof fn raw_geometry_is_drawn_whole(
    label: Seq<char>,
    vertices: nat,
    indices: nat,
    primitive: PrimitiveUpload,
    c: int,
)
    requires
        is_whole_geometry(label, vertices, indices, primitive),
        0 <= c < 4,
    ensures
        primitive.vertex_base == 0 && primitive.vertex_count == vertices,
        primitive.first_index == 0 && primitive.index_count == indices,
        primitive.base_color_factor@[c].bits == 0x3f80_0000,
        primitive.alpha_mode is Opaque && primitive.render_phase is Opaque,
        !primitive.unlit && !primitive.double_sided && !primitive.native,
        primitive.material_index == Some(0usize),
        text_of(primitive.material_name) == Some(label),
{
}

} // verus!
