//! Where the primitives of a model go: which vertices and indices they take,
//! how they are drawn, and how their morph targets are laid out.

use vstd::prelude::*;

use crate::authoring::{
    are_authored, authored_render_phase, authored_render_queue_offset, descriptor_for, has_outline,
    is_authored, is_mtoon, mode_in, mtoon_outline_enabled, native_stage_f_capable, phase_of,
    queue_offset_of, role_in, MaterialBaseColorMode,
};
use crate::import::descriptor_textures;
use crate::material::{
    selected_tex_coord, MaterialAlphaMode, MaterialAsset, MtoonMaterialDescriptor, RenderPhase,
    TextureInfo, TextureRole, HALF,
};
use crate::overrides::{
    as_index, match_override, single_match, tex_coord_error, validate_normalized_texcoord0,
    values_of, MaterialTextureOverride, TexCoordError,
};
use crate::scalar::Scalar;
use crate::search::{first_some, first_some_stays, or_else, outcome};
use crate::source::{copy_text, names_one, text_of, SourceMaterial, SourceModel, SourcePrimitive};
use crate::validation::{joint_total, InputError, MAX_RENDERER_JOINTS};

verus! {

/// A primitive in the scene: the node that shows it, and where it stands in
/// its mesh.
#[derive(Clone, Copy, Debug, PartialEq, Eq, Structural)]
pub struct Placement {
    pub node: usize,
    pub mesh: usize,
    pub primitive: usize,
}

/// The primitives with positions among the first `count` of a mesh.
pub open spec fn mesh_placements(
    model: SourceModel,
    node: usize,
    mesh: usize,
    count: nat,
) -> Seq<Placement>
    decreases count,
{
    if count == 0 {
        Seq::empty()
    } else {
        let earlier = mesh_placements(model, node, mesh, (count - 1) as nat);
        if model.meshes@[mesh as int]@[count - 1].positions is Some {
            earlier.push(Placement { node, mesh, primitive: (count - 1) as usize })
        } else {
            earlier
        }
    }
}

/// The primitives that a node shows.
pub open spec fn node_placements(model: SourceModel, node: int) -> Seq<Placement> {
    match model.nodes@[node].mesh {
        Some(mesh) => mesh_placements(
            model,
            node as usize,
            mesh,
            model.meshes@[mesh as int]@.len(),
        ),
        None => Seq::empty(),
    }
}

/// The primitives that the first `count` nodes show.
pub open spec fn placements(model: SourceModel, count: nat) -> Seq<Placement>
    decreases count,
{
    if count == 0 {
        Seq::empty()
    } else {
        placements(model, (count - 1) as nat) + node_placements(model, count - 1)
    }
}

/// Every primitive in the scene, in node order.
pub open spec fn all_placements(model: SourceModel) -> Seq<Placement> {
    placements(model, model.nodes@.len())
}

/// Whether `placement` names a primitive with positions.
pub open spec fn is_placed(model: SourceModel, placement: Placement) -> bool {
    &&& placement.node < model.nodes@.len()
    &&& model.nodes@[placement.node as int].mesh == Some(placement.mesh)
    &&& placement.mesh < model.meshes@.len()
    &&& placement.primitive < model.meshes@[placement.mesh as int]@.len()
    &&& placed(model, placement).positions is Some
}

/// The primitive of a placement.
pub open spec fn placed(model: SourceModel, placement: Placement) -> SourcePrimitive {
    model.meshes@[placement.mesh as int]@[placement.primitive as int]
}

proof fn mesh_placements_exist(model: SourceModel, node: usize, mesh: usize, count: nat)
    requires
        node < model.nodes@.len(),
        model.nodes@[node as int].mesh == Some(mesh),
        mesh < model.meshes@.len(),
        count <= model.meshes@[mesh as int]@.len(),
    ensures
        forall|k: int|
            0 <= k < mesh_placements(model, node, mesh, count).len() ==> is_placed(
                model,
                #[trigger] mesh_placements(model, node, mesh, count)[k],
            ),
    decreases count,
{
    if count > 0 {
        mesh_placements_exist(model, node, mesh, (count - 1) as nat);
        assert(model.meshes@[mesh as int].len() <= usize::MAX);
        let earlier = mesh_placements(model, node, mesh, (count - 1) as nat);
        assert forall|k: int|
            0 <= k < mesh_placements(model, node, mesh, count).len() implies is_placed(
            model,
            #[trigger] mesh_placements(model, node, mesh, count)[k],
        ) by {
            if k < earlier.len() {
                assert(mesh_placements(model, node, mesh, count)[k] == earlier[k]);
            }
        }
    }
}

/// Every placement that the first `count` nodes show is a primitive with
/// positions.
pub proof fn placements_exist(model: SourceModel, count: nat)
    requires
        model.in_range(),
        count <= model.nodes@.len(),
    ensures
        forall|k: int|
            0 <= k < placements(model, count).len() ==> is_placed(
                model,
                #[trigger] placements(model, count)[k],
            ),
    decreases count,
{
    if count > 0 {
        placements_exist(model, (count - 1) as nat);
        assert(model.nodes.len() <= usize::MAX);
        assert(names_one(model.nodes@[count - 1].mesh, model.meshes@.len()));
        if let Some(mesh) = model.nodes@[count - 1].mesh {
            mesh_placements_exist(
                model,
                (count - 1) as usize,
                mesh,
                model.meshes@[mesh as int]@.len(),
            );
        }
        let earlier = placements(model, (count - 1) as nat);
        assert forall|k: int| 0 <= k < placements(model, count).len() implies is_placed(
            model,
            #[trigger] placements(model, count)[k],
        ) by {
            if k < earlier.len() {
                assert(placements(model, count)[k] == earlier[k]);
            } else {
                assert(placements(model, count)[k] == node_placements(model, count - 1)[k
                    - earlier.len()]);
            }
        }
    }
}

proof fn mesh_placements_are_ordered(model: SourceModel, node: usize, mesh: usize, count: nat)
    requires
        count <= model.meshes@[mesh as int]@.len(),
    ensures
        ({
            let listed = mesh_placements(model, node, mesh, count);
            &&& forall|k: int|
                0 <= k < listed.len() ==> (#[trigger] listed[k]).node == node && listed[k].mesh
                    == mesh && listed[k].primitive < count
            &&& forall|a: int, b: int|
                0 <= a < b < listed.len() ==> (#[trigger] listed[a]).primitive < (
                #[trigger] listed[b]).primitive
            &&& forall|p: int|
                0 <= p < count && (#[trigger] model.meshes@[mesh as int]@[p]).positions is Some
                    ==> listed.contains(Placement { node, mesh, primitive: p as usize })
        }),
    decreases count,
{
    if count > 0 {
        mesh_placements_are_ordered(model, node, mesh, (count - 1) as nat);
        assert(model.meshes@[mesh as int].len() <= usize::MAX);
        let earlier = mesh_placements(model, node, mesh, (count - 1) as nat);
        let listed = mesh_placements(model, node, mesh, count);
        assert forall|p: int|
            0 <= p < count && (#[trigger] model.meshes@[mesh as int]@[p]).positions
                is Some implies listed.contains(
            Placement { node, mesh, primitive: p as usize },
        ) by {
            let placement = Placement { node, mesh, primitive: p as usize };
            if p < count - 1 {
                let k = choose|k: int| 0 <= k < earlier.len() && earlier[k] == placement;
                assert(listed[k] == placement);
            } else {
                assert(listed[earlier.len() as int] == placement);
            }
        }
    }
}

/// The placements that the first `count` nodes show come in the order of the
/// nodes, those of a node in the order of its mesh, and none is left out.
pub proof fn node_placements_are_ordered(model: SourceModel, count: nat)
    requires
        model.in_range(),
        count <= model.nodes@.len(),
    ensures
        ({
            let listed = placements(model, count);
            &&& forall|k: int| 0 <= k < listed.len() ==> (#[trigger] listed[k]).node < count
            &&& forall|a: int, b: int|
                0 <= a < b < listed.len() ==> {
                    ||| (#[trigger] listed[a]).node < (#[trigger] listed[b]).node
                    ||| listed[a].node == listed[b].node && listed[a].primitive
                        < listed[b].primitive
                }
            &&& forall|placement: Placement|
                placement.node < count && #[trigger] is_placed(model, placement)
                    ==> listed.contains(placement)
        }),
    decreases count,
{
    if count > 0 {
        node_placements_are_ordered(model, (count - 1) as nat);
        assert(model.nodes.len() <= usize::MAX);
        assert(names_one(model.nodes@[count - 1].mesh, model.meshes@.len()));
        if let Some(mesh) = model.nodes@[count - 1].mesh {
            mesh_placements_are_ordered(
                model,
                (count - 1) as usize,
                mesh,
                model.meshes@[mesh as int]@.len(),
            );
        }
        let earlier = placements(model, (count - 1) as nat);
        let own = node_placements(model, count - 1);
        let listed = placements(model, count);
        assert forall|k: int| 0 <= k < listed.len() implies (#[trigger] listed[k]).node < count by {
            if k >= earlier.len() {
                assert(listed[k] == own[k - earlier.len()]);
            }
        }
        assert forall|a: int, b: int| 0 <= a < b < listed.len() implies {
            ||| (#[trigger] listed[a]).node < (#[trigger] listed[b]).node
            ||| listed[a].node == listed[b].node && listed[a].primitive < listed[b].primitive
        } by {
            if b >= earlier.len() {
                assert(listed[b] == own[b - earlier.len()]);
                if a >= earlier.len() {
                    assert(listed[a] == own[a - earlier.len()]);
                } else {
                    assert(listed[a] == earlier[a]);
                }
            } else {
                assert(listed[a] == earlier[a] && listed[b] == earlier[b]);
            }
        }
        assert forall|placement: Placement|
            placement.node < count && #[trigger] is_placed(
                model,
                placement,
            ) implies listed.contains(
            placement,
        ) by {
            if placement.node < count - 1 {
                let k = choose|k: int| 0 <= k < earlier.len() && earlier[k] == placement;
                assert(listed[k] == placement);
            } else {
                assert(model.meshes@[placement.mesh as int]@[placement.primitive as int].positions
                    is Some);
                let k = choose|k: int| 0 <= k < own.len() && own[k] == placement;
                assert(listed[earlier.len() + k] == placement);
            }
        }
    }
}

/// Lists the primitives in the scene.
pub fn list_placements(model: &SourceModel) -> (listed: Vec<Placement>)
    requires
        model.in_range(),
    ensures
        listed@ == all_placements(*model),
        forall|k: int| 0 <= k < listed@.len() ==> is_placed(*model, #[trigger] listed@[k]),
{
    let mut listed: Vec<Placement> = Vec::new();
    let mut node: usize = 0;
    while node < model.nodes.len()
        invariant
            node <= model.nodes@.len(),
            model.in_range(),
            listed@ == placements(*model, node as nat),
            forall|k: int| 0 <= k < listed@.len() ==> is_placed(*model, #[trigger] listed@[k]),
        decreases model.nodes@.len() - node,
    {
        let ghost before = listed@;
        assert(names_one(model.nodes@[node as int].mesh, model.meshes@.len()));
        if let Some(mesh) = model.nodes[node].mesh {
            let mut primitive: usize = 0;
            assert(listed@ =~= before + mesh_placements(*model, node, mesh, 0));
            while primitive < model.meshes[mesh].len()
                invariant
                    node < model.nodes@.len(),
                    model.nodes@[node as int].mesh == Some(mesh),
                    mesh < model.meshes@.len(),
                    primitive <= model.meshes@[mesh as int]@.len(),
                    listed@ == before + mesh_placements(*model, node, mesh, primitive as nat),
                    forall|k: int|
                        0 <= k < listed@.len() ==> is_placed(*model, #[trigger] listed@[k]),
                decreases model.meshes@[mesh as int]@.len() - primitive,
            {
                if model.meshes[mesh][primitive].positions.is_some() {
                    let ghost earlier = listed@;
                    let placement = Placement { node, mesh, primitive };
                    listed.push(placement);
                    assert(listed@ =~= before + mesh_placements(
                        *model,
                        node,
                        mesh,
                        (primitive + 1) as nat,
                    ));
                    assert(is_placed(*model, placement));
                }
                primitive += 1;
            }
        } else {
            assert(listed@ =~= before + Seq::<Placement>::empty());
        }
        node += 1;
    }
    listed
}

/// How many vertices a placement takes.
pub open spec fn vertex_count(model: SourceModel, placement: Placement) -> nat {
    match placed(model, placement).positions {
        Some(positions) => positions@.len(),
        None => 0,
    }
}

/// How many indices a placement takes: one per vertex unless it has its own.
pub open spec fn index_count(model: SourceModel, placement: Placement) -> nat {
    match placed(model, placement).indices {
        Some(indices) => indices@.len(),
        None => vertex_count(model, placement),
    }
}

/// The vertices of the first `count` placements together.
pub open spec fn vertex_base(model: SourceModel, listed: Seq<Placement>, count: nat) -> nat
    decreases count,
{
    if count == 0 {
        0
    } else {
        vertex_base(model, listed, (count - 1) as nat) + vertex_count(model, listed[count - 1])
    }
}

/// The indices of the first `count` placements together.
pub open spec fn index_base(model: SourceModel, listed: Seq<Placement>, count: nat) -> nat
    decreases count,
{
    if count == 0 {
        0
    } else {
        index_base(model, listed, (count - 1) as nat) + index_count(model, listed[count - 1])
    }
}

/// Whether the vertices and indices can be counted with 32 bits.
pub open spec fn fits(model: SourceModel, listed: Seq<Placement>) -> bool {
    vertex_base(model, listed, listed.len()) <= u32::MAX && index_base(
        model,
        listed,
        listed.len(),
    ) <= u32::MAX
}

/// Earlier placements take no more than all of them.
proof fn bases_grow(model: SourceModel, listed: Seq<Placement>, earlier: nat, count: nat)
    requires
        earlier <= count,
    ensures
        vertex_base(model, listed, earlier) <= vertex_base(model, listed, count),
        index_base(model, listed, earlier) <= index_base(model, listed, count),
    decreases count,
{
    if earlier < count {
        bases_grow(model, listed, earlier, (count - 1) as nat);
    }
}

/// The vertices and indices of a placement begin after those before it, and
/// end where the next begin.
pub proof fn bases_step(model: SourceModel, listed: Seq<Placement>, k: int)
    requires
        0 <= k,
    ensures
        vertex_base(model, listed, (k + 1) as nat) == vertex_base(model, listed, k as nat)
            + vertex_count(model, listed[k]),
        index_base(model, listed, (k + 1) as nat) == index_base(model, listed, k as nat)
            + index_count(model, listed[k]),
{
}

/// Placements do not share vertices or indices: each begins where the one
/// before it ends.
pub proof fn placements_are_disjoint(
    model: SourceModel,
    listed: Seq<Placement>,
    first: int,
    second: int,
)
    requires
        0 <= first < second < listed.len(),
    ensures
        vertex_base(model, listed, first as nat) + vertex_count(model, listed[first])
            <= vertex_base(model, listed, second as nat),
        index_base(model, listed, first as nat) + index_count(model, listed[first]) <= index_base(
            model,
            listed,
            second as nat,
        ),
{
    bases_grow(model, listed, (first + 1) as nat, second as nat);
}

fn count_vertices(model: &SourceModel, placement: Placement) -> (count: usize)
    requires
        is_placed(*model, placement),
    ensures
        count == vertex_count(*model, placement),
{
    match &model.meshes[placement.mesh][placement.primitive].positions {
        Some(positions) => positions.len(),
        None => 0,
    }
}

fn count_indices(model: &SourceModel, placement: Placement) -> (count: usize)
    requires
        is_placed(*model, placement),
    ensures
        count == index_count(*model, placement),
{
    match &model.meshes[placement.mesh][placement.primitive].indices {
        Some(indices) => indices.len(),
        None => count_vertices(model, placement),
    }
}

/// Whether the vertices and indices can be counted with 32 bits.
pub fn sizes_fit(model: &SourceModel, listed: &Vec<Placement>) -> (fit: bool)
    requires
        forall|k: int| 0 <= k < listed@.len() ==> is_placed(*model, #[trigger] listed@[k]),
    ensures
        fit == fits(*model, listed@),
{
    let mut vertices: u32 = 0;
    let mut indices: u32 = 0;
    let mut k: usize = 0;
    while k < listed.len()
        invariant
            k <= listed@.len(),
            forall|k: int| 0 <= k < listed@.len() ==> is_placed(*model, #[trigger] listed@[k]),
            vertices == vertex_base(*model, listed@, k as nat),
            indices == index_base(*model, listed@, k as nat),
        decreases listed@.len() - k,
    {
        let more_vertices: usize = count_vertices(model, listed[k]);
        let more_indices: usize = count_indices(model, listed[k]);
        proof {
            bases_grow(*model, listed@, (k + 1) as nat, listed@.len());
        }
        if more_vertices > (u32::MAX - vertices) as usize || more_indices > (u32::MAX
            - indices) as usize {
            return false;
        }
        vertices = vertices + more_vertices as u32;
        indices = indices + more_indices as u32;
        k += 1;
    }
    true
}

/// What a vertex has besides its position and normal.
#[derive(Clone, Copy, Debug)]
pub struct VertexBinding {
    pub uv: [Scalar; 2],
    pub joints: [u32; 4],
    pub weights: [Scalar; 4],
    pub uv1: [Scalar; 2],
}

/// Whether `pair` is pair `i` of `coords`, or zero without coordinates.
pub open spec fn is_coordinate(
    coords: Option<Vec<[Scalar; 2]>>,
    i: int,
    pair: [Scalar; 2],
) -> bool {
    match coords {
        Some(coords) => pair == coords@[i],
        None => pair@[0].bits == 0 && pair@[1].bits == 0,
    }
}

/// Whether `weights` bind a vertex to its first joint alone.
pub open spec fn is_rigid(weights: [Scalar; 4]) -> bool {
    weights@[0].bits == 0x3f80_0000 && weights@[1].bits == 0 && weights@[2].bits == 0
        && weights@[3].bits == 0
}

/// Slot `slot` of the joints of vertex `i`: the first joint without joints.
pub open spec fn joint_of(joints: Option<Vec<[u16; 4]>>, i: int, slot: int) -> int {
    match joints {
        Some(joints) => joints@[i]@[slot] as int,
        None => 0,
    }
}

/// Whether `binding` is that of vertex `i` of a placement. Joints of a skin
/// are counted from the joints of the skins before it; a vertex without skin
/// is bound to the first joint alone.
pub open spec fn is_binding(
    model: SourceModel,
    placement: Placement,
    i: int,
    binding: VertexBinding,
) -> bool {
    let primitive = placed(model, placement);
    &&& is_coordinate(primitive.tex_coords0, i, binding.uv)
    &&& is_coordinate(primitive.tex_coords1, i, binding.uv1)
    &&& match model.nodes@[placement.node as int].skin {
        Some(skin) => {
            let base = joint_total(model.skins@, skin as nat);
            &&& forall|slot: int|
                0 <= slot < 4 ==> #[trigger] binding.joints@[slot] == base + joint_of(
                    primitive.joints,
                    i,
                    slot,
                )
            &&& match primitive.weights {
                Some(weights) => binding.weights == weights@[i],
                None => is_rigid(binding.weights),
            }
        },
        None => {
            &&& forall|slot: int| 0 <= slot < 4 ==> #[trigger] binding.joints@[slot] == 0
            &&& is_rigid(binding.weights)
        },
    }
}

/// Whether the attributes of a placement have a value per position and its
/// indices name positions.
pub open spec fn is_consistent(model: SourceModel, placement: Placement) -> bool {
    let primitive = placed(model, placement);
    let count = vertex_count(model, placement);
    &&& primitive.tex_coords0 matches Some(values) ==> values@.len() == count
    &&& primitive.tex_coords1 matches Some(values) ==> values@.len() == count
    &&& primitive.joints matches Some(values) ==> values@.len() == count
    &&& primitive.weights matches Some(values) ==> values@.len() == count
    &&& primitive.indices matches Some(indices) ==> forall|i: int|
        0 <= i < indices@.len() ==> #[trigger] indices@[i] < count
}

fn coordinate(coords: &Option<Vec<[Scalar; 2]>>, i: usize) -> (pair: [Scalar; 2])
    requires
        coords matches Some(values) ==> i < values@.len(),
    ensures
        is_coordinate(*coords, i as int, pair),
{
    match coords {
        Some(coords) => coords[i],
        None => [Scalar::zero(), Scalar::zero()],
    }
}

fn bind_vertex(model: &SourceModel, placement: Placement, skin_base: u32, i: usize) -> (binding:
    VertexBinding)
    requires
        is_placed(*model, placement),
        is_consistent(*model, placement),
        i < vertex_count(*model, placement),
        skin_base <= MAX_RENDERER_JOINTS,
        model.nodes@[placement.node as int].skin matches Some(skin) ==> skin_base == joint_total(
            model.skins@,
            skin as nat,
        ),
    ensures
        is_binding(*model, placement, i as int, binding),
{
    let primitive = &model.meshes[placement.mesh][placement.primitive];
    let uv: [Scalar; 2] = coordinate(&primitive.tex_coords0, i);
    let uv1: [Scalar; 2] = coordinate(&primitive.tex_coords1, i);
    let rigid: [Scalar; 4] = [Scalar::one(), Scalar::zero(), Scalar::zero(), Scalar::zero()];
    match model.nodes[placement.node].skin {
        None => VertexBinding { uv, joints: [0, 0, 0, 0], weights: rigid, uv1 },
        Some(_) => {
            let local: [u16; 4] = match &primitive.joints {
                Some(joints) => joints[i],
                None => [0, 0, 0, 0],
            };
            let joints: [u32; 4] = [
                skin_base + local[0] as u32,
                skin_base + local[1] as u32,
                skin_base + local[2] as u32,
                skin_base + local[3] as u32,
            ];
            let weights: [Scalar; 4] = match &primitive.weights {
                Some(weights) => weights[i],
                None => rigid,
            };
            VertexBinding { uv, joints, weights, uv1 }
        },
    }
}

/// Index `i` of a placement whose vertices begin at `base`.
pub open spec fn rebased_index(model: SourceModel, placement: Placement, base: nat, i: int) -> int {
    match placed(model, placement).indices {
        Some(indices) => base + indices@[i],
        None => base + i,
    }
}

/// Whether `vertices` and `indices` are those of the first `count` placements,
/// one placement after the other.
pub open spec fn are_laid_out(
    model: SourceModel,
    listed: Seq<Placement>,
    count: nat,
    vertices: Seq<VertexBinding>,
    indices: Seq<u32>,
) -> bool {
    &&& vertices.len() == vertex_base(model, listed, count)
    &&& indices.len() == index_base(model, listed, count)
    &&& forall|k: int, i: int|
        #![trigger is_binding_at(model, listed, vertices, k, i)]
        0 <= k < count && 0 <= i < vertex_count(model, listed[k]) ==> is_binding_at(
            model,
            listed,
            vertices,
            k,
            i,
        )
    &&& forall|k: int, i: int|
        #![trigger is_index_at(model, listed, indices, k, i)]
        0 <= k < count && 0 <= i < index_count(model, listed[k]) ==> is_index_at(
            model,
            listed,
            indices,
            k,
            i,
        )
}

/// Whether vertex `i` of placement `k` stands in its place.
pub open spec fn is_binding_at(
    model: SourceModel,
    listed: Seq<Placement>,
    vertices: Seq<VertexBinding>,
    k: int,
    i: int,
) -> bool {
    is_binding(
        model,
        listed[k],
        i,
        vertices[vertex_base(model, listed, k as nat) + i],
    )
}

/// Whether index `i` of placement `k` stands in its place.
pub open spec fn is_index_at(
    model: SourceModel,
    listed: Seq<Placement>,
    indices: Seq<u32>,
    k: int,
    i: int,
) -> bool {
    indices[index_base(model, listed, k as nat) + i] == rebased_index(
        model,
        listed[k],
        vertex_base(model, listed, k as nat),
        i,
    )
}

/// Lays out the vertices and indices of all placements.
pub fn lay_out(model: &SourceModel, listed: &Vec<Placement>, skin_base: &Vec<u32>) -> (laid: (
    Vec<VertexBinding>,
    Vec<u32>,
))
    requires
        model.in_range(),
        forall|k: int| 0 <= k < listed@.len() ==> is_placed(*model, #[trigger] listed@[k]),
        forall|k: int| 0 <= k < listed@.len() ==> is_consistent(*model, #[trigger] listed@[k]),
        fits(*model, listed@),
        skin_base@.len() == model.skins@.len(),
        forall|s: int|
            0 <= s < skin_base@.len() ==> #[trigger] skin_base@[s] == joint_total(
                model.skins@,
                s as nat,
            ) && skin_base@[s] <= MAX_RENDERER_JOINTS,
    ensures
        are_laid_out(*model, listed@, listed@.len(), laid.0@, laid.1@),
{
    let mut vertices: Vec<VertexBinding> = Vec::new();
    let mut indices: Vec<u32> = Vec::new();
    let mut k: usize = 0;
    while k < listed.len()
        invariant
            k <= listed@.len(),
            model.in_range(),
            forall|k: int| 0 <= k < listed@.len() ==> is_placed(*model, #[trigger] listed@[k]),
            forall|k: int| 0 <= k < listed@.len() ==> is_consistent(*model, #[trigger] listed@[k]),
            fits(*model, listed@),
            skin_base@.len() == model.skins@.len(),
            forall|s: int|
                0 <= s < skin_base@.len() ==> #[trigger] skin_base@[s] == joint_total(
                    model.skins@,
                    s as nat,
                ) && skin_base@[s] <= MAX_RENDERER_JOINTS,
            are_laid_out(*model, listed@, k as nat, vertices@, indices@),
        decreases listed@.len() - k,
    {
        let placement = listed[k];
        assert(is_placed(*model, listed@[k as int]));
        assert(is_consistent(*model, listed@[k as int]));
        assert(names_one(model.nodes@[placement.node as int].skin, model.skins@.len()));
        proof {
            bases_grow(*model, listed@, (k + 1) as nat, listed@.len());
        }
        let base: u32 = vertices.len() as u32;
        let own_base: u32 = match model.nodes[placement.node].skin {
            Some(skin) => skin_base[skin],
            None => 0,
        };
        let count: usize = count_vertices(model, placement);
        let ghost vertices_before = vertices@;
        let ghost indices_before = indices@;
        let mut i: usize = 0;
        while i < count
            invariant
                i <= count,
                k < listed@.len(),
                placement == listed@[k as int],
                is_placed(*model, placement),
                is_consistent(*model, placement),
                count == vertex_count(*model, placement),
                own_base <= MAX_RENDERER_JOINTS,
                model.nodes@[placement.node as int].skin matches Some(skin) ==> own_base
                    == joint_total(model.skins@, skin as nat),
                vertices@.len() == vertices_before.len() + i,
                forall|j: int|
                    0 <= j < vertices_before.len() ==> #[trigger] vertices@[j]
                        == vertices_before[j],
                forall|j: int|
                    0 <= j < i ==> is_binding(
                        *model,
                        placement,
                        j,
                        #[trigger] vertices@[vertices_before.len() + j],
                    ),
            decreases count - i,
        {
            let binding = bind_vertex(model, placement, own_base, i);
            vertices.push(binding);
            i += 1;
        }
        let own: usize = count_indices(model, placement);
        let mut i: usize = 0;
        while i < own
            invariant
                i <= own,
                k < listed@.len(),
                placement == listed@[k as int],
                is_placed(*model, placement),
                is_consistent(*model, placement),
                own == index_count(*model, placement),
                base + vertex_count(*model, placement) <= u32::MAX,
                indices@.len() == indices_before.len() + i,
                forall|j: int|
                    0 <= j < indices_before.len() ==> #[trigger] indices@[j] == indices_before[j],
                forall|j: int|
                    0 <= j < i ==> #[trigger] indices@[indices_before.len() + j]
                        == rebased_index(*model, placement, base as nat, j),
            decreases own - i,
        {
            let local: u32 = match &model.meshes[placement.mesh][placement.primitive].indices {
                Some(indices) => indices[i],
                None => i as u32,
            };
            indices.push(base + local);
            i += 1;
        }
        proof {
            let after = (k + 1) as nat;
            assert forall|j: int, i: int|
                #![trigger is_binding_at(*model, listed@, vertices@, j, i)]
                0 <= j < after && 0 <= i < vertex_count(*model, listed@[j]) implies is_binding_at(
                *model,
                listed@,
                vertices@,
                j,
                i,
            ) by {
                if j < k {
                    placements_are_disjoint(*model, listed@, j, k as int);
                    assert(is_binding_at(*model, listed@, vertices_before, j, i));
                } else {
                    assert(vertices@[vertices_before.len() + i] == vertices@[vertex_base(
                        *model,
                        listed@,
                        j as nat,
                    ) + i]);
                }
            }
            assert forall|j: int, i: int|
                #![trigger is_index_at(*model, listed@, indices@, j, i)]
                0 <= j < after && 0 <= i < index_count(*model, listed@[j]) implies is_index_at(
                *model,
                listed@,
                indices@,
                j,
                i,
            ) by {
                if j < k {
                    placements_are_disjoint(*model, listed@, j, k as int);
                    assert(is_index_at(*model, listed@, indices_before, j, i));
                } else {
                    assert(indices@[indices_before.len() + i] == rebased_index(
                        *model,
                        placement,
                        base as nat,
                        i,
                    ));
                }
            }
        }
        k += 1;
    }
    (vertices, indices)
}

/// Every index of a placement names one of its own vertices.
pub proof fn indices_stay_with_their_placement(
    model: SourceModel,
    listed: Seq<Placement>,
    vertices: Seq<VertexBinding>,
    indices: Seq<u32>,
    k: int,
    i: int,
)
    requires
        are_laid_out(model, listed, listed.len(), vertices, indices),
        0 <= k < listed.len(),
        is_consistent(model, listed[k]),
        0 <= i < index_count(model, listed[k]),
    ensures
        ({
            let base = vertex_base(model, listed, k as nat);
            let index = indices[index_base(model, listed, k as nat) + i];
            base <= index < base + vertex_count(model, listed[k]) <= vertices.len()
        }),
{
    assert(is_index_at(model, listed, indices, k, i));
    bases_grow(model, listed, (k + 1) as nat, listed.len());
}

/// Why a primitive cannot be placed.
#[derive(Clone, Copy, Debug, PartialEq, Eq, Structural)]
pub enum PlacementError {
    /// A skinned vertex names no joint of its skin.
    Joints(InputError),
    /// A toon texture selects coordinates that the primitive does not have.
    MtoonTexCoord { material: usize, role: TextureRole, set: u32 },
    MultipleOverrides,
    TexCoords(TexCoordError),
}

/// What is wrong with a skinned primitive that has no joints of its own: its
/// vertices are bound to the first joint, so the skin needs one.
pub open spec fn implicit_joint_error(model: SourceModel, placement: Placement) -> Option<
    PlacementError,
> {
    match model.nodes@[placement.node as int].skin {
        Some(skin) => if placed(model, placement).joints is None && vertex_count(model, placement)
            > 0 && model.skins@[skin as int].joints@.len() == 0 {
            Some(
                PlacementError::Joints(
                    InputError::JointIndex { vertex: 0, slot: 0, joint: 0, joints: 0 },
                ),
            )
        } else {
            None
        },
        None => None,
    }
}

/// Whether a primitive has the coordinates that a texture selects.
pub open spec fn has_selected_set(primitive: SourcePrimitive, texture: TextureInfo) -> bool {
    if selected_tex_coord(texture) == 0 {
        primitive.tex_coords0 is Some
    } else if selected_tex_coord(texture) == 1 {
        primitive.tex_coords1 is Some
    } else {
        false
    }
}

/// What is wrong with a texture of toon material `material` on a primitive.
/// Matcaps are sampled by the normal and need no coordinates.
pub open spec fn mtoon_texture_error(
    primitive: SourcePrimitive,
    material: usize,
    texture: TextureInfo,
) -> Option<PlacementError> {
    if texture.role == TextureRole::Matcap || has_selected_set(primitive, texture) {
        None
    } else {
        Some(
            PlacementError::MtoonTexCoord {
                material,
                role: texture.role,
                set: selected_tex_coord(texture),
            },
        )
    }
}

/// What is wrong with the textures of the material of a primitive, if that is
/// a toon material.
pub open spec fn mtoon_error(
    primitive: SourcePrimitive,
    descriptors: Seq<MtoonMaterialDescriptor>,
) -> Option<PlacementError> {
    match primitive.material {
        Some(material) => match descriptor_for(descriptors, material as int) {
            Some(d) => first_some(
                descriptor_textures(descriptors[d]).len(),
                |k: int|
                    mtoon_texture_error(
                        primitive,
                        material,
                        descriptor_textures(descriptors[d])[k],
                    ),
            ),
            None => None,
        },
        None => None,
    }
}

/// The role and the name of the material of a primitive.
pub open spec fn tags_of(model: SourceModel, primitive: SourcePrimitive) -> (
    Option<Seq<char>>,
    Option<Seq<char>>,
) {
    match primitive.material {
        Some(material) => (
            role_in(text_of(model.materials@[material as int].extras)),
            text_of(model.materials@[material as int].name),
        ),
        None => (None, None),
    }
}

/// The override of a primitive.
pub open spec fn override_of(
    model: SourceModel,
    overrides: Seq<MaterialTextureOverride>,
    primitive: SourcePrimitive,
) -> Result<Option<int>, ()> {
    single_match(overrides, tags_of(model, primitive).0, tags_of(model, primitive).1)
}

/// What is wrong with the override of a primitive.
pub open spec fn override_error(
    model: SourceModel,
    overrides: Seq<MaterialTextureOverride>,
    primitive: SourcePrimitive,
    vertices: nat,
) -> Option<PlacementError> {
    match override_of(model, overrides, primitive) {
        Err(_) => Some(PlacementError::MultipleOverrides),
        Ok(None) => None,
        Ok(Some(found)) => if overrides[found].require_normalized_texcoord0 {
            match tex_coord_error(
                values_of(primitive.tex_coords0),
                vertices,
                primitive.tex_coord_span,
            ) {
                Some(error) => Some(PlacementError::TexCoords(error)),
                None => None,
            }
        } else {
            None
        },
    }
}

/// What is wrong with a placement: its joints, then the textures of its
/// material, then its override.
pub open spec fn placement_error(
    model: SourceModel,
    descriptors: Seq<MtoonMaterialDescriptor>,
    overrides: Seq<MaterialTextureOverride>,
    placement: Placement,
) -> Option<PlacementError> {
    let primitive = placed(model, placement);
    or_else(
        implicit_joint_error(model, placement),
        or_else(
            mtoon_error(primitive, descriptors),
            override_error(model, overrides, primitive, vertex_count(model, placement)),
        ),
    )
}

fn check_mtoon(
    model: &SourceModel,
    materials: &Vec<MaterialAsset>,
    descriptors: &[MtoonMaterialDescriptor],
    primitive: &SourcePrimitive,
) -> (result: Result<(), PlacementError>)
    requires
        names_one(primitive.material, model.materials@.len()),
        are_authored(*model, descriptors@, materials@),
    ensures
        result == outcome(mtoon_error(*primitive, descriptors@)),
{
    let material: usize = match primitive.material {
        Some(material) => material,
        None => {
            return Ok(());
        },
    };
    assert(is_authored(*model, descriptors@, material as int, materials@[material as int]));
    if !native_stage_f_capable(&materials[material]) {
        return Ok(());
    }
    let textures = materials[material].textures();
    let ghost d = descriptor_for(descriptors@, material as int)->Some_0;
    let ghost check = |k: int|
        mtoon_texture_error(
            *primitive,
            material,
            descriptor_textures(descriptors@[d])[k],
        );
    assert(textures@ == descriptor_textures(descriptors@[d]));
    let mut k: usize = 0;
    while k < textures.len()
        invariant
            k <= textures@.len(),
            textures@ == descriptor_textures(descriptors@[d]),
            check == (|k: int|
                mtoon_texture_error(
                    *primitive,
                    material,
                    descriptor_textures(descriptors@[d])[k],
                )),
            mtoon_error(*primitive, descriptors@) == first_some(textures@.len(), check),
            first_some(k as nat, check) is None,
        decreases textures@.len() - k,
    {
        let texture = &textures[k];
        let set: u32 = texture.effective_tex_coord();
        let present = if set == 0 {
            primitive.tex_coords0.is_some()
        } else if set == 1 {
            primitive.tex_coords1.is_some()
        } else {
            false
        };
        if texture.role != TextureRole::Matcap && !present {
            let error = PlacementError::MtoonTexCoord { material, role: texture.role, set };
            assert(check(k as int) == Some(error));
            proof {
                first_some_stays((k + 1) as nat, textures@.len(), check);
            }
            return Err(error);
        }
        assert(check(k as int) is None);
        k += 1;
    }
    Ok(())
}

/// The role of the material of a primitive.
fn primitive_role(model: &SourceModel, primitive: &SourcePrimitive) -> (role: Option<String>)
    requires
        names_one(primitive.material, model.materials@.len()),
    ensures
        text_of(role) == tags_of(*model, *primitive).0,
{
    match primitive.material {
        Some(material) => model.materials[material].role(),
        None => None,
    }
}

/// The name of the material of a primitive.
fn primitive_name(model: &SourceModel, primitive: &SourcePrimitive) -> (name: Option<String>)
    requires
        names_one(primitive.material, model.materials@.len()),
    ensures
        text_of(name) == tags_of(*model, *primitive).1,
{
    match primitive.material {
        Some(material) => copy_text(&model.materials[material].name),
        None => None,
    }
}

fn check_override(
    model: &SourceModel,
    overrides: &[MaterialTextureOverride],
    primitive: &SourcePrimitive,
    vertices: usize,
) -> (result: Result<(), PlacementError>)
    requires
        names_one(primitive.material, model.materials@.len()),
    ensures
        result == outcome(override_error(*model, overrides@, *primitive, vertices as nat)),
{
    let role = primitive_role(model, primitive);
    let name = primitive_name(model, primitive);
    match match_override(overrides, &role, &name) {
        Err(()) => Err(PlacementError::MultipleOverrides),
        Ok(None) => Ok(()),
        Ok(Some(found)) => {
            if overrides[found].require_normalized_texcoord0 {
                match validate_normalized_texcoord0(
                    &primitive.tex_coords0,
                    vertices,
                    primitive.tex_coord_span,
                ) {
                    Ok(()) => Ok(()),
                    Err(error) => Err(PlacementError::TexCoords(error)),
                }
            } else {
                Ok(())
            }
        },
    }
}

/// Checks a placement against its material and its override.
fn check_placement(
    model: &SourceModel,
    materials: &Vec<MaterialAsset>,
    descriptors: &[MtoonMaterialDescriptor],
    overrides: &[MaterialTextureOverride],
    placement: Placement,
) -> (result: Result<(), PlacementError>)
    requires
        model.in_range(),
        are_authored(*model, descriptors@, materials@),
        is_placed(*model, placement),
    ensures
        result == outcome(placement_error(*model, descriptors@, overrides@, placement)),
{
    assert(names_one(
        model.meshes@[placement.mesh as int]@[placement.primitive as int].material,
        model.materials@.len(),
    ));
    assert(names_one(model.nodes@[placement.node as int].skin, model.skins@.len()));
    let primitive = &model.meshes[placement.mesh][placement.primitive];
    let vertices: usize = count_vertices(model, placement);
    if let Some(skin) = model.nodes[placement.node].skin {
        if primitive.joints.is_none() && vertices > 0 && model.skins[skin].joints.len() == 0 {
            return Err(
                PlacementError::Joints(
                    InputError::JointIndex { vertex: 0, slot: 0, joint: 0, joints: 0 },
                ),
            );
        }
    }
    match check_mtoon(model, materials, descriptors, primitive) {
        Ok(()) => {},
        Err(error) => {
            return Err(error);
        },
    }
    check_override(model, overrides, primitive, vertices)
}

/// The first placement that is refused, and why.
pub open spec fn placements_error(
    model: SourceModel,
    descriptors: Seq<MtoonMaterialDescriptor>,
    overrides: Seq<MaterialTextureOverride>,
    listed: Seq<Placement>,
) -> Option<(Placement, PlacementError)> {
    first_some(
        listed.len(),
        |k: int|
            match placement_error(model, descriptors, overrides, listed[k]) {
                Some(error) => Some((listed[k], error)),
                None => None,
            },
    )
}

/// Checks every placement against its material and its override.
pub fn check_placements(
    model: &SourceModel,
    materials: &Vec<MaterialAsset>,
    descriptors: &[MtoonMaterialDescriptor],
    overrides: &[MaterialTextureOverride],
    listed: &Vec<Placement>,
) -> (result: Result<(), (Placement, PlacementError)>)
    requires
        model.in_range(),
        are_authored(*model, descriptors@, materials@),
        forall|k: int| 0 <= k < listed@.len() ==> is_placed(*model, #[trigger] listed@[k]),
    ensures
        result == outcome(placements_error(*model, descriptors@, overrides@, listed@)),
{
    let ghost check = |k: int|
        match placement_error(*model, descriptors@, overrides@, listed@[k]) {
            Some(error) => Some((listed@[k], error)),
            None => None,
        };
    let mut k: usize = 0;
    while k < listed.len()
        invariant
            k <= listed@.len(),
            model.in_range(),
            are_authored(*model, descriptors@, materials@),
            forall|k: int| 0 <= k < listed@.len() ==> is_placed(*model, #[trigger] listed@[k]),
            check == (|k: int|
                match placement_error(*model, descriptors@, overrides@, listed@[k]) {
                    Some(error) => Some((listed@[k], error)),
                    None => None,
                }),
            placements_error(*model, descriptors@, overrides@, listed@) == first_some(
                listed@.len(),
                check,
            ),
            first_some(k as nat, check) is None,
        decreases listed@.len() - k,
    {
        match check_placement(model, materials, descriptors, overrides, listed[k]) {
            Ok(()) => {
                assert(check(k as int) is None);
            },
            Err(error) => {
                assert(check(k as int) == Some((listed@[k as int], error)));
                proof {
                    first_some_stays((k + 1) as nat, listed@.len(), check);
                }
                return Err((listed[k], error));
            },
        }
        k += 1;
    }
    Ok(())
}

/// How a primitive is drawn.
#[derive(Debug)]
pub struct PrimitiveUpload {
    pub placement: Placement,
    pub vertex_base: u32,
    pub vertex_count: u32,
    pub first_index: u32,
    pub index_count: u32,
    /// The image of the base colour of the file.
    pub image: Option<usize>,
    pub base_color_factor: [Scalar; 4],
    pub alpha_mode: MaterialAlphaMode,
    pub alpha_cutoff: Scalar,
    pub double_sided: bool,
    pub unlit: bool,
    pub base_color_mode: MaterialBaseColorMode,
    pub material_name: Option<String>,
    pub material_role: Option<String>,
    pub texture_override: Option<usize>,
    pub material_index: Option<usize>,
    /// Whether the primitive can be drawn with native toon shading.
    pub native: bool,
    pub mtoon_outline: bool,
    pub render_phase: RenderPhase,
    pub render_queue_offset: i32,
}

/// Whether `factor` is white.
pub open spec fn is_white(factor: [Scalar; 4]) -> bool {
    forall|k: int| 0 <= k < 4 ==> (#[trigger] factor@[k]).bits == 0x3f80_0000
}

/// The alpha policy of a primitive: an override may force one.
pub open spec fn alpha_mode_of(
    material: Option<SourceMaterial>,
    forced: Option<MaterialTextureOverride>,
) -> MaterialAlphaMode {
    let authored = match material {
        Some(material) => material.inputs.alpha_mode,
        None => MaterialAlphaMode::Opaque,
    };
    match forced {
        Some(forced) => if forced.force_blend {
            MaterialAlphaMode::Blend
        } else if forced.force_opaque {
            MaterialAlphaMode::Opaque
        } else {
            authored
        },
        None => authored,
    }
}

/// Whether an override does what `flag` says.
pub open spec fn forces(
    forced: Option<MaterialTextureOverride>,
    flag: spec_fn(MaterialTextureOverride) -> bool,
) -> bool {
    forced matches Some(forced) && flag(forced)
}

/// The material of the file that a primitive has.
pub open spec fn source_material(model: SourceModel, primitive: SourcePrimitive) -> Option<
    SourceMaterial,
> {
    match primitive.material {
        Some(material) => Some(model.materials@[material as int]),
        None => None,
    }
}

/// The authored material that a primitive has.
pub open spec fn authored_material(
    materials: Seq<MaterialAsset>,
    primitive: SourcePrimitive,
) -> Option<MaterialAsset> {
    match primitive.material {
        Some(material) => Some(materials[material as int]),
        None => None,
    }
}

/// The override that a primitive has.
pub open spec fn forced_override(
    model: SourceModel,
    overrides: Seq<MaterialTextureOverride>,
    primitive: SourcePrimitive,
) -> Option<MaterialTextureOverride> {
    match override_of(model, overrides, primitive) {
        Ok(Some(found)) => Some(overrides[found]),
        _ => None,
    }
}

/// Whether `upload` has the surface of a primitive: the values of its material
/// in the file, as far as an override does not force others, and the phase and
/// the toon shading of its authored material.
pub open spec fn has_surface(
    model: SourceModel,
    materials: Seq<MaterialAsset>,
    overrides: Seq<MaterialTextureOverride>,
    native_mtoon: bool,
    primitive: SourcePrimitive,
    upload: PrimitiveUpload,
) -> bool {
    let material = source_material(model, primitive);
    let authored = authored_material(materials, primitive);
    let forced = forced_override(model, overrides, primitive);
    let native = native_mtoon && (authored matches Some(authored) && is_mtoon(authored));
    &&& upload.material_index == primitive.material
    &&& Ok::<Option<int>, ()>(as_index(upload.texture_override)) == override_of(
        model,
        overrides,
        primitive,
    )
    &&& text_of(upload.material_role) == tags_of(model, primitive).0
    &&& text_of(upload.material_name) == tags_of(model, primitive).1
    &&& upload.base_color_mode == (match material {
        Some(material) => mode_in(text_of(material.extras)),
        None => MaterialBaseColorMode::Authored,
    })
    &&& upload.image == (match material {
        Some(material) => match material.inputs.base_color_texture {
            Some(texture) => Some(texture.image_index),
            None => None,
        },
        None => None,
    })
    &&& if forces(forced, |forced: MaterialTextureOverride| forced.force_white) {
        is_white(upload.base_color_factor)
    } else {
        match material {
            Some(material) => upload.base_color_factor == material.inputs.base_color_factor,
            None => is_white(upload.base_color_factor),
        }
    }
    &&& upload.alpha_mode == alpha_mode_of(material, forced)
    &&& upload.alpha_cutoff == (match material {
        Some(material) => material.inputs.alpha_cutoff,
        None => Scalar { bits: HALF },
    })
    &&& upload.double_sided == (material matches Some(material) && material.inputs.double_sided)
    &&& upload.unlit == ((material matches Some(material) && material.unlit) || forces(
        forced,
        |forced: MaterialTextureOverride| forced.force_unlit,
    ))
    &&& upload.native == native
    &&& upload.mtoon_outline == (native && (authored matches Some(authored) && has_outline(
        authored,
    )))
    &&& upload.render_phase == phase_of(upload.alpha_mode, authored)
    &&& upload.render_queue_offset == queue_offset_of(upload.alpha_mode, authored)
}

/// Whether `upload` is how placement `k` is drawn.
pub open spec fn is_upload(
    model: SourceModel,
    materials: Seq<MaterialAsset>,
    overrides: Seq<MaterialTextureOverride>,
    native_mtoon: bool,
    listed: Seq<Placement>,
    k: int,
    upload: PrimitiveUpload,
) -> bool {
    &&& upload.placement == listed[k]
    &&& upload.vertex_base == vertex_base(model, listed, k as nat)
    &&& upload.vertex_count == vertex_count(model, listed[k])
    &&& upload.first_index == index_base(model, listed, k as nat)
    &&& upload.index_count == index_count(model, listed[k])
    &&& has_surface(
        model,
        materials,
        overrides,
        native_mtoon,
        placed(model, listed[k]),
        upload,
    )
}

fn make_upload(
    model: &SourceModel,
    materials: &Vec<MaterialAsset>,
    overrides: &[MaterialTextureOverride],
    native_mtoon: bool,
    placement: Placement,
    vertex_base: u32,
    first_index: u32,
) -> (upload: PrimitiveUpload)
    requires
        model.in_range(),
        materials@.len() == model.materials@.len(),
        is_placed(*model, placement),
        override_of(*model, overrides@, placed(*model, placement)) is Ok,
        vertex_count(*model, placement) <= u32::MAX,
        index_count(*model, placement) <= u32::MAX,
    ensures
        upload.placement == placement,
        upload.vertex_base == vertex_base,
        upload.vertex_count == vertex_count(*model, placement),
        upload.first_index == first_index,
        upload.index_count == index_count(*model, placement),
        has_surface(
            *model,
            materials@,
            overrides@,
            native_mtoon,
            placed(*model, placement),
            upload,
        ),
{
    assert(names_one(
        model.meshes@[placement.mesh as int]@[placement.primitive as int].material,
        model.materials@.len(),
    ));
    let primitive = &model.meshes[placement.mesh][placement.primitive];
    let vertex_count: u32 = count_vertices(model, placement) as u32;
    let index_count: u32 = count_indices(model, placement) as u32;
    let material_role = primitive_role(model, primitive);
    let material_name = primitive_name(model, primitive);
    let texture_override: Option<usize> = match match_override(
        overrides,
        &material_role,
        &material_name,
    ) {
        Ok(found) => found,
        Err(()) => None,
    };
    let white: [Scalar; 4] = [Scalar::one(), Scalar::one(), Scalar::one(), Scalar::one()];
    let mut image: Option<usize> = None;
    let mut base_color_factor: [Scalar; 4] = white;
    let mut alpha_mode = MaterialAlphaMode::Opaque;
    let mut alpha_cutoff = Scalar { bits: HALF };
    let mut double_sided = false;
    let mut unlit = false;
    let mut base_color_mode = MaterialBaseColorMode::Authored;
    if let Some(material) = primitive.material {
        let source = &model.materials[material];
        image = match source.inputs.base_color_texture {
            Some(texture) => Some(texture.image_index),
            None => None,
        };
        base_color_factor = source.inputs.base_color_factor;
        alpha_mode = source.inputs.alpha_mode;
        alpha_cutoff = source.inputs.alpha_cutoff;
        double_sided = source.inputs.double_sided;
        unlit = source.unlit;
        base_color_mode = source.base_color_mode();
    }
    if let Some(found) = texture_override {
        let forced = &overrides[found];
        if forced.force_white {
            base_color_factor = white;
        }
        if forced.force_unlit {
            unlit = true;
        }
        if forced.force_opaque {
            alpha_mode = MaterialAlphaMode::Opaque;
        }
        if forced.force_blend {
            alpha_mode = MaterialAlphaMode::Blend;
        }
    }
    let authored: Option<&MaterialAsset> = match primitive.material {
        Some(material) => Some(&materials[material]),
        None => None,
    };
    let native = native_mtoon && match authored {
        Some(authored) => native_stage_f_capable(authored),
        None => false,
    };
    let mtoon_outline = native && match authored {
        Some(authored) => mtoon_outline_enabled(authored),
        None => false,
    };
    let render_phase = authored_render_phase(alpha_mode, authored);
    let render_queue_offset: i32 = authored_render_queue_offset(alpha_mode, authored);
    PrimitiveUpload {
        placement,
        vertex_base,
        vertex_count,
        first_index,
        index_count,
        image,
        base_color_factor,
        alpha_mode,
        alpha_cutoff,
        double_sided,
        unlit,
        base_color_mode,
        material_name,
        material_role,
        texture_override,
        material_index: primitive.material,
        native,
        mtoon_outline,
        render_phase,
        render_queue_offset,
    }
}

/// How the placements are drawn, in order.
pub fn make_uploads(
    model: &SourceModel,
    materials: &Vec<MaterialAsset>,
    overrides: &[MaterialTextureOverride],
    native_mtoon: bool,
    listed: &Vec<Placement>,
) -> (uploads: Vec<PrimitiveUpload>)
    requires
        model.in_range(),
        materials@.len() == model.materials@.len(),
        forall|k: int| 0 <= k < listed@.len() ==> is_placed(*model, #[trigger] listed@[k]),
        forall|k: int|
            0 <= k < listed@.len() ==> override_of(
                *model,
                overrides@,
                placed(*model, #[trigger] listed@[k]),
            ) is Ok,
        fits(*model, listed@),
    ensures
        uploads@.len() == listed@.len(),
        forall|k: int|
            0 <= k < uploads@.len() ==> is_upload(
                *model,
                materials@,
                overrides@,
                native_mtoon,
                listed@,
                k,
                #[trigger] uploads@[k],
            ),
{
    let mut uploads: Vec<PrimitiveUpload> = Vec::new();
    let mut vertex_base: u32 = 0;
    let mut first_index: u32 = 0;
    let mut k: usize = 0;
    while k < listed.len()
        invariant
            k <= listed@.len(),
            model.in_range(),
            materials@.len() == model.materials@.len(),
            forall|k: int| 0 <= k < listed@.len() ==> is_placed(*model, #[trigger] listed@[k]),
            forall|k: int|
                0 <= k < listed@.len() ==> override_of(
                    *model,
                    overrides@,
                    placed(*model, #[trigger] listed@[k]),
                ) is Ok,
            fits(*model, listed@),
            vertex_base == self::vertex_base(*model, listed@, k as nat),
            first_index == index_base(*model, listed@, k as nat),
            uploads@.len() == k,
            forall|j: int|
                0 <= j < uploads@.len() ==> is_upload(
                    *model,
                    materials@,
                    overrides@,
                    native_mtoon,
                    listed@,
                    j,
                    #[trigger] uploads@[j],
                ),
        decreases listed@.len() - k,
    {
        proof {
            bases_grow(*model, listed@, (k + 1) as nat, listed@.len());
        }
        let placement = listed[k];
        assert(is_placed(*model, listed@[k as int]));
        let upload = make_upload(
            model,
            materials,
            overrides,
            native_mtoon,
            placement,
            vertex_base,
            first_index,
        );
        vertex_base = vertex_base + upload.vertex_count;
        first_index = first_index + upload.index_count;
        uploads.push(upload);
        k += 1;
    }
    uploads
}

/// How many of the first `count` placements override `index` replaces.
pub open spec fn override_uses(
    model: SourceModel,
    overrides: Seq<MaterialTextureOverride>,
    listed: Seq<Placement>,
    index: int,
    count: nat,
) -> nat
    decreases count,
{
    if count == 0 {
        0
    } else {
        let earlier = override_uses(model, overrides, listed, index, (count - 1) as nat);
        if override_of(model, overrides, placed(model, listed[count - 1])) == Ok::<
            Option<int>,
            (),
        >(Some(index)) {
            earlier + 1
        } else {
            earlier
        }
    }
}

/// An override that replaces another number of primitives than expected.
#[derive(Clone, Copy, Debug, PartialEq, Eq, Structural)]
pub struct OverrideCountError {
    pub index: usize,
    pub expected: usize,
    pub actual: usize,
}

/// The first override that replaces another number of primitives than
/// expected.
pub open spec fn override_count_error(
    model: SourceModel,
    overrides: Seq<MaterialTextureOverride>,
    listed: Seq<Placement>,
) -> Option<OverrideCountError> {
    first_some(
        overrides.len(),
        |i: int|
            match overrides[i].expected_primitive_count {
                Some(expected) => if override_uses(model, overrides, listed, i, listed.len())
                    != expected {
                    Some(
                        OverrideCountError {
                            index: i as usize,
                            expected,
                            actual: override_uses(
                                model,
                                overrides,
                                listed,
                                i,
                                listed.len(),
                            ) as usize,
                        },
                    )
                } else {
                    None
                },
                None => None,
            },
    )
}

fn count_uses(
    model: &SourceModel,
    materials: &Vec<MaterialAsset>,
    overrides: &[MaterialTextureOverride],
    native_mtoon: bool,
    listed: &Vec<Placement>,
    uploads: &Vec<PrimitiveUpload>,
    index: usize,
) -> (uses: usize)
    requires
        uploads@.len() == listed@.len(),
        forall|k: int|
            0 <= k < uploads@.len() ==> is_upload(
                *model,
                materials@,
                overrides@,
                native_mtoon,
                listed@,
                k,
                #[trigger] uploads@[k],
            ),
    ensures
        uses == override_uses(*model, overrides@, listed@, index as int, listed@.len()),
{
    let mut uses: usize = 0;
    let mut k: usize = 0;
    while k < uploads.len()
        invariant
            k <= uploads@.len() == listed@.len(),
            uses <= k,
            forall|k: int|
                0 <= k < uploads@.len() ==> is_upload(
                    *model,
                    materials@,
                    overrides@,
                    native_mtoon,
                    listed@,
                    k,
                    #[trigger] uploads@[k],
                ),
            uses == override_uses(*model, overrides@, listed@, index as int, k as nat),
        decreases uploads@.len() - k,
    {
        assert(is_upload(
            *model,
            materials@,
            overrides@,
            native_mtoon,
            listed@,
            k as int,
            uploads@[k as int],
        ));
        if let Some(found) = uploads[k].texture_override {
            if found == index {
                uses += 1;
            }
        }
        k += 1;
    }
    uses
}

/// Checks that every override replaces as many primitives as it expects.
pub fn check_override_counts(
    model: &SourceModel,
    materials: &Vec<MaterialAsset>,
    overrides: &[MaterialTextureOverride],
    native_mtoon: bool,
    listed: &Vec<Placement>,
    uploads: &Vec<PrimitiveUpload>,
) -> (result: Result<(), OverrideCountError>)
    requires
        uploads@.len() == listed@.len(),
        forall|k: int|
            0 <= k < uploads@.len() ==> is_upload(
                *model,
                materials@,
                overrides@,
                native_mtoon,
                listed@,
                k,
                #[trigger] uploads@[k],
            ),
    ensures
        result == outcome(override_count_error(*model, overrides@, listed@)),
{
    let ghost check = |i: int|
        match overrides@[i].expected_primitive_count {
            Some(expected) => if override_uses(*model, overrides@, listed@, i, listed@.len())
                != expected {
                Some(
                    OverrideCountError {
                        index: i as usize,
                        expected,
                        actual: override_uses(
                            *model,
                            overrides@,
                            listed@,
                            i,
                            listed@.len(),
                        ) as usize,
                    },
                )
            } else {
                None
            },
            None => None,
        };
    let mut i: usize = 0;
    while i < overrides.len()
        invariant
            i <= overrides@.len(),
            uploads@.len() == listed@.len(),
            forall|k: int|
                0 <= k < uploads@.len() ==> is_upload(
                    *model,
                    materials@,
                    overrides@,
                    native_mtoon,
                    listed@,
                    k,
                    #[trigger] uploads@[k],
                ),
            check == (|i: int|
                match overrides@[i].expected_primitive_count {
                    Some(expected) => if override_uses(
                        *model,
                        overrides@,
                        listed@,
                        i,
                        listed@.len(),
                    ) != expected {
                        Some(
                            OverrideCountError {
                                index: i as usize,
                                expected,
                                actual: override_uses(
                                    *model,
                                    overrides@,
                                    listed@,
                                    i,
                                    listed@.len(),
                                ) as usize,
                            },
                        )
                    } else {
                        None
                    },
                    None => None,
                }),
            override_count_error(*model, overrides@, listed@) == first_some(
                overrides@.len(),
                check,
            ),
            first_some(i as nat, check) is None,
        decreases overrides@.len() - i,
    {
        if let Some(expected) = overrides[i].expected_primitive_count {
            let actual: usize = count_uses(
                model,
                materials,
                overrides,
                native_mtoon,
                listed,
                uploads,
                i,
            );
            if actual != expected {
                let error = OverrideCountError { index: i, expected, actual };
                assert(check(i as int) == Some(error));
                proof {
                    first_some_stays((i + 1) as nat, overrides@.len(), check);
                }
                return Err(error);
            }
        }
        assert(check(i as int) is None);
        i += 1;
    }
    Ok(())
}

/// A primitive with morph targets, in the vertex buffer of the model and in
/// the overlay buffer of an instance.
#[derive(Clone, Copy, Debug, PartialEq, Eq, Structural)]
pub struct MorphPrim {
    /// The place of the primitive among those of the model.
    pub primitive: usize,
    pub vertex_base: u32,
    pub vertex_count: u32,
    pub overlay_offset: u32,
}

/// The primitives of one mesh that have morph targets.
#[derive(Debug)]
pub struct MorphMesh {
    /// The index of the mesh in the file.
    pub mesh: usize,
    pub target_count: usize,
    pub prims: Vec<MorphPrim>,
}

/// Whether a placement has morph targets.
pub open spec fn is_morphing(model: SourceModel, placement: Placement) -> bool {
    placed(model, placement).targets@.len() > 0
}

/// The overlay vertices of the first `count` placements together.
pub open spec fn overlay_base(model: SourceModel, listed: Seq<Placement>, count: nat) -> nat
    decreases count,
{
    if count == 0 {
        0
    } else {
        let earlier = overlay_base(model, listed, (count - 1) as nat);
        if is_morphing(model, listed[count - 1]) {
            earlier + vertex_count(model, listed[count - 1])
        } else {
            earlier
        }
    }
}

/// The meshes with morph targets among the first `count` placements, in the
/// order in which they first appear.
pub open spec fn morph_order(model: SourceModel, listed: Seq<Placement>, count: nat) -> Seq<usize>
    decreases count,
{
    if count == 0 {
        Seq::empty()
    } else {
        let earlier = morph_order(model, listed, (count - 1) as nat);
        let last = listed[count - 1];
        if is_morphing(model, last) && !earlier.contains(last.mesh) {
            earlier.push(last.mesh)
        } else {
            earlier
        }
    }
}

/// Which of the first `count` placements show `mesh` with morph targets.
pub open spec fn morphing_of(
    model: SourceModel,
    listed: Seq<Placement>,
    mesh: usize,
    count: nat,
) -> Seq<int>
    decreases count,
{
    if count == 0 {
        Seq::empty()
    } else {
        let earlier = morphing_of(model, listed, mesh, (count - 1) as nat);
        let last = listed[count - 1];
        if is_morphing(model, last) && last.mesh == mesh {
            earlier.push(count - 1)
        } else {
            earlier
        }
    }
}

/// The most morph targets that a primitive of `mesh` has among the first
/// `count` placements.
pub open spec fn most_targets(
    model: SourceModel,
    listed: Seq<Placement>,
    mesh: usize,
    count: nat,
) -> nat
    decreases count,
{
    if count == 0 {
        0
    } else {
        let earlier = most_targets(model, listed, mesh, (count - 1) as nat);
        let last = listed[count - 1];
        let own = placed(model, last).targets@.len();
        if is_morphing(model, last) && last.mesh == mesh && own > earlier {
            own
        } else {
            earlier
        }
    }
}

/// Whether `prim` is placement `k`.
pub open spec fn is_morph_prim(
    model: SourceModel,
    listed: Seq<Placement>,
    k: int,
    prim: MorphPrim,
) -> bool {
    &&& prim.primitive == k
    &&& prim.vertex_base == vertex_base(model, listed, k as nat)
    &&& prim.vertex_count == vertex_count(model, listed[k])
    &&& prim.overlay_offset == overlay_base(model, listed, k as nat)
}

/// Whether `mesh` groups the morphing placements of its mesh among the first
/// `count`.
pub open spec fn is_morph_mesh(
    model: SourceModel,
    listed: Seq<Placement>,
    count: nat,
    mesh: MorphMesh,
) -> bool {
    let members = morphing_of(model, listed, mesh.mesh, count);
    &&& mesh.target_count == most_targets(model, listed, mesh.mesh, count)
    &&& mesh.prims@.len() == members.len()
    &&& forall|j: int|
        0 <= j < members.len() ==> is_morph_prim(
            model,
            listed,
            members[j],
            #[trigger] mesh.prims@[j],
        )
}

/// Whether `slot` leads to placement `k`: nowhere without morph targets, else
/// to its mesh and its place in it.
pub open spec fn is_morph_slot(
    model: SourceModel,
    listed: Seq<Placement>,
    meshes: Seq<MorphMesh>,
    k: int,
    slot: Option<(usize, usize)>,
) -> bool {
    match slot {
        None => !is_morphing(model, listed[k]),
        Some((mesh, prim)) => {
            &&& is_morphing(model, listed[k])
            &&& mesh < meshes.len()
            &&& meshes[mesh as int].mesh == listed[k].mesh
            &&& prim < meshes[mesh as int].prims@.len()
            &&& meshes[mesh as int].prims@[prim as int].primitive == k
        },
    }
}

/// Whether `meshes` and `slots` lay out the morph targets of the first `count`
/// placements.
pub open spec fn is_morph_layout(
    model: SourceModel,
    listed: Seq<Placement>,
    count: nat,
    meshes: Seq<MorphMesh>,
    slots: Seq<Option<(usize, usize)>>,
) -> bool {
    &&& meshes.len() == morph_order(model, listed, count).len()
    &&& forall|s: int|
        0 <= s < meshes.len() ==> (#[trigger] meshes[s]).mesh == morph_order(
            model,
            listed,
            count,
        )[s] && is_morph_mesh(model, listed, count, meshes[s])
    &&& slots.len() == count
    &&& forall|k: int|
        0 <= k < slots.len() ==> is_morph_slot(model, listed, meshes, k, #[trigger] slots[k])
}

proof fn overlay_within_vertices(model: SourceModel, listed: Seq<Placement>, count: nat)
    ensures
        overlay_base(model, listed, count) <= vertex_base(model, listed, count),
    decreases count,
{
    if count > 0 {
        overlay_within_vertices(model, listed, (count - 1) as nat);
    }
}

proof fn morph_order_is_distinct(model: SourceModel, listed: Seq<Placement>, count: nat)
    ensures
        crate::material::all_different(morph_order(model, listed, count)),
    decreases count,
{
    if count > 0 {
        morph_order_is_distinct(model, listed, (count - 1) as nat);
    }
}

/// Meshes that have not appeared have no members yet.
proof fn absent_mesh_has_no_members(
    model: SourceModel,
    listed: Seq<Placement>,
    mesh: usize,
    count: nat,
)
    requires
        !morph_order(model, listed, count).contains(mesh),
    ensures
        morphing_of(model, listed, mesh, count).len() == 0,
        most_targets(model, listed, mesh, count) == 0,
    decreases count,
{
    if count > 0 {
        let earlier = morph_order(model, listed, (count - 1) as nat);
        let all = morph_order(model, listed, count);
        let last = listed[count - 1];
        if earlier.contains(mesh) {
            let s = choose|s: int| 0 <= s < earlier.len() && earlier[s] == mesh;
            assert(all[s] == mesh);
        }
        if is_morphing(model, last) && last.mesh == mesh {
            if !earlier.contains(mesh) {
                assert(all[all.len() - 1] == mesh);
            }
        }
        absent_mesh_has_no_members(model, listed, mesh, (count - 1) as nat);
    }
}

/// The overlay ranges of two morphing primitives do not meet.
pub proof fn overlays_are_disjoint(
    model: SourceModel,
    listed: Seq<Placement>,
    first: int,
    second: int,
)
    requires
        0 <= first < second < listed.len(),
        is_morphing(model, listed[first]),
    ensures
        overlay_base(model, listed, first as nat) + vertex_count(model, listed[first])
            <= overlay_base(model, listed, second as nat),
    decreases second,
{
    if first < second - 1 {
        overlays_are_disjoint(model, listed, first, second - 1);
    }
}

/// A mesh has weights for all targets of its primitives, and no more than the
/// primitive with the most.
pub proof fn most_targets_covers(
    model: SourceModel,
    listed: Seq<Placement>,
    mesh: usize,
    count: nat,
    k: int,
)
    ensures
        0 <= k < count && listed[k].mesh == mesh ==> placed(model, listed[k]).targets@.len()
            <= most_targets(model, listed, mesh, count),
        most_targets(model, listed, mesh, count) == 0 || exists|j: int|
            0 <= j < count && (#[trigger] listed[j]).mesh == mesh && placed(
                model,
                listed[j],
            ).targets@.len() == most_targets(model, listed, mesh, count),
    decreases count,
{
    if count > 0 {
        most_targets_covers(model, listed, mesh, (count - 1) as nat, k);
        let earlier = most_targets(model, listed, mesh, (count - 1) as nat);
        let all = most_targets(model, listed, mesh, count);
        if all == earlier && all != 0 {
            let j = choose|j: int|
                0 <= j < count - 1 && (#[trigger] listed[j]).mesh == mesh && placed(
                    model,
                    listed[j],
                ).targets@.len() == earlier;
            assert(listed[j].mesh == mesh);
        } else if all != 0 {
            assert(listed[count - 1].mesh == mesh);
        }
    }
}

/// Lays out the morph targets of all placements.
pub fn lay_out_morphs(
    model: &SourceModel,
    listed: &Vec<Placement>,
    uploads: &Vec<PrimitiveUpload>,
) -> (laid: (Vec<MorphMesh>, Vec<Option<(usize, usize)>>))
    requires
        forall|k: int| 0 <= k < listed@.len() ==> is_placed(*model, #[trigger] listed@[k]),
        fits(*model, listed@),
        uploads@.len() == listed@.len(),
        forall|k: int|
            0 <= k < uploads@.len() ==> (#[trigger] uploads@[k]).vertex_base == vertex_base(
                *model,
                listed@,
                k as nat,
            ) && uploads@[k].vertex_count == vertex_count(*model, listed@[k]),
    ensures
        is_morph_layout(*model, listed@, listed@.len(), laid.0@, laid.1@),
{
    let mut meshes: Vec<MorphMesh> = Vec::new();
    let mut slots: Vec<Option<(usize, usize)>> = Vec::new();
    let mut overlay: u32 = 0;
    let mut k: usize = 0;
    while k < listed.len()
        invariant
            k <= listed@.len(),
            forall|k: int| 0 <= k < listed@.len() ==> is_placed(*model, #[trigger] listed@[k]),
            fits(*model, listed@),
            uploads@.len() == listed@.len(),
            forall|k: int|
                0 <= k < uploads@.len() ==> (#[trigger] uploads@[k]).vertex_base == vertex_base(
                    *model,
                    listed@,
                    k as nat,
                ) && uploads@[k].vertex_count == vertex_count(*model, listed@[k]),
            overlay == overlay_base(*model, listed@, k as nat),
            is_morph_layout(*model, listed@, k as nat, meshes@, slots@),
        decreases listed@.len() - k,
    {
        proof {
            bases_grow(*model, listed@, (k + 1) as nat, listed@.len());
            overlay_within_vertices(*model, listed@, (k + 1) as nat);
            morph_order_is_distinct(*model, listed@, k as nat);
        }
        let placement = listed[k];
        assert(is_placed(*model, listed@[k as int]));
        let ghost order = morph_order(*model, listed@, k as nat);
        let ghost meshes_before = meshes@;
        let ghost slots_before = slots@;
        let targets: usize = model.meshes[placement.mesh][placement.primitive].targets.len();
        if targets == 0 {
            slots.push(None);
            proof {
                assert forall|s: int| 0 <= s < meshes@.len() implies is_morph_mesh(
                    *model,
                    listed@,
                    (k + 1) as nat,
                    #[trigger] meshes@[s],
                ) by {
                    assert(is_morph_mesh(*model, listed@, k as nat, meshes_before[s]));
                }
                assert forall|j: int| 0 <= j < slots@.len() implies is_morph_slot(
                    *model,
                    listed@,
                    meshes@,
                    j,
                    #[trigger] slots@[j],
                ) by {
                    if j < k {
                        assert(is_morph_slot(*model, listed@, meshes_before, j, slots_before[j]));
                    }
                }
            }
        } else {
            let mut slot: usize = 0;
            while slot < meshes.len() && meshes[slot].mesh != placement.mesh
                invariant
                    slot <= meshes@.len(),
                    forall|s: int| 0 <= s < slot ==> (#[trigger] meshes@[s]).mesh != placement.mesh,
                decreases meshes@.len() - slot,
            {
                slot += 1;
            }
            let prim = MorphPrim {
                primitive: k,
                vertex_base: uploads[k].vertex_base,
                vertex_count: uploads[k].vertex_count,
                overlay_offset: overlay,
            };
            if slot == meshes.len() {
                proof {
                    if order.contains(placement.mesh) {
                        let s = choose|s: int| 0 <= s < order.len() && order[s] == placement.mesh;
                        assert(meshes@[s].mesh == placement.mesh);
                    }
                    absent_mesh_has_no_members(*model, listed@, placement.mesh, k as nat);
                }
                let mut prims: Vec<MorphPrim> = Vec::new();
                prims.push(prim);
                meshes.push(MorphMesh { mesh: placement.mesh, target_count: targets, prims });
                slots.push(Some((slot, 0)));
                proof {
                    assert forall|s: int| 0 <= s < meshes@.len() implies (
                    #[trigger] meshes@[s]).mesh == morph_order(
                        *model,
                        listed@,
                        (k + 1) as nat,
                    )[s] && is_morph_mesh(*model, listed@, (k + 1) as nat, meshes@[s]) by {
                        if s < slot {
                            assert(meshes@[s] == meshes_before[s]);
                            assert(is_morph_mesh(*model, listed@, k as nat, meshes_before[s]));
                        }
                    }
                }
            } else {
                assert(meshes@[slot as int].mesh == placement.mesh);
                assert(is_morph_mesh(*model, listed@, k as nat, meshes@[slot as int]));
                let place: usize = meshes[slot].prims.len();
                if targets > meshes[slot].target_count {
                    meshes[slot].target_count = targets;
                }
                meshes[slot].prims.push(prim);
                slots.push(Some((slot, place)));
                proof {
                    assert(order[slot as int] == placement.mesh);
                    let changed = meshes@[slot as int];
                    let old_mesh = meshes_before[slot as int];
                    assert(changed.mesh == old_mesh.mesh);
                    assert(changed.prims@ == old_mesh.prims@.push(prim));
                    assert forall|s: int| 0 <= s < meshes@.len() implies (
                    #[trigger] meshes@[s]).mesh == morph_order(
                        *model,
                        listed@,
                        (k + 1) as nat,
                    )[s] && is_morph_mesh(*model, listed@, (k + 1) as nat, meshes@[s]) by {
                        assert(is_morph_mesh(*model, listed@, k as nat, meshes_before[s]));
                        if s != slot {
                            assert(meshes@[s] == meshes_before[s]);
                            assert(order[s] != order[slot as int]);
                        }
                    }
                }
            }
            proof {
                assert forall|j: int| 0 <= j < slots@.len() implies is_morph_slot(
                    *model,
                    listed@,
                    meshes@,
                    j,
                    #[trigger] slots@[j],
                ) by {
                    if j < k {
                        assert(is_morph_slot(*model, listed@, meshes_before, j, slots_before[j]));
                    }
                }
            }
            overlay = overlay + prim.vertex_count;
        }
        k += 1;
    }
    (meshes, slots)
}

} // verus!
