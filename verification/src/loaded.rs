//! What a loaded model holds of its file.

use vstd::prelude::*;

use crate::accessors::{
    are_stored_floats, are_stored_numbers, are_weights, attributes_of, document_accessors,
    document_binds, document_sparse, is_channel_of, is_primitive_of, is_readable, is_skin_of,
    is_target_of, item_of, keys_of, little_endian, readable_accessors_are_not_refused,
    stored_number, stride_of, AccessorRole, AccessorShape, ComponentType, MorphAccessors,
};
use crate::anim::validated_times_rise;
use crate::authoring::{descriptor_for, json_text};
use crate::clips::{
    clips_keep_their_name, clips_last_until_their_latest_key, driving_channels_are_played, is_clip,
    played_channels_keep_their_keys, plays,
};
use crate::layout::{
    all_placements, bases_step, is_binding_at, is_consistent, is_index_at, is_morph_mesh,
    is_morph_prim, is_morph_slot, is_placed, is_upload, morphing_of, most_targets_covers,
    mtoon_error, mtoon_texture_error, node_placements_are_ordered, override_error, override_uses,
    placement_error, placements, placements_exist, tags_of, OverrideCountError, Placement,
    PrimitiveUpload, VertexBinding,
};
use crate::import::descriptor_textures;
use crate::loading::{is_document_load, DocumentLoadError};
use crate::material::{MaterialModel, MtoonMaterialDescriptor};
use crate::model::{
    children_of, is_identity, is_model_layout, is_skin, load_error,
    validated_primitives_are_consistent, validated_skins_match, ModelAsset,
};
use crate::overrides::{
    accepted_coordinates_suit_a_surface, override_matches, overrides_match_by_role_then_prefix,
    single_match_is_listed, values_of, MaterialTextureOverride,
};
use crate::scalar::{is_finite, is_nan, less, Scalar};
use crate::search::{first_some, first_some_none};
use crate::skeleton::parents_are_those_that_name;
use crate::source::{
    document_skins, document_targets, text_of, SourceChannel, SourceModel, SourceOutputs,
    SourcePrimitive, SourceSkin, SourceTarget,
};
use crate::validation::{
    animation_error, channel_input_error, node_error, node_joint_count, primitive_error,
};

verus! {

/// Whether `asset` is what loading `model` gives.
pub open spec fn is_loaded(
    model: SourceModel,
    overrides: Seq<MaterialTextureOverride>,
    native_mtoon: bool,
    descriptors: Seq<MtoonMaterialDescriptor>,
    asset: ModelAsset,
) -> bool {
    &&& model.in_range()
    &&& load_error(model, overrides, native_mtoon, descriptors) is None
    &&& is_model_layout(model, overrides, native_mtoon, descriptors, asset)
}

/// The primitive of the file that primitive `k` of a loaded model shows.
pub open spec fn shown(model: SourceModel, asset: ModelAsset, k: int) -> SourcePrimitive {
    let placement = asset.primitives@[k].placement;
    model.meshes@[placement.mesh as int]@[placement.primitive as int]
}

/// Vertex `i` of primitive `k` of a loaded model.
pub open spec fn vertex_of(asset: ModelAsset, k: int, i: int) -> VertexBinding {
    asset.vertices@[asset.primitives@[k].vertex_base + i]
}

/// The skin of the node that shows primitive `k` of a loaded model.
pub open spec fn skin_of(model: SourceModel, asset: ModelAsset, k: int) -> Option<usize> {
    model.nodes@[asset.primitives@[k].placement.node as int].skin
}

/// The number that four bytes from `at` on make, the lowest first.
pub open spec fn word(bytes: Seq<u8>, at: int) -> int {
    bytes[at] + 0x100 * bytes[at + 1] + 0x1_0000 * bytes[at + 2] + 0x100_0000 * bytes[at + 3]
}

proof fn upload_facts(
    model: SourceModel,
    overrides: Seq<MaterialTextureOverride>,
    native_mtoon: bool,
    descriptors: Seq<MtoonMaterialDescriptor>,
    asset: ModelAsset,
    k: int,
)
    requires
        is_loaded(model, overrides, native_mtoon, descriptors, asset),
        0 <= k < asset.primitives@.len(),
    ensures
        asset.primitives@.len() == all_placements(model).len(),
        asset.primitives@[k].placement == all_placements(model)[k],
        is_placed(model, asset.primitives@[k].placement),
        is_upload(
            model,
            asset.materials@,
            overrides,
            native_mtoon,
            all_placements(model),
            k,
            asset.primitives@[k],
        ),
{
    placements_exist(model, model.nodes@.len());
    assert(is_upload(
        model,
        asset.materials@,
        overrides,
        native_mtoon,
        all_placements(model),
        k,
        asset.primitives@[k],
    ));
}

/// A loaded model shows primitives of its file: each has positions, and its
/// node has its mesh. The nodes come in order, and so do the primitives of each.
pub proof fn shown_primitives_come_in_order(
    model: SourceModel,
    overrides: Seq<MaterialTextureOverride>,
    native_mtoon: bool,
    descriptors: Seq<MtoonMaterialDescriptor>,
    asset: ModelAsset,
    first: int,
    second: int,
)
    requires
        is_loaded(model, overrides, native_mtoon, descriptors, asset),
        0 <= first < second < asset.primitives@.len(),
    ensures
        ({
            let a = asset.primitives@[first].placement;
            let b = asset.primitives@[second].placement;
            &&& a.node < model.nodes@.len()
            &&& model.nodes@[a.node as int].mesh == Some(a.mesh)
            &&& a.primitive < model.meshes@[a.mesh as int]@.len()
            &&& shown(model, asset, first).positions is Some
            &&& shown(model, asset, second).positions is Some
            &&& a.node < b.node || (a.node == b.node && a.primitive < b.primitive)
        }),
{
    upload_facts(model, overrides, native_mtoon, descriptors, asset, first);
    upload_facts(model, overrides, native_mtoon, descriptors, asset, second);
    node_placements_are_ordered(model, model.nodes@.len());
}

/// Every primitive with positions of a mesh that a node shows is among those of
/// the loaded model.
pub proof fn visible_primitives_are_shown(
    model: SourceModel,
    overrides: Seq<MaterialTextureOverride>,
    native_mtoon: bool,
    descriptors: Seq<MtoonMaterialDescriptor>,
    asset: ModelAsset,
    placement: Placement,
)
    requires
        is_loaded(model, overrides, native_mtoon, descriptors, asset),
        placement.node < model.nodes@.len(),
        model.nodes@[placement.node as int].mesh == Some(placement.mesh),
        placement.primitive < model.meshes@[placement.mesh as int]@.len(),
        model.meshes@[placement.mesh as int]@[placement.primitive as int].positions is Some,
    ensures
        exists|k: int|
            0 <= k < asset.primitives@.len() && (#[trigger] asset.primitives@[k]).placement
                == placement,
{
    node_placements_are_ordered(model, model.nodes@.len());
    let listed = placements(model, model.nodes@.len());
    assert(crate::source::names_one(
        model.nodes@[placement.node as int].mesh,
        model.meshes@.len(),
    ));
    assert(is_placed(model, placement));
    let k = choose|k: int| 0 <= k < listed.len() && listed[k] == placement;
    upload_facts(model, overrides, native_mtoon, descriptors, asset, k);
}

/// The primitives of a loaded model stand in its buffers one after the other:
/// the first begins at zero, each other where the one before it ends, and the
/// last ends with the buffers. A primitive has a vertex per position, and as
/// many indices as in the file, or one per vertex.
pub proof fn primitives_fill_the_buffers(
    model: SourceModel,
    overrides: Seq<MaterialTextureOverride>,
    native_mtoon: bool,
    descriptors: Seq<MtoonMaterialDescriptor>,
    asset: ModelAsset,
    k: int,
)
    requires
        is_loaded(model, overrides, native_mtoon, descriptors, asset),
        0 <= k < asset.primitives@.len(),
    ensures
        ({
            let own = asset.primitives@[k];
            let primitive = shown(model, asset, k);
            &&& primitive.positions matches Some(positions) && own.vertex_count == positions@.len()
            &&& own.index_count == (match primitive.indices {
                Some(indices) => indices@.len(),
                None => own.vertex_count as nat,
            })
            &&& k == 0 ==> own.vertex_base == 0 && own.first_index == 0
            &&& if k + 1 < asset.primitives@.len() {
                &&& asset.primitives@[k + 1].vertex_base == own.vertex_base + own.vertex_count
                &&& asset.primitives@[k + 1].first_index == own.first_index + own.index_count
            } else {
                &&& asset.vertices@.len() == own.vertex_base + own.vertex_count
                &&& asset.indices@.len() == own.first_index + own.index_count
            }
        }),
{
    upload_facts(model, overrides, native_mtoon, descriptors, asset, k);
    bases_step(model, all_placements(model), k);
    if k + 1 < asset.primitives@.len() {
        upload_facts(model, overrides, native_mtoon, descriptors, asset, k + 1);
    }
}

proof fn vertex_facts(
    model: SourceModel,
    overrides: Seq<MaterialTextureOverride>,
    native_mtoon: bool,
    descriptors: Seq<MtoonMaterialDescriptor>,
    asset: ModelAsset,
    k: int,
    i: int,
)
    requires
        is_loaded(model, overrides, native_mtoon, descriptors, asset),
        0 <= k < asset.primitives@.len(),
        0 <= i < asset.primitives@[k].vertex_count,
    ensures
        crate::layout::is_binding(
            model,
            asset.primitives@[k].placement,
            i,
            vertex_of(asset, k, i),
        ),
{
    upload_facts(model, overrides, native_mtoon, descriptors, asset, k);
    assert(is_binding_at(model, all_placements(model), asset.vertices@, k, i));
}

/// A vertex has the texture coordinates of the file, number by number, and
/// zeros for a set that the file lacks.
pub proof fn vertices_keep_their_coordinates(
    model: SourceModel,
    overrides: Seq<MaterialTextureOverride>,
    native_mtoon: bool,
    descriptors: Seq<MtoonMaterialDescriptor>,
    asset: ModelAsset,
    k: int,
    i: int,
    axis: int,
)
    requires
        is_loaded(model, overrides, native_mtoon, descriptors, asset),
        0 <= k < asset.primitives@.len(),
        0 <= i < asset.primitives@[k].vertex_count,
        0 <= axis < 2,
    ensures
        vertex_of(asset, k, i).uv@[axis].bits == (match shown(model, asset, k).tex_coords0 {
            Some(coords) => coords@[i]@[axis].bits,
            None => 0,
        }),
        vertex_of(asset, k, i).uv1@[axis].bits == (match shown(model, asset, k).tex_coords1 {
            Some(coords) => coords@[i]@[axis].bits,
            None => 0,
        }),
{
    vertex_facts(model, overrides, native_mtoon, descriptors, asset, k, i);
}

/// A skinned vertex has the four weights of the file, number by number. Without
/// weights, or without a skin, it follows its first joint alone.
pub proof fn vertices_keep_their_weights(
    model: SourceModel,
    overrides: Seq<MaterialTextureOverride>,
    native_mtoon: bool,
    descriptors: Seq<MtoonMaterialDescriptor>,
    asset: ModelAsset,
    k: int,
    i: int,
    slot: int,
)
    requires
        is_loaded(model, overrides, native_mtoon, descriptors, asset),
        0 <= k < asset.primitives@.len(),
        0 <= i < asset.primitives@[k].vertex_count,
        0 <= slot < 4,
    ensures
        vertex_of(asset, k, i).weights@[slot].bits == (match (
            skin_of(model, asset, k),
            shown(model, asset, k).weights,
        ) {
            (Some(_), Some(weights)) => weights@[i]@[slot].bits,
            _ => if slot == 0 {
                0x3f80_0000u32
            } else {
                0u32
            },
        }),
{
    vertex_facts(model, overrides, native_mtoon, descriptors, asset, k, i);
}

/// A skinned vertex names the joints of the file in the palette of all skins,
/// where the joints of a skin begin after those of the skins before it. Without
/// joints, or without a skin, it names the first.
pub proof fn vertices_keep_their_joints(
    model: SourceModel,
    overrides: Seq<MaterialTextureOverride>,
    native_mtoon: bool,
    descriptors: Seq<MtoonMaterialDescriptor>,
    asset: ModelAsset,
    k: int,
    i: int,
    slot: int,
)
    requires
        is_loaded(model, overrides, native_mtoon, descriptors, asset),
        0 <= k < asset.primitives@.len(),
        0 <= i < asset.primitives@[k].vertex_count,
        0 <= slot < 4,
    ensures
        vertex_of(asset, k, i).joints@[slot] == (match skin_of(model, asset, k) {
            Some(skin) => asset.skin_base@[skin as int] + (match shown(model, asset, k).joints {
                Some(joints) => joints@[i]@[slot] as int,
                None => 0,
            }),
            None => 0,
        }),
{
    vertex_facts(model, overrides, native_mtoon, descriptors, asset, k, i);
    upload_facts(model, overrides, native_mtoon, descriptors, asset, k);
    let node = asset.primitives@[k].placement.node as int;
    assert(crate::source::names_one(model.nodes@[node].skin, model.skins@.len()));
}

/// The joints of the first skin begin the palette, those of each other skin
/// where the ones before it end.
pub proof fn skins_follow_each_other(
    model: SourceModel,
    overrides: Seq<MaterialTextureOverride>,
    native_mtoon: bool,
    descriptors: Seq<MtoonMaterialDescriptor>,
    asset: ModelAsset,
    skin: int,
)
    requires
        is_loaded(model, overrides, native_mtoon, descriptors, asset),
        0 <= skin < model.skins@.len(),
    ensures
        asset.skin_base@.len() == model.skins@.len(),
        asset.skin_base@[0] == 0,
        skin + 1 < model.skins@.len() ==> asset.skin_base@[skin + 1] == asset.skin_base@[skin]
            + model.skins@[skin].joints@.len(),
{
    assert(asset.skin_base@[0] == crate::validation::joint_total(model.skins@, 0));
    assert(asset.skin_base@[skin] == crate::validation::joint_total(model.skins@, skin as nat));
    if skin + 1 < model.skins@.len() {
        assert(asset.skin_base@[skin + 1] == crate::validation::joint_total(
            model.skins@,
            (skin + 1) as nat,
        ));
    }
}

/// An index of a primitive is the one of the file, counted from the vertices of
/// the primitive; without indices the vertices come in order.
pub proof fn indices_keep_their_vertex(
    model: SourceModel,
    overrides: Seq<MaterialTextureOverride>,
    native_mtoon: bool,
    descriptors: Seq<MtoonMaterialDescriptor>,
    asset: ModelAsset,
    k: int,
    i: int,
)
    requires
        is_loaded(model, overrides, native_mtoon, descriptors, asset),
        0 <= k < asset.primitives@.len(),
        0 <= i < asset.primitives@[k].index_count,
    ensures
        asset.indices@[asset.primitives@[k].first_index + i] - asset.primitives@[k].vertex_base
            == (match shown(model, asset, k).indices {
            Some(indices) => indices@[i] as int,
            None => i,
        }),
{
    upload_facts(model, overrides, native_mtoon, descriptors, asset, k);
    assert(is_index_at(model, all_placements(model), asset.indices@, k, i));
}

proof fn shown_attributes_are_read(
    model: SourceModel,
    overrides: Seq<MaterialTextureOverride>,
    native_mtoon: bool,
    descriptors: Seq<MtoonMaterialDescriptor>,
    asset: ModelAsset,
    k: int,
)
    requires
        is_loaded(model, overrides, native_mtoon, descriptors, asset),
        0 <= k < asset.primitives@.len(),
    ensures
        is_consistent(model, asset.primitives@[k].placement),
        shown(model, asset, k).unreadable matches Some(attribute) ==> {
            attribute is MorphPosition || attribute is MorphNormal
        },
{
    upload_facts(model, overrides, native_mtoon, descriptors, asset, k);
    let placement = asset.primitives@[k].placement;
    validated_primitives_are_consistent(model, placement);
    let node = placement.node as int;
    let mesh = placement.mesh as int;
    let node_check = |i: int| node_error(model, i);
    first_some_none(model.nodes@.len(), node_check);
    assert(node_check(node) is None);
    let primitive_check = |k: int|
        primitive_error(model.meshes@[mesh]@[k], node_joint_count(model, node));
    first_some_none(model.meshes@[mesh]@.len(), primitive_check);
    assert(primitive_check(placement.primitive as int) is None);
}

/// Whether an accessor holds floats in a view that nothing replaces and that
/// holds them all.
pub open spec fn is_float_table(
    document: gltf::Document,
    accessor: usize,
    role: AccessorRole,
    buffers: Seq<Seq<u8>>,
) -> bool {
    let shape = document_accessors(document)[accessor as int];
    &&& shape.component == 5126
    &&& shape.view is Some
    &&& document_sparse(document)[accessor as int] is None
    &&& crate::accessors::is_stored(document, Some(accessor), role, buffers)
}

/// Where number `slot` of item `i` of an accessor stands that holds `width`
/// floats per item.
pub open spec fn float_address(shape: AccessorShape, width: int, i: int, slot: int) -> int {
    let view = shape.view.unwrap();
    view.offset + shape.offset + i * (match view.stride {
        Some(stride) => stride as int,
        None => 4 * width,
    }) + 4 * slot
}

proof fn words_are_numbers(bytes: Seq<u8>, at: int)
    ensures
        little_endian(bytes, at, 4) == word(bytes, at),
{
    reveal_with_fuel(little_endian, 5);
}

/// The weights of a skinned vertex are the bits that the file stores for it in
/// the accessor of its weights, as far as they are numbers: files that differ
/// in a weight give vertices that differ in it.
pub proof fn stored_weights_reach_the_vertices<
    F: Fn([Scalar; 4]) -> Scalar,
    G: Fn(&Vec<[Scalar; 2]>) -> [Scalar; 2],
>(
    document: gltf::Document,
    buffers: Seq<Seq<u8>>,
    overrides: Seq<MaterialTextureOverride>,
    native_mtoon: bool,
    descriptors: Seq<MtoonMaterialDescriptor>,
    length_squared: F,
    span: G,
    source: SourceModel,
    asset: ModelAsset,
    k: int,
    i: int,
    slot: int,
)
    requires
        is_document_load(
            document,
            buffers,
            overrides,
            native_mtoon,
            descriptors,
            length_squared,
            span,
            Ok::<(SourceModel, ModelAsset), DocumentLoadError>((source, asset)),
        ),
        0 <= k < asset.primitives@.len(),
        0 <= i < asset.primitives@[k].vertex_count,
        0 <= slot < 4,
        skin_of(source, asset, k) is Some,
        attributes_of(
            document,
            asset.primitives@[k].placement.mesh as int,
            asset.primitives@[k].placement.primitive as int,
        ).weights matches Some(accessor) && is_float_table(
            document,
            accessor,
            AccessorRole::Weights,
            buffers,
        ),
    ensures
        ({
            let placement = asset.primitives@[k].placement;
            let accessor = attributes_of(
                document,
                placement.mesh as int,
                placement.primitive as int,
            ).weights.unwrap();
            let shape = document_accessors(document)[accessor as int];
            let bits = word(
                buffers[shape.view.unwrap().buffer as int],
                float_address(shape, 4, i, slot),
            );
            is_nan(Scalar { bits: bits as u32 }) || vertex_of(asset, k, i).weights@[slot].bits
                == bits
        }),
{
    let placement = asset.primitives@[k].placement;
    let (mesh, primitive) = (placement.mesh as int, placement.primitive as int);
    upload_facts(source, overrides, native_mtoon, descriptors, asset, k);
    shown_attributes_are_read(source, overrides, native_mtoon, descriptors, asset, k);
    vertices_keep_their_weights(
        source,
        overrides,
        native_mtoon,
        descriptors,
        asset,
        k,
        i,
        slot,
    );
    let read = source.meshes@[mesh]@[primitive];
    assert(is_primitive_of(document, buffers, span, mesh, primitive, read));
    assert(are_weights(document, buffers, mesh, primitive, read.weights));
    let accessor = attributes_of(document, mesh, primitive).weights.unwrap();
    let shape = document_accessors(document)[accessor as int];
    assert(read.weights is Some);
    let weights = read.weights.unwrap();
    let value = |i: int, c: int| weights@[i][c];
    assert(weights@.len() == asset.primitives@[k].vertex_count);
    assert(are_stored_floats(document, Some(accessor), AccessorRole::Weights, buffers, 4, value));
    assert(value(i, slot) == weights@[i][slot]);
    vstd::arithmetic::mul::lemma_mul_is_commutative(
        i,
        stride_of(shape.view.unwrap(), 16) as int,
    );
    assert(stored_number(document, accessor, AccessorRole::Weights, buffers, i, slot)
        == little_endian(
        buffers[shape.view.unwrap().buffer as int],
        float_address(shape, 4, i, slot),
        4,
    ));
    words_are_numbers(
        buffers[shape.view.unwrap().buffer as int],
        float_address(shape, 4, i, slot),
    );
}

/// No key of an animation lies beyond the end of its clip.
pub proof fn no_key_lies_beyond_its_clip(
    model: SourceModel,
    overrides: Seq<MaterialTextureOverride>,
    native_mtoon: bool,
    descriptors: Seq<MtoonMaterialDescriptor>,
    asset: ModelAsset,
    animation: int,
    channel: int,
    key: int,
)
    requires
        is_loaded(model, overrides, native_mtoon, descriptors, asset),
        0 <= animation < model.animations@.len(),
        0 <= channel < model.animations@[animation].channels@.len(),
    ensures
        asset.clips@.len() == model.animations@.len(),
        ({
            let times = model.animations@[animation].channels@[channel].times;
            &&& times is Some
            &&& 0 <= key < times.unwrap()@.len() ==> !less(
                asset.clips@[animation].duration,
                times.unwrap()@[key],
            )
        }),
{
    let check = |i: int| animation_error(model.animations@, i);
    first_some_none(model.animations@.len(), check);
    assert(check(animation) is None);
    let channels = model.animations@[animation].channels@;
    let channel_check = |k: int|
        channel_input_error(channels[k], animation as usize, k as usize);
    assert(animation_error(model.animations@, animation) == first_some(
        channels.len(),
        channel_check,
    ));
    first_some_none(channels.len(), channel_check);
    assert(channel_check(channel) is None);
    assert(is_clip(model.animations@[animation], asset.clips@[animation]));
    clips_last_until_their_latest_key(model.animations@[animation], asset.clips@[animation]);
    let times = channels[channel].times.unwrap()@;
    assert(channels[channel].times is Some);
    if 0 <= key < times.len() - 1 {
        validated_times_rise(times, key, times.len() - 1);
    }
}

/// The clips of a loaded model are its animations, in their order and with their
/// names, and every channel that drives a node is among them.
pub proof fn animations_become_clips(
    model: SourceModel,
    overrides: Seq<MaterialTextureOverride>,
    native_mtoon: bool,
    descriptors: Seq<MtoonMaterialDescriptor>,
    asset: ModelAsset,
    animation: int,
    channel: int,
)
    requires
        is_loaded(model, overrides, native_mtoon, descriptors, asset),
        0 <= animation < model.animations@.len(),
        0 <= channel < model.animations@[animation].channels@.len(),
        model.animations@[animation].channels@[channel].outputs matches Some(outputs) && !(
        outputs is MorphTargetWeights),
    ensures
        asset.clips@.len() == model.animations@.len(),
        model.animations@[animation].name matches Some(name) ==> asset.clips@[animation].name@
            == name@,
        exists|j: int|
            0 <= j < asset.clips@[animation].channels@.len() && ({
                let played = #[trigger] asset.clips@[animation].channels@[j];
                let source = model.animations@[animation].channels@[channel];
                &&& played.node == source.target.node
                &&& played.times@ == source.times.unwrap()@
                &&& played.path is Translation <==> source.outputs.unwrap() is Translations
                &&& played.path is Rotation <==> source.outputs.unwrap() is Rotations
                &&& played.path is Scale <==> source.outputs.unwrap() is Scales
            }),
{
    let clip = asset.clips@[animation];
    let source = model.animations@[animation].channels@[channel];
    assert(is_clip(model.animations@[animation], clip));
    clips_keep_their_name(model.animations@[animation], clip);
    driving_channels_are_played(model.animations@[animation], clip, channel);
    let j = choose|j: int|
        0 <= j < clip.channels@.len() && plays(source, #[trigger] clip.channels@[j]);
    played_channels_keep_their_keys(source, clip.channels@[j]);
}

/// A primitive has the surface of its material in the file: without a material
/// it is white, opaque, lit and single-sided. An override may force it white,
/// unlit, opaque or blended, and changes nothing else.
pub proof fn primitives_keep_their_surface(
    model: SourceModel,
    overrides: Seq<MaterialTextureOverride>,
    native_mtoon: bool,
    descriptors: Seq<MtoonMaterialDescriptor>,
    asset: ModelAsset,
    k: int,
    c: int,
)
    requires
        is_loaded(model, overrides, native_mtoon, descriptors, asset),
        0 <= k < asset.primitives@.len(),
        0 <= c < 4,
    ensures
        ({
            let own = asset.primitives@[k];
            let index = shown(model, asset, k).material;
            let white = own.texture_override matches Some(found)
                && overrides[found as int].force_white;
            let unlit = own.texture_override matches Some(found)
                && overrides[found as int].force_unlit;
            let opaque = own.texture_override matches Some(found)
                && overrides[found as int].force_opaque;
            let blended = own.texture_override matches Some(found)
                && overrides[found as int].force_blend;
            &&& own.texture_override matches Some(found) ==> found < overrides.len()
            &&& own.material_index == index
            &&& white ==> own.base_color_factor@[c].bits == 0x3f80_0000
            &&& unlit ==> own.unlit
            &&& blended ==> own.alpha_mode is Blend
            &&& opaque && !blended ==> own.alpha_mode is Opaque
            &&& match index {
                Some(index) => {
                    let inputs = model.materials@[index as int].inputs;
                    &&& !white ==> own.base_color_factor@[c] == inputs.base_color_factor@[c]
                    &&& !unlit ==> own.unlit == model.materials@[index as int].unlit
                    &&& !blended && !opaque ==> own.alpha_mode == inputs.alpha_mode
                    &&& own.alpha_cutoff.bits == inputs.alpha_cutoff.bits
                    &&& own.double_sided == inputs.double_sided
                    &&& inputs.base_color_texture is None ==> own.image is None
                    &&& inputs.base_color_texture matches Some(texture) ==> own.image == Some(
                        texture.image_index,
                    )
                    &&& text_of(own.material_name) == text_of(model.materials@[index as int].name)
                },
                None => {
                    &&& own.base_color_factor@[c].bits == 0x3f80_0000
                    &&& !unlit ==> !own.unlit
                    &&& !blended ==> own.alpha_mode is Opaque
                    &&& own.alpha_cutoff.bits == 0x3f00_0000
                    &&& !own.double_sided
                    &&& own.image is None
                    &&& own.material_name is None
                },
            }
        }),
{
    upload_facts(model, overrides, native_mtoon, descriptors, asset, k);
    let own = asset.primitives@[k];
    single_match_is_listed(
        overrides,
        tags_of(model, shown(model, asset, k)).0,
        tags_of(model, shown(model, asset, k)).1,
    );
}

/// A skin of a loaded model has the joints of the file and its inverse bind
/// matrices, number by number; without matrices they are identities.
pub proof fn skins_keep_their_joints(
    model: SourceModel,
    overrides: Seq<MaterialTextureOverride>,
    native_mtoon: bool,
    descriptors: Seq<MtoonMaterialDescriptor>,
    asset: ModelAsset,
    s: int,
    j: int,
    e: int,
)
    requires
        is_loaded(model, overrides, native_mtoon, descriptors, asset),
        0 <= s < model.skins@.len(),
        0 <= j < model.skins@[s].joints@.len(),
        0 <= e < 16,
    ensures
        asset.skins@.len() == model.skins@.len(),
        asset.skins@[s].joints@ == model.skins@[s].joints@,
        asset.skins@[s].inverse_bind@.len() == model.skins@[s].joints@.len(),
        asset.skins@[s].inverse_bind@[j]@[e].bits == (match model.skins@[s].inverse_bind {
            Some(matrices) => matrices@[j]@[e].bits,
            None => if e == 0 || e == 5 || e == 10 || e == 15 {
                0x3f80_0000u32
            } else {
                0u32
            },
        }),
{
    validated_skins_match(model, s);
    assert(is_skin(model.skins@[s], asset.skins@[s]));
    if model.skins@[s].inverse_bind is None {
        assert(is_identity(asset.skins@[s].inverse_bind@[j]));
    }
}

/// A loaded model has the nodes of its file: their names, their rest poses, and
/// as parents the nodes that name them as children.
pub proof fn nodes_keep_their_place(
    model: SourceModel,
    overrides: Seq<MaterialTextureOverride>,
    native_mtoon: bool,
    descriptors: Seq<MtoonMaterialDescriptor>,
    asset: ModelAsset,
    node: usize,
)
    requires
        is_loaded(model, overrides, native_mtoon, descriptors, asset),
        node < model.nodes@.len(),
    ensures
        asset.node_names@.len() == model.nodes@.len(),
        text_of(asset.node_names@[node as int]) == text_of(model.nodes@[node as int].name),
        asset.skeleton.rest@[node as int].translation == model.rest@[node as int].translation,
        asset.skeleton.rest@[node as int].rotation == model.rest@[node as int].rotation,
        asset.skeleton.rest@[node as int].scale == model.rest@[node as int].scale,
        ({
            let parent = asset.skeleton.parents@[node as int];
            if parent == usize::MAX {
                forall|p: int|
                    0 <= p < model.nodes@.len() ==> !(
                    #[trigger] model.nodes@[p]).children@.contains(node)
            } else {
                parent < model.nodes@.len() && model.nodes@[parent as int].children@.contains(node)
            }
        }),
{
    let children = children_of(model);
    assert(model.nodes.len() <= usize::MAX);
    assert forall|i: int, k: int|
        0 <= i < children.len() && 0 <= k < children[i].len() implies #[trigger] children[i][k]
        < children.len() by {
        assert(model.nodes@[i].children@[k] < model.nodes@.len());
    }
    parents_are_those_that_name(children, node);
    assert(asset.node_names@[node as int] == model.nodes@[node as int].name);
    if asset.skeleton.parents@[node as int] == usize::MAX {
        assert forall|p: int| 0 <= p < model.nodes@.len() implies !(
        #[trigger] model.nodes@[p]).children@.contains(node) by {
            assert(!children[p].contains(node));
        }
    }
}

/// A primitive with morph targets leads to a morph mesh of its own mesh that
/// weights all of its targets, and there to itself; a primitive without leads
/// nowhere.
pub proof fn morphing_primitives_find_their_mesh(
    model: SourceModel,
    overrides: Seq<MaterialTextureOverride>,
    native_mtoon: bool,
    descriptors: Seq<MtoonMaterialDescriptor>,
    asset: ModelAsset,
    k: int,
)
    requires
        is_loaded(model, overrides, native_mtoon, descriptors, asset),
        0 <= k < asset.primitives@.len(),
    ensures
        asset.prim_morph@.len() == asset.primitives@.len(),
        asset.prim_morph@[k] is Some <==> shown(model, asset, k).targets@.len() > 0,
        asset.prim_morph@[k] matches Some((slot, place)) ==> {
            let own = asset.primitives@[k];
            let mesh = asset.morph_meshes@[slot as int];
            &&& slot < asset.morph_meshes@.len()
            &&& place < mesh.prims@.len()
            &&& mesh.mesh == own.placement.mesh
            &&& shown(model, asset, k).targets@.len() <= mesh.target_count
            &&& mesh.prims@[place as int].primitive == k
            &&& mesh.prims@[place as int].vertex_base == own.vertex_base
            &&& mesh.prims@[place as int].vertex_count == own.vertex_count
        },
{
    upload_facts(model, overrides, native_mtoon, descriptors, asset, k);
    let listed = all_placements(model);
    assert(is_morph_slot(model, listed, asset.morph_meshes@, k, asset.prim_morph@[k]));
    if let Some((slot, place)) = asset.prim_morph@[k] {
        let mesh = asset.morph_meshes@[slot as int];
        assert(is_morph_mesh(model, listed, listed.len(), mesh));
        let members = morphing_of(model, listed, mesh.mesh, listed.len());
        assert(is_morph_prim(model, listed, members[place as int], mesh.prims@[place as int]));
        most_targets_covers(model, listed, mesh.mesh, listed.len(), k);
    }
}

/// A primitive of a loaded model has the role that the extras of its material
/// name, and the override that its role names; without a role, the override
/// that its name begins with.
pub proof fn primitives_find_their_override(
    model: SourceModel,
    overrides: Seq<MaterialTextureOverride>,
    native_mtoon: bool,
    descriptors: Seq<MtoonMaterialDescriptor>,
    asset: ModelAsset,
    k: int,
    i: int,
)
    requires
        is_loaded(model, overrides, native_mtoon, descriptors, asset),
        0 <= k < asset.primitives@.len(),
        0 <= i < overrides.len(),
    ensures
        ({
            let own = asset.primitives@[k];
            let named = own.texture_override matches Some(found) && found == i;
            &&& text_of(own.material_role) == (match shown(model, asset, k).material {
                Some(index) => match model.materials@[index as int].extras {
                    Some(extras) => json_text(extras@, "pocket3d_role"@),
                    None => None,
                },
                None => None,
            })
            &&& own.material_role matches Some(role) ==> (named <==> role@ == overrides[i].role@)
            &&& own.material_role is None ==> (named <==> own.material_name is Some
                && overrides[i].name_prefix is Some && exists|rest: Seq<char>| #[trigger]
                (overrides[i].name_prefix->Some_0@ + rest) == own.material_name->Some_0@)
        }),
{
    upload_facts(model, overrides, native_mtoon, descriptors, asset, k);
    let own = asset.primitives@[k];
    let (role, name) = tags_of(model, shown(model, asset, k));
    assert(text_of(own.material_role) == role && text_of(own.material_name) == name);
    single_match_is_listed(overrides, role, name);
    overrides_match_by_role_then_prefix(overrides[i], role, name);
    assert(override_matches(overrides[i], role, name) <==> (
    own.texture_override matches Some(found) && found == i));
}

/// A primitive of a loaded model is drawn with toon shading where that is asked
/// for and its material is a toon material, with an outline where that has a
/// width, in the phase of its alpha mode, and out of turn only where a blended
/// toon material says so.
pub proof fn primitives_keep_their_rendering(
    model: SourceModel,
    overrides: Seq<MaterialTextureOverride>,
    native_mtoon: bool,
    descriptors: Seq<MtoonMaterialDescriptor>,
    asset: ModelAsset,
    k: int,
)
    requires
        is_loaded(model, overrides, native_mtoon, descriptors, asset),
        0 <= k < asset.primitives@.len(),
    ensures
        ({
            let own = asset.primitives@[k];
            let blended = own.alpha_mode is Blend;
            &&& own.alpha_mode is Opaque ==> own.render_phase is Opaque
            &&& own.alpha_mode is Mask ==> own.render_phase is Mask
            &&& !blended ==> own.render_queue_offset == 0
            &&& match own.material_index {
                Some(index) => match asset.materials@[index as int].model {
                    MaterialModel::Mtoon(mtoon) => {
                        &&& own.native == native_mtoon
                        &&& own.mtoon_outline <==> native_mtoon && !(
                        mtoon.outline_width_mode is Off) && less(
                            Scalar { bits: 0 },
                            mtoon.outline_width_factor,
                        )
                        &&& blended ==> (own.render_phase is MtoonBlendZWrite
                            <==> mtoon.transparent_with_z_write)
                        &&& blended ==> (own.render_phase is Blend
                            <==> !mtoon.transparent_with_z_write)
                        &&& blended ==> own.render_queue_offset == mtoon.render_queue_offset_number
                    },
                    _ => {
                        &&& !own.native && !own.mtoon_outline
                        &&& blended ==> own.render_phase is Blend
                        &&& own.render_queue_offset == 0
                    },
                },
                None => {
                    &&& !own.native && !own.mtoon_outline
                    &&& blended ==> own.render_phase is Blend
                    &&& own.render_queue_offset == 0
                    &&& own.base_color_mode is Authored
                },
            }
            &&& own.base_color_mode is Monochrome ==> (own.material_index matches Some(index) && (
            model.materials@[index as int].extras matches Some(extras) && json_text(
                extras@,
                "pocket3d_base_color_mode"@,
            ) == Some("monochrome"@)))
            &&& own.base_color_mode is Authored ==> (own.material_index matches Some(index) ==> (
            model.materials@[index as int].extras matches Some(extras) ==> json_text(
                extras@,
                "pocket3d_base_color_mode"@,
            ) != Some("monochrome"@)))
        }),
{
    upload_facts(model, overrides, native_mtoon, descriptors, asset, k);
}

proof fn uses_are_counted(
    model: SourceModel,
    overrides: Seq<MaterialTextureOverride>,
    native_mtoon: bool,
    descriptors: Seq<MtoonMaterialDescriptor>,
    asset: ModelAsset,
    i: usize,
    count: nat,
)
    requires
        is_loaded(model, overrides, native_mtoon, descriptors, asset),
        count <= asset.primitives@.len(),
    ensures
        override_uses(model, overrides, all_placements(model), i as int, count)
            == asset.primitives@.take(count as int).filter(
            |own: PrimitiveUpload| own.texture_override == Some(i),
        ).len(),
    decreases count,
{
    let used = |own: PrimitiveUpload| own.texture_override == Some(i);
    reveal(Seq::filter);
    if count > 0 {
        uses_are_counted(
            model,
            overrides,
            native_mtoon,
            descriptors,
            asset,
            i,
            (count - 1) as nat,
        );
        upload_facts(model, overrides, native_mtoon, descriptors, asset, count - 1);
        let all = asset.primitives@.take(count as int);
        assert(all.drop_last() =~= asset.primitives@.take(count - 1));
        assert(all.last() == asset.primitives@[count - 1]);
        assert(used(all.last()) <==> asset.primitives@[count - 1].texture_override == Some(i));
    }
}

/// An override that says how many primitives it is for is used for exactly so
/// many of a loaded model.
pub proof fn overrides_are_used_as_often_as_they_say(
    model: SourceModel,
    overrides: Seq<MaterialTextureOverride>,
    native_mtoon: bool,
    descriptors: Seq<MtoonMaterialDescriptor>,
    asset: ModelAsset,
    i: usize,
)
    requires
        is_loaded(model, overrides, native_mtoon, descriptors, asset),
        i < overrides.len(),
    ensures
        overrides[i as int].expected_primitive_count matches Some(expected)
            ==> asset.primitives@.filter(
            |own: PrimitiveUpload| own.texture_override == Some(i),
        ).len() == expected,
{
    let listed = all_placements(model);
    placements_exist(model, model.nodes@.len());
    assert(asset.primitives@.len() == listed.len());
    uses_are_counted(model, overrides, native_mtoon, descriptors, asset, i, listed.len());
    assert(asset.primitives@.take(listed.len() as int) =~= asset.primitives@);
    let check = |i: int|
        match overrides[i].expected_primitive_count {
            Some(expected) => if override_uses(model, overrides, listed, i, listed.len())
                != expected {
                Some(
                    OverrideCountError {
                        index: i as usize,
                        expected,
                        actual: override_uses(
                            model,
                            overrides,
                            listed,
                            i,
                            listed.len(),
                        ) as usize,
                    },
                )
            } else {
                None
            },
            None => None,
        };
    first_some_none(overrides.len(), check);
    assert(check(i as int) is None);
}

proof fn placements_are_accepted(
    model: SourceModel,
    overrides: Seq<MaterialTextureOverride>,
    native_mtoon: bool,
    descriptors: Seq<MtoonMaterialDescriptor>,
    asset: ModelAsset,
    k: int,
)
    requires
        is_loaded(model, overrides, native_mtoon, descriptors, asset),
        0 <= k < asset.primitives@.len(),
    ensures
        placement_error(model, descriptors, overrides, asset.primitives@[k].placement) is None,
{
    upload_facts(model, overrides, native_mtoon, descriptors, asset, k);
    let listed = all_placements(model);
    let check = |k: int|
        match placement_error(model, descriptors, overrides, listed[k]) {
            Some(error) => Some((listed[k], error)),
            None => None,
        };
    first_some_none(listed.len(), check);
    assert(check(k) is None);
}

/// A primitive of a loaded model has the coordinates that each texture of its
/// toon material samples, but for the matcap, which needs none.
pub proof fn toon_primitives_have_their_coordinates(
    model: SourceModel,
    overrides: Seq<MaterialTextureOverride>,
    native_mtoon: bool,
    descriptors: Seq<MtoonMaterialDescriptor>,
    asset: ModelAsset,
    k: int,
    t: int,
)
    requires
        is_loaded(model, overrides, native_mtoon, descriptors, asset),
        0 <= k < asset.primitives@.len(),
        shown(model, asset, k).material matches Some(index) && (descriptor_for(
            descriptors,
            index as int,
        ) matches Some(d) && 0 <= t < descriptor_textures(descriptors[d]).len()),
    ensures
        ({
            let primitive = shown(model, asset, k);
            let index = primitive.material->Some_0 as int;
            let texture = descriptor_textures(
                descriptors[descriptor_for(descriptors, index)->Some_0],
            )[t];
            let set = match texture.transform.tex_coord_override {
                Some(set) => set,
                None => texture.tex_coord,
            };
            !(texture.role is Matcap) ==> {
                ||| set == 0 && primitive.tex_coords0 is Some
                ||| set == 1 && primitive.tex_coords1 is Some
            }
        }),
{
    placements_are_accepted(model, overrides, native_mtoon, descriptors, asset, k);
    let primitive = shown(model, asset, k);
    let material = primitive.material->Some_0;
    let d = descriptor_for(descriptors, material as int)->Some_0;
    let check = |k: int|
        mtoon_texture_error(primitive, material, descriptor_textures(descriptors[d])[k]);
    first_some_none(descriptor_textures(descriptors[d]).len(), check);
    assert(mtoon_error(primitive, descriptors) is None);
    assert(check(t) is None);
}

/// A skinned primitive of a loaded model whose file leaves its joints out follows
/// the first joint of its skin, so the skin has one.
pub proof fn skins_have_the_joint_they_fall_back_to(
    model: SourceModel,
    overrides: Seq<MaterialTextureOverride>,
    native_mtoon: bool,
    descriptors: Seq<MtoonMaterialDescriptor>,
    asset: ModelAsset,
    k: int,
)
    requires
        is_loaded(model, overrides, native_mtoon, descriptors, asset),
        0 <= k < asset.primitives@.len(),
        shown(model, asset, k).joints is None,
        asset.primitives@[k].vertex_count > 0,
    ensures
        model.nodes@[asset.primitives@[k].placement.node as int].skin matches Some(skin)
            ==> model.skins@[skin as int].joints@.len() > 0,
{
    upload_facts(model, overrides, native_mtoon, descriptors, asset, k);
    placements_are_accepted(model, overrides, native_mtoon, descriptors, asset, k);
}

/// Where an override asks for it, the primitive that it is for has coordinates
/// for each vertex, which are finite and lie between a hundredth below zero and
/// a hundredth above one.
pub proof fn overridden_primitives_have_their_coordinates(
    model: SourceModel,
    overrides: Seq<MaterialTextureOverride>,
    native_mtoon: bool,
    descriptors: Seq<MtoonMaterialDescriptor>,
    asset: ModelAsset,
    k: int,
    i: usize,
    v: int,
    c: int,
)
    requires
        is_loaded(model, overrides, native_mtoon, descriptors, asset),
        0 <= k < asset.primitives@.len(),
        asset.primitives@[k].texture_override == Some(i),
        overrides[i as int].require_normalized_texcoord0,
        0 <= v < asset.primitives@[k].vertex_count,
        0 <= c < 2,
    ensures
        shown(model, asset, k).tex_coords0 matches Some(coords) && coords@.len()
            == asset.primitives@[k].vertex_count && {
            &&& is_finite(coords@[v]@[c])
            &&& !less(coords@[v]@[c], Scalar { bits: 0xbc23_d70a })
            &&& !less(Scalar { bits: 0x3f81_47ae }, coords@[v]@[c])
        },
{
    upload_facts(model, overrides, native_mtoon, descriptors, asset, k);
    placements_are_accepted(model, overrides, native_mtoon, descriptors, asset, k);
    assert(override_error(
        model,
        overrides,
        shown(model, asset, k),
        asset.primitives@[k].vertex_count as nat,
    ) is None);
    let coords = values_of(shown(model, asset, k).tex_coords0);
    accepted_coordinates_suit_a_surface(
        coords,
        asset.primitives@[k].vertex_count as nat,
        shown(model, asset, k).tex_coord_span,
    );
    assert(is_finite(coords.unwrap()[v]@[0]));
}

/// Whether a float is the one that the bytes of a table of floats hold at
/// number `slot` of item `i`, as far as it is a number.
pub open spec fn is_word_of(
    document: gltf::Document,
    accessor: usize,
    buffers: Seq<Seq<u8>>,
    width: int,
    i: int,
    slot: int,
    value: Scalar,
) -> bool {
    let shape = document_accessors(document)[accessor as int];
    let bits = word(
        buffers[shape.view.unwrap().buffer as int],
        float_address(shape, width, i, slot),
    );
    is_nan(Scalar { bits: bits as u32 }) || value.bits == bits
}

proof fn stored_floats_are_words(
    document: gltf::Document,
    accessor: usize,
    role: AccessorRole,
    buffers: Seq<Seq<u8>>,
    width: int,
    value: spec_fn(int, int) -> Scalar,
    i: int,
    slot: int,
)
    requires
        are_stored_floats(document, Some(accessor), role, buffers, width, value),
        is_float_table(document, accessor, role, buffers),
        item_of(role, ComponentType::F32) == Some((4 * width) as nat),
        0 <= i < document_accessors(document)[accessor as int].count,
        0 <= slot < width,
    ensures
        is_word_of(document, accessor, buffers, width, i, slot, value(i, slot)),
{
    let shape = document_accessors(document)[accessor as int];
    let view = shape.view.unwrap();
    vstd::arithmetic::mul::lemma_mul_is_commutative(i, stride_of(view, (4 * width) as nat) as int);
    assert(stored_number(document, accessor, role, buffers, i, slot) == little_endian(
        buffers[view.buffer as int],
        float_address(shape, width, i, slot),
        4,
    ));
    words_are_numbers(buffers[view.buffer as int], float_address(shape, width, i, slot));
}

/// The positions and the normals of a primitive are the floats that the file
/// stores for them, three for each vertex.
pub proof fn stored_vectors_are_read<G: Fn(&Vec<[Scalar; 2]>) -> [Scalar; 2]>(
    document: gltf::Document,
    buffers: Seq<Seq<u8>>,
    span: G,
    mesh: int,
    primitive: int,
    read: SourcePrimitive,
    accessor: usize,
    i: int,
    c: int,
)
    requires
        is_primitive_of(document, buffers, span, mesh, primitive, read),
        read.unreadable is None,
        is_float_table(document, accessor, AccessorRole::Vector, buffers),
        0 <= i < document_accessors(document)[accessor as int].count,
        0 <= c < 3,
    ensures
        attributes_of(document, mesh, primitive).positions == Some(accessor) ==> (
        read.positions matches Some(values) && values@.len() == document_accessors(
            document,
        )[accessor as int].count && is_word_of(
            document,
            accessor,
            buffers,
            3,
            i,
            c,
            values@[i]@[c],
        )),
        attributes_of(document, mesh, primitive).normals == Some(accessor) ==> (
        read.normals matches Some(values) && values@.len() == document_accessors(
            document,
        )[accessor as int].count && is_word_of(
            document,
            accessor,
            buffers,
            3,
            i,
            c,
            values@[i]@[c],
        )),
{
    let role = AccessorRole::Vector;
    if attributes_of(document, mesh, primitive).positions == Some(accessor) {
        let values = read.positions.unwrap();
        let value = |i: int, c: int| values@[i][c];
        assert(are_stored_floats(document, Some(accessor), role, buffers, 3, value));
        stored_floats_are_words(document, accessor, role, buffers, 3, value, i, c);
        assert(value(i, c) == values@[i]@[c]);
    }
    if attributes_of(document, mesh, primitive).normals == Some(accessor) {
        let values = read.normals.unwrap();
        let value = |i: int, c: int| values@[i][c];
        assert(are_stored_floats(document, Some(accessor), role, buffers, 3, value));
        stored_floats_are_words(document, accessor, role, buffers, 3, value, i, c);
        assert(value(i, c) == values@[i]@[c]);
    }
}

/// The two sets of coordinates of a primitive are the floats that the file
/// stores for each of them, two for each vertex.
pub proof fn stored_coordinates_are_read<G: Fn(&Vec<[Scalar; 2]>) -> [Scalar; 2]>(
    document: gltf::Document,
    buffers: Seq<Seq<u8>>,
    span: G,
    mesh: int,
    primitive: int,
    read: SourcePrimitive,
    accessor: usize,
    i: int,
    c: int,
)
    requires
        is_primitive_of(document, buffers, span, mesh, primitive, read),
        read.unreadable is None,
        is_float_table(document, accessor, AccessorRole::TexCoords, buffers),
        0 <= i < document_accessors(document)[accessor as int].count,
        0 <= c < 2,
    ensures
        attributes_of(document, mesh, primitive).tex_coords0 == Some(accessor) ==> (
        read.tex_coords0 matches Some(values) && values@.len() == document_accessors(
            document,
        )[accessor as int].count && is_word_of(
            document,
            accessor,
            buffers,
            2,
            i,
            c,
            values@[i]@[c],
        )),
        attributes_of(document, mesh, primitive).tex_coords1 == Some(accessor) ==> (
        read.tex_coords1 matches Some(values) && values@.len() == document_accessors(
            document,
        )[accessor as int].count && is_word_of(
            document,
            accessor,
            buffers,
            2,
            i,
            c,
            values@[i]@[c],
        )),
{
    let role = AccessorRole::TexCoords;
    if attributes_of(document, mesh, primitive).tex_coords0 == Some(accessor) {
        let values = read.tex_coords0.unwrap();
        let value = |i: int, c: int| values@[i][c];
        assert(are_stored_floats(document, Some(accessor), role, buffers, 2, value));
        stored_floats_are_words(document, accessor, role, buffers, 2, value, i, c);
        assert(value(i, c) == values@[i]@[c]);
    }
    if attributes_of(document, mesh, primitive).tex_coords1 == Some(accessor) {
        let values = read.tex_coords1.unwrap();
        let value = |i: int, c: int| values@[i][c];
        assert(are_stored_floats(document, Some(accessor), role, buffers, 2, value));
        stored_floats_are_words(document, accessor, role, buffers, 2, value, i, c);
        assert(value(i, c) == values@[i]@[c]);
    }
}

/// The displacements of a morph target are the floats that the file stores for
/// them, those of positions and those of normals apart.
pub proof fn stored_displacements_are_read(
    document: gltf::Document,
    buffers: Seq<Seq<u8>>,
    morph: MorphAccessors,
    target: SourceTarget,
    accessor: usize,
    i: int,
    c: int,
)
    requires
        is_target_of(document, buffers, morph, target),
        is_float_table(document, accessor, AccessorRole::Vector, buffers),
        is_readable(document, Some(accessor), AccessorRole::Vector),
        0 <= i < document_accessors(document)[accessor as int].count,
        0 <= c < 3,
    ensures
        morph.positions == Some(accessor) ==> (target.positions matches Some(values) && is_word_of(
            document,
            accessor,
            buffers,
            3,
            i,
            c,
            values@[i]@[c],
        )),
        morph.normals == Some(accessor) ==> (target.normals matches Some(values) && is_word_of(
            document,
            accessor,
            buffers,
            3,
            i,
            c,
            values@[i]@[c],
        )),
{
    let role = AccessorRole::Vector;
    readable_accessors_are_not_refused(document, accessor, role, buffers);
    if morph.positions == Some(accessor) {
        let values = target.positions.unwrap();
        let value = |i: int, c: int| values@[i][c];
        assert(are_stored_floats(document, Some(accessor), role, buffers, 3, value));
        stored_floats_are_words(document, accessor, role, buffers, 3, value, i, c);
        assert(value(i, c) == values@[i]@[c]);
    }
    if morph.normals == Some(accessor) {
        let values = target.normals.unwrap();
        let value = |i: int, c: int| values@[i][c];
        assert(are_stored_floats(document, Some(accessor), role, buffers, 3, value));
        stored_floats_are_words(document, accessor, role, buffers, 3, value, i, c);
        assert(value(i, c) == values@[i]@[c]);
    }
}

/// The joints and the inverse bind matrices of a skin are those of the file, the
/// sixteen floats of a matrix in their order.
pub proof fn stored_matrices_are_read(
    document: gltf::Document,
    buffers: Seq<Seq<u8>>,
    skin: int,
    read: SourceSkin,
    accessor: usize,
    i: int,
    c: int,
)
    requires
        is_skin_of(document, buffers, skin, read),
        !read.unreadable,
        document_binds(document)[skin] == Some(accessor),
        is_float_table(document, accessor, AccessorRole::Matrix, buffers),
        0 <= i < document_accessors(document)[accessor as int].count,
        0 <= c < 16,
    ensures
        read.joints@ == document_skins(document)[skin],
        read.inverse_bind matches Some(values) && is_word_of(
            document,
            accessor,
            buffers,
            16,
            i,
            c,
            values@[i]@[c],
        ),
{
    let role = AccessorRole::Matrix;
    let values = read.inverse_bind.unwrap();
    let value = |i: int, c: int| values@[i][c];
    assert(are_stored_floats(document, Some(accessor), role, buffers, 16, value));
    stored_floats_are_words(document, accessor, role, buffers, 16, value, i, c);
    assert(value(i, c) == values@[i]@[c]);
}

/// The key times of a channel are the floats that the file stores as its input.
pub proof fn stored_times_are_read<F: Fn([Scalar; 4]) -> Scalar>(
    document: gltf::Document,
    buffers: Seq<Seq<u8>>,
    length_squared: F,
    animation: int,
    channel: int,
    read: SourceChannel,
    i: int,
)
    requires
        is_channel_of(document, buffers, length_squared, animation, channel, read),
        is_readable(
            document,
            Some(keys_of(document, animation, channel).input),
            AccessorRole::Time,
        ),
        is_float_table(
            document,
            keys_of(document, animation, channel).input,
            AccessorRole::Time,
            buffers,
        ),
        0 <= i < document_accessors(document)[keys_of(
            document,
            animation,
            channel,
        ).input as int].count,
    ensures
        read.target == document_targets(document)[animation][channel],
        read.times matches Some(values) && is_word_of(
            document,
            keys_of(document, animation, channel).input,
            buffers,
            1,
            i,
            0,
            values@[i],
        ),
{
    let role = AccessorRole::Time;
    let accessor = keys_of(document, animation, channel).input;
    readable_accessors_are_not_refused(document, accessor, role, buffers);
    let values = read.times.unwrap();
    let value = |i: int, c: int| values@[i];
    assert(are_stored_floats(document, Some(accessor), role, buffers, 1, value));
    stored_floats_are_words(document, accessor, role, buffers, 1, value, i, 0);
}

/// The values of a channel are the floats that the file stores as its output:
/// three for a translation or a scale, four for a rotation.
pub proof fn stored_outputs_are_read<F: Fn([Scalar; 4]) -> Scalar>(
    document: gltf::Document,
    buffers: Seq<Seq<u8>>,
    length_squared: F,
    animation: int,
    channel: int,
    read: SourceChannel,
    i: int,
    c: int,
)
    requires
        is_channel_of(document, buffers, length_squared, animation, channel, read),
        ({
            let accessor = keys_of(document, animation, channel).output;
            let role = AccessorRole::Output(read.target.property);
            &&& is_readable(document, Some(accessor), role)
            &&& is_float_table(document, accessor, role, buffers)
            &&& 0 <= i < document_accessors(document)[accessor as int].count
        }),
        0 <= c < 4,
    ensures
        ({
            let accessor = keys_of(document, animation, channel).output;
            let property = read.target.property;
            &&& property is Translation && c < 3 ==> (read.outputs matches Some(
                SourceOutputs::Translations(values),
            ) && is_word_of(document, accessor, buffers, 3, i, c, values@[i]@[c]))
            &&& property is Scale && c < 3 ==> (read.outputs matches Some(
                SourceOutputs::Scales(values),
            ) && is_word_of(document, accessor, buffers, 3, i, c, values@[i]@[c]))
            &&& property is Rotation ==> (read.outputs matches Some(
                SourceOutputs::Rotations(values),
            ) && is_word_of(document, accessor, buffers, 4, i, c, values@[i]@[c]))
        }),
{
    let accessor = keys_of(document, animation, channel).output;
    let property = read.target.property;
    let role = AccessorRole::Output(property);
    readable_accessors_are_not_refused(document, accessor, role, buffers);
    match read.outputs.unwrap() {
        SourceOutputs::Translations(values) => {
            if c < 3 {
                let value = |i: int, c: int| values@[i][c];
                assert(are_stored_floats(document, Some(accessor), role, buffers, 3, value));
                stored_floats_are_words(document, accessor, role, buffers, 3, value, i, c);
                assert(value(i, c) == values@[i]@[c]);
            }
        },
        SourceOutputs::Scales(values) => {
            if c < 3 {
                let value = |i: int, c: int| values@[i][c];
                assert(are_stored_floats(document, Some(accessor), role, buffers, 3, value));
                stored_floats_are_words(document, accessor, role, buffers, 3, value, i, c);
                assert(value(i, c) == values@[i]@[c]);
            }
        },
        SourceOutputs::Rotations(values) => {
            let value = |i: int, c: int| values@[i][c];
            assert(are_stored_floats(document, Some(accessor), role, buffers, 4, value));
            stored_floats_are_words(document, accessor, role, buffers, 4, value, i, c);
            assert(value(i, c) == values@[i]@[c]);
        },
        SourceOutputs::MorphTargetWeights => {},
    }
}

/// The vertex indices and the joints of a primitive are the whole numbers that
/// the file stores for them, the lowest byte first.
pub proof fn stored_numbers_are_read<G: Fn(&Vec<[Scalar; 2]>) -> [Scalar; 2]>(
    document: gltf::Document,
    buffers: Seq<Seq<u8>>,
    span: G,
    mesh: int,
    primitive: int,
    read: SourcePrimitive,
    accessor: usize,
    i: int,
    c: int,
)
    requires
        is_primitive_of(document, buffers, span, mesh, primitive, read),
        read.unreadable is None,
        document_sparse(document)[accessor as int] is None,
        document_accessors(document)[accessor as int].view is Some,
        0 <= i < document_accessors(document)[accessor as int].count,
        0 <= c < 4,
    ensures
        ({
            let shape = document_accessors(document)[accessor as int];
            let view = shape.view->Some_0;
            let bytes = buffers[view.buffer as int];
            let start = |item: int| view.offset + shape.offset + i * (match view.stride {
                Some(stride) => stride as int,
                None => item,
            });
            let attributes = attributes_of(document, mesh, primitive);
            &&& attributes.indices == Some(accessor) && crate::accessors::is_stored(
                document,
                Some(accessor),
                AccessorRole::Indices,
                buffers,
            ) ==> (read.indices matches Some(values) && {
                &&& shape.component == 0x1401 ==> values@[i] == bytes[start(1)]
                &&& shape.component == 0x1403 ==> values@[i] == bytes[start(2)] + 256
                    * bytes[start(2) + 1]
                &&& shape.component == 0x1405 ==> values@[i] == word(bytes, start(4))
            })
            &&& attributes.joints == Some(accessor) && crate::accessors::is_stored(
                document,
                Some(accessor),
                AccessorRole::Joints,
                buffers,
            ) ==> (read.joints matches Some(values) && {
                &&& shape.component == 0x1401 ==> values@[i]@[c] == bytes[start(4) + c]
                &&& shape.component == 0x1403 ==> values@[i]@[c] == bytes[start(8) + 2 * c] + 256
                    * bytes[start(8) + 2 * c + 1]
            })
        }),
{
    let shape = document_accessors(document)[accessor as int];
    let view = shape.view->Some_0;
    let bytes = buffers[view.buffer as int];
    reveal_with_fuel(little_endian, 5);
    let attributes = attributes_of(document, mesh, primitive);
    vstd::arithmetic::mul::lemma_mul_is_commutative(i, stride_of(view, 1) as int);
    vstd::arithmetic::mul::lemma_mul_is_commutative(i, stride_of(view, 2) as int);
    vstd::arithmetic::mul::lemma_mul_is_commutative(i, stride_of(view, 4) as int);
    vstd::arithmetic::mul::lemma_mul_is_commutative(i, stride_of(view, 8) as int);
    if attributes.indices == Some(accessor) && crate::accessors::is_stored(
        document,
        Some(accessor),
        AccessorRole::Indices,
        buffers,
    ) {
        let values = read.indices.unwrap();
        let value = |i: int, c: int| values@[i] as int;
        assert(are_stored_numbers(
            document,
            Some(accessor),
            AccessorRole::Indices,
            buffers,
            1,
            value,
        ));
        assert(value(i, 0) == values@[i]);
    }
    if attributes.joints == Some(accessor) && crate::accessors::is_stored(
        document,
        Some(accessor),
        AccessorRole::Joints,
        buffers,
    ) {
        let values = read.joints.unwrap();
        let value = |i: int, c: int| values@[i][c] as int;
        assert(are_stored_numbers(
            document,
            Some(accessor),
            AccessorRole::Joints,
            buffers,
            4,
            value,
        ));
        assert(value(i, c) == values@[i]@[c]);
    }
}

} // verus!
