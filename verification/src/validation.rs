//! Checks on model input before anything is built from it.

use vstd::prelude::*;

use crate::anim::{
    any_invalid_time, any_unsorted_time, has_invalid_time, has_unsorted_time, invalid_time,
    is_usable, unsorted_at, usable_length_squared, validated_times_rise,
};
use crate::scalar::{is_finite, less, Scalar};
use crate::search::{first_some, first_some_none, first_some_stays, or_else, outcome};
use crate::source::{
    Dimensions, SourceAnimation, SourceChannel, SourceInterpolation, SourceModel,
    SourceOutputs, SourcePrimitive, SourceProperty, SourceSkin, SourceTarget,
};

verus! {

/// How many joints the skins of a model may have together.
pub const MAX_RENDERER_JOINTS: usize = 512;

/// What the vertices of a primitive have.
#[derive(Clone, Copy, Debug, PartialEq, Eq, Structural)]
pub enum Attribute {
    Position,
    Normal,
    TexCoord0,
    TexCoord1,
    Joints0,
    Weights0,
    Indices,
    MorphPosition { target: usize },
    MorphNormal { target: usize },
}

/// Why a model cannot be loaded as it was read.
#[derive(Clone, Copy, Debug, PartialEq, Eq, Structural)]
pub enum InputError {
    JointPalette { count: usize },
    UnreadableInverseBinds,
    InverseBindCount { matrices: usize, joints: usize },
    SkinJoint { joint: usize, node: usize, nodes: usize },
    UnreadableAttribute { attribute: Attribute },
    AttributeCount { attribute: Attribute, actual: usize, positions: usize },
    JointIndex { vertex: usize, slot: usize, joint: u16, joints: usize },
    VertexIndex { index: u32, positions: usize },
    NoKeys { animation: usize, channel: usize },
    UnreadableKeys { animation: usize, channel: usize },
    InvalidKeys { animation: usize, channel: usize },
    TooFewCubicKeys { animation: usize, channel: usize },
    OutputDimensions { animation: usize, channel: usize },
    OutputCountOverflow,
    OutputCount { outputs: usize, keys: usize, cubic: bool },
    UnreadableOutputs { animation: usize, channel: usize },
    TruncatedRotations { animation: usize, channel: usize },
    UnusableRotation { animation: usize, channel: usize, key: usize },
}

/// What is wrong with the number of values of an attribute.
pub open spec fn count_error(attribute: Attribute, positions: nat, actual: nat) -> Option<
    InputError,
> {
    if actual != positions {
        Some(
            InputError::AttributeCount {
                attribute,
                actual: actual as usize,
                positions: positions as usize,
            },
        )
    } else {
        None
    }
}

/// What is wrong with an attribute of a primitive of which `unreadable` cannot
/// be read.
pub open spec fn reading_error(attribute: Attribute, unreadable: Option<Attribute>) -> Option<
    InputError,
> {
    if unreadable == Some(attribute) {
        Some(InputError::UnreadableAttribute { attribute })
    } else {
        None
    }
}

/// What is wrong with an attribute that may be missing.
pub open spec fn attribute_error<T>(
    attribute: Attribute,
    unreadable: Option<Attribute>,
    positions: nat,
    values: Option<Vec<T>>,
) -> Option<InputError> {
    or_else(
        reading_error(attribute, unreadable),
        match values {
            Some(values) => count_error(attribute, positions, values@.len()),
            None => None,
        },
    )
}

/// Checks that an attribute has a value per position.
pub fn validate_attribute_count(
    attribute: Attribute,
    position_count: usize,
    actual_count: usize,
) -> (result: Result<(), InputError>)
    ensures
        result == outcome(count_error(attribute, position_count as nat, actual_count as nat)),
{
    if actual_count != position_count {
        Err(
            InputError::AttributeCount {
                attribute,
                actual: actual_count,
                positions: position_count,
            },
        )
    } else {
        Ok(())
    }
}

fn validate_reading(attribute: Attribute, unreadable: Option<Attribute>) -> (result: Result<
    (),
    InputError,
>)
    ensures
        result == outcome(reading_error(attribute, unreadable)),
{
    if let Some(found) = unreadable {
        if found == attribute {
            return Err(InputError::UnreadableAttribute { attribute });
        }
    }
    Ok(())
}

fn validate_attribute<T>(
    attribute: Attribute,
    unreadable: Option<Attribute>,
    position_count: usize,
    values: &Option<Vec<T>>,
) -> (result: Result<(), InputError>)
    ensures
        result == outcome(attribute_error(attribute, unreadable, position_count as nat, *values)),
{
    if let Err(error) = validate_reading(attribute, unreadable) {
        return Err(error);
    }
    match values {
        Some(values) => validate_attribute_count(attribute, position_count, values.len()),
        None => Ok(()),
    }
}

/// What is wrong with the number of joints.
pub open spec fn palette_error(count: nat) -> Option<InputError> {
    if count > MAX_RENDERER_JOINTS {
        Some(InputError::JointPalette { count: count as usize })
    } else {
        None
    }
}

/// Checks that the joints of a model fit one palette.
pub fn validate_joint_palette_count(joint_count: usize) -> (result: Result<(), InputError>)
    ensures
        result == outcome(palette_error(joint_count as nat)),
{
    if joint_count > MAX_RENDERER_JOINTS {
        Err(InputError::JointPalette { count: joint_count })
    } else {
        Ok(())
    }
}

/// The joints of the first `count` skins together.
pub open spec fn joint_total(skins: Seq<SourceSkin>, count: nat) -> nat
    decreases count,
{
    if count == 0 {
        0
    } else {
        joint_total(skins, (count - 1) as nat) + skins[count - 1].joints@.len()
    }
}

/// `count`, or the largest number there is.
pub open spec fn clamped(count: nat) -> nat {
    if count > usize::MAX {
        usize::MAX as nat
    } else {
        count
    }
}

proof fn joint_total_grows(skins: Seq<SourceSkin>, earlier: nat, count: nat)
    requires
        earlier <= count,
    ensures
        joint_total(skins, earlier) <= joint_total(skins, count),
    decreases count,
{
    if earlier < count {
        joint_total_grows(skins, earlier, (count - 1) as nat);
    }
}

/// How many joints the skins have together, clamped to what can be counted.
fn count_joints(skins: &Vec<SourceSkin>) -> (count: usize)
    ensures
        count == clamped(joint_total(skins@, skins@.len())),
{
    let mut count: usize = 0;
    let mut i: usize = 0;
    while i < skins.len()
        invariant
            i <= skins@.len(),
            count == joint_total(skins@, i as nat),
        decreases skins@.len() - i,
    {
        match count.checked_add(skins[i].joints.len()) {
            Some(next) => {
                count = next;
            },
            None => {
                proof {
                    joint_total_grows(skins@, (i + 1) as nat, skins@.len());
                }
                return usize::MAX;
            },
        }
        i += 1;
    }
    count
}

/// What is wrong with a skin.
pub open spec fn skin_error(skin: SourceSkin, nodes: nat) -> Option<InputError> {
    or_else(
        if skin.unreadable {
            Some(InputError::UnreadableInverseBinds)
        } else {
            match skin.inverse_bind {
                Some(matrices) => if matrices@.len() != skin.joints@.len() {
                    Some(
                        InputError::InverseBindCount {
                            matrices: matrices@.len() as usize,
                            joints: skin.joints@.len() as usize,
                        },
                    )
                } else {
                    None
                },
                None => None,
            }
        },
        first_some(
            skin.joints@.len(),
            |joint: int|
                if skin.joints@[joint] >= nodes {
                    Some(
                        InputError::SkinJoint {
                            joint: joint as usize,
                            node: skin.joints@[joint],
                            nodes: nodes as usize,
                        },
                    )
                } else {
                    None
                },
        ),
    )
}

fn validate_skin(skin: &SourceSkin, nodes: usize) -> (result: Result<(), InputError>)
    ensures
        result == outcome(skin_error(*skin, nodes as nat)),
{
    let joints: usize = skin.joints.len();
    if skin.unreadable {
        return Err(InputError::UnreadableInverseBinds);
    }
    if let Some(matrices) = &skin.inverse_bind {
        if matrices.len() != joints {
            return Err(InputError::InverseBindCount { matrices: matrices.len(), joints });
        }
    }
    let ghost check = |joint: int|
        if skin.joints@[joint] >= nodes as nat {
            Some(
                InputError::SkinJoint {
                    joint: joint as usize,
                    node: skin.joints@[joint],
                    nodes: nodes as nat as usize,
                },
            )
        } else {
            None
        };
    let mut joint: usize = 0;
    while joint < joints
        invariant
            joint <= joints == skin.joints@.len(),
            check == (|joint: int|
                if skin.joints@[joint] >= nodes as nat {
                    Some(
                        InputError::SkinJoint {
                            joint: joint as usize,
                            node: skin.joints@[joint],
                            nodes: nodes as nat as usize,
                        },
                    )
                } else {
                    None
                }),
            skin_error(*skin, nodes as nat) == first_some(skin.joints@.len(), check),
            first_some(joint as nat, check) is None,
        decreases joints - joint,
    {
        let node: usize = skin.joints[joint];
        if node >= nodes {
            assert(check(joint as int) == Some(InputError::SkinJoint { joint, node, nodes }));
            proof {
                first_some_stays((joint + 1) as nat, joints as nat, check);
            }
            return Err(InputError::SkinJoint { joint, node, nodes });
        }
        assert(check(joint as int) is None);
        joint += 1;
    }
    Ok(())
}

/// What is wrong with slot `slot` of the joints of vertex `vertex`, in a skin
/// of `count` joints.
pub open spec fn joint_slot_error(
    joints: Seq<[u16; 4]>,
    count: nat,
    vertex: int,
    slot: int,
) -> Option<InputError> {
    if joints[vertex]@[slot] >= count {
        Some(
            InputError::JointIndex {
                vertex: vertex as usize,
                slot: slot as usize,
                joint: joints[vertex]@[slot],
                joints: count as usize,
            },
        )
    } else {
        None
    }
}

/// What is wrong with the joints of vertex `vertex`.
pub open spec fn vertex_joint_error(joints: Seq<[u16; 4]>, count: nat, vertex: int) -> Option<
    InputError,
> {
    or_else(
        joint_slot_error(joints, count, vertex, 0),
        or_else(
            joint_slot_error(joints, count, vertex, 1),
            or_else(
                joint_slot_error(joints, count, vertex, 2),
                joint_slot_error(joints, count, vertex, 3),
            ),
        ),
    )
}

/// What is wrong with the joints of the vertices: the first vertex and slot
/// that name no joint of a skin of `count` joints.
pub open spec fn joint_error(joints: Seq<[u16; 4]>, count: nat) -> Option<InputError> {
    first_some(joints.len(), |vertex: int| vertex_joint_error(joints, count, vertex))
}

/// Checks that the joints of the vertices are joints of their skin.
pub(crate) fn validate_joints(joints: &Vec<[u16; 4]>, count: usize) -> (result: Result<
    (),
    InputError,
>)
    ensures
        result == outcome(joint_error(joints@, count as nat)),
{
    let ghost check = |vertex: int| vertex_joint_error(joints@, count as nat, vertex);
    let mut vertex: usize = 0;
    while vertex < joints.len()
        invariant
            vertex <= joints@.len(),
            check == (|vertex: int| vertex_joint_error(joints@, count as nat, vertex)),
            first_some(vertex as nat, check) is None,
        decreases joints@.len() - vertex,
    {
        let here: [u16; 4] = joints[vertex];
        let mut slot: usize = 0;
        while slot < 4
            invariant
                slot <= 4,
                vertex < joints@.len(),
                here == joints@[vertex as int],
                check == (|vertex: int| vertex_joint_error(joints@, count as nat, vertex)),
                first_some(vertex as nat, check) is None,
                forall|s: int|
                    0 <= s < slot ==> #[trigger] joint_slot_error(
                        joints@,
                        count as nat,
                        vertex as int,
                        s,
                    ) is None,
            decreases 4 - slot,
        {
            let joint: u16 = here[slot];
            if joint as usize >= count {
                let ghost found = InputError::JointIndex { vertex, slot, joint, joints: count };
                assert(joint_slot_error(joints@, count as nat, vertex as int, slot as int) == Some(
                    found,
                ));
                assert(check(vertex as int) == Some(found)) by {
                    if slot > 0 {
                        assert(joint_slot_error(joints@, count as nat, vertex as int, 0) is None);
                    }
                    if slot > 1 {
                        assert(joint_slot_error(joints@, count as nat, vertex as int, 1) is None);
                    }
                    if slot > 2 {
                        assert(joint_slot_error(joints@, count as nat, vertex as int, 2) is None);
                    }
                }
                proof {
                    first_some_stays((vertex + 1) as nat, joints@.len(), check);
                }
                return Err(InputError::JointIndex { vertex, slot, joint, joints: count });
            }
            slot += 1;
        }
        assert(joint_slot_error(joints@, count as nat, vertex as int, 0) is None);
        assert(joint_slot_error(joints@, count as nat, vertex as int, 1) is None);
        assert(joint_slot_error(joints@, count as nat, vertex as int, 2) is None);
        assert(joint_slot_error(joints@, count as nat, vertex as int, 3) is None);
        assert(check(vertex as int) is None);
        vertex += 1;
    }
    Ok(())
}

/// What is wrong with the indices: the first that names no position.
pub open spec fn index_error(indices: Seq<u32>, positions: nat) -> Option<InputError> {
    first_some(
        indices.len(),
        |i: int|
            if indices[i] >= positions {
                Some(
                    InputError::VertexIndex { index: indices[i], positions: positions as usize },
                )
            } else {
                None
            },
    )
}

fn validate_indices(indices: &Vec<u32>, positions: usize) -> (result: Result<(), InputError>)
    ensures
        result == outcome(index_error(indices@, positions as nat)),
{
    let ghost check = |i: int|
        if indices@[i] >= positions as nat {
            Some(
                InputError::VertexIndex {
                    index: indices@[i],
                    positions: positions as nat as usize,
                },
            )
        } else {
            None
        };
    let mut i: usize = 0;
    while i < indices.len()
        invariant
            i <= indices@.len(),
            check == (|i: int|
                if indices@[i] >= positions as nat {
                    Some(
                        InputError::VertexIndex {
                            index: indices@[i],
                            positions: positions as nat as usize,
                        },
                    )
                } else {
                    None
                }),
            index_error(indices@, positions as nat) == first_some(indices@.len(), check),
            first_some(i as nat, check) is None,
        decreases indices@.len() - i,
    {
        let index: u32 = indices[i];
        if index as usize >= positions {
            assert(check(i as int) == Some(InputError::VertexIndex { index, positions }));
            proof {
                first_some_stays((i + 1) as nat, indices@.len(), check);
            }
            return Err(InputError::VertexIndex { index, positions });
        }
        assert(check(i as int) is None);
        i += 1;
    }
    Ok(())
}

/// What is wrong with morph target `target`.
pub open spec fn target_error(
    targets: Seq<SourceTarget>,
    unreadable: Option<Attribute>,
    positions: nat,
    target: int,
) -> Option<InputError> {
    or_else(
        attribute_error(
            Attribute::MorphPosition { target: target as usize },
            unreadable,
            positions,
            targets[target].positions,
        ),
        attribute_error(
            Attribute::MorphNormal { target: target as usize },
            unreadable,
            positions,
            targets[target].normals,
        ),
    )
}

/// What is wrong with the morph targets.
pub open spec fn targets_error(
    targets: Seq<SourceTarget>,
    unreadable: Option<Attribute>,
    positions: nat,
) -> Option<InputError> {
    first_some(targets.len(), |target: int| target_error(targets, unreadable, positions, target))
}

fn validate_targets(
    targets: &Vec<SourceTarget>,
    unreadable: Option<Attribute>,
    positions: usize,
) -> (result: Result<(), InputError>)
    ensures
        result == outcome(targets_error(targets@, unreadable, positions as nat)),
{
    let ghost check = |target: int| target_error(targets@, unreadable, positions as nat, target);
    let mut target: usize = 0;
    while target < targets.len()
        invariant
            target <= targets@.len(),
            check == (|target: int| target_error(targets@, unreadable, positions as nat, target)),
            first_some(target as nat, check) is None,
        decreases targets@.len() - target,
    {
        let counted = validate_attribute(
            Attribute::MorphPosition { target },
            unreadable,
            positions,
            &targets[target].positions,
        );
        let result = match counted {
            Ok(()) => validate_attribute(
                Attribute::MorphNormal { target },
                unreadable,
                positions,
                &targets[target].normals,
            ),
            Err(error) => Err(error),
        };
        assert(result == outcome(check(target as int)));
        if let Err(error) = result {
            proof {
                first_some_stays((target + 1) as nat, targets@.len(), check);
            }
            return Err(error);
        }
        target += 1;
    }
    Ok(())
}

/// What is wrong with a primitive of a node whose skin has `skin` joints, if
/// it has one. A primitive without positions is not drawn and not looked at.
pub open spec fn primitive_error(primitive: SourcePrimitive, skin: Option<nat>) -> Option<
    InputError,
> {
    or_else(
        reading_error(Attribute::Position, primitive.unreadable),
        match primitive.positions {
            Some(positions) => vertices_error(primitive, positions@.len(), skin),
            None => None,
        },
    )
}

/// What is wrong with what goes with the `count` positions of a primitive.
pub open spec fn vertices_error(
    primitive: SourcePrimitive,
    count: nat,
    skin: Option<nat>,
) -> Option<InputError> {
    let unreadable = primitive.unreadable;
    or_else(
        attribute_error(Attribute::Normal, unreadable, count, primitive.normals),
        or_else(
            attribute_error(Attribute::TexCoord0, unreadable, count, primitive.tex_coords0),
            or_else(
                attribute_error(Attribute::TexCoord1, unreadable, count, primitive.tex_coords1),
                or_else(
                    attribute_error(Attribute::Joints0, unreadable, count, primitive.joints),
                    or_else(
                        skinned_joint_error(primitive.joints, skin),
                        or_else(
                            attribute_error(
                                Attribute::Weights0,
                                unreadable,
                                count,
                                primitive.weights,
                            ),
                            or_else(
                                or_else(
                                    reading_error(Attribute::Indices, unreadable),
                                    optional_index_error(primitive.indices, count),
                                ),
                                targets_error(primitive.targets@, unreadable, count),
                            ),
                        ),
                    ),
                ),
            ),
        ),
    )
}

/// What is wrong with the joints of a primitive, if it has joints and a skin.
pub open spec fn skinned_joint_error(joints: Option<Vec<[u16; 4]>>, skin: Option<nat>) -> Option<
    InputError,
> {
    match (joints, skin) {
        (Some(joints), Some(count)) => joint_error(joints@, count),
        _ => None,
    }
}

/// What is wrong with the indices of a primitive, if it has indices.
pub open spec fn optional_index_error(indices: Option<Vec<u32>>, positions: nat) -> Option<
    InputError,
> {
    match indices {
        Some(indices) => index_error(indices@, positions),
        None => None,
    }
}

/// The number of joints of a skin as a number.
pub open spec fn as_count(skin: Option<usize>) -> Option<nat> {
    match skin {
        Some(count) => Some(count as nat),
        None => None,
    }
}

fn validate_primitive(primitive: &SourcePrimitive, skin: Option<usize>) -> (result: Result<
    (),
    InputError,
>)
    ensures
        result == outcome(primitive_error(*primitive, as_count(skin))),
{
    let unreadable: Option<Attribute> = primitive.unreadable;
    if let Err(error) = validate_reading(Attribute::Position, unreadable) {
        return Err(error);
    }
    let count: usize = match &primitive.positions {
        None => {
            return Ok(());
        },
        Some(positions) => positions.len(),
    };
    if let Err(error) = validate_attribute(
        Attribute::Normal,
        unreadable,
        count,
        &primitive.normals,
    ) {
        return Err(error);
    }
    if let Err(error) = validate_attribute(
        Attribute::TexCoord0,
        unreadable,
        count,
        &primitive.tex_coords0,
    ) {
        return Err(error);
    }
    if let Err(error) = validate_attribute(
        Attribute::TexCoord1,
        unreadable,
        count,
        &primitive.tex_coords1,
    ) {
        return Err(error);
    }
    if let Err(error) = validate_attribute(
        Attribute::Joints0,
        unreadable,
        count,
        &primitive.joints,
    ) {
        return Err(error);
    }
    if let Some(joints) = &primitive.joints {
        if let Some(joint_count) = skin {
            if let Err(error) = validate_joints(joints, joint_count) {
                return Err(error);
            }
        }
    }
    if let Err(error) = validate_attribute(
        Attribute::Weights0,
        unreadable,
        count,
        &primitive.weights,
    ) {
        return Err(error);
    }
    if let Err(error) = validate_reading(Attribute::Indices, unreadable) {
        return Err(error);
    }
    if let Some(indices) = &primitive.indices {
        if let Err(error) = validate_indices(indices, count) {
            return Err(error);
        }
    }
    validate_targets(&primitive.targets, unreadable, count)
}

/// How many joints the skin of a node has, if it has one.
pub open spec fn node_joint_count(model: SourceModel, node: int) -> Option<nat> {
    match model.nodes@[node].skin {
        Some(skin) => Some(model.skins@[skin as int].joints@.len()),
        None => None,
    }
}

/// What is wrong with the primitives of a node.
pub open spec fn node_error(model: SourceModel, node: int) -> Option<InputError> {
    match model.nodes@[node].mesh {
        Some(mesh) => first_some(
            model.meshes@[mesh as int]@.len(),
            |k: int|
                primitive_error(model.meshes@[mesh as int]@[k], node_joint_count(model, node)),
        ),
        None => None,
    }
}

fn validate_node(model: &SourceModel, node: usize) -> (result: Result<(), InputError>)
    requires
        model.in_range(),
        node < model.nodes@.len(),
    ensures
        result == outcome(node_error(*model, node as int)),
{
    assert(crate::source::names_one(model.nodes@[node as int].mesh, model.meshes@.len()));
    let mesh: usize = match model.nodes[node].mesh {
        Some(mesh) => mesh,
        None => {
            return Ok(());
        },
    };
    let skin: Option<usize> = match model.nodes[node].skin {
        Some(skin) => Some(model.skins[skin].joints.len()),
        None => None,
    };
    let ghost check = |k: int|
        primitive_error(
            model.meshes@[mesh as int]@[k],
            node_joint_count(*model, node as int),
        );
    let mut k: usize = 0;
    while k < model.meshes[mesh].len()
        invariant
            mesh < model.meshes@.len(),
            k <= model.meshes@[mesh as int]@.len(),
            as_count(skin) == node_joint_count(*model, node as int),
            check == (|k: int|
                primitive_error(
                    model.meshes@[mesh as int]@[k],
                    node_joint_count(*model, node as int),
                )),
            node_error(*model, node as int) == first_some(
                model.meshes@[mesh as int]@.len(),
                check,
            ),
            first_some(k as nat, check) is None,
        decreases model.meshes@[mesh as int]@.len() - k,
    {
        let result = validate_primitive(&model.meshes[mesh][k], skin);
        assert(result == outcome(check(k as int)));
        if let Err(error) = result {
            proof {
                first_some_stays((k + 1) as nat, model.meshes@[mesh as int]@.len(), check);
            }
            return Err(error);
        }
        k += 1;
    }
    Ok(())
}

/// How many outputs a channel has per key.
pub open spec fn outputs_per_key(cubic: bool) -> int {
    if cubic {
        3
    } else {
        1
    }
}

/// Which output is the value of key `key`.
pub open spec fn value_index(key: int, cubic: bool) -> int {
    if cubic {
        key * 3 + 1
    } else {
        key
    }
}

/// What is wrong with rotation key `key`, among outputs with the given squared
/// lengths.
pub open spec fn rotation_input_error(
    lengths_squared: Seq<Scalar>,
    cubic: bool,
    key: int,
    animation: usize,
    channel: usize,
) -> Option<InputError> {
    if value_index(key, cubic) >= lengths_squared.len() {
        Some(InputError::TruncatedRotations { animation, channel })
    } else if !usable_length_squared(lengths_squared[value_index(key, cubic)]) {
        Some(InputError::UnusableRotation { animation, channel, key: key as usize })
    } else {
        None
    }
}

/// How many outputs were read, `None` for morph weights.
pub open spec fn output_len(outputs: SourceOutputs) -> Option<nat> {
    match outputs {
        SourceOutputs::Translations(values) => Some(values@.len()),
        SourceOutputs::Rotations(values) => Some(values@.len()),
        SourceOutputs::Scales(values) => Some(values@.len()),
        SourceOutputs::MorphTargetWeights => None,
    }
}

/// What is wrong with the outputs that were read for a channel of `keys` keys
/// that expects `expected` of them.
pub open spec fn outputs_error(
    outputs: SourceOutputs,
    lengths_squared: Seq<Scalar>,
    keys: nat,
    expected: nat,
    cubic: bool,
    animation: usize,
    channel: usize,
) -> Option<InputError> {
    or_else(
        if outputs is Rotations {
            first_some(
                keys,
                |key: int|
                    rotation_input_error(lengths_squared, cubic, key, animation, channel),
            )
        } else {
            None
        },
        match output_len(outputs) {
            None => None,
            Some(actual) => if actual != expected {
                Some(
                    InputError::OutputCount {
                        outputs: actual as usize,
                        keys: keys as usize,
                        cubic,
                    },
                )
            } else {
                None
            },
        },
    )
}

/// The element shape that a property takes.
pub open spec fn property_dimensions(property: SourceProperty) -> Dimensions {
    if property == SourceProperty::Rotation {
        Dimensions::Vec4
    } else {
        Dimensions::Vec3
    }
}

/// What is wrong with a channel whose keys are `times`.
pub open spec fn keyed_channel_error(
    channel: SourceChannel,
    times: Seq<Scalar>,
    animation: usize,
    index: usize,
) -> Option<InputError> {
    let cubic = channel.sampler.interpolation == SourceInterpolation::CubicSpline;
    let input = channel.sampler.input_count;
    let expected = input * outputs_per_key(cubic);
    if times.len() == 0 {
        Some(InputError::NoKeys { animation, channel: index })
    } else if has_invalid_time(times) || has_unsorted_time(times) {
        Some(InputError::InvalidKeys { animation, channel: index })
    } else if channel.target.property == SourceProperty::MorphTargetWeights {
        None
    } else if cubic && times.len() < 2 {
        Some(InputError::TooFewCubicKeys { animation, channel: index })
    } else if channel.output_dimensions != property_dimensions(channel.target.property) {
        Some(InputError::OutputDimensions { animation, channel: index })
    } else if expected > usize::MAX {
        Some(InputError::OutputCountOverflow)
    } else if channel.sampler.output_count != expected {
        Some(
            InputError::OutputCount {
                outputs: channel.sampler.output_count,
                keys: input,
                cubic,
            },
        )
    } else {
        match channel.outputs {
            None => Some(InputError::UnreadableOutputs { animation, channel: index }),
            Some(outputs) => outputs_error(
                outputs,
                channel.lengths_squared@,
                times.len(),
                expected as nat,
                cubic,
                animation,
                index,
            ),
        }
    }
}

/// What is wrong with a channel.
pub open spec fn channel_input_error(
    channel: SourceChannel,
    animation: usize,
    index: usize,
) -> Option<InputError> {
    if channel.sampler.input_count == 0 {
        Some(InputError::NoKeys { animation, channel: index })
    } else {
        match channel.times {
            None => Some(InputError::UnreadableKeys { animation, channel: index }),
            Some(times) => keyed_channel_error(channel, times@, animation, index),
        }
    }
}

fn validate_rotations(
    lengths_squared: &Vec<Scalar>,
    keys: usize,
    cubic: bool,
    animation: usize,
    channel: usize,
) -> (result: Result<(), InputError>)
    ensures
        result == outcome(
            first_some(
                keys as nat,
                |key: int|
                    rotation_input_error(lengths_squared@, cubic, key, animation, channel),
            ),
        ),
{
    let ghost check = |key: int|
        rotation_input_error(lengths_squared@, cubic, key, animation, channel);
    let available: usize = lengths_squared.len();
    let mut key: usize = 0;
    while key < keys
        invariant
            key <= keys,
            available == lengths_squared@.len(),
            check == (|key: int|
                rotation_input_error(lengths_squared@, cubic, key, animation, channel)),
            first_some(key as nat, check) is None,
        decreases keys - key,
    {
        let at: Option<usize> = if cubic {
            match key.checked_mul(3) {
                Some(first) => first.checked_add(1),
                None => None,
            }
        } else {
            Some(key)
        };
        let value: Option<usize> = match at {
            Some(at) => if at < available {
                Some(at)
            } else {
                None
            },
            None => None,
        };
        match value {
            None => {
                assert(check(key as int) == Some(
                    InputError::TruncatedRotations { animation, channel },
                ));
                proof {
                    first_some_stays((key + 1) as nat, keys as nat, check);
                }
                return Err(InputError::TruncatedRotations { animation, channel });
            },
            Some(at) => {
                if !is_usable(lengths_squared[at]) {
                    assert(check(key as int) == Some(
                        InputError::UnusableRotation { animation, channel, key },
                    ));
                    proof {
                        first_some_stays((key + 1) as nat, keys as nat, check);
                    }
                    return Err(InputError::UnusableRotation { animation, channel, key });
                }
            },
        }
        assert(check(key as int) is None);
        key += 1;
    }
    Ok(())
}

fn validate_outputs(
    outputs: &SourceOutputs,
    lengths_squared: &Vec<Scalar>,
    keys: usize,
    expected: usize,
    cubic: bool,
    animation: usize,
    channel: usize,
) -> (result: Result<(), InputError>)
    ensures
        result == outcome(
            outputs_error(
                *outputs,
                lengths_squared@,
                keys as nat,
                expected as nat,
                cubic,
                animation,
                channel,
            ),
        ),
{
    let actual: usize = match outputs {
        SourceOutputs::Translations(values) => values.len(),
        SourceOutputs::Scales(values) => values.len(),
        SourceOutputs::Rotations(values) => {
            if let Err(error) = validate_rotations(
                lengths_squared,
                keys,
                cubic,
                animation,
                channel,
            ) {
                return Err(error);
            }
            values.len()
        },
        SourceOutputs::MorphTargetWeights => {
            return Ok(());
        },
    };
    if actual != expected {
        Err(InputError::OutputCount { outputs: actual, keys, cubic })
    } else {
        Ok(())
    }
}

fn validate_channel(channel: &SourceChannel, animation: usize, index: usize) -> (result: Result<
    (),
    InputError,
>)
    ensures
        result == outcome(channel_input_error(*channel, animation, index)),
{
    let input: usize = channel.sampler.input_count;
    if input == 0 {
        return Err(InputError::NoKeys { animation, channel: index });
    }
    let times = match &channel.times {
        Some(times) => times,
        None => {
            return Err(InputError::UnreadableKeys { animation, channel: index });
        },
    };
    if times.len() == 0 {
        return Err(InputError::NoKeys { animation, channel: index });
    }
    if any_invalid_time(times) || any_unsorted_time(times) {
        return Err(InputError::InvalidKeys { animation, channel: index });
    }
    if channel.target.property == SourceProperty::MorphTargetWeights {
        return Ok(());
    }
    let cubic = channel.sampler.interpolation == SourceInterpolation::CubicSpline;
    if cubic && times.len() < 2 {
        return Err(InputError::TooFewCubicKeys { animation, channel: index });
    }
    let shape = if channel.target.property == SourceProperty::Rotation {
        Dimensions::Vec4
    } else {
        Dimensions::Vec3
    };
    if channel.output_dimensions != shape {
        return Err(InputError::OutputDimensions { animation, channel: index });
    }
    let per_key: usize = if cubic {
        3
    } else {
        1
    };
    let expected: usize = match input.checked_mul(per_key) {
        Some(expected) => expected,
        None => {
            return Err(InputError::OutputCountOverflow);
        },
    };
    if channel.sampler.output_count != expected {
        return Err(
            InputError::OutputCount { outputs: channel.sampler.output_count, keys: input, cubic },
        );
    }
    match &channel.outputs {
        None => Err(InputError::UnreadableOutputs { animation, channel: index }),
        Some(outputs) => validate_outputs(
            outputs,
            &channel.lengths_squared,
            times.len(),
            expected,
            cubic,
            animation,
            index,
        ),
    }
}

/// What is wrong with the channels of an animation.
pub open spec fn animation_error(animations: Seq<SourceAnimation>, animation: int) -> Option<
    InputError,
> {
    first_some(
        animations[animation].channels@.len(),
        |k: int|
            channel_input_error(
                animations[animation].channels@[k],
                animation as usize,
                k as usize,
            ),
    )
}

fn validate_animation(animations: &Vec<SourceAnimation>, animation: usize) -> (result: Result<
    (),
    InputError,
>)
    requires
        animation < animations@.len(),
    ensures
        result == outcome(animation_error(animations@, animation as int)),
{
    let ghost channels = animations@[animation as int].channels@;
    let ghost check = |k: int|
        channel_input_error(
            animations@[animation as int].channels@[k],
            animation as int as usize,
            k as usize,
        );
    let mut k: usize = 0;
    while k < animations[animation].channels.len()
        invariant
            animation < animations@.len(),
            channels == animations@[animation as int].channels@,
            k <= channels.len(),
            check == (|k: int|
                channel_input_error(
                    animations@[animation as int].channels@[k],
                    animation as int as usize,
                    k as usize,
                )),
            animation_error(animations@, animation as int) == first_some(channels.len(), check),
            first_some(k as nat, check) is None,
        decreases channels.len() - k,
    {
        let result = validate_channel(&animations[animation].channels[k], animation, k);
        assert(result == outcome(check(k as int)));
        if let Err(error) = result {
            proof {
                first_some_stays((k + 1) as nat, channels.len(), check);
            }
            return Err(error);
        }
        k += 1;
    }
    Ok(())
}

/// What is wrong with a model: its joint palette, then its skins, then the
/// primitives of its nodes, then its animations.
pub open spec fn model_input_error(model: SourceModel) -> Option<InputError> {
    or_else(
        palette_error(clamped(joint_total(model.skins@, model.skins@.len()))),
        or_else(
            first_some(
                model.skins@.len(),
                |i: int| skin_error(model.skins@[i], model.nodes@.len()),
            ),
            or_else(
                first_some(model.nodes@.len(), |i: int| node_error(model, i)),
                first_some(
                    model.animations@.len(),
                    |i: int| animation_error(model.animations@, i),
                ),
            ),
        ),
    )
}

/// Checks the counts, indices and key frames of a model before anything is
/// built from it.
pub fn validate_model_input(model: &SourceModel) -> (result: Result<(), InputError>)
    requires
        model.in_range(),
        model.known_targets(),
    ensures
        result == outcome(model_input_error(*model)),
{
    let joints: usize = count_joints(&model.skins);
    if let Err(error) = validate_joint_palette_count(joints) {
        return Err(error);
    }
    let nodes: usize = model.nodes.len();
    let ghost skin_check = |i: int| skin_error(model.skins@[i], model.nodes@.len());
    let ghost node_check = |i: int| node_error(*model, i);
    let ghost animation_check = |i: int| animation_error(model.animations@, i);
    let ghost skin_errors = first_some(model.skins@.len(), skin_check);
    let ghost node_errors = first_some(model.nodes@.len(), node_check);
    let ghost animation_errors = first_some(model.animations@.len(), animation_check);
    assert(model_input_error(*model) == or_else(
        skin_errors,
        or_else(node_errors, animation_errors),
    ));
    let mut i: usize = 0;
    while i < model.skins.len()
        invariant
            i <= model.skins@.len(),
            nodes == model.nodes@.len(),
            skin_check == (|i: int| skin_error(model.skins@[i], model.nodes@.len())),
            skin_errors == first_some(model.skins@.len(), skin_check),
            model_input_error(*model) == or_else(
                skin_errors,
                or_else(node_errors, animation_errors),
            ),
            first_some(i as nat, skin_check) is None,
        decreases model.skins@.len() - i,
    {
        let result = validate_skin(&model.skins[i], nodes);
        assert(result == outcome(skin_check(i as int)));
        if let Err(error) = result {
            proof {
                first_some_stays((i + 1) as nat, model.skins@.len(), skin_check);
            }
            return Err(error);
        }
        i += 1;
    }
    let mut i: usize = 0;
    while i < nodes
        invariant
            i <= nodes == model.nodes@.len(),
            model.in_range(),
            node_check == (|i: int| node_error(*model, i)),
            node_errors == first_some(model.nodes@.len(), node_check),
            model_input_error(*model) == or_else(node_errors, animation_errors),
            first_some(i as nat, node_check) is None,
        decreases nodes - i,
    {
        let result = validate_node(model, i);
        assert(result == outcome(node_check(i as int)));
        if let Err(error) = result {
            proof {
                first_some_stays((i + 1) as nat, model.nodes@.len(), node_check);
            }
            return Err(error);
        }
        i += 1;
    }
    let mut i: usize = 0;
    while i < model.animations.len()
        invariant
            i <= model.animations@.len(),
            animation_check == (|i: int| animation_error(model.animations@, i)),
            animation_errors == first_some(model.animations@.len(), animation_check),
            model_input_error(*model) == animation_errors,
            first_some(i as nat, animation_check) is None,
        decreases model.animations@.len() - i,
    {
        let result = validate_animation(&model.animations, i);
        assert(result == outcome(animation_check(i as int)));
        if let Err(error) = result {
            proof {
                first_some_stays((i + 1) as nat, model.animations@.len(), animation_check);
            }
            return Err(error);
        }
        i += 1;
    }
    Ok(())
}

proof fn joints_are_checked(joints: Seq<[u16; 4]>, count: nat)
    ensures
        joint_error(joints, count) is None <==> forall|vertex: int, slot: int|
            0 <= vertex < joints.len() && 0 <= slot < 4 ==> #[trigger] joints[vertex]@[slot]
                < count,
{
    let check = |vertex: int| vertex_joint_error(joints, count, vertex);
    first_some_none(joints.len(), check);
    if joint_error(joints, count) is None {
        assert forall|vertex: int, slot: int|
            0 <= vertex < joints.len() && 0 <= slot < 4 implies #[trigger] joints[vertex]@[slot]
            < count by {
            assert(check(vertex) is None);
            assert(slot == 0 || slot == 1 || slot == 2 || slot == 3);
        }
    }
    if forall|vertex: int, slot: int|
        0 <= vertex < joints.len() && 0 <= slot < 4 ==> #[trigger] joints[vertex]@[slot] < count {
        assert forall|vertex: int| 0 <= vertex < joints.len() implies #[trigger] check(
            vertex,
        ) is None by {
            assert(joints[vertex]@[0] < count && joints[vertex]@[1] < count && joints[vertex]@[2]
                < count && joints[vertex]@[3] < count);
        }
    }
}

proof fn indices_are_checked(indices: Seq<u32>, positions: nat)
    ensures
        index_error(indices, positions) is None <==> forall|i: int|
            0 <= i < indices.len() ==> #[trigger] indices[i] < positions,
{
    let check = |i: int|
        if indices[i] >= positions {
            Some(InputError::VertexIndex { index: indices[i], positions: positions as usize })
        } else {
            None
        };
    first_some_none(indices.len(), check);
    if index_error(indices, positions) is None {
        assert forall|i: int| 0 <= i < indices.len() implies #[trigger] indices[i] < positions by {
            assert(check(i) is None);
        }
    }
}

/// Whether a target displaces each of `positions` vertices.
pub open spec fn displaces_all(target: SourceTarget, positions: nat) -> bool {
    &&& target.positions matches Some(values) ==> values@.len() == positions
    &&& target.normals matches Some(values) ==> values@.len() == positions
}

proof fn targets_are_checked(targets: Seq<SourceTarget>, positions: nat)
    ensures
        targets_error(targets, None, positions) is None <==> forall|t: int|
            0 <= t < targets.len() ==> displaces_all(#[trigger] targets[t], positions),
{
    let check = |t: int| target_error(targets, None, positions, t);
    first_some_none(targets.len(), check);
    if targets_error(targets, None, positions) is None {
        assert forall|t: int| 0 <= t < targets.len() implies displaces_all(
            #[trigger] targets[t],
            positions,
        ) by {
            assert(check(t) is None);
        }
    }
}

/// A primitive that can be read is accepted exactly where each attribute has a
/// value for each vertex, each joint is one of its skin, each index is a vertex,
/// and each target displaces each vertex; without positions there is nothing to
/// check.
pub proof fn accepted_primitives_are_complete(primitive: SourcePrimitive, skin: Option<nat>)
    requires
        primitive.unreadable is None,
    ensures
        primitive.positions is None ==> primitive_error(primitive, skin) is None,
        primitive.positions matches Some(positions) ==> (primitive_error(primitive, skin) is None
            <==> {
            let count = positions@.len();
            &&& primitive.normals matches Some(values) ==> values@.len() == count
            &&& primitive.tex_coords0 matches Some(values) ==> values@.len() == count
            &&& primitive.tex_coords1 matches Some(values) ==> values@.len() == count
            &&& primitive.joints matches Some(values) ==> values@.len() == count
            &&& primitive.weights matches Some(values) ==> values@.len() == count
            &&& primitive.joints matches Some(joints) ==> (skin matches Some(size)
                ==> forall|vertex: int, slot: int|
                0 <= vertex < joints@.len() && 0 <= slot < 4 ==> #[trigger] joints@[vertex]@[slot]
                    < size)
            &&& primitive.indices matches Some(indices) ==> forall|i: int|
                0 <= i < indices@.len() ==> #[trigger] indices@[i] < count
            &&& forall|t: int|
                0 <= t < primitive.targets@.len() ==> displaces_all(
                    #[trigger] primitive.targets@[t],
                    count,
                )
        }),
{
    if let Some(positions) = primitive.positions {
        let count = positions@.len();
        targets_are_checked(primitive.targets@, count);
        if let Some(indices) = primitive.indices {
            indices_are_checked(indices@, count);
        }
        if let Some(joints) = primitive.joints {
            if let Some(size) = skin {
                joints_are_checked(joints@, size);
            }
        }
    }
}

/// A primitive whose positions, or with positions another attribute, cannot be
/// read is refused.
pub proof fn unreadable_primitives_are_refused(
    primitive: SourcePrimitive,
    skin: Option<nat>,
    attribute: Attribute,
)
    requires
        primitive.unreadable == Some(attribute),
    ensures
        attribute is Position ==> primitive_error(primitive, skin) == Some(
            InputError::UnreadableAttribute { attribute },
        ),
        primitive.positions is Some && (attribute is Normal || attribute is TexCoord0
            || attribute is TexCoord1 || attribute is Joints0 || attribute is Weights0
            || attribute is Indices) ==> primitive_error(primitive, skin) is Some,
{
}

/// A skin is accepted exactly where its matrices can be read, there is one for
/// each joint if there are any, and each joint is a node.
pub proof fn accepted_skins_are_complete(skin: SourceSkin, nodes: nat)
    ensures
        skin_error(skin, nodes) is None <==> {
            &&& !skin.unreadable
            &&& skin.inverse_bind matches Some(matrices) ==> matrices@.len() == skin.joints@.len()
            &&& forall|joint: int|
                0 <= joint < skin.joints@.len() ==> #[trigger] skin.joints@[joint] < nodes
        },
{
    let check = |joint: int|
        if skin.joints@[joint] >= nodes {
            Some(
                InputError::SkinJoint {
                    joint: joint as usize,
                    node: skin.joints@[joint],
                    nodes: nodes as usize,
                },
            )
        } else {
            None
        };
    first_some_none(skin.joints@.len(), check);
    if skin_error(skin, nodes) is None {
        assert forall|joint: int| 0 <= joint < skin.joints@.len() implies #[trigger] skin.joints@[
            joint] < nodes by {
            assert(check(joint) is None);
        }
    }
}

/// A channel that is accepted has keys that rise, and, unless it weighs morph
/// targets, values of the shape of its property, one for each key or three with
/// cubic interpolation, which needs two keys.
pub proof fn accepted_channels_are_complete(
    channel: SourceChannel,
    animation: usize,
    index: usize,
)
    requires
        channel_input_error(channel, animation, index) is None,
    ensures
        channel.times matches Some(times) && times@.len() > 0 && !has_invalid_time(times@)
            && !has_unsorted_time(times@),
        !(channel.target.property is MorphTargetWeights) ==> {
            let cubic = channel.sampler.interpolation is CubicSpline;
            let input = channel.sampler.input_count as int;
            let expected = if cubic {
                3 * input
            } else {
                input
            };
            &&& cubic ==> channel.times->Some_0@.len() >= 2
            &&& channel.target.property is Rotation ==> channel.output_dimensions is Vec4
            &&& !(channel.target.property is Rotation) ==> channel.output_dimensions is Vec3
            &&& channel.sampler.output_count == expected
            &&& channel.outputs is Some
            &&& channel.outputs matches Some(SourceOutputs::Translations(values)) ==> values@.len()
                == expected
            &&& channel.outputs matches Some(SourceOutputs::Rotations(values)) ==> values@.len()
                == expected
            &&& channel.outputs matches Some(SourceOutputs::Scales(values)) ==> values@.len()
                == expected
        },
{
}

/// With cubic interpolation the value of a key stands between its two tangents.
pub proof fn cubic_values_stand_between_tangents(key: int)
    ensures
        value_index(key, false) == key,
        value_index(key, true) == 3 * key + 1,
        value_index(key + 1, true) == value_index(key, true) + 3,
{
}

/// The rotations of an accepted channel can be normalised at every key.
pub proof fn accepted_rotations_can_be_normalised(
    channel: SourceChannel,
    animation: usize,
    index: usize,
    key: int,
)
    requires
        channel_input_error(channel, animation, index) is None,
        !(channel.target.property is MorphTargetWeights),
        channel.outputs matches Some(SourceOutputs::Rotations(_)),
        channel.times matches Some(times) && 0 <= key < times@.len(),
    ensures
        ({
            let at = if channel.sampler.interpolation is CubicSpline {
                3 * key + 1
            } else {
                key
            };
            at < channel.lengths_squared@.len() && usable_length_squared(
                channel.lengths_squared@[at],
            )
        }),
{
    let cubic = channel.sampler.interpolation == SourceInterpolation::CubicSpline;
    let check = |key: int|
        rotation_input_error(channel.lengths_squared@, cubic, key, animation, index);
    first_some_none(channel.times->Some_0@.len(), check);
    assert(check(key) is None);
}

/// A model is accepted exactly where its joints fit the renderer and each skin,
/// each primitive of each placed mesh and each channel is accepted.
pub proof fn accepted_models_are_accepted_throughout(model: SourceModel)
    requires
        model.animations@.len() <= usize::MAX,
    ensures
        model_input_error(model) is None <==> {
            &&& joint_total(model.skins@, model.skins@.len()) <= 512
            &&& forall|s: int|
                0 <= s < model.skins@.len() ==> skin_error(
                    #[trigger] model.skins@[s],
                    model.nodes@.len(),
                ) is None
            &&& forall|n: int|
                0 <= n < model.nodes@.len() ==> #[trigger] node_error(model, n) is None
            &&& forall|a: int|
                0 <= a < model.animations@.len() ==> #[trigger] animation_error(
                    model.animations@,
                    a,
                ) is None
        },
{
    let skin = |i: int| skin_error(model.skins@[i], model.nodes@.len());
    let node = |i: int| node_error(model, i);
    let animation = |i: int| animation_error(model.animations@, i);
    first_some_none(model.skins@.len(), skin);
    first_some_none(model.nodes@.len(), node);
    first_some_none(model.animations@.len(), animation);
    if model_input_error(model) is None {
        assert forall|s: int| 0 <= s < model.skins@.len() implies skin_error(
            #[trigger] model.skins@[s],
            model.nodes@.len(),
        ) is None by {
            assert(skin(s) is None);
        }
        assert forall|n: int| 0 <= n < model.nodes@.len() implies #[trigger] node_error(
            model,
            n,
        ) is None by {
            assert(node(n) is None);
        }
        assert forall|a: int| 0 <= a < model.animations@.len() implies #[trigger] animation_error(
            model.animations@,
            a,
        ) is None by {
            assert(animation(a) is None);
        }
    }
}

/// Every primitive of a mesh is checked against the skin of the node that places
/// it, and every channel of an animation is checked.
pub proof fn accepted_parts_are_checked_each(model: SourceModel, n: int, a: int, k: int)
    requires
        0 <= n < model.nodes@.len(),
        0 <= a < model.animations@.len(),
        0 <= k,
    ensures
        node_error(model, n) is None ==> (model.nodes@[n].mesh matches Some(mesh) ==> (k
            < model.meshes@[mesh as int]@.len() ==> primitive_error(
            model.meshes@[mesh as int]@[k],
            match model.nodes@[n].skin {
                Some(skin) => Some(model.skins@[skin as int].joints@.len()),
                None => None,
            },
        ) is None)),
        animation_error(model.animations@, a) is None && k < model.animations@[a].channels@.len()
            ==> channel_input_error(
            model.animations@[a].channels@[k],
            a as usize,
            k as usize,
        ) is None,
{
    if let Some(mesh) = model.nodes@[n].mesh {
        let check = |k: int|
            primitive_error(model.meshes@[mesh as int]@[k], node_joint_count(model, n));
        first_some_none(model.meshes@[mesh as int]@.len(), check);
        if node_error(model, n) is None && k < model.meshes@[mesh as int]@.len() {
            assert(check(k) is None);
        }
    }
    let check = |k: int|
        channel_input_error(model.animations@[a].channels@[k], a as usize, k as usize);
    first_some_none(model.animations@[a].channels@.len(), check);
    if animation_error(model.animations@, a) is None && k < model.animations@[a].channels@.len() {
        assert(check(k) is None);
    }
}

proof fn joint_totals_grow(skins: Seq<SourceSkin>, s: int, count: nat)
    requires
        0 <= s < count <= skins.len(),
    ensures
        skins[s].joints@.len() <= joint_total(skins, count),
    decreases count,
{
    if s < count - 1 {
        joint_totals_grow(skins, s, (count - 1) as nat);
    }
}

/// The joints of a model are those of all its skins together: of two skins, none
/// is left out.
pub proof fn joints_of_all_skins_count(skins: Seq<SourceSkin>, skin: SourceSkin, s: int)
    requires
        0 <= s < skins.len(),
    ensures
        joint_total(skins.push(skin), skins.len() + 1) == joint_total(skins, skins.len())
            + skin.joints@.len(),
        skins[s].joints@.len() <= joint_total(skins, skins.len()),
        joint_total(skins, 0) == 0,
{
    joint_totals_grow(skins, s, skins.len());
    same_joint_total(skins, skins.push(skin), skins.len());
}

proof fn same_joint_total(skins: Seq<SourceSkin>, longer: Seq<SourceSkin>, count: nat)
    requires
        count <= skins.len() <= longer.len(),
        forall|i: int| 0 <= i < skins.len() ==> skins[i] == longer[i],
    ensures
        joint_total(skins, count) == joint_total(longer, count),
    decreases count,
{
    if count > 0 {
        same_joint_total(skins, longer, (count - 1) as nat);
    }
}

/// The key times of an accepted channel are finite, none is negative, and they
/// rise.
pub proof fn accepted_times_rise(
    channel: SourceChannel,
    animation: usize,
    index: usize,
    i: int,
    j: int,
)
    requires
        channel_input_error(channel, animation, index) is None,
        channel.times matches Some(times) && 0 <= i < j < times@.len(),
    ensures
        is_finite(channel.times->Some_0@[i]),
        !less(channel.times->Some_0@[i], Scalar { bits: 0 }),
        less(channel.times->Some_0@[i], channel.times->Some_0@[j]),
{
    let times = channel.times->Some_0@;
    validated_times_rise(times, i, j);
    assert(!invalid_time(times[i]));
}

/// A channel is not refused without a reason: one with rising keys and, unless
/// it weighs morph targets, values of the right shape and count, the rotations
/// among which can be normalised, is accepted.
pub proof fn complete_channels_are_accepted(
    channel: SourceChannel,
    animation: usize,
    index: usize,
)
    requires
        channel.sampler.input_count > 0,
        channel.times matches Some(times) && times@.len() > 0,
        forall|i: int|
            0 <= i < channel.times->Some_0@.len() ==> is_finite(
                #[trigger] channel.times->Some_0@[i],
            ) && !less(channel.times->Some_0@[i], Scalar { bits: 0 }),
        forall|i: int, j: int|
            0 <= i < j < channel.times->Some_0@.len() ==> less(
                #[trigger] channel.times->Some_0@[i],
                #[trigger] channel.times->Some_0@[j],
            ),
        !(channel.target.property is MorphTargetWeights) ==> {
            let cubic = channel.sampler.interpolation is CubicSpline;
            let expected = if cubic {
                3 * channel.sampler.input_count
            } else {
                channel.sampler.input_count as int
            };
            &&& cubic ==> channel.times->Some_0@.len() >= 2
            &&& channel.target.property is Rotation ==> channel.output_dimensions is Vec4
            &&& !(channel.target.property is Rotation) ==> channel.output_dimensions is Vec3
            &&& channel.sampler.output_count == expected
            &&& channel.outputs matches Some(outputs) && (output_len(outputs) matches Some(length)
                ==> length == expected)
            &&& channel.outputs matches Some(SourceOutputs::Rotations(_)) ==> forall|key: int|
                0 <= key < channel.times->Some_0@.len() ==> {
                    let at = if cubic {
                        3 * key + 1
                    } else {
                        key
                    };
                    at < channel.lengths_squared@.len() && #[trigger] usable_length_squared(
                        channel.lengths_squared@[value_index(key, cubic)],
                    )
                }
        },
    ensures
        channel_input_error(channel, animation, index) is None,
{
    let times = channel.times->Some_0@;
    if has_invalid_time(times) {
        let i = choose|i: int| 0 <= i < times.len() && invalid_time(#[trigger] times[i]);
        assert(is_finite(channel.times->Some_0@[i]));
    }
    if has_unsorted_time(times) {
        let i = choose|i: int| 0 <= i < times.len() - 1 && #[trigger] unsorted_at(times, i);
        assert(less(channel.times->Some_0@[i], channel.times->Some_0@[i + 1]));
    }
    assert(!has_invalid_time(times) && !has_unsorted_time(times));
    if !(channel.target.property is MorphTargetWeights) {
        let cubic = channel.sampler.interpolation == SourceInterpolation::CubicSpline;
        if channel.outputs->Some_0 is Rotations {
            let check = |key: int|
                rotation_input_error(channel.lengths_squared@, cubic, key, animation, index);
            assert forall|key: int| 0 <= key < times.len() implies #[trigger] check(
                key,
            ) is None by {
                assert(usable_length_squared(channel.lengths_squared@[value_index(key, cubic)]));
            }
            first_some_none(times.len(), check);
        }
        let expected = channel.sampler.input_count * outputs_per_key(cubic);
        assert(channel.sampler.output_count == expected);
        assert(outputs_error(
            channel.outputs->Some_0,
            channel.lengths_squared@,
            times.len(),
            expected as nat,
            cubic,
            animation,
            index,
        ) is None);
    }
}

} // verus!
