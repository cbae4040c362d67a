//! Reading the numbers of a model file.
//!
//! A document describes in accessors how vertices, indices, bind matrices and
//! key frames stand in its buffers. The readers of the glTF crate assert that
//! the description of an accessor fits what it is read as. One that does not
//! is not handed to them: its items are found here, and only visited by the
//! glTF crate. Items that reach into each other, or numbers of a type that is
//! not taken, cannot be read at all.

use gltf::accessor::util::ItemIter;
use gltf::accessor::Iter::Standard;
use gltf::animation::util;
use gltf::animation::util::ReadOutputs::{MorphTargetWeights, Rotations, Scales, Translations};
use gltf::mesh::util::{
    ReadIndices, ReadJoints, ReadPositionDisplacements, ReadPositions, ReadTexCoords, ReadWeights,
};
use gltf::skin::util::ReadInverseBindMatrices;
use vstd::prelude::*;

use crate::import::copy_range;
use crate::model::copy_indices;
use crate::scalar::{is_nan, Scalar};
use crate::search::{first_some, first_some_stays};
use crate::source::{
    copy_text, document_animation_names, document_meshes, document_outputs, document_samplers,
    document_skins, document_targets, has_known_targets, has_scene_of, is_bare_channel,
    is_bare_primitive, is_known_target, is_structure_of, names_one, rows, text_of, valid_document,
    SourceAnimation, SourceChannel, SourceModel, SourceOutputs, SourcePrimitive, SourceProperty,
    SourceSkin, SourceTarget,
};
use crate::validation::Attribute;

verus! {

/// The type of the numbers of an accessor.
#[derive(Clone, Copy, Debug, PartialEq, Eq, Structural)]
pub enum ComponentType {
    I8,
    U8,
    I16,
    U16,
    U32,
    F32,
}

/// The component type of a code.
pub open spec fn component_of(code: u32) -> ComponentType {
    if code == 5120 {
        ComponentType::I8
    } else if code == 5121 {
        ComponentType::U8
    } else if code == 5122 {
        ComponentType::I16
    } else if code == 5123 {
        ComponentType::U16
    } else if code == 5125 {
        ComponentType::U32
    } else {
        ComponentType::F32
    }
}

fn component_type(code: u32) -> (component: ComponentType)
    ensures
        component == component_of(code),
{
    if code == 5120 {
        ComponentType::I8
    } else if code == 5121 {
        ComponentType::U8
    } else if code == 5122 {
        ComponentType::I16
    } else if code == 5123 {
        ComponentType::U16
    } else if code == 5125 {
        ComponentType::U32
    } else {
        ComponentType::F32
    }
}

/// A part of a buffer, with the distance between its items.
#[derive(Clone, Copy, Debug, PartialEq, Eq, Structural)]
pub struct ViewShape {
    pub buffer: usize,
    pub offset: usize,
    pub length: usize,
    pub stride: Option<usize>,
}

/// How the items of an accessor stand in a buffer.
#[derive(Clone, Copy, Debug, PartialEq, Eq, Structural)]
pub struct AccessorShape {
    /// The code of the component type.
    pub component: u32,
    /// The bytes of one item.
    pub size: usize,
    pub count: usize,
    pub offset: usize,
    /// `None` where every item starts as zero.
    pub view: Option<ViewShape>,
}

/// The items of an accessor that are replaced, and what by.
#[derive(Clone, Copy, Debug, PartialEq, Eq, Structural)]
pub struct SparseShape {
    pub count: usize,
    /// The bytes of one index.
    pub index_size: usize,
    pub indices: ViewShape,
    pub indices_offset: usize,
    pub values: ViewShape,
    pub values_offset: usize,
}

/// The accessors of a primitive.
#[derive(Clone, Copy, Debug, PartialEq, Eq, Structural)]
pub struct AttributeAccessors {
    pub positions: Option<usize>,
    pub normals: Option<usize>,
    pub tex_coords0: Option<usize>,
    pub tex_coords1: Option<usize>,
    pub joints: Option<usize>,
    pub weights: Option<usize>,
    pub indices: Option<usize>,
}

/// The accessors of a morph target.
#[derive(Clone, Copy, Debug, PartialEq, Eq, Structural)]
pub struct MorphAccessors {
    pub positions: Option<usize>,
    pub normals: Option<usize>,
}

/// The accessors of an animation channel.
#[derive(Clone, Copy, Debug, PartialEq, Eq, Structural)]
pub struct KeyAccessors {
    pub input: usize,
    pub output: usize,
}

/// What `gltf::Document::accessors` lists.
pub uninterp spec fn document_accessors(document: gltf::Document) -> Seq<AccessorShape>;

/// The sparse parts of what `gltf::Document::accessors` lists.
pub uninterp spec fn document_sparse(document: gltf::Document) -> Seq<Option<SparseShape>>;

/// The accessors of the primitives of what `gltf::Document::meshes` lists.
pub uninterp spec fn document_attributes(document: gltf::Document) -> Seq<Seq<AttributeAccessors>>;

/// The accessors of the morph targets of what `gltf::Document::meshes` lists.
pub uninterp spec fn document_morphs(document: gltf::Document) -> Seq<Seq<Seq<MorphAccessors>>>;

/// The inverse bind matrices of what `gltf::Document::skins` lists.
pub uninterp spec fn document_binds(document: gltf::Document) -> Seq<Option<usize>>;

/// The accessors of the channels of what `gltf::Document::animations` lists.
pub uninterp spec fn document_keys(document: gltf::Document) -> Seq<Seq<KeyAccessors>>;

/// `gltf::Document::accessors`: per accessor its component code, the size of an
/// item, the count, the offset and the buffer view.
#[verifier::external_body]
fn list_accessors(document: &gltf::Document) -> (accessors: Vec<AccessorShape>)
    requires
        valid_document(*document),
    ensures
        accessors@ == document_accessors(*document),
{
    let view = |view: gltf::buffer::View| ViewShape {
        buffer: view.buffer().index(),
        offset: view.offset(),
        length: view.length(),
        stride: view.stride(),
    };
    let listed = document.accessors().map(|accessor| AccessorShape {
        component: accessor.data_type().as_gl_enum(),
        size: accessor.size(),
        count: accessor.count(),
        offset: accessor.offset(),
        view: accessor.view().map(view),
    });
    listed.collect()
}

/// `gltf::Accessor::sparse` of every accessor: where its indices and values
/// stand. In a validated document an index has one, two or four bytes.
#[verifier::external_body]
fn list_sparse(document: &gltf::Document) -> (sparse: Vec<Option<SparseShape>>)
    requires
        valid_document(*document),
    ensures
        sparse@ == document_sparse(*document),
        sparse@.len() == document_accessors(*document).len(),
{
    let view = |view: gltf::buffer::View| ViewShape {
        buffer: view.buffer().index(),
        offset: view.offset(),
        length: view.length(),
        stride: view.stride(),
    };
    let shape = |sparse: gltf::accessor::sparse::Sparse| SparseShape {
        count: sparse.count(),
        index_size: sparse.indices().index_type().size(),
        indices: view(sparse.indices().view()),
        indices_offset: sparse.indices().offset(),
        values: view(sparse.values().view()),
        values_offset: sparse.values().offset(),
    };
    document.accessors().map(|accessor| accessor.sparse().map(shape)).collect()
}

/// Whether the accessors of a primitive are among `count`.
pub open spec fn are_listed(attributes: AttributeAccessors, count: nat) -> bool {
    &&& names_one(attributes.positions, count)
    &&& names_one(attributes.normals, count)
    &&& names_one(attributes.tex_coords0, count)
    &&& names_one(attributes.tex_coords1, count)
    &&& names_one(attributes.joints, count)
    &&& names_one(attributes.weights, count)
    &&& names_one(attributes.indices, count)
}

/// `gltf::Primitive::get` and `gltf::Primitive::indices` of every primitive. In
/// a validated document the accessors are listed.
#[verifier::external_body]
fn list_attributes(document: &gltf::Document) -> (attributes: Vec<Vec<AttributeAccessors>>)
    requires
        valid_document(*document),
    ensures
        rows(attributes@) == document_attributes(*document),
        attributes@.len() == document_meshes(*document).len(),
        forall|i: int|
            0 <= i < attributes@.len() ==> (#[trigger] attributes@[i])@.len() == document_meshes(
                *document,
            )[i].len(),
        forall|i: int, k: int|
            0 <= i < attributes@.len() && 0 <= k < attributes@[i]@.len() ==> are_listed(
                #[trigger] attributes@[i]@[k],
                document_accessors(*document).len(),
            ),
{
    let listed = |primitive: gltf::Primitive| {
        let get = |semantic| primitive.get(&semantic).map(|accessor| accessor.index());
        AttributeAccessors {
            positions: get(gltf::Semantic::Positions),
            normals: get(gltf::Semantic::Normals),
            tex_coords0: get(gltf::Semantic::TexCoords(0)),
            tex_coords1: get(gltf::Semantic::TexCoords(1)),
            joints: get(gltf::Semantic::Joints(0)),
            weights: get(gltf::Semantic::Weights(0)),
            indices: primitive.indices().map(|accessor| accessor.index()),
        }
    };
    document.meshes().map(|mesh| mesh.primitives().map(listed).collect()).collect()
}

/// The rows of the rows of a table.
pub open spec fn nested_rows<T>(table: Seq<Vec<Vec<T>>>) -> Seq<Seq<Seq<T>>> {
    table.map_values(|row: Vec<Vec<T>>| rows(row@))
}

/// Whether the accessors of a morph target are among `count`.
pub open spec fn is_listed_morph(morph: MorphAccessors, count: nat) -> bool {
    &&& names_one(morph.positions, count)
    &&& names_one(morph.normals, count)
}

/// `gltf::Primitive::morph_targets` of every primitive. In a validated document
/// the accessors are listed.
#[verifier::external_body]
fn list_morphs(document: &gltf::Document) -> (morphs: Vec<Vec<Vec<MorphAccessors>>>)
    requires
        valid_document(*document),
    ensures
        nested_rows(morphs@) == document_morphs(*document),
        morphs@.len() == document_meshes(*document).len(),
        forall|i: int|
            0 <= i < morphs@.len() ==> (#[trigger] morphs@[i])@.len() == document_meshes(
                *document,
            )[i].len(),
        forall|i: int, k: int, t: int|
            0 <= i < morphs@.len() && 0 <= k < morphs@[i]@.len() && 0 <= t < morphs@[i]@[k]@.len()
                ==> is_listed_morph(
                #[trigger] morphs@[i]@[k]@[t],
                document_accessors(*document).len(),
            ),
{
    let index = |accessor: gltf::Accessor| accessor.index();
    let morph = |target: gltf::mesh::MorphTarget| MorphAccessors {
        positions: target.positions().map(index),
        normals: target.normals().map(index),
    };
    let morphs = |primitive: gltf::Primitive| primitive.morph_targets().map(morph).collect();
    document.meshes().map(|mesh| mesh.primitives().map(morphs).collect()).collect()
}

/// `gltf::Skin::inverse_bind_matrices` of every skin. In a validated document
/// the accessors are listed.
#[verifier::external_body]
fn list_binds(document: &gltf::Document) -> (binds: Vec<Option<usize>>)
    requires
        valid_document(*document),
    ensures
        binds@ == document_binds(*document),
        binds@.len() == document_skins(*document).len(),
        forall|i: int|
            0 <= i < binds@.len() ==> names_one(
                #[trigger] binds@[i],
                document_accessors(*document).len(),
            ),
{
    let bind = |skin: gltf::Skin| skin.inverse_bind_matrices().map(|accessor| accessor.index());
    document.skins().map(bind).collect()
}

/// `gltf::animation::Sampler::input` and `output` of every channel. In a
/// validated document the accessors are listed.
#[verifier::external_body]
fn list_keys(document: &gltf::Document) -> (keys: Vec<Vec<KeyAccessors>>)
    requires
        valid_document(*document),
    ensures
        rows(keys@) == document_keys(*document),
        keys@.len() == document_targets(*document).len(),
        forall|i: int|
            0 <= i < keys@.len() ==> (#[trigger] keys@[i])@.len() == document_targets(
                *document,
            )[i].len(),
        forall|i: int, k: int|
            0 <= i < keys@.len() && 0 <= k < keys@[i]@.len() ==> {
                &&& (#[trigger] keys@[i]@[k]).input < document_accessors(*document).len()
                &&& keys@[i]@[k].output < document_accessors(*document).len()
            },
{
    let key = |channel: gltf::animation::Channel| KeyAccessors {
        input: channel.sampler().input().index(),
        output: channel.sampler().output().index(),
    };
    document.animations().map(|animation| animation.channels().map(key).collect()).collect()
}

/// What an accessor is read as.
#[derive(Clone, Copy, Debug, PartialEq, Eq, Structural)]
pub enum AccessorRole {
    /// Three floats.
    Vector,
    /// One float.
    Time,
    /// Four columns of four floats.
    Matrix,
    TexCoords,
    Joints,
    Weights,
    Indices,
    Output(SourceProperty),
}

/// The bytes of one item in a role; `None` where the role does not take numbers
/// of that type.
pub open spec fn item_of(role: AccessorRole, component: ComponentType) -> Option<nat> {
    match role {
        AccessorRole::Vector => Some(12),
        AccessorRole::Time => Some(4),
        AccessorRole::Matrix => Some(64),
        AccessorRole::TexCoords => match component {
            ComponentType::U8 => Some(2),
            ComponentType::U16 => Some(4),
            ComponentType::F32 => Some(8),
            _ => None,
        },
        AccessorRole::Joints => match component {
            ComponentType::U8 => Some(4),
            ComponentType::U16 => Some(8),
            _ => None,
        },
        AccessorRole::Weights => match component {
            ComponentType::U8 => Some(4),
            ComponentType::U16 => Some(8),
            ComponentType::F32 => Some(16),
            _ => None,
        },
        AccessorRole::Indices => match component {
            ComponentType::U8 => Some(1),
            ComponentType::U16 => Some(2),
            ComponentType::U32 => Some(4),
            _ => None,
        },
        AccessorRole::Output(property) => match property {
            SourceProperty::Translation | SourceProperty::Scale => Some(12),
            SourceProperty::Rotation => match component {
                ComponentType::I8 | ComponentType::U8 => Some(4),
                ComponentType::I16 | ComponentType::U16 => Some(8),
                ComponentType::F32 => Some(16),
                ComponentType::U32 => None,
            },
            SourceProperty::MorphTargetWeights => match component {
                ComponentType::I8 | ComponentType::U8 => Some(1),
                ComponentType::I16 | ComponentType::U16 => Some(2),
                ComponentType::F32 => Some(4),
                ComponentType::U32 => None,
            },
            SourceProperty::Unknown => None,
        },
    }
}

/// The distance between the items of a view: without a stride they touch.
pub open spec fn stride_of(view: ViewShape, item: nat) -> nat {
    match view.stride {
        Some(stride) => stride as nat,
        None => item,
    }
}

/// Where the last of `count` items ends in its view.
pub open spec fn end_of(view: ViewShape, offset: usize, count: usize, item: nat) -> int {
    offset + stride_of(view, item) * (count - 1) + item
}

/// Whether every address of an item in its view is a number of the machine.
pub open spec fn has_addresses(view: ViewShape, offset: usize, count: usize, item: nat) -> bool {
    count == 0 || end_of(view, offset, count, item) <= usize::MAX
}

/// Whether accessor `accessor` of a document can be looked for in a role: the
/// role takes its numbers, and the items have addresses.
pub open spec fn is_visitable(
    document: gltf::Document,
    accessor: usize,
    role: AccessorRole,
) -> bool {
    let shape = document_accessors(document)[accessor as int];
    item_of(role, component_of(shape.component)) matches Some(item) && {
        &&& shape.view matches Some(view) ==> has_addresses(view, shape.offset, shape.count, item)
        &&& document_sparse(document)[accessor as int] matches Some(sparse) ==> {
            &&& shape.count <= u32::MAX
            &&& has_addresses(
                sparse.indices,
                sparse.indices_offset,
                sparse.count,
                sparse.index_size as nat,
            )
            &&& has_addresses(sparse.values, sparse.values_offset, sparse.count, item)
        }
    }
}

/// Whether an item of a view would be taken from fewer bytes than it has.
pub open spec fn is_cramped(view: ViewShape, count: usize, item: nat) -> bool {
    if count == 0 {
        2 * stride_of(view, item) <= item
    } else {
        stride_of(view, item) < item
    }
}

/// Whether an item of accessor `accessor` would be taken from fewer bytes than
/// it has in a role.
pub open spec fn has_cramped_items(
    document: gltf::Document,
    accessor: usize,
    role: AccessorRole,
) -> bool {
    let shape = document_accessors(document)[accessor as int];
    let item = item_of(role, component_of(shape.component)).unwrap();
    ||| shape.view matches Some(view) && is_cramped(view, shape.count, item)
    ||| document_sparse(document)[accessor as int] matches Some(sparse) && (is_cramped(
        sparse.indices,
        sparse.count,
        sparse.index_size as nat,
    ) || sparse.count >= 1 && is_cramped(sparse.values, sparse.count, item))
}

/// Whether an accessor is there and cannot be read in a role. An accessor whose
/// items are not stored is not read.
pub open spec fn is_unreadable(
    document: gltf::Document,
    accessor: Option<usize>,
    role: AccessorRole,
    buffers: Seq<Seq<u8>>,
) -> bool {
    accessor matches Some(index) && (!is_visitable(document, index, role) || has_cramped_items(
        document,
        index,
        role,
    ) && is_stored(document, accessor, role, buffers))
}

/// Whether there are items, none reaches into the next, and every address in
/// their view is a number of the machine.
pub open spec fn is_addressable(view: ViewShape, offset: usize, count: usize, item: nat) -> bool {
    &&& count >= 1
    &&& stride_of(view, item) >= item
    &&& end_of(view, offset, count, item) <= usize::MAX
    &&& view.offset + view.length <= usize::MAX
}

/// Whether the description of an accessor fits items of `item` bytes.
pub open spec fn is_sound(accessor: AccessorShape, sparse: Option<SparseShape>, item: nat) -> bool {
    &&& accessor.view matches Some(view) ==> is_addressable(
        view,
        accessor.offset,
        accessor.count,
        item,
    )
    &&& match sparse {
        Some(sparse) => {
            &&& accessor.count <= u32::MAX
            &&& is_addressable(
                sparse.indices,
                sparse.indices_offset,
                sparse.count,
                sparse.index_size as nat,
            )
            &&& is_addressable(sparse.values, sparse.values_offset, sparse.count, item)
        },
        None => accessor.size == item,
    }
}

/// Whether accessor `accessor` of a document can be handed to the reader of a
/// role.
pub open spec fn is_readable(
    document: gltf::Document,
    accessor: Option<usize>,
    role: AccessorRole,
) -> bool {
    accessor matches Some(accessor) && {
        let shape = document_accessors(document)[accessor as int];
        item_of(role, component_of(shape.component)) matches Some(item) && is_sound(
            shape,
            document_sparse(document)[accessor as int],
            item,
        )
    }
}

/// Whether the items of a view lie within their buffer. No items take the bytes
/// by which the first would reach into the next.
pub open spec fn lies_within(
    view: ViewShape,
    offset: usize,
    count: usize,
    item: nat,
    buffers: Seq<Seq<u8>>,
) -> bool {
    &&& view.buffer < buffers.len()
    &&& view.offset + view.length <= buffers[view.buffer as int].len()
    &&& if count == 0 {
        stride_of(view, item) <= item && offset + item - stride_of(view, item) <= view.length
    } else {
        end_of(view, offset, count, item) <= view.length
    }
}

/// Whether the items of an accessor lie within the buffers.
pub open spec fn is_stored(
    document: gltf::Document,
    accessor: Option<usize>,
    role: AccessorRole,
    buffers: Seq<Seq<u8>>,
) -> bool {
    accessor matches Some(accessor) && {
        let shape = document_accessors(document)[accessor as int];
        let item = item_of(role, component_of(shape.component)).unwrap();
        match document_sparse(document)[accessor as int] {
            Some(sparse) => {
                &&& shape.view matches Some(view) ==> lies_within(
                    view,
                    shape.offset,
                    shape.count,
                    item,
                    buffers,
                )
                &&& lies_within(
                    sparse.indices,
                    sparse.indices_offset,
                    sparse.count,
                    sparse.index_size as nat,
                    buffers,
                )
                &&& lies_within(sparse.values, sparse.values_offset, sparse.count, item, buffers)
            },
            None => shape.view matches Some(view) && lies_within(
                view,
                shape.offset,
                shape.count,
                item,
                buffers,
            ),
        }
    }
}

/// An accessor whose description fits its role is never refused.
pub proof fn readable_accessors_are_not_refused(
    document: gltf::Document,
    accessor: usize,
    role: AccessorRole,
    buffers: Seq<Seq<u8>>,
)
    requires
        is_readable(document, Some(accessor), role),
    ensures
        !is_unreadable(document, Some(accessor), role, buffers),
{
}

/// The number that `width` bytes make, the lowest byte first.
pub open spec fn little_endian(bytes: Seq<u8>, at: int, width: nat) -> int
    decreases width,
{
    if width == 0 {
        0
    } else {
        bytes[at] + 256 * little_endian(bytes, at + 1, (width - 1) as nat)
    }
}

/// What the numbers of an accessor are taken for in a role.
pub open spec fn number_type(role: AccessorRole, component: ComponentType) -> ComponentType {
    match role {
        AccessorRole::Vector | AccessorRole::Time | AccessorRole::Matrix => ComponentType::F32,
        AccessorRole::Output(SourceProperty::Translation) => ComponentType::F32,
        AccessorRole::Output(SourceProperty::Scale) => ComponentType::F32,
        _ => component,
    }
}

/// The bytes of a number.
pub open spec fn width_of(component: ComponentType) -> nat {
    match component {
        ComponentType::I8 | ComponentType::U8 => 1,
        ComponentType::I16 | ComponentType::U16 => 2,
        ComponentType::U32 | ComponentType::F32 => 4,
    }
}

/// The type of the numbers of accessor `accessor` in a role.
pub open spec fn stored_type(
    document: gltf::Document,
    accessor: usize,
    role: AccessorRole,
) -> ComponentType {
    number_type(role, component_of(document_accessors(document)[accessor as int].component))
}

/// Component `component` of item `index` of an accessor that stands in its view
/// alone, as the number that its bytes make.
pub open spec fn stored_number(
    document: gltf::Document,
    accessor: usize,
    role: AccessorRole,
    buffers: Seq<Seq<u8>>,
    index: int,
    component: int,
) -> int {
    let shape = document_accessors(document)[accessor as int];
    let view = shape.view.unwrap();
    let item = item_of(role, component_of(shape.component)).unwrap();
    let width = width_of(stored_type(document, accessor, role));
    little_endian(
        buffers[view.buffer as int],
        view.offset + shape.offset + stride_of(view, item) * index + width * component,
        width,
    )
}

/// Whether nothing replaces the items of an accessor in its view.
pub open spec fn is_plain(document: gltf::Document, accessor: usize) -> bool {
    match document_sparse(document)[accessor as int] {
        Some(sparse) => sparse.count == 0 && document_accessors(
            document,
        )[accessor as int].view is Some,
        None => true,
    }
}

/// Whether an accessor has neither a view nor anything that replaces its zeros.
pub open spec fn is_blank(document: gltf::Document, accessor: usize) -> bool {
    document_sparse(document)[accessor as int] matches Some(sparse) && sparse.count == 0
        && document_accessors(document)[accessor as int].view is None
}

/// What `Normalize::normalize` of the glTF crate, which its casts to floats call,
/// makes of an integer with the given bytes: a float, scaled by the largest
/// integer of its type.
pub uninterp spec fn scaled_number(component: ComponentType, number: int) -> Scalar;

/// Whether `value` is the float for a stored number. What a NaN holds is left
/// open.
pub open spec fn is_float_of(component: ComponentType, number: int, value: Scalar) -> bool {
    if component == ComponentType::F32 {
        is_nan(Scalar { bits: number as u32 }) || value.bits == number
    } else {
        value == scaled_number(component, number)
    }
}

/// Whether reading an accessor gives `count` items: as many as it counts, if
/// they lie within the buffers.
pub open spec fn is_read(
    document: gltf::Document,
    accessor: Option<usize>,
    role: AccessorRole,
    buffers: Seq<Seq<u8>>,
    count: Option<nat>,
) -> bool {
    count == (if is_stored(document, accessor, role, buffers) {
        Some(document_accessors(document)[accessor.unwrap() as int].count as nat)
    } else {
        None
    })
}

/// Whether `value` gives the floats of an accessor that stores each item with
/// `width` numbers. What sparse parts put in is left open.
pub open spec fn are_stored_floats(
    document: gltf::Document,
    accessor: Option<usize>,
    role: AccessorRole,
    buffers: Seq<Seq<u8>>,
    width: int,
    value: spec_fn(int, int) -> Scalar,
) -> bool {
    accessor matches Some(accessor) ==> {
        &&& is_plain(document, accessor) ==> forall|index: int, component: int|
            0 <= index < document_accessors(document)[accessor as int].count && 0 <= component
                < width ==> is_float_of(
                stored_type(document, accessor, role),
                stored_number(document, accessor, role, buffers, index, component),
                #[trigger] value(index, component),
            )
        &&& is_blank(document, accessor) ==> forall|index: int, component: int|
            0 <= index < document_accessors(document)[accessor as int].count && 0 <= component
                < width ==> (#[trigger] value(index, component)).bits == 0
    }
}

/// Whether `value` gives the whole numbers of an accessor that stores each item
/// with `width` of them. What sparse parts put in is left open.
pub open spec fn are_stored_numbers(
    document: gltf::Document,
    accessor: Option<usize>,
    role: AccessorRole,
    buffers: Seq<Seq<u8>>,
    width: int,
    value: spec_fn(int, int) -> int,
) -> bool {
    accessor matches Some(accessor) ==> {
        &&& is_plain(document, accessor) ==> forall|index: int, component: int|
            0 <= index < document_accessors(document)[accessor as int].count && 0 <= component
                < width ==> #[trigger] value(index, component) == stored_number(
                document,
                accessor,
                role,
                buffers,
                index,
                component,
            )
        &&& is_blank(document, accessor) ==> forall|index: int, component: int|
            0 <= index < document_accessors(document)[accessor as int].count && 0 <= component
                < width ==> #[trigger] value(index, component) == 0
    }
}

fn item_size(role: AccessorRole, component: ComponentType) -> (item: Option<usize>)
    ensures
        match item {
            Some(item) => item_of(role, component) == Some(item as nat) && item <= 64,
            None => item_of(role, component) is None,
        },
{
    match role {
        AccessorRole::Vector => Some(12),
        AccessorRole::Time => Some(4),
        AccessorRole::Matrix => Some(64),
        AccessorRole::TexCoords => match component {
            ComponentType::U8 => Some(2),
            ComponentType::U16 => Some(4),
            ComponentType::F32 => Some(8),
            _ => None,
        },
        AccessorRole::Joints => match component {
            ComponentType::U8 => Some(4),
            ComponentType::U16 => Some(8),
            _ => None,
        },
        AccessorRole::Weights => match component {
            ComponentType::U8 => Some(4),
            ComponentType::U16 => Some(8),
            ComponentType::F32 => Some(16),
            _ => None,
        },
        AccessorRole::Indices => match component {
            ComponentType::U8 => Some(1),
            ComponentType::U16 => Some(2),
            ComponentType::U32 => Some(4),
            _ => None,
        },
        AccessorRole::Output(property) => match property {
            SourceProperty::Translation | SourceProperty::Scale => Some(12),
            SourceProperty::Rotation => match component {
                ComponentType::I8 | ComponentType::U8 => Some(4),
                ComponentType::I16 | ComponentType::U16 => Some(8),
                ComponentType::F32 => Some(16),
                ComponentType::U32 => None,
            },
            SourceProperty::MorphTargetWeights => match component {
                ComponentType::I8 | ComponentType::U8 => Some(1),
                ComponentType::I16 | ComponentType::U16 => Some(2),
                ComponentType::F32 => Some(4),
                ComponentType::U32 => None,
            },
            SourceProperty::Unknown => None,
        },
    }
}

fn addressed(view: ViewShape, offset: usize, count: usize, item: usize) -> (addressed: bool)
    ensures
        addressed == has_addresses(view, offset, count, item as nat),
{
    if count == 0 {
        return true;
    }
    let stride: usize = match view.stride {
        Some(stride) => stride,
        None => item,
    };
    assert(stride * (count - 1) >= 0) by (nonlinear_arith)
        requires
            stride >= 0,
            count >= 1,
    ;
    let reach: usize = match stride.checked_mul(count - 1) {
        Some(reach) => reach,
        None => {
            return false;
        },
    };
    let start: usize = match reach.checked_add(offset) {
        Some(start) => start,
        None => {
            return false;
        },
    };
    start.checked_add(item).is_some()
}

fn cramped(view: ViewShape, count: usize, item: usize) -> (cramped: bool)
    ensures
        cramped == is_cramped(view, count, item as nat),
{
    let stride: usize = match view.stride {
        Some(stride) => stride,
        None => item,
    };
    if count == 0 {
        stride <= item && stride <= item - stride
    } else {
        stride < item
    }
}

fn addressable(view: ViewShape, offset: usize, count: usize, item: usize) -> (sound: bool)
    ensures
        sound == is_addressable(view, offset, count, item as nat),
{
    count >= 1 && !cramped(view, count, item) && addressed(view, offset, count, item)
        && view.offset.checked_add(view.length).is_some()
}

fn within(
    view: ViewShape,
    offset: usize,
    count: usize,
    item: usize,
    buffers: &Vec<Vec<u8>>,
) -> (within: bool)
    requires
        has_addresses(view, offset, count, item as nat),
    ensures
        within == lies_within(view, offset, count, item as nat, rows(buffers@)),
        within ==> view.offset + view.length <= usize::MAX,
{
    if view.buffer >= buffers.len() {
        return false;
    }
    assert(rows(buffers@)[view.buffer as int] == buffers@[view.buffer as int]@);
    let end: usize = match view.offset.checked_add(view.length) {
        Some(end) => end,
        None => {
            assert(buffers@[view.buffer as int].len() <= usize::MAX);
            return false;
        },
    };
    if end > buffers[view.buffer].len() {
        return false;
    }
    let stride: usize = match view.stride {
        Some(stride) => stride,
        None => item,
    };
    if count == 0 {
        return stride <= item && offset <= view.length && item - stride <= view.length - offset;
    }
    assert(stride * (count - 1) >= 0) by (nonlinear_arith)
        requires
            stride >= 0,
            count >= 1,
    ;
    offset + stride * (count - 1) + item <= view.length
}

/// The accessor descriptions of a document.
struct Accessors {
    shapes: Vec<AccessorShape>,
    sparse: Vec<Option<SparseShape>>,
}

impl Accessors {
    spec fn describes(self, document: gltf::Document) -> bool {
        &&& self.shapes@ == document_accessors(document)
        &&& self.sparse@ == document_sparse(document)
        &&& self.sparse@.len() == self.shapes@.len()
    }

    fn list(document: &gltf::Document) -> (accessors: Self)
        requires
            valid_document(*document),
        ensures
            accessors.describes(*document),
    {
        Accessors { shapes: list_accessors(document), sparse: list_sparse(document) }
    }

    fn readable(
        &self,
        accessor: Option<usize>,
        role: AccessorRole,
        Ghost(document): Ghost<gltf::Document>,
    ) -> (readable: bool)
        requires
            self.describes(document),
            names_one(accessor, document_accessors(document).len()),
        ensures
            readable == is_readable(document, accessor, role),
    {
        let accessor: usize = match accessor {
            Some(accessor) => accessor,
            None => {
                return false;
            },
        };
        let shape = self.shapes[accessor];
        let item: usize = match item_size(role, component_type(shape.component)) {
            Some(item) => item,
            None => {
                return false;
            },
        };
        if let Some(view) = shape.view {
            if !addressable(view, shape.offset, shape.count, item) {
                return false;
            }
        }
        match self.sparse[accessor] {
            Some(sparse) => shape.count as u64 <= u32::MAX as u64 && addressable(
                sparse.indices,
                sparse.indices_offset,
                sparse.count,
                sparse.index_size,
            ) && addressable(sparse.values, sparse.values_offset, sparse.count, item),
            None => shape.size == item,
        }
    }
}

/// The items of an optional list.
pub open spec fn items<T>(list: Option<Vec<T>>) -> Option<Seq<T>> {
    match list {
        Some(list) => Some(list@),
        None => None,
    }
}

/// How many items there are.
pub open spec fn counted<T>(list: Option<Vec<T>>) -> Option<nat> {
    match list {
        Some(list) => Some(list@.len()),
        None => None,
    }
}

/// Whether `values` are the vectors of an accessor.
pub open spec fn holds_vectors(
    document: gltf::Document,
    accessor: Option<usize>,
    buffers: Seq<Seq<u8>>,
    values: Option<Vec<[Scalar; 3]>>,
) -> bool {
    &&& is_read(document, accessor, AccessorRole::Vector, buffers, counted(values))
    &&& values matches Some(values) ==> are_stored_floats(
        document,
        accessor,
        AccessorRole::Vector,
        buffers,
        3,
        |i: int, c: int| values@[i][c],
    )
}

/// Whether `values` are the texture coordinates of an accessor.
pub open spec fn holds_tex_coords(
    document: gltf::Document,
    accessor: Option<usize>,
    buffers: Seq<Seq<u8>>,
    values: Option<Vec<[Scalar; 2]>>,
) -> bool {
    &&& is_read(document, accessor, AccessorRole::TexCoords, buffers, counted(values))
    &&& values matches Some(values) ==> are_stored_floats(
        document,
        accessor,
        AccessorRole::TexCoords,
        buffers,
        2,
        |i: int, c: int| values@[i][c],
    )
}

/// Whether `values` are the joint indices of an accessor.
pub open spec fn holds_joints(
    document: gltf::Document,
    accessor: Option<usize>,
    buffers: Seq<Seq<u8>>,
    values: Option<Vec<[u16; 4]>>,
) -> bool {
    &&& is_read(document, accessor, AccessorRole::Joints, buffers, counted(values))
    &&& values matches Some(values) ==> are_stored_numbers(
        document,
        accessor,
        AccessorRole::Joints,
        buffers,
        4,
        |i: int, c: int| values@[i][c] as int,
    )
}

/// Whether `values` are the joint weights of an accessor.
pub open spec fn holds_weights(
    document: gltf::Document,
    accessor: Option<usize>,
    buffers: Seq<Seq<u8>>,
    values: Option<Vec<[Scalar; 4]>>,
) -> bool {
    &&& is_read(document, accessor, AccessorRole::Weights, buffers, counted(values))
    &&& values matches Some(values) ==> are_stored_floats(
        document,
        accessor,
        AccessorRole::Weights,
        buffers,
        4,
        |i: int, c: int| values@[i][c],
    )
}

/// Whether `values` are the vertex indices of an accessor.
pub open spec fn holds_indices(
    document: gltf::Document,
    accessor: Option<usize>,
    buffers: Seq<Seq<u8>>,
    values: Option<Vec<u32>>,
) -> bool {
    &&& is_read(document, accessor, AccessorRole::Indices, buffers, counted(values))
    &&& values matches Some(values) ==> are_stored_numbers(
        document,
        accessor,
        AccessorRole::Indices,
        buffers,
        1,
        |i: int, c: int| values@[i] as int,
    )
}

/// Whether `values` are the matrices of an accessor.
pub open spec fn holds_matrices(
    document: gltf::Document,
    accessor: Option<usize>,
    buffers: Seq<Seq<u8>>,
    values: Option<Vec<[[Scalar; 4]; 4]>>,
) -> bool {
    &&& is_read(document, accessor, AccessorRole::Matrix, buffers, counted(values))
    &&& values matches Some(values) ==> are_stored_floats(
        document,
        accessor,
        AccessorRole::Matrix,
        buffers,
        16,
        |i: int, c: int| values@[i][c / 4][c % 4],
    )
}

/// Whether `values` are the times of an accessor.
pub open spec fn holds_times(
    document: gltf::Document,
    accessor: usize,
    buffers: Seq<Seq<u8>>,
    values: Option<Vec<Scalar>>,
) -> bool {
    &&& is_read(document, Some(accessor), AccessorRole::Time, buffers, counted(values))
    &&& values matches Some(values) ==> are_stored_floats(
        document,
        Some(accessor),
        AccessorRole::Time,
        buffers,
        1,
        |i: int, c: int| values@[i],
    )
}

/// The accessors of a primitive.
pub open spec fn attributes_of(
    document: gltf::Document,
    mesh: int,
    primitive: int,
) -> AttributeAccessors {
    document_attributes(document)[mesh][primitive]
}

/// Whether a document has a primitive.
pub open spec fn has_primitive(document: gltf::Document, mesh: int, primitive: int) -> bool {
    &&& 0 <= mesh < document_attributes(document).len()
    &&& 0 <= primitive < document_attributes(document)[mesh].len()
}

/// What `gltf::mesh::Reader::read_positions` visits.
pub uninterp spec fn vertex_positions(
    document: gltf::Document,
    buffers: Seq<Seq<u8>>,
    mesh: int,
    primitive: int,
) -> Option<Seq<[Scalar; 3]>>;

/// `gltf::mesh::Reader::read_positions`: the positions of the vertices
/// of a primitive, whose floats are those of the accessor.
#[verifier::external_body]
fn read_positions(
    document: &gltf::Document,
    buffers: &Vec<Vec<u8>>,
    mesh: usize,
    primitive: usize,
) -> (values: Option<Vec<[Scalar; 3]>>)
    requires
        valid_document(*document),
        has_primitive(*document, mesh as int, primitive as int),
        is_readable(
            *document,
            attributes_of(*document, mesh as int, primitive as int).positions,
            AccessorRole::Vector,
        ),
    ensures
        items(values) == vertex_positions(
            *document,
            rows(buffers@),
            mesh as int,
            primitive as int,
        ),
        holds_vectors(
            *document,
            attributes_of(*document, mesh as int, primitive as int).positions,
            rows(buffers@),
            values,
        ),
{
    let primitive = document.meshes().nth(mesh)?.primitives().nth(primitive)?;
    let reader = primitive.reader(|buffer| buffers.get(buffer.index()).map(|bytes| &bytes[..]));
    let values = reader.read_positions()?;
    Some(values.map(|value| value.map(|v| Scalar { bits: v.to_bits() })).collect())
}

/// What `gltf::mesh::Reader::read_normals` visits.
pub uninterp spec fn vertex_normals(
    document: gltf::Document,
    buffers: Seq<Seq<u8>>,
    mesh: int,
    primitive: int,
) -> Option<Seq<[Scalar; 3]>>;

/// `gltf::mesh::Reader::read_normals`: the normals of the vertices of a
/// primitive, whose floats are those of the accessor.
#[verifier::external_body]
fn read_normals(
    document: &gltf::Document,
    buffers: &Vec<Vec<u8>>,
    mesh: usize,
    primitive: usize,
) -> (values: Option<Vec<[Scalar; 3]>>)
    requires
        valid_document(*document),
        has_primitive(*document, mesh as int, primitive as int),
        is_readable(
            *document,
            attributes_of(*document, mesh as int, primitive as int).normals,
            AccessorRole::Vector,
        ),
    ensures
        items(values) == vertex_normals(
            *document,
            rows(buffers@),
            mesh as int,
            primitive as int,
        ),
        holds_vectors(
            *document,
            attributes_of(*document, mesh as int, primitive as int).normals,
            rows(buffers@),
            values,
        ),
{
    let primitive = document.meshes().nth(mesh)?.primitives().nth(primitive)?;
    let reader = primitive.reader(|buffer| buffers.get(buffer.index()).map(|bytes| &bytes[..]));
    let values = reader.read_normals()?;
    Some(values.map(|value| value.map(|v| Scalar { bits: v.to_bits() })).collect())
}

/// The accessor of a set of texture coordinates.
pub open spec fn tex_coord_accessor(
    document: gltf::Document,
    mesh: int,
    primitive: int,
    set: u32,
) -> Option<usize> {
    let attributes = attributes_of(document, mesh, primitive);
    if set == 0 {
        attributes.tex_coords0
    } else {
        attributes.tex_coords1
    }
}

/// What `gltf::mesh::Reader::read_tex_coords` visits.
pub uninterp spec fn vertex_tex_coords(
    document: gltf::Document,
    buffers: Seq<Seq<u8>>,
    mesh: int,
    primitive: int,
    set: u32,
) -> Option<Seq<[Scalar; 2]>>;

/// `gltf::mesh::Reader::read_tex_coords`: texture coordinates of the
/// vertices of a primitive, as floats. Integers are scaled; stored floats stay
/// what they are.
#[verifier::external_body]
fn read_tex_coords(
    document: &gltf::Document,
    buffers: &Vec<Vec<u8>>,
    mesh: usize,
    primitive: usize,
    set: u32,
) -> (values: Option<Vec<[Scalar; 2]>>)
    requires
        valid_document(*document),
        has_primitive(*document, mesh as int, primitive as int),
        set <= 1,
        is_readable(
            *document,
            tex_coord_accessor(*document, mesh as int, primitive as int, set),
            AccessorRole::TexCoords,
        ),
    ensures
        items(values) == vertex_tex_coords(
            *document,
            rows(buffers@),
            mesh as int,
            primitive as int,
            set,
        ),
        holds_tex_coords(
            *document,
            tex_coord_accessor(*document, mesh as int, primitive as int, set),
            rows(buffers@),
            values,
        ),
{
    let primitive = document.meshes().nth(mesh)?.primitives().nth(primitive)?;
    let reader = primitive.reader(|buffer| buffers.get(buffer.index()).map(|bytes| &bytes[..]));
    let values = reader.read_tex_coords(set)?;
    Some(values.into_f32().map(|value| value.map(|v| Scalar { bits: v.to_bits() })).collect())
}

/// What `gltf::mesh::Reader::read_joints` visits.
pub uninterp spec fn vertex_joints(
    document: gltf::Document,
    buffers: Seq<Seq<u8>>,
    mesh: int,
    primitive: int,
) -> Option<Seq<[u16; 4]>>;

/// `gltf::mesh::Reader::read_joints`: the joint indices of the vertices
/// of a primitive.
#[verifier::external_body]
fn read_joints(
    document: &gltf::Document,
    buffers: &Vec<Vec<u8>>,
    mesh: usize,
    primitive: usize,
) -> (values: Option<Vec<[u16; 4]>>)
    requires
        valid_document(*document),
        has_primitive(*document, mesh as int, primitive as int),
        is_readable(
            *document,
            attributes_of(*document, mesh as int, primitive as int).joints,
            AccessorRole::Joints,
        ),
    ensures
        items(values) == vertex_joints(
            *document,
            rows(buffers@),
            mesh as int,
            primitive as int,
        ),
        holds_joints(
            *document,
            attributes_of(*document, mesh as int, primitive as int).joints,
            rows(buffers@),
            values,
        ),
{
    let primitive = document.meshes().nth(mesh)?.primitives().nth(primitive)?;
    let reader = primitive.reader(|buffer| buffers.get(buffer.index()).map(|bytes| &bytes[..]));
    let values = reader.read_joints(0)?;
    Some(values.into_u16().collect())
}

/// What `gltf::mesh::Reader::read_weights` visits.
pub uninterp spec fn vertex_weights(
    document: gltf::Document,
    buffers: Seq<Seq<u8>>,
    mesh: int,
    primitive: int,
) -> Option<Seq<[Scalar; 4]>>;

/// `gltf::mesh::Reader::read_weights`: the joint weights of the vertices
/// of a primitive, as floats. Integers are scaled; stored floats stay what they
/// are.
#[verifier::external_body]
fn read_weights(
    document: &gltf::Document,
    buffers: &Vec<Vec<u8>>,
    mesh: usize,
    primitive: usize,
) -> (values: Option<Vec<[Scalar; 4]>>)
    requires
        valid_document(*document),
        has_primitive(*document, mesh as int, primitive as int),
        is_readable(
            *document,
            attributes_of(*document, mesh as int, primitive as int).weights,
            AccessorRole::Weights,
        ),
    ensures
        items(values) == vertex_weights(
            *document,
            rows(buffers@),
            mesh as int,
            primitive as int,
        ),
        holds_weights(
            *document,
            attributes_of(*document, mesh as int, primitive as int).weights,
            rows(buffers@),
            values,
        ),
{
    let primitive = document.meshes().nth(mesh)?.primitives().nth(primitive)?;
    let reader = primitive.reader(|buffer| buffers.get(buffer.index()).map(|bytes| &bytes[..]));
    let values = reader.read_weights(0)?;
    Some(values.into_f32().map(|value| value.map(|v| Scalar { bits: v.to_bits() })).collect())
}

/// What `gltf::mesh::Reader::read_indices` visits.
pub uninterp spec fn vertex_indices(
    document: gltf::Document,
    buffers: Seq<Seq<u8>>,
    mesh: int,
    primitive: int,
) -> Option<Seq<u32>>;

/// `gltf::mesh::Reader::read_indices`: the vertex indices of a primitive.
#[verifier::external_body]
fn read_indices(
    document: &gltf::Document,
    buffers: &Vec<Vec<u8>>,
    mesh: usize,
    primitive: usize,
) -> (values: Option<Vec<u32>>)
    requires
        valid_document(*document),
        has_primitive(*document, mesh as int, primitive as int),
        is_readable(
            *document,
            attributes_of(*document, mesh as int, primitive as int).indices,
            AccessorRole::Indices,
        ),
    ensures
        items(values) == vertex_indices(
            *document,
            rows(buffers@),
            mesh as int,
            primitive as int,
        ),
        holds_indices(
            *document,
            attributes_of(*document, mesh as int, primitive as int).indices,
            rows(buffers@),
            values,
        ),
{
    let primitive = document.meshes().nth(mesh)?.primitives().nth(primitive)?;
    let reader = primitive.reader(|buffer| buffers.get(buffer.index()).map(|bytes| &bytes[..]));
    let values = reader.read_indices()?;
    Some(values.into_u32().collect())
}

/// What `gltf::accessor::Iter` visits of accessor `accessor`, taken for vectors.
pub uninterp spec fn accessor_vectors(
    document: gltf::Document,
    buffers: Seq<Seq<u8>>,
    accessor: int,
) -> Option<Seq<[Scalar; 3]>>;

/// `gltf::accessor::Iter::new` for vectors of three floats: what the readers of
/// morph targets visit of the positions and the normals of a target, whose
/// floats are those of the accessor.
#[verifier::external_body]
fn read_displacements(
    document: &gltf::Document,
    buffers: &Vec<Vec<u8>>,
    accessor: usize,
) -> (values: Option<Vec<[Scalar; 3]>>)
    requires
        valid_document(*document),
        accessor < document_accessors(*document).len(),
        is_readable(*document, Some(accessor), AccessorRole::Vector),
    ensures
        items(values) == accessor_vectors(*document, rows(buffers@), accessor as int),
        holds_vectors(*document, Some(accessor), rows(buffers@), values),
{
    let accessor = document.accessors().nth(accessor)?;
    let data = |buffer: gltf::Buffer| buffers.get(buffer.index()).map(|bytes| &bytes[..]);
    let values = ReadPositionDisplacements::new(accessor, data)?;
    Some(values.map(|value| value.map(|v| Scalar { bits: v.to_bits() })).collect())
}

/// What `gltf::skin::Reader::read_inverse_bind_matrices` visits.
pub uninterp spec fn bind_matrices(
    document: gltf::Document,
    buffers: Seq<Seq<u8>>,
    skin: int,
) -> Option<Seq<[[Scalar; 4]; 4]>>;

/// `gltf::skin::Reader::read_inverse_bind_matrices`: the matrices of a skin,
/// column by column, whose floats are those of the accessor.
#[verifier::external_body]
fn read_binds(document: &gltf::Document, buffers: &Vec<Vec<u8>>, skin: usize) -> (values: Option<
    Vec<[[Scalar; 4]; 4]>,
>)
    requires
        valid_document(*document),
        skin < document_binds(*document).len(),
        is_readable(*document, document_binds(*document)[skin as int], AccessorRole::Matrix),
    ensures
        items(values) == bind_matrices(*document, rows(buffers@), skin as int),
        holds_matrices(
            *document,
            document_binds(*document)[skin as int],
            rows(buffers@),
            values,
        ),
{
    let skin = document.skins().nth(skin)?;
    let reader = skin.reader(|buffer| buffers.get(buffer.index()).map(|bytes| &bytes[..]));
    let matrices = reader.read_inverse_bind_matrices()?;
    let columns = matrices.map(|matrix| {
        matrix.map(|column| column.map(|v| Scalar { bits: v.to_bits() }))
    });
    Some(columns.collect())
}

/// The accessors of a channel.
pub open spec fn keys_of(document: gltf::Document, animation: int, channel: int) -> KeyAccessors {
    document_keys(document)[animation][channel]
}

/// Whether a document has a channel.
pub open spec fn has_channel(document: gltf::Document, animation: int, channel: int) -> bool {
    &&& 0 <= animation < document_keys(document).len()
    &&& 0 <= channel < document_keys(document)[animation].len()
}

/// What `gltf::animation::Reader::read_inputs` visits.
pub uninterp spec fn key_times(
    document: gltf::Document,
    buffers: Seq<Seq<u8>>,
    animation: int,
    channel: int,
) -> Option<Seq<Scalar>>;

/// `gltf::animation::Reader::read_inputs`: the times of a channel's keys, which
/// are those of the accessor.
#[verifier::external_body]
fn read_inputs(
    document: &gltf::Document,
    buffers: &Vec<Vec<u8>>,
    animation: usize,
    channel: usize,
) -> (values: Option<Vec<Scalar>>)
    requires
        valid_document(*document),
        has_channel(*document, animation as int, channel as int),
        is_readable(
            *document,
            Some(keys_of(*document, animation as int, channel as int).input),
            AccessorRole::Time,
        ),
    ensures
        items(values) == key_times(
            *document,
            rows(buffers@),
            animation as int,
            channel as int,
        ),
        holds_times(
            *document,
            keys_of(*document, animation as int, channel as int).input,
            rows(buffers@),
            values,
        ),
{
    let channel = document.animations().nth(animation)?.channels().nth(channel)?;
    let reader = channel.reader(|buffer| buffers.get(buffer.index()).map(|bytes| &bytes[..]));
    Some(reader.read_inputs()?.map(|v| Scalar { bits: v.to_bits() }).collect())
}

/// The outputs of a channel.
pub enum OutputsView {
    Translations(Seq<[Scalar; 3]>),
    Rotations(Seq<[Scalar; 4]>),
    Scales(Seq<[Scalar; 3]>),
    MorphTargetWeights,
}

/// The outputs that are held.
pub open spec fn outputs_view(outputs: Option<SourceOutputs>) -> Option<OutputsView> {
    match outputs {
        None => None,
        Some(SourceOutputs::Translations(values)) => Some(OutputsView::Translations(values@)),
        Some(SourceOutputs::Rotations(values)) => Some(OutputsView::Rotations(values@)),
        Some(SourceOutputs::Scales(values)) => Some(OutputsView::Scales(values@)),
        Some(SourceOutputs::MorphTargetWeights) => Some(OutputsView::MorphTargetWeights),
    }
}

/// What `gltf::animation::Reader::read_outputs` visits.
pub uninterp spec fn key_outputs(
    document: gltf::Document,
    buffers: Seq<Seq<u8>>,
    animation: int,
    channel: int,
) -> Option<OutputsView>;

/// Whether `outputs` are those of a channel that drives `property`: as many as
/// the accessor counts, with the floats of the accessor.
pub open spec fn are_outputs(
    document: gltf::Document,
    output: usize,
    property: SourceProperty,
    buffers: Seq<Seq<u8>>,
    outputs: SourceOutputs,
) -> bool {
    let count = document_accessors(document)[output as int].count;
    match (property, outputs) {
        (SourceProperty::Translation, SourceOutputs::Translations(values))
        | (SourceProperty::Scale, SourceOutputs::Scales(values)) => {
            &&& values@.len() == count
            &&& are_stored_floats(
                document,
                Some(output),
                AccessorRole::Output(property),
                buffers,
                3,
                |i: int, c: int| values@[i][c],
            )
        },
        (SourceProperty::Rotation, SourceOutputs::Rotations(values)) => {
            &&& values@.len() == count
            &&& are_stored_floats(
                document,
                Some(output),
                AccessorRole::Output(property),
                buffers,
                4,
                |i: int, c: int| values@[i][c],
            )
        },
        (SourceProperty::MorphTargetWeights, SourceOutputs::MorphTargetWeights) => true,
        _ => false,
    }
}

/// Whether `outputs` are those of an accessor, if they lie within the buffers.
pub open spec fn holds_outputs(
    document: gltf::Document,
    output: usize,
    property: SourceProperty,
    buffers: Seq<Seq<u8>>,
    outputs: Option<SourceOutputs>,
) -> bool {
    &&& outputs is Some == is_stored(
        document,
        Some(output),
        AccessorRole::Output(property),
        buffers,
    )
    &&& outputs matches Some(outputs) ==> are_outputs(
        document,
        output,
        property,
        buffers,
        outputs,
    )
}

/// `gltf::animation::Reader::read_outputs`: the values of a channel's keys, of
/// the kind that its target asks for. Integers are scaled to floats; stored
/// floats stay what they are. Weights are left out.
#[verifier::external_body]
fn read_outputs(
    document: &gltf::Document,
    buffers: &Vec<Vec<u8>>,
    animation: usize,
    channel: usize,
) -> (outputs: Option<SourceOutputs>)
    requires
        valid_document(*document),
        has_channel(*document, animation as int, channel as int),
        is_readable(
            *document,
            Some(keys_of(*document, animation as int, channel as int).output),
            AccessorRole::Output(
                document_targets(*document)[animation as int][channel as int].property,
            ),
        ),
    ensures
        outputs_view(outputs) == key_outputs(
            *document,
            rows(buffers@),
            animation as int,
            channel as int,
        ),
        holds_outputs(
            *document,
            keys_of(*document, animation as int, channel as int).output,
            document_targets(*document)[animation as int][channel as int].property,
            rows(buffers@),
            outputs,
        ),
{
    let channel = document.animations().nth(animation)?.channels().nth(channel)?;
    let reader = channel.reader(|buffer| buffers.get(buffer.index()).map(|bytes| &bytes[..]));
    let vectors = |values: util::Translations|
        values.map(|value| value.map(|v| Scalar { bits: v.to_bits() })).collect();
    Some(match reader.read_outputs()? {
        Translations(values) => SourceOutputs::Translations(vectors(values)),
        Rotations(values) => SourceOutputs::Rotations(
            values.into_f32().map(|value| value.map(|v| Scalar { bits: v.to_bits() })).collect()
        ),
        Scales(values) => SourceOutputs::Scales(vectors(values)),
        MorphTargetWeights(_) => SourceOutputs::MorphTargetWeights,
    })
}

/// Whether `bytes` hold items of `item` bytes that start `stride` bytes apart,
/// up to the end of the last one.
pub open spec fn are_items(bytes: Seq<u8>, stride: usize, item: nat) -> bool {
    &&& 0 < item <= stride
    &&& item <= bytes.len()
    &&& (bytes.len() - item) % (stride as int) == 0
}

/// How many items of `item` bytes `bytes` hold.
pub open spec fn item_total(bytes: Seq<u8>, stride: usize, item: nat) -> int {
    (bytes.len() - item) / (stride as int) + 1
}

/// Number `component` of item `index` among `bytes`.
pub open spec fn number_at(
    bytes: Seq<u8>,
    stride: usize,
    index: int,
    component: int,
    width: nat,
) -> int {
    little_endian(bytes, stride * index + width * component, width)
}

/// `gltf::accessor::util::ItemIter` for three floats: each item of `bytes`.
#[verifier::external_body]
fn visit_vectors(bytes: &[u8], stride: usize) -> (values: Vec<[Scalar; 3]>)
    requires
        are_items(bytes@, stride, 12),
    ensures
        values@.len() == item_total(bytes@, stride, 12),
        forall|i: int, c: int|
            0 <= i < values@.len() && 0 <= c < 3 ==> is_float_of(
                ComponentType::F32,
                number_at(bytes@, stride, i, c, 4),
                #[trigger] values@[i][c],
            ),
{
    let values: ReadPositions = Standard(ItemIter::new(bytes, stride));
    values.map(|value| value.map(|v| Scalar { bits: v.to_bits() })).collect()
}

/// `gltf::accessor::util::ItemIter` for a float: each item of `bytes`.
#[verifier::external_body]
fn visit_times(bytes: &[u8], stride: usize) -> (values: Vec<Scalar>)
    requires
        are_items(bytes@, stride, 4),
    ensures
        values@.len() == item_total(bytes@, stride, 4),
        forall|i: int|
            0 <= i < values@.len() ==> is_float_of(
                ComponentType::F32,
                number_at(bytes@, stride, i, 0, 4),
                #[trigger] values@[i],
            ),
{
    let values: util::ReadInputs = Standard(ItemIter::new(bytes, stride));
    values.map(|v| Scalar { bits: v.to_bits() }).collect()
}

/// `gltf::accessor::util::ItemIter` for four columns of four floats: each item
/// of `bytes`.
#[verifier::external_body]
fn visit_matrices(bytes: &[u8], stride: usize) -> (values: Vec<[[Scalar; 4]; 4]>)
    requires
        are_items(bytes@, stride, 64),
    ensures
        values@.len() == item_total(bytes@, stride, 64),
        forall|i: int, a: int, b: int|
            0 <= i < values@.len() && 0 <= a < 4 && 0 <= b < 4 ==> is_float_of(
                ComponentType::F32,
                number_at(bytes@, stride, i, 4 * a + b, 4),
                #[trigger] values@[i][a][b],
            ),
{
    let matrices: ReadInverseBindMatrices = Standard(ItemIter::new(bytes, stride));
    let columns = matrices.map(
        |matrix| matrix.map(|column| column.map(|v| Scalar { bits: v.to_bits() }))
    );
    columns.collect()
}

/// `gltf::mesh::util::ReadTexCoords::into_f32` of the items of `bytes`: pairs of
/// numbers as floats. Integers are scaled.
#[verifier::external_body]
fn visit_tex_coords(
    bytes: &[u8],
    stride: usize,
    component: ComponentType,
) -> (values: Vec<[Scalar; 2]>)
    requires
        component is U8 || component is U16 || component is F32,
        are_items(bytes@, stride, 2 * width_of(component)),
    ensures
        values@.len() == item_total(bytes@, stride, 2 * width_of(component)),
        forall|i: int, c: int|
            0 <= i < values@.len() && 0 <= c < 2 ==> if component is F32 {
                is_float_of(
                    component,
                    number_at(bytes@, stride, i, c, 4),
                    #[trigger] values@[i][c],
                )
            } else {
                values@[i][c] == scaled_number(
                    component,
                    number_at(bytes@, stride, i, c, width_of(component)),
                )
            },
{
    let read = match component {
        ComponentType::U8 => ReadTexCoords::U8(Standard(ItemIter::new(bytes, stride))),
        ComponentType::U16 => ReadTexCoords::U16(Standard(ItemIter::new(bytes, stride))),
        _ => ReadTexCoords::F32(Standard(ItemIter::new(bytes, stride))),
    };
    read.into_f32().map(|value| value.map(|v| Scalar { bits: v.to_bits() })).collect()
}

/// `gltf::mesh::util::ReadJoints::into_u16` of the items of `bytes`: four joint
/// indices each.
#[verifier::external_body]
fn visit_joints(bytes: &[u8], stride: usize, component: ComponentType) -> (values: Vec<[u16; 4]>)
    requires
        component is U8 || component is U16,
        are_items(bytes@, stride, 4 * width_of(component)),
    ensures
        values@.len() == item_total(bytes@, stride, 4 * width_of(component)),
        forall|i: int, c: int|
            0 <= i < values@.len() && 0 <= c < 4 ==> #[trigger] values@[i][c] == number_at(
                bytes@,
                stride,
                i,
                c,
                width_of(component),
            ),
{
    let read = match component {
        ComponentType::U8 => ReadJoints::U8(Standard(ItemIter::new(bytes, stride))),
        _ => ReadJoints::U16(Standard(ItemIter::new(bytes, stride))),
    };
    read.into_u16().collect()
}

/// `gltf::mesh::util::ReadWeights::into_f32` of the items of `bytes`: four
/// numbers each as floats. Integers are scaled.
#[verifier::external_body]
fn visit_weights(
    bytes: &[u8],
    stride: usize,
    component: ComponentType,
) -> (values: Vec<[Scalar; 4]>)
    requires
        component is U8 || component is U16 || component is F32,
        are_items(bytes@, stride, 4 * width_of(component)),
    ensures
        values@.len() == item_total(bytes@, stride, 4 * width_of(component)),
        forall|i: int, c: int|
            0 <= i < values@.len() && 0 <= c < 4 ==> if component is F32 {
                is_float_of(
                    component,
                    number_at(bytes@, stride, i, c, 4),
                    #[trigger] values@[i][c],
                )
            } else {
                values@[i][c] == scaled_number(
                    component,
                    number_at(bytes@, stride, i, c, width_of(component)),
                )
            },
{
    let read = match component {
        ComponentType::U8 => ReadWeights::U8(Standard(ItemIter::new(bytes, stride))),
        ComponentType::U16 => ReadWeights::U16(Standard(ItemIter::new(bytes, stride))),
        _ => ReadWeights::F32(Standard(ItemIter::new(bytes, stride))),
    };
    read.into_f32().map(|value| value.map(|v| Scalar { bits: v.to_bits() })).collect()
}

/// `gltf::mesh::util::ReadIndices::into_u32` of the items of `bytes`: a vertex
/// index each.
#[verifier::external_body]
fn visit_indices(bytes: &[u8], stride: usize, component: ComponentType) -> (values: Vec<u32>)
    requires
        component is U8 || component is U16 || component is U32,
        are_items(bytes@, stride, width_of(component)),
    ensures
        values@.len() == item_total(bytes@, stride, width_of(component)),
        forall|i: int|
            0 <= i < values@.len() ==> #[trigger] values@[i] == number_at(
                bytes@,
                stride,
                i,
                0,
                width_of(component),
            ),
{
    let read = match component {
        ComponentType::U8 => ReadIndices::U8(Standard(ItemIter::new(bytes, stride))),
        ComponentType::U16 => ReadIndices::U16(Standard(ItemIter::new(bytes, stride))),
        _ => ReadIndices::U32(Standard(ItemIter::new(bytes, stride))),
    };
    read.into_u32().collect()
}

/// `gltf::animation::util::Rotations::into_f32` of the items of `bytes`: four
/// numbers each as floats. Integers are scaled.
#[verifier::external_body]
fn visit_rotations(
    bytes: &[u8],
    stride: usize,
    component: ComponentType,
) -> (values: Vec<[Scalar; 4]>)
    requires
        component is I8 || component is U8 || component is I16 || component is U16
            || component is F32,
        are_items(bytes@, stride, 4 * width_of(component)),
    ensures
        values@.len() == item_total(bytes@, stride, 4 * width_of(component)),
        forall|i: int, c: int|
            0 <= i < values@.len() && 0 <= c < 4 ==> if component is F32 {
                is_float_of(
                    component,
                    number_at(bytes@, stride, i, c, 4),
                    #[trigger] values@[i][c],
                )
            } else {
                values@[i][c] == scaled_number(
                    component,
                    number_at(bytes@, stride, i, c, width_of(component)),
                )
            },
{
    let read = match component {
        ComponentType::I8 => util::Rotations::I8(Standard(ItemIter::new(bytes, stride))),
        ComponentType::U8 => util::Rotations::U8(Standard(ItemIter::new(bytes, stride))),
        ComponentType::I16 => util::Rotations::I16(Standard(ItemIter::new(bytes, stride))),
        ComponentType::U16 => util::Rotations::U16(Standard(ItemIter::new(bytes, stride))),
        _ => util::Rotations::F32(Standard(ItemIter::new(bytes, stride))),
    };
    read.into_f32().map(|value| value.map(|v| Scalar { bits: v.to_bits() })).collect()
}

/// Where the items of an accessor are found.
#[derive(Clone, Copy)]
enum Place {
    Unreadable,
    Nowhere,
    Zeros { count: usize },
    Items { buffer: usize, start: usize, end: usize, stride: usize, component: ComponentType },
}

/// Whether the items of an accessor are found at `place`.
spec fn is_place(
    document: gltf::Document,
    accessor: usize,
    role: AccessorRole,
    buffers: Seq<Seq<u8>>,
    place: Place,
) -> bool {
    let shape = document_accessors(document)[accessor as int];
    let view = shape.view.unwrap();
    let item = item_of(role, component_of(shape.component)).unwrap();
    &&& (place is Unreadable) == is_unreadable(document, Some(accessor), role, buffers)
    &&& match place {
        Place::Unreadable => true,
        Place::Nowhere => !is_stored(document, Some(accessor), role, buffers),
        Place::Zeros { count } => {
            &&& is_stored(document, Some(accessor), role, buffers)
            &&& count == shape.count
            &&& count == 0 || is_blank(document, accessor) && !is_plain(document, accessor)
        },
        Place::Items { buffer, start, end, stride, component } => {
            &&& is_stored(document, Some(accessor), role, buffers)
            &&& is_plain(document, accessor) && !is_blank(document, accessor)
            &&& item_of(role, component_of(shape.component)) is Some
            &&& shape.view is Some
            &&& shape.count >= 1
            &&& component == component_of(shape.component)
            &&& buffer == view.buffer < buffers.len()
            &&& start == view.offset + shape.offset
            &&& end == view.offset + end_of(view, shape.offset, shape.count, item)
            &&& end <= buffers[buffer as int].len()
            &&& stride == stride_of(view, item) >= item
        },
    }
}

impl Accessors {
    /// Finds the items of an accessor that is not handed to a reader.
    fn place(
        &self,
        accessor: usize,
        role: AccessorRole,
        buffers: &Vec<Vec<u8>>,
        Ghost(document): Ghost<gltf::Document>,
    ) -> (place: Place)
        requires
            self.describes(document),
            accessor < document_accessors(document).len(),
            !is_readable(document, Some(accessor), role),
        ensures
            is_place(document, accessor, role, rows(buffers@), place),
    {
        let shape = self.shapes[accessor];
        let component = component_type(shape.component);
        let item: usize = match item_size(role, component) {
            Some(item) => item,
            None => {
                return Place::Unreadable;
            },
        };
        if let Some(view) = shape.view {
            if !addressed(view, shape.offset, shape.count, item) {
                return Place::Unreadable;
            }
        }
        if let Some(sparse) = self.sparse[accessor] {
            if shape.count as u64 > u32::MAX as u64 || !addressed(
                sparse.indices,
                sparse.indices_offset,
                sparse.count,
                sparse.index_size,
            ) || !addressed(sparse.values, sparse.values_offset, sparse.count, item) {
                return Place::Unreadable;
            }
        }
        if let Some(view) = shape.view {
            if !within(view, shape.offset, shape.count, item, buffers) {
                return Place::Nowhere;
            }
        }
        if let Some(sparse) = self.sparse[accessor] {
            if !within(
                sparse.indices,
                sparse.indices_offset,
                sparse.count,
                sparse.index_size,
                buffers,
            ) || !within(sparse.values, sparse.values_offset, sparse.count, item, buffers) {
                return Place::Nowhere;
            }
            if cramped(sparse.indices, sparse.count, sparse.index_size) || sparse.count >= 1
                && cramped(sparse.values, sparse.count, item) {
                return Place::Unreadable;
            }
        }
        let view = match shape.view {
            Some(view) => view,
            None => {
                if self.sparse[accessor].is_none() {
                    return Place::Nowhere;
                }
                return Place::Zeros { count: shape.count };
            },
        };
        if cramped(view, shape.count, item) {
            return Place::Unreadable;
        }
        if shape.count == 0 {
            return Place::Zeros { count: 0 };
        }
        let stride: usize = match view.stride {
            Some(stride) => stride,
            None => item,
        };
        let ghost reach = end_of(view, shape.offset, shape.count, item as nat);
        assert(rows(buffers@)[view.buffer as int] == buffers@[view.buffer as int]@);
        assert(stride * (shape.count - 1) >= 0) by (nonlinear_arith)
            requires
                stride >= 0,
                shape.count >= 1,
        ;
        assert(reach <= view.length);
        let start: usize = view.offset + shape.offset;
        let end: usize = start + stride * (shape.count - 1) + item;
        Place::Items { buffer: view.buffer, start, end, stride, component }
    }

    /// Whether an accessor is there and cannot be read.
    fn unreadable(
        &self,
        accessor: Option<usize>,
        role: AccessorRole,
        buffers: &Vec<Vec<u8>>,
        Ghost(document): Ghost<gltf::Document>,
    ) -> (unreadable: bool)
        requires
            self.describes(document),
            names_one(accessor, document_accessors(document).len()),
        ensures
            unreadable == is_unreadable(document, accessor, role, rows(buffers@)),
    {
        let index: usize = match accessor {
            Some(index) => index,
            None => {
                return false;
            },
        };
        if self.readable(accessor, role, Ghost(document)) {
            return false;
        }
        match self.place(index, role, buffers, Ghost(document)) {
            Place::Unreadable => true,
            _ => false,
        }
    }
}

proof fn little_endian_of_part(bytes: Seq<u8>, from: int, to: int, at: int, width: nat)
    requires
        0 <= from <= to <= bytes.len(),
        0 <= at,
        at + width <= to - from,
    ensures
        little_endian(bytes.subrange(from, to), at, width) == little_endian(
            bytes,
            from + at,
            width,
        ),
    decreases width,
{
    if width > 0 {
        little_endian_of_part(bytes, from, to, at + 1, (width - 1) as nat);
    }
}

/// The items at a place are those that the accessor stores.
proof fn items_at_a_place(
    document: gltf::Document,
    accessor: usize,
    role: AccessorRole,
    buffers: Seq<Seq<u8>>,
    place: Place,
    width: nat,
)
    requires
        is_place(document, accessor, role, buffers, place),
        place is Items,
        item_of(
            role,
            component_of(document_accessors(document)[accessor as int].component),
        ) == Some(width * width_of(stored_type(document, accessor, role))),
        width > 0,
    ensures
        ({
            let bytes = buffers[place->buffer as int].subrange(
                place->start as int,
                place->end as int,
            );
            let kind = stored_type(document, accessor, role);
            let item = width * width_of(kind);
            let count = document_accessors(document)[accessor as int].count;
            &&& place->start <= place->end
            &&& are_items(bytes, place->stride, item)
            &&& item_total(bytes, place->stride, item) == count
            &&& forall|i: int, c: int|
                0 <= i < count && 0 <= c < width ==> #[trigger] number_at(
                    bytes,
                    place->stride,
                    i,
                    c,
                    width_of(kind),
                ) == stored_number(document, accessor, role, buffers, i, c)
        }),
{
    let shape = document_accessors(document)[accessor as int];
    let kind = stored_type(document, accessor, role);
    let number = width_of(kind);
    let item = width * number;
    let stride = place->stride as int;
    let count = shape.count as int;
    let whole = buffers[place->buffer as int];
    let (start, end) = (place->start as int, place->end as int);
    let bytes = whole.subrange(start, end);
    assert(stride * (count - 1) >= 0) by (nonlinear_arith)
        requires
            stride >= 0,
            count >= 1,
    ;
    assert(item > 0) by (nonlinear_arith)
        requires
            item == width * number,
            width > 0,
            number > 0,
    ;
    assert(bytes.len() - item == stride * (count - 1));
    vstd::arithmetic::div_mod::lemma_mod_multiples_basic(count - 1, stride);
    vstd::arithmetic::div_mod::lemma_div_multiples_vanish(count - 1, stride);
    assert(stride * (count - 1) == (count - 1) * stride) by (nonlinear_arith);
    assert forall|i: int, c: int| 0 <= i < count && 0 <= c < width implies #[trigger] number_at(
        bytes,
        place->stride,
        i,
        c,
        number,
    ) == stored_number(document, accessor, role, buffers, i, c) by {
        let at = stride * i + number * c;
        assert(0 <= at && at + number <= end - start) by (nonlinear_arith)
            requires
                at == stride * i + number * c,
                0 <= i < count,
                0 <= c < width,
                item == width * number,
                end - start == stride * (count - 1) + item,
                stride >= 0,
                number >= 0,
        ;
        little_endian_of_part(whole, start, end, at, number);
    }
}

fn repeated<T: Copy>(value: T, count: usize) -> (values: Vec<T>)
    ensures
        values@ == Seq::new(count as nat, |i: int| value),
{
    let mut values: Vec<T> = Vec::new();
    let mut i: usize = 0;
    while i < count
        invariant
            i <= count,
            values@ =~= Seq::new(i as nat, |i: int| value),
        decreases count - i,
    {
        values.push(value);
        i += 1;
    }
    values
}

/// The vectors at a place.
fn vectors_at(
    place: Place,
    buffers: &Vec<Vec<u8>>,
    Ghost(document): Ghost<gltf::Document>,
    Ghost(accessor): Ghost<usize>,
    Ghost(role): Ghost<AccessorRole>,
) -> (values: Option<Vec<[Scalar; 3]>>)
    requires
        is_place(document, accessor, role, rows(buffers@), place),
        place !is Unreadable,
        role == AccessorRole::Vector || role == AccessorRole::Output(SourceProperty::Translation)
            || role == AccessorRole::Output(SourceProperty::Scale),
    ensures
        is_read(document, Some(accessor), role, rows(buffers@), counted(values)),
        values matches Some(values) ==> are_stored_floats(
            document,
            Some(accessor),
            role,
            rows(buffers@),
            3,
            |i: int, c: int| values@[i][c],
        ),
{
    match place {
        Place::Nowhere | Place::Unreadable => None,
        Place::Zeros { count } => Some(repeated([Scalar { bits: 0 }; 3], count)),
        Place::Items { buffer, start, end, stride, component } => {
            proof {
                items_at_a_place(document, accessor, role, rows(buffers@), place, 3);
            }
            assert(rows(buffers@)[buffer as int] == buffers@[buffer as int]@);
            let bytes = copy_range(buffers[buffer].as_slice(), start, end);
            let values = visit_vectors(bytes.as_slice(), stride);
            Some(values)
        },
    }
}

/// The times at a place.
fn times_at(
    place: Place,
    buffers: &Vec<Vec<u8>>,
    Ghost(document): Ghost<gltf::Document>,
    Ghost(accessor): Ghost<usize>,
    Ghost(role): Ghost<AccessorRole>,
) -> (values: Option<Vec<Scalar>>)
    requires
        is_place(document, accessor, role, rows(buffers@), place),
        place !is Unreadable,
        role == AccessorRole::Time,
    ensures
        is_read(document, Some(accessor), role, rows(buffers@), counted(values)),
        values matches Some(values) ==> are_stored_floats(
            document,
            Some(accessor),
            role,
            rows(buffers@),
            1,
            |i: int, c: int| values@[i],
        ),
{
    match place {
        Place::Nowhere | Place::Unreadable => None,
        Place::Zeros { count } => Some(repeated(Scalar { bits: 0 }, count)),
        Place::Items { buffer, start, end, stride, component } => {
            proof {
                items_at_a_place(document, accessor, role, rows(buffers@), place, 1);
            }
            assert(rows(buffers@)[buffer as int] == buffers@[buffer as int]@);
            let bytes = copy_range(buffers[buffer].as_slice(), start, end);
            let values = visit_times(bytes.as_slice(), stride);
            Some(values)
        },
    }
}

/// The matrices at a place.
fn matrices_at(
    place: Place,
    buffers: &Vec<Vec<u8>>,
    Ghost(document): Ghost<gltf::Document>,
    Ghost(accessor): Ghost<usize>,
    Ghost(role): Ghost<AccessorRole>,
) -> (values: Option<Vec<[[Scalar; 4]; 4]>>)
    requires
        is_place(document, accessor, role, rows(buffers@), place),
        place !is Unreadable,
        role == AccessorRole::Matrix,
    ensures
        is_read(document, Some(accessor), role, rows(buffers@), counted(values)),
        values matches Some(values) ==> are_stored_floats(
            document,
            Some(accessor),
            role,
            rows(buffers@),
            16,
            |i: int, c: int| values@[i][c / 4][c % 4],
        ),
{
    match place {
        Place::Nowhere | Place::Unreadable => None,
        Place::Zeros { count } => Some(repeated([[Scalar { bits: 0 }; 4]; 4], count)),
        Place::Items { buffer, start, end, stride, component } => {
            proof {
                items_at_a_place(document, accessor, role, rows(buffers@), place, 16);
            }
            assert(rows(buffers@)[buffer as int] == buffers@[buffer as int]@);
            let bytes = copy_range(buffers[buffer].as_slice(), start, end);
            let values = visit_matrices(bytes.as_slice(), stride);
            Some(values)
        },
    }
}

/// The texture coordinates at a place.
fn tex_coords_at(
    place: Place,
    buffers: &Vec<Vec<u8>>,
    Ghost(document): Ghost<gltf::Document>,
    Ghost(accessor): Ghost<usize>,
    Ghost(role): Ghost<AccessorRole>,
) -> (values: Option<Vec<[Scalar; 2]>>)
    requires
        is_place(document, accessor, role, rows(buffers@), place),
        place !is Unreadable,
        role == AccessorRole::TexCoords,
    ensures
        is_read(document, Some(accessor), role, rows(buffers@), counted(values)),
        values matches Some(values) ==> are_stored_floats(
            document,
            Some(accessor),
            role,
            rows(buffers@),
            2,
            |i: int, c: int| values@[i][c],
        ),
{
    match place {
        Place::Nowhere | Place::Unreadable => None,
        Place::Zeros { count } => Some(repeated([Scalar { bits: 0 }; 2], count)),
        Place::Items { buffer, start, end, stride, component } => {
            proof {
                items_at_a_place(document, accessor, role, rows(buffers@), place, 2);
            }
            assert(rows(buffers@)[buffer as int] == buffers@[buffer as int]@);
            let bytes = copy_range(buffers[buffer].as_slice(), start, end);
            let values = visit_tex_coords(bytes.as_slice(), stride, component);
            Some(values)
        },
    }
}

/// The joint indices at a place.
fn joints_at(
    place: Place,
    buffers: &Vec<Vec<u8>>,
    Ghost(document): Ghost<gltf::Document>,
    Ghost(accessor): Ghost<usize>,
    Ghost(role): Ghost<AccessorRole>,
) -> (values: Option<Vec<[u16; 4]>>)
    requires
        is_place(document, accessor, role, rows(buffers@), place),
        place !is Unreadable,
        role == AccessorRole::Joints,
    ensures
        is_read(document, Some(accessor), role, rows(buffers@), counted(values)),
        values matches Some(values) ==> are_stored_numbers(
            document,
            Some(accessor),
            role,
            rows(buffers@),
            4,
            |i: int, c: int| values@[i][c] as int,
        ),
{
    match place {
        Place::Nowhere | Place::Unreadable => None,
        Place::Zeros { count } => Some(repeated([0u16; 4], count)),
        Place::Items { buffer, start, end, stride, component } => {
            proof {
                items_at_a_place(document, accessor, role, rows(buffers@), place, 4);
            }
            assert(rows(buffers@)[buffer as int] == buffers@[buffer as int]@);
            let bytes = copy_range(buffers[buffer].as_slice(), start, end);
            let values = visit_joints(bytes.as_slice(), stride, component);
            Some(values)
        },
    }
}

/// The joint weights at a place.
fn weights_at(
    place: Place,
    buffers: &Vec<Vec<u8>>,
    Ghost(document): Ghost<gltf::Document>,
    Ghost(accessor): Ghost<usize>,
    Ghost(role): Ghost<AccessorRole>,
) -> (values: Option<Vec<[Scalar; 4]>>)
    requires
        is_place(document, accessor, role, rows(buffers@), place),
        place !is Unreadable,
        role == AccessorRole::Weights,
    ensures
        is_read(document, Some(accessor), role, rows(buffers@), counted(values)),
        values matches Some(values) ==> are_stored_floats(
            document,
            Some(accessor),
            role,
            rows(buffers@),
            4,
            |i: int, c: int| values@[i][c],
        ),
{
    match place {
        Place::Nowhere | Place::Unreadable => None,
        Place::Zeros { count } => Some(repeated([Scalar { bits: 0 }; 4], count)),
        Place::Items { buffer, start, end, stride, component } => {
            proof {
                items_at_a_place(document, accessor, role, rows(buffers@), place, 4);
            }
            assert(rows(buffers@)[buffer as int] == buffers@[buffer as int]@);
            let bytes = copy_range(buffers[buffer].as_slice(), start, end);
            let values = visit_weights(bytes.as_slice(), stride, component);
            Some(values)
        },
    }
}

/// The vertex indices at a place.
fn indices_at(
    place: Place,
    buffers: &Vec<Vec<u8>>,
    Ghost(document): Ghost<gltf::Document>,
    Ghost(accessor): Ghost<usize>,
    Ghost(role): Ghost<AccessorRole>,
) -> (values: Option<Vec<u32>>)
    requires
        is_place(document, accessor, role, rows(buffers@), place),
        place !is Unreadable,
        role == AccessorRole::Indices,
    ensures
        is_read(document, Some(accessor), role, rows(buffers@), counted(values)),
        values matches Some(values) ==> are_stored_numbers(
            document,
            Some(accessor),
            role,
            rows(buffers@),
            1,
            |i: int, c: int| values@[i] as int,
        ),
{
    match place {
        Place::Nowhere | Place::Unreadable => None,
        Place::Zeros { count } => Some(repeated(0u32, count)),
        Place::Items { buffer, start, end, stride, component } => {
            proof {
                items_at_a_place(document, accessor, role, rows(buffers@), place, 1);
            }
            assert(rows(buffers@)[buffer as int] == buffers@[buffer as int]@);
            let bytes = copy_range(buffers[buffer].as_slice(), start, end);
            let values = visit_indices(bytes.as_slice(), stride, component);
            Some(values)
        },
    }
}

/// The rotations at a place.
fn rotations_at(
    place: Place,
    buffers: &Vec<Vec<u8>>,
    Ghost(document): Ghost<gltf::Document>,
    Ghost(accessor): Ghost<usize>,
    Ghost(role): Ghost<AccessorRole>,
) -> (values: Option<Vec<[Scalar; 4]>>)
    requires
        is_place(document, accessor, role, rows(buffers@), place),
        place !is Unreadable,
        role == AccessorRole::Output(SourceProperty::Rotation),
    ensures
        is_read(document, Some(accessor), role, rows(buffers@), counted(values)),
        values matches Some(values) ==> are_stored_floats(
            document,
            Some(accessor),
            role,
            rows(buffers@),
            4,
            |i: int, c: int| values@[i][c],
        ),
{
    match place {
        Place::Nowhere | Place::Unreadable => None,
        Place::Zeros { count } => Some(repeated([Scalar { bits: 0 }; 4], count)),
        Place::Items { buffer, start, end, stride, component } => {
            proof {
                items_at_a_place(document, accessor, role, rows(buffers@), place, 4);
            }
            assert(rows(buffers@)[buffer as int] == buffers@[buffer as int]@);
            let bytes = copy_range(buffers[buffer].as_slice(), start, end);
            let values = visit_rotations(bytes.as_slice(), stride, component);
            Some(values)
        },
    }
}

/// Whether `values` are the positions of a primitive.
pub open spec fn are_positions(
    document: gltf::Document,
    buffers: Seq<Seq<u8>>,
    mesh: int,
    primitive: int,
    values: Option<Vec<[Scalar; 3]>>,
) -> bool {
    let accessor = attributes_of(document, mesh, primitive).positions;
    &&& is_readable(document, accessor, AccessorRole::Vector) ==> items(values) == vertex_positions(
        document,
        buffers,
        mesh,
        primitive,
    )
    &&& if is_unreadable(document, accessor, AccessorRole::Vector, buffers) {
        values is None
    } else {
        holds_vectors(document, accessor, buffers, values)
    }
}

/// Whether `values` are the normals of a primitive.
pub open spec fn are_normals(
    document: gltf::Document,
    buffers: Seq<Seq<u8>>,
    mesh: int,
    primitive: int,
    values: Option<Vec<[Scalar; 3]>>,
) -> bool {
    let accessor = attributes_of(document, mesh, primitive).normals;
    &&& is_readable(document, accessor, AccessorRole::Vector) ==> items(values) == vertex_normals(
        document,
        buffers,
        mesh,
        primitive,
    )
    &&& if is_unreadable(document, accessor, AccessorRole::Vector, buffers) {
        values is None
    } else {
        holds_vectors(document, accessor, buffers, values)
    }
}

/// Whether `values` are the texture coordinates of a set of a primitive.
pub open spec fn are_tex_coords(
    document: gltf::Document,
    buffers: Seq<Seq<u8>>,
    mesh: int,
    primitive: int,
    set: u32,
    values: Option<Vec<[Scalar; 2]>>,
) -> bool {
    let accessor = tex_coord_accessor(document, mesh, primitive, set);
    &&& is_readable(document, accessor, AccessorRole::TexCoords) ==> items(values)
        == vertex_tex_coords(document, buffers, mesh, primitive, set)
    &&& if is_unreadable(document, accessor, AccessorRole::TexCoords, buffers) {
        values is None
    } else {
        holds_tex_coords(document, accessor, buffers, values)
    }
}

/// Whether `values` are the joint indices of a primitive.
pub open spec fn are_joints(
    document: gltf::Document,
    buffers: Seq<Seq<u8>>,
    mesh: int,
    primitive: int,
    values: Option<Vec<[u16; 4]>>,
) -> bool {
    let accessor = attributes_of(document, mesh, primitive).joints;
    &&& is_readable(document, accessor, AccessorRole::Joints) ==> items(values) == vertex_joints(
        document,
        buffers,
        mesh,
        primitive,
    )
    &&& if is_unreadable(document, accessor, AccessorRole::Joints, buffers) {
        values is None
    } else {
        holds_joints(document, accessor, buffers, values)
    }
}

/// Whether `values` are the joint weights of a primitive.
pub open spec fn are_weights(
    document: gltf::Document,
    buffers: Seq<Seq<u8>>,
    mesh: int,
    primitive: int,
    values: Option<Vec<[Scalar; 4]>>,
) -> bool {
    let accessor = attributes_of(document, mesh, primitive).weights;
    &&& is_readable(document, accessor, AccessorRole::Weights) ==> items(values) == vertex_weights(
        document,
        buffers,
        mesh,
        primitive,
    )
    &&& if is_unreadable(document, accessor, AccessorRole::Weights, buffers) {
        values is None
    } else {
        holds_weights(document, accessor, buffers, values)
    }
}

/// Whether `values` are the vertex indices of a primitive.
pub open spec fn are_indices(
    document: gltf::Document,
    buffers: Seq<Seq<u8>>,
    mesh: int,
    primitive: int,
    values: Option<Vec<u32>>,
) -> bool {
    let accessor = attributes_of(document, mesh, primitive).indices;
    &&& is_readable(document, accessor, AccessorRole::Indices) ==> items(values) == vertex_indices(
        document,
        buffers,
        mesh,
        primitive,
    )
    &&& if is_unreadable(document, accessor, AccessorRole::Indices, buffers) {
        values is None
    } else {
        holds_indices(document, accessor, buffers, values)
    }
}

/// Whether `values` are the displacements of an accessor of a morph target.
pub open spec fn are_displacements(
    document: gltf::Document,
    buffers: Seq<Seq<u8>>,
    accessor: Option<usize>,
    values: Option<Vec<[Scalar; 3]>>,
) -> bool {
    &&& is_readable(document, accessor, AccessorRole::Vector) ==> items(values)
        == accessor_vectors(document, buffers, accessor->Some_0 as int)
    &&& if is_unreadable(document, accessor, AccessorRole::Vector, buffers) {
        values is None
    } else {
        holds_vectors(document, accessor, buffers, values)
    }
}

/// Whether `target` holds the displacements of a morph target.
pub open spec fn is_target_of(
    document: gltf::Document,
    buffers: Seq<Seq<u8>>,
    morph: MorphAccessors,
    target: SourceTarget,
) -> bool {
    &&& are_displacements(document, buffers, morph.positions, target.positions)
    &&& are_displacements(document, buffers, morph.normals, target.normals)
}

/// What cannot be read of morph target `target`.
pub open spec fn unreadable_morph(
    document: gltf::Document,
    buffers: Seq<Seq<u8>>,
    morphs: Seq<MorphAccessors>,
    target: int,
) -> Option<Attribute> {
    if is_unreadable(document, morphs[target].positions, AccessorRole::Vector, buffers) {
        Some(Attribute::MorphPosition { target: target as usize })
    } else if is_unreadable(document, morphs[target].normals, AccessorRole::Vector, buffers) {
        Some(Attribute::MorphNormal { target: target as usize })
    } else {
        None
    }
}

/// The first attribute of a primitive that cannot be read, its morph targets
/// last.
pub open spec fn unreadable_attribute(
    document: gltf::Document,
    buffers: Seq<Seq<u8>>,
    attributes: AttributeAccessors,
    morphs: Seq<MorphAccessors>,
) -> Option<Attribute> {
    if is_unreadable(document, attributes.positions, AccessorRole::Vector, buffers) {
        Some(Attribute::Position)
    } else if is_unreadable(document, attributes.normals, AccessorRole::Vector, buffers) {
        Some(Attribute::Normal)
    } else if is_unreadable(document, attributes.tex_coords0, AccessorRole::TexCoords, buffers) {
        Some(Attribute::TexCoord0)
    } else if is_unreadable(document, attributes.tex_coords1, AccessorRole::TexCoords, buffers) {
        Some(Attribute::TexCoord1)
    } else if is_unreadable(document, attributes.joints, AccessorRole::Joints, buffers) {
        Some(Attribute::Joints0)
    } else if is_unreadable(document, attributes.weights, AccessorRole::Weights, buffers) {
        Some(Attribute::Weights0)
    } else if is_unreadable(document, attributes.indices, AccessorRole::Indices, buffers) {
        Some(Attribute::Indices)
    } else {
        first_some(morphs.len(), |target: int| unreadable_morph(document, buffers, morphs, target))
    }
}

/// Whether `read` is a primitive with its values; `span` measures how far the
/// first set of texture coordinates spreads.
pub open spec fn is_primitive_of<G: Fn(&Vec<[Scalar; 2]>) -> [Scalar; 2]>(
    document: gltf::Document,
    buffers: Seq<Seq<u8>>,
    span: G,
    mesh: int,
    primitive: int,
    read: SourcePrimitive,
) -> bool {
    &&& read.material == document_meshes(document)[mesh][primitive]
    &&& are_positions(document, buffers, mesh, primitive, read.positions)
    &&& are_normals(document, buffers, mesh, primitive, read.normals)
    &&& are_tex_coords(document, buffers, mesh, primitive, 0, read.tex_coords0)
    &&& are_tex_coords(document, buffers, mesh, primitive, 1, read.tex_coords1)
    &&& are_joints(document, buffers, mesh, primitive, read.joints)
    &&& are_weights(document, buffers, mesh, primitive, read.weights)
    &&& are_indices(document, buffers, mesh, primitive, read.indices)
    &&& read.targets@.len() == document_morphs(document)[mesh][primitive].len()
    &&& forall|t: int|
        0 <= t < read.targets@.len() ==> is_target_of(
            document,
            buffers,
            document_morphs(document)[mesh][primitive][t],
            #[trigger] read.targets@[t],
        )
    &&& read.unreadable == unreadable_attribute(
        document,
        buffers,
        attributes_of(document, mesh, primitive),
        document_morphs(document)[mesh][primitive],
    )
    &&& read.tex_coords0 matches Some(coordinates) ==> call_ensures(
        span,
        (&coordinates,),
        read.tex_coord_span,
    )
}

impl Accessors {
    /// The vectors of an accessor that is not handed to a reader.
    fn visit_vectors(
        &self,
        accessor: Option<usize>,
        buffers: &Vec<Vec<u8>>,
        Ghost(document): Ghost<gltf::Document>,
    ) -> (values: Option<Vec<[Scalar; 3]>>)
        requires
            self.describes(document),
            names_one(accessor, document_accessors(document).len()),
            !is_readable(document, accessor, AccessorRole::Vector),
        ensures
            if is_unreadable(document, accessor, AccessorRole::Vector, rows(buffers@)) {
                values is None
            } else {
                holds_vectors(document, accessor, rows(buffers@), values)
            },
    {
        let role = AccessorRole::Vector;
        let index: usize = accessor?;
        match self.place(index, role, buffers, Ghost(document)) {
            Place::Unreadable => None,
            place => vectors_at(place, buffers, Ghost(document), Ghost(index), Ghost(role)),
        }
    }

    /// The texture coordinates of an accessor that is not handed to a reader.
    fn visit_tex_coords(
        &self,
        accessor: Option<usize>,
        buffers: &Vec<Vec<u8>>,
        Ghost(document): Ghost<gltf::Document>,
    ) -> (values: Option<Vec<[Scalar; 2]>>)
        requires
            self.describes(document),
            names_one(accessor, document_accessors(document).len()),
            !is_readable(document, accessor, AccessorRole::TexCoords),
        ensures
            if is_unreadable(document, accessor, AccessorRole::TexCoords, rows(buffers@)) {
                values is None
            } else {
                holds_tex_coords(document, accessor, rows(buffers@), values)
            },
    {
        let role = AccessorRole::TexCoords;
        let index: usize = accessor?;
        match self.place(index, role, buffers, Ghost(document)) {
            Place::Unreadable => None,
            place => tex_coords_at(place, buffers, Ghost(document), Ghost(index), Ghost(role)),
        }
    }

    /// The joint indices of an accessor that is not handed to a reader.
    fn visit_joints(
        &self,
        accessor: Option<usize>,
        buffers: &Vec<Vec<u8>>,
        Ghost(document): Ghost<gltf::Document>,
    ) -> (values: Option<Vec<[u16; 4]>>)
        requires
            self.describes(document),
            names_one(accessor, document_accessors(document).len()),
            !is_readable(document, accessor, AccessorRole::Joints),
        ensures
            if is_unreadable(document, accessor, AccessorRole::Joints, rows(buffers@)) {
                values is None
            } else {
                holds_joints(document, accessor, rows(buffers@), values)
            },
    {
        let role = AccessorRole::Joints;
        let index: usize = accessor?;
        match self.place(index, role, buffers, Ghost(document)) {
            Place::Unreadable => None,
            place => joints_at(place, buffers, Ghost(document), Ghost(index), Ghost(role)),
        }
    }

    /// The joint weights of an accessor that is not handed to a reader.
    fn visit_weights(
        &self,
        accessor: Option<usize>,
        buffers: &Vec<Vec<u8>>,
        Ghost(document): Ghost<gltf::Document>,
    ) -> (values: Option<Vec<[Scalar; 4]>>)
        requires
            self.describes(document),
            names_one(accessor, document_accessors(document).len()),
            !is_readable(document, accessor, AccessorRole::Weights),
        ensures
            if is_unreadable(document, accessor, AccessorRole::Weights, rows(buffers@)) {
                values is None
            } else {
                holds_weights(document, accessor, rows(buffers@), values)
            },
    {
        let role = AccessorRole::Weights;
        let index: usize = accessor?;
        match self.place(index, role, buffers, Ghost(document)) {
            Place::Unreadable => None,
            place => weights_at(place, buffers, Ghost(document), Ghost(index), Ghost(role)),
        }
    }

    /// The vertex indices of an accessor that is not handed to a reader.
    fn visit_indices(
        &self,
        accessor: Option<usize>,
        buffers: &Vec<Vec<u8>>,
        Ghost(document): Ghost<gltf::Document>,
    ) -> (values: Option<Vec<u32>>)
        requires
            self.describes(document),
            names_one(accessor, document_accessors(document).len()),
            !is_readable(document, accessor, AccessorRole::Indices),
        ensures
            if is_unreadable(document, accessor, AccessorRole::Indices, rows(buffers@)) {
                values is None
            } else {
                holds_indices(document, accessor, rows(buffers@), values)
            },
    {
        let role = AccessorRole::Indices;
        let index: usize = accessor?;
        match self.place(index, role, buffers, Ghost(document)) {
            Place::Unreadable => None,
            place => indices_at(place, buffers, Ghost(document), Ghost(index), Ghost(role)),
        }
    }

    /// The matrices of an accessor that is not handed to a reader.
    fn visit_matrices(
        &self,
        accessor: Option<usize>,
        buffers: &Vec<Vec<u8>>,
        Ghost(document): Ghost<gltf::Document>,
    ) -> (values: Option<Vec<[[Scalar; 4]; 4]>>)
        requires
            self.describes(document),
            names_one(accessor, document_accessors(document).len()),
            !is_readable(document, accessor, AccessorRole::Matrix),
        ensures
            if is_unreadable(document, accessor, AccessorRole::Matrix, rows(buffers@)) {
                values is None
            } else {
                holds_matrices(document, accessor, rows(buffers@), values)
            },
    {
        let role = AccessorRole::Matrix;
        let index: usize = accessor?;
        match self.place(index, role, buffers, Ghost(document)) {
            Place::Unreadable => None,
            place => matrices_at(place, buffers, Ghost(document), Ghost(index), Ghost(role)),
        }
    }
}

impl Accessors {
    fn displacements(
        &self,
        document: &gltf::Document,
        buffers: &Vec<Vec<u8>>,
        accessor: Option<usize>,
    ) -> (values: Option<Vec<[Scalar; 3]>>)
        requires
            self.describes(*document),
            valid_document(*document),
            names_one(accessor, document_accessors(*document).len()),
        ensures
            are_displacements(*document, rows(buffers@), accessor, values),
    {
        match accessor {
            Some(index) if self.readable(accessor, AccessorRole::Vector, Ghost(*document)) => {
                read_displacements(document, buffers, index)
            },
            _ => self.visit_vectors(accessor, buffers, Ghost(*document)),
        }
    }

    fn read_targets(
        &self,
        document: &gltf::Document,
        buffers: &Vec<Vec<u8>>,
        morphs: &Vec<MorphAccessors>,
    ) -> (targets: Vec<SourceTarget>)
        requires
            self.describes(*document),
            valid_document(*document),
            forall|t: int|
                0 <= t < morphs@.len() ==> is_listed_morph(
                    #[trigger] morphs@[t],
                    document_accessors(*document).len(),
                ),
        ensures
            targets@.len() == morphs@.len(),
            forall|t: int|
                0 <= t < targets@.len() ==> is_target_of(
                    *document,
                    rows(buffers@),
                    morphs@[t],
                    #[trigger] targets@[t],
                ),
    {
        let mut targets: Vec<SourceTarget> = Vec::new();
        let mut t: usize = 0;
        while t < morphs.len()
            invariant
                self.describes(*document),
                valid_document(*document),
                forall|t: int|
                    0 <= t < morphs@.len() ==> is_listed_morph(
                        #[trigger] morphs@[t],
                        document_accessors(*document).len(),
                    ),
                t <= morphs@.len(),
                targets@.len() == t,
                forall|u: int|
                    0 <= u < t ==> is_target_of(
                        *document,
                        rows(buffers@),
                        morphs@[u],
                        #[trigger] targets@[u],
                    ),
            decreases morphs@.len() - t,
        {
            let morph = morphs[t];
            let positions = self.displacements(document, buffers, morph.positions);
            let normals = self.displacements(document, buffers, morph.normals);
            targets.push(SourceTarget { positions, normals });
            t += 1;
        }
        targets
    }

    fn find_unreadable(
        &self,
        attributes: AttributeAccessors,
        morphs: &Vec<MorphAccessors>,
        buffers: &Vec<Vec<u8>>,
        Ghost(document): Ghost<gltf::Document>,
    ) -> (found: Option<Attribute>)
        requires
            self.describes(document),
            are_listed(attributes, document_accessors(document).len()),
            forall|t: int|
                0 <= t < morphs@.len() ==> is_listed_morph(
                    #[trigger] morphs@[t],
                    document_accessors(document).len(),
                ),
        ensures
            found == unreadable_attribute(document, rows(buffers@), attributes, morphs@),
    {
        let seen = Ghost(document);
        if self.unreadable(attributes.positions, AccessorRole::Vector, buffers, seen) {
            return Some(Attribute::Position);
        }
        if self.unreadable(attributes.normals, AccessorRole::Vector, buffers, seen) {
            return Some(Attribute::Normal);
        }
        if self.unreadable(attributes.tex_coords0, AccessorRole::TexCoords, buffers, seen) {
            return Some(Attribute::TexCoord0);
        }
        if self.unreadable(attributes.tex_coords1, AccessorRole::TexCoords, buffers, seen) {
            return Some(Attribute::TexCoord1);
        }
        if self.unreadable(attributes.joints, AccessorRole::Joints, buffers, seen) {
            return Some(Attribute::Joints0);
        }
        if self.unreadable(attributes.weights, AccessorRole::Weights, buffers, seen) {
            return Some(Attribute::Weights0);
        }
        if self.unreadable(attributes.indices, AccessorRole::Indices, buffers, seen) {
            return Some(Attribute::Indices);
        }
        let ghost check = |target: int| unreadable_morph(document, rows(buffers@), morphs@, target);
        let mut t: usize = 0;
        while t < morphs.len()
            invariant
                self.describes(document),
                seen == Ghost(document),
                forall|t: int|
                    0 <= t < morphs@.len() ==> is_listed_morph(
                        #[trigger] morphs@[t],
                        document_accessors(document).len(),
                    ),
                check == (|target: int|
                    unreadable_morph(document, rows(buffers@), morphs@, target)),
                unreadable_attribute(document, rows(buffers@), attributes, morphs@) == first_some(
                    morphs@.len(),
                    check,
                ),
                t <= morphs@.len(),
                first_some(t as nat, check) is None,
            decreases morphs@.len() - t,
        {
            let morph = morphs[t];
            let found = if self.unreadable(morph.positions, AccessorRole::Vector, buffers, seen) {
                Some(Attribute::MorphPosition { target: t })
            } else if self.unreadable(morph.normals, AccessorRole::Vector, buffers, seen) {
                Some(Attribute::MorphNormal { target: t })
            } else {
                None
            };
            assert(found == check(t as int));
            if found.is_some() {
                proof {
                    first_some_stays((t + 1) as nat, morphs@.len(), check);
                }
                return found;
            }
            t += 1;
        }
        None
    }

    fn read_primitive<G: Fn(&Vec<[Scalar; 2]>) -> [Scalar; 2]>(
        &self,
        document: &gltf::Document,
        buffers: &Vec<Vec<u8>>,
        mesh: usize,
        primitive: usize,
        attributes: AttributeAccessors,
        morphs: &Vec<MorphAccessors>,
        material: Option<usize>,
        span: &G,
    ) -> (read: SourcePrimitive)
        requires
            self.describes(*document),
            valid_document(*document),
            has_primitive(*document, mesh as int, primitive as int),
            attributes == attributes_of(*document, mesh as int, primitive as int),
            are_listed(attributes, document_accessors(*document).len()),
            material == document_meshes(*document)[mesh as int][primitive as int],
            mesh < document_morphs(*document).len(),
            primitive < document_morphs(*document)[mesh as int].len(),
            morphs@ == document_morphs(*document)[mesh as int][primitive as int],
            forall|t: int|
                0 <= t < morphs@.len() ==> is_listed_morph(
                    #[trigger] morphs@[t],
                    document_accessors(*document).len(),
                ),
            forall|coordinates: &Vec<[Scalar; 2]>| call_requires(*span, (coordinates,)),
        ensures
            is_primitive_of(
                *document,
                rows(buffers@),
                *span,
                mesh as int,
                primitive as int,
                read,
            ),
    {
        let ghost seen = *document;
        let positions = if self.readable(attributes.positions, AccessorRole::Vector, Ghost(seen)) {
            read_positions(document, buffers, mesh, primitive)
        } else {
            self.visit_vectors(attributes.positions, buffers, Ghost(seen))
        };
        let normals = if self.readable(attributes.normals, AccessorRole::Vector, Ghost(seen)) {
            read_normals(document, buffers, mesh, primitive)
        } else {
            self.visit_vectors(attributes.normals, buffers, Ghost(seen))
        };
        let tex_coords0 = if self.readable(
            attributes.tex_coords0,
            AccessorRole::TexCoords,
            Ghost(seen),
        ) {
            read_tex_coords(document, buffers, mesh, primitive, 0)
        } else {
            self.visit_tex_coords(attributes.tex_coords0, buffers, Ghost(seen))
        };
        let tex_coords1 = if self.readable(
            attributes.tex_coords1,
            AccessorRole::TexCoords,
            Ghost(seen),
        ) {
            read_tex_coords(document, buffers, mesh, primitive, 1)
        } else {
            self.visit_tex_coords(attributes.tex_coords1, buffers, Ghost(seen))
        };
        let joints = if self.readable(attributes.joints, AccessorRole::Joints, Ghost(seen)) {
            read_joints(document, buffers, mesh, primitive)
        } else {
            self.visit_joints(attributes.joints, buffers, Ghost(seen))
        };
        let weights = if self.readable(attributes.weights, AccessorRole::Weights, Ghost(seen)) {
            read_weights(document, buffers, mesh, primitive)
        } else {
            self.visit_weights(attributes.weights, buffers, Ghost(seen))
        };
        let indices = if self.readable(attributes.indices, AccessorRole::Indices, Ghost(seen)) {
            read_indices(document, buffers, mesh, primitive)
        } else {
            self.visit_indices(attributes.indices, buffers, Ghost(seen))
        };
        let targets = self.read_targets(document, buffers, morphs);
        let unreadable = self.find_unreadable(attributes, morphs, buffers, Ghost(seen));
        let tex_coord_span = match &tex_coords0 {
            Some(coordinates) => span(coordinates),
            None => [Scalar::zero(), Scalar::zero()],
        };
        SourcePrimitive {
            material,
            positions,
            normals,
            tex_coords0,
            tex_coords1,
            joints,
            weights,
            indices,
            targets,
            tex_coord_span,
            unreadable,
        }
    }
}

/// Whether `flat` holds the columns of `matrix` one after the other.
pub open spec fn is_flattened(matrix: [[Scalar; 4]; 4], flat: [Scalar; 16]) -> bool {
    forall|c: int| 0 <= c < 16 ==> #[trigger] flat[c] == matrix[c / 4][c % 4]
}

/// Whether `flat` are `matrices`, column by column.
pub open spec fn are_flattened(
    matrices: Option<Seq<[[Scalar; 4]; 4]>>,
    flat: Option<Vec<[Scalar; 16]>>,
) -> bool {
    match (matrices, flat) {
        (Some(matrices), Some(flat)) => {
            &&& flat@.len() == matrices.len()
            &&& forall|i: int|
                0 <= i < flat@.len() ==> is_flattened(matrices[i], #[trigger] flat@[i])
        },
        (None, None) => true,
        _ => false,
    }
}

/// Whether `read` is a skin with its matrices.
pub open spec fn is_skin_of(
    document: gltf::Document,
    buffers: Seq<Seq<u8>>,
    skin: int,
    read: SourceSkin,
) -> bool {
    &&& read.joints@ == document_skins(document)[skin]
    &&& read.unreadable == is_unreadable(
        document,
        document_binds(document)[skin],
        AccessorRole::Matrix,
        buffers,
    )
    &&& is_readable(document, document_binds(document)[skin], AccessorRole::Matrix)
        ==> are_flattened(bind_matrices(document, buffers, skin), read.inverse_bind)
    &&& if read.unreadable {
        read.inverse_bind is None
    } else {
        is_read(
            document,
            document_binds(document)[skin],
            AccessorRole::Matrix,
            buffers,
            counted(read.inverse_bind),
        ) && (read.inverse_bind matches Some(flat) ==> are_stored_floats(
            document,
            document_binds(document)[skin],
            AccessorRole::Matrix,
            buffers,
            16,
            |i: int, c: int| flat@[i][c],
        ))
    }
}

/// Whether `values` are the times of a channel's keys.
pub open spec fn are_times(
    document: gltf::Document,
    buffers: Seq<Seq<u8>>,
    animation: int,
    channel: int,
    values: Option<Vec<Scalar>>,
) -> bool {
    let accessor = keys_of(document, animation, channel).input;
    &&& is_readable(document, Some(accessor), AccessorRole::Time) ==> items(values) == key_times(
        document,
        buffers,
        animation,
        channel,
    )
    &&& if is_unreadable(document, Some(accessor), AccessorRole::Time, buffers) {
        values is None
    } else {
        holds_times(document, accessor, buffers, values)
    }
}

/// Whether `outputs` are the values of a channel's keys.
pub open spec fn are_key_outputs(
    document: gltf::Document,
    buffers: Seq<Seq<u8>>,
    animation: int,
    channel: int,
    outputs: Option<SourceOutputs>,
) -> bool {
    let accessor = keys_of(document, animation, channel).output;
    let property = document_targets(document)[animation][channel].property;
    let role = AccessorRole::Output(property);
    &&& is_readable(document, Some(accessor), role) ==> outputs_view(outputs) == key_outputs(
        document,
        buffers,
        animation,
        channel,
    )
    &&& if is_unreadable(document, Some(accessor), role, buffers) {
        outputs is None
    } else {
        holds_outputs(document, accessor, property, buffers, outputs)
    }
}

/// Whether `lengths` are the squared lengths of the rotations among `outputs`,
/// as `length_squared` measures them.
pub open spec fn are_lengths<F: Fn([Scalar; 4]) -> Scalar>(
    length_squared: F,
    outputs: Option<SourceOutputs>,
    lengths: Seq<Scalar>,
) -> bool {
    match outputs {
        Some(SourceOutputs::Rotations(rotations)) => {
            &&& lengths.len() == rotations@.len()
            &&& forall|i: int|
                0 <= i < lengths.len() ==> call_ensures(
                    length_squared,
                    (rotations@[i],),
                    #[trigger] lengths[i],
                )
        },
        _ => lengths.len() == 0,
    }
}

/// Whether `read` is a channel with its values.
pub open spec fn is_channel_of<F: Fn([Scalar; 4]) -> Scalar>(
    document: gltf::Document,
    buffers: Seq<Seq<u8>>,
    length_squared: F,
    animation: int,
    channel: int,
    read: SourceChannel,
) -> bool {
    &&& read.target == document_targets(document)[animation][channel]
    &&& read.sampler == document_samplers(document)[animation][channel]
    &&& read.output_dimensions == document_outputs(document)[animation][channel]
    &&& are_times(document, buffers, animation, channel, read.times)
    &&& are_key_outputs(document, buffers, animation, channel, read.outputs)
    &&& are_lengths(length_squared, read.outputs, read.lengths_squared@)
}

/// Whether `model` is what `document` and its buffers hold. `length_squared`
/// measures rotations, `span` texture coordinates.
pub open spec fn is_model_of<
    F: Fn([Scalar; 4]) -> Scalar,
    G: Fn(&Vec<[Scalar; 2]>) -> [Scalar; 2],
>(
    document: gltf::Document,
    buffers: Seq<Seq<u8>>,
    length_squared: F,
    span: G,
    model: SourceModel,
) -> bool {
    &&& has_scene_of(document, model)
    &&& model.skins@.len() == document_skins(document).len()
    &&& forall|i: int|
        0 <= i < model.skins@.len() ==> is_skin_of(
            document,
            buffers,
            i,
            #[trigger] model.skins@[i],
        )
    &&& model.meshes@.len() == document_meshes(document).len()
    &&& forall|i: int|
        0 <= i < model.meshes@.len() ==> (#[trigger] model.meshes@[i])@.len() == document_meshes(
            document,
        )[i].len()
    &&& forall|i: int, k: int|
        0 <= i < model.meshes@.len() && 0 <= k < model.meshes@[i]@.len() ==> is_primitive_of(
            document,
            buffers,
            span,
            i,
            k,
            #[trigger] model.meshes@[i]@[k],
        )
    &&& model.animations@.len() == document_targets(document).len()
    &&& forall|i: int|
        0 <= i < model.animations@.len() ==> text_of((#[trigger] model.animations@[i]).name)
            == document_animation_names(document)[i] && model.animations@[i].channels@.len()
            == document_targets(document)[i].len()
    &&& forall|i: int, k: int|
        0 <= i < model.animations@.len() && 0 <= k < model.animations@[i].channels@.len()
            ==> is_channel_of(
            document,
            buffers,
            length_squared,
            i,
            k,
            #[trigger] model.animations@[i].channels@[k],
        )
}

fn flatten_matrix(matrix: &[[Scalar; 4]; 4]) -> (flat: [Scalar; 16])
    ensures
        is_flattened(*matrix, flat),
{
    let (a, b, c, d) = (&matrix[0], &matrix[1], &matrix[2], &matrix[3]);
    [
        a[0],
        a[1],
        a[2],
        a[3],
        b[0],
        b[1],
        b[2],
        b[3],
        c[0],
        c[1],
        c[2],
        c[3],
        d[0],
        d[1],
        d[2],
        d[3],
    ]
}

fn flatten_matrices(matrices: &Vec<[[Scalar; 4]; 4]>) -> (flat: Vec<[Scalar; 16]>)
    ensures
        flat@.len() == matrices@.len(),
        forall|i: int| 0 <= i < flat@.len() ==> is_flattened(matrices@[i], #[trigger] flat@[i]),
{
    let mut flat: Vec<[Scalar; 16]> = Vec::new();
    let mut i: usize = 0;
    while i < matrices.len()
        invariant
            i <= matrices@.len(),
            flat@.len() == i,
            forall|k: int| 0 <= k < i ==> is_flattened(matrices@[k], #[trigger] flat@[k]),
        decreases matrices@.len() - i,
    {
        flat.push(flatten_matrix(&matrices[i]));
        i += 1;
    }
    flat
}

proof fn flat_floats_are_stored(
    document: gltf::Document,
    accessor: Option<usize>,
    buffers: Seq<Seq<u8>>,
    matrices: Seq<[[Scalar; 4]; 4]>,
    flat: Seq<[Scalar; 16]>,
)
    requires
        are_stored_floats(
            document,
            accessor,
            AccessorRole::Matrix,
            buffers,
            16,
            |i: int, c: int| matrices[i][c / 4][c % 4],
        ),
        accessor matches Some(accessor) ==> flat.len() == document_accessors(
            document,
        )[accessor as int].count,
        forall|i: int| 0 <= i < flat.len() ==> is_flattened(matrices[i], #[trigger] flat[i]),
    ensures
        are_stored_floats(
            document,
            accessor,
            AccessorRole::Matrix,
            buffers,
            16,
            |i: int, c: int| flat[i][c],
        ),
{
    let columns = |i: int, c: int| matrices[i][c / 4][c % 4];
    let floats = |i: int, c: int| flat[i][c];
    if let Some(accessor) = accessor {
        let count = document_accessors(document)[accessor as int].count;
        assert forall|i: int, c: int| 0 <= i < count && 0 <= c < 16 implies #[trigger] floats(i, c)
            == columns(i, c) by {
            assert(is_flattened(matrices[i], flat[i]));
        }
    }
}

fn measure<F: Fn([Scalar; 4]) -> Scalar>(
    outputs: &Option<SourceOutputs>,
    length_squared: &F,
) -> (lengths: Vec<Scalar>)
    requires
        forall|rotation: [Scalar; 4]| call_requires(*length_squared, (rotation,)),
    ensures
        are_lengths(*length_squared, *outputs, lengths@),
{
    let mut lengths: Vec<Scalar> = Vec::new();
    if let Some(SourceOutputs::Rotations(rotations)) = outputs {
        let mut i: usize = 0;
        while i < rotations.len()
            invariant
                forall|rotation: [Scalar; 4]| call_requires(*length_squared, (rotation,)),
                i <= rotations@.len(),
                lengths@.len() == i,
                forall|k: int|
                    0 <= k < i ==> call_ensures(
                        *length_squared,
                        (rotations@[k],),
                        #[trigger] lengths@[k],
                    ),
            decreases rotations@.len() - i,
        {
            lengths.push(length_squared(rotations[i]));
            i += 1;
        }
    }
    lengths
}

/// The outputs of a channel that drives `property`, at a place.
fn outputs_at(
    place: Place,
    property: SourceProperty,
    buffers: &Vec<Vec<u8>>,
    Ghost(document): Ghost<gltf::Document>,
    Ghost(accessor): Ghost<usize>,
) -> (outputs: Option<SourceOutputs>)
    requires
        is_place(document, accessor, AccessorRole::Output(property), rows(buffers@), place),
        place !is Unreadable,
        property != SourceProperty::Unknown,
    ensures
        holds_outputs(document, accessor, property, rows(buffers@), outputs),
{
    let ghost role = AccessorRole::Output(property);
    let (seen, index) = (Ghost(document), Ghost(accessor));
    match property {
        SourceProperty::Translation => {
            match vectors_at(place, buffers, seen, index, Ghost(role)) {
                Some(values) => Some(SourceOutputs::Translations(values)),
                None => None,
            }
        },
        SourceProperty::Scale => match vectors_at(place, buffers, seen, index, Ghost(role)) {
            Some(values) => Some(SourceOutputs::Scales(values)),
            None => None,
        },
        SourceProperty::Rotation => match rotations_at(place, buffers, seen, index, Ghost(role)) {
            Some(values) => Some(SourceOutputs::Rotations(values)),
            None => None,
        },
        _ => match place {
            Place::Nowhere | Place::Unreadable => None,
            _ => Some(SourceOutputs::MorphTargetWeights),
        },
    }
}

impl Accessors {
    fn read_skins(
        &self,
        document: &gltf::Document,
        buffers: &Vec<Vec<u8>>,
        bare: &Vec<SourceSkin>,
    ) -> (skins: Vec<SourceSkin>)
        requires
            self.describes(*document),
            valid_document(*document),
            bare@.len() == document_skins(*document).len(),
            forall|i: int|
                0 <= i < bare@.len() ==> (#[trigger] bare@[i]).joints@ == document_skins(
                    *document,
                )[i],
        ensures
            skins@.len() == bare@.len(),
            forall|i: int|
                0 <= i < skins@.len() ==> is_skin_of(
                    *document,
                    rows(buffers@),
                    i,
                    #[trigger] skins@[i],
                ),
    {
        let binds = list_binds(document);
        let mut skins: Vec<SourceSkin> = Vec::new();
        let mut i: usize = 0;
        while i < bare.len()
            invariant
                self.describes(*document),
                valid_document(*document),
                bare@.len() == document_skins(*document).len(),
                forall|i: int|
                    0 <= i < bare@.len() ==> (#[trigger] bare@[i]).joints@ == document_skins(
                        *document,
                    )[i],
                binds@ == document_binds(*document),
                binds@.len() == document_skins(*document).len(),
                forall|i: int|
                    0 <= i < binds@.len() ==> names_one(
                        #[trigger] binds@[i],
                        document_accessors(*document).len(),
                    ),
                i <= bare@.len(),
                skins@.len() == i,
                forall|k: int|
                    0 <= k < i ==> is_skin_of(
                        *document,
                        rows(buffers@),
                        k,
                        #[trigger] skins@[k],
                    ),
            decreases bare@.len() - i,
        {
            let matrices = if self.readable(binds[i], AccessorRole::Matrix, Ghost(*document)) {
                read_binds(document, buffers, i)
            } else {
                self.visit_matrices(binds[i], buffers, Ghost(*document))
            };
            let unreadable = self.unreadable(
                binds[i],
                AccessorRole::Matrix,
                buffers,
                Ghost(*document),
            );
            let inverse_bind = match &matrices {
                Some(matrices) => Some(flatten_matrices(matrices)),
                None => None,
            };
            proof {
                if matrices is Some {
                    flat_floats_are_stored(
                        *document,
                        document_binds(*document)[i as int],
                        rows(buffers@),
                        matrices->0@,
                        inverse_bind->0@,
                    );
                }
            }
            let joints = copy_indices(&bare[i].joints);
            skins.push(SourceSkin { joints, inverse_bind, unreadable });
            i += 1;
        }
        skins
    }

    fn read_channel<F: Fn([Scalar; 4]) -> Scalar>(
        &self,
        document: &gltf::Document,
        buffers: &Vec<Vec<u8>>,
        animation: usize,
        channel: usize,
        keys: KeyAccessors,
        bare: &SourceChannel,
        length_squared: &F,
    ) -> (read: SourceChannel)
        requires
            self.describes(*document),
            valid_document(*document),
            has_channel(*document, animation as int, channel as int),
            keys == keys_of(*document, animation as int, channel as int),
            keys.input < document_accessors(*document).len(),
            keys.output < document_accessors(*document).len(),
            is_bare_channel(
                document_targets(*document)[animation as int][channel as int],
                document_samplers(*document)[animation as int][channel as int],
                document_outputs(*document)[animation as int][channel as int],
                *bare,
            ),
            forall|rotation: [Scalar; 4]| call_requires(*length_squared, (rotation,)),
        ensures
            is_channel_of(
                *document,
                rows(buffers@),
                *length_squared,
                animation as int,
                channel as int,
                read,
            ),
    {
        let role = AccessorRole::Output(bare.target.property);
        let times = if self.readable(Some(keys.input), AccessorRole::Time, Ghost(*document)) {
            read_inputs(document, buffers, animation, channel)
        } else {
            match self.place(keys.input, AccessorRole::Time, buffers, Ghost(*document)) {
                Place::Unreadable => None,
                place => times_at(
                    place,
                    buffers,
                    Ghost(*document),
                    Ghost(keys.input),
                    Ghost(AccessorRole::Time),
                ),
            }
        };
        let outputs = if self.readable(Some(keys.output), role, Ghost(*document)) {
            read_outputs(document, buffers, animation, channel)
        } else {
            match self.place(keys.output, role, buffers, Ghost(*document)) {
                Place::Unreadable => None,
                place => outputs_at(
                    place,
                    bare.target.property,
                    buffers,
                    Ghost(*document),
                    Ghost(keys.output),
                ),
            }
        };
        let lengths_squared = measure(&outputs, length_squared);
        SourceChannel {
            target: bare.target,
            sampler: bare.sampler,
            output_dimensions: bare.output_dimensions,
            times,
            outputs,
            lengths_squared,
        }
    }
}

/// Whether the tables of a mesh belong to it.
spec fn is_mesh_row(
    document: gltf::Document,
    mesh: int,
    bare: Seq<SourcePrimitive>,
    attributes: Seq<AttributeAccessors>,
    morphs: Seq<Vec<MorphAccessors>>,
) -> bool {
    &&& 0 <= mesh < document_attributes(document).len()
    &&& mesh < document_morphs(document).len()
    &&& attributes == document_attributes(document)[mesh]
    &&& rows(morphs) == document_morphs(document)[mesh]
    &&& bare.len() == attributes.len()
    &&& bare.len() == morphs.len()
    &&& forall|k: int|
        0 <= k < bare.len() ==> {
            &&& (#[trigger] bare[k]).material == document_meshes(document)[mesh][k]
            &&& are_listed(attributes[k], document_accessors(document).len())
            &&& forall|t: int|
                0 <= t < morphs[k]@.len() ==> is_listed_morph(
                    #[trigger] morphs[k]@[t],
                    document_accessors(document).len(),
                )
        }
}

impl Accessors {
    fn read_mesh<G: Fn(&Vec<[Scalar; 2]>) -> [Scalar; 2]>(
        &self,
        document: &gltf::Document,
        buffers: &Vec<Vec<u8>>,
        mesh: usize,
        bare: &Vec<SourcePrimitive>,
        attributes: &Vec<AttributeAccessors>,
        morphs: &Vec<Vec<MorphAccessors>>,
        span: &G,
    ) -> (primitives: Vec<SourcePrimitive>)
        requires
            self.describes(*document),
            valid_document(*document),
            is_mesh_row(*document, mesh as int, bare@, attributes@, morphs@),
            forall|coordinates: &Vec<[Scalar; 2]>| call_requires(*span, (coordinates,)),
        ensures
            primitives@.len() == bare@.len(),
            forall|k: int|
                0 <= k < primitives@.len() ==> is_primitive_of(
                    *document,
                    rows(buffers@),
                    *span,
                    mesh as int,
                    k,
                    #[trigger] primitives@[k],
                ),
    {
        let mut primitives: Vec<SourcePrimitive> = Vec::new();
        let mut k: usize = 0;
        while k < bare.len()
            invariant
                self.describes(*document),
                valid_document(*document),
                is_mesh_row(*document, mesh as int, bare@, attributes@, morphs@),
                forall|coordinates: &Vec<[Scalar; 2]>| call_requires(*span, (coordinates,)),
                k <= bare@.len(),
                primitives@.len() == k,
                forall|j: int|
                    0 <= j < k ==> is_primitive_of(
                        *document,
                        rows(buffers@),
                        *span,
                        mesh as int,
                        j,
                        #[trigger] primitives@[j],
                    ),
            decreases bare@.len() - k,
        {
            assert(bare@[k as int].material == document_meshes(*document)[mesh as int][k as int]);
            assert(rows(morphs@).len() == morphs@.len());
            assert(rows(morphs@)[k as int] == morphs@[k as int]@);
            primitives.push(
                self.read_primitive(
                    document,
                    buffers,
                    mesh,
                    k,
                    attributes[k],
                    &morphs[k],
                    bare[k].material,
                    span,
                ),
            );
            k += 1;
        }
        primitives
    }

    fn read_meshes<G: Fn(&Vec<[Scalar; 2]>) -> [Scalar; 2]>(
        &self,
        document: &gltf::Document,
        buffers: &Vec<Vec<u8>>,
        bare: &Vec<Vec<SourcePrimitive>>,
        span: &G,
    ) -> (meshes: Vec<Vec<SourcePrimitive>>)
        requires
            self.describes(*document),
            valid_document(*document),
            bare@.len() == document_meshes(*document).len(),
            forall|i: int|
                0 <= i < bare@.len() ==> (#[trigger] bare@[i])@.len() == document_meshes(
                    *document,
                )[i].len(),
            forall|i: int, k: int|
                0 <= i < bare@.len() && 0 <= k < bare@[i]@.len() ==> is_bare_primitive(
                    document_meshes(*document)[i][k],
                    #[trigger] bare@[i]@[k],
                ),
            forall|coordinates: &Vec<[Scalar; 2]>| call_requires(*span, (coordinates,)),
        ensures
            meshes@.len() == bare@.len(),
            forall|i: int|
                0 <= i < meshes@.len() ==> (#[trigger] meshes@[i])@.len() == bare@[i]@.len(),
            forall|i: int, k: int|
                0 <= i < meshes@.len() && 0 <= k < meshes@[i]@.len() ==> is_primitive_of(
                    *document,
                    rows(buffers@),
                    *span,
                    i,
                    k,
                    #[trigger] meshes@[i]@[k],
                ),
    {
        let attributes = list_attributes(document);
        let morphs = list_morphs(document);
        proof {
            assert forall|i: int| 0 <= i < bare@.len() implies is_mesh_row(
                *document,
                i,
                #[trigger] bare@[i]@,
                attributes@[i]@,
                morphs@[i]@,
            ) by {
                assert(rows(attributes@).len() == attributes@.len());
                assert(nested_rows(morphs@).len() == morphs@.len());
                assert(rows(attributes@)[i] == attributes@[i]@);
                assert(nested_rows(morphs@)[i] == rows(morphs@[i]@));
                assert(bare@[i]@.len() == document_meshes(*document)[i].len());
                assert(attributes@[i]@.len() == document_meshes(*document)[i].len());
                assert(morphs@[i]@.len() == document_meshes(*document)[i].len());
                assert forall|k: int| 0 <= k < bare@[i]@.len() implies {
                    &&& (#[trigger] bare@[i]@[k]).material == document_meshes(*document)[i][k]
                    &&& are_listed(attributes@[i]@[k], document_accessors(*document).len())
                    &&& forall|t: int|
                        0 <= t < morphs@[i]@[k]@.len() ==> is_listed_morph(
                            #[trigger] morphs@[i]@[k]@[t],
                            document_accessors(*document).len(),
                        )
                } by {
                    assert(is_bare_primitive(document_meshes(*document)[i][k], bare@[i]@[k]));
                    assert(are_listed(attributes@[i]@[k], document_accessors(*document).len()));
                }
            }
        }
        let mut meshes: Vec<Vec<SourcePrimitive>> = Vec::new();
        let mut i: usize = 0;
        while i < bare.len()
            invariant
                self.describes(*document),
                valid_document(*document),
                attributes@.len() == bare@.len(),
                morphs@.len() == bare@.len(),
                forall|i: int|
                    0 <= i < bare@.len() ==> is_mesh_row(
                        *document,
                        i,
                        #[trigger] bare@[i]@,
                        attributes@[i]@,
                        morphs@[i]@,
                    ),
                forall|coordinates: &Vec<[Scalar; 2]>| call_requires(*span, (coordinates,)),
                i <= bare@.len(),
                meshes@.len() == i,
                forall|j: int|
                    0 <= j < i ==> (#[trigger] meshes@[j])@.len() == bare@[j]@.len(),
                forall|j: int, k: int|
                    0 <= j < i && 0 <= k < meshes@[j]@.len() ==> is_primitive_of(
                        *document,
                        rows(buffers@),
                        *span,
                        j,
                        k,
                        #[trigger] meshes@[j]@[k],
                    ),
            decreases bare@.len() - i,
        {
            let primitives = self.read_mesh(
                document,
                buffers,
                i,
                &bare[i],
                &attributes[i],
                &morphs[i],
                span,
            );
            let ghost before = meshes@;
            meshes.push(primitives);
            assert(meshes@ =~= before.push(primitives));
            i += 1;
        }
        meshes
    }

    fn read_animations<F: Fn([Scalar; 4]) -> Scalar>(
        &self,
        document: &gltf::Document,
        buffers: &Vec<Vec<u8>>,
        bare: &Vec<SourceAnimation>,
        length_squared: &F,
    ) -> (animations: Vec<SourceAnimation>)
        requires
            self.describes(*document),
            valid_document(*document),
            bare@.len() == document_targets(*document).len(),
            forall|i: int|
                0 <= i < bare@.len() ==> (#[trigger] bare@[i]).channels@.len() == document_targets(
                    *document,
                )[i].len(),
            forall|i: int, k: int|
                0 <= i < bare@.len() && 0 <= k < bare@[i].channels@.len() ==> is_bare_channel(
                    document_targets(*document)[i][k],
                    document_samplers(*document)[i][k],
                    document_outputs(*document)[i][k],
                    #[trigger] bare@[i].channels@[k],
                ),
            forall|rotation: [Scalar; 4]| call_requires(*length_squared, (rotation,)),
        ensures
            animations@.len() == bare@.len(),
            forall|i: int|
                0 <= i < animations@.len() ==> (#[trigger] animations@[i]).name == bare@[i].name
                    && animations@[i].channels@.len() == bare@[i].channels@.len(),
            forall|i: int, k: int|
                0 <= i < animations@.len() && 0 <= k < animations@[i].channels@.len()
                    ==> is_channel_of(
                    *document,
                    rows(buffers@),
                    *length_squared,
                    i,
                    k,
                    #[trigger] animations@[i].channels@[k],
                ),
    {
        let keys = list_keys(document);
        let mut animations: Vec<SourceAnimation> = Vec::new();
        let mut i: usize = 0;
        while i < bare.len()
            invariant
                self.describes(*document),
                valid_document(*document),
                rows(keys@) == document_keys(*document),
                keys@.len() == bare@.len(),
                bare@.len() == document_targets(*document).len(),
                forall|i: int|
                    0 <= i < keys@.len() ==> (#[trigger] keys@[i])@.len() == document_targets(
                        *document,
                    )[i].len(),
                forall|i: int, k: int|
                    0 <= i < keys@.len() && 0 <= k < keys@[i]@.len() ==> {
                        &&& (#[trigger] keys@[i]@[k]).input < document_accessors(*document).len()
                        &&& keys@[i]@[k].output < document_accessors(*document).len()
                    },
                forall|i: int|
                    0 <= i < bare@.len() ==> (#[trigger] bare@[i]).channels@.len()
                        == document_targets(*document)[i].len(),
                forall|i: int, k: int|
                    0 <= i < bare@.len() && 0 <= k < bare@[i].channels@.len() ==> is_bare_channel(
                        document_targets(*document)[i][k],
                        document_samplers(*document)[i][k],
                        document_outputs(*document)[i][k],
                        #[trigger] bare@[i].channels@[k],
                    ),
                forall|rotation: [Scalar; 4]| call_requires(*length_squared, (rotation,)),
                i <= bare@.len(),
                animations@.len() == i,
                forall|j: int|
                    0 <= j < i ==> (#[trigger] animations@[j]).name == bare@[j].name
                        && animations@[j].channels@.len() == bare@[j].channels@.len(),
                forall|j: int, k: int|
                    0 <= j < i && 0 <= k < animations@[j].channels@.len() ==> is_channel_of(
                        *document,
                        rows(buffers@),
                        *length_squared,
                        j,
                        k,
                        #[trigger] animations@[j].channels@[k],
                    ),
            decreases bare@.len() - i,
        {
            let animation = &bare[i];
            let row = &keys[i];
            assert(rows(keys@).len() == keys@.len());
            assert(rows(keys@)[i as int] == keys@[i as int]@);
            assert(row@.len() == animation.channels@.len());
            let mut channels: Vec<SourceChannel> = Vec::new();
            let mut k: usize = 0;
            while k < animation.channels.len()
                invariant
                    self.describes(*document),
                    valid_document(*document),
                    i < bare@.len(),
                    *animation == bare@[i as int],
                    i < document_keys(*document).len(),
                    row@ == document_keys(*document)[i as int],
                    row@.len() == animation.channels@.len(),
                    forall|k: int|
                        0 <= k < row@.len() ==> {
                            &&& (#[trigger] row@[k]).input < document_accessors(*document).len()
                            &&& row@[k].output < document_accessors(*document).len()
                        },
                    forall|k: int|
                        0 <= k < animation.channels@.len() ==> is_bare_channel(
                            document_targets(*document)[i as int][k],
                            document_samplers(*document)[i as int][k],
                            document_outputs(*document)[i as int][k],
                            #[trigger] animation.channels@[k],
                        ),
                    forall|rotation: [Scalar; 4]| call_requires(*length_squared, (rotation,)),
                    k <= animation.channels@.len(),
                    channels@.len() == k,
                    forall|j: int|
                        0 <= j < k ==> is_channel_of(
                            *document,
                            rows(buffers@),
                            *length_squared,
                            i as int,
                            j,
                            #[trigger] channels@[j],
                        ),
                decreases animation.channels@.len() - k,
            {
                channels.push(
                    self.read_channel(
                        document,
                        buffers,
                        i,
                        k,
                        row[k],
                        &animation.channels[k],
                        length_squared,
                    ),
                );
                k += 1;
            }
            let ghost before = animations@;
            let read = SourceAnimation { name: copy_text(&animation.name), channels };
            animations.push(read);
            assert(animations@ =~= before.push(read));
            i += 1;
        }
        animations
    }
}

impl SourceModel {
    /// Reads the values of a document's accessors into its structure. What an
    /// accessor does not find in the buffers is absent, and what cannot be read
    /// is marked. `length_squared` measures the rotations among the outputs of
    /// channels, `span` how far texture coordinates spread.
    pub fn with_values<F: Fn([Scalar; 4]) -> Scalar, G: Fn(&Vec<[Scalar; 2]>) -> [Scalar; 2]>(
        self,
        document: &gltf::Document,
        buffers: &Vec<Vec<u8>>,
        length_squared: &F,
        span: &G,
    ) -> (model: Self)
        requires
            valid_document(*document),
            is_structure_of(*document, self),
            self.in_range(),
            forall|rotation: [Scalar; 4]| call_requires(*length_squared, (rotation,)),
            forall|coordinates: &Vec<[Scalar; 2]>| call_requires(*span, (coordinates,)),
        ensures
            is_model_of(*document, rows(buffers@), *length_squared, *span, model),
            model.in_range(),
            model.measured(),
            model.known_targets() == self.known_targets(),
    {
        let accessors = Accessors::list(document);
        let skins = accessors.read_skins(document, buffers, &self.skins);
        let meshes = accessors.read_meshes(document, buffers, &self.meshes, span);
        let animations = accessors.read_animations(
            document,
            buffers,
            &self.animations,
            length_squared,
        );
        let model = SourceModel {
            nodes: self.nodes,
            rest: self.rest,
            skins,
            meshes,
            materials: self.materials,
            textures: self.textures,
            images: self.images,
            animations,
        };
        proof {
            assert forall|i: int, k: int|
                0 <= i < model.meshes@.len() && 0 <= k < model.meshes@[i]@.len() implies names_one(
                (#[trigger] model.meshes@[i]@[k]).material,
                model.materials@.len(),
            ) by {
                let bare = self.meshes@[i]@[k];
                assert(is_bare_primitive(document_meshes(*document)[i][k], bare));
                assert(is_primitive_of(
                    *document,
                    rows(buffers@),
                    *span,
                    i,
                    k,
                    model.meshes@[i]@[k],
                ));
            }
            assert forall|i: int|
                0 <= i < model.animations@.len() implies has_known_targets(
                #[trigger] model.animations@[i],
                model.nodes@.len(),
            ) == has_known_targets(self.animations@[i], self.nodes@.len()) by {
                let read = model.animations@[i];
                let bare = self.animations@[i];
                assert forall|k: int| 0 <= k < read.channels@.len() implies (
                #[trigger] read.channels@[k]).target == bare.channels@[k].target by {
                    assert(is_channel_of(
                        *document,
                        rows(buffers@),
                        *length_squared,
                        i,
                        k,
                        model.animations@[i].channels@[k],
                    ));
                    assert(is_bare_channel(
                        document_targets(*document)[i][k],
                        document_samplers(*document)[i][k],
                        document_outputs(*document)[i][k],
                        self.animations@[i].channels@[k],
                    ));
                }
                if has_known_targets(read, model.nodes@.len()) {
                    assert forall|k: int| 0 <= k < bare.channels@.len() implies is_known_target(
                        (#[trigger] bare.channels@[k]).target,
                        self.nodes@.len(),
                    ) by {
                        assert(read.channels@[k].target == bare.channels@[k].target);
                    }
                }
            }
            if model.known_targets() {
                assert forall|i: int| 0 <= i < self.animations@.len() implies has_known_targets(
                    #[trigger] self.animations@[i],
                    self.nodes@.len(),
                ) by {
                    assert(has_known_targets(model.animations@[i], model.nodes@.len()));
                }
            }
        }
        model
    }
}

/// The codes of a file stand for the number types of OpenGL.
pub proof fn component_codes_are_those_of_opengl(code: u32)
    ensures
        component_of(code) is I8 <==> code == 0x1400,
        component_of(code) is U8 <==> code == 0x1401,
        component_of(code) is I16 <==> code == 0x1402,
        component_of(code) is U16 <==> code == 0x1403,
        component_of(code) is U32 <==> code == 0x1405,
        code == 0x1406 ==> component_of(code) is F32,
{
}

/// Bytes are read with the lowest first.
pub proof fn bytes_are_read_lowest_first(bytes: Seq<u8>, at: int)
    ensures
        little_endian(bytes, at, 1) == bytes[at],
        little_endian(bytes, at, 2) == bytes[at] + 256 * bytes[at + 1],
        little_endian(bytes, at, 4) == bytes[at] + 256 * bytes[at + 1] + 65_536 * bytes[at + 2]
            + 16_777_216 * bytes[at + 3],
{
    reveal_with_fuel(little_endian, 5);
}

/// The items of a role are made of whole numbers: three for a vector, two for
/// coordinates, four for joints, weights and rotations, sixteen for a matrix and
/// one for a time and an index.
pub proof fn items_are_made_of_numbers(role: AccessorRole, component: ComponentType)
    requires
        item_of(role, component) is Some,
    ensures
        ({
            let item = item_of(role, component)->Some_0;
            let width = width_of(number_type(role, component));
            &&& role is Vector ==> item == 3 * width && width == 4
            &&& role is Time ==> item == width && width == 4
            &&& role is Matrix ==> item == 16 * width && width == 4
            &&& role is TexCoords ==> item == 2 * width
            &&& role is Joints ==> item == 4 * width
            &&& role is Weights ==> item == 4 * width
            &&& role is Indices ==> item == width
            &&& role matches AccessorRole::Output(property) ==> {
                &&& property is Translation || property is Scale ==> item == 3 * width && width == 4
                &&& property is Rotation ==> item == 4 * width
            }
        }),
{
}

/// Coordinates and weights may be floats or unsigned fractions, joints small
/// unsigned numbers, indices any unsigned ones, and rotations floats or
/// fractions; vectors, times and matrices are floats.
pub proof fn roles_take_their_numbers(component: ComponentType)
    ensures
        item_of(AccessorRole::TexCoords, component) is Some <==> component is U8 || component is U16
            || component is F32,
        item_of(AccessorRole::Weights, component) is Some <==> component is U8 || component is U16
            || component is F32,
        item_of(AccessorRole::Joints, component) is Some <==> component is U8 || component is U16,
        item_of(AccessorRole::Indices, component) is Some <==> component is U8 || component is U16
            || component is U32,
        item_of(AccessorRole::Output(SourceProperty::Rotation), component) is Some
            <==> !(component is U32),
        number_type(AccessorRole::Vector, component) is F32,
        number_type(AccessorRole::Time, component) is F32,
        number_type(AccessorRole::Matrix, component) is F32,
{
}

/// The items of an accessor follow each other at the stride of its view, or
/// without a gap where the view has none.
pub proof fn items_follow_each_other(view: ViewShape, offset: usize, count: usize, item: nat)
    requires
        1 <= count < usize::MAX,
    ensures
        view.stride is None ==> end_of(view, offset, count, item) == offset + item * count,
        end_of(view, offset, 1, item) == offset + item,
        view.stride matches Some(stride) ==> end_of(view, offset, (count + 1) as usize, item)
            == end_of(view, offset, count, item) + stride,
{
    assert(item * (count - 1) + item == item * count) by (nonlinear_arith);
    let stride = stride_of(view, item);
    assert(stride * (count + 1 - 1) == stride * (count - 1) + stride) by (nonlinear_arith);
}

/// Items that are stored lie within their view, and their view within its
/// buffer.
pub proof fn stored_items_lie_in_their_buffer(
    view: ViewShape,
    offset: usize,
    count: usize,
    item: nat,
    buffers: Seq<Seq<u8>>,
    i: int,
)
    requires
        lies_within(view, offset, count, item, buffers),
        0 <= i < count,
    ensures
        ({
            let stride = match view.stride {
                Some(stride) => stride as int,
                None => item as int,
            };
            let start = view.offset + offset + stride * i;
            &&& view.buffer < buffers.len()
            &&& start + item <= view.offset + view.length <= buffers[view.buffer as int].len()
        }),
{
    let stride = stride_of(view, item);
    assert(stride * i <= stride * (count - 1)) by (nonlinear_arith)
        requires
            0 <= i <= count - 1,
            0 <= stride,
    ;
}

/// A float is stored by its pattern.
pub proof fn floats_are_stored_by_their_pattern(number: int, value: Scalar)
    requires
        is_float_of(ComponentType::F32, number, value),
        0 <= number <= 0x7f80_0000 || 0x8000_0000 <= number <= 0xff80_0000,
    ensures
        value.bits == number,
{
}

} // verus!
