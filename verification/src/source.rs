//! Model files as the library reads them.
//!
//! A [`SourceModel`] holds, as plain values, what the loader looks at in a
//! glTF document: the node hierarchy, skins, meshes, materials, textures and
//! animations. The structure is read from a document here; the numbers that
//! accessors hold (vertices, indices, key frames) are read in
//! [`crate::accessors`].

use gltf::json::animation::Property;
use gltf::json::validation::Checked;
use vstd::prelude::*;

use crate::anim::NodeTrs;
use crate::glb::is_container;
use crate::import::is_external;
use crate::material::{
    GltfMagFilter, GltfMinFilter, GltfSampler, GltfWrapMode, MaterialAlphaMode, MaterialInputs,
    ScaledTextureInfo, TextureInfo, TextureRole, TextureTransform, HALF,
};
use crate::scalar::{same_value, Scalar};
use crate::validation::Attribute;

verus! {

/// A parsed glTF document.
#[verifier::external_type_specification]
#[verifier::external_body]
pub struct ExDocument(gltf::Document);

/// The JSON of a glTF document before validation.
#[verifier::external_type_specification]
#[verifier::external_body]
pub struct ExRoot(gltf::json::Root);

/// Why the glTF crate refuses a file.
#[verifier::external_type_specification]
#[verifier::external_body]
pub struct ExGltfError(gltf::Error);

/// The characters of an optional text.
pub open spec fn text_of(text: Option<String>) -> Option<Seq<char>> {
    match text {
        Some(text) => Some(text@),
        None => None,
    }
}

/// A node of the hierarchy.
#[derive(Debug)]
pub struct SourceNode {
    pub name: Option<String>,
    pub children: Vec<usize>,
    pub mesh: Option<usize>,
    pub skin: Option<usize>,
}

/// What a node holds.
pub struct NodeView {
    pub name: Option<Seq<char>>,
    pub children: Seq<usize>,
    pub mesh: Option<usize>,
    pub skin: Option<usize>,
}

impl View for SourceNode {
    type V = NodeView;

    open spec fn view(&self) -> NodeView {
        NodeView {
            name: text_of(self.name),
            children: self.children@,
            mesh: self.mesh,
            skin: self.skin,
        }
    }
}

/// A texture as the document lists it: its image and the raw sampler codes.
#[derive(Clone, Copy, Debug)]
pub struct SourceTexture {
    pub image: usize,
    pub sampler: Option<usize>,
    pub mag_filter: Option<u32>,
    pub min_filter: Option<u32>,
    pub wrap_s: u32,
    pub wrap_t: u32,
}

/// A material's use of a texture.
#[derive(Clone, Copy, Debug)]
pub struct TextureReference {
    pub texture: usize,
    pub tex_coord: u32,
    pub transform: Option<TextureTransform>,
}

/// A material's use of a texture whose samples are scaled.
#[derive(Clone, Copy, Debug)]
pub struct NormalReference {
    pub texture: usize,
    pub tex_coord: u32,
    pub scale: Scalar,
}

/// The values of a material that are not textures.
#[derive(Debug)]
pub struct MaterialValues {
    pub name: Option<String>,
    pub base_color_factor: [Scalar; 4],
    pub emissive_factor: [Scalar; 3],
    pub double_sided: bool,
    pub unlit: bool,
    /// The JSON text of the application-specific values.
    pub extras: Option<String>,
}

/// What the values of a material are.
pub struct MaterialValuesView {
    pub name: Option<Seq<char>>,
    pub base_color_factor: [Scalar; 4],
    pub emissive_factor: [Scalar; 3],
    pub double_sided: bool,
    pub unlit: bool,
    pub extras: Option<Seq<char>>,
}

/// The alpha policy of a material.
#[derive(Clone, Copy, Debug, PartialEq)]
pub struct AlphaPolicy {
    pub mode: MaterialAlphaMode,
    pub cutoff: Option<Scalar>,
}

impl View for MaterialValues {
    type V = MaterialValuesView;

    open spec fn view(&self) -> MaterialValuesView {
        MaterialValuesView {
            name: text_of(self.name),
            base_color_factor: self.base_color_factor,
            emissive_factor: self.emissive_factor,
            double_sided: self.double_sided,
            unlit: self.unlit,
            extras: text_of(self.extras),
        }
    }
}

/// The node property that an animation channel drives.
#[derive(Clone, Copy, Debug, PartialEq, Eq, Structural)]
pub enum SourceProperty {
    Translation,
    Rotation,
    Scale,
    MorphTargetWeights,
    /// A property that the format does not name.
    Unknown,
}

/// How an animation sampler finds values between keys.
#[derive(Clone, Copy, Debug, PartialEq, Eq, Structural)]
pub enum SourceInterpolation {
    Linear,
    Step,
    CubicSpline,
}

/// The shape of one accessor element.
#[derive(Clone, Copy, Debug, PartialEq, Eq, Structural)]
pub enum Dimensions {
    Scalar,
    Vec2,
    Vec3,
    Vec4,
    Mat2,
    Mat3,
    Mat4,
}

/// What an animation channel drives.
#[derive(Clone, Copy, Debug)]
pub struct ChannelTarget {
    pub node: usize,
    pub property: SourceProperty,
}

/// How an animation channel is sampled.
#[derive(Clone, Copy, Debug)]
pub struct ChannelSampler {
    pub interpolation: SourceInterpolation,
    pub input_count: usize,
    pub output_count: usize,
}

/// Where the bytes of an image stand in a buffer.
#[derive(Clone, Copy, Debug)]
pub struct SourceView {
    pub buffer: usize,
    pub offset: usize,
    pub length: usize,
}

/// An image as the document lists it: bytes of a buffer, or a URI.
#[derive(Debug)]
pub struct SourceImage {
    pub view: Option<SourceView>,
    pub uri: Option<String>,
    pub mime_type: Option<String>,
}

/// What an image entry holds.
pub struct SourceImageView {
    pub view: Option<SourceView>,
    pub uri: Option<Seq<char>>,
    pub mime_type: Option<Seq<char>>,
}

impl View for SourceImage {
    type V = SourceImageView;

    open spec fn view(&self) -> SourceImageView {
        SourceImageView {
            view: self.view,
            uri: text_of(self.uri),
            mime_type: text_of(self.mime_type),
        }
    }
}

/// The rows of a table.
pub open spec fn rows<T>(table: Seq<Vec<T>>) -> Seq<Seq<T>> {
    table.map_values(|row: Vec<T>| row@)
}

/// Whether a document has passed the validation of the glTF crate: every index
/// names an item and every enumerated value is known.
pub uninterp spec fn valid_document(document: gltf::Document) -> bool;

/// Whether two lists hold the same values up to the bits of a NaN.
pub open spec fn same_values(a: Seq<Scalar>, b: Seq<Scalar>) -> bool {
    &&& a.len() == b.len()
    &&& forall|i: int| 0 <= i < a.len() ==> same_value(#[trigger] a[i], b[i])
}

/// Whether two transforms are the same up to the bits of a NaN.
pub open spec fn same_transform(a: NodeTrs, b: NodeTrs) -> bool {
    &&& same_values(a.translation@, b.translation@)
    &&& same_values(a.rotation@, b.rotation@)
    &&& same_values(a.scale@, b.scale@)
}

/// Whether `transforms` are those that are `named`, up to the bits of a NaN.
pub open spec fn are_transforms(named: Seq<NodeTrs>, transforms: Seq<NodeTrs>) -> bool {
    &&& transforms.len() == named.len()
    &&& forall|i: int|
        0 <= i < transforms.len() ==> same_transform(named[i], #[trigger] transforms[i])
}

/// What `gltf::Document::nodes` lists.
pub uninterp spec fn document_nodes(document: gltf::Document) -> Seq<NodeView>;

/// The decomposed transforms of what `gltf::Document::nodes` lists. Which NaN
/// stands for one that is not a number says nothing.
pub uninterp spec fn document_transforms(document: gltf::Document) -> Seq<NodeTrs>;

/// The joints of what `gltf::Document::skins` lists.
pub uninterp spec fn document_skins(document: gltf::Document) -> Seq<Seq<usize>>;

/// The materials of the primitives of what `gltf::Document::meshes` lists.
pub uninterp spec fn document_meshes(document: gltf::Document) -> Seq<Seq<Option<usize>>>;

/// The values of what `gltf::Document::materials` lists.
pub uninterp spec fn document_materials(document: gltf::Document) -> Seq<MaterialValuesView>;

/// The alpha policies of what `gltf::Document::materials` lists.
pub uninterp spec fn document_alphas(document: gltf::Document) -> Seq<AlphaPolicy>;

/// The base colour textures of what `gltf::Document::materials` lists.
pub uninterp spec fn document_base_colors(document: gltf::Document) -> Seq<
    Option<TextureReference>,
>;

/// The emissive textures of what `gltf::Document::materials` lists.
pub uninterp spec fn document_emissives(document: gltf::Document) -> Seq<
    Option<TextureReference>,
>;

/// The normal textures of what `gltf::Document::materials` lists.
pub uninterp spec fn document_normals(document: gltf::Document) -> Seq<Option<NormalReference>>;

/// What `gltf::Document::textures` lists.
pub uninterp spec fn document_textures(document: gltf::Document) -> Seq<SourceTexture>;

/// What `gltf::Document::images` lists.
pub uninterp spec fn document_images(document: gltf::Document) -> Seq<SourceImageView>;

/// The URIs of what `gltf::Document::buffers` lists; a buffer without one is
/// the binary chunk.
pub uninterp spec fn document_buffers(document: gltf::Document) -> Seq<Option<Seq<char>>>;

/// What `gltf::import_buffers` reads for a document and a binary chunk.
pub uninterp spec fn buffer_contents(
    document: gltf::Document,
    chunk: Option<Seq<u8>>,
) -> Option<Seq<Seq<u8>>>;

/// The names of what `gltf::Document::animations` lists.
pub uninterp spec fn document_animation_names(document: gltf::Document) -> Seq<
    Option<Seq<char>>,
>;

/// The channel targets of what `gltf::Document::animations` lists.
pub uninterp spec fn document_targets(document: gltf::Document) -> Seq<Seq<ChannelTarget>>;

/// The channel samplers of what `gltf::Document::animations` lists.
pub uninterp spec fn document_samplers(document: gltf::Document) -> Seq<Seq<ChannelSampler>>;

/// The element shapes of the channel outputs of what
/// `gltf::Document::animations` lists.
pub uninterp spec fn document_outputs(document: gltf::Document) -> Seq<Seq<Dimensions>>;

/// What `gltf::Gltf::from_slice_without_validation` finds in a file: the JSON
/// and the binary chunk.
pub uninterp spec fn parsed_file(bytes: Seq<u8>) -> Option<
    (gltf::json::Root, Option<Seq<u8>>),
>;

/// The extensions that a document requires.
pub uninterp spec fn required_by(root: gltf::json::Root) -> Seq<Seq<char>>;

/// The accessors that the primitives of each mesh name for their positions.
pub uninterp spec fn position_accessors(root: gltf::json::Root) -> Seq<Seq<Option<usize>>>;

/// How many accessors a document lists.
pub uninterp spec fn accessor_count(root: gltf::json::Root) -> nat;

/// What `gltf::Document::from_json` makes of `root` with the list of required
/// extensions replaced by `required`.
pub uninterp spec fn validated(root: gltf::json::Root, required: Seq<Seq<char>>) -> Option<
    gltf::Document,
>;

/// The characters of each text.
pub open spec fn texts(list: Seq<String>) -> Seq<Seq<char>> {
    list.map_values(|text: String| text@)
}

/// The bytes of an optional chunk.
pub open spec fn chunk_of(chunk: Option<Vec<u8>>) -> Option<Seq<u8>> {
    match chunk {
        Some(chunk) => Some(chunk@),
        None => None,
    }
}

/// `gltf::Gltf::from_slice_without_validation`: splits a binary file into its
/// JSON, which it parses, and its binary chunk. The header has been read
/// before, so the declared length covers it.
#[verifier::external_body]
pub(crate) fn parse_file(bytes: &[u8]) -> (result: Result<
    (gltf::json::Root, Option<Vec<u8>>),
    gltf::Error,
>)
    requires
        is_container(bytes@),
    ensures
        match result {
            Ok((root, chunk)) => parsed_file(bytes@) == Some((root, chunk_of(chunk))),
            Err(_) => parsed_file(bytes@) is None,
        },
{
    let parsed = gltf::Gltf::from_slice_without_validation(bytes)?;
    Ok((parsed.document.into_json(), parsed.blob))
}

/// The `extensions_required` entry of the JSON.
#[verifier::external_body]
pub(crate) fn required_extensions(root: &gltf::json::Root) -> (required: Vec<String>)
    ensures
        texts(required@) == required_by(*root),
{
    root.extensions_required.clone()
}

/// The `meshes` entry of the JSON: per mesh and primitive the accessor of its
/// positions.
#[verifier::external_body]
fn list_position_accessors(root: &gltf::json::Root) -> (accessors: Vec<Vec<Option<usize>>>)
    ensures
        rows(accessors@) == position_accessors(*root),
{
    let positions = Checked::Valid(gltf::Semantic::Positions);
    let accessor = |primitive: &gltf::json::mesh::Primitive| {
        primitive.attributes.get(&positions).map(|index| index.value())
    };
    root.meshes.iter().map(|mesh| mesh.primitives.iter().map(accessor).collect()).collect()
}

/// The length of the `accessors` entry of the JSON.
#[verifier::external_body]
fn count_accessors(root: &gltf::json::Root) -> (count: usize)
    ensures
        count == accessor_count(*root),
{
    root.accessors.len()
}

/// Whether the positions of every primitive are an accessor that the document
/// lists.
pub open spec fn positions_are_listed(root: gltf::json::Root) -> bool {
    forall|i: int, k: int|
        0 <= i < position_accessors(root).len() && 0 <= k < position_accessors(root)[i].len()
            ==> names_one(#[trigger] position_accessors(root)[i][k], accessor_count(root))
}

/// Whether the positions of every primitive are an accessor that the document
/// lists.
pub(crate) fn check_position_accessors(root: &gltf::json::Root) -> (listed: bool)
    ensures
        listed == positions_are_listed(*root),
{
    let table = list_position_accessors(root);
    let count: usize = count_accessors(root);
    proof {
        assert(rows(table@).len() == table@.len());
        assert forall|i: int| 0 <= i < table@.len() implies (#[trigger] position_accessors(
            *root,
        )[i]) == table@[i]@ by {
            assert(rows(table@)[i] == table@[i]@);
        }
    }
    let mut i: usize = 0;
    while i < table.len()
        invariant
            i <= table@.len(),
            count == accessor_count(*root),
            position_accessors(*root).len() == table@.len(),
            forall|j: int|
                0 <= j < table@.len() ==> (#[trigger] position_accessors(*root)[j]) == table@[j]@,
            forall|j: int, k: int|
                0 <= j < i && 0 <= k < position_accessors(*root)[j].len() ==> names_one(
                    #[trigger] position_accessors(*root)[j][k],
                    count as nat,
                ),
        decreases table@.len() - i,
    {
        let row = &table[i];
        let mut k: usize = 0;
        while k < row.len()
            invariant
                i < table@.len(),
                *row == table@[i as int],
                k <= row@.len(),
                count == accessor_count(*root),
                position_accessors(*root).len() == table@.len(),
                position_accessors(*root)[i as int] == row@,
                forall|j: int| 0 <= j < k ==> names_one(#[trigger] row@[j], count as nat),
            decreases row@.len() - k,
        {
            if let Some(index) = row[k] {
                if index >= count {
                    assert(!names_one(
                        position_accessors(*root)[i as int][k as int],
                        count as nat,
                    ));
                    return false;
                }
            }
            k += 1;
        }
        i += 1;
    }
    true
}

/// `gltf::Document::from_json`: validates the JSON with the list of required
/// extensions replaced by `required`. A document that it returns is valid. It
/// looks up the accessors of positions before it knows that they are there.
#[verifier::external_body]
pub(crate) fn validate_document(root: &gltf::json::Root, required: &Vec<String>) -> (result: Result<
    gltf::Document,
    gltf::Error,
>)
    requires
        positions_are_listed(*root),
    ensures
        match result {
            Ok(document) => validated(*root, texts(required@)) == Some(document)
                && valid_document(document),
            Err(_) => validated(*root, texts(required@)) is None,
        },
{
    let mut candidate = root.clone();
    candidate.extensions_required = required.clone();
    gltf::Document::from_json(candidate)
}

/// `gltf::Document::nodes`: per node its name and the indices of its children,
/// mesh and skin. In a validated document these indices name nodes, meshes and
/// skins.
#[verifier::external_body]
fn list_nodes(document: &gltf::Document) -> (nodes: Vec<SourceNode>)
    requires
        valid_document(*document),
    ensures
        nodes@.map_values(|node: SourceNode| node@) == document_nodes(*document),
        forall|i: int, k: int|
            0 <= i < nodes@.len() && 0 <= k < nodes@[i].children@.len()
                ==> #[trigger] nodes@[i].children@[k] < nodes@.len(),
        forall|i: int| #![trigger nodes@[i]]
            0 <= i < nodes@.len() ==> {
                &&& nodes@[i].mesh matches Some(mesh) ==> mesh < document_meshes(*document).len()
                &&& nodes@[i].skin matches Some(skin) ==> skin < document_skins(*document).len()
            },
{
    let listed = document.nodes().map(|node| SourceNode {
        name: node.name().map(|name| name.to_owned()),
        children: node.children().map(|child| child.index()).collect(),
        mesh: node.mesh().map(|mesh| mesh.index()),
        skin: node.skin().map(|skin| skin.index()),
    });
    listed.collect()
}

/// `gltf::Node::transform` of every node, decomposed into translation, rotation
/// and scale. A matrix that collapses a direction gives NaNs, whose bits differ
/// from machine to machine.
#[verifier::external_body]
fn list_transforms(document: &gltf::Document) -> (transforms: Vec<NodeTrs>)
    requires
        valid_document(*document),
    ensures
        are_transforms(document_transforms(*document), transforms@),
        transforms@.len() == document_nodes(*document).len(),
{
    let listed = document.nodes().map(|node| {
        let (t, r, s) = node.transform().decomposed();
        let translation = t.map(|v| Scalar { bits: v.to_bits() });
        let rotation = r.map(|v| Scalar { bits: v.to_bits() });
        let scale = s.map(|v| Scalar { bits: v.to_bits() });
        NodeTrs { translation, rotation, scale }
    });
    listed.collect()
}

/// `gltf::Document::skins`: per skin the nodes that are its joints. In a
/// validated document they are nodes.
#[verifier::external_body]
fn list_skins(document: &gltf::Document) -> (skins: Vec<Vec<usize>>)
    requires
        valid_document(*document),
    ensures
        rows(skins@) == document_skins(*document),
        forall|i: int, k: int|
            0 <= i < skins@.len() && 0 <= k < skins@[i]@.len() ==> #[trigger] skins@[i]@[k]
                < document_nodes(*document).len(),
{
    let joints = |skin: gltf::Skin| skin.joints().map(|joint| joint.index()).collect();
    document.skins().map(joints).collect()
}

/// `gltf::Document::meshes`: per mesh and primitive the index of its material,
/// `None` for the default one. In a validated document it names a material.
#[verifier::external_body]
fn list_meshes(document: &gltf::Document) -> (meshes: Vec<Vec<Option<usize>>>)
    requires
        valid_document(*document),
    ensures
        rows(meshes@) == document_meshes(*document),
        forall|i: int, k: int|
            0 <= i < meshes@.len() && 0 <= k < meshes@[i]@.len() ==> (
            #[trigger] meshes@[i]@[k] matches Some(material) ==> material < document_materials(
                *document,
            ).len()),
{
    let materials = |mesh: gltf::Mesh| {
        mesh.primitives().map(|primitive| primitive.material().index()).collect()
    };
    document.meshes().map(materials).collect()
}

/// `gltf::Document::materials`: per material its name, factors, sidedness,
/// unlit mark and extras.
#[verifier::external_body]
fn list_materials(document: &gltf::Document) -> (materials: Vec<MaterialValues>)
    requires
        valid_document(*document),
    ensures
        materials@.map_values(|values: MaterialValues| values@) == document_materials(*document),
{
    let listed = document.materials().map(|material| {
        let factor = material.pbr_metallic_roughness().base_color_factor();
        MaterialValues {
            name: material.name().map(|name| name.to_owned()),
            base_color_factor: factor.map(|v| Scalar { bits: v.to_bits() }),
            emissive_factor: material.emissive_factor().map(|v| Scalar { bits: v.to_bits() }),
            double_sided: material.double_sided(),
            unlit: material.unlit(),
            extras: material.extras().as_ref().map(|extras| extras.get().to_owned()),
        }
    });
    listed.collect()
}

/// `gltf::Material::alpha_mode` and `alpha_cutoff` of every material.
#[verifier::external_body]
fn list_alphas(document: &gltf::Document) -> (alphas: Vec<AlphaPolicy>)
    requires
        valid_document(*document),
    ensures
        alphas@ == document_alphas(*document),
        alphas@.len() == document_materials(*document).len(),
{
    let listed = document.materials().map(|material| AlphaPolicy {
        mode: match material.alpha_mode() {
            gltf::material::AlphaMode::Opaque => MaterialAlphaMode::Opaque,
            gltf::material::AlphaMode::Mask => MaterialAlphaMode::Mask,
            gltf::material::AlphaMode::Blend => MaterialAlphaMode::Blend,
        },
        cutoff: material.alpha_cutoff().map(|v| Scalar { bits: v.to_bits() }),
    });
    listed.collect()
}

/// `gltf::material::PbrMetallicRoughness::base_color_texture` of every
/// material: the texture, its coordinate set and its transform. In a validated
/// document the index names a texture.
#[verifier::external_body]
fn list_base_colors(document: &gltf::Document) -> (references: Vec<Option<TextureReference>>)
    requires
        valid_document(*document),
    ensures
        references@ == document_base_colors(*document),
        references@.len() == document_materials(*document).len(),
        forall|i: int|
            0 <= i < references@.len() ==> (#[trigger] references@[i] matches Some(reference)
                ==> reference.texture < document_textures(*document).len()),
{
    let reference = |info: gltf::texture::Info| TextureReference {
        texture: info.texture().index(),
        tex_coord: info.tex_coord(),
        transform: info.texture_transform().map(|transform| TextureTransform {
            offset: transform.offset().map(|v| Scalar { bits: v.to_bits() }),
            rotation: Scalar { bits: transform.rotation().to_bits() },
            scale: transform.scale().map(|v| Scalar { bits: v.to_bits() }),
            tex_coord_override: transform.tex_coord(),
        }),
    };
    let texture = |material: gltf::Material| {
        material.pbr_metallic_roughness().base_color_texture().map(reference)
    };
    document.materials().map(texture).collect()
}

/// `gltf::Material::emissive_texture` of every material: the texture, its
/// coordinate set and its transform. In a validated document the index names a
/// texture.
#[verifier::external_body]
fn list_emissives(document: &gltf::Document) -> (references: Vec<Option<TextureReference>>)
    requires
        valid_document(*document),
    ensures
        references@ == document_emissives(*document),
        references@.len() == document_materials(*document).len(),
        forall|i: int|
            0 <= i < references@.len() ==> (#[trigger] references@[i] matches Some(reference)
                ==> reference.texture < document_textures(*document).len()),
{
    let reference = |info: gltf::texture::Info| TextureReference {
        texture: info.texture().index(),
        tex_coord: info.tex_coord(),
        transform: info.texture_transform().map(|transform| TextureTransform {
            offset: transform.offset().map(|v| Scalar { bits: v.to_bits() }),
            rotation: Scalar { bits: transform.rotation().to_bits() },
            scale: transform.scale().map(|v| Scalar { bits: v.to_bits() }),
            tex_coord_override: transform.tex_coord(),
        }),
    };
    let texture = |material: gltf::Material| material.emissive_texture().map(reference);
    document.materials().map(texture).collect()
}

/// `gltf::Material::normal_texture` of every material: the texture, its
/// coordinate set and its scale. In a validated document the index names a
/// texture.
#[verifier::external_body]
fn list_normals(document: &gltf::Document) -> (references: Vec<Option<NormalReference>>)
    requires
        valid_document(*document),
    ensures
        references@ == document_normals(*document),
        references@.len() == document_materials(*document).len(),
        forall|i: int|
            0 <= i < references@.len() ==> (#[trigger] references@[i] matches Some(reference)
                ==> reference.texture < document_textures(*document).len()),
{
    let reference = |info: gltf::material::NormalTexture| NormalReference {
        texture: info.texture().index(),
        tex_coord: info.tex_coord(),
        scale: Scalar { bits: info.scale().to_bits() },
    };
    let texture = |material: gltf::Material| material.normal_texture().map(reference);
    document.materials().map(texture).collect()
}

/// `gltf::Document::textures`: per texture its image, and the index and the
/// numeric codes of its sampler. In a validated document the image is one of
/// the document's.
#[verifier::external_body]
fn list_textures(document: &gltf::Document) -> (textures: Vec<SourceTexture>)
    requires
        valid_document(*document),
    ensures
        textures@ == document_textures(*document),
        forall|i: int|
            0 <= i < textures@.len() ==> (#[trigger] textures@[i]).image < document_images(
                *document,
            ).len(),
{
    let listed = document.textures().map(|texture| {
        let sampler = texture.sampler();
        SourceTexture {
            image: texture.source().index(),
            sampler: sampler.index(),
            mag_filter: sampler.mag_filter().map(|filter| filter.as_gl_enum()),
            min_filter: sampler.min_filter().map(|filter| filter.as_gl_enum()),
            wrap_s: sampler.wrap_s().as_gl_enum(),
            wrap_t: sampler.wrap_t().as_gl_enum(),
        }
    });
    listed.collect()
}

/// The image entries of `gltf::Document::as_json`, with the buffer views that
/// they name found by `gltf::Document::views`. In a validated document those
/// views exist.
#[verifier::external_body]
fn list_images(document: &gltf::Document) -> (images: Vec<SourceImage>)
    requires
        valid_document(*document),
    ensures
        images@.map_values(|image: SourceImage| image@) == document_images(*document),
{
    let view = |index: usize| {
        let view = document.views().nth(index)?;
        Some(SourceView {
            buffer: view.buffer().index(),
            offset: view.offset(),
            length: view.length(),
        })
    };
    let listed = document.as_json().images.iter().map(|image| SourceImage {
        view: image.buffer_view.and_then(|index| view(index.value())),
        uri: image.uri.clone(),
        mime_type: image.mime_type.as_ref().map(|kind| kind.0.clone()),
    });
    listed.collect()
}

/// `gltf::Document::buffers`: per buffer its URI, `None` for the binary chunk.
#[verifier::external_body]
pub(crate) fn list_buffers(document: &gltf::Document) -> (buffers: Vec<Option<String>>)
    ensures
        buffers@.map_values(|uri: Option<String>| text_of(uri)) == document_buffers(*document),
{
    let uri = |buffer: gltf::Buffer| match buffer.source() {
        gltf::buffer::Source::Uri(uri) => Some(uri.to_owned()),
        gltf::buffer::Source::Bin => None,
    };
    document.buffers().map(uri).collect()
}

/// `gltf::import_buffers` without a base directory: the bytes of every buffer,
/// from the binary chunk or from its data URI. Without other URIs nothing
/// outside the arguments is read.
#[verifier::external_body]
pub(crate) fn read_buffers(document: &gltf::Document, chunk: Option<Vec<u8>>) -> (result: Result<
    Vec<Vec<u8>>,
    gltf::Error,
>)
    requires
        forall|i: int|
            0 <= i < document_buffers(*document).len() ==> !is_external(
                #[trigger] document_buffers(*document)[i],
            ),
    ensures
        match result {
            Ok(buffers) => buffer_contents(*document, chunk_of(chunk)) == Some(rows(buffers@))
                && buffers@.len() == document_buffers(*document).len(),
            Err(_) => buffer_contents(*document, chunk_of(chunk)) is None,
        },
{
    let buffers = gltf::import_buffers(document, None, chunk)?;
    Ok(buffers.into_iter().map(|buffer| buffer.0).collect())
}

/// `gltf::Animation::name` of every animation.
#[verifier::external_body]
fn list_animation_names(document: &gltf::Document) -> (names: Vec<Option<String>>)
    requires
        valid_document(*document),
    ensures
        names@.map_values(|name: Option<String>| text_of(name)) == document_animation_names(
            *document,
        ),
{
    document.animations().map(|animation| animation.name().map(|name| name.to_owned())).collect()
}

/// `gltf::Document::as_json`: the target of every channel as it is written,
/// the index of the node and the property. Validation does not look at either.
/// There is a list per animation.
#[verifier::external_body]
fn list_targets(document: &gltf::Document) -> (targets: Vec<Vec<ChannelTarget>>)
    requires
        valid_document(*document),
    ensures
        rows(targets@) == document_targets(*document),
        targets@.len() == document_animation_names(*document).len(),
{
    let target = |channel: &gltf::json::animation::Channel| ChannelTarget {
        node: channel.target.node.value(),
        property: match channel.target.path {
            Checked::Valid(Property::Translation) => SourceProperty::Translation,
            Checked::Valid(Property::Rotation) => SourceProperty::Rotation,
            Checked::Valid(Property::Scale) => SourceProperty::Scale,
            Checked::Valid(Property::MorphTargetWeights) => SourceProperty::MorphTargetWeights,
            Checked::Invalid => SourceProperty::Unknown,
        },
    };
    let animations = document.as_json().animations.iter();
    animations.map(|animation| animation.channels.iter().map(target).collect()).collect()
}

/// `gltf::animation::Channel::sampler` of every channel: the interpolation and
/// the element counts of its input and output. There is an entry per channel.
#[verifier::external_body]
fn list_samplers(document: &gltf::Document) -> (samplers: Vec<Vec<ChannelSampler>>)
    requires
        valid_document(*document),
    ensures
        rows(samplers@) == document_samplers(*document),
        samplers@.len() == document_targets(*document).len(),
        forall|i: int|
            0 <= i < samplers@.len() ==> (#[trigger] samplers@[i])@.len() == document_targets(
                *document,
            )[i].len(),
{
    let sampler = |channel: gltf::animation::Channel| ChannelSampler {
        interpolation: match channel.sampler().interpolation() {
            gltf::animation::Interpolation::Linear => SourceInterpolation::Linear,
            gltf::animation::Interpolation::Step => SourceInterpolation::Step,
            gltf::animation::Interpolation::CubicSpline => SourceInterpolation::CubicSpline,
        },
        input_count: channel.sampler().input().count(),
        output_count: channel.sampler().output().count(),
    };
    document.animations().map(|animation| animation.channels().map(sampler).collect()).collect()
}

/// `gltf::Accessor::dimensions` of every channel's output. There is an entry
/// per channel.
#[verifier::external_body]
fn list_outputs(document: &gltf::Document) -> (outputs: Vec<Vec<Dimensions>>)
    requires
        valid_document(*document),
    ensures
        rows(outputs@) == document_outputs(*document),
        outputs@.len() == document_targets(*document).len(),
        forall|i: int|
            0 <= i < outputs@.len() ==> (#[trigger] outputs@[i])@.len() == document_targets(
                *document,
            )[i].len(),
{
    let shape = |channel: gltf::animation::Channel| match channel.sampler().output().dimensions() {
        gltf::accessor::Dimensions::Scalar => Dimensions::Scalar,
        gltf::accessor::Dimensions::Vec2 => Dimensions::Vec2,
        gltf::accessor::Dimensions::Vec3 => Dimensions::Vec3,
        gltf::accessor::Dimensions::Vec4 => Dimensions::Vec4,
        gltf::accessor::Dimensions::Mat2 => Dimensions::Mat2,
        gltf::accessor::Dimensions::Mat3 => Dimensions::Mat3,
        gltf::accessor::Dimensions::Mat4 => Dimensions::Mat4,
    };
    document.animations().map(|animation| animation.channels().map(shape).collect()).collect()
}

/// The displacements of one morph target.
#[derive(Debug)]
pub struct SourceTarget {
    pub positions: Option<Vec<[Scalar; 3]>>,
    pub normals: Option<Vec<[Scalar; 3]>>,
}

/// A primitive: its material and the values of its accessors.
#[derive(Debug)]
pub struct SourcePrimitive {
    pub material: Option<usize>,
    pub positions: Option<Vec<[Scalar; 3]>>,
    pub normals: Option<Vec<[Scalar; 3]>>,
    pub tex_coords0: Option<Vec<[Scalar; 2]>>,
    pub tex_coords1: Option<Vec<[Scalar; 2]>>,
    pub joints: Option<Vec<[u16; 4]>>,
    pub weights: Option<Vec<[Scalar; 4]>>,
    pub indices: Option<Vec<u32>>,
    pub targets: Vec<SourceTarget>,
    /// The largest minus the smallest coordinate of the first set, per axis.
    pub tex_coord_span: [Scalar; 2],
    /// The first attribute whose accessor cannot be read.
    pub unreadable: Option<Attribute>,
}

/// A skin: its joints and the inverse bind matrices, column by column.
#[derive(Debug)]
pub struct SourceSkin {
    pub joints: Vec<usize>,
    pub inverse_bind: Option<Vec<[Scalar; 16]>>,
    /// Whether the accessor of the matrices cannot be read.
    pub unreadable: bool,
}

/// A material with its textures resolved.
#[derive(Debug)]
pub struct SourceMaterial {
    pub name: Option<String>,
    pub inputs: MaterialInputs,
    pub unlit: bool,
    pub extras: Option<String>,
}

/// The output values of an animation channel.
#[derive(Debug)]
pub enum SourceOutputs {
    Translations(Vec<[Scalar; 3]>),
    Rotations(Vec<[Scalar; 4]>),
    Scales(Vec<[Scalar; 3]>),
    MorphTargetWeights,
}

/// An animation channel: what it drives and the values of its accessors.
#[derive(Debug)]
pub struct SourceChannel {
    pub target: ChannelTarget,
    pub sampler: ChannelSampler,
    pub output_dimensions: Dimensions,
    pub times: Option<Vec<Scalar>>,
    pub outputs: Option<SourceOutputs>,
    /// The squared length of each rotation among the outputs.
    pub lengths_squared: Vec<Scalar>,
}

/// An animation.
#[derive(Debug)]
pub struct SourceAnimation {
    pub name: Option<String>,
    pub channels: Vec<SourceChannel>,
}

/// What the loader looks at in a model file.
#[derive(Debug)]
pub struct SourceModel {
    pub nodes: Vec<SourceNode>,
    /// The rest pose: the local transform of each node.
    pub rest: Vec<NodeTrs>,
    pub skins: Vec<SourceSkin>,
    /// The primitives of each mesh.
    pub meshes: Vec<Vec<SourcePrimitive>>,
    pub materials: Vec<SourceMaterial>,
    pub textures: Vec<SourceTexture>,
    pub images: Vec<SourceImage>,
    pub animations: Vec<SourceAnimation>,
}

/// Whether `index` names one of `count` items, if it is there.
pub open spec fn names_one(index: Option<usize>, count: nat) -> bool {
    index matches Some(index) ==> index < count
}

impl SourceModel {
    /// Whether every node has a transform and every index names an item.
    pub open spec fn in_range(self) -> bool {
        &&& self.rest@.len() == self.nodes@.len()
        &&& forall|i: int, k: int|
            0 <= i < self.nodes@.len() && 0 <= k < self.nodes@[i].children@.len()
                ==> #[trigger] self.nodes@[i].children@[k] < self.nodes@.len()
        &&& forall|i: int|
            0 <= i < self.nodes@.len() ==> names_one(
                (#[trigger] self.nodes@[i]).mesh,
                self.meshes@.len(),
            ) && names_one(self.nodes@[i].skin, self.skins@.len())
        &&& forall|i: int, k: int|
            0 <= i < self.meshes@.len() && 0 <= k < self.meshes@[i]@.len() ==> names_one(
                (#[trigger] self.meshes@[i]@[k]).material,
                self.materials@.len(),
            )
    }
}

/// Whether each rotation among the outputs of `channel` has its squared length
/// beside it.
pub open spec fn is_measured(channel: SourceChannel) -> bool {
    channel.outputs matches Some(SourceOutputs::Rotations(rotations))
        ==> channel.lengths_squared@.len() == rotations@.len()
}

impl SourceModel {
    /// Whether each rotation of each channel has its squared length beside it.
    pub open spec fn measured(self) -> bool {
        forall|i: int, k: int|
            0 <= i < self.animations@.len() && 0 <= k < self.animations@[i].channels@.len()
                ==> is_measured(#[trigger] self.animations@[i].channels@[k])
    }
}

/// Whether a channel drives a known property of one of `nodes` nodes.
pub open spec fn is_known_target(target: ChannelTarget, nodes: nat) -> bool {
    target.node < nodes && target.property != SourceProperty::Unknown
}

/// Whether the channels of an animation drive known properties of nodes.
pub open spec fn has_known_targets(animation: SourceAnimation, nodes: nat) -> bool {
    forall|k: int|
        0 <= k < animation.channels@.len() ==> is_known_target(
            (#[trigger] animation.channels@[k]).target,
            nodes,
        )
}

impl SourceModel {
    /// Whether every channel drives a known property of a node.
    pub open spec fn known_targets(self) -> bool {
        forall|i: int|
            0 <= i < self.animations@.len() ==> has_known_targets(
                #[trigger] self.animations@[i],
                self.nodes@.len(),
            )
    }

    /// Whether every channel drives a known property of a node.
    pub fn targets_are_known(&self) -> (known: bool)
        ensures
            known == self.known_targets(),
    {
        let nodes: usize = self.nodes.len();
        let mut i: usize = 0;
        while i < self.animations.len()
            invariant
                i <= self.animations@.len(),
                nodes == self.nodes@.len(),
                forall|j: int|
                    0 <= j < i ==> has_known_targets(#[trigger] self.animations@[j], nodes as nat),
            decreases self.animations@.len() - i,
        {
            let animation = &self.animations[i];
            let mut k: usize = 0;
            while k < animation.channels.len()
                invariant
                    i < self.animations@.len(),
                    *animation == self.animations@[i as int],
                    k <= animation.channels@.len(),
                    nodes == self.nodes@.len(),
                    forall|j: int|
                        0 <= j < k ==> is_known_target(
                            (#[trigger] animation.channels@[j]).target,
                            nodes as nat,
                        ),
                decreases animation.channels@.len() - k,
            {
                let target = animation.channels[k].target;
                if target.node >= nodes || target.property == SourceProperty::Unknown {
                    assert(!is_known_target(animation.channels@[k as int].target, nodes as nat));
                    assert(!has_known_targets(self.animations@[i as int], nodes as nat));
                    return false;
                }
                k += 1;
            }
            i += 1;
        }
        true
    }
}

/// The transform of a reference, or none.
pub open spec fn is_transform_of(
    authored: Option<TextureTransform>,
    transform: TextureTransform,
) -> bool {
    match authored {
        Some(authored) => transform == authored,
        None => crate::material::is_default_transform(transform),
    }
}

/// The magnification filter of a code.
pub open spec fn mag_filter_of(code: u32) -> GltfMagFilter {
    if code == 9728 {
        GltfMagFilter::Nearest
    } else {
        GltfMagFilter::Linear
    }
}

/// The minification filter of a code.
pub open spec fn min_filter_of(code: u32) -> GltfMinFilter {
    if code == 9728 {
        GltfMinFilter::Nearest
    } else if code == 9729 {
        GltfMinFilter::Linear
    } else if code == 9984 {
        GltfMinFilter::NearestMipmapNearest
    } else if code == 9985 {
        GltfMinFilter::LinearMipmapNearest
    } else if code == 9986 {
        GltfMinFilter::NearestMipmapLinear
    } else {
        GltfMinFilter::LinearMipmapLinear
    }
}

/// The wrapping mode of a code.
pub open spec fn wrap_mode_of(code: u32) -> GltfWrapMode {
    if code == 33071 {
        GltfWrapMode::ClampToEdge
    } else if code == 33648 {
        GltfWrapMode::MirroredRepeat
    } else {
        GltfWrapMode::Repeat
    }
}

/// The sampler of a texture.
pub open spec fn sampler_of(texture: SourceTexture) -> GltfSampler {
    GltfSampler {
        index: texture.sampler,
        mag_filter: match texture.mag_filter {
            Some(code) => Some(mag_filter_of(code)),
            None => None,
        },
        min_filter: match texture.min_filter {
            Some(code) => Some(min_filter_of(code)),
            None => None,
        },
        wrap_s: wrap_mode_of(texture.wrap_s),
        wrap_t: wrap_mode_of(texture.wrap_t),
    }
}

/// Whether `info` is the reference `reference` resolved for `role`.
pub open spec fn is_resolved(
    textures: Seq<SourceTexture>,
    reference: Option<TextureReference>,
    role: TextureRole,
    info: Option<TextureInfo>,
) -> bool {
    match (reference, info) {
        (Some(reference), Some(info)) => {
            let texture = textures[reference.texture as int];
            &&& info.texture_index == reference.texture
            &&& info.image_index == texture.image
            &&& info.sampler == sampler_of(texture)
            &&& info.tex_coord == reference.tex_coord
            &&& is_transform_of(reference.transform, info.transform)
            &&& info.role == role
            &&& info.color_space == crate::material::role_color_space(role)
        },
        (None, None) => true,
        _ => false,
    }
}

/// Whether `info` is the normal reference `reference` resolved. Its texture
/// has no transform.
pub open spec fn is_resolved_normal(
    textures: Seq<SourceTexture>,
    reference: Option<NormalReference>,
    info: Option<ScaledTextureInfo>,
) -> bool {
    match (reference, info) {
        (Some(reference), Some(info)) => info.scale == reference.scale && is_resolved(
            textures,
            Some(
                TextureReference {
                    texture: reference.texture,
                    tex_coord: reference.tex_coord,
                    transform: None,
                },
            ),
            TextureRole::Normal,
            Some(info.texture),
        ),
        (None, None) => true,
        _ => false,
    }
}

/// Whether `material` has the given values and textures. A material without a
/// cutoff cuts off at one half.
pub open spec fn is_material_of(
    textures: Seq<SourceTexture>,
    values: MaterialValuesView,
    alpha: AlphaPolicy,
    base_color: Option<TextureReference>,
    normal: Option<NormalReference>,
    emissive: Option<TextureReference>,
    material: SourceMaterial,
) -> bool {
    let inputs = material.inputs;
    &&& text_of(material.name) == values.name
    &&& material.unlit == values.unlit
    &&& text_of(material.extras) == values.extras
    &&& inputs.base_color_factor == values.base_color_factor
    &&& inputs.emissive_factor == values.emissive_factor
    &&& inputs.alpha_mode == alpha.mode
    &&& inputs.alpha_cutoff == (match alpha.cutoff {
        Some(cutoff) => cutoff,
        None => Scalar { bits: HALF },
    })
    &&& inputs.double_sided == values.double_sided
    &&& is_resolved(textures, base_color, TextureRole::BaseColor, inputs.base_color_texture)
    &&& is_resolved_normal(textures, normal, inputs.normal_texture)
    &&& is_resolved(textures, emissive, TextureRole::Emissive, inputs.emissive_texture)
}

/// Whether `primitive` has the material `material` and no values yet.
pub open spec fn is_bare_primitive(material: Option<usize>, primitive: SourcePrimitive) -> bool {
    &&& primitive.material == material
    &&& primitive.positions is None
    &&& primitive.normals is None
    &&& primitive.tex_coords0 is None
    &&& primitive.tex_coords1 is None
    &&& primitive.joints is None
    &&& primitive.weights is None
    &&& primitive.indices is None
    &&& primitive.targets@.len() == 0
    &&& primitive.unreadable is None
}

/// Whether `channel` has the given target, sampler and shape and no values yet.
pub open spec fn is_bare_channel(
    target: ChannelTarget,
    sampler: ChannelSampler,
    shape: Dimensions,
    channel: SourceChannel,
) -> bool {
    &&& channel.target == target
    &&& channel.sampler == sampler
    &&& channel.output_dimensions == shape
    &&& channel.times is None
    &&& channel.outputs is None
    &&& channel.lengths_squared@.len() == 0
}

/// Whether `model` has the nodes, materials, textures and images of `document`.
pub open spec fn has_scene_of(document: gltf::Document, model: SourceModel) -> bool {
    &&& model.nodes@.map_values(|node: SourceNode| node@) == document_nodes(document)
    &&& are_transforms(document_transforms(document), model.rest@)
    &&& model.materials@.len() == document_materials(document).len()
    &&& forall|i: int|
        0 <= i < model.materials@.len() ==> is_material_of(
            document_textures(document),
            document_materials(document)[i],
            document_alphas(document)[i],
            document_base_colors(document)[i],
            document_normals(document)[i],
            document_emissives(document)[i],
            #[trigger] model.materials@[i],
        )
    &&& model.textures@ == document_textures(document)
    &&& model.images@.map_values(|image: SourceImage| image@) == document_images(document)
}

/// Whether `model` is the structure of `document`, without accessor values.
pub open spec fn is_structure_of(document: gltf::Document, model: SourceModel) -> bool {
    &&& has_scene_of(document, model)
    &&& model.skins@.len() == document_skins(document).len()
    &&& forall|i: int|
        0 <= i < model.skins@.len() ==> (#[trigger] model.skins@[i]).joints@ == document_skins(
            document,
        )[i] && model.skins@[i].inverse_bind is None && !model.skins@[i].unreadable
    &&& model.meshes@.len() == document_meshes(document).len()
    &&& forall|i: int|
        0 <= i < model.meshes@.len() ==> (#[trigger] model.meshes@[i])@.len() == document_meshes(
            document,
        )[i].len()
    &&& forall|i: int, k: int|
        0 <= i < model.meshes@.len() && 0 <= k < model.meshes@[i]@.len() ==> is_bare_primitive(
            document_meshes(document)[i][k],
            #[trigger] model.meshes@[i]@[k],
        )
    &&& model.animations@.len() == document_targets(document).len()
    &&& forall|i: int|
        0 <= i < model.animations@.len() ==> text_of((#[trigger] model.animations@[i]).name)
            == document_animation_names(document)[i] && model.animations@[i].channels@.len()
            == document_targets(document)[i].len()
    &&& forall|i: int, k: int|
        0 <= i < model.animations@.len() && 0 <= k < model.animations@[i].channels@.len()
            ==> is_bare_channel(
            document_targets(document)[i][k],
            document_samplers(document)[i][k],
            document_outputs(document)[i][k],
            #[trigger] model.animations@[i].channels@[k],
        )
}

/// A copy of an optional text.
pub(crate) fn copy_text(text: &Option<String>) -> (copy: Option<String>)
    ensures
        copy == *text,
{
    match text {
        Some(text) => Some(text.clone()),
        None => None,
    }
}

fn mag_filter(code: u32) -> (filter: GltfMagFilter)
    ensures
        filter == mag_filter_of(code),
{
    if code == 9728 {
        GltfMagFilter::Nearest
    } else {
        GltfMagFilter::Linear
    }
}

fn min_filter(code: u32) -> (filter: GltfMinFilter)
    ensures
        filter == min_filter_of(code),
{
    if code == 9728 {
        GltfMinFilter::Nearest
    } else if code == 9729 {
        GltfMinFilter::Linear
    } else if code == 9984 {
        GltfMinFilter::NearestMipmapNearest
    } else if code == 9985 {
        GltfMinFilter::LinearMipmapNearest
    } else if code == 9986 {
        GltfMinFilter::NearestMipmapLinear
    } else {
        GltfMinFilter::LinearMipmapLinear
    }
}

fn wrap_mode(code: u32) -> (mode: GltfWrapMode)
    ensures
        mode == wrap_mode_of(code),
{
    if code == 33071 {
        GltfWrapMode::ClampToEdge
    } else if code == 33648 {
        GltfWrapMode::MirroredRepeat
    } else {
        GltfWrapMode::Repeat
    }
}

impl SourceTexture {
    /// The sampler of the texture.
    pub fn gltf_sampler(&self) -> (sampler: GltfSampler)
        ensures
            sampler == sampler_of(*self),
    {
        GltfSampler {
            index: self.sampler,
            mag_filter: match self.mag_filter {
                Some(code) => Some(mag_filter(code)),
                None => None,
            },
            min_filter: match self.min_filter {
                Some(code) => Some(min_filter(code)),
                None => None,
            },
            wrap_s: wrap_mode(self.wrap_s),
            wrap_t: wrap_mode(self.wrap_t),
        }
    }
}

/// The texture that a material refers to, resolved for `role`.
pub fn gltf_texture_info(
    textures: &Vec<SourceTexture>,
    reference: Option<TextureReference>,
    role: TextureRole,
) -> (info: Option<TextureInfo>)
    requires
        reference matches Some(reference) ==> reference.texture < textures@.len(),
    ensures
        is_resolved(textures@, reference, role, info),
{
    match reference {
        Some(reference) => {
            let texture = textures[reference.texture];
            let transform = match reference.transform {
                Some(transform) => transform,
                None => TextureTransform::default(),
            };
            Some(
                TextureInfo {
                    texture_index: reference.texture,
                    image_index: texture.image,
                    sampler: texture.gltf_sampler(),
                    tex_coord: reference.tex_coord,
                    transform,
                    role,
                    color_space: role.color_space(),
                },
            )
        },
        None => None,
    }
}

/// A material from its values and texture references.
pub fn gltf_material_inputs(
    textures: &Vec<SourceTexture>,
    values: &MaterialValues,
    alpha: AlphaPolicy,
    base_color: Option<TextureReference>,
    normal: Option<NormalReference>,
    emissive: Option<TextureReference>,
) -> (material: SourceMaterial)
    requires
        base_color matches Some(reference) ==> reference.texture < textures@.len(),
        normal matches Some(reference) ==> reference.texture < textures@.len(),
        emissive matches Some(reference) ==> reference.texture < textures@.len(),
    ensures
        is_material_of(textures@, values@, alpha, base_color, normal, emissive, material),
{
    let normal_texture = match normal {
        Some(reference) => {
            let plain = TextureReference {
                texture: reference.texture,
                tex_coord: reference.tex_coord,
                transform: None,
            };
            match gltf_texture_info(textures, Some(plain), TextureRole::Normal) {
                Some(texture) => Some(ScaledTextureInfo { texture, scale: reference.scale }),
                None => None,
            }
        },
        None => None,
    };
    let inputs = MaterialInputs {
        base_color_factor: values.base_color_factor,
        base_color_texture: gltf_texture_info(textures, base_color, TextureRole::BaseColor),
        normal_texture,
        emissive_factor: values.emissive_factor,
        emissive_texture: gltf_texture_info(textures, emissive, TextureRole::Emissive),
        alpha_mode: alpha.mode,
        alpha_cutoff: match alpha.cutoff {
            Some(cutoff) => cutoff,
            None => Scalar { bits: HALF },
        },
        double_sided: values.double_sided,
    };
    SourceMaterial {
        name: copy_text(&values.name),
        inputs,
        unlit: values.unlit,
        extras: copy_text(&values.extras),
    }
}

fn bare_skins(rows: &Vec<Vec<usize>>) -> (skins: Vec<SourceSkin>)
    ensures
        skins@.len() == rows@.len(),
        forall|i: int|
            0 <= i < skins@.len() ==> (#[trigger] skins@[i]).joints@ == rows@[i]@
                && skins@[i].inverse_bind is None && !skins@[i].unreadable,
{
    let mut skins: Vec<SourceSkin> = Vec::new();
    let mut i: usize = 0;
    while i < rows.len()
        invariant
            i <= rows.len(),
            skins@.len() == i,
            forall|k: int|
                0 <= k < i ==> (#[trigger] skins@[k]).joints@ == rows@[k]@
                    && skins@[k].inverse_bind is None && !skins@[k].unreadable,
        decreases rows.len() - i,
    {
        let mut joints: Vec<usize> = Vec::new();
        let mut k: usize = 0;
        while k < rows[i].len()
            invariant
                i < rows.len(),
                k <= rows@[i as int]@.len(),
                joints@ =~= rows@[i as int]@.take(k as int),
            decreases rows@[i as int]@.len() - k,
        {
            joints.push(rows[i][k]);
            k += 1;
        }
        assert(joints@ =~= rows@[i as int]@);
        skins.push(SourceSkin { joints, inverse_bind: None, unreadable: false });
        i += 1;
    }
    skins
}

fn bare_meshes(rows: &Vec<Vec<Option<usize>>>) -> (meshes: Vec<Vec<SourcePrimitive>>)
    ensures
        meshes@.len() == rows@.len(),
        forall|i: int|
            0 <= i < meshes@.len() ==> (#[trigger] meshes@[i])@.len() == rows@[i]@.len(),
        forall|i: int, k: int|
            0 <= i < meshes@.len() && 0 <= k < meshes@[i]@.len() ==> is_bare_primitive(
                rows@[i]@[k],
                #[trigger] meshes@[i]@[k],
            ),
{
    let mut meshes: Vec<Vec<SourcePrimitive>> = Vec::new();
    let mut i: usize = 0;
    while i < rows.len()
        invariant
            i <= rows.len(),
            meshes@.len() == i,
            forall|j: int|
                0 <= j < meshes@.len() ==> (#[trigger] meshes@[j])@.len() == rows@[j]@.len(),
            forall|j: int, k: int|
                0 <= j < meshes@.len() && 0 <= k < meshes@[j]@.len() ==> is_bare_primitive(
                    rows@[j]@[k],
                    #[trigger] meshes@[j]@[k],
                ),
        decreases rows.len() - i,
    {
        let mut primitives: Vec<SourcePrimitive> = Vec::new();
        let mut k: usize = 0;
        while k < rows[i].len()
            invariant
                i < rows.len(),
                k <= rows@[i as int]@.len(),
                primitives@.len() == k,
                forall|j: int|
                    0 <= j < k ==> is_bare_primitive(
                        rows@[i as int]@[j],
                        #[trigger] primitives@[j],
                    ),
            decreases rows@[i as int]@.len() - k,
        {
            primitives.push(
                SourcePrimitive {
                    material: rows[i][k],
                    positions: None,
                    normals: None,
                    tex_coords0: None,
                    tex_coords1: None,
                    joints: None,
                    weights: None,
                    indices: None,
                    targets: Vec::new(),
                    tex_coord_span: [Scalar::zero(), Scalar::zero()],
                    unreadable: None,
                },
            );
            k += 1;
        }
        let ghost before = meshes@;
        meshes.push(primitives);
        assert(meshes@ =~= before.push(primitives));
        i += 1;
    }
    meshes
}

fn bare_animations(
    names: &Vec<Option<String>>,
    targets: &Vec<Vec<ChannelTarget>>,
    samplers: &Vec<Vec<ChannelSampler>>,
    shapes: &Vec<Vec<Dimensions>>,
) -> (animations: Vec<SourceAnimation>)
    requires
        names@.len() == targets@.len(),
        samplers@.len() == targets@.len(),
        shapes@.len() == targets@.len(),
        forall|i: int|
            0 <= i < targets@.len() ==> (#[trigger] samplers@[i])@.len() == targets@[i]@.len(),
        forall|i: int|
            0 <= i < targets@.len() ==> (#[trigger] shapes@[i])@.len() == targets@[i]@.len(),
    ensures
        animations@.len() == targets@.len(),
        forall|i: int|
            0 <= i < animations@.len() ==> (#[trigger] animations@[i]).name == names@[i]
                && animations@[i].channels@.len() == targets@[i]@.len(),
        forall|i: int, k: int|
            0 <= i < animations@.len() && 0 <= k < animations@[i].channels@.len()
                ==> is_bare_channel(
                targets@[i]@[k],
                samplers@[i]@[k],
                shapes@[i]@[k],
                #[trigger] animations@[i].channels@[k],
            ),
{
    let mut animations: Vec<SourceAnimation> = Vec::new();
    let mut i: usize = 0;
    while i < targets.len()
        invariant
            i <= targets.len(),
            names@.len() == targets@.len(),
            samplers@.len() == targets@.len(),
            shapes@.len() == targets@.len(),
            forall|i: int|
                0 <= i < targets@.len() ==> (#[trigger] samplers@[i])@.len() == targets@[i]@.len(),
            forall|i: int|
                0 <= i < targets@.len() ==> (#[trigger] shapes@[i])@.len() == targets@[i]@.len(),
            animations@.len() == i,
            forall|j: int|
                0 <= j < animations@.len() ==> (#[trigger] animations@[j]).name == names@[j]
                    && animations@[j].channels@.len() == targets@[j]@.len(),
            forall|j: int, k: int|
                0 <= j < animations@.len() && 0 <= k < animations@[j].channels@.len()
                    ==> is_bare_channel(
                    targets@[j]@[k],
                    samplers@[j]@[k],
                    shapes@[j]@[k],
                    #[trigger] animations@[j].channels@[k],
                ),
        decreases targets.len() - i,
    {
        let mut channels: Vec<SourceChannel> = Vec::new();
        let mut k: usize = 0;
        assert(samplers@[i as int]@.len() == targets@[i as int]@.len());
        assert(shapes@[i as int]@.len() == targets@[i as int]@.len());
        while k < targets[i].len()
            invariant
                i < targets.len(),
                samplers@.len() == targets@.len(),
                shapes@.len() == targets@.len(),
                samplers@[i as int]@.len() == targets@[i as int]@.len(),
                shapes@[i as int]@.len() == targets@[i as int]@.len(),
                k <= targets@[i as int]@.len(),
                channels@.len() == k,
                forall|j: int|
                    0 <= j < k ==> is_bare_channel(
                        targets@[i as int]@[j],
                        samplers@[i as int]@[j],
                        shapes@[i as int]@[j],
                        #[trigger] channels@[j],
                    ),
            decreases targets@[i as int]@.len() - k,
        {
            channels.push(
                SourceChannel {
                    target: targets[i][k],
                    sampler: samplers[i][k],
                    output_dimensions: shapes[i][k],
                    times: None,
                    outputs: None,
                    lengths_squared: Vec::new(),
                },
            );
            k += 1;
        }
        let ghost before = animations@;
        let animation = SourceAnimation { name: copy_text(&names[i]), channels };
        animations.push(animation);
        assert(animations@ =~= before.push(animation));
        i += 1;
    }
    animations
}

impl SourceModel {
    /// Reads the structure of a validated document. The accessor values are
    /// left out.
    pub fn read(document: &gltf::Document) -> (model: Self)
        requires
            valid_document(*document),
        ensures
            is_structure_of(*document, model),
            model.in_range(),
    {
        let nodes = list_nodes(document);
        let rest = list_transforms(document);
        let joints = list_skins(document);
        let primitives = list_meshes(document);
        let values = list_materials(document);
        let alphas = list_alphas(document);
        let base_colors = list_base_colors(document);
        let emissives = list_emissives(document);
        let normals = list_normals(document);
        let textures = list_textures(document);
        let images = list_images(document);
        let names = list_animation_names(document);
        let targets = list_targets(document);
        let samplers = list_samplers(document);
        let shapes = list_outputs(document);
        proof {
            assert(rows(joints@).len() == joints@.len());
            assert(rows(primitives@).len() == primitives@.len());
            assert(rows(targets@).len() == targets@.len());
            assert forall|i: int| 0 <= i < targets@.len() implies (
            #[trigger] document_targets(*document)[i]) == targets@[i]@ by {
                assert(rows(targets@)[i] == targets@[i]@);
            }
            assert(values@.map_values(|values: MaterialValues| values@).len() == values@.len());
            assert(names@.map_values(|name: Option<String>| text_of(name)).len() == names@.len());
            assert(nodes@.map_values(|node: SourceNode| node@).len() == nodes@.len());
        }
        let mut materials: Vec<SourceMaterial> = Vec::new();
        let mut i: usize = 0;
        while i < values.len()
            invariant
                i <= values.len(),
                materials@.len() == i,
                values@.map_values(|values: MaterialValues| values@) == document_materials(
                    *document,
                ),
                textures@ == document_textures(*document),
                alphas@ == document_alphas(*document),
                base_colors@ == document_base_colors(*document),
                emissives@ == document_emissives(*document),
                normals@ == document_normals(*document),
                alphas@.len() == values@.len(),
                base_colors@.len() == values@.len(),
                emissives@.len() == values@.len(),
                normals@.len() == values@.len(),
                forall|k: int|
                    0 <= k < base_colors@.len() ==> (#[trigger] base_colors@[k] matches Some(
                        reference,
                    ) ==> reference.texture < textures@.len()),
                forall|k: int|
                    0 <= k < emissives@.len() ==> (#[trigger] emissives@[k] matches Some(reference)
                        ==> reference.texture < textures@.len()),
                forall|k: int|
                    0 <= k < normals@.len() ==> (#[trigger] normals@[k] matches Some(reference)
                        ==> reference.texture < textures@.len()),
                forall|k: int|
                    0 <= k < materials@.len() ==> is_material_of(
                        document_textures(*document),
                        document_materials(*document)[k],
                        document_alphas(*document)[k],
                        document_base_colors(*document)[k],
                        document_normals(*document)[k],
                        document_emissives(*document)[k],
                        #[trigger] materials@[k],
                    ),
            decreases values.len() - i,
        {
            let material = gltf_material_inputs(
                &textures,
                &values[i],
                alphas[i],
                base_colors[i],
                normals[i],
                emissives[i],
            );
            assert(document_materials(*document)[i as int] == values@[i as int]@);
            materials.push(material);
            i += 1;
        }
        let skins = bare_skins(&joints);
        let meshes = bare_meshes(&primitives);
        proof {
            assert forall|i: int| 0 <= i < samplers@.len() implies (#[trigger] samplers@[i])@.len()
                == targets@[i]@.len() by {
                assert(document_targets(*document)[i] == targets@[i]@);
            }
            assert forall|i: int| 0 <= i < shapes@.len() implies (#[trigger] shapes@[i])@.len()
                == targets@[i]@.len() by {
                assert(document_targets(*document)[i] == targets@[i]@);
            }
        }
        let animations = bare_animations(&names, &targets, &samplers, &shapes);
        let model = SourceModel {
            nodes,
            rest,
            skins,
            meshes,
            materials,
            textures,
            images,
            animations,
        };
        proof {
            assert forall|i: int| 0 <= i < model.skins@.len() implies (
            #[trigger] model.skins@[i]).joints@ == document_skins(*document)[i] by {
                assert(rows(joints@)[i] == joints@[i]@);
            }
            assert forall|i: int| 0 <= i < model.meshes@.len() implies (
            #[trigger] model.meshes@[i])@.len() == document_meshes(*document)[i].len() by {
                assert(rows(primitives@)[i] == primitives@[i]@);
            }
            assert forall|i: int, k: int|
                0 <= i < model.meshes@.len() && 0 <= k
                    < model.meshes@[i]@.len() implies is_bare_primitive(
                document_meshes(*document)[i][k],
                #[trigger] model.meshes@[i]@[k],
            ) by {
                assert(rows(primitives@)[i] == primitives@[i]@);
                assert(is_bare_primitive(primitives@[i]@[k], meshes@[i]@[k]));
            }
            assert forall|i: int| 0 <= i < model.animations@.len() implies text_of(
                (#[trigger] model.animations@[i]).name,
            ) == document_animation_names(*document)[i] by {
                assert(names@.map_values(|name: Option<String>| text_of(name))[i] == text_of(
                    names@[i],
                ));
            }
            assert forall|i: int, k: int|
                0 <= i < model.animations@.len() && 0 <= k
                    < model.animations@[i].channels@.len() implies is_bare_channel(
                document_targets(*document)[i][k],
                document_samplers(*document)[i][k],
                document_outputs(*document)[i][k],
                #[trigger] model.animations@[i].channels@[k],
            ) by {
                assert(rows(targets@)[i] == targets@[i]@);
                assert(rows(samplers@)[i] == samplers@[i]@);
                assert(rows(shapes@)[i] == shapes@[i]@);
                assert(is_bare_channel(
                    targets@[i]@[k],
                    samplers@[i]@[k],
                    shapes@[i]@[k],
                    animations@[i].channels@[k],
                ));
            }
            assert forall|i: int, k: int|
                0 <= i < model.meshes@.len() && 0 <= k < model.meshes@[i]@.len() implies names_one(
                (#[trigger] model.meshes@[i]@[k]).material,
                model.materials@.len(),
            ) by {
                assert(is_bare_primitive(primitives@[i]@[k], meshes@[i]@[k]));
                assert(primitives@[i]@[k] matches Some(material) ==> material
                    < document_materials(*document).len());
            }
        }
        model
    }
}

/// The codes of a file stand for the filters and wrap modes of OpenGL.
pub proof fn sampler_codes_are_those_of_opengl(code: u32)
    ensures
        mag_filter_of(code) is Nearest <==> code == 0x2600,
        code == 0x2600 ==> min_filter_of(code) is Nearest,
        code == 0x2601 ==> min_filter_of(code) is Linear && mag_filter_of(code) is Linear,
        code == 0x2700 ==> min_filter_of(code) is NearestMipmapNearest,
        code == 0x2701 ==> min_filter_of(code) is LinearMipmapNearest,
        code == 0x2702 ==> min_filter_of(code) is NearestMipmapLinear,
        code == 0x2703 ==> min_filter_of(code) is LinearMipmapLinear,
        wrap_mode_of(code) is ClampToEdge <==> code == 0x812f,
        wrap_mode_of(code) is MirroredRepeat <==> code == 0x8370,
        code == 0x2901 ==> wrap_mode_of(code) is Repeat,
{
}

/// A sampler keeps each of its filters and its two wrap modes apart; a filter
/// that the file leaves open stays open.
pub proof fn samplers_keep_their_axes(texture: SourceTexture)
    ensures
        ({
            let sampler = sampler_of(texture);
            &&& sampler.index == texture.sampler
            &&& sampler.mag_filter is Some <==> texture.mag_filter is Some
            &&& sampler.min_filter is Some <==> texture.min_filter is Some
            &&& sampler.mag_filter matches Some(filter) ==> (filter is Nearest
                <==> texture.mag_filter == Some(0x2600u32))
            &&& sampler.min_filter matches Some(filter) ==> (filter is NearestMipmapLinear
                <==> texture.min_filter == Some(0x2702u32))
            &&& sampler.wrap_s is ClampToEdge <==> texture.wrap_s == 0x812f
            &&& sampler.wrap_t is ClampToEdge <==> texture.wrap_t == 0x812f
            &&& sampler.wrap_s is MirroredRepeat <==> texture.wrap_s == 0x8370
            &&& sampler.wrap_t is MirroredRepeat <==> texture.wrap_t == 0x8370
        }),
{
}

/// A texture of a material reads the image of the texture that it names, with
/// the coordinates that it names, through the transform that it names; one that
/// names no transform is not moved, turned or scaled.
pub proof fn textures_read_the_image_they_name(
    textures: Seq<SourceTexture>,
    reference: TextureReference,
    role: TextureRole,
    info: TextureInfo,
)
    requires
        is_resolved(textures, Some(reference), role, Some(info)),
    ensures
        info.texture_index == reference.texture,
        info.image_index == textures[reference.texture as int].image,
        info.tex_coord == reference.tex_coord,
        info.role == role,
        reference.transform matches Some(transform) ==> info.transform == transform,
        reference.transform is None ==> {
            &&& info.transform.offset@[0].bits == 0 && info.transform.offset@[1].bits == 0
            &&& info.transform.rotation.bits == 0
            &&& info.transform.scale@[0].bits == 0x3f80_0000 && info.transform.scale@[1].bits
                == 0x3f80_0000
            &&& info.transform.tex_coord_override is None
        },
{
}

/// A material takes its factors from the file, a cutoff of one half where the
/// file has none, and each texture from the slot of its own.
pub proof fn materials_keep_what_the_file_says(
    textures: Seq<SourceTexture>,
    values: MaterialValuesView,
    alpha: AlphaPolicy,
    base_color: Option<TextureReference>,
    normal: Option<NormalReference>,
    emissive: Option<TextureReference>,
    material: SourceMaterial,
)
    requires
        is_material_of(textures, values, alpha, base_color, normal, emissive, material),
    ensures
        ({
            let inputs = material.inputs;
            &&& inputs.base_color_factor == values.base_color_factor
            &&& inputs.emissive_factor == values.emissive_factor
            &&& inputs.alpha_mode == alpha.mode
            &&& alpha.cutoff matches Some(cutoff) ==> inputs.alpha_cutoff == cutoff
            &&& alpha.cutoff is None ==> inputs.alpha_cutoff.bits == 0x3f00_0000
            &&& inputs.double_sided == values.double_sided
            &&& material.unlit == values.unlit
            &&& inputs.base_color_texture is Some <==> base_color is Some
            &&& inputs.normal_texture is Some <==> normal is Some
            &&& inputs.emissive_texture is Some <==> emissive is Some
            &&& base_color matches Some(reference) ==> (inputs.base_color_texture matches Some(info)
                && info.texture_index == reference.texture && info.role is BaseColor
                && info.color_space is Srgb)
            &&& normal matches Some(reference) ==> (inputs.normal_texture matches Some(info)
                && info.texture.texture_index == reference.texture && info.scale
                == reference.scale && info.texture.role is Normal
                && info.texture.color_space is Linear)
            &&& emissive matches Some(reference) ==> (inputs.emissive_texture matches Some(info)
                && info.texture_index == reference.texture && info.role is Emissive
                && info.color_space is Srgb)
        }),
{
}

/// The structure of a document keeps its nodes, skins, materials and animations
/// in their order, each node with its children, its mesh and its skin, and each
/// channel with its target.
pub proof fn structures_keep_their_order(
    document: gltf::Document,
    model: SourceModel,
    i: int,
    k: int,
)
    requires
        is_structure_of(document, model),
    ensures
        model.nodes@.len() == document_nodes(document).len(),
        0 <= i < model.nodes@.len() ==> {
            let node = document_nodes(document)[i];
            &&& text_of(model.nodes@[i].name) == node.name
            &&& model.nodes@[i].children@ == node.children
            &&& model.nodes@[i].mesh == node.mesh
            &&& model.nodes@[i].skin == node.skin
        },
        0 <= i < model.skins@.len() ==> model.skins@[i].joints@ == document_skins(document)[i],
        0 <= i < model.meshes@.len() && 0 <= k < model.meshes@[i]@.len()
            ==> model.meshes@[i]@[k].material == document_meshes(document)[i][k],
        0 <= i < model.animations@.len() ==> text_of(model.animations@[i].name)
            == document_animation_names(document)[i],
        0 <= i < model.animations@.len() && 0 <= k < model.animations@[i].channels@.len()
            ==> model.animations@[i].channels@[k].target == document_targets(document)[i][k]
            && model.animations@[i].channels@[k].sampler == document_samplers(document)[i][k],
{
    let views = model.nodes@.map_values(|node: SourceNode| node@);
    if 0 <= i < model.nodes@.len() {
        assert(views[i] == model.nodes@[i]@);
    }
    if 0 <= i < model.animations@.len() && 0 <= k < model.animations@[i].channels@.len() {
        assert(is_bare_channel(
            document_targets(document)[i][k],
            document_samplers(document)[i][k],
            document_outputs(document)[i][k],
            model.animations@[i].channels@[k],
        ));
    }
    if 0 <= i < model.meshes@.len() && 0 <= k < model.meshes@[i]@.len() {
        assert(is_bare_primitive(document_meshes(document)[i][k], model.meshes@[i]@[k]));
    }
}

/// The targets of a model are known exactly where each channel drives a property
/// of one of its nodes.
pub proof fn known_targets_are_nodes(model: SourceModel)
    ensures
        model.known_targets() <==> forall|i: int, k: int|
            0 <= i < model.animations@.len() && 0 <= k < model.animations@[i].channels@.len() ==> {
                let target = (#[trigger] model.animations@[i].channels@[k]).target;
                target.node < model.nodes@.len() && !(target.property is Unknown)
            },
{
    if model.known_targets() {
        assert forall|i: int, k: int|
            0 <= i < model.animations@.len() && 0 <= k
                < model.animations@[i].channels@.len() implies {
            let target = (#[trigger] model.animations@[i].channels@[k]).target;
            target.node < model.nodes@.len() && !(target.property is Unknown)
        } by {
            assert(has_known_targets(model.animations@[i], model.nodes@.len()));
        }
    }
}

} // verus!
