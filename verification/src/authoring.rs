//! Authored materials: which shading model each material of a file gets, and
//! what its application-specific values say.

use vstd::prelude::*;

use crate::import::descriptor_textures;
use crate::material::{
    role_color_space, selected_tex_coord, MaterialAlphaMode, MaterialAsset, MaterialModel,
    MtoonMaterialDescriptor, MtoonOutlineWidthMode, PocketLitMaterial, RenderPhase, TextureInfo,
    TextureRole, UnlitMaterial,
};
use crate::scalar::{less, Scalar};
use crate::search::{first_some, first_some_none, first_some_stays, or_else, outcome};
use crate::source::{copy_text, text_of, SourceMaterial, SourceModel};
use crate::text::{begins_with, same_text, starts_with};

verus! {

/// What happens to the final base colour of a material.
#[derive(Clone, Copy, Debug, PartialEq, Eq, Structural)]
pub enum MaterialBaseColorMode {
    Authored,
    /// Only its luminance is kept.
    Monochrome,
}

impl Default for MaterialBaseColorMode {
    fn default() -> (mode: Self)
        ensures
            mode == MaterialBaseColorMode::Authored,
    {
        MaterialBaseColorMode::Authored
    }
}

/// A JSON value.
#[verifier::external_type_specification]
#[verifier::external_body]
pub struct ExValue(serde_json::Value);

/// Why a text is no JSON.
#[verifier::external_type_specification]
#[verifier::external_body]
pub struct ExJsonError(serde_json::Error);

/// What `serde_json::from_str` makes of a text.
pub uninterp spec fn json_value(json: Seq<char>) -> Option<serde_json::Value>;

/// What `serde_json::Value::get` finds under a key.
pub uninterp spec fn json_member(value: serde_json::Value, key: Seq<char>) -> Option<
    serde_json::Value,
>;

/// What `serde_json::Value::as_str` makes of a value.
pub uninterp spec fn json_string(value: serde_json::Value) -> Option<Seq<char>>;

/// `serde_json::from_str` into a `serde_json::Value`: the value that a text
/// spells out, an error if it is no JSON.
#[verifier::external_body]
fn parse_json(json: &str) -> (result: Result<serde_json::Value, serde_json::Error>)
    ensures
        json_value(json@) == (match result {
            Ok(value) => Some(value),
            Err(_) => None,
        }),
{
    serde_json::from_str(json)
}

/// `serde_json::Value::get` with a text: the value under `key`, `None` if
/// `value` is no object or lacks the key.
#[verifier::external_body]
fn get_member<'a>(value: &'a serde_json::Value, key: &str) -> (member: Option<
    &'a serde_json::Value,
>)
    ensures
        json_member(*value, key@) == (match member {
            Some(member) => Some(*member),
            None => None,
        }),
{
    value.get(key)
}

/// `serde_json::Value::as_str`: the text that `value` is, if it is one.
#[verifier::external_body]
fn get_string(value: &serde_json::Value) -> (text: Option<String>)
    ensures
        text_of(text) == json_string(*value),
{
    value.as_str().map(|text| text.to_owned())
}

/// The text under `key` in the JSON object `json`: nothing if the JSON does not
/// parse, is no object, lacks the key or holds something else there.
pub open spec fn json_text(json: Seq<char>, key: Seq<char>) -> Option<Seq<char>> {
    match json_value(json) {
        Some(value) => match json_member(value, key) {
            Some(member) => json_string(member),
            None => None,
        },
        None => None,
    }
}

fn json_text_field(json: &str, key: &str) -> (text: Option<String>)
    ensures
        text_of(text) == json_text(json@, key@),
{
    match parse_json(json) {
        Ok(value) => match get_member(&value, key) {
            Some(member) => get_string(member),
            None => None,
        },
        Err(_) => None,
    }
}

/// The role that the extras of a material give it.
pub open spec fn role_in(extras: Option<Seq<char>>) -> Option<Seq<char>> {
    match extras {
        Some(extras) => json_text(extras, "pocket3d_role"@),
        None => None,
    }
}

/// The base colour mode for the text that the extras hold under its key.
pub open spec fn mode_named(name: Option<Seq<char>>) -> MaterialBaseColorMode {
    if name == Some("monochrome"@) {
        MaterialBaseColorMode::Monochrome
    } else {
        MaterialBaseColorMode::Authored
    }
}

/// The base colour mode that the extras of a material give it.
pub open spec fn mode_in(extras: Option<Seq<char>>) -> MaterialBaseColorMode {
    match extras {
        Some(extras) => mode_named(json_text(extras, "pocket3d_base_color_mode"@)),
        None => MaterialBaseColorMode::Authored,
    }
}

/// The role that the extras `raw` give a material.
pub fn pocket3d_role_from_extras(raw: &str) -> (role: Option<String>)
    ensures
        text_of(role) == role_in(Some(raw@)),
{
    json_text_field(raw, "pocket3d_role")
}

/// The base colour mode that is called `name`.
pub fn base_color_mode_named(name: Option<&str>) -> (mode: MaterialBaseColorMode)
    ensures
        mode == mode_named(match name {
            Some(name) => Some(name@),
            None => None,
        }),
{
    match name {
        Some(name) => if same_text(name, "monochrome") {
            MaterialBaseColorMode::Monochrome
        } else {
            MaterialBaseColorMode::Authored
        },
        None => MaterialBaseColorMode::Authored,
    }
}

/// The base colour mode that the extras `raw` give a material.
pub fn pocket3d_base_color_mode_from_extras(raw: &str) -> (mode: MaterialBaseColorMode)
    ensures
        mode == mode_in(Some(raw@)),
{
    match json_text_field(raw, "pocket3d_base_color_mode") {
        Some(name) => base_color_mode_named(Some(name.as_str())),
        None => base_color_mode_named(None),
    }
}

impl SourceMaterial {
    /// The role of the material.
    pub fn role(&self) -> (role: Option<String>)
        ensures
            text_of(role) == role_in(text_of(self.extras)),
    {
        match &self.extras {
            Some(extras) => pocket3d_role_from_extras(extras.as_str()),
            None => None,
        }
    }

    /// The base colour mode of the material.
    pub fn base_color_mode(&self) -> (mode: MaterialBaseColorMode)
        ensures
            mode == mode_in(text_of(self.extras)),
    {
        match &self.extras {
            Some(extras) => pocket3d_base_color_mode_from_extras(extras.as_str()),
            None => MaterialBaseColorMode::Authored,
        }
    }
}

/// The characters of an optional text slice.
pub open spec fn str_of(text: Option<&str>) -> Option<Seq<char>> {
    match text {
        Some(text) => Some(text@),
        None => None,
    }
}

/// Whether a material is the one that a role and a name prefix speak of: its
/// own role decides, and its name only if it has no role.
pub open spec fn is_semantic_match(
    material_role: Option<Seq<char>>,
    material_name: Option<Seq<char>>,
    role: Seq<char>,
    name_prefix: Option<Seq<char>>,
) -> bool {
    match material_role {
        Some(material_role) => material_role == role,
        None => match (name_prefix, material_name) {
            (Some(prefix), Some(name)) => begins_with(name, prefix),
            _ => false,
        },
    }
}

/// Whether a material is the one that a role and a name prefix speak of.
pub fn semantic_material_matches(
    material_role: Option<&str>,
    material_name: Option<&str>,
    role: &str,
    name_prefix: Option<&str>,
) -> (matches: bool)
    ensures
        matches == is_semantic_match(
            str_of(material_role),
            str_of(material_name),
            role@,
            str_of(name_prefix),
        ),
{
    match material_role {
        Some(material_role) => same_text(material_role, role),
        None => match (name_prefix, material_name) {
            (Some(prefix), Some(name)) => starts_with(name, prefix),
            _ => false,
        },
    }
}

/// Why a material cannot be authored.
#[derive(Clone, Copy, Debug, PartialEq, Eq, Structural)]
pub enum MaterialError {
    DescriptorIndex { index: usize, materials: usize },
    DuplicateDescriptor { index: usize },
    ColorSpace { material: usize, role: TextureRole },
    TextureIndex {
        material: usize,
        role: TextureRole,
        texture: usize,
        image: usize,
        textures: usize,
        images: usize,
    },
    TexCoord { material: usize, role: TextureRole, set: u32 },
    NoUnlitFallback { material: usize },
    MtoonBaseTexCoord { material: usize, set: u32 },
    BaseTexCoord { material: usize, set: u32 },
}

/// What is wrong with a texture of the toon descriptor of `material`, in a
/// model with so many textures and images.
pub open spec fn descriptor_texture_error(
    material: usize,
    texture: TextureInfo,
    textures: nat,
    images: nat,
) -> Option<MaterialError> {
    if texture.color_space != role_color_space(texture.role) {
        Some(MaterialError::ColorSpace { material, role: texture.role })
    } else if texture.texture_index >= textures || texture.image_index >= images {
        Some(
            MaterialError::TextureIndex {
                material,
                role: texture.role,
                texture: texture.texture_index,
                image: texture.image_index,
                textures: textures as usize,
                images: images as usize,
            },
        )
    } else if texture.role != TextureRole::Matcap && selected_tex_coord(texture) > 1 {
        Some(
            MaterialError::TexCoord {
                material,
                role: texture.role,
                set: selected_tex_coord(texture),
            },
        )
    } else {
        None
    }
}

/// Whether a descriptor before `d` is for the same material.
pub open spec fn is_duplicate(descriptors: Seq<MtoonMaterialDescriptor>, d: int) -> bool {
    exists|e: int|
        0 <= e < d && (#[trigger] descriptors[e]).material_index == descriptors[d].material_index
}

/// What is wrong with descriptor `d`.
pub open spec fn descriptor_error(
    model: SourceModel,
    descriptors: Seq<MtoonMaterialDescriptor>,
    d: int,
) -> Option<MaterialError> {
    let index = descriptors[d].material_index;
    if index >= model.materials@.len() {
        Some(MaterialError::DescriptorIndex { index, materials: model.materials@.len() as usize })
    } else if is_duplicate(descriptors, d) {
        Some(MaterialError::DuplicateDescriptor { index })
    } else {
        first_some(
            descriptor_textures(descriptors[d]).len(),
            |k: int|
                descriptor_texture_error(
                    index,
                    descriptor_textures(descriptors[d])[k],
                    model.textures@.len(),
                    model.images@.len(),
                ),
        )
    }
}

/// The first descriptor for `material`.
pub open spec fn descriptor_for(
    descriptors: Seq<MtoonMaterialDescriptor>,
    material: int,
) -> Option<int> {
    first_some(
        descriptors.len(),
        |d: int|
            if descriptors[d].material_index == material {
                Some(d)
            } else {
                None
            },
    )
}

/// The base colour coordinate set, if it is not the first, which is all that
/// the lit and unlit shaders sample.
pub open spec fn unsupported_base_set(texture: Option<TextureInfo>) -> Option<u32> {
    match texture {
        Some(texture) => if selected_tex_coord(texture) == 0 {
            None
        } else {
            Some(selected_tex_coord(texture))
        },
        None => None,
    }
}

/// What is wrong with material `i`. A toon material needs an unlit fallback;
/// without native toon shading its base colour has to be one that the fallback
/// can show.
pub open spec fn material_error(
    model: SourceModel,
    descriptors: Seq<MtoonMaterialDescriptor>,
    native_mtoon: bool,
    i: int,
) -> Option<MaterialError> {
    match descriptor_for(descriptors, i) {
        Some(d) => if !model.materials@[i].unlit {
            Some(MaterialError::NoUnlitFallback { material: i as usize })
        } else {
            match unsupported_base_set(descriptors[d].inputs.base_color_texture) {
                Some(set) => if native_mtoon {
                    None
                } else {
                    Some(MaterialError::MtoonBaseTexCoord { material: i as usize, set })
                },
                None => None,
            }
        },
        None => match unsupported_base_set(model.materials@[i].inputs.base_color_texture) {
            Some(set) => Some(MaterialError::BaseTexCoord { material: i as usize, set }),
            None => None,
        },
    }
}

/// What is wrong with the materials of a model: its descriptors first, then
/// the materials in order.
pub open spec fn authoring_error(
    model: SourceModel,
    descriptors: Seq<MtoonMaterialDescriptor>,
    native_mtoon: bool,
) -> Option<MaterialError> {
    or_else(
        first_some(descriptors.len(), |d: int| descriptor_error(model, descriptors, d)),
        first_some(
            model.materials@.len(),
            |i: int| material_error(model, descriptors, native_mtoon, i),
        ),
    )
}

/// Whether `asset` is material `i`: the toon material of its descriptor, or a
/// lit or unlit one with the values of the file.
pub open spec fn is_authored(
    model: SourceModel,
    descriptors: Seq<MtoonMaterialDescriptor>,
    i: int,
    asset: MaterialAsset,
) -> bool {
    let source = model.materials@[i];
    &&& asset.gltf_material_index == i
    &&& asset.name == source.name
    &&& match descriptor_for(descriptors, i) {
        Some(d) => {
            &&& asset.inputs == descriptors[d].inputs
            &&& asset.model == MaterialModel::Mtoon(Box::new(descriptors[d].mtoon))
        },
        None => {
            &&& asset.inputs == source.inputs
            &&& asset.model == (if source.unlit {
                MaterialModel::Unlit(UnlitMaterial)
            } else {
                MaterialModel::PocketLit(PocketLitMaterial)
            })
        },
    }
}

/// Whether `assets` are the materials of `model`.
pub open spec fn are_authored(
    model: SourceModel,
    descriptors: Seq<MtoonMaterialDescriptor>,
    assets: Seq<MaterialAsset>,
) -> bool {
    &&& assets.len() == model.materials@.len()
    &&& forall|i: int|
        0 <= i < assets.len() ==> is_authored(model, descriptors, i, #[trigger] assets[i])
}

fn validate_descriptor_texture(
    material: usize,
    texture: &TextureInfo,
    textures: usize,
    images: usize,
) -> (result: Result<(), MaterialError>)
    ensures
        result == outcome(
            descriptor_texture_error(material, *texture, textures as nat, images as nat),
        ),
{
    let role = texture.role;
    if texture.color_space != role.color_space() {
        return Err(MaterialError::ColorSpace { material, role });
    }
    if texture.texture_index >= textures || texture.image_index >= images {
        return Err(
            MaterialError::TextureIndex {
                material,
                role,
                texture: texture.texture_index,
                image: texture.image_index,
                textures,
                images,
            },
        );
    }
    let set: u32 = texture.effective_tex_coord();
    if role != TextureRole::Matcap && set > 1 {
        return Err(MaterialError::TexCoord { material, role, set });
    }
    Ok(())
}

fn validate_descriptor(
    model: &SourceModel,
    descriptors: &[MtoonMaterialDescriptor],
    d: usize,
) -> (result: Result<(), MaterialError>)
    requires
        d < descriptors@.len(),
    ensures
        result == outcome(descriptor_error(*model, descriptors@, d as int)),
{
    let materials: usize = model.materials.len();
    let index: usize = descriptors[d].material_index;
    if index >= materials {
        return Err(MaterialError::DescriptorIndex { index, materials });
    }
    let mut e: usize = 0;
    while e < d
        invariant
            e <= d < descriptors@.len(),
            index == descriptors@[d as int].material_index,
            index < model.materials@.len(),
            forall|k: int| 0 <= k < e ==> (#[trigger] descriptors@[k]).material_index != index,
        decreases d - e,
    {
        if descriptors[e].material_index == index {
            assert(is_duplicate(descriptors@, d as int));
            return Err(MaterialError::DuplicateDescriptor { index });
        }
        e += 1;
    }
    let textures: usize = model.textures.len();
    let images: usize = model.images.len();
    let listed = descriptors[d].textures();
    let ghost named = descriptor_textures(descriptors@[d as int]);
    let ghost check = |k: int|
        descriptor_texture_error(
            index,
            descriptor_textures(descriptors@[d as int])[k],
            model.textures@.len(),
            model.images@.len(),
        );
    let mut k: usize = 0;
    while k < listed.len()
        invariant
            k <= listed@.len(),
            listed@ == named,
            named == descriptor_textures(descriptors@[d as int]),
            textures == model.textures@.len(),
            images == model.images@.len(),
            check == (|k: int|
                descriptor_texture_error(
                    index,
                    descriptor_textures(descriptors@[d as int])[k],
                    model.textures@.len(),
                    model.images@.len(),
                )),
            descriptor_error(*model, descriptors@, d as int) == first_some(named.len(), check),
            first_some(k as nat, check) is None,
        decreases listed@.len() - k,
    {
        let result = validate_descriptor_texture(index, &listed[k], textures, images);
        assert(result == outcome(check(k as int)));
        if let Err(error) = result {
            proof {
                first_some_stays((k + 1) as nat, named.len(), check);
            }
            return Err(error);
        }
        k += 1;
    }
    Ok(())
}

fn find_descriptor(descriptors: &[MtoonMaterialDescriptor], material: usize) -> (found: Option<
    usize,
>)
    ensures
        match found {
            Some(d) => d < descriptors@.len() && descriptor_for(descriptors@, material as int)
                == Some(d as int),
            None => descriptor_for(descriptors@, material as int) is None,
        },
{
    let ghost check = |d: int|
        if descriptors@[d].material_index == material as int {
            Some(d)
        } else {
            None
        };
    let mut d: usize = 0;
    while d < descriptors.len()
        invariant
            d <= descriptors@.len(),
            check == (|d: int|
                if descriptors@[d].material_index == material as int {
                    Some(d)
                } else {
                    None
                }),
            descriptor_for(descriptors@, material as int) == first_some(descriptors@.len(), check),
            first_some(d as nat, check) is None,
        decreases descriptors@.len() - d,
    {
        if descriptors[d].material_index == material {
            assert(check(d as int) == Some(d as int));
            proof {
                first_some_stays((d + 1) as nat, descriptors@.len(), check);
            }
            return Some(d);
        }
        assert(check(d as int) is None);
        d += 1;
    }
    None
}

fn base_set_beyond_fallback(texture: &Option<TextureInfo>) -> (set: Option<u32>)
    ensures
        set == unsupported_base_set(*texture),
{
    match texture {
        Some(texture) => if texture.current_base_color_fallback_uv_supported() {
            None
        } else {
            Some(texture.effective_tex_coord())
        },
        None => None,
    }
}

fn author_material(
    model: &SourceModel,
    descriptors: &[MtoonMaterialDescriptor],
    native_mtoon: bool,
    i: usize,
) -> (result: Result<MaterialAsset, MaterialError>)
    requires
        i < model.materials@.len(),
    ensures
        match result {
            Ok(asset) => material_error(*model, descriptors@, native_mtoon, i as int) is None
                && is_authored(*model, descriptors@, i as int, asset),
            Err(error) => material_error(*model, descriptors@, native_mtoon, i as int) == Some(
                error,
            ),
        },
{
    let source = &model.materials[i];
    match find_descriptor(descriptors, i) {
        Some(d) => {
            if !source.unlit {
                return Err(MaterialError::NoUnlitFallback { material: i });
            }
            let descriptor = &descriptors[d];
            if let Some(set) = base_set_beyond_fallback(&descriptor.inputs.base_color_texture) {
                if !native_mtoon {
                    return Err(MaterialError::MtoonBaseTexCoord { material: i, set });
                }
            }
            Ok(
                MaterialAsset {
                    gltf_material_index: i,
                    name: copy_text(&source.name),
                    inputs: descriptor.inputs,
                    model: MaterialModel::Mtoon(Box::new(descriptor.mtoon.clone())),
                },
            )
        },
        None => {
            if let Some(set) = base_set_beyond_fallback(&source.inputs.base_color_texture) {
                return Err(MaterialError::BaseTexCoord { material: i, set });
            }
            Ok(
                MaterialAsset {
                    gltf_material_index: i,
                    name: copy_text(&source.name),
                    inputs: source.inputs,
                    model: if source.unlit {
                        MaterialModel::Unlit(UnlitMaterial)
                    } else {
                        MaterialModel::PocketLit(PocketLitMaterial)
                    },
                },
            )
        },
    }
}

/// The authored materials of a model, at their own indices. Materials with a
/// toon descriptor are toon materials; `native_mtoon` says whether they are
/// drawn as such or by their unlit fallback.
pub fn authored_materials(
    model: &SourceModel,
    descriptors: &[MtoonMaterialDescriptor],
    native_mtoon: bool,
) -> (result: Result<Vec<MaterialAsset>, MaterialError>)
    ensures
        match result {
            Ok(assets) => authoring_error(*model, descriptors@, native_mtoon) is None
                && are_authored(*model, descriptors@, assets@),
            Err(error) => authoring_error(*model, descriptors@, native_mtoon) == Some(error),
        },
{
    let ghost descriptor_check = |d: int| descriptor_error(*model, descriptors@, d);
    let ghost material_check = |i: int| material_error(*model, descriptors@, native_mtoon, i);
    let ghost descriptor_errors = first_some(descriptors@.len(), descriptor_check);
    let ghost material_errors = first_some(model.materials@.len(), material_check);
    assert(authoring_error(*model, descriptors@, native_mtoon) == or_else(
        descriptor_errors,
        material_errors,
    ));
    let mut d: usize = 0;
    while d < descriptors.len()
        invariant
            d <= descriptors@.len(),
            descriptor_check == (|d: int| descriptor_error(*model, descriptors@, d)),
            descriptor_errors == first_some(descriptors@.len(), descriptor_check),
            authoring_error(*model, descriptors@, native_mtoon) == or_else(
                descriptor_errors,
                material_errors,
            ),
            first_some(d as nat, descriptor_check) is None,
        decreases descriptors@.len() - d,
    {
        let result = validate_descriptor(model, descriptors, d);
        assert(result == outcome(descriptor_check(d as int)));
        if let Err(error) = result {
            proof {
                first_some_stays((d + 1) as nat, descriptors@.len(), descriptor_check);
            }
            return Err(error);
        }
        d += 1;
    }
    let mut assets: Vec<MaterialAsset> = Vec::new();
    let mut i: usize = 0;
    while i < model.materials.len()
        invariant
            i <= model.materials@.len(),
            material_check == (|i: int|
                material_error(*model, descriptors@, native_mtoon, i)),
            material_errors == first_some(model.materials@.len(), material_check),
            authoring_error(*model, descriptors@, native_mtoon) == material_errors,
            first_some(i as nat, material_check) is None,
            assets@.len() == i,
            forall|k: int|
                0 <= k < assets@.len() ==> is_authored(
                    *model,
                    descriptors@,
                    k,
                    #[trigger] assets@[k],
                ),
        decreases model.materials@.len() - i,
    {
        match author_material(model, descriptors, native_mtoon, i) {
            Ok(asset) => {
                assert(material_check(i as int) is None);
                assets.push(asset);
            },
            Err(error) => {
                assert(material_check(i as int) == Some(error));
                proof {
                    first_some_stays((i + 1) as nat, model.materials@.len(), material_check);
                }
                return Err(error);
            },
        }
        i += 1;
    }
    Ok(assets)
}

/// Whether a material can be drawn with native toon shading.
pub open spec fn is_mtoon(material: MaterialAsset) -> bool {
    material.model is Mtoon
}

/// Whether a material can be drawn with native toon shading.
pub fn native_stage_f_capable(material: &MaterialAsset) -> (capable: bool)
    ensures
        capable == is_mtoon(*material),
{
    match &material.model {
        MaterialModel::Mtoon(_) => true,
        _ => false,
    }
}

/// Whether a toon material has an outline: a width mode and a positive width.
pub open spec fn has_outline(material: MaterialAsset) -> bool {
    material.model matches MaterialModel::Mtoon(mtoon) && mtoon.outline_width_mode
        != MtoonOutlineWidthMode::Off && less(Scalar { bits: 0 }, mtoon.outline_width_factor)
}

/// Whether a toon material has an outline.
pub fn mtoon_outline_enabled(material: &MaterialAsset) -> (enabled: bool)
    ensures
        enabled == has_outline(*material),
{
    match &material.model {
        MaterialModel::Mtoon(mtoon) => mtoon.outline_width_mode != MtoonOutlineWidthMode::Off
            && Scalar::zero().less(mtoon.outline_width_factor),
        _ => false,
    }
}

/// The phase of a surface: a blended toon material may write depth.
pub open spec fn phase_of(
    alpha_mode: MaterialAlphaMode,
    material: Option<MaterialAsset>,
) -> RenderPhase {
    match alpha_mode {
        MaterialAlphaMode::Opaque => RenderPhase::Opaque,
        MaterialAlphaMode::Mask => RenderPhase::Mask,
        MaterialAlphaMode::Blend => match material {
            Some(material) => match material.model {
                MaterialModel::Mtoon(mtoon) => if mtoon.transparent_with_z_write {
                    RenderPhase::MtoonBlendZWrite
                } else {
                    RenderPhase::Blend
                },
                _ => RenderPhase::Blend,
            },
            None => RenderPhase::Blend,
        },
    }
}

/// An optional material, without the reference.
pub open spec fn material_of(material: Option<&MaterialAsset>) -> Option<MaterialAsset> {
    match material {
        Some(material) => Some(*material),
        None => None,
    }
}

/// The phase of a surface with this alpha policy and material.
pub fn authored_render_phase(
    alpha_mode: MaterialAlphaMode,
    material: Option<&MaterialAsset>,
) -> (phase: RenderPhase)
    ensures
        phase == phase_of(alpha_mode, material_of(material)),
{
    match alpha_mode {
        MaterialAlphaMode::Opaque => RenderPhase::Opaque,
        MaterialAlphaMode::Mask => RenderPhase::Mask,
        MaterialAlphaMode::Blend => match material {
            Some(material) => match &material.model {
                MaterialModel::Mtoon(mtoon) => if mtoon.transparent_with_z_write {
                    RenderPhase::MtoonBlendZWrite
                } else {
                    RenderPhase::Blend
                },
                _ => RenderPhase::Blend,
            },
            None => RenderPhase::Blend,
        },
    }
}

/// The queue offset of a surface: only blended toon materials have one.
pub open spec fn queue_offset_of(
    alpha_mode: MaterialAlphaMode,
    material: Option<MaterialAsset>,
) -> i32 {
    if alpha_mode != MaterialAlphaMode::Blend {
        0
    } else {
        match material {
            Some(material) => match material.model {
                MaterialModel::Mtoon(mtoon) => mtoon.render_queue_offset_number,
                _ => 0,
            },
            None => 0,
        }
    }
}

/// The queue offset of a surface with this alpha policy and material.
pub fn authored_render_queue_offset(
    alpha_mode: MaterialAlphaMode,
    material: Option<&MaterialAsset>,
) -> (offset: i32)
    ensures
        offset == queue_offset_of(alpha_mode, material_of(material)),
{
    if alpha_mode != MaterialAlphaMode::Blend {
        return 0;
    }
    match material {
        Some(material) => match &material.model {
            MaterialModel::Mtoon(mtoon) => mtoon.render_queue_offset_number,
            _ => 0,
        },
        None => 0,
    }
}

/// The role of a material is the text under `pocket3d_role` in its extras.
pub proof fn roles_stand_in_the_extras(extras: Seq<char>)
    ensures
        role_in(None) is None,
        role_in(Some(extras)) == (match json_value(extras) {
            Some(value) => match json_member(
                value,
                seq!['p', 'o', 'c', 'k', 'e', 't', '3', 'd', '_', 'r', 'o', 'l', 'e'],
            ) {
                Some(member) => json_string(member),
                None => None,
            },
            None => None,
        }),
{
    reveal_strlit("pocket3d_role");
    assert("pocket3d_role"@ =~= seq![
        'p',
        'o',
        'c',
        'k',
        'e',
        't',
        '3',
        'd',
        '_',
        'r',
        'o',
        'l',
        'e',
    ]);
}

/// A base color is monochrome exactly if it is called so.
pub proof fn only_monochrome_is_monochrome(name: Option<Seq<char>>)
    ensures
        mode_named(name) is Monochrome <==> name == Some(
            seq!['m', 'o', 'n', 'o', 'c', 'h', 'r', 'o', 'm', 'e'],
        ),
        mode_named(name) is Monochrome || mode_named(name) is Authored,
{
    reveal_strlit("monochrome");
    assert("monochrome"@ =~= seq!['m', 'o', 'n', 'o', 'c', 'h', 'r', 'o', 'm', 'e']);
}

proof fn descriptor_up_to(
    descriptors: Seq<MtoonMaterialDescriptor>,
    material: int,
    count: nat,
)
    ensures
        ({
            let check = |d: int|
                if descriptors[d].material_index == material {
                    Some(d)
                } else {
                    None
                };
            match first_some(count, check) {
                Some(found) => {
                    &&& 0 <= found < count
                    &&& descriptors[found].material_index == material
                    &&& forall|d: int|
                        0 <= d < found ==> (#[trigger] descriptors[d]).material_index != material
                },
                None => forall|d: int|
                    0 <= d < count ==> (#[trigger] descriptors[d]).material_index != material,
            }
        }),
    decreases count,
{
    if count > 0 {
        descriptor_up_to(descriptors, material, (count - 1) as nat);
    }
}

/// The descriptor of a material is the first that names it.
pub proof fn descriptors_name_their_material(
    descriptors: Seq<MtoonMaterialDescriptor>,
    material: int,
)
    ensures
        match descriptor_for(descriptors, material) {
            Some(found) => {
                &&& 0 <= found < descriptors.len()
                &&& descriptors[found].material_index == material
                &&& forall|d: int|
                    0 <= d < found ==> (#[trigger] descriptors[d]).material_index != material
            },
            None => forall|d: int|
                0 <= d < descriptors.len() ==> (#[trigger] descriptors[d]).material_index
                    != material,
        },
{
    descriptor_up_to(descriptors, material, descriptors.len());
}

/// A material is what its descriptor says, and without one what the file says:
/// unlit or lit, with the inputs of the file.
pub proof fn authored_materials_keep_their_inputs(
    model: SourceModel,
    descriptors: Seq<MtoonMaterialDescriptor>,
    i: int,
    asset: MaterialAsset,
)
    requires
        is_authored(model, descriptors, i, asset),
    ensures
        asset.gltf_material_index == i,
        text_of(asset.name) == text_of(model.materials@[i].name),
        (forall|d: int|
            0 <= d < descriptors.len() ==> (#[trigger] descriptors[d]).material_index != i) ==> {
            &&& asset.inputs == model.materials@[i].inputs
            &&& asset.model is Unlit <==> model.materials@[i].unlit
            &&& asset.model is PocketLit <==> !model.materials@[i].unlit
        },
        !(asset.model is Unlit) && !(asset.model is PocketLit) ==> exists|d: int|
            0 <= d < descriptors.len() && (#[trigger] descriptors[d]).material_index == i
                && asset.inputs == descriptors[d].inputs && asset.model == MaterialModel::Mtoon(
                Box::new(descriptors[d].mtoon),
            ),
{
    descriptors_name_their_material(descriptors, i);
    if let Some(d) = descriptor_for(descriptors, i) {
        assert(descriptors[d].material_index == i);
    }
}

/// A surface that is not blended is drawn in the phase of its alpha mode, at the
/// offset zero; a blended one in the blended phase, or in the one that writes
/// depth if it is a toon material that does, whose offset it has.
pub proof fn phases_follow_the_alpha_mode(
    alpha_mode: MaterialAlphaMode,
    material: Option<MaterialAsset>,
)
    ensures
        ({
            let phase = phase_of(alpha_mode, material);
            let offset = queue_offset_of(alpha_mode, material);
            &&& alpha_mode is Opaque <==> phase is Opaque
            &&& alpha_mode is Mask <==> phase is Mask
            &&& !(alpha_mode is Blend) ==> offset == 0
            &&& phase is MtoonBlendZWrite <==> alpha_mode is Blend && (material matches Some(found)
                && (found.model matches MaterialModel::Mtoon(mtoon)
                && mtoon.transparent_with_z_write))
            &&& alpha_mode is Blend ==> (match material {
                Some(found) => match found.model {
                    MaterialModel::Mtoon(mtoon) => offset == mtoon.render_queue_offset_number,
                    _ => offset == 0,
                },
                None => offset == 0,
            })
        }),
{
}

/// A toon material has an outline exactly if its width is positive and has a
/// mode; other materials have none.
pub proof fn outlines_have_a_width(material: MaterialAsset)
    ensures
        has_outline(material) <==> (material.model matches MaterialModel::Mtoon(mtoon) && !(
        mtoon.outline_width_mode is Off) && less(
            Scalar { bits: 0 },
            mtoon.outline_width_factor,
        )),
        is_mtoon(material) <==> material.model is Mtoon,
{
}

/// A descriptor is accepted exactly if it names a material that no descriptor
/// before it names, and each of its textures has the color space of its role,
/// exists, and selects one of the two coordinate sets, which a matcap need not.
pub proof fn accepted_descriptors_fit(
    model: SourceModel,
    descriptors: Seq<MtoonMaterialDescriptor>,
    d: int,
)
    ensures
        descriptor_error(model, descriptors, d) is None <==> {
            &&& descriptors[d].material_index < model.materials@.len()
            &&& forall|e: int|
                0 <= e < d ==> (#[trigger] descriptors[e]).material_index
                    != descriptors[d].material_index
            &&& forall|k: int|
                0 <= k < descriptor_textures(descriptors[d]).len() ==> {
                    let texture = #[trigger] descriptor_textures(descriptors[d])[k];
                    &&& texture.color_space == role_color_space(texture.role)
                    &&& texture.texture_index < model.textures@.len()
                    &&& texture.image_index < model.images@.len()
                    &&& texture.role is Matcap || selected_tex_coord(texture) <= 1
                }
        },
{
    let textures = descriptor_textures(descriptors[d]);
    let check = |k: int|
        descriptor_texture_error(
            descriptors[d].material_index,
            textures[k],
            model.textures@.len(),
            model.images@.len(),
        );
    first_some_none(textures.len(), check);
    if first_some(textures.len(), check) is None {
        assert forall|k: int| 0 <= k < textures.len() implies {
            let texture = #[trigger] textures[k];
            &&& texture.color_space == role_color_space(texture.role)
            &&& texture.texture_index < model.textures@.len()
            &&& texture.image_index < model.images@.len()
            &&& texture.role is Matcap || selected_tex_coord(texture) <= 1
        } by {
            assert(check(k) is None);
        }
    } else {
        let k = choose|k: int| 0 <= k < textures.len() && (#[trigger] check(k)) is Some;
        assert(check(k) is Some);
        assert(textures[k] == descriptor_textures(descriptors[d])[k]);
    }
}

/// A described material is accepted exactly if it has an unlit fallback, which
/// can show it unless it is drawn natively; another exactly if its base color
/// samples the first coordinates.
pub proof fn accepted_materials_can_be_shown(
    model: SourceModel,
    descriptors: Seq<MtoonMaterialDescriptor>,
    native_mtoon: bool,
    i: int,
)
    ensures
        material_error(model, descriptors, native_mtoon, i) is None <==> {
            let source = model.materials@[i];
            match descriptor_for(descriptors, i) {
                Some(d) => source.unlit && (native_mtoon || match descriptors[
                d].inputs.base_color_texture {
                    Some(texture) => selected_tex_coord(texture) == 0,
                    None => true,
                }),
                None => match source.inputs.base_color_texture {
                    Some(texture) => selected_tex_coord(texture) == 0,
                    None => true,
                },
            }
        },
{
}

/// The materials of a model are accepted exactly if all its descriptors and all
/// its materials are.
pub proof fn models_are_authored_as_a_whole(
    model: SourceModel,
    descriptors: Seq<MtoonMaterialDescriptor>,
    native_mtoon: bool,
)
    ensures
        authoring_error(model, descriptors, native_mtoon) is None <==> {
            &&& forall|d: int|
                0 <= d < descriptors.len() ==> (#[trigger] descriptor_error(
                    model,
                    descriptors,
                    d,
                )) is None
            &&& forall|i: int|
                0 <= i < model.materials@.len() ==> (#[trigger] material_error(
                    model,
                    descriptors,
                    native_mtoon,
                    i,
                )) is None
        },
{
    let check = |d: int| descriptor_error(model, descriptors, d);
    let material_check = |i: int| material_error(model, descriptors, native_mtoon, i);
    first_some_none(descriptors.len(), check);
    first_some_none(model.materials@.len(), material_check);
    if authoring_error(model, descriptors, native_mtoon) is None {
        assert forall|d: int| 0 <= d < descriptors.len() implies (#[trigger] descriptor_error(
            model,
            descriptors,
            d,
        )) is None by {
            assert(check(d) is None);
        }
        assert forall|i: int| 0 <= i < model.materials@.len() implies (#[trigger] material_error(
            model,
            descriptors,
            native_mtoon,
            i,
        )) is None by {
            assert(material_check(i) is None);
        }
    } else if first_some(descriptors.len(), check) is Some {
        let d = choose|d: int| 0 <= d < descriptors.len() && (#[trigger] check(d)) is Some;
        assert(descriptor_error(model, descriptors, d) is Some);
    } else {
        let i = choose|i: int|
            0 <= i < model.materials@.len() && (#[trigger] material_check(i)) is Some;
        assert(material_error(model, descriptors, native_mtoon, i) is Some);
    }
}

/// Every material of a model is authored, in their order, and a descriptor makes
/// the material that it names a toon material with its inputs.
pub proof fn every_material_is_authored(
    model: SourceModel,
    descriptors: Seq<MtoonMaterialDescriptor>,
    assets: Seq<MaterialAsset>,
    i: int,
    d: int,
)
    requires
        are_authored(model, descriptors, assets),
        0 <= i < model.materials@.len(),
    ensures
        assets.len() == model.materials@.len(),
        assets[i].gltf_material_index == i,
        text_of(assets[i].name) == text_of(model.materials@[i].name),
        0 <= d < descriptors.len() && descriptors[d].material_index == i && (forall|e: int|
            0 <= e < d ==> (#[trigger] descriptors[e]).material_index != i) ==> {
            &&& assets[i].inputs == descriptors[d].inputs
            &&& assets[i].model == MaterialModel::Mtoon(Box::new(descriptors[d].mtoon))
        },
{
    assert(is_authored(model, descriptors, i, assets[i]));
    descriptors_name_their_material(descriptors, i);
    if 0 <= d < descriptors.len() && descriptors[d].material_index == i && (forall|e: int|
        0 <= e < d ==> (#[trigger] descriptors[e]).material_index != i) {
        let found = descriptor_for(descriptors, i).unwrap();
        assert(descriptors[found].material_index == i);
        assert(found == d);
    }
}

} // verus!
