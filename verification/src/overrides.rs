//! Replacing the base-colour texture of semantically tagged materials.

use vstd::prelude::*;

use crate::authoring::{is_semantic_match, role_in, semantic_material_matches, str_of};
use crate::scalar::{is_finite, less, Scalar};
use crate::search::{first_some, first_some_stays, outcome};
use crate::source::{text_of, SourceMaterial, SourceModel};

verus! {

/// A replacement for the base-colour texture of the materials that a role, or
/// failing that a name prefix, speaks of.
#[derive(Clone, Copy, Debug)]
pub struct MaterialTextureOverride<'a> {
    pub role: &'a str,
    pub name_prefix: Option<&'a str>,
    pub expected_primitive_count: Option<usize>,
    pub force_white: bool,
    pub force_unlit: bool,
    pub force_opaque: bool,
    pub force_blend: bool,
    pub require_normalized_texcoord0: bool,
}

impl<'a> MaterialTextureOverride<'a> {
    /// An override that changes nothing but the texture.
    pub fn new(role: &'a str, name_prefix: Option<&'a str>) -> (made: Self)
        ensures
            made.role == role,
            made.name_prefix == name_prefix,
            made.expected_primitive_count is None,
            !made.force_white,
            !made.force_unlit,
            !made.force_opaque,
            !made.force_blend,
            !made.require_normalized_texcoord0,
    {
        MaterialTextureOverride {
            role,
            name_prefix,
            expected_primitive_count: None,
            force_white: false,
            force_unlit: false,
            force_opaque: false,
            force_blend: false,
            require_normalized_texcoord0: false,
        }
    }

    /// Refuses a model in which another number of primitives matches.
    pub fn expect_primitives(self, count: usize) -> (made: Self)
        ensures
            made == (MaterialTextureOverride { expected_primitive_count: Some(count), ..self }),
    {
        MaterialTextureOverride { expected_primitive_count: Some(count), ..self }
    }

    /// Drops the authored base-colour factor.
    pub fn force_white(self) -> (made: Self)
        ensures
            made == (MaterialTextureOverride { force_white: true, ..self }),
    {
        MaterialTextureOverride { force_white: true, ..self }
    }

    /// Draws the primitives unlit.
    pub fn force_unlit(self) -> (made: Self)
        ensures
            made == (MaterialTextureOverride { force_unlit: true, ..self }),
    {
        MaterialTextureOverride { force_unlit: true, ..self }
    }

    /// Draws the primitives opaque.
    pub fn force_opaque(self) -> (made: Self)
        ensures
            made == (MaterialTextureOverride { force_opaque: true, ..self }),
    {
        MaterialTextureOverride { force_opaque: true, ..self }
    }

    /// Blends the primitives even where the material is opaque.
    pub fn force_blend(self) -> (made: Self)
        ensures
            made == (MaterialTextureOverride { force_blend: true, ..self }),
    {
        MaterialTextureOverride { force_blend: true, ..self }
    }

    /// Refuses primitives whose first coordinate set is not finite, normalized
    /// and wide enough for a live surface.
    pub fn require_normalized_texcoord0(self) -> (made: Self)
        ensures
            made == (MaterialTextureOverride { require_normalized_texcoord0: true, ..self }),
    {
        MaterialTextureOverride { require_normalized_texcoord0: true, ..self }
    }
}

/// An override that both forces opacity and blending.
#[derive(Clone, Copy, Debug, PartialEq, Eq, Structural)]
pub struct OverrideConflict {
    pub index: usize,
}

/// The first override that forces both opacity and blending.
pub open spec fn override_conflict(overrides: Seq<MaterialTextureOverride>) -> Option<
    OverrideConflict,
> {
    first_some(
        overrides.len(),
        |i: int|
            if overrides[i].force_opaque && overrides[i].force_blend {
                Some(OverrideConflict { index: i as usize })
            } else {
                None
            },
    )
}

/// Checks that no override forces both opacity and blending.
pub fn validate_overrides(overrides: &[MaterialTextureOverride]) -> (result: Result<
    (),
    OverrideConflict,
>)
    ensures
        result == outcome(override_conflict(overrides@)),
{
    let ghost check = |i: int|
        if overrides@[i].force_opaque && overrides@[i].force_blend {
            Some(OverrideConflict { index: i as usize })
        } else {
            None
        };
    let mut i: usize = 0;
    while i < overrides.len()
        invariant
            i <= overrides@.len(),
            check == (|i: int|
                if overrides@[i].force_opaque && overrides@[i].force_blend {
                    Some(OverrideConflict { index: i as usize })
                } else {
                    None
                }),
            override_conflict(overrides@) == first_some(overrides@.len(), check),
            first_some(i as nat, check) is None,
        decreases overrides@.len() - i,
    {
        if overrides[i].force_opaque && overrides[i].force_blend {
            assert(check(i as int) == Some(OverrideConflict { index: i }));
            proof {
                first_some_stays((i + 1) as nat, overrides@.len(), check);
            }
            return Err(OverrideConflict { index: i });
        }
        assert(check(i as int) is None);
        i += 1;
    }
    Ok(())
}

/// Whether an override is for a material with the given role and name.
pub open spec fn override_matches(
    candidate: MaterialTextureOverride,
    role: Option<Seq<char>>,
    name: Option<Seq<char>>,
) -> bool {
    is_semantic_match(role, name, candidate.role@, str_of(candidate.name_prefix))
}

/// The first override from `from` on that is for a material with the given
/// role and name.
pub open spec fn next_match(
    overrides: Seq<MaterialTextureOverride>,
    role: Option<Seq<char>>,
    name: Option<Seq<char>>,
    from: int,
) -> Option<int>
    decreases overrides.len() - from,
{
    if from >= overrides.len() {
        None
    } else if override_matches(overrides[from], role, name) {
        Some(from)
    } else {
        next_match(overrides, role, name, from + 1)
    }
}

/// The one override for a material: `Err` if there are two.
pub open spec fn single_match(
    overrides: Seq<MaterialTextureOverride>,
    role: Option<Seq<char>>,
    name: Option<Seq<char>>,
) -> Result<Option<int>, ()> {
    match next_match(overrides, role, name, 0) {
        None => Ok(None),
        Some(first) => if next_match(overrides, role, name, first + 1) is Some {
            Err(())
        } else {
            Ok(Some(first))
        },
    }
}

/// An optional index as a number.
pub open spec fn as_index(index: Option<usize>) -> Option<int> {
    match index {
        Some(index) => Some(index as int),
        None => None,
    }
}

fn text_slice(text: &Option<String>) -> (slice: Option<&str>)
    ensures
        str_of(slice) == text_of(*text),
{
    match text {
        Some(text) => Some(text.as_str()),
        None => None,
    }
}

/// The first override from `from` on for a material.
fn find_match(
    overrides: &[MaterialTextureOverride],
    role: &Option<String>,
    name: &Option<String>,
    from: usize,
) -> (found: Option<usize>)
    requires
        from <= overrides@.len(),
    ensures
        as_index(found) == next_match(overrides@, text_of(*role), text_of(*name), from as int),
        found matches Some(at) ==> from <= at < overrides@.len(),
{
    let mut i: usize = from;
    while i < overrides.len()
        invariant
            from <= i <= overrides@.len(),
            next_match(overrides@, text_of(*role), text_of(*name), from as int) == next_match(
                overrides@,
                text_of(*role),
                text_of(*name),
                i as int,
            ),
        decreases overrides@.len() - i,
    {
        let candidate = &overrides[i];
        if semantic_material_matches(
            text_slice(role),
            text_slice(name),
            candidate.role,
            candidate.name_prefix,
        ) {
            return Some(i);
        }
        i += 1;
    }
    None
}

/// The override for a material with the given role and name: fails if there
/// are two.
pub fn match_override(
    overrides: &[MaterialTextureOverride],
    role: &Option<String>,
    name: &Option<String>,
) -> (result: Result<Option<usize>, ()>)
    ensures
        match result {
            Ok(found) => single_match(overrides@, text_of(*role), text_of(*name)) == Ok::<
                Option<int>,
                (),
            >(as_index(found)),
            Err(()) => single_match(overrides@, text_of(*role), text_of(*name)) == Err::<
                Option<int>,
                (),
            >(()),
        },
        result matches Ok(Some(found)) ==> found < overrides@.len(),
{
    assert(overrides.len() <= usize::MAX);
    match find_match(overrides, role, name, 0) {
        None => Ok(None),
        Some(first) => match find_match(overrides, role, name, first + 1) {
            Some(_) => Err(()),
            None => Ok(Some(first)),
        },
    }
}

/// Whether the base colour of a material of the file is uploaded: no override
/// replaces it, and it samples `image`.
pub open spec fn uploads_image(
    overrides: Seq<MaterialTextureOverride>,
    material: SourceMaterial,
    image: int,
) -> bool {
    &&& next_match(overrides, role_in(text_of(material.extras)), text_of(material.name), 0) is None
    &&& material.inputs.base_color_texture matches Some(texture)
    &&& texture.image_index == image
}

/// Which images are uploaded as base colours.
pub fn used_images(model: &SourceModel, overrides: &[MaterialTextureOverride]) -> (used: Vec<bool>)
    ensures
        used@.len() == model.images@.len(),
        forall|i: int|
            0 <= i < used@.len() ==> #[trigger] used@[i] == exists|m: int|
                0 <= m < model.materials@.len() && uploads_image(
                    overrides@,
                    #[trigger] model.materials@[m],
                    i,
                ),
{
    let mut used: Vec<bool> = Vec::new();
    let mut i: usize = 0;
    while i < model.images.len()
        invariant
            i <= model.images@.len(),
            used@ =~= Seq::new(i as nat, |k: int| false),
        decreases model.images@.len() - i,
    {
        used.push(false);
        i += 1;
    }
    let mut m: usize = 0;
    while m < model.materials.len()
        invariant
            m <= model.materials@.len(),
            used@.len() == model.images@.len(),
            forall|i: int|
                0 <= i < used@.len() ==> #[trigger] used@[i] == exists|k: int|
                    0 <= k < m && uploads_image(overrides@, #[trigger] model.materials@[k], i),
        decreases model.materials@.len() - m,
    {
        let ghost before = used@;
        let material = &model.materials[m];
        let role = material.role();
        let replaced = find_match(overrides, &role, &material.name, 0).is_some();
        if !replaced {
            if let Some(texture) = material.inputs.base_color_texture {
                if texture.image_index < used.len() {
                    used.set(texture.image_index, true);
                }
            }
        }
        assert forall|i: int| 0 <= i < used@.len() implies #[trigger] used@[i] == exists|k: int|
            0 <= k < m + 1 && uploads_image(overrides@, #[trigger] model.materials@[k], i) by {
            assert(before[i] == exists|k: int|
                0 <= k < m && uploads_image(overrides@, #[trigger] model.materials@[k], i));
            if uploads_image(overrides@, model.materials@[m as int], i) {
                assert(used@[i]);
            }
        }
        m += 1;
    }
    used
}

/// Why texture coordinates do not suit a live surface.
#[derive(Clone, Copy, Debug, PartialEq, Eq, Structural)]
pub enum TexCoordError {
    Missing,
    Count { actual: usize, vertices: usize },
    NotFinite,
    NotNormalized,
    SpanTooSmall,
}

/// The pattern of the smallest coordinate that counts as normalized: one
/// hundredth below zero.
pub const LOWEST_COORDINATE: u32 = 0xbc23_d70a;

/// The pattern of the largest coordinate that counts as normalized: one
/// hundredth above one.
pub const HIGHEST_COORDINATE: u32 = 0x3f81_47ae;

/// The pattern of the smallest extent of an axis: one half.
pub const LEAST_SPAN: u32 = 0x3f00_0000;

/// Whether a coordinate pair holds an infinity or a NaN.
pub open spec fn pair_not_finite(pair: [Scalar; 2]) -> bool {
    !is_finite(pair@[0]) || !is_finite(pair@[1])
}

/// Whether a coordinate pair lies outside the normalized range.
pub open spec fn pair_out_of_range(pair: [Scalar; 2]) -> bool {
    coordinate_out_of_range(pair@[0]) || coordinate_out_of_range(pair@[1])
}

pub open spec fn coordinate_out_of_range(x: Scalar) -> bool {
    less(x, Scalar { bits: LOWEST_COORDINATE }) || less(Scalar { bits: HIGHEST_COORDINATE }, x)
}

/// What is wrong with the coordinates `coords` for `vertices` vertices, whose
/// extent on each axis is `span`.
pub open spec fn tex_coord_error(
    coords: Option<Seq<[Scalar; 2]>>,
    vertices: nat,
    span: [Scalar; 2],
) -> Option<TexCoordError> {
    match coords {
        None => Some(TexCoordError::Missing),
        Some(coords) => if coords.len() != vertices {
            Some(
                TexCoordError::Count {
                    actual: coords.len() as usize,
                    vertices: vertices as usize,
                },
            )
        } else if exists|i: int| 0 <= i < coords.len() && pair_not_finite(#[trigger] coords[i]) {
            Some(TexCoordError::NotFinite)
        } else if exists|i: int| 0 <= i < coords.len() && pair_out_of_range(#[trigger] coords[i]) {
            Some(TexCoordError::NotNormalized)
        } else if coords.len() == 0 || less(span@[0], Scalar { bits: LEAST_SPAN }) || less(
            span@[1],
            Scalar { bits: LEAST_SPAN },
        ) {
            Some(TexCoordError::SpanTooSmall)
        } else {
            None
        },
    }
}

/// The values of an optional list.
pub open spec fn values_of<T>(values: Option<Vec<T>>) -> Option<Seq<T>> {
    match values {
        Some(values) => Some(values@),
        None => None,
    }
}

fn out_of_range(x: Scalar) -> (out: bool)
    ensures
        out == coordinate_out_of_range(x),
{
    x.less(Scalar { bits: LOWEST_COORDINATE }) || Scalar { bits: HIGHEST_COORDINATE }.less(x)
}

/// Checks that texture coordinates suit a live surface: one pair per vertex,
/// finite, normalized, and at least half the surface wide and high. `span` is
/// the largest minus the smallest coordinate on each axis.
pub fn validate_normalized_texcoord0(
    texcoords: &Option<Vec<[Scalar; 2]>>,
    vertex_count: usize,
    span: [Scalar; 2],
) -> (result: Result<(), TexCoordError>)
    ensures
        result == outcome(tex_coord_error(values_of(*texcoords), vertex_count as nat, span)),
{
    let coords = match texcoords {
        None => {
            return Err(TexCoordError::Missing);
        },
        Some(coords) => coords,
    };
    if coords.len() != vertex_count {
        return Err(TexCoordError::Count { actual: coords.len(), vertices: vertex_count });
    }
    let mut inside = true;
    let mut i: usize = 0;
    while i < coords.len()
        invariant
            i <= coords@.len(),
            coords@.len() == vertex_count,
            values_of(*texcoords) == Some(coords@),
            forall|k: int| 0 <= k < i ==> !pair_not_finite(#[trigger] coords@[k]),
            inside == (forall|k: int| 0 <= k < i ==> !pair_out_of_range(#[trigger] coords@[k])),
        decreases coords@.len() - i,
    {
        let pair: [Scalar; 2] = coords[i];
        if !pair[0].is_finite() || !pair[1].is_finite() {
            assert(pair_not_finite(coords@[i as int]));
            return Err(TexCoordError::NotFinite);
        }
        if out_of_range(pair[0]) || out_of_range(pair[1]) {
            inside = false;
            assert(pair_out_of_range(coords@[i as int]));
        }
        i += 1;
    }
    if !inside {
        return Err(TexCoordError::NotNormalized);
    }
    let least = Scalar { bits: LEAST_SPAN };
    if coords.len() == 0 || span[0].less(least) || span[1].less(least) {
        return Err(TexCoordError::SpanTooSmall);
    }
    Ok(())
}

/// An override is for a material whose role is its own, or for one without a
/// role whose name begins with its prefix.
pub proof fn overrides_match_by_role_then_prefix(
    candidate: MaterialTextureOverride,
    role: Option<Seq<char>>,
    name: Option<Seq<char>>,
)
    ensures
        role matches Some(role) ==> (override_matches(candidate, Some(role), name) <==> role
            == candidate.role@),
        role is None && (name is None || candidate.name_prefix is None) ==> !override_matches(
            candidate,
            role,
            name,
        ),
        role is None && name is Some && candidate.name_prefix is Some ==> (override_matches(
            candidate,
            role,
            name,
        ) <==> exists|rest: Seq<char>| #[trigger]
            (candidate.name_prefix.unwrap()@ + rest) == name.unwrap()),
{
    if role is None && name is Some && candidate.name_prefix is Some {
        let (text, prefix) = (name.unwrap(), candidate.name_prefix.unwrap()@);
        if override_matches(candidate, role, name) {
            let rest = text.skip(prefix.len() as int);
            assert(prefix + rest =~= text);
        }
        if exists|rest: Seq<char>| #[trigger] (prefix + rest) == text {
            let rest = choose|rest: Seq<char>| #[trigger] (prefix + rest) == text;
            assert(text.take(prefix.len() as int) =~= prefix);
        }
    }
}

proof fn next_match_facts(
    overrides: Seq<MaterialTextureOverride>,
    role: Option<Seq<char>>,
    name: Option<Seq<char>>,
    from: int,
)
    requires
        0 <= from <= overrides.len(),
    ensures
        match next_match(overrides, role, name, from) {
            Some(at) => {
                &&& from <= at < overrides.len()
                &&& override_matches(overrides[at], role, name)
                &&& forall|i: int|
                    from <= i < at ==> !override_matches(#[trigger] overrides[i], role, name)
            },
            None => forall|i: int|
                from <= i < overrides.len() ==> !override_matches(
                    #[trigger] overrides[i],
                    role,
                    name,
                ),
        },
    decreases overrides.len() - from,
{
    if from < overrides.len() && !override_matches(overrides[from], role, name) {
        next_match_facts(overrides, role, name, from + 1);
    }
}

/// The override of a material is the only one that matches it; several are
/// refused, and without any it has none.
pub proof fn single_match_is_listed(
    overrides: Seq<MaterialTextureOverride>,
    role: Option<Seq<char>>,
    name: Option<Seq<char>>,
)
    ensures
        match single_match(overrides, role, name) {
            Ok(Some(found)) => {
                &&& 0 <= found < overrides.len()
                &&& forall|i: int|
                    0 <= i < overrides.len() ==> (override_matches(
                        #[trigger] overrides[i],
                        role,
                        name,
                    ) <==> i == found)
            },
            Ok(None) => forall|i: int|
                0 <= i < overrides.len() ==> !override_matches(#[trigger] overrides[i], role, name),
            Err(_) => exists|i: int, j: int|
                0 <= i < j < overrides.len() && override_matches(
                    #[trigger] overrides[i],
                    role,
                    name,
                ) && override_matches(#[trigger] overrides[j], role, name),
        },
{
    next_match_facts(overrides, role, name, 0);
    if let Some(first) = next_match(overrides, role, name, 0) {
        next_match_facts(overrides, role, name, first + 1);
        if let Some(second) = next_match(overrides, role, name, first + 1) {
            assert(override_matches(overrides[first], role, name));
            assert(override_matches(overrides[second], role, name));
        }
    }
}

/// Overrides conflict where one forces opacity and blending at once; the first
/// such one is named.
pub proof fn conflicts_name_the_first_override(overrides: Seq<MaterialTextureOverride>)
    requires
        overrides.len() <= usize::MAX,
    ensures
        match override_conflict(overrides) {
            None => forall|i: int|
                0 <= i < overrides.len() ==> !((#[trigger] overrides[i]).force_opaque
                    && overrides[i].force_blend),
            Some(conflict) => {
                let at = conflict.index as int;
                &&& at < overrides.len()
                &&& overrides[at].force_opaque && overrides[at].force_blend
                &&& forall|i: int|
                    0 <= i < at ==> !((#[trigger] overrides[i]).force_opaque
                        && overrides[i].force_blend)
            },
        },
{
    conflicts_up_to(overrides, overrides.len());
}

proof fn conflicts_up_to(overrides: Seq<MaterialTextureOverride>, count: nat)
    requires
        count <= overrides.len() <= usize::MAX,
    ensures
        ({
            let check = |i: int|
                if overrides[i].force_opaque && overrides[i].force_blend {
                    Some(OverrideConflict { index: i as usize })
                } else {
                    None
                };
            match first_some(count, check) {
                None => forall|i: int|
                    0 <= i < count ==> !((#[trigger] overrides[i]).force_opaque
                        && overrides[i].force_blend),
                Some(conflict) => {
                    let at = conflict.index as int;
                    &&& at < count
                    &&& overrides[at].force_opaque && overrides[at].force_blend
                    &&& forall|i: int|
                        0 <= i < at ==> !((#[trigger] overrides[i]).force_opaque
                            && overrides[i].force_blend)
                },
            }
        }),
    decreases count,
{
    if count > 0 {
        conflicts_up_to(overrides, (count - 1) as nat);
    }
}

/// The coordinates of a live surface are accepted exactly if there is one pair
/// per vertex, each number lies between a hundredth below zero and a hundredth
/// above one, and they spread over at least half of each axis.
pub proof fn accepted_coordinates_suit_a_surface(
    coords: Option<Seq<[Scalar; 2]>>,
    vertices: nat,
    span: [Scalar; 2],
)
    ensures
        tex_coord_error(coords, vertices, span) is None <==> {
            &&& coords is Some
            &&& coords.unwrap().len() == vertices
            &&& vertices > 0
            &&& forall|i: int|
                0 <= i < vertices ==> {
                    let pair = #[trigger] coords.unwrap()[i];
                    &&& is_finite(pair@[0]) && is_finite(pair@[1])
                    &&& !less(pair@[0], Scalar { bits: 0xbc23_d70a })
                    &&& !less(Scalar { bits: 0x3f81_47ae }, pair@[0])
                    &&& !less(pair@[1], Scalar { bits: 0xbc23_d70a })
                    &&& !less(Scalar { bits: 0x3f81_47ae }, pair@[1])
                }
            &&& !less(span@[0], Scalar { bits: 0x3f00_0000 })
            &&& !less(span@[1], Scalar { bits: 0x3f00_0000 })
        },
{
    if coords is Some && coords.unwrap().len() == vertices {
        let list = coords.unwrap();
        if tex_coord_error(coords, vertices, span) is None {
            assert forall|i: int| 0 <= i < vertices implies {
                let pair = #[trigger] list[i];
                &&& is_finite(pair@[0]) && is_finite(pair@[1])
                &&& !less(pair@[0], Scalar { bits: 0xbc23_d70a })
                &&& !less(Scalar { bits: 0x3f81_47ae }, pair@[0])
                &&& !less(pair@[1], Scalar { bits: 0xbc23_d70a })
                &&& !less(Scalar { bits: 0x3f81_47ae }, pair@[1])
            } by {
                assert(!pair_not_finite(list[i]));
                assert(!pair_out_of_range(list[i]));
            }
        }
    }
}

/// The base color of a material is uploaded from an image exactly if it samples
/// that image and no override replaces it.
pub proof fn replaced_images_are_not_uploaded(
    overrides: Seq<MaterialTextureOverride>,
    material: SourceMaterial,
    image: int,
)
    ensures
        uploads_image(overrides, material, image) <==> {
            &&& material.inputs.base_color_texture matches Some(texture) && texture.image_index
                == image
            &&& forall|i: int|
                0 <= i < overrides.len() ==> !override_matches(
                    #[trigger] overrides[i],
                    role_in(text_of(material.extras)),
                    text_of(material.name),
                )
        },
{
    next_match_facts(overrides, role_in(text_of(material.extras)), text_of(material.name), 0);
}

} // verus!
