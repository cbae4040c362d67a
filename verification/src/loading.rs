//! Loading a model from a file in memory.

use vstd::prelude::*;

use crate::accessors::is_model_of;
use crate::import::{
    import_glb_slice_with_mtoon_options, is_import, ImageData, ImportError, ImportedGlb,
};
use crate::material::MtoonMaterialDescriptor;
use crate::model::{
    is_model_layout, load_error, load_glb_imported, validate_load_options, LoadError, ModelAsset,
    ModelLoadOptions,
};
use crate::overrides::MaterialTextureOverride;
use crate::scalar::Scalar;
use crate::source::{is_structure_of, rows, texts, valid_document, SourceModel};

verus! {

/// A loaded model with what was read of its file.
#[derive(Debug)]
pub struct LoadedModel {
    pub asset: ModelAsset,
    pub source: SourceModel,
    pub images: Vec<ImageData>,
}

/// Why a file in memory cannot be loaded.
#[derive(Debug)]
pub enum ByteLoadError {
    ZeroTextureDim,
    Import(ImportError),
    /// An animation drives something that is no property of a node.
    UnknownTarget,
    Load(LoadError),
}

/// Why a document cannot be loaded.
#[derive(Debug)]
pub enum DocumentLoadError {
    /// An animation drives something that is no property of a node.
    UnknownTarget,
    Load(LoadError),
}

/// Whether `result` is what loading a document with its buffers gives: what was
/// read of it, and the model that is made of that.
pub open spec fn is_document_load<
    F: Fn([Scalar; 4]) -> Scalar,
    G: Fn(&Vec<[Scalar; 2]>) -> [Scalar; 2],
>(
    document: gltf::Document,
    buffers: Seq<Seq<u8>>,
    overrides: Seq<MaterialTextureOverride>,
    native_mtoon: bool,
    descriptors: Seq<MtoonMaterialDescriptor>,
    length_squared: F,
    span: G,
    result: Result<(SourceModel, ModelAsset), DocumentLoadError>,
) -> bool {
    match result {
        Ok((source, asset)) => {
            &&& is_model_of(document, buffers, length_squared, span, source)
            &&& source.in_range()
            &&& source.known_targets()
            &&& load_error(source, overrides, native_mtoon, descriptors) is None
            &&& is_model_layout(source, overrides, native_mtoon, descriptors, asset)
        },
        Err(DocumentLoadError::UnknownTarget) => exists|source: SourceModel| #[trigger]
            is_model_of(document, buffers, length_squared, span, source)
                && !source.known_targets(),
        Err(DocumentLoadError::Load(error)) => exists|source: SourceModel| #[trigger]
            is_model_of(document, buffers, length_squared, span, source) && source.known_targets()
                && load_error(source, overrides, native_mtoon, descriptors) == Some(error),
    }
}

fn load_structure<F: Fn([Scalar; 4]) -> Scalar, G: Fn(&Vec<[Scalar; 2]>) -> [Scalar; 2]>(
    structure: SourceModel,
    document: &gltf::Document,
    buffers: &Vec<Vec<u8>>,
    overrides: &[MaterialTextureOverride],
    native_mtoon: bool,
    descriptors: &[MtoonMaterialDescriptor],
    length_squared: &F,
    span: &G,
) -> (result: Result<(SourceModel, ModelAsset), DocumentLoadError>)
    requires
        valid_document(*document),
        is_structure_of(*document, structure),
        structure.in_range(),
        forall|rotation: [Scalar; 4]| call_requires(*length_squared, (rotation,)),
        forall|coordinates: &Vec<[Scalar; 2]>| call_requires(*span, (coordinates,)),
    ensures
        is_document_load(
            *document,
            rows(buffers@),
            overrides@,
            native_mtoon,
            descriptors@,
            *length_squared,
            *span,
            result,
        ),
{
    let source = structure.with_values(document, buffers, length_squared, span);
    if !source.targets_are_known() {
        return Err(DocumentLoadError::UnknownTarget);
    }
    match load_glb_imported(&source, overrides, native_mtoon, descriptors) {
        Ok(asset) => Ok((source, asset)),
        Err(error) => Err(DocumentLoadError::Load(error)),
    }
}

/// Loads a validated document with the contents of its buffers. `overrides`
/// replace base colour textures, `descriptors` make toon materials.
/// `length_squared` gives the squared length of a rotation, `span` the largest
/// minus the smallest texture coordinate per axis.
pub fn load_document<F: Fn([Scalar; 4]) -> Scalar, G: Fn(&Vec<[Scalar; 2]>) -> [Scalar; 2]>(
    document: &gltf::Document,
    buffers: &Vec<Vec<u8>>,
    overrides: &[MaterialTextureOverride],
    native_mtoon: bool,
    descriptors: &[MtoonMaterialDescriptor],
    length_squared: &F,
    span: &G,
) -> (result: Result<(SourceModel, ModelAsset), DocumentLoadError>)
    requires
        valid_document(*document),
        forall|rotation: [Scalar; 4]| call_requires(*length_squared, (rotation,)),
        forall|coordinates: &Vec<[Scalar; 2]>| call_requires(*span, (coordinates,)),
    ensures
        is_document_load(
            *document,
            rows(buffers@),
            overrides@,
            native_mtoon,
            descriptors@,
            *length_squared,
            *span,
            result,
        ),
{
    load_structure(
        SourceModel::read(document),
        document,
        buffers,
        overrides,
        native_mtoon,
        descriptors,
        length_squared,
        span,
    )
}

/// The descriptors whose images are decoded: those of materials that are drawn
/// as described.
pub open spec fn sampled_descriptors(
    native_mtoon: bool,
    descriptors: Seq<MtoonMaterialDescriptor>,
) -> Seq<MtoonMaterialDescriptor> {
    if native_mtoon {
        descriptors
    } else {
        seq![]
    }
}

/// Whether `images` and `source` are what `imported` holds with the values of
/// its accessors.
pub open spec fn is_content<
    F: Fn([Scalar; 4]) -> Scalar,
    G: Fn(&Vec<[Scalar; 2]>) -> [Scalar; 2],
>(
    imported: ImportedGlb,
    length_squared: F,
    span: G,
    images: Vec<ImageData>,
    source: SourceModel,
) -> bool {
    &&& imported.images == images
    &&& is_model_of(imported.document, rows(imported.buffers@), length_squared, span, source)
}

/// Whether the file `bytes` holds `images` and `source`.
pub open spec fn holds<F: Fn([Scalar; 4]) -> Scalar, G: Fn(&Vec<[Scalar; 2]>) -> [Scalar; 2]>(
    bytes: Seq<u8>,
    allowed: Seq<Seq<char>>,
    max_texture_dim: Option<u32>,
    descriptors: Seq<MtoonMaterialDescriptor>,
    length_squared: F,
    span: G,
    images: Vec<ImageData>,
    source: SourceModel,
) -> bool {
    exists|imported: ImportedGlb|
        is_import(bytes, allowed, max_texture_dim, descriptors, Ok(imported))
            && #[trigger] is_content(imported, length_squared, span, images, source)
}

/// Whether `result` is what loading the file `bytes` gives.
pub open spec fn is_load<F: Fn([Scalar; 4]) -> Scalar, G: Fn(&Vec<[Scalar; 2]>) -> [Scalar; 2]>(
    bytes: Seq<u8>,
    options: ModelLoadOptions,
    allowed: Seq<Seq<char>>,
    native_mtoon: bool,
    descriptors: Seq<MtoonMaterialDescriptor>,
    length_squared: F,
    span: G,
    result: Result<LoadedModel, ByteLoadError>,
) -> bool {
    let dim = options.max_texture_dim;
    let sampled = sampled_descriptors(native_mtoon, descriptors);
    let overrides = Seq::<MaterialTextureOverride>::empty();
    if dim == Some(0u32) {
        result matches Err(ByteLoadError::ZeroTextureDim)
    } else {
        match result {
            Ok(loaded) => {
                &&& holds(
                    bytes,
                    allowed,
                    dim,
                    sampled,
                    length_squared,
                    span,
                    loaded.images,
                    loaded.source,
                )
                &&& loaded.source.in_range()
                &&& loaded.source.known_targets()
                &&& load_error(loaded.source, overrides, native_mtoon, descriptors) is None
                &&& is_model_layout(
                    loaded.source,
                    overrides,
                    native_mtoon,
                    descriptors,
                    loaded.asset,
                )
            },
            Err(ByteLoadError::ZeroTextureDim) => false,
            Err(ByteLoadError::Import(error)) => is_import(
                bytes,
                allowed,
                dim,
                sampled,
                Err(error),
            ),
            Err(ByteLoadError::UnknownTarget) => exists|
                images: Vec<ImageData>,
                source: SourceModel,
            | #[trigger]
                holds(bytes, allowed, dim, sampled, length_squared, span, images, source)
                    && !source.known_targets(),
            Err(ByteLoadError::Load(error)) => exists|
                images: Vec<ImageData>,
                source: SourceModel,
            | #[trigger]
                holds(bytes, allowed, dim, sampled, length_squared, span, images, source)
                    && source.known_targets() && load_error(
                    source,
                    overrides,
                    native_mtoon,
                    descriptors,
                ) == Some(error),
        }
    }
}

impl ModelAsset {
    fn load_glb_bytes_opts_with_material_descriptors_impl<
        F: Fn([Scalar; 4]) -> Scalar,
        G: Fn(&Vec<[Scalar; 2]>) -> [Scalar; 2],
    >(
        bytes: &[u8],
        options: &ModelLoadOptions,
        allowed: &[String],
        native_mtoon: bool,
        descriptors: &[MtoonMaterialDescriptor],
        length_squared: &F,
        span: &G,
    ) -> (result: Result<LoadedModel, ByteLoadError>)
        requires
            forall|rotation: [Scalar; 4]| call_requires(*length_squared, (rotation,)),
            forall|coordinates: &Vec<[Scalar; 2]>| call_requires(*span, (coordinates,)),
        ensures
            is_load(
                bytes@,
                *options,
                texts(allowed@),
                native_mtoon,
                descriptors@,
                *length_squared,
                *span,
                result,
            ),
    {
        if let Err(_) = validate_load_options(options) {
            return Err(ByteLoadError::ZeroTextureDim);
        }
        let none: Vec<MtoonMaterialDescriptor> = Vec::new();
        let sampled: &[MtoonMaterialDescriptor] = if native_mtoon {
            descriptors
        } else {
            none.as_slice()
        };
        assert(sampled@ =~= sampled_descriptors(native_mtoon, descriptors@));
        let imported = match import_glb_slice_with_mtoon_options(
            bytes,
            allowed,
            options.max_texture_dim,
            sampled,
        ) {
            Ok(imported) => imported,
            Err(error) => {
                return Err(ByteLoadError::Import(error));
            },
        };
        let ghost whole = imported;
        let ImportedGlb { document, source, buffers, images } = imported;
        let overrides: Vec<MaterialTextureOverride> = Vec::new();
        assert(overrides@ =~= Seq::<MaterialTextureOverride>::empty());
        let result = load_structure(
            source,
            &document,
            &buffers,
            overrides.as_slice(),
            native_mtoon,
            descriptors,
            length_squared,
            span,
        );
        proof {
            assert forall|source: SourceModel|
                #[trigger] is_model_of(
                    document,
                    rows(buffers@),
                    *length_squared,
                    *span,
                    source,
                ) implies holds(
                bytes@,
                texts(allowed@),
                options.max_texture_dim,
                sampled@,
                *length_squared,
                *span,
                images,
                source,
            ) by {
                assert(is_content(whole, *length_squared, *span, images, source));
            }
        }
        match result {
            Ok((source, asset)) => Ok(LoadedModel { asset, source, images }),
            Err(DocumentLoadError::UnknownTarget) => Err(ByteLoadError::UnknownTarget),
            Err(DocumentLoadError::Load(error)) => Err(ByteLoadError::Load(error)),
        }
    }

    /// Loads a self-contained binary glTF model from memory. `length_squared`
    /// gives the squared length of a rotation, `span` the largest minus the
    /// smallest texture coordinate per axis.
    pub fn load_glb_bytes<
        F: Fn([Scalar; 4]) -> Scalar,
        G: Fn(&Vec<[Scalar; 2]>) -> [Scalar; 2],
    >(
        bytes: &[u8],
        length_squared: &F,
        span: &G,
    ) -> (result: Result<LoadedModel, ByteLoadError>)
        requires
            forall|rotation: [Scalar; 4]| call_requires(*length_squared, (rotation,)),
            forall|coordinates: &Vec<[Scalar; 2]>| call_requires(*span, (coordinates,)),
        ensures
            is_load(
                bytes@,
                ModelLoadOptions { max_texture_dim: None },
                seq![],
                false,
                seq![],
                *length_squared,
                *span,
                result,
            ),
    {
        let options = ModelLoadOptions::default();
        Self::load_glb_bytes_opts(bytes, &options, length_squared, span)
    }

    /// `load_glb_bytes` with load options.
    pub fn load_glb_bytes_opts<
        F: Fn([Scalar; 4]) -> Scalar,
        G: Fn(&Vec<[Scalar; 2]>) -> [Scalar; 2],
    >(
        bytes: &[u8],
        options: &ModelLoadOptions,
        length_squared: &F,
        span: &G,
    ) -> (result: Result<LoadedModel, ByteLoadError>)
        requires
            forall|rotation: [Scalar; 4]| call_requires(*length_squared, (rotation,)),
            forall|coordinates: &Vec<[Scalar; 2]>| call_requires(*span, (coordinates,)),
        ensures
            is_load(
                bytes@,
                *options,
                seq![],
                false,
                seq![],
                *length_squared,
                *span,
                result,
            ),
    {
        let allowed: Vec<String> = Vec::new();
        assert(texts(allowed@) =~= seq![]);
        Self::load_glb_bytes_opts_with_allowed_required_extensions(
            bytes,
            options,
            allowed.as_slice(),
            length_squared,
            span,
        )
    }

    /// `load_glb_bytes_opts` with a list of required extensions that the caller
    /// has validated.
    pub fn load_glb_bytes_opts_with_allowed_required_extensions<
        F: Fn([Scalar; 4]) -> Scalar,
        G: Fn(&Vec<[Scalar; 2]>) -> [Scalar; 2],
    >(
        bytes: &[u8],
        options: &ModelLoadOptions,
        allowed: &[String],
        length_squared: &F,
        span: &G,
    ) -> (result: Result<LoadedModel, ByteLoadError>)
        requires
            forall|rotation: [Scalar; 4]| call_requires(*length_squared, (rotation,)),
            forall|coordinates: &Vec<[Scalar; 2]>| call_requires(*span, (coordinates,)),
        ensures
            is_load(
                bytes@,
                *options,
                texts(allowed@),
                false,
                seq![],
                *length_squared,
                *span,
                result,
            ),
    {
        let descriptors: Vec<MtoonMaterialDescriptor> = Vec::new();
        assert(descriptors@ =~= seq![]);
        Self::load_glb_bytes_opts_with_material_descriptors(
            bytes,
            options,
            allowed,
            descriptors.as_slice(),
            length_squared,
            span,
        )
    }

    /// Loads a model whose toon materials `descriptors` describe. They are drawn
    /// with the unlit fallback.
    pub fn load_glb_bytes_opts_with_material_descriptors<
        F: Fn([Scalar; 4]) -> Scalar,
        G: Fn(&Vec<[Scalar; 2]>) -> [Scalar; 2],
    >(
        bytes: &[u8],
        options: &ModelLoadOptions,
        allowed: &[String],
        descriptors: &[MtoonMaterialDescriptor],
        length_squared: &F,
        span: &G,
    ) -> (result: Result<LoadedModel, ByteLoadError>)
        requires
            forall|rotation: [Scalar; 4]| call_requires(*length_squared, (rotation,)),
            forall|coordinates: &Vec<[Scalar; 2]>| call_requires(*span, (coordinates,)),
        ensures
            is_load(
                bytes@,
                *options,
                texts(allowed@),
                false,
                descriptors@,
                *length_squared,
                *span,
                result,
            ),
    {
        Self::load_glb_bytes_opts_with_material_descriptors_impl(
            bytes,
            options,
            allowed,
            false,
            descriptors,
            length_squared,
            span,
        )
    }

    /// Loads a model whose toon materials `descriptors` describe. Those that can
    /// be are drawn as described.
    pub fn load_glb_bytes_opts_with_native_mtoon<
        F: Fn([Scalar; 4]) -> Scalar,
        G: Fn(&Vec<[Scalar; 2]>) -> [Scalar; 2],
    >(
        bytes: &[u8],
        options: &ModelLoadOptions,
        allowed: &[String],
        descriptors: &[MtoonMaterialDescriptor],
        length_squared: &F,
        span: &G,
    ) -> (result: Result<LoadedModel, ByteLoadError>)
        requires
            forall|rotation: [Scalar; 4]| call_requires(*length_squared, (rotation,)),
            forall|coordinates: &Vec<[Scalar; 2]>| call_requires(*span, (coordinates,)),
        ensures
            is_load(
                bytes@,
                *options,
                texts(allowed@),
                true,
                descriptors@,
                *length_squared,
                *span,
                result,
            ),
    {
        Self::load_glb_bytes_opts_with_material_descriptors_impl(
            bytes,
            options,
            allowed,
            true,
            descriptors,
            length_squared,
            span,
        )
    }
}

/// A limit of zero is refused whatever the file holds, and no other limit is
/// refused for being one.
pub proof fn only_a_zero_limit_is_refused_for_itself<
    F: Fn([Scalar; 4]) -> Scalar,
    G: Fn(&Vec<[Scalar; 2]>) -> [Scalar; 2],
>(
    bytes: Seq<u8>,
    options: ModelLoadOptions,
    allowed: Seq<Seq<char>>,
    native_mtoon: bool,
    descriptors: Seq<MtoonMaterialDescriptor>,
    length_squared: F,
    span: G,
    result: Result<LoadedModel, ByteLoadError>,
)
    requires
        is_load(
            bytes,
            options,
            allowed,
            native_mtoon,
            descriptors,
            length_squared,
            span,
            result,
        ),
    ensures
        options.max_texture_dim == Some(0u32) <==> (result matches Err(
            ByteLoadError::ZeroTextureDim,
        )),
{
}

/// What is loaded of a file is what an import of the file holds: its images,
/// decoded for the descriptors only where toon shading is asked for, and the
/// values of its document and its buffers.
pub proof fn loaded_files_hold_their_import<
    F: Fn([Scalar; 4]) -> Scalar,
    G: Fn(&Vec<[Scalar; 2]>) -> [Scalar; 2],
>(
    bytes: Seq<u8>,
    options: ModelLoadOptions,
    allowed: Seq<Seq<char>>,
    native_mtoon: bool,
    descriptors: Seq<MtoonMaterialDescriptor>,
    length_squared: F,
    span: G,
    loaded: LoadedModel,
)
    requires
        is_load(
            bytes,
            options,
            allowed,
            native_mtoon,
            descriptors,
            length_squared,
            span,
            Ok::<LoadedModel, ByteLoadError>(loaded),
        ),
    ensures
        exists|imported: ImportedGlb, sampled: Seq<MtoonMaterialDescriptor>|
            {
                &&& #[trigger] is_import(
                    bytes,
                    allowed,
                    options.max_texture_dim,
                    sampled,
                    Ok(imported),
                )
                &&& native_mtoon ==> sampled == descriptors
                &&& !native_mtoon ==> sampled.len() == 0
                &&& imported.images == loaded.images
                &&& is_model_of(
                    imported.document,
                    rows(imported.buffers@),
                    length_squared,
                    span,
                    loaded.source,
                )
            },
        is_model_layout(
            loaded.source,
            Seq::empty(),
            native_mtoon,
            descriptors,
            loaded.asset,
        ),
{
    let sampled = sampled_descriptors(native_mtoon, descriptors);
    let imported = choose|imported: ImportedGlb|
        is_import(bytes, allowed, options.max_texture_dim, sampled, Ok(imported))
            && #[trigger] is_content(
            imported,
            length_squared,
            span,
            loaded.images,
            loaded.source,
        );
    assert(is_import(bytes, allowed, options.max_texture_dim, sampled, Ok(imported)));
}

} // verus!
