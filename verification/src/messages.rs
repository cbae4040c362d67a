//! The texts of errors.

use vstd::prelude::*;

use crate::anim::ChannelValidationError;
use crate::authoring::MaterialError;
use crate::glb::GlbError;
use crate::import::{
    BudgetError, ByteImageError, ByteImagesError, ImportError, MAX_BYTE_IMAGE_BYTES,
    MAX_BYTE_IMAGE_COUNT,
};
use crate::material::TextureRole;
use crate::text::{decimal, push_decimal, push_text};
use crate::validation::{Attribute, InputError, MAX_RENDERER_JOINTS};

verus! {

/// The name of an attribute.
pub open spec fn attribute_text(attribute: Attribute) -> Seq<char> {
    match attribute {
        Attribute::Position => "POSITION"@,
        Attribute::Normal => "NORMAL"@,
        Attribute::TexCoord0 => "TEXCOORD_0"@,
        Attribute::TexCoord1 => "TEXCOORD_1"@,
        Attribute::Joints0 => "JOINTS_0"@,
        Attribute::Weights0 => "WEIGHTS_0"@,
        Attribute::Indices => "index"@,
        Attribute::MorphPosition { target } => "morph POSITION target "@ + decimal(target as nat),
        Attribute::MorphNormal { target } => "morph NORMAL target "@ + decimal(target as nat),
    }
}

fn push_attribute(text: &mut String, attribute: Attribute)
    ensures
        final(text)@ == old(text)@ + attribute_text(attribute),
{
    match attribute {
        Attribute::Position => push_text(text, "POSITION"),
        Attribute::Normal => push_text(text, "NORMAL"),
        Attribute::TexCoord0 => push_text(text, "TEXCOORD_0"),
        Attribute::TexCoord1 => push_text(text, "TEXCOORD_1"),
        Attribute::Joints0 => push_text(text, "JOINTS_0"),
        Attribute::Weights0 => push_text(text, "WEIGHTS_0"),
        Attribute::Indices => push_text(text, "index"),
        Attribute::MorphPosition { target } => {
            push_text(text, "morph POSITION target ");
            push_decimal(text, target as u64);
        },
        Attribute::MorphNormal { target } => {
            push_text(text, "morph NORMAL target ");
            push_decimal(text, target as u64);
        },
    }
    assert(text@ =~= old(text)@ + attribute_text(attribute));
}

/// What is said of outputs that have two tangents each.
pub open spec fn cubic_text(cubic: bool) -> Seq<char> {
    if cubic {
        " \u{d7} 3 for CUBICSPLINE"@
    } else {
        ""@
    }
}

fn push_cubic(text: &mut String, cubic: bool)
    ensures
        final(text)@ == old(text)@ + cubic_text(cubic),
{
    push_text(
        text,
        if cubic {
            " \u{d7} 3 for CUBICSPLINE"
        } else {
            ""
        },
    );
}

/// The name of a texture role.
pub open spec fn role_text(role: TextureRole) -> Seq<char> {
    match role {
        TextureRole::BaseColor => "BaseColor"@,
        TextureRole::Normal => "Normal"@,
        TextureRole::Emissive => "Emissive"@,
        TextureRole::ShadeMultiply => "ShadeMultiply"@,
        TextureRole::ShadingShift => "ShadingShift"@,
        TextureRole::Matcap => "Matcap"@,
        TextureRole::RimMultiply => "RimMultiply"@,
        TextureRole::OutlineWidth => "OutlineWidth"@,
        TextureRole::UvAnimationMask => "UvAnimationMask"@,
    }
}

fn push_role(text: &mut String, role: TextureRole)
    ensures
        final(text)@ == old(text)@ + role_text(role),
{
    push_text(
        text,
        match role {
            TextureRole::BaseColor => "BaseColor",
            TextureRole::Normal => "Normal",
            TextureRole::Emissive => "Emissive",
            TextureRole::ShadeMultiply => "ShadeMultiply",
            TextureRole::ShadingShift => "ShadingShift",
            TextureRole::Matcap => "Matcap",
            TextureRole::RimMultiply => "RimMultiply",
            TextureRole::OutlineWidth => "OutlineWidth",
            TextureRole::UvAnimationMask => "UvAnimationMask",
        },
    );
}


/// What is said of a model that cannot be loaded as it was read.
pub open spec fn input_error_text(error: InputError, label: Seq<char>) -> Seq<char> {
    match error {
        InputError::JointPalette { count } => "combined skin joint count "@
            + decimal(count as nat) + " exceeds renderer joint palette limit "@
            + decimal(MAX_RENDERER_JOINTS as nat) + " in "@ + label,
        InputError::UnreadableInverseBinds => "inverse bind matrix accessor cannot be read in "@
            + label,
        InputError::InverseBindCount { matrices, joints } => "inverse bind matrix count "@
            + decimal(matrices as nat) + " does not match skin joint count "@
            + decimal(joints as nat) + " in "@ + label,
        InputError::SkinJoint { joint, node, nodes } => "skin joint "@ + decimal(joint as nat)
            + " references node "@ + decimal(node as nat) + ", but the model has "@
            + decimal(nodes as nat) + " nodes in "@ + label,
        InputError::UnreadableAttribute { attribute } => attribute_text(attribute)
            + " accessor cannot be read in "@ + label,
        InputError::AttributeCount { attribute, actual, positions } => attribute_text(attribute)
            + " accessor count "@ + decimal(actual as nat) + " does not match POSITION count "@
            + decimal(positions as nat) + " in "@ + label,
        InputError::JointIndex { vertex, slot, joint, joints } => "JOINTS_0 vertex "@
            + decimal(vertex as nat) + " index "@ + decimal(joint as nat) + " at slot "@
            + decimal(slot as nat) + " exceeds skin joint count "@ + decimal(joints as nat)
            + " in "@ + label,
        InputError::VertexIndex { index, positions } => "index "@ + decimal(index as nat)
            + " exceeds POSITION count "@ + decimal(positions as nat) + " in "@ + label,
        InputError::NoKeys { animation, channel } => "animation channel "@
            + decimal(channel as nat) + " in animation "@ + decimal(animation as nat) + " in "@
            + label + " has zero input keys"@,
        InputError::UnreadableKeys { animation, channel } => "animation channel "@
            + decimal(channel as nat) + " in animation "@ + decimal(animation as nat) + " in "@
            + label + " has no readable input keys"@,
        InputError::InvalidKeys { animation, channel } => "animation channel "@
            + decimal(channel as nat) + " in animation "@ + decimal(animation as nat)
            + " has invalid or unsorted input keys in "@ + label,
        InputError::TooFewCubicKeys { animation, channel } => "animation channel "@
            + decimal(channel as nat) + " in animation "@ + decimal(animation as nat)
            + " has fewer than two CUBICSPLINE keys in "@ + label,
        InputError::OutputDimensions { animation, channel } => "animation channel "@
            + decimal(channel as nat) + " in animation "@ + decimal(animation as nat)
            + " has output dimensions incompatible with its target in "@ + label,
        InputError::OutputCountOverflow => "animation output count overflows"@,
        InputError::OutputCount { outputs, keys, cubic } => "animation channel output count "@
            + decimal(outputs as nat) + " does not match input key count "@ + decimal(keys as nat)
            + cubic_text(cubic) + " in "@ + label,
        InputError::UnreadableOutputs { animation, channel } => "animation channel "@
            + decimal(channel as nat) + " in animation "@ + decimal(animation as nat) + " in "@
            + label + " has output data incompatible with its target"@,
        InputError::TruncatedRotations { animation, channel } => "animation channel "@
            + decimal(channel as nat) + " in animation "@ + decimal(animation as nat)
            + " has truncated rotation output in "@ + label,
        InputError::UnusableRotation { animation, channel, key } => "animation channel "@
            + decimal(channel as nat) + " in animation "@ + decimal(animation as nat)
            + " has a zero or non-finite rotation quaternion at key "@ + decimal(key as nat)
            + " in "@ + label,
    }
}

impl InputError {
    /// The text of the error for the file `label`.
    pub fn message(&self, label: &str) -> (text: String)
        ensures
            text@ == input_error_text(*self, label@),
    {
        let mut text = String::new();
        match *self {
            InputError::JointPalette { count } => {
                push_text(&mut text, "combined skin joint count ");
                push_decimal(&mut text, count as u64);
                push_text(&mut text, " exceeds renderer joint palette limit ");
                push_decimal(&mut text, MAX_RENDERER_JOINTS as u64);
                push_text(&mut text, " in ");
                push_text(&mut text, label);
            },
            InputError::UnreadableInverseBinds => {
                push_text(&mut text, "inverse bind matrix accessor cannot be read in ");
                push_text(&mut text, label);
            },
            InputError::InverseBindCount { matrices, joints } => {
                push_text(&mut text, "inverse bind matrix count ");
                push_decimal(&mut text, matrices as u64);
                push_text(&mut text, " does not match skin joint count ");
                push_decimal(&mut text, joints as u64);
                push_text(&mut text, " in ");
                push_text(&mut text, label);
            },
            InputError::SkinJoint { joint, node, nodes } => {
                push_text(&mut text, "skin joint ");
                push_decimal(&mut text, joint as u64);
                push_text(&mut text, " references node ");
                push_decimal(&mut text, node as u64);
                push_text(&mut text, ", but the model has ");
                push_decimal(&mut text, nodes as u64);
                push_text(&mut text, " nodes in ");
                push_text(&mut text, label);
            },
            InputError::UnreadableAttribute { attribute } => {
                push_attribute(&mut text, attribute);
                push_text(&mut text, " accessor cannot be read in ");
                push_text(&mut text, label);
            },
            InputError::AttributeCount { attribute, actual, positions } => {
                push_attribute(&mut text, attribute);
                push_text(&mut text, " accessor count ");
                push_decimal(&mut text, actual as u64);
                push_text(&mut text, " does not match POSITION count ");
                push_decimal(&mut text, positions as u64);
                push_text(&mut text, " in ");
                push_text(&mut text, label);
            },
            InputError::JointIndex { vertex, slot, joint, joints } => {
                push_text(&mut text, "JOINTS_0 vertex ");
                push_decimal(&mut text, vertex as u64);
                push_text(&mut text, " index ");
                push_decimal(&mut text, joint as u64);
                push_text(&mut text, " at slot ");
                push_decimal(&mut text, slot as u64);
                push_text(&mut text, " exceeds skin joint count ");
                push_decimal(&mut text, joints as u64);
                push_text(&mut text, " in ");
                push_text(&mut text, label);
            },
            InputError::VertexIndex { index, positions } => {
                push_text(&mut text, "index ");
                push_decimal(&mut text, index as u64);
                push_text(&mut text, " exceeds POSITION count ");
                push_decimal(&mut text, positions as u64);
                push_text(&mut text, " in ");
                push_text(&mut text, label);
            },
            InputError::NoKeys { animation, channel } => {
                push_text(&mut text, "animation channel ");
                push_decimal(&mut text, channel as u64);
                push_text(&mut text, " in animation ");
                push_decimal(&mut text, animation as u64);
                push_text(&mut text, " in ");
                push_text(&mut text, label);
                push_text(&mut text, " has zero input keys");
            },
            InputError::UnreadableKeys { animation, channel } => {
                push_text(&mut text, "animation channel ");
                push_decimal(&mut text, channel as u64);
                push_text(&mut text, " in animation ");
                push_decimal(&mut text, animation as u64);
                push_text(&mut text, " in ");
                push_text(&mut text, label);
                push_text(&mut text, " has no readable input keys");
            },
            InputError::InvalidKeys { animation, channel } => {
                push_text(&mut text, "animation channel ");
                push_decimal(&mut text, channel as u64);
                push_text(&mut text, " in animation ");
                push_decimal(&mut text, animation as u64);
                push_text(&mut text, " has invalid or unsorted input keys in ");
                push_text(&mut text, label);
            },
            InputError::TooFewCubicKeys { animation, channel } => {
                push_text(&mut text, "animation channel ");
                push_decimal(&mut text, channel as u64);
                push_text(&mut text, " in animation ");
                push_decimal(&mut text, animation as u64);
                push_text(&mut text, " has fewer than two CUBICSPLINE keys in ");
                push_text(&mut text, label);
            },
            InputError::OutputDimensions { animation, channel } => {
                push_text(&mut text, "animation channel ");
                push_decimal(&mut text, channel as u64);
                push_text(&mut text, " in animation ");
                push_decimal(&mut text, animation as u64);
                push_text(&mut text, " has output dimensions incompatible with its target in ");
                push_text(&mut text, label);
            },
            InputError::OutputCountOverflow => {
                push_text(&mut text, "animation output count overflows");
            },
            InputError::OutputCount { outputs, keys, cubic } => {
                push_text(&mut text, "animation channel output count ");
                push_decimal(&mut text, outputs as u64);
                push_text(&mut text, " does not match input key count ");
                push_decimal(&mut text, keys as u64);
                push_cubic(&mut text, cubic);
                push_text(&mut text, " in ");
                push_text(&mut text, label);
            },
            InputError::UnreadableOutputs { animation, channel } => {
                push_text(&mut text, "animation channel ");
                push_decimal(&mut text, channel as u64);
                push_text(&mut text, " in animation ");
                push_decimal(&mut text, animation as u64);
                push_text(&mut text, " in ");
                push_text(&mut text, label);
                push_text(&mut text, " has output data incompatible with its target");
            },
            InputError::TruncatedRotations { animation, channel } => {
                push_text(&mut text, "animation channel ");
                push_decimal(&mut text, channel as u64);
                push_text(&mut text, " in animation ");
                push_decimal(&mut text, animation as u64);
                push_text(&mut text, " has truncated rotation output in ");
                push_text(&mut text, label);
            },
            InputError::UnusableRotation { animation, channel, key } => {
                push_text(&mut text, "animation channel ");
                push_decimal(&mut text, channel as u64);
                push_text(&mut text, " in animation ");
                push_decimal(&mut text, animation as u64);
                push_text(&mut text, " has a zero or non-finite rotation quaternion at key ");
                push_decimal(&mut text, key as u64);
                push_text(&mut text, " in ");
                push_text(&mut text, label);
            },
        }
        assert(text@ =~= input_error_text(*self, label@));
        text
    }
}

/// What is said of a broken container.
pub open spec fn glb_error_text(error: GlbError, label: Seq<char>) -> Seq<char> {
    match error {
        GlbError::TruncatedHeader => "invalid GLB "@ + label + ": header is truncated"@,
        GlbError::BadMagic => "invalid GLB "@ + label + ": bad magic"@,
        GlbError::UnsupportedVersion { version } => "invalid GLB "@ + label
            + ": unsupported version "@ + decimal(version as nat),
        GlbError::LengthMismatch { declared, actual } => "invalid GLB "@ + label
            + ": declared length "@ + decimal(declared as nat) + " does not match byte length "@
            + decimal(actual as nat),
        GlbError::TruncatedChunkHeader => "invalid GLB "@ + label + ": truncated chunk header"@,
        GlbError::ChunkLengthOverflow => "invalid GLB "@ + label + ": chunk length overflows"@,
        GlbError::ChunkExceedsLength => "invalid GLB "@ + label
            + ": chunk exceeds declared length"@,
        GlbError::FirstChunkNotJson => "invalid GLB "@ + label + ": first chunk is not JSON"@,
        GlbError::MultipleBinChunks => "invalid GLB "@ + label + ": multiple BIN chunks"@,
        GlbError::MultipleJsonChunks => "invalid GLB "@ + label + ": multiple JSON chunks"@,
    }
}

impl GlbError {
    /// The text of the error for the file `label`.
    pub fn message(&self, label: &str) -> (text: String)
        ensures
            text@ == glb_error_text(*self, label@),
    {
        let mut text = String::new();
        match *self {
            GlbError::TruncatedHeader => {
                push_text(&mut text, "invalid GLB ");
                push_text(&mut text, label);
                push_text(&mut text, ": header is truncated");
            },
            GlbError::BadMagic => {
                push_text(&mut text, "invalid GLB ");
                push_text(&mut text, label);
                push_text(&mut text, ": bad magic");
            },
            GlbError::UnsupportedVersion { version } => {
                push_text(&mut text, "invalid GLB ");
                push_text(&mut text, label);
                push_text(&mut text, ": unsupported version ");
                push_decimal(&mut text, version as u64);
            },
            GlbError::LengthMismatch { declared, actual } => {
                push_text(&mut text, "invalid GLB ");
                push_text(&mut text, label);
                push_text(&mut text, ": declared length ");
                push_decimal(&mut text, declared as u64);
                push_text(&mut text, " does not match byte length ");
                push_decimal(&mut text, actual as u64);
            },
            GlbError::TruncatedChunkHeader => {
                push_text(&mut text, "invalid GLB ");
                push_text(&mut text, label);
                push_text(&mut text, ": truncated chunk header");
            },
            GlbError::ChunkLengthOverflow => {
                push_text(&mut text, "invalid GLB ");
                push_text(&mut text, label);
                push_text(&mut text, ": chunk length overflows");
            },
            GlbError::ChunkExceedsLength => {
                push_text(&mut text, "invalid GLB ");
                push_text(&mut text, label);
                push_text(&mut text, ": chunk exceeds declared length");
            },
            GlbError::FirstChunkNotJson => {
                push_text(&mut text, "invalid GLB ");
                push_text(&mut text, label);
                push_text(&mut text, ": first chunk is not JSON");
            },
            GlbError::MultipleBinChunks => {
                push_text(&mut text, "invalid GLB ");
                push_text(&mut text, label);
                push_text(&mut text, ": multiple BIN chunks");
            },
            GlbError::MultipleJsonChunks => {
                push_text(&mut text, "invalid GLB ");
                push_text(&mut text, label);
                push_text(&mut text, ": multiple JSON chunks");
            },
        }
        assert(text@ =~= glb_error_text(*self, label@));
        text
    }
}

/// What is said of an image that does not fit the budget.
pub open spec fn budget_error_text(
    error: BudgetError,
    image: usize,
    label: Seq<char>,
) -> Seq<char> {
    match error {
        BudgetError::TooManyImages => "byte-loaded GLB "@ + label + " references more than "@
            + decimal(MAX_BYTE_IMAGE_COUNT as nat) + " decoded images"@,
        BudgetError::ImageTooLarge => "decoded image "@ + decimal(image as nat) + " in "@ + label
            + " is too large"@,
        BudgetError::ByteCountOverflow => "decoded image byte budget overflows in "@ + label,
        BudgetError::BudgetExceeded => "decoded image byte budget exceeds "@
            + decimal(MAX_BYTE_IMAGE_BYTES as nat) + " bytes at image "@ + decimal(image as nat)
            + " in "@ + label,
    }
}

impl BudgetError {
    /// The text of the error for image `image` of the file `label`.
    pub fn message(&self, image: usize, label: &str) -> (text: String)
        ensures
            text@ == budget_error_text(*self, image, label@),
    {
        let mut text = String::new();
        match *self {
            BudgetError::TooManyImages => {
                push_text(&mut text, "byte-loaded GLB ");
                push_text(&mut text, label);
                push_text(&mut text, " references more than ");
                push_decimal(&mut text, MAX_BYTE_IMAGE_COUNT as u64);
                push_text(&mut text, " decoded images");
            },
            BudgetError::ImageTooLarge => {
                push_text(&mut text, "decoded image ");
                push_decimal(&mut text, image as u64);
                push_text(&mut text, " in ");
                push_text(&mut text, label);
                push_text(&mut text, " is too large");
            },
            BudgetError::ByteCountOverflow => {
                push_text(&mut text, "decoded image byte budget overflows in ");
                push_text(&mut text, label);
            },
            BudgetError::BudgetExceeded => {
                push_text(&mut text, "decoded image byte budget exceeds ");
                push_decimal(&mut text, MAX_BYTE_IMAGE_BYTES as u64);
                push_text(&mut text, " bytes at image ");
                push_decimal(&mut text, image as u64);
                push_text(&mut text, " in ");
                push_text(&mut text, label);
            },
        }
        assert(text@ =~= budget_error_text(*self, image, label@));
        text
    }
}

/// What is said of materials that cannot be authored.
pub open spec fn material_error_text(error: MaterialError, label: Seq<char>) -> Seq<char> {
    match error {
        MaterialError::DescriptorIndex { index, materials } => "MToon descriptor material index "@
            + decimal(index as nat) + " exceeds material count "@ + decimal(materials as nat)
            + " in "@ + label,
        MaterialError::DuplicateDescriptor { index } => "duplicate MToon descriptor for material "@
            + decimal(index as nat) + " in "@ + label,
        MaterialError::ColorSpace { material, role } => "MToon material "@
            + decimal(material as nat) + " texture "@ + role_text(role)
            + " declares inconsistent color space in "@ + label,
        MaterialError::TextureIndex { material, role, texture, image, textures, images } =>
            "MToon material "@ + decimal(material as nat) + " texture "@ + role_text(role)
            + " references texture "@ + decimal(texture as nat) + "/image "@
            + decimal(image as nat) + " outside glTF counts "@ + decimal(textures as nat) + "/"@
            + decimal(images as nat) + " in "@ + label,
        MaterialError::TexCoord { material, role, set } => "MToon material "@
            + decimal(material as nat) + " texture "@ + role_text(role) + " selects TEXCOORD_"@
            + decimal(set as nat)
            + ", but Pocket3D currently imports only TEXCOORD_0 and TEXCOORD_1 in "@ + label,
        MaterialError::NoUnlitFallback { material } => "MToon material "@
            + decimal(material as nat) + " lacks KHR_materials_unlit fallback in "@ + label,
        MaterialError::MtoonBaseTexCoord { material, set } => "MToon material "@
            + decimal(material as nat) + " baseColorTexture selects TEXCOORD_"@
            + decimal(set as nat)
            + ", but the current unlit fallback samples only TEXCOORD_0 in "@ + label,
        MaterialError::BaseTexCoord { material, set } => "glTF material "@
            + decimal(material as nat) + " baseColorTexture selects TEXCOORD_"@
            + decimal(set as nat)
            + ", but the current PocketLit/Unlit shader samples only TEXCOORD_0 in "@ + label,
    }
}

impl MaterialError {
    /// The text of the error for the file `label`.
    pub fn message(&self, label: &str) -> (text: String)
        ensures
            text@ == material_error_text(*self, label@),
    {
        let mut text = String::new();
        match *self {
            MaterialError::DescriptorIndex { index, materials } => {
                push_text(&mut text, "MToon descriptor material index ");
                push_decimal(&mut text, index as u64);
                push_text(&mut text, " exceeds material count ");
                push_decimal(&mut text, materials as u64);
                push_text(&mut text, " in ");
                push_text(&mut text, label);
            },
            MaterialError::DuplicateDescriptor { index } => {
                push_text(&mut text, "duplicate MToon descriptor for material ");
                push_decimal(&mut text, index as u64);
                push_text(&mut text, " in ");
                push_text(&mut text, label);
            },
            MaterialError::ColorSpace { material, role } => {
                push_text(&mut text, "MToon material ");
                push_decimal(&mut text, material as u64);
                push_text(&mut text, " texture ");
                push_role(&mut text, role);
                push_text(&mut text, " declares inconsistent color space in ");
                push_text(&mut text, label);
            },
            MaterialError::TextureIndex { material, role, texture, image, textures, images } => {
                push_text(&mut text, "MToon material ");
                push_decimal(&mut text, material as u64);
                push_text(&mut text, " texture ");
                push_role(&mut text, role);
                push_text(&mut text, " references texture ");
                push_decimal(&mut text, texture as u64);
                push_text(&mut text, "/image ");
                push_decimal(&mut text, image as u64);
                push_text(&mut text, " outside glTF counts ");
                push_decimal(&mut text, textures as u64);
                push_text(&mut text, "/");
                push_decimal(&mut text, images as u64);
                push_text(&mut text, " in ");
                push_text(&mut text, label);
            },
            MaterialError::TexCoord { material, role, set } => {
                push_text(&mut text, "MToon material ");
                push_decimal(&mut text, material as u64);
                push_text(&mut text, " texture ");
                push_role(&mut text, role);
                push_text(&mut text, " selects TEXCOORD_");
                push_decimal(&mut text, set as u64);
                push_text(
                    &mut text,
                    ", but Pocket3D currently imports only TEXCOORD_0 and TEXCOORD_1 in ",
                );
                push_text(&mut text, label);
            },
            MaterialError::NoUnlitFallback { material } => {
                push_text(&mut text, "MToon material ");
                push_decimal(&mut text, material as u64);
                push_text(&mut text, " lacks KHR_materials_unlit fallback in ");
                push_text(&mut text, label);
            },
            MaterialError::MtoonBaseTexCoord { material, set } => {
                push_text(&mut text, "MToon material ");
                push_decimal(&mut text, material as u64);
                push_text(&mut text, " baseColorTexture selects TEXCOORD_");
                push_decimal(&mut text, set as u64);
                push_text(
                    &mut text,
                    ", but the current unlit fallback samples only TEXCOORD_0 in ",
                );
                push_text(&mut text, label);
            },
            MaterialError::BaseTexCoord { material, set } => {
                push_text(&mut text, "glTF material ");
                push_decimal(&mut text, material as u64);
                push_text(&mut text, " baseColorTexture selects TEXCOORD_");
                push_decimal(&mut text, set as u64);
                push_text(
                    &mut text,
                    ", but the current PocketLit/Unlit shader samples only TEXCOORD_0 in ",
                );
                push_text(&mut text, label);
            },
        }
        assert(text@ =~= material_error_text(*self, label@));
        text
    }
}

/// What is said of a channel that cannot be sampled.
pub open spec fn channel_error_text(error: ChannelValidationError) -> Seq<char> {
    match error {
        ChannelValidationError::NoKeyTimes => "animation channel has no key times"@,
        ChannelValidationError::InvalidKeyTimes => "animation channel has invalid key times"@,
        ChannelValidationError::UnsortedKeyTimes => "animation channel key times are not sorted"@,
        ChannelValidationError::ValueCountOverflow => "animation channel value count overflows"@,
        ChannelValidationError::ValueCountMismatch { values, keys, components } =>
            "animation channel value count "@ + decimal(values as nat) + " does not match "@
            + decimal(keys as nat) + " key(s) of "@ + decimal(components as nat)
            + " component(s)"@,
        ChannelValidationError::NonFiniteValues => "animation channel has non-finite values"@,
        ChannelValidationError::MalformedRotationKey { key } => "animation rotation key "@
            + decimal(key as nat) + " has malformed quaternion values"@,
        ChannelValidationError::InvalidRotationKey { key } => "animation rotation key "@
            + decimal(key as nat) + " has a zero or non-finite quaternion"@,
    }
}

impl ChannelValidationError {
    /// The text of the error.
    pub fn message(&self) -> (text: String)
        ensures
            text@ == channel_error_text(*self),
    {
        let mut text = String::new();
        match *self {
            ChannelValidationError::NoKeyTimes => {
                push_text(&mut text, "animation channel has no key times");
            },
            ChannelValidationError::InvalidKeyTimes => {
                push_text(&mut text, "animation channel has invalid key times");
            },
            ChannelValidationError::UnsortedKeyTimes => {
                push_text(&mut text, "animation channel key times are not sorted");
            },
            ChannelValidationError::ValueCountOverflow => {
                push_text(&mut text, "animation channel value count overflows");
            },
            ChannelValidationError::ValueCountMismatch { values, keys, components } => {
                push_text(&mut text, "animation channel value count ");
                push_decimal(&mut text, values as u64);
                push_text(&mut text, " does not match ");
                push_decimal(&mut text, keys as u64);
                push_text(&mut text, " key(s) of ");
                push_decimal(&mut text, components as u64);
                push_text(&mut text, " component(s)");
            },
            ChannelValidationError::NonFiniteValues => {
                push_text(&mut text, "animation channel has non-finite values");
            },
            ChannelValidationError::MalformedRotationKey { key } => {
                push_text(&mut text, "animation rotation key ");
                push_decimal(&mut text, key as u64);
                push_text(&mut text, " has malformed quaternion values");
            },
            ChannelValidationError::InvalidRotationKey { key } => {
                push_text(&mut text, "animation rotation key ");
                push_decimal(&mut text, key as u64);
                push_text(&mut text, " has a zero or non-finite quaternion");
            },
        }
        assert(text@ =~= channel_error_text(*self));
        text
    }
}

/// What is said of image `image`.
pub open spec fn image_error_text(error: ByteImageError, image: usize, label: Seq<char>) -> Seq<
    char,
> {
    let place = decimal(image as nat) + " in "@ + label;
    match error {
        ByteImageError::NoSource => "image "@ + place + " has neither typed bytes nor a URI"@,
        ByteImageError::UnsupportedDataUri => "image "@ + place
            + " has an unsupported data URI; expected base64"@,
        ByteImageError::DataUri(_) => "decoding data URI for image "@ + place,
        ByteImageError::MissingBuffer => "image "@ + place + " references a missing buffer"@,
        ByteImageError::ViewOverflow => "image "@ + place + " buffer view overflows"@,
        ByteImageError::ViewOutOfBounds => "image "@ + place + " buffer view exceeds its buffer"@,
        ByteImageError::Dimensions(_) => "reading dimensions for image "@ + place,
        ByteImageError::Budget(error) => budget_error_text(error, image, label),
        ByteImageError::Decode(_) => "decoding image "@ + place,
    }
}

/// What is said of images that cannot be imported.
pub open spec fn images_error_text(error: ByteImagesError, label: Seq<char>) -> Seq<char> {
    match error {
        ByteImagesError::TooManyImages { count } => "byte-loaded GLB "@ + label + " declares "@
            + decimal(count as nat) + " images, exceeding the limit of "@ + decimal(
            MAX_BYTE_IMAGE_COUNT as nat,
        ),
        ByteImagesError::Image { image, error } => image_error_text(error, image, label),
    }
}

/// What is said of a file that cannot be imported. The causes that outside
/// crates give are not part of it.
pub open spec fn import_error_text(error: ImportError, label: Seq<char>) -> Seq<char> {
    match error {
        ImportError::Container(error) => glb_error_text(error, label),
        ImportError::Parse(_) => "parsing embedded GLB "@ + label,
        ImportError::PositionAccessor => "missing POSITION accessor in embedded GLB "@ + label,
        ImportError::Validation(_) => "validating embedded GLB "@ + label,
        ImportError::RequiredExtension { name } => "required extension "@ + name@
            + " is not enabled or caller-validated for byte-loaded GLB "@ + label,
        ImportError::ExternalBuffer { uri } => "external buffer URI \""@ + uri@
            + "\" is not allowed for byte-loaded GLB"@,
        ImportError::ExternalImage { uri } => "external image URI \""@ + uri@
            + "\" is not allowed for byte-loaded GLB"@,
        ImportError::Buffers(_) => "importing embedded GLB buffers "@ + label,
        ImportError::Images(error) => "importing embedded GLB images "@ + label + ": "@
            + images_error_text(error, label),
    }
}

fn push_place(text: &mut String, before: &str, image: usize, label: &str, after: &str)
    ensures
        final(text)@ == old(text)@ + (before@ + (decimal(image as nat) + " in "@ + label@)
            + after@),
{
    push_text(text, before);
    push_decimal(text, image as u64);
    push_text(text, " in ");
    push_text(text, label);
    push_text(text, after);
    assert(text@ =~= old(text)@ + (before@ + (decimal(image as nat) + " in "@ + label@) + after@));
}

impl ByteImageError {
    /// The text of the error for image `image` of the file `label`.
    pub fn message(&self, image: usize, label: &str) -> (text: String)
        ensures
            text@ == image_error_text(*self, image, label@),
    {
        if let ByteImageError::Budget(error) = self {
            return error.message(image, label);
        }
        let mut text = String::new();
        match self {
            ByteImageError::NoSource => push_place(
                &mut text,
                "image ",
                image,
                label,
                " has neither typed bytes nor a URI",
            ),
            ByteImageError::UnsupportedDataUri => push_place(
                &mut text,
                "image ",
                image,
                label,
                " has an unsupported data URI; expected base64",
            ),
            ByteImageError::MissingBuffer => push_place(
                &mut text,
                "image ",
                image,
                label,
                " references a missing buffer",
            ),
            ByteImageError::ViewOverflow => push_place(
                &mut text,
                "image ",
                image,
                label,
                " buffer view overflows",
            ),
            ByteImageError::ViewOutOfBounds => push_place(
                &mut text,
                "image ",
                image,
                label,
                " buffer view exceeds its buffer",
            ),
            ByteImageError::DataUri(_) => {
                push_place(&mut text, "decoding data URI for image ", image, label, "");
                proof {
                    reveal_strlit("");
                }
            },
            ByteImageError::Dimensions(_) => {
                push_place(&mut text, "reading dimensions for image ", image, label, "");
                proof {
                    reveal_strlit("");
                }
            },
            _ => {
                push_place(&mut text, "decoding image ", image, label, "");
                proof {
                    reveal_strlit("");
                }
            },
        }
        assert(text@ =~= image_error_text(*self, image, label@));
        text
    }
}

impl ByteImagesError {
    /// The text of the error for the file `label`.
    pub fn message(&self, label: &str) -> (text: String)
        ensures
            text@ == images_error_text(*self, label@),
    {
        match self {
            ByteImagesError::TooManyImages { count } => {
                let mut text = String::new();
                push_text(&mut text, "byte-loaded GLB ");
                push_text(&mut text, label);
                push_text(&mut text, " declares ");
                push_decimal(&mut text, *count as u64);
                push_text(&mut text, " images, exceeding the limit of ");
                push_decimal(&mut text, MAX_BYTE_IMAGE_COUNT as u64);
                assert(text@ =~= images_error_text(*self, label@));
                text
            },
            ByteImagesError::Image { image, error } => error.message(*image, label),
        }
    }
}

impl ImportError {
    /// The text of the error for the file `label`.
    pub fn message(&self, label: &str) -> (text: String)
        ensures
            text@ == import_error_text(*self, label@),
    {
        let mut text = String::new();
        match self {
            ImportError::Container(error) => {
                return error.message(label);
            },
            ImportError::Parse(_) => {
                push_text(&mut text, "parsing embedded GLB ");
                push_text(&mut text, label);
            },
            ImportError::PositionAccessor => {
                push_text(&mut text, "missing POSITION accessor in embedded GLB ");
                push_text(&mut text, label);
            },
            ImportError::Validation(_) => {
                push_text(&mut text, "validating embedded GLB ");
                push_text(&mut text, label);
            },
            ImportError::RequiredExtension { name } => {
                push_text(&mut text, "required extension ");
                push_text(&mut text, name.as_str());
                push_text(
                    &mut text,
                    " is not enabled or caller-validated for byte-loaded GLB ",
                );
                push_text(&mut text, label);
            },
            ImportError::ExternalBuffer { uri } => {
                push_text(&mut text, "external buffer URI \"");
                push_text(&mut text, uri.as_str());
                push_text(&mut text, "\" is not allowed for byte-loaded GLB");
            },
            ImportError::ExternalImage { uri } => {
                push_text(&mut text, "external image URI \"");
                push_text(&mut text, uri.as_str());
                push_text(&mut text, "\" is not allowed for byte-loaded GLB");
            },
            ImportError::Buffers(_) => {
                push_text(&mut text, "importing embedded GLB buffers ");
                push_text(&mut text, label);
            },
            ImportError::Images(error) => {
                push_text(&mut text, "importing embedded GLB images ");
                push_text(&mut text, label);
                push_text(&mut text, ": ");
                let cause = error.message(label);
                push_text(&mut text, cause.as_str());
            },
        }
        assert(text@ =~= import_error_text(*self, label@));
        text
    }
}

} // verus!
