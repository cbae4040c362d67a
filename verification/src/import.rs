//! Importing a self-contained binary glTF file from memory.
//!
//! The container is checked and normalized, the document validated with an
//! allowlist of required extensions, resources outside the file refused, and
//! the images that materials sample decoded within a budget.

use base64::Engine as _;
use std::io::Cursor;
use vstd::prelude::*;
use vstd::utf8::encode_utf8;

use crate::glb::{normalize_glb_container, normalized, GlbError};
use crate::material::{
    every_toon_texture_is_listed, input_textures, mtoon_textures, toon_samples,
    MtoonMaterialDescriptor, TextureInfo,
};
use crate::search::{first_some, first_some_none, first_some_stays};
use crate::source::{
    buffer_contents, check_position_accessors, chunk_of, document_buffers, is_structure_of,
    list_buffers, parse_file, parsed_file, positions_are_listed, read_buffers, required_by,
    required_extensions, rows, text_of, texts, valid_document, validate_document, validated,
    SourceImage, SourceImageView, SourceModel,
};
use crate::text::same_text;

verus! {

/// Why a data URI cannot be decoded.
#[verifier::external_type_specification]
#[verifier::external_body]
pub struct ExDecodeError(base64::DecodeError);

/// Why an image cannot be decoded.
#[verifier::external_type_specification]
#[verifier::external_body]
pub struct ExImageError(image::ImageError);

/// The largest side of an image, whatever the texture limit is.
pub const MAX_BYTE_IMAGE_DECODE_DIM: u32 = 16_384;

/// The largest side of an image without a texture limit.
pub const DEFAULT_BYTE_IMAGE_DECODE_DIM: u32 = 8_192;

/// The memory that decoding one image may take.
pub const MAX_BYTE_IMAGE_DECODE_ALLOC: u64 = 536_870_912;

/// How many images a file may have.
pub const MAX_BYTE_IMAGE_COUNT: usize = 64;

/// How many bytes the decoded images of a file may take.
pub const MAX_BYTE_IMAGE_BYTES: u64 = 268_435_456;

/// The largest side of an image that is decoded under a texture limit: four
/// times the limit, within bounds.
pub open spec fn decode_dim(max_texture_dim: Option<u32>) -> int {
    match max_texture_dim {
        None => DEFAULT_BYTE_IMAGE_DECODE_DIM as int,
        Some(max) => if max * 4 < 2 {
            2
        } else if max * 4 > MAX_BYTE_IMAGE_DECODE_DIM {
            MAX_BYTE_IMAGE_DECODE_DIM as int
        } else {
            max * 4
        },
    }
}

/// The largest side of an image that is decoded under a texture limit.
pub fn byte_image_decode_dim(max_texture_dim: Option<u32>) -> (dim: u32)
    ensures
        dim == decode_dim(max_texture_dim),
{
    match max_texture_dim {
        None => DEFAULT_BYTE_IMAGE_DECODE_DIM,
        Some(max) => {
            if max == 0 {
                2
            } else if max > MAX_BYTE_IMAGE_DECODE_DIM / 4 {
                MAX_BYTE_IMAGE_DECODE_DIM
            } else {
                max * 4
            }
        },
    }
}

/// How an image is stored.
#[derive(Clone, Copy, Debug, PartialEq, Eq, Structural)]
pub enum PixelFormat {
    R8,
    R8G8,
    R8G8B8,
    R8G8B8A8,
    /// Sixteen-bit or floating-point channels.
    Other,
}

/// A decoded image.
#[derive(Debug)]
pub struct ImageData {
    pub pixels: Vec<u8>,
    pub format: PixelFormat,
    pub width: u32,
    pub height: u32,
}

/// Why an image does not fit the budget.
#[derive(Clone, Copy, Debug, PartialEq, Eq, Structural)]
pub enum BudgetError {
    TooManyImages,
    ImageTooLarge,
    ByteCountOverflow,
    BudgetExceeded,
}

/// What the images decoded so far take.
#[derive(Clone, Copy, Debug, PartialEq, Eq, Structural)]
pub struct ByteImageBudget {
    pub image_count: usize,
    pub decoded_bytes: u64,
}

/// The budget after one more image of the given size.
pub open spec fn reserved(budget: ByteImageBudget, width: u32, height: u32) -> Result<
    ByteImageBudget,
    BudgetError,
> {
    let bytes = width * height * 4;
    if budget.image_count >= MAX_BYTE_IMAGE_COUNT {
        Err(BudgetError::TooManyImages)
    } else if bytes > u64::MAX {
        Err(BudgetError::ImageTooLarge)
    } else if budget.decoded_bytes + bytes > u64::MAX {
        Err(BudgetError::ByteCountOverflow)
    } else if budget.decoded_bytes + bytes > MAX_BYTE_IMAGE_BYTES {
        Err(BudgetError::BudgetExceeded)
    } else {
        Ok(
            ByteImageBudget {
                image_count: (budget.image_count + 1) as usize,
                decoded_bytes: (budget.decoded_bytes + bytes) as u64,
            },
        )
    }
}

/// Whether the budget is kept.
pub open spec fn within_budget(budget: ByteImageBudget) -> bool {
    budget.image_count <= MAX_BYTE_IMAGE_COUNT && budget.decoded_bytes <= MAX_BYTE_IMAGE_BYTES
}

impl Default for ByteImageBudget {
    fn default() -> (budget: Self)
        ensures
            budget.image_count == 0,
            budget.decoded_bytes == 0,
    {
        ByteImageBudget { image_count: 0, decoded_bytes: 0 }
    }
}

impl ByteImageBudget {
    /// Makes room for one more image; a refused image leaves the budget as it
    /// is.
    pub fn reserve(&mut self, width: u32, height: u32) -> (result: Result<(), BudgetError>)
        ensures
            match reserved(*old(self), width, height) {
                Ok(next) => result is Ok && *final(self) == next,
                Err(error) => result == Err::<(), BudgetError>(error) && *final(self)
                    == *old(self),
            },
    {
        if self.image_count >= MAX_BYTE_IMAGE_COUNT {
            return Err(BudgetError::TooManyImages);
        }
        assert(width * height <= u32::MAX * u32::MAX) by (nonlinear_arith)
            requires
                width <= u32::MAX,
                height <= u32::MAX,
        ;
        let pixels: u64 = width as u64 * height as u64;
        let bytes: u64 = match pixels.checked_mul(4) {
            Some(bytes) => bytes,
            None => {
                return Err(BudgetError::ImageTooLarge);
            },
        };
        let next: u64 = match self.decoded_bytes.checked_add(bytes) {
            Some(next) => next,
            None => {
                return Err(BudgetError::ByteCountOverflow);
            },
        };
        if next > MAX_BYTE_IMAGE_BYTES {
            return Err(BudgetError::BudgetExceeded);
        }
        self.image_count = self.image_count + 1;
        self.decoded_bytes = next;
        Ok(())
    }
}

/// Reserving keeps the budget.
pub proof fn reserving_keeps_the_budget(budget: ByteImageBudget, width: u32, height: u32)
    requires
        within_budget(budget),
    ensures
        reserved(budget, width, height) matches Ok(next) ==> within_budget(next)
            && next.image_count == budget.image_count + 1 && next.decoded_bytes
            == budget.decoded_bytes + width * height * 4,
{
}

/// How the format of encoded image bytes is known.
#[derive(Clone, Copy, Debug, PartialEq, Eq, Structural)]
pub enum ImageEncoding {
    Png,
    Jpeg,
    /// From the bytes themselves. Formats can be registered with the `image`
    /// crate while a program runs, so what a guess finds is not known from the
    /// bytes alone.
    Guessed,
}

/// What `base64::engine::general_purpose::STANDARD` decodes a text to.
pub uninterp spec fn base64_decoded(encoded: Seq<u8>) -> Option<Seq<u8>>;

/// What `image::ImageReader::into_dimensions` finds in an image of a known
/// format within the given limits on the sides and the memory.
pub uninterp spec fn encoded_size(
    encoded: Seq<u8>,
    encoding: ImageEncoding,
    max_dim: u32,
    max_alloc: u64,
) -> Option<(u32, u32)>;

/// A decoded image: its size and the pixels that it can have. Lossy formats
/// may be rounded differently from machine to machine.
pub struct DecodedImage {
    pub width: u32,
    pub height: u32,
    pub pixels: Set<Seq<u8>>,
}

/// What `image::ImageReader::decode` makes of an image of a known format within
/// the given limits on the sides and the memory, as RGBA.
pub uninterp spec fn decoded_pixels(
    encoded: Seq<u8>,
    encoding: ImageEncoding,
    max_dim: u32,
    max_alloc: u64,
) -> Option<DecodedImage>;

/// `base64::Engine::decode` of `base64::engine::general_purpose::STANDARD`:
/// the bytes that a padded standard-alphabet text stands for.
#[verifier::external_body]
fn decode_base64(encoded: &[u8]) -> (result: Result<Vec<u8>, base64::DecodeError>)
    ensures
        match result {
            Ok(decoded) => base64_decoded(encoded@) == Some(decoded@),
            Err(_) => base64_decoded(encoded@) is None,
        },
{
    base64::engine::general_purpose::STANDARD.decode(encoded)
}

/// `image::ImageReader::into_dimensions`: the size in the header of an encoded
/// image, if it keeps the limits. Of a guessed format nothing is claimed, as
/// `image::ImageReader::with_guessed_format` looks at formats that were
/// registered with the process.
#[verifier::external_body]
fn read_dimensions(
    encoded: &[u8],
    encoding: ImageEncoding,
    max_dim: u32,
    max_alloc: u64,
) -> (result: Result<(u32, u32), image::ImageError>)
    ensures
        encoding != ImageEncoding::Guessed ==> match result {
            Ok(size) => encoded_size(encoded@, encoding, max_dim, max_alloc) == Some(size),
            Err(_) => encoded_size(encoded@, encoding, max_dim, max_alloc) is None,
        },
{
    let source = Cursor::new(encoded);
    let mut limits = image::Limits::default();
    limits.max_image_width = Some(max_dim);
    limits.max_image_height = Some(max_dim);
    limits.max_alloc = Some(max_alloc);
    let mut reader = match encoding {
        ImageEncoding::Png => image::ImageReader::with_format(source, image::ImageFormat::Png),
        ImageEncoding::Jpeg => image::ImageReader::with_format(source, image::ImageFormat::Jpeg),
        ImageEncoding::Guessed => image::ImageReader::new(source).with_guessed_format()?,
    };
    reader.limits(limits);
    reader.into_dimensions()
}

/// `image::ImageReader::decode`: the pixels of an encoded image as RGBA, four
/// bytes each. A PNG has the same pixels on every machine. Of a guessed format
/// only the number of bytes is claimed.
#[verifier::external_body]
fn decode_pixels(
    encoded: &[u8],
    encoding: ImageEncoding,
    max_dim: u32,
    max_alloc: u64,
) -> (result: Result<(Vec<u8>, u32, u32), image::ImageError>)
    ensures
        result matches Ok((pixels, width, height)) ==> pixels@.len() == width * height * 4,
        encoding != ImageEncoding::Guessed ==> match result {
            Ok((pixels, width, height)) => {
                &&& decoded_pixels(encoded@, encoding, max_dim, max_alloc) matches Some(decoded)
                &&& decoded.width == width
                &&& decoded.height == height
                &&& decoded.pixels.contains(pixels@)
                &&& encoding == ImageEncoding::Png ==> decoded.pixels == set![pixels@]
            },
            Err(_) => decoded_pixels(encoded@, encoding, max_dim, max_alloc) is None,
        },
{
    let source = Cursor::new(encoded);
    let mut limits = image::Limits::default();
    limits.max_image_width = Some(max_dim);
    limits.max_image_height = Some(max_dim);
    limits.max_alloc = Some(max_alloc);
    let mut reader = match encoding {
        ImageEncoding::Png => image::ImageReader::with_format(source, image::ImageFormat::Png),
        ImageEncoding::Jpeg => image::ImageReader::with_format(source, image::ImageFormat::Jpeg),
        ImageEncoding::Guessed => image::ImageReader::new(source).with_guessed_format()?,
    };
    reader.limits(limits);
    let rgba = reader.decode()?.to_rgba8();
    let (width, height) = rgba.dimensions();
    Ok((rgba.into_raw(), width, height))
}

/// Why an image of a file cannot be used.
#[derive(Debug)]
pub enum ByteImageError {
    /// The image names neither bytes of a buffer with their type nor a URI.
    NoSource,
    /// The URI is not `data:..;base64,..`.
    UnsupportedDataUri,
    DataUri(base64::DecodeError),
    MissingBuffer,
    ViewOverflow,
    ViewOutOfBounds,
    Dimensions(image::ImageError),
    Budget(BudgetError),
    Decode(image::ImageError),
}

/// What went wrong with an image.
pub enum ImageFault {
    NoSource,
    UnsupportedDataUri,
    DataUri,
    MissingBuffer,
    ViewOverflow,
    ViewOutOfBounds,
    Dimensions,
    Budget(BudgetError),
    Decode,
}

/// What went wrong according to an error.
pub open spec fn fault_of(error: ByteImageError) -> ImageFault {
    match error {
        ByteImageError::NoSource => ImageFault::NoSource,
        ByteImageError::UnsupportedDataUri => ImageFault::UnsupportedDataUri,
        ByteImageError::DataUri(_) => ImageFault::DataUri,
        ByteImageError::MissingBuffer => ImageFault::MissingBuffer,
        ByteImageError::ViewOverflow => ImageFault::ViewOverflow,
        ByteImageError::ViewOutOfBounds => ImageFault::ViewOutOfBounds,
        ByteImageError::Dimensions(_) => ImageFault::Dimensions,
        ByteImageError::Budget(error) => ImageFault::Budget(error),
        ByteImageError::Decode(_) => ImageFault::Decode,
    }
}

/// Whether a URI, given as bytes, begins with "data:".
pub open spec fn is_data_uri(uri: Seq<u8>) -> bool {
    uri.len() >= 5 && uri.take(5) == seq![0x64u8, 0x61u8, 0x74u8, 0x61u8, 0x3au8]
}

/// Whether ";base64," stands at `at`.
pub open spec fn separator_at(uri: Seq<u8>, at: int) -> bool {
    at + 8 <= uri.len() && uri.subrange(at, at + 8) == seq![
        0x3bu8,
        0x62u8,
        0x61u8,
        0x73u8,
        0x65u8,
        0x36u8,
        0x34u8,
        0x2cu8,
    ]
}

/// Where the first ";base64," from `at` on stands.
pub open spec fn find_separator(uri: Seq<u8>, at: int) -> Option<int>
    decreases uri.len() - at,
{
    if at >= uri.len() {
        None
    } else if separator_at(uri, at) {
        Some(at)
    } else {
        find_separator(uri, at + 1)
    }
}

/// The encoded part of a data URI: what follows the first ";base64,".
pub open spec fn encoded_part(uri: Seq<u8>) -> Option<Seq<u8>> {
    if !is_data_uri(uri) {
        None
    } else {
        match find_separator(uri, 5) {
            Some(at) => Some(uri.skip(at + 8)),
            None => None,
        }
    }
}

fn data_uri(uri: &[u8]) -> (found: bool)
    ensures
        found == is_data_uri(uri@),
{
    if uri.len() < 5 {
        return false;
    }
    let found = uri[0] == 0x64 && uri[1] == 0x61 && uri[2] == 0x74 && uri[3] == 0x61 && uri[4]
        == 0x3a;
    proof {
        let start = uri@.take(5);
        let tag = seq![0x64u8, 0x61u8, 0x74u8, 0x61u8, 0x3au8];
        if found {
            assert(start =~= tag);
        } else if start == tag {
            assert(start[0] == tag[0] && start[1] == tag[1] && start[2] == tag[2] && start[3]
                == tag[3] && start[4] == tag[4]);
        }
    }
    found
}

fn separator(uri: &[u8], at: usize) -> (found: bool)
    requires
        at <= uri@.len(),
    ensures
        found == separator_at(uri@, at as int),
{
    if uri.len() - at < 8 {
        return false;
    }
    let found = uri[at] == 0x3b && uri[at + 1] == 0x62 && uri[at + 2] == 0x61 && uri[at + 3] == 0x73
        && uri[at + 4] == 0x65 && uri[at + 5] == 0x36 && uri[at + 6] == 0x34 && uri[at + 7] == 0x2c;
    proof {
        let here = uri@.subrange(at as int, at + 8);
        let tag = seq![0x3bu8, 0x62u8, 0x61u8, 0x73u8, 0x65u8, 0x36u8, 0x34u8, 0x2cu8];
        if found {
            assert(here =~= tag);
        } else if here == tag {
            assert(here[0] == tag[0] && here[1] == tag[1] && here[2] == tag[2] && here[3] == tag[3]
                && here[4] == tag[4] && here[5] == tag[5] && here[6] == tag[6] && here[7]
                == tag[7]);
        }
    }
    found
}

/// A copy of a part of `bytes`.
pub(crate) fn copy_range(bytes: &[u8], from: usize, to: usize) -> (copy: Vec<u8>)
    requires
        from <= to <= bytes@.len(),
    ensures
        copy@ == bytes@.subrange(from as int, to as int),
{
    let mut copy: Vec<u8> = Vec::new();
    let mut at: usize = from;
    while at < to
        invariant
            from <= at <= to <= bytes@.len(),
            copy@ =~= bytes@.subrange(from as int, at as int),
        decreases to - at,
    {
        copy.push(bytes[at]);
        at += 1;
    }
    copy
}

/// The encoded part of a data URI.
fn split_data_uri(uri: &[u8]) -> (encoded: Option<Vec<u8>>)
    ensures
        chunk_of(encoded) == encoded_part(uri@),
{
    if !data_uri(uri) {
        return None;
    }
    let mut at: usize = 5;
    while at < uri.len()
        invariant
            is_data_uri(uri@),
            5 <= at <= uri@.len(),
            find_separator(uri@, 5) == find_separator(uri@, at as int),
        decreases uri@.len() - at,
    {
        if separator(uri, at) {
            let encoded = copy_range(uri, at + 8, uri.len());
            assert(encoded@ =~= uri@.skip(at + 8));
            return Some(encoded);
        }
        at += 1;
    }
    None
}

/// What a data URI decodes to.
pub open spec fn uri_bytes(uri: Seq<char>) -> Result<Seq<u8>, ImageFault> {
    match encoded_part(encode_utf8(uri)) {
        None => Err(ImageFault::UnsupportedDataUri),
        Some(encoded) => match base64_decoded(encoded) {
            None => Err(ImageFault::DataUri),
            Some(decoded) => Ok(decoded),
        },
    }
}

/// The bytes that a base64 data URI holds.
pub fn decode_data_uri(uri: &str) -> (result: Result<Vec<u8>, ByteImageError>)
    ensures
        match result {
            Ok(bytes) => uri_bytes(uri@) == Ok::<Seq<u8>, ImageFault>(bytes@),
            Err(error) => uri_bytes(uri@) == Err::<Seq<u8>, ImageFault>(fault_of(error)),
        },
{
    match split_data_uri(uri.as_bytes()) {
        None => Err(ByteImageError::UnsupportedDataUri),
        Some(encoded) => match decode_base64(encoded.as_slice()) {
            Ok(bytes) => Ok(bytes),
            Err(error) => Err(ByteImageError::DataUri(error)),
        },
    }
}

/// How the format of an image with the given MIME type is known.
pub open spec fn encoding_of(mime_type: Option<Seq<char>>) -> ImageEncoding {
    if mime_type == Some("image/png"@) {
        ImageEncoding::Png
    } else if mime_type == Some("image/jpeg"@) {
        ImageEncoding::Jpeg
    } else {
        ImageEncoding::Guessed
    }
}

fn image_encoding(mime_type: &Option<String>) -> (encoding: ImageEncoding)
    ensures
        encoding == encoding_of(text_of(*mime_type)),
{
    match mime_type {
        None => ImageEncoding::Guessed,
        Some(mime_type) => {
            proof {
                reveal_strlit("image/png");
                reveal_strlit("image/jpeg");
            }
            if same_text(mime_type.as_str(), "image/png") {
                ImageEncoding::Png
            } else if same_text(mime_type.as_str(), "image/jpeg") {
                ImageEncoding::Jpeg
            } else {
                ImageEncoding::Guessed
            }
        },
    }
}

/// The encoded bytes of an image: those of its buffer view if it has one, else
/// those of its URI.
pub open spec fn image_bytes(image: SourceImageView, buffers: Seq<Seq<u8>>) -> Result<
    Seq<u8>,
    ImageFault,
> {
    match image.view {
        Some(view) => if image.mime_type is None {
            Err(ImageFault::NoSource)
        } else if view.buffer >= buffers.len() {
            Err(ImageFault::MissingBuffer)
        } else if view.offset + view.length > usize::MAX {
            Err(ImageFault::ViewOverflow)
        } else if view.offset + view.length > buffers[view.buffer as int].len() {
            Err(ImageFault::ViewOutOfBounds)
        } else {
            Ok(
                buffers[view.buffer as int].subrange(
                    view.offset as int,
                    view.offset + view.length,
                ),
            )
        },
        None => match image.uri {
            Some(uri) => uri_bytes(uri),
            None => Err(ImageFault::NoSource),
        },
    }
}

/// An image as plain values.
pub struct ImageView {
    pub pixels: Seq<u8>,
    pub format: PixelFormat,
    pub width: u32,
    pub height: u32,
}

impl View for ImageData {
    type V = ImageView;

    open spec fn view(&self) -> ImageView {
        ImageView {
            pixels: self.pixels@,
            format: self.format,
            width: self.width,
            height: self.height,
        }
    }
}

/// Whether `size` can be what is found in the header of an image: known formats
/// leave no choice.
pub open spec fn can_measure(
    encoded: Seq<u8>,
    encoding: ImageEncoding,
    max_decode_dim: u32,
    size: Option<(u32, u32)>,
) -> bool {
    encoding != ImageEncoding::Guessed ==> size == encoded_size(
        encoded,
        encoding,
        max_decode_dim,
        MAX_BYTE_IMAGE_DECODE_ALLOC,
    )
}

/// Whether `image` can be what encoded bytes are decoded to: known formats leave no
/// choice but how a lossy one is rounded.
pub open spec fn can_decode(
    encoded: Seq<u8>,
    encoding: ImageEncoding,
    max_decode_dim: u32,
    image: Option<ImageView>,
) -> bool {
    &&& image matches Some(image) ==> image.format == PixelFormat::R8G8B8A8
        && image.pixels.len() == image.width * image.height * 4
    &&& encoding != ImageEncoding::Guessed ==> match decoded_pixels(
        encoded,
        encoding,
        max_decode_dim,
        MAX_BYTE_IMAGE_DECODE_ALLOC,
    ) {
        Some(decoded) => {
            &&& image matches Some(image)
            &&& image.width == decoded.width
            &&& image.height == decoded.height
            &&& decoded.pixels.contains(image.pixels)
        },
        None => image is None,
    }
}

/// An image, or what went wrong with it.
pub open spec fn outcome_of(result: Result<ImageData, ByteImageError>) -> Result<
    ImageView,
    ImageFault,
> {
    match result {
        Ok(image) => Ok(image@),
        Err(error) => Err(fault_of(error)),
    }
}

/// Whether an image whose header says `size` comes out as `outcome` and leaves
/// the budget `next`: it is only decoded once its size has been reserved.
pub open spec fn is_measured_decoding(
    encoded: Seq<u8>,
    encoding: ImageEncoding,
    max_decode_dim: u32,
    size: Option<(u32, u32)>,
    budget: ByteImageBudget,
    outcome: Result<ImageView, ImageFault>,
    next: ByteImageBudget,
) -> bool {
    match size {
        None => outcome == Err::<ImageView, ImageFault>(ImageFault::Dimensions) && next == budget,
        Some((width, height)) => match reserved(budget, width, height) {
            Err(error) => outcome == Err::<ImageView, ImageFault>(ImageFault::Budget(error)) && next
                == budget,
            Ok(left) => next == left && match outcome {
                Ok(image) => can_decode(encoded, encoding, max_decode_dim, Some(image)),
                Err(fault) => fault == ImageFault::Decode && can_decode(
                    encoded,
                    encoding,
                    max_decode_dim,
                    None,
                ),
            },
        },
    }
}

/// Whether an image can come out as `outcome` and leave the budget `next`.
pub open spec fn is_decoding(
    encoded: Seq<u8>,
    encoding: ImageEncoding,
    max_decode_dim: u32,
    budget: ByteImageBudget,
    outcome: Result<ImageView, ImageFault>,
    next: ByteImageBudget,
) -> bool {
    exists|size: Option<(u32, u32)>| #[trigger]
        can_measure(encoded, encoding, max_decode_dim, size) && is_measured_decoding(
            encoded,
            encoding,
            max_decode_dim,
            size,
            budget,
            outcome,
            next,
        )
}

/// Reserves the size that was found in the header of an image.
pub fn reserve_size(
    size: Result<(u32, u32), image::ImageError>,
    budget: &mut ByteImageBudget,
) -> (result: Result<(), ByteImageError>)
    ensures
        match size {
            Ok((width, height)) => match reserved(*old(budget), width, height) {
                Ok(next) => result is Ok && *final(budget) == next,
                Err(error) => result == Err::<(), ByteImageError>(ByteImageError::Budget(error))
                    && *final(budget) == *old(budget),
            },
            Err(error) => result == Err::<(), ByteImageError>(ByteImageError::Dimensions(error))
                && *final(budget) == *old(budget),
        },
{
    match size {
        Ok((width, height)) => match budget.reserve(width, height) {
            Ok(()) => Ok(()),
            Err(error) => Err(ByteImageError::Budget(error)),
        },
        Err(error) => Err(ByteImageError::Dimensions(error)),
    }
}

/// The image that was decoded.
pub fn keep_pixels(decoded: Result<(Vec<u8>, u32, u32), image::ImageError>) -> (result: Result<
    ImageData,
    ByteImageError,
>)
    ensures
        result == (match decoded {
            Ok((pixels, width, height)) => Ok::<ImageData, ByteImageError>(
                ImageData { pixels, format: PixelFormat::R8G8B8A8, width, height },
            ),
            Err(error) => Err(ByteImageError::Decode(error)),
        }),
{
    match decoded {
        Ok((pixels, width, height)) => Ok(
            ImageData { pixels, format: PixelFormat::R8G8B8A8, width, height },
        ),
        Err(error) => Err(ByteImageError::Decode(error)),
    }
}

/// Decodes an image once its size has been reserved.
pub fn decode_byte_image(
    encoded: &[u8],
    encoding: ImageEncoding,
    max_decode_dim: u32,
    budget: &mut ByteImageBudget,
) -> (result: Result<ImageData, ByteImageError>)
    ensures
        is_decoding(
            encoded@,
            encoding,
            max_decode_dim,
            *old(budget),
            outcome_of(result),
            *final(budget),
        ),
{
    let size = read_dimensions(encoded, encoding, max_decode_dim, MAX_BYTE_IMAGE_DECODE_ALLOC);
    let ghost found = match size {
        Ok(size) => Some(size),
        Err(_) => None,
    };
    assert(can_measure(encoded@, encoding, max_decode_dim, found));
    match reserve_size(size, budget) {
        Ok(()) => {},
        Err(error) => {
            return Err(error);
        },
    }
    keep_pixels(decode_pixels(encoded, encoding, max_decode_dim, MAX_BYTE_IMAGE_DECODE_ALLOC))
}

/// Whether an image of a file can come out as `outcome` and leave the budget
/// `next`.
pub open spec fn is_image_decoding(
    image: SourceImageView,
    buffers: Seq<Seq<u8>>,
    max_decode_dim: u32,
    budget: ByteImageBudget,
    outcome: Result<ImageView, ImageFault>,
    next: ByteImageBudget,
) -> bool {
    match image_bytes(image, buffers) {
        Err(fault) => outcome == Err::<ImageView, ImageFault>(fault) && next == budget,
        Ok(encoded) => is_decoding(
            encoded,
            encoding_of(image.mime_type),
            max_decode_dim,
            budget,
            outcome,
            next,
        ),
    }
}

/// Decodes an image of a file.
pub fn decode_byte_image_source(
    image: &SourceImage,
    buffers: &Vec<Vec<u8>>,
    max_decode_dim: u32,
    budget: &mut ByteImageBudget,
) -> (result: Result<ImageData, ByteImageError>)
    ensures
        is_image_decoding(
            image@,
            rows(buffers@),
            max_decode_dim,
            *old(budget),
            outcome_of(result),
            *final(budget),
        ),
{
    match image.view {
        Some(view) => {
            if image.mime_type.is_none() {
                return Err(ByteImageError::NoSource);
            }
            if view.buffer >= buffers.len() {
                return Err(ByteImageError::MissingBuffer);
            }
            assert(rows(buffers@)[view.buffer as int] == buffers@[view.buffer as int]@);
            let buffer = buffers[view.buffer].as_slice();
            let end: usize = match view.offset.checked_add(view.length) {
                Some(end) => end,
                None => {
                    return Err(ByteImageError::ViewOverflow);
                },
            };
            if end > buffer.len() {
                return Err(ByteImageError::ViewOutOfBounds);
            }
            let encoded = copy_range(buffer, view.offset, end);
            decode_byte_image(
                encoded.as_slice(),
                image_encoding(&image.mime_type),
                max_decode_dim,
                budget,
            )
        },
        None => match &image.uri {
            Some(uri) => match decode_data_uri(uri.as_str()) {
                Ok(encoded) => decode_byte_image(
                    encoded.as_slice(),
                    image_encoding(&image.mime_type),
                    max_decode_dim,
                    budget,
                ),
                Err(error) => Err(error),
            },
            None => Err(ByteImageError::NoSource),
        },
    }
}

/// Whether a primitive of a mesh that stands in the scene samples `image` as
/// its base colour.
pub open spec fn primitive_samples(model: SourceModel, node: int, k: int, image: int) -> bool {
    &&& model.nodes@[node].mesh matches Some(mesh)
    &&& 0 <= k < model.meshes@[mesh as int]@.len()
    &&& model.meshes@[mesh as int]@[k].material matches Some(material)
    &&& model.materials@[material as int].inputs.base_color_texture matches Some(texture)
    &&& texture.image_index == image
}

/// Whether a toon descriptor samples `image`.
pub open spec fn descriptor_samples(descriptor: MtoonMaterialDescriptor, image: int) -> bool {
    exists|k: int|
        0 <= k < descriptor_textures(descriptor).len() && (#[trigger] descriptor_textures(
            descriptor,
        )[k]).image_index == image
}

/// The textures that a toon descriptor names.
pub open spec fn descriptor_textures(descriptor: MtoonMaterialDescriptor) -> Seq<TextureInfo> {
    input_textures(descriptor.inputs) + mtoon_textures(descriptor.mtoon)
}

/// Whether `image` is sampled by a primitive in the scene or by a toon
/// descriptor.
pub open spec fn is_sampled(
    model: SourceModel,
    descriptors: Seq<MtoonMaterialDescriptor>,
    image: int,
) -> bool {
    ||| exists|node: int, k: int|
        0 <= node < model.nodes@.len() && #[trigger] primitive_samples(model, node, k, image)
    ||| exists|d: int|
        0 <= d < descriptors.len() && descriptor_samples(#[trigger] descriptors[d], image)
}

/// Marks `image` if it is one.
fn mark(used: &mut Vec<bool>, image: usize)
    ensures
        final(used)@.len() == old(used)@.len(),
        forall|i: int|
            0 <= i < final(used)@.len() ==> #[trigger] final(used)@[i] == (old(used)@[i] || i
                == image),
{
    if image < used.len() {
        used.set(image, true);
    }
}

/// Whether the first `node` nodes sample `image`, or the first `count`
/// primitives of the next.
spec fn sampled_so_far(model: SourceModel, node: int, count: int, image: int) -> bool {
    exists|n: int, k: int|
        0 <= n <= node && n < model.nodes@.len() && (n == node ==> k < count)
            && #[trigger] primitive_samples(model, n, k, image)
}

/// Which images primitives in the scene sample as their base colour.
fn mark_primitives(model: &SourceModel, used: &mut Vec<bool>)
    requires
        model.in_range(),
    ensures
        final(used)@.len() == old(used)@.len(),
        forall|i: int|
            0 <= i < final(used)@.len() ==> #[trigger] final(used)@[i] == (old(used)@[i]
                || sampled_so_far(*model, model.nodes@.len() as int, 0, i)),
{
    let mut node: usize = 0;
    while node < model.nodes.len()
        invariant
            node <= model.nodes@.len(),
            model.in_range(),
            used@.len() == old(used)@.len(),
            forall|i: int|
                0 <= i < used@.len() ==> #[trigger] used@[i] == (old(used)@[i] || sampled_so_far(
                    *model,
                    node as int,
                    0,
                    i,
                )),
        decreases model.nodes@.len() - node,
    {
        let ghost before = used@;
        let mut count: usize = 0;
        if let Some(mesh) = model.nodes[node].mesh {
            assert(mesh < model.meshes@.len());
            while count < model.meshes[mesh].len()
                invariant
                    node < model.nodes@.len(),
                    model.in_range(),
                    model.nodes@[node as int].mesh == Some(mesh),
                    mesh < model.meshes@.len(),
                    count <= model.meshes@[mesh as int]@.len(),
                    used@.len() == old(used)@.len(),
                    forall|i: int|
                        0 <= i < used@.len() ==> #[trigger] used@[i] == (old(used)@[i]
                            || sampled_so_far(*model, node as int, count as int, i)),
                decreases model.meshes@[mesh as int]@.len() - count,
            {
                let ghost earlier = used@;
                let primitive = &model.meshes[mesh][count];
                assert(crate::source::names_one(
                    model.meshes@[mesh as int]@[count as int].material,
                    model.materials@.len(),
                ));
                if let Some(material) = primitive.material {
                    if let Some(texture) = model.materials[material].inputs.base_color_texture {
                        mark(used, texture.image_index);
                    }
                }
                assert forall|i: int| 0 <= i < used@.len() implies #[trigger] used@[i] == (
                old(used)@[i] || sampled_so_far(*model, node as int, count + 1, i)) by {
                    assert(earlier[i] == (old(used)@[i] || sampled_so_far(
                        *model,
                        node as int,
                        count as int,
                        i,
                    )));
                    let here = primitive_samples(*model, node as int, count as int, i);
                    if sampled_so_far(*model, node as int, count + 1, i) {
                        let (n, k) = choose|n: int, k: int|
                            0 <= n <= node && n < model.nodes@.len() && (n == node ==> k < count
                                + 1) && #[trigger] primitive_samples(*model, n, k, i);
                        if n == node && k == count {
                            assert(here);
                        } else {
                            assert(primitive_samples(*model, n, k, i));
                        }
                    }
                    if here {
                        assert(sampled_so_far(*model, node as int, count + 1, i));
                    }
                }
                count += 1;
            }
        }
        assert forall|i: int| 0 <= i < used@.len() implies #[trigger] used@[i] == (old(used)@[i]
            || sampled_so_far(*model, node + 1, 0, i)) by {
            if sampled_so_far(*model, node + 1, 0, i) {
                let (n, k) = choose|n: int, k: int|
                    0 <= n <= node + 1 && n < model.nodes@.len() && (n == node + 1 ==> k < 0)
                        && #[trigger] primitive_samples(*model, n, k, i);
                assert(primitive_samples(*model, n, k, i));
                assert(sampled_so_far(*model, node as int, count as int, i));
            }
            if sampled_so_far(*model, node as int, count as int, i) {
                let (n, k) = choose|n: int, k: int|
                    0 <= n <= node && n < model.nodes@.len() && (n == node ==> k < count)
                        && #[trigger] primitive_samples(*model, n, k, i);
                assert(primitive_samples(*model, n, k, i));
                assert(sampled_so_far(*model, node + 1, 0, i));
            }
        }
        node += 1;
    }
}

/// Which images toon descriptors sample.
fn mark_descriptors(descriptors: &[MtoonMaterialDescriptor], used: &mut Vec<bool>)
    ensures
        final(used)@.len() == old(used)@.len(),
        forall|i: int|
            0 <= i < final(used)@.len() ==> #[trigger] final(used)@[i] == (old(used)@[i]
                || exists|d: int|
                0 <= d < descriptors@.len() && descriptor_samples(#[trigger] descriptors@[d], i)),
{
    let mut d: usize = 0;
    while d < descriptors.len()
        invariant
            d <= descriptors@.len(),
            used@.len() == old(used)@.len(),
            forall|i: int|
                0 <= i < used@.len() ==> #[trigger] used@[i] == (old(used)@[i] || exists|e: int|
                    0 <= e < d && descriptor_samples(#[trigger] descriptors@[e], i)),
        decreases descriptors@.len() - d,
    {
        let ghost before = used@;
        let textures = descriptors[d].textures();
        let mut k: usize = 0;
        while k < textures.len()
            invariant
                k <= textures@.len(),
                used@.len() == before.len(),
                forall|i: int|
                    0 <= i < used@.len() ==> #[trigger] used@[i] == (before[i] || exists|j: int|
                        0 <= j < k && (#[trigger] textures@[j]).image_index == i),
            decreases textures@.len() - k,
        {
            let ghost earlier = used@;
            mark(used, textures[k].image_index);
            assert forall|i: int| 0 <= i < used@.len() implies #[trigger] used@[i] == (before[i]
                || exists|j: int| 0 <= j < k + 1 && (#[trigger] textures@[j]).image_index == i) by {
                assert(earlier[i] == (before[i] || exists|j: int|
                    0 <= j < k && (#[trigger] textures@[j]).image_index == i));
                if i == textures@[k as int].image_index {
                    assert(textures@[k as int].image_index == i);
                }
            }
            k += 1;
        }
        assert forall|i: int| 0 <= i < used@.len() implies #[trigger] used@[i] == (old(used)@[i]
            || exists|e: int|
            0 <= e < d + 1 && descriptor_samples(#[trigger] descriptors@[e], i)) by {
            assert(before[i] == (old(used)@[i] || exists|e: int|
                0 <= e < d && descriptor_samples(#[trigger] descriptors@[e], i)));
            if descriptor_samples(descriptors@[d as int], i) {
                let j = choose|j: int|
                    0 <= j < descriptor_textures(descriptors@[d as int]).len() && (
                    #[trigger] descriptor_textures(descriptors@[d as int])[j]).image_index == i;
                assert(textures@[j].image_index == i);
            } else {
                assert forall|j: int| 0 <= j < k implies (#[trigger] textures@[j]).image_index
                    != i by {
                    assert(descriptor_textures(descriptors@[d as int])[j] == textures@[j]);
                }
            }
        }
        d += 1;
    }
}

/// Which images are sampled.
pub fn sampled_images(model: &SourceModel, descriptors: &[MtoonMaterialDescriptor]) -> (used: Vec<
    bool,
>)
    requires
        model.in_range(),
    ensures
        used@.len() == model.images@.len(),
        forall|i: int|
            0 <= i < used@.len() ==> #[trigger] used@[i] == is_sampled(*model, descriptors@, i),
{
    let mut used: Vec<bool> = Vec::new();
    let mut i: usize = 0;
    while i < model.images.len()
        invariant
            i <= model.images@.len(),
            used@ =~= Seq::new(i as nat, |k: int| false),
        decreases model.images@.len() - i,
    {
        used.push(false);
        i += 1;
    }
    mark_primitives(model, &mut used);
    let ghost after_primitives = used@;
    mark_descriptors(descriptors, &mut used);
    assert forall|i: int| 0 <= i < used@.len() implies #[trigger] used@[i] == is_sampled(
        *model,
        descriptors@,
        i,
    ) by {
        let nodes = model.nodes@.len() as int;
        assert(after_primitives[i] == sampled_so_far(*model, nodes, 0, i));
        if sampled_so_far(*model, nodes, 0, i) {
            let (n, k) = choose|n: int, k: int|
                0 <= n <= nodes && n < model.nodes@.len() && (n == nodes ==> k < 0)
                    && #[trigger] primitive_samples(*model, n, k, i);
            assert(primitive_samples(*model, n, k, i));
        }
        if exists|node: int, k: int|
            0 <= node < model.nodes@.len() && #[trigger] primitive_samples(*model, node, k, i) {
            let (n, k) = choose|n: int, k: int|
                0 <= n < model.nodes@.len() && #[trigger] primitive_samples(*model, n, k, i);
            assert(primitive_samples(*model, n, k, i));
        }
    }
    used
}

/// The budget before the first image.
pub open spec fn whole_budget() -> ByteImageBudget {
    ByteImageBudget { image_count: 0, decoded_bytes: 0 }
}

/// What an image that is not sampled becomes: one white pixel.
pub open spec fn white_pixel() -> ImageView {
    ImageView {
        pixels: seq![255u8, 255u8, 255u8, 255u8],
        format: PixelFormat::R8G8B8A8,
        width: 1,
        height: 1,
    }
}

/// Whether image `i` can become `image` and take the budget from `before` to
/// `after`. An image that is not sampled is not looked at.
pub open spec fn is_import_step(
    model: SourceModel,
    buffers: Seq<Seq<u8>>,
    max_decode_dim: u32,
    descriptors: Seq<MtoonMaterialDescriptor>,
    i: int,
    before: ByteImageBudget,
    image: ImageView,
    after: ByteImageBudget,
) -> bool {
    if is_sampled(model, descriptors, i) {
        is_image_decoding(
            model.images@[i]@,
            buffers,
            max_decode_dim,
            before,
            Ok(image),
            after,
        )
    } else {
        image == white_pixel() && after == before
    }
}

/// Whether the first images can become `images`, one after the other, with the
/// given `budgets` before each of them and after the last one.
pub open spec fn is_import_run(
    model: SourceModel,
    buffers: Seq<Seq<u8>>,
    max_decode_dim: u32,
    descriptors: Seq<MtoonMaterialDescriptor>,
    images: Seq<ImageView>,
    budgets: Seq<ByteImageBudget>,
) -> bool {
    &&& budgets.len() == images.len() + 1
    &&& budgets[0] == whole_budget()
    &&& forall|i: int|
        0 <= i < images.len() ==> is_import_step(
            model,
            buffers,
            max_decode_dim,
            descriptors,
            i,
            budgets[i],
            #[trigger] images[i],
            budgets[i + 1],
        )
}

/// Whether `image` is the first one that cannot be used, and `fault` why, where
/// those before it became `images`.
pub open spec fn is_failed_run(
    model: SourceModel,
    buffers: Seq<Seq<u8>>,
    max_decode_dim: u32,
    descriptors: Seq<MtoonMaterialDescriptor>,
    images: Seq<ImageView>,
    budgets: Seq<ByteImageBudget>,
    fault: ImageFault,
) -> bool {
    let image = images.len() as int;
    &&& image < model.images@.len()
    &&& is_import_run(model, buffers, max_decode_dim, descriptors, images, budgets)
    &&& is_sampled(model, descriptors, image)
    &&& exists|after: ByteImageBudget|
        is_image_decoding(
            model.images@[image]@,
            buffers,
            max_decode_dim,
            budgets[image],
            Err(fault),
            after,
        )
}

/// Images as plain values.
pub open spec fn views_of(images: Seq<ImageData>) -> Seq<ImageView> {
    images.map_values(|image: ImageData| image@)
}

/// Why the images of a file cannot be imported.
#[derive(Debug)]
pub enum ByteImagesError {
    TooManyImages { count: usize },
    Image { image: usize, error: ByteImageError },
}

/// Whether `result` is what importing the images of `model` can give.
pub open spec fn is_image_import(
    model: SourceModel,
    buffers: Seq<Seq<u8>>,
    max_texture_dim: Option<u32>,
    descriptors: Seq<MtoonMaterialDescriptor>,
    result: Result<Vec<ImageData>, ByteImagesError>,
) -> bool {
    let max_decode_dim = decode_dim(max_texture_dim) as u32;
    if model.images@.len() > MAX_BYTE_IMAGE_COUNT {
        result == Err::<Vec<ImageData>, ByteImagesError>(
            ByteImagesError::TooManyImages { count: model.images@.len() as usize },
        )
    } else {
        match result {
            Ok(images) => {
                &&& images@.len() == model.images@.len()
                &&& exists|budgets: Seq<ByteImageBudget>|
                    is_import_run(
                        model,
                        buffers,
                        max_decode_dim,
                        descriptors,
                        views_of(images@),
                        budgets,
                    )
            },
            Err(ByteImagesError::Image { image, error }) => {
                exists|earlier: Seq<ImageView>, budgets: Seq<ByteImageBudget>|
                    earlier.len() == image && is_failed_run(
                        model,
                        buffers,
                        max_decode_dim,
                        descriptors,
                        earlier,
                        budgets,
                        fault_of(error),
                    )
            },
            Err(ByteImagesError::TooManyImages { count }) => false,
        }
    }
}

/// Importing images keeps the budget: at most so many images are decoded, and
/// together they take at most so many bytes.
pub proof fn imported_images_keep_the_budget(
    model: SourceModel,
    buffers: Seq<Seq<u8>>,
    max_decode_dim: u32,
    descriptors: Seq<MtoonMaterialDescriptor>,
    images: Seq<ImageView>,
    budgets: Seq<ByteImageBudget>,
    i: int,
)
    requires
        is_import_run(model, buffers, max_decode_dim, descriptors, images, budgets),
        0 <= i <= images.len(),
    ensures
        within_budget(budgets[i]),
    decreases i,
{
    if i > 0 {
        imported_images_keep_the_budget(
            model,
            buffers,
            max_decode_dim,
            descriptors,
            images,
            budgets,
            i - 1,
        );
        assert(is_import_step(
            model,
            buffers,
            max_decode_dim,
            descriptors,
            i - 1,
            budgets[i - 1],
            images[i - 1],
            budgets[i],
        ));
    }
}

/// Whether a result comes of a run with the given images and budgets.
spec fn is_result_run(
    model: SourceModel,
    buffers: Seq<Seq<u8>>,
    max_decode_dim: u32,
    descriptors: Seq<MtoonMaterialDescriptor>,
    result: Result<Vec<ImageData>, ByteImagesError>,
    views: Seq<ImageView>,
    budgets: Seq<ByteImageBudget>,
) -> bool {
    match result {
        Ok(images) => views == views_of(images@) && is_import_run(
            model,
            buffers,
            max_decode_dim,
            descriptors,
            views,
            budgets,
        ),
        Err(ByteImagesError::Image { image, error }) => views.len() == image && is_failed_run(
            model,
            buffers,
            max_decode_dim,
            descriptors,
            views,
            budgets,
            fault_of(error),
        ),
        _ => false,
    }
}

proof fn result_has_a_run(
    model: SourceModel,
    buffers: Seq<Seq<u8>>,
    max_texture_dim: Option<u32>,
    max_decode_dim: u32,
    descriptors: Seq<MtoonMaterialDescriptor>,
    result: Result<Vec<ImageData>, ByteImagesError>,
)
    requires
        max_decode_dim == decode_dim(max_texture_dim) as u32,
        model.images@.len() <= MAX_BYTE_IMAGE_COUNT,
        is_image_import(model, buffers, max_texture_dim, descriptors, result),
    ensures
        exists|views: Seq<ImageView>, budgets: Seq<ByteImageBudget>|
            is_result_run(
                model,
                buffers,
                max_decode_dim,
                descriptors,
                result,
                views,
                budgets,
            ),
{
    match result {
        Ok(images) => {
            let views = views_of(images@);
            let budgets = choose|budgets: Seq<ByteImageBudget>|
                is_import_run(model, buffers, max_decode_dim, descriptors, views, budgets);
            assert(is_result_run(
                model,
                buffers,
                max_decode_dim,
                descriptors,
                result,
                views,
                budgets,
            ));
        },
        Err(ByteImagesError::Image { image, error }) => {
            let (views, budgets) = choose|views: Seq<ImageView>, budgets: Seq<ByteImageBudget>|
                views.len() == image && is_failed_run(
                    model,
                    buffers,
                    max_decode_dim,
                    descriptors,
                    views,
                    budgets,
                    fault_of(error),
                );
            assert(is_result_run(
                model,
                buffers,
                max_decode_dim,
                descriptors,
                result,
                views,
                budgets,
            ));
        },
        _ => {},
    }
}

/// Whether the format of every sampled image is known.
pub open spec fn has_known_formats(
    model: SourceModel,
    descriptors: Seq<MtoonMaterialDescriptor>,
) -> bool {
    forall|i: int|
        0 <= i < model.images@.len() && is_sampled(model, descriptors, i) ==> encoding_of(
            (#[trigger] model.images@[i])@.mime_type,
        ) != ImageEncoding::Guessed
}

/// Whether two images have the same size, or the same is wrong with both.
pub open spec fn come_out_alike(
    a: Result<ImageView, ImageFault>,
    b: Result<ImageView, ImageFault>,
) -> bool {
    match (a, b) {
        (Ok(a), Ok(b)) => a.width == b.width && a.height == b.height,
        (Err(a), Err(b)) => a == b,
        _ => false,
    }
}

/// An image of a known format comes out alike each time and takes the same from
/// the budget.
pub proof fn known_images_come_out_alike(
    image: SourceImageView,
    buffers: Seq<Seq<u8>>,
    max_decode_dim: u32,
    budget: ByteImageBudget,
    a: (Result<ImageView, ImageFault>, ByteImageBudget),
    b: (Result<ImageView, ImageFault>, ByteImageBudget),
)
    requires
        encoding_of(image.mime_type) != ImageEncoding::Guessed,
        is_image_decoding(image, buffers, max_decode_dim, budget, a.0, a.1),
        is_image_decoding(image, buffers, max_decode_dim, budget, b.0, b.1),
    ensures
        come_out_alike(a.0, b.0),
        a.1 == b.1,
{
}

proof fn runs_agree(
    model: SourceModel,
    buffers: Seq<Seq<u8>>,
    max_decode_dim: u32,
    descriptors: Seq<MtoonMaterialDescriptor>,
    a: (Seq<ImageView>, Seq<ByteImageBudget>),
    b: (Seq<ImageView>, Seq<ByteImageBudget>),
    i: int,
)
    requires
        has_known_formats(model, descriptors),
        is_import_run(model, buffers, max_decode_dim, descriptors, a.0, a.1),
        is_import_run(model, buffers, max_decode_dim, descriptors, b.0, b.1),
        0 <= i <= a.0.len() <= model.images@.len(),
        i <= b.0.len() <= model.images@.len(),
    ensures
        a.1[i] == b.1[i],
        i < a.0.len() && i < b.0.len() ==> a.0[i].width == b.0[i].width && a.0[i].height
            == b.0[i].height,
    decreases i,
{
    if i > 0 {
        runs_agree(model, buffers, max_decode_dim, descriptors, a, b, i - 1);
        step_agrees(model, buffers, max_decode_dim, descriptors, a, b, i - 1);
    }
    if i < a.0.len() && i < b.0.len() {
        step_agrees(model, buffers, max_decode_dim, descriptors, a, b, i);
    }
}

proof fn step_agrees(
    model: SourceModel,
    buffers: Seq<Seq<u8>>,
    max_decode_dim: u32,
    descriptors: Seq<MtoonMaterialDescriptor>,
    a: (Seq<ImageView>, Seq<ByteImageBudget>),
    b: (Seq<ImageView>, Seq<ByteImageBudget>),
    i: int,
)
    requires
        has_known_formats(model, descriptors),
        is_import_run(model, buffers, max_decode_dim, descriptors, a.0, a.1),
        is_import_run(model, buffers, max_decode_dim, descriptors, b.0, b.1),
        0 <= i < a.0.len() <= model.images@.len(),
        i < b.0.len() <= model.images@.len(),
        a.1[i] == b.1[i],
    ensures
        a.1[i + 1] == b.1[i + 1],
        a.0[i].width == b.0[i].width,
        a.0[i].height == b.0[i].height,
{
    assert(is_import_step(
        model,
        buffers,
        max_decode_dim,
        descriptors,
        i,
        a.1[i],
        a.0[i],
        a.1[i + 1],
    ));
    assert(is_import_step(
        model,
        buffers,
        max_decode_dim,
        descriptors,
        i,
        b.1[i],
        b.0[i],
        b.1[i + 1],
    ));
    if is_sampled(model, descriptors, i) {
        known_images_come_out_alike(
            model.images@[i]@,
            buffers,
            max_decode_dim,
            a.1[i],
            (Ok(a.0[i]), a.1[i + 1]),
            (Ok(b.0[i]), b.1[i + 1]),
        );
    }
}

proof fn failures_agree(
    model: SourceModel,
    buffers: Seq<Seq<u8>>,
    max_decode_dim: u32,
    descriptors: Seq<MtoonMaterialDescriptor>,
    a: (Seq<ImageView>, Seq<ByteImageBudget>),
    fault: ImageFault,
    b: (Seq<ImageView>, Seq<ByteImageBudget>),
)
    requires
        has_known_formats(model, descriptors),
        is_failed_run(model, buffers, max_decode_dim, descriptors, a.0, a.1, fault),
        is_import_run(model, buffers, max_decode_dim, descriptors, b.0, b.1),
        b.0.len() <= model.images@.len(),
    ensures
        b.0.len() <= a.0.len(),
{
    let i = a.0.len() as int;
    if i < b.0.len() {
        runs_agree(model, buffers, max_decode_dim, descriptors, a, b, i);
        assert(is_import_step(
            model,
            buffers,
            max_decode_dim,
            descriptors,
            i,
            b.1[i],
            b.0[i],
            b.1[i + 1],
        ));
        let after = choose|after: ByteImageBudget|
            is_image_decoding(
                model.images@[i]@,
                buffers,
                max_decode_dim,
                a.1[i],
                Err(fault),
                after,
            );
        known_images_come_out_alike(
            model.images@[i]@,
            buffers,
            max_decode_dim,
            a.1[i],
            (Err(fault), after),
            (Ok(b.0[i]), b.1[i + 1]),
        );
    }
}

proof fn faults_agree(
    model: SourceModel,
    buffers: Seq<Seq<u8>>,
    max_decode_dim: u32,
    descriptors: Seq<MtoonMaterialDescriptor>,
    a: (Seq<ImageView>, Seq<ByteImageBudget>),
    a_fault: ImageFault,
    b: (Seq<ImageView>, Seq<ByteImageBudget>),
    b_fault: ImageFault,
)
    requires
        has_known_formats(model, descriptors),
        is_failed_run(model, buffers, max_decode_dim, descriptors, a.0, a.1, a_fault),
        is_failed_run(model, buffers, max_decode_dim, descriptors, b.0, b.1, b_fault),
    ensures
        a.0.len() == b.0.len(),
        a_fault == b_fault,
{
    failures_agree(model, buffers, max_decode_dim, descriptors, a, a_fault, b);
    failures_agree(model, buffers, max_decode_dim, descriptors, b, b_fault, a);
    let i = a.0.len() as int;
    runs_agree(model, buffers, max_decode_dim, descriptors, a, b, i);
    let image = model.images@[i]@;
    let a_after = choose|after: ByteImageBudget|
        is_image_decoding(image, buffers, max_decode_dim, a.1[i], Err(a_fault), after);
    let b_after = choose|after: ByteImageBudget|
        is_image_decoding(image, buffers, max_decode_dim, b.1[i], Err(b_fault), after);
    known_images_come_out_alike(
        image,
        buffers,
        max_decode_dim,
        a.1[i],
        (Err(a_fault), a_after),
        (Err(b_fault), b_after),
    );
}

/// Where the formats of the sampled images are known, importing them gives
/// images of the same sizes each time, or names the same image and the same
/// fault.
pub proof fn known_formats_import_alike(
    model: SourceModel,
    buffers: Seq<Seq<u8>>,
    max_texture_dim: Option<u32>,
    descriptors: Seq<MtoonMaterialDescriptor>,
    a: Result<Vec<ImageData>, ByteImagesError>,
    b: Result<Vec<ImageData>, ByteImagesError>,
)
    requires
        has_known_formats(model, descriptors),
        is_image_import(model, buffers, max_texture_dim, descriptors, a),
        is_image_import(model, buffers, max_texture_dim, descriptors, b),
    ensures
        match (a, b) {
            (Ok(a), Ok(b)) => a@.len() == b@.len() && forall|i: int|
                0 <= i < a@.len() ==> (#[trigger] a@[i]).width == b@[i].width && a@[i].height
                    == b@[i].height,
            (
                Err(ByteImagesError::Image { image: a, error: a_error }),
                Err(ByteImagesError::Image { image: b, error: b_error }),
            ) => a == b && fault_of(a_error) == fault_of(b_error),
            (
                Err(ByteImagesError::TooManyImages { count: a }),
                Err(ByteImagesError::TooManyImages { count: b }),
            ) => a == b,
            _ => false,
        },
{
    let max_decode_dim = decode_dim(max_texture_dim) as u32;
    if model.images@.len() <= MAX_BYTE_IMAGE_COUNT {
        let (a_views, a_budgets) = choose|views: Seq<ImageView>, budgets: Seq<ByteImageBudget>|
            is_result_run(model, buffers, max_decode_dim, descriptors, a, views, budgets);
        let (b_views, b_budgets) = choose|views: Seq<ImageView>, budgets: Seq<ByteImageBudget>|
            is_result_run(model, buffers, max_decode_dim, descriptors, b, views, budgets);
        let a_run = (a_views, a_budgets);
        let b_run = (b_views, b_budgets);
        result_has_a_run(
            model,
            buffers,
            max_texture_dim,
            max_decode_dim,
            descriptors,
            a,
        );
        result_has_a_run(
            model,
            buffers,
            max_texture_dim,
            max_decode_dim,
            descriptors,
            b,
        );
        match (a, b) {
            (Ok(a), Ok(b)) => {
                assert forall|i: int| 0 <= i < a@.len() implies (#[trigger] a@[i]).width
                    == b@[i].width && a@[i].height == b@[i].height by {
                    runs_agree(model, buffers, max_decode_dim, descriptors, a_run, b_run, i);
                    assert(a_views[i] == a@[i]@ && b_views[i] == b@[i]@);
                }
            },
            (Err(ByteImagesError::Image { image: _, error }), Ok(_)) => {
                let fault = fault_of(error);
                failures_agree(
                    model,
                    buffers,
                    max_decode_dim,
                    descriptors,
                    a_run,
                    fault,
                    b_run,
                );
            },
            (Ok(_), Err(ByteImagesError::Image { image: _, error })) => {
                let fault = fault_of(error);
                failures_agree(
                    model,
                    buffers,
                    max_decode_dim,
                    descriptors,
                    b_run,
                    fault,
                    a_run,
                );
            },
            (
                Err(ByteImagesError::Image { image: _, error: a_error }),
                Err(ByteImagesError::Image { image: _, error: b_error }),
            ) => {
                faults_agree(
                    model,
                    buffers,
                    max_decode_dim,
                    descriptors,
                    a_run,
                    fault_of(a_error),
                    b_run,
                    fault_of(b_error),
                );
            },
            _ => {},
        }
    }
}

/// Decodes the images that are sampled, in order and within the budget. The
/// others become one white pixel.
pub fn import_byte_images(
    model: &SourceModel,
    buffers: &Vec<Vec<u8>>,
    max_texture_dim: Option<u32>,
    descriptors: &[MtoonMaterialDescriptor],
) -> (result: Result<Vec<ImageData>, ByteImagesError>)
    requires
        model.in_range(),
    ensures
        is_image_import(*model, rows(buffers@), max_texture_dim, descriptors@, result),
{
    let count: usize = model.images.len();
    if count > MAX_BYTE_IMAGE_COUNT {
        return Err(ByteImagesError::TooManyImages { count });
    }
    let used = sampled_images(model, descriptors);
    let max_decode_dim: u32 = byte_image_decode_dim(max_texture_dim);
    let mut budget = ByteImageBudget::default();
    let mut images: Vec<ImageData> = Vec::new();
    let ghost contents = rows(buffers@);
    let ghost mut budgets: Seq<ByteImageBudget> = seq![budget];
    let mut i: usize = 0;
    assert(views_of(images@) =~= Seq::empty());
    while i < count
        invariant
            i <= count <= MAX_BYTE_IMAGE_COUNT,
            count == model.images@.len(),
            used@.len() == count,
            forall|k: int|
                0 <= k < used@.len() ==> #[trigger] used@[k] == is_sampled(*model, descriptors@, k),
            max_decode_dim == decode_dim(max_texture_dim),
            contents == rows(buffers@),
            images@.len() == i,
            is_import_run(
                *model,
                contents,
                max_decode_dim,
                descriptors@,
                views_of(images@),
                budgets,
            ),
            budgets[i as int] == budget,
        decreases count - i,
    {
        let ghost earlier = views_of(images@);
        let ghost before = budgets;
        if used[i] {
            match decode_byte_image_source(&model.images[i], buffers, max_decode_dim, &mut budget) {
                Ok(image) => {
                    images.push(image);
                },
                Err(error) => {
                    assert(is_failed_run(
                        *model,
                        contents,
                        decode_dim(max_texture_dim) as u32,
                        descriptors@,
                        earlier,
                        budgets,
                        fault_of(error),
                    ));
                    return Err(ByteImagesError::Image { image: i, error });
                },
            }
        } else {
            images.push(
                ImageData {
                    pixels: vec![255, 255, 255, 255],
                    format: PixelFormat::R8G8B8A8,
                    width: 1,
                    height: 1,
                },
            );
            assert(images@[i as int].pixels@ =~= white_pixel().pixels);
        }
        proof {
            budgets = before.push(budget);
            let views = views_of(images@);
            assert(views =~= earlier.push(images@[i as int]@));
            assert forall|k: int| 0 <= k < views.len() implies is_import_step(
                *model,
                contents,
                max_decode_dim,
                descriptors@,
                k,
                budgets[k],
                #[trigger] views[k],
                budgets[k + 1],
            ) by {
                if k < i {
                    assert(views[k] == earlier[k]);
                }
            }
        }
        i += 1;
    }
    assert(is_import_run(
        *model,
        contents,
        decode_dim(max_texture_dim) as u32,
        descriptors@,
        views_of(images@),
        budgets,
    ));
    Ok(images)
}

/// The entries of `required` among the first `count` that `allowed` does not
/// hold.
pub open spec fn not_allowed(
    required: Seq<Seq<char>>,
    allowed: Seq<Seq<char>>,
    count: nat,
) -> Seq<Seq<char>>
    decreases count,
{
    if count == 0 {
        Seq::empty()
    } else {
        let earlier = not_allowed(required, allowed, (count - 1) as nat);
        if allowed.contains(required[count - 1]) {
            earlier
        } else {
            earlier.push(required[count - 1])
        }
    }
}

/// Whether the extension `name` is refused: nobody has allowed it, and a
/// document that requires it alone does not validate.
pub open spec fn is_refused(
    root: gltf::json::Root,
    allowed: Seq<Seq<char>>,
    name: Seq<char>,
) -> bool {
    !allowed.contains(name) && validated(root, seq![name]) is None
}

/// The first required extension that is refused.
pub open spec fn refused_extension(root: gltf::json::Root, allowed: Seq<Seq<char>>) -> Option<
    Seq<char>,
> {
    let required = required_by(root);
    first_some(
        required.len(),
        |i: int|
            if is_refused(root, allowed, required[i]) {
                Some(required[i])
            } else {
                None
            },
    )
}

/// What comes of the required extensions of a document.
pub enum DocumentOutcome {
    /// The document is valid.
    Accepted(gltf::Document),
    /// Something else than its required extensions is wrong with it.
    Invalid,
    /// It requires an extension that is neither known nor allowed.
    Refused(Seq<char>),
    /// The positions of a primitive are no accessor of it.
    Unlisted,
}

/// What comes of a document: the accessors of its positions have to be there,
/// and it is taken as it is if it validates. If it only
/// fails for its required extensions, those that are allowed are taken off the
/// list, and every other one has to validate on its own.
pub open spec fn document_outcome(
    root: gltf::json::Root,
    allowed: Seq<Seq<char>>,
) -> DocumentOutcome {
    let required = required_by(root);
    if !positions_are_listed(root) {
        DocumentOutcome::Unlisted
    } else {
        match validated(root, required) {
            Some(document) => DocumentOutcome::Accepted(document),
            None => if validated(root, seq![]) is None {
                DocumentOutcome::Invalid
            } else {
                match refused_extension(root, allowed) {
                    Some(name) => DocumentOutcome::Refused(name),
                    None => match validated(
                        root,
                        not_allowed(required, allowed, required.len()),
                    ) {
                        Some(document) => DocumentOutcome::Accepted(document),
                        None => DocumentOutcome::Invalid,
                    },
                }
            },
        }
    }
}

/// Why a file cannot be imported.
#[derive(Debug)]
pub enum ImportError {
    Container(GlbError),
    Parse(gltf::Error),
    PositionAccessor,
    Validation(gltf::Error),
    RequiredExtension { name: String },
    ExternalBuffer { uri: String },
    ExternalImage { uri: String },
    Buffers(gltf::Error),
    Images(ByteImagesError),
}

fn is_allowed(allowed: &[String], name: &String) -> (found: bool)
    ensures
        found == texts(allowed@).contains(name@),
{
    let mut i: usize = 0;
    while i < allowed.len()
        invariant
            i <= allowed@.len(),
            forall|k: int| 0 <= k < i ==> (#[trigger] allowed@[k])@ != name@,
        decreases allowed@.len() - i,
    {
        if same_text(allowed[i].as_str(), name.as_str()) {
            assert(texts(allowed@)[i as int] == name@);
            return true;
        }
        i += 1;
    }
    assert forall|k: int| 0 <= k < texts(allowed@).len() implies texts(allowed@)[k] != name@ by {
        assert(texts(allowed@)[k] == allowed@[k]@);
    }
    false
}

/// Validates a document whose required extensions the caller may allow.
fn accept_document(root: &gltf::json::Root, allowed: &[String]) -> (result: Result<
    gltf::Document,
    ImportError,
>)
    ensures
        match document_outcome(*root, texts(allowed@)) {
            DocumentOutcome::Accepted(document) => result == Ok::<gltf::Document, ImportError>(
                document,
            ) && valid_document(document),
            DocumentOutcome::Invalid => result matches Err(ImportError::Validation(_)),
            DocumentOutcome::Refused(refused) => result matches Err(
                ImportError::RequiredExtension { name },
            ) && name@ == refused,
            DocumentOutcome::Unlisted => result matches Err(ImportError::PositionAccessor),
        },
{
    if !check_position_accessors(root) {
        return Err(ImportError::PositionAccessor);
    }
    let required = required_extensions(root);
    let validation_error = match validate_document(root, &required) {
        Ok(document) => {
            return Ok(document);
        },
        Err(error) => error,
    };
    let none: Vec<String> = Vec::new();
    assert(texts(none@) =~= seq![]);
    match validate_document(root, &none) {
        Ok(_) => {},
        Err(_) => {
            return Err(ImportError::Validation(validation_error));
        },
    }
    let ghost names = required_by(*root);
    let ghost allowed_names = texts(allowed@);
    let ghost check = |i: int|
        if is_refused(*root, allowed_names, names[i]) {
            Some(names[i])
        } else {
            None
        };
    let mut kept: Vec<String> = Vec::new();
    let mut i: usize = 0;
    assert(texts(kept@) =~= Seq::empty());
    while i < required.len()
        invariant
            i <= required@.len(),
            names == required_by(*root),
            names == texts(required@),
            allowed_names == texts(allowed@),
            check == (|i: int|
                if is_refused(*root, allowed_names, names[i]) {
                    Some(names[i])
                } else {
                    None
                }),
            positions_are_listed(*root),
            validated(*root, names) is None,
            validated(*root, seq![]) is Some,
            first_some(i as nat, check) is None,
            texts(kept@) == not_allowed(names, allowed_names, i as nat),
        decreases required@.len() - i,
    {
        assert(names[i as int] == required@[i as int]@);
        if !is_allowed(allowed, &required[i]) {
            let mut alone: Vec<String> = Vec::new();
            alone.push(required[i].clone());
            assert(texts(alone@) =~= seq![names[i as int]]);
            match validate_document(root, &alone) {
                Ok(_) => {},
                Err(_) => {
                    assert(check(i as int) == Some(names[i as int]));
                    proof {
                        first_some_stays((i + 1) as nat, names.len(), check);
                    }
                    return Err(ImportError::RequiredExtension { name: required[i].clone() });
                },
            }
            let ghost before = kept@;
            kept.push(required[i].clone());
            assert(texts(kept@) =~= texts(before).push(names[i as int]));
        }
        assert(check(i as int) is None);
        i += 1;
    }
    match validate_document(root, &kept) {
        Ok(document) => Ok(document),
        Err(error) => Err(ImportError::Validation(error)),
    }
}

/// Whether `uri` is there and is no data URI.
pub open spec fn is_external(uri: Option<Seq<char>>) -> bool {
    uri matches Some(uri) && !is_data_uri(encode_utf8(uri))
}

/// Whether the image is read from a URI that is no data URI.
pub open spec fn is_external_image(image: SourceImageView) -> bool {
    image.view is None && is_external(image.uri)
}

/// The first resource outside the file: a buffer, else an image.
pub open spec fn external_resource(
    buffers: Seq<Option<Seq<char>>>,
    images: Seq<SourceImageView>,
) -> (Option<Seq<char>>, Option<Seq<char>>) {
    (
        first_some(
            buffers.len(),
            |i: int|
                if is_external(buffers[i]) {
                    buffers[i]
                } else {
                    None
                },
        ),
        first_some(
            images.len(),
            |i: int|
                if is_external_image(images[i]) {
                    images[i].uri
                } else {
                    None
                },
        ),
    )
}

/// Refuses a document that names resources outside the file.
fn validate_self_contained_resources(
    uris: &Vec<Option<String>>,
    images: &Vec<SourceImage>,
) -> (result: Result<(), ImportError>)
    ensures
        match external_resource(
            uris@.map_values(|uri: Option<String>| text_of(uri)),
            images@.map_values(|image: SourceImage| image@),
        ) {
            (Some(buffer), _) => result matches Err(ImportError::ExternalBuffer { uri }) && uri@
                == buffer,
            (None, Some(image)) => result matches Err(ImportError::ExternalImage { uri }) && uri@
                == image,
            (None, None) => result is Ok,
        },
{
    let ghost buffers = uris@.map_values(|uri: Option<String>| text_of(uri));
    let ghost views = images@.map_values(|image: SourceImage| image@);
    let ghost buffer_check = |i: int|
        if is_external(buffers[i]) {
            buffers[i]
        } else {
            None
        };
    let ghost image_check = |i: int|
        if is_external_image(views[i]) {
            views[i].uri
        } else {
            None
        };
    let mut i: usize = 0;
    while i < uris.len()
        invariant
            i <= uris@.len(),
            buffers == uris@.map_values(|uri: Option<String>| text_of(uri)),
            buffer_check == (|i: int|
                if is_external(buffers[i]) {
                    buffers[i]
                } else {
                    None
                }),
            views == images@.map_values(|image: SourceImage| image@),
            first_some(i as nat, buffer_check) is None,
        decreases uris@.len() - i,
    {
        if let Some(uri) = &uris[i] {
            assert(buffers[i as int] == Some(uri@));
            if !data_uri(uri.as_str().as_bytes()) {
                assert(buffer_check(i as int) == Some(uri@));
                proof {
                    first_some_stays((i + 1) as nat, buffers.len(), buffer_check);
                }
                return Err(ImportError::ExternalBuffer { uri: uri.clone() });
            }
        }
        assert(buffer_check(i as int) is None);
        i += 1;
    }
    let mut i: usize = 0;
    while i < images.len()
        invariant
            i <= images@.len(),
            views == images@.map_values(|image: SourceImage| image@),
            image_check == (|i: int|
                if is_external_image(views[i]) {
                    views[i].uri
                } else {
                    None
                }),
            buffers == uris@.map_values(|uri: Option<String>| text_of(uri)),
            buffer_check == (|i: int|
                if is_external(buffers[i]) {
                    buffers[i]
                } else {
                    None
                }),
            first_some(buffers.len(), buffer_check) is None,
            first_some(i as nat, image_check) is None,
        decreases images@.len() - i,
    {
        assert(views[i as int] == images@[i as int]@);
        if images[i].view.is_none() {
            if let Some(uri) = &images[i].uri {
                if !data_uri(uri.as_str().as_bytes()) {
                    assert(image_check(i as int) == Some(uri@));
                    proof {
                        first_some_stays((i + 1) as nat, views.len(), image_check);
                    }
                    return Err(ImportError::ExternalImage { uri: uri.clone() });
                }
            }
        }
        assert(image_check(i as int) is None);
        i += 1;
    }
    Ok(())
}

/// An imported file.
#[derive(Debug)]
pub struct ImportedGlb {
    pub document: gltf::Document,
    /// The structure of the document.
    pub source: SourceModel,
    pub buffers: Vec<Vec<u8>>,
    pub images: Vec<ImageData>,
}

/// Whether importing the images of `document` fails with `error`.
pub open spec fn images_fail(
    document: gltf::Document,
    contents: Seq<Seq<u8>>,
    max_texture_dim: Option<u32>,
    descriptors: Seq<MtoonMaterialDescriptor>,
    error: ByteImagesError,
) -> bool {
    exists|source: SourceModel|
        is_structure_of(document, source) && #[trigger] is_image_import(
            source,
            contents,
            max_texture_dim,
            descriptors,
            Err(error),
        )
}

/// Whether `result` is what the validated document `document` with the binary
/// chunk `chunk` is imported to: resources outside the file are refused first,
/// then the buffers are read, then the images.
pub open spec fn is_resource_import(
    document: gltf::Document,
    chunk: Option<Seq<u8>>,
    max_texture_dim: Option<u32>,
    descriptors: Seq<MtoonMaterialDescriptor>,
    result: Result<ImportedGlb, ImportError>,
) -> bool {
    match external_resource(
        document_buffers(document),
        crate::source::document_images(document),
    ) {
        (Some(buffer), _) => result matches Err(ImportError::ExternalBuffer { uri }) && uri@
            == buffer,
        (None, Some(image)) => result matches Err(ImportError::ExternalImage { uri }) && uri@
            == image,
        (None, None) => match buffer_contents(document, chunk) {
            None => result matches Err(ImportError::Buffers(_)),
            Some(contents) => match result {
                Ok(imported) => {
                    &&& imported.document == document
                    &&& is_structure_of(document, imported.source)
                    &&& imported.source.in_range()
                    &&& rows(imported.buffers@) == contents
                    &&& is_image_import(
                        imported.source,
                        contents,
                        max_texture_dim,
                        descriptors,
                        Ok(imported.images),
                    )
                },
                Err(ImportError::Images(error)) => images_fail(
                    document,
                    contents,
                    max_texture_dim,
                    descriptors,
                    error,
                ),
                Err(_) => false,
            },
        },
    }
}

/// Whether `result` is what the file `bytes` is imported to.
pub open spec fn is_import(
    bytes: Seq<u8>,
    allowed: Seq<Seq<char>>,
    max_texture_dim: Option<u32>,
    descriptors: Seq<MtoonMaterialDescriptor>,
    result: Result<ImportedGlb, ImportError>,
) -> bool {
    match crate::glb::chunks_of(bytes) {
        Err(error) => result matches Err(ImportError::Container(found)) && found == error,
        Ok(_) => match parsed_file(normalized(bytes)) {
            None => result matches Err(ImportError::Parse(_)),
            Some((root, chunk)) => match document_outcome(root, allowed) {
                DocumentOutcome::Unlisted => result matches Err(ImportError::PositionAccessor),
                DocumentOutcome::Invalid => result matches Err(ImportError::Validation(_)),
                DocumentOutcome::Refused(refused) => result matches Err(
                    ImportError::RequiredExtension { name },
                ) && name@ == refused,
                DocumentOutcome::Accepted(document) => is_resource_import(
                    document,
                    chunk,
                    max_texture_dim,
                    descriptors,
                    result,
                ),
            },
        },
    }
}

/// Imports a validated document: its structure, buffers and images.
fn import_resources(
    document: gltf::Document,
    chunk: Option<Vec<u8>>,
    max_texture_dim: Option<u32>,
    descriptors: &[MtoonMaterialDescriptor],
) -> (result: Result<ImportedGlb, ImportError>)
    requires
        valid_document(document),
    ensures
        is_resource_import(document, chunk_of(chunk), max_texture_dim, descriptors@, result),
{
    let source = SourceModel::read(&document);
    let uris = list_buffers(&document);
    assert(source.images@.map_values(|image: SourceImage| image@)
        =~= crate::source::document_images(document));
    assert(uris@.map_values(|uri: Option<String>| text_of(uri)) =~= document_buffers(document));
    match validate_self_contained_resources(&uris, &source.images) {
        Ok(()) => {},
        Err(error) => {
            return Err(error);
        },
    }
    proof {
        let buffers = document_buffers(document);
        let check = |i: int|
            if is_external(buffers[i]) {
                buffers[i]
            } else {
                None
            };
        first_some_none(buffers.len(), check);
        assert forall|i: int| 0 <= i < buffers.len() implies !is_external(
            #[trigger] buffers[i],
        ) by {
            assert(check(i) is None);
        }
    }
    let buffers = match read_buffers(&document, chunk) {
        Ok(buffers) => buffers,
        Err(error) => {
            return Err(ImportError::Buffers(error));
        },
    };
    let imported = import_byte_images(&source, &buffers, max_texture_dim, descriptors);
    assert(is_image_import(source, rows(buffers@), max_texture_dim, descriptors@, imported));
    match imported {
        Ok(images) => {
            assert(imported == Ok::<Vec<ImageData>, ByteImagesError>(images));
            Ok(ImportedGlb { document, source, buffers, images })
        },
        Err(error) => {
            assert(images_fail(
                document,
                rows(buffers@),
                max_texture_dim,
                descriptors@,
                error,
            ));
            Err(ImportError::Images(error))
        },
    }
}

/// Imports a self-contained binary glTF file. Required extensions that the
/// glTF crate does not know have to be in `allowed`; images that
/// `descriptors` sample are decoded beside those of the scene.
pub fn import_glb_slice_with_mtoon_options(
    bytes: &[u8],
    allowed: &[String],
    max_texture_dim: Option<u32>,
    descriptors: &[MtoonMaterialDescriptor],
) -> (result: Result<ImportedGlb, ImportError>)
    ensures
        is_import(bytes@, texts(allowed@), max_texture_dim, descriptors@, result),
        result matches Ok(imported) ==> valid_document(imported.document),
{
    let parsed = match normalize_glb_container(bytes) {
        Err(error) => {
            return Err(ImportError::Container(error));
        },
        Ok(None) => parse_file(bytes),
        Ok(Some(repacked)) => {
            proof {
                crate::glb::normalized_container_is_stable(bytes@);
            }
            parse_file(repacked.as_slice())
        },
    };
    let (root, chunk) = match parsed {
        Ok(parsed) => parsed,
        Err(error) => {
            return Err(ImportError::Parse(error));
        },
    };
    match accept_document(&root, allowed) {
        Ok(document) => import_resources(document, chunk, max_texture_dim, descriptors),
        Err(error) => Err(error),
    }
}

/// Imports a self-contained binary glTF file with a texture limit.
pub fn import_glb_slice_with_options(
    bytes: &[u8],
    allowed: &[String],
    max_texture_dim: Option<u32>,
) -> (result: Result<ImportedGlb, ImportError>)
    ensures
        is_import(bytes@, texts(allowed@), max_texture_dim, seq![], result),
        result matches Ok(imported) ==> valid_document(imported.document),
{
    let descriptors: Vec<MtoonMaterialDescriptor> = Vec::new();
    assert(descriptors@ =~= seq![]);
    import_glb_slice_with_mtoon_options(bytes, allowed, max_texture_dim, descriptors.as_slice())
}

/// Imports a self-contained binary glTF file.
pub fn import_glb_slice(bytes: &[u8], allowed: &[String]) -> (result: Result<
    ImportedGlb,
    ImportError,
>)
    ensures
        is_import(bytes@, texts(allowed@), None, seq![], result),
        result matches Ok(imported) ==> valid_document(imported.document),
{
    import_glb_slice_with_options(bytes, allowed, None)
}

/// Images are decoded up to four times the texture limit, within two and 16384
/// texels a side, and up to 8192 where there is no limit.
pub proof fn images_are_decoded_up_to_their_limit(max: u32)
    ensures
        decode_dim(None) == 8192,
        2 <= decode_dim(Some(max)) <= 16384,
        1 <= max <= 4096 ==> decode_dim(Some(max)) == 4 * max,
        max > 4096 ==> decode_dim(Some(max)) == 16384,
{
}

/// An image is reserved exactly where it is not one too many and its four bytes
/// a texel are left; then it counts as one image and as these bytes.
pub proof fn reserving_counts_images_and_bytes(budget: ByteImageBudget, width: u32, height: u32)
    requires
        budget.decoded_bytes <= 268_435_456,
    ensures
        reserved(budget, width, height) is Ok <==> budget.image_count < 64 && budget.decoded_bytes
            + width * height * 4 <= 268_435_456,
        reserved(budget, width, height) matches Ok(next) ==> next.image_count == budget.image_count
            + 1 && next.decoded_bytes == budget.decoded_bytes + width * height * 4,
        budget.image_count >= 64 ==> reserved(budget, width, height) == Err::<
            ByteImageBudget,
            BudgetError,
        >(BudgetError::TooManyImages),
{
}

proof fn first_separator(uri: Seq<u8>, from: int)
    requires
        0 <= from,
    ensures
        match find_separator(uri, from) {
            Some(at) => from <= at && separator_at(uri, at) && forall|i: int|
                from <= i < at ==> !#[trigger] separator_at(uri, i),
            None => forall|i: int| from <= i ==> !#[trigger] separator_at(uri, i),
        },
    decreases uri.len() - from,
{
    if from < uri.len() && !separator_at(uri, from) {
        first_separator(uri, from + 1);
    }
}

/// The encoded part of a data URI is what follows the first base64 mark behind
/// its scheme; without the scheme or a mark there is none.
pub proof fn encoded_parts_follow_the_first_mark(uri: Seq<u8>, at: int)
    requires
        5 <= at,
        separator_at(uri, at),
        forall|i: int| 5 <= i < at ==> !#[trigger] separator_at(uri, i),
    ensures
        uri[0] == 0x64 && uri[1] == 0x61 && uri[2] == 0x74 && uri[3] == 0x61 && uri[4] == 0x3a
            <==> encoded_part(uri) is Some,
        encoded_part(uri) matches Some(part) ==> uri == uri.take(at + 8) + part,
        uri[at] == 0x3b && uri[at + 7] == 0x2c,
{
    first_separator(uri, 5);
    let mark = uri.subrange(at, at + 8);
    assert(mark[0] == uri[at] && mark[7] == uri[at + 7]);
    let scheme = uri.take(5);
    assert(scheme[0] == uri[0] && scheme[1] == uri[1] && scheme[2] == uri[2] && scheme[3] == uri[3]
        && scheme[4] == uri[4]);
    if uri[0] == 0x64 && uri[1] == 0x61 && uri[2] == 0x74 && uri[3] == 0x61 && uri[4] == 0x3a {
        assert(scheme =~= seq![0x64u8, 0x61u8, 0x74u8, 0x61u8, 0x3au8]);
    }
    if let Some(part) = encoded_part(uri) {
        assert(uri =~= uri.take(at + 8) + part);
    }
}

/// An image that lies in a buffer is read from there byte for byte, whatever
/// its URI says; it is read exactly where it names a type and its range lies
/// within its buffer.
pub proof fn viewed_images_are_their_range(
    image: SourceImageView,
    buffers: Seq<Seq<u8>>,
    view: crate::source::SourceView,
    i: int,
)
    requires
        image.view == Some(view),
        forall|b: int| 0 <= b < buffers.len() ==> (#[trigger] buffers[b]).len() <= usize::MAX,
    ensures
        image_bytes(image, buffers) is Ok <==> image.mime_type is Some && view.buffer
            < buffers.len() && view.offset + view.length <= buffers[view.buffer as int].len(),
        image_bytes(image, buffers) matches Ok(bytes) ==> bytes.len() == view.length && (0 <= i
            < view.length ==> bytes[i] == buffers[view.buffer as int][view.offset + i]),
{
}

/// An image that is not sampled is one white texel; one that is sampled has four
/// bytes for each of its texels.
pub proof fn unsampled_images_are_white(
    model: SourceModel,
    buffers: Seq<Seq<u8>>,
    max_texture_dim: Option<u32>,
    descriptors: Seq<MtoonMaterialDescriptor>,
    images: Vec<ImageData>,
    i: int,
)
    requires
        is_image_import(model, buffers, max_texture_dim, descriptors, Ok(images)),
        0 <= i < model.images@.len(),
    ensures
        model.images@.len() <= 64,
        images@.len() == model.images@.len(),
        images@[i].format is R8G8B8A8,
        images@[i].pixels@.len() == images@[i].width * images@[i].height * 4,
        !is_sampled(model, descriptors, i) ==> images@[i].width == 1 && images@[i].height == 1
            && forall|c: int| 0 <= c < 4 ==> #[trigger] images@[i].pixels@[c] == 255,
{
    let dim = decode_dim(max_texture_dim) as u32;
    let views = views_of(images@);
    let budgets = choose|budgets: Seq<ByteImageBudget>|
        is_import_run(model, buffers, dim, descriptors, views, budgets);
    assert(views[i] == images@[i]@);
    assert(is_import_step(
        model,
        buffers,
        dim,
        descriptors,
        i,
        budgets[i],
        views[i],
        budgets[i + 1],
    ));
}

/// The images of an import are counted against one budget, in their order: each
/// sampled one takes four bytes for each texel of its measured size, and one
/// that is not sampled takes nothing.
pub proof fn imported_images_share_the_budget(
    model: SourceModel,
    buffers: Seq<Seq<u8>>,
    max_decode_dim: u32,
    descriptors: Seq<MtoonMaterialDescriptor>,
    images: Seq<ImageView>,
    budgets: Seq<ByteImageBudget>,
    i: int,
)
    requires
        is_import_run(model, buffers, max_decode_dim, descriptors, images, budgets),
        0 <= i < images.len(),
    ensures
        budgets[0].image_count == 0 && budgets[0].decoded_bytes == 0,
        !is_sampled(model, descriptors, i) ==> budgets[i + 1] == budgets[i],
        is_sampled(model, descriptors, i) ==> {
            &&& budgets[i + 1].image_count == budgets[i].image_count + 1
            &&& image_bytes(model.images@[i]@, buffers) is Ok
            &&& exists|width: u32, height: u32|
                budgets[i + 1].decoded_bytes == budgets[i].decoded_bytes + #[trigger] (width
                    * height) * 4 && (encoding_of(model.images@[i]@.mime_type)
                    != ImageEncoding::Guessed ==> encoded_size(
                    image_bytes(model.images@[i]@, buffers)->Ok_0,
                    encoding_of(model.images@[i]@.mime_type),
                    max_decode_dim,
                    536_870_912,
                ) == Some((width, height)))
        },
{
    let step = images[i];
    assert(is_import_step(
        model,
        buffers,
        max_decode_dim,
        descriptors,
        i,
        budgets[i],
        step,
        budgets[i + 1],
    ));
    if is_sampled(model, descriptors, i) {
        let encoded = image_bytes(model.images@[i]@, buffers)->Ok_0;
        let encoding = encoding_of(model.images@[i]@.mime_type);
        let size = choose|size: Option<(u32, u32)>| #[trigger]
            can_measure(encoded, encoding, max_decode_dim, size) && is_measured_decoding(
                encoded,
                encoding,
                max_decode_dim,
                size,
                budgets[i],
                Ok(step),
                budgets[i + 1],
            );
        let (width, height) = size.unwrap();
        assert(budgets[i + 1].decoded_bytes == budgets[i].decoded_bytes + (width * height) * 4);
    }
}

proof fn not_allowed_facts(
    required: Seq<Seq<char>>,
    allowed: Seq<Seq<char>>,
    count: nat,
    name: Seq<char>,
)
    requires
        count <= required.len(),
    ensures
        not_allowed(required, allowed, count).contains(name) <==> !allowed.contains(name)
            && required.take(count as int).contains(name),
    decreases count,
{
    let names = not_allowed(required, allowed, count);
    if count > 0 {
        let before = not_allowed(required, allowed, (count - 1) as nat);
        not_allowed_facts(required, allowed, (count - 1) as nat, name);
        let (shorter, longer) = (required.take(count - 1), required.take(count as int));
        assert(longer =~= shorter.push(required[count - 1]));
        pushed_contains(shorter, required[count - 1], name);
        pushed_contains(before, required[count - 1], name);
    }
}

proof fn pushed_contains<T>(list: Seq<T>, last: T, value: T)
    ensures
        list.push(last).contains(value) <==> list.contains(value) || value == last,
{
    let longer = list.push(last);
    if list.contains(value) {
        let i = choose|i: int| 0 <= i < list.len() && list[i] == value;
        assert(longer[i] == value);
    }
    if value == last {
        assert(longer[list.len() as int] == value);
    }
}

/// The extensions that are not allowed are the required ones that the caller
/// does not name, and no others.
pub proof fn unnamed_extensions_are_not_allowed(
    required: Seq<Seq<char>>,
    allowed: Seq<Seq<char>>,
    name: Seq<char>,
)
    ensures
        not_allowed(required, allowed, required.len()).contains(name) <==> required.contains(name)
            && !allowed.contains(name),
{
    not_allowed_facts(required, allowed, required.len(), name);
    assert(required.take(required.len() as int) =~= required);
}

/// A file is self-contained exactly where each of its buffers, and each image
/// outside a buffer, has no URI or a data URI.
pub proof fn self_contained_files_have_no_external_uri(
    buffers: Seq<Option<Seq<char>>>,
    images: Seq<SourceImageView>,
)
    ensures
        external_resource(buffers, images).0 is None <==> forall|i: int|
            0 <= i < buffers.len() ==> ((#[trigger] buffers[i]) matches Some(uri) ==> is_data_uri(
                encode_utf8(uri),
            )),
        external_resource(buffers, images).1 is None <==> forall|i: int|
            0 <= i < images.len() ==> ((#[trigger] images[i]).view is Some || (
            images[i].uri matches Some(uri) ==> is_data_uri(encode_utf8(uri)))),
{
    let buffer = |i: int|
        if is_external(buffers[i]) {
            buffers[i]
        } else {
            None
        };
    let image = |i: int|
        if is_external_image(images[i]) {
            images[i].uri
        } else {
            None
        };
    first_some_none(buffers.len(), buffer);
    first_some_none(images.len(), image);
    if external_resource(buffers, images).0 is None {
        assert forall|i: int| 0 <= i < buffers.len() implies ((
        #[trigger] buffers[i]) matches Some(uri) ==> is_data_uri(encode_utf8(uri))) by {
            assert(buffer(i) is None);
        }
    }
    if external_resource(buffers, images).1 is None {
        assert forall|i: int| 0 <= i < images.len() implies ((#[trigger] images[i]).view is Some
            || (images[i].uri matches Some(uri) ==> is_data_uri(encode_utf8(uri)))) by {
            assert(image(i) is None);
        }
    }
}

/// An image is decoded exactly where the base color of a primitive of a placed
/// mesh reads it, or a texture of a descriptor.
pub proof fn sampled_images_are_read_by_a_material(
    model: SourceModel,
    descriptors: Seq<MtoonMaterialDescriptor>,
    image: int,
)
    ensures
        is_sampled(model, descriptors, image) <==> {
            ||| exists|node: int, mesh: usize, k: int, material: usize, texture: TextureInfo|
                {
                    &&& 0 <= node < model.nodes@.len()
                    &&& (#[trigger] model.nodes@[node]).mesh == Some(mesh)
                    &&& 0 <= k < model.meshes@[mesh as int]@.len()
                    &&& (#[trigger] model.meshes@[mesh as int]@[k]).material == Some(material)
                    &&& (#[trigger] model.materials@[material as int]).inputs.base_color_texture
                        == Some(texture)
                    &&& #[trigger] texture.image_index == image
                }
            ||| exists|d: int, texture: TextureInfo|
                0 <= d < descriptors.len() && #[trigger] toon_samples(
                    descriptors[d].inputs,
                    descriptors[d].mtoon,
                    texture,
                ) && texture.image_index == image
        },
{
    if exists|node: int, k: int|
        0 <= node < model.nodes@.len() && #[trigger] primitive_samples(model, node, k, image) {
        let (node, k) = choose|node: int, k: int|
            0 <= node < model.nodes@.len() && #[trigger] primitive_samples(model, node, k, image);
        let mesh = model.nodes@[node].mesh.unwrap();
        let material = model.meshes@[mesh as int]@[k].material.unwrap();
        let texture = model.materials@[material as int].inputs.base_color_texture.unwrap();
        assert(texture.image_index == image);
    }
    if exists|d: int|
        0 <= d < descriptors.len() && descriptor_samples(#[trigger] descriptors[d], image) {
        let d = choose|d: int|
            0 <= d < descriptors.len() && descriptor_samples(#[trigger] descriptors[d], image);
        let textures = descriptor_textures(descriptors[d]);
        let k = choose|k: int|
            0 <= k < textures.len() && (#[trigger] textures[k]).image_index == image;
        assert(textures.contains(textures[k]));
        every_toon_texture_is_listed(descriptors[d].inputs, descriptors[d].mtoon, textures[k]);
    }
    assert forall|node: int, mesh: usize, k: int, material: usize, texture: TextureInfo|
        {
            &&& 0 <= node < model.nodes@.len()
            &&& (#[trigger] model.nodes@[node]).mesh == Some(mesh)
            &&& 0 <= k < model.meshes@[mesh as int]@.len()
            &&& (#[trigger] model.meshes@[mesh as int]@[k]).material == Some(material)
            &&& (#[trigger] model.materials@[material as int]).inputs.base_color_texture == Some(
                texture,
            )
            &&& #[trigger] texture.image_index == image
        } implies is_sampled(model, descriptors, image) by {
        assert(primitive_samples(model, node, k, image));
    }
    assert forall|d: int, texture: TextureInfo|
        0 <= d < descriptors.len() && #[trigger] toon_samples(
            descriptors[d].inputs,
            descriptors[d].mtoon,
            texture,
        ) && texture.image_index == image implies is_sampled(model, descriptors, image) by {
        every_toon_texture_is_listed(descriptors[d].inputs, descriptors[d].mtoon, texture);
        let textures = descriptor_textures(descriptors[d]);
        let k = choose|k: int| 0 <= k < textures.len() && textures[k] == texture;
        assert(textures[k].image_index == image);
        assert(descriptor_samples(descriptors[d], image));
    }
}

/// An imported file is a container whose document is accepted, holds its
/// structure and the bytes of its buffers, and names nothing outside of itself.
pub proof fn imported_files_are_self_contained(
    bytes: Seq<u8>,
    allowed: Seq<Seq<char>>,
    max_texture_dim: Option<u32>,
    descriptors: Seq<MtoonMaterialDescriptor>,
    imported: ImportedGlb,
    i: int,
)
    requires
        is_import(bytes, allowed, max_texture_dim, descriptors, Ok(imported)),
    ensures
        crate::glb::is_container(bytes),
        is_structure_of(imported.document, imported.source),
        imported.images@.len() == imported.source.images@.len(),
        0 <= i < document_buffers(imported.document).len() ==> (document_buffers(
            imported.document,
        )[i] matches Some(uri) ==> is_data_uri(encode_utf8(uri))),
        parsed_file(normalized(bytes)) matches Some((root, chunk)) && buffer_contents(
            imported.document,
            chunk,
        ) == Some(rows(imported.buffers@)),
{
    let (root, chunk) = parsed_file(normalized(bytes)).unwrap();
    self_contained_files_have_no_external_uri(
        document_buffers(imported.document),
        crate::source::document_images(imported.document),
    );
}

} // verus!
