//! Texture formats and what a surface offers.

use vstd::prelude::*;

verus! {

/// The texture formats that the renderer tells apart. Other formats are kept
/// by a number of the caller's choosing.
#[derive(Clone, Copy, Debug, PartialEq, Eq, Structural)]
pub enum TextureFormat {
    R8Unorm,
    Rgba8Unorm,
    Rgba8UnormSrgb,
    Bgra8Unorm,
    Bgra8UnormSrgb,
    Other(u32),
}

/// How a surface shows frames.
#[derive(Clone, Copy, Debug, PartialEq, Eq, Structural)]
pub enum PresentMode {
    AutoVsync,
    AutoNoVsync,
    Fifo,
    FifoRelaxed,
    Immediate,
    Mailbox,
}

/// How the opacity of a surface is composited.
#[derive(Clone, Copy, Debug, PartialEq, Eq, Structural)]
pub enum CompositeAlphaMode {
    Auto,
    Opaque,
    PreMultiplied,
    PostMultiplied,
    Inherit,
}

/// The format that a transparent window is drawn in.
pub const LOGICAL_OUTPUT_FORMAT: TextureFormat = TextureFormat::Bgra8UnormSrgb;

/// The format that the surface of a transparent window is written in.
pub const PHYSICAL_SURFACE_FORMAT: TextureFormat = TextureFormat::Bgra8Unorm;

/// The format with the same bytes that are not decoded.
pub open spec fn undecoded(format: TextureFormat) -> TextureFormat {
    match format {
        TextureFormat::Rgba8UnormSrgb => TextureFormat::Rgba8Unorm,
        TextureFormat::Bgra8UnormSrgb => TextureFormat::Bgra8Unorm,
        other => other,
    }
}

/// The format with the same bytes that are not decoded: edges are found in
/// encoded values.
pub fn non_srgb_variant(format: TextureFormat) -> (variant: TextureFormat)
    ensures
        variant == undecoded(format),
{
    match format {
        TextureFormat::Rgba8UnormSrgb => TextureFormat::Rgba8Unorm,
        TextureFormat::Bgra8UnormSrgb => TextureFormat::Bgra8Unorm,
        other => other,
    }
}

/// The bytes per texel of a lookup texture.
pub fn format_block_bytes(format: TextureFormat) -> (bytes: u32)
    requires
        format == TextureFormat::R8Unorm || format == TextureFormat::Rgba8Unorm,
    ensures
        bytes == (if format == TextureFormat::R8Unorm {
            1u32
        } else {
            4u32
        }),
{
    match format {
        TextureFormat::R8Unorm => 1,
        _ => 4,
    }
}

fn has_format(formats: &Vec<TextureFormat>, format: TextureFormat) -> (found: bool)
    ensures
        found == formats@.contains(format),
{
    let mut i: usize = 0;
    while i < formats.len()
        invariant
            i <= formats@.len(),
            forall|k: int| 0 <= k < i ==> formats@[k] != format,
        decreases formats@.len() - i,
    {
        if formats[i] == format {
            return true;
        }
        i += 1;
    }
    false
}

fn has_present_mode(modes: &Vec<PresentMode>, mode: PresentMode) -> (found: bool)
    ensures
        found == modes@.contains(mode),
{
    let mut i: usize = 0;
    while i < modes.len()
        invariant
            i <= modes@.len(),
            forall|k: int| 0 <= k < i ==> modes@[k] != mode,
        decreases modes@.len() - i,
    {
        if modes[i] == mode {
            return true;
        }
        i += 1;
    }
    false
}

fn has_alpha_mode(modes: &Vec<CompositeAlphaMode>, mode: CompositeAlphaMode) -> (found: bool)
    ensures
        found == modes@.contains(mode),
{
    let mut i: usize = 0;
    while i < modes.len()
        invariant
            i <= modes@.len(),
            forall|k: int| 0 <= k < i ==> modes@[k] != mode,
        decreases modes@.len() - i,
    {
        if modes[i] == mode {
            return true;
        }
        i += 1;
    }
    false
}

/// What a surface offers.
#[derive(Debug)]
pub struct SurfaceCapabilities {
    pub formats: Vec<TextureFormat>,
    pub present_modes: Vec<PresentMode>,
    pub alpha_modes: Vec<CompositeAlphaMode>,
}

/// The alpha mode of a transparent window. At full and no opacity premultiplied
/// and postmultiplied output agree, so the first is preferred and the second
/// will do.
pub fn pick_alpha_mode(capabilities: &SurfaceCapabilities) -> (mode: Option<CompositeAlphaMode>)
    ensures
        mode == (if capabilities.alpha_modes@.contains(CompositeAlphaMode::PreMultiplied) {
            Some(CompositeAlphaMode::PreMultiplied)
        } else if capabilities.alpha_modes@.contains(CompositeAlphaMode::PostMultiplied) {
            Some(CompositeAlphaMode::PostMultiplied)
        } else if capabilities.alpha_modes@.contains(CompositeAlphaMode::Inherit) {
            Some(CompositeAlphaMode::Inherit)
        } else {
            None
        }),
{
    if has_alpha_mode(&capabilities.alpha_modes, CompositeAlphaMode::PreMultiplied) {
        Some(CompositeAlphaMode::PreMultiplied)
    } else if has_alpha_mode(&capabilities.alpha_modes, CompositeAlphaMode::PostMultiplied) {
        Some(CompositeAlphaMode::PostMultiplied)
    } else if has_alpha_mode(&capabilities.alpha_modes, CompositeAlphaMode::Inherit) {
        Some(CompositeAlphaMode::Inherit)
    } else {
        None
    }
}

/// What a composited surface lacks.
#[derive(Clone, Copy, Debug, PartialEq, Eq, Structural)]
pub enum SurfaceError {
    MissingFormat,
    MissingPresentMode,
    MissingAlphaMode,
}

/// How a surface is configured.
#[derive(Debug)]
pub struct SurfaceConfiguration {
    pub format: TextureFormat,
    pub present_mode: PresentMode,
    pub alpha_mode: CompositeAlphaMode,
    pub view_formats: Vec<TextureFormat>,
}

/// `formats` with the format that a transparent surface is written in.
pub open spec fn with_physical_format(formats: Seq<TextureFormat>) -> Seq<TextureFormat> {
    if formats.contains(PHYSICAL_SURFACE_FORMAT) {
        formats
    } else {
        formats.push(PHYSICAL_SURFACE_FORMAT)
    }
}

/// Adds the format that a transparent surface is written in, unless it is
/// there.
pub fn add_transparent_surface_view_format(view_formats: &mut Vec<TextureFormat>)
    ensures
        final(view_formats)@ == with_physical_format(old(view_formats)@),
{
    if !has_format(view_formats, PHYSICAL_SURFACE_FORMAT) {
        view_formats.push(PHYSICAL_SURFACE_FORMAT);
    }
}

/// Adding the format keeps what is there and changes nothing the second time.
pub proof fn view_formats_settle(formats: Seq<TextureFormat>)
    ensures
        with_physical_format(with_physical_format(formats)) == with_physical_format(formats),
        with_physical_format(formats).contains(PHYSICAL_SURFACE_FORMAT),
        formats.is_prefix_of(with_physical_format(formats)),
{
    let more = with_physical_format(formats);
    if !formats.contains(PHYSICAL_SURFACE_FORMAT) {
        assert(more[formats.len() as int] == PHYSICAL_SURFACE_FORMAT);
    }
}

/// Configures the surface of a composited transparent window, which needs a
/// fixed format, present mode and alpha mode.
pub fn configure_windows_transparent_surface(
    capabilities: &SurfaceCapabilities,
    config: &mut SurfaceConfiguration,
) -> (configured: Result<(), SurfaceError>)
    ensures
        configured == (if !capabilities.formats@.contains(LOGICAL_OUTPUT_FORMAT) {
            Err::<(), SurfaceError>(SurfaceError::MissingFormat)
        } else if !capabilities.present_modes@.contains(PresentMode::Fifo) {
            Err::<(), SurfaceError>(SurfaceError::MissingPresentMode)
        } else if !capabilities.alpha_modes@.contains(CompositeAlphaMode::PreMultiplied) {
            Err::<(), SurfaceError>(SurfaceError::MissingAlphaMode)
        } else {
            Ok::<(), SurfaceError>(())
        }),
        configured is Err ==> *final(config) == *old(config),
        configured is Ok ==> {
            &&& final(config).format == LOGICAL_OUTPUT_FORMAT
            &&& final(config).present_mode == PresentMode::Fifo
            &&& final(config).alpha_mode == CompositeAlphaMode::PreMultiplied
            &&& final(config).view_formats@ == with_physical_format(old(config).view_formats@)
        },
{
    if !has_format(&capabilities.formats, LOGICAL_OUTPUT_FORMAT) {
        return Err(SurfaceError::MissingFormat);
    }
    if !has_present_mode(&capabilities.present_modes, PresentMode::Fifo) {
        return Err(SurfaceError::MissingPresentMode);
    }
    if !has_alpha_mode(&capabilities.alpha_modes, CompositeAlphaMode::PreMultiplied) {
        return Err(SurfaceError::MissingAlphaMode);
    }
    config.format = LOGICAL_OUTPUT_FORMAT;
    config.present_mode = PresentMode::Fifo;
    config.alpha_mode = CompositeAlphaMode::PreMultiplied;
    add_transparent_surface_view_format(&mut config.view_formats);
    Ok(())
}

/// Only the two sRGB formats have a linear counterpart, with the same order of
/// channels; any other format is its own.
pub proof fn linear_variants_keep_their_channels(format: TextureFormat)
    ensures
        undecoded(TextureFormat::Rgba8UnormSrgb) is Rgba8Unorm,
        undecoded(TextureFormat::Bgra8UnormSrgb) is Bgra8Unorm,
        !(format is Rgba8UnormSrgb) && !(format is Bgra8UnormSrgb) ==> undecoded(format) == format,
        undecoded(undecoded(format)) == undecoded(format),
        undecoded(LOGICAL_OUTPUT_FORMAT) == PHYSICAL_SURFACE_FORMAT,
{
}

/// The views of a surface keep their formats, in order, and hold its linear
/// format.
pub proof fn views_keep_their_formats(formats: Seq<TextureFormat>, i: int)
    ensures
        with_physical_format(formats).contains(TextureFormat::Bgra8Unorm),
        0 <= i < formats.len() ==> with_physical_format(formats)[i] == formats[i],
        formats.len() <= with_physical_format(formats).len() <= formats.len() + 1,
        with_physical_format(formats).len() == formats.len() <==> formats.contains(
            TextureFormat::Bgra8Unorm,
        ),
{
    let views = with_physical_format(formats);
    if !formats.contains(PHYSICAL_SURFACE_FORMAT) {
        assert(views[formats.len() as int] == PHYSICAL_SURFACE_FORMAT);
    }
}

} // verus!
