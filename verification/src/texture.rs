//! Texture pixels: conversion, smaller copies, mip levels and sharing.

use vstd::prelude::*;

use crate::import::{ImageData, PixelFormat};
use crate::material::{all_different, TextureColorSpace, TextureInfo, TextureRole};
use crate::scalar::two_to;
use crate::source::rows;

verus! {

/// How a texture is filtered: by what its texels mean, not by the bytes of its
/// image.
#[derive(Clone, Copy, Debug, PartialEq, Eq, Hash, Structural)]
pub enum MipSemantic {
    /// Averages of the encoded bytes.
    Legacy,
    SrgbColor,
    LinearData,
    TangentNormal,
}

/// The meaning of the texels of a toon texture.
pub open spec fn role_semantic(role: TextureRole) -> MipSemantic {
    match role {
        TextureRole::BaseColor => MipSemantic::SrgbColor,
        TextureRole::ShadeMultiply => MipSemantic::SrgbColor,
        TextureRole::Emissive => MipSemantic::SrgbColor,
        TextureRole::Matcap => MipSemantic::SrgbColor,
        TextureRole::RimMultiply => MipSemantic::SrgbColor,
        TextureRole::Normal => MipSemantic::TangentNormal,
        TextureRole::ShadingShift => MipSemantic::LinearData,
        TextureRole::OutlineWidth => MipSemantic::LinearData,
        TextureRole::UvAnimationMask => MipSemantic::LinearData,
    }
}

/// The meaning of the texels of a toon texture.
pub fn mtoon_texture_semantic(texture: &TextureInfo) -> (semantic: MipSemantic)
    ensures
        semantic == role_semantic(texture.role),
{
    match texture.role {
        TextureRole::BaseColor
        | TextureRole::ShadeMultiply
        | TextureRole::Emissive
        | TextureRole::Matcap
        | TextureRole::RimMultiply => MipSemantic::SrgbColor,
        TextureRole::Normal => MipSemantic::TangentNormal,
        TextureRole::ShadingShift | TextureRole::OutlineWidth | TextureRole::UvAnimationMask => {
            MipSemantic::LinearData
        },
    }
}

/// A toon texture is uploaded as sRGB exactly if its texels are colors: the
/// format and the mip levels of an upload never disagree.
pub proof fn semantics_agree_with_color_spaces(role: TextureRole)
    ensures
        (role_semantic(role) == MipSemantic::SrgbColor) == (crate::material::role_color_space(role)
            == TextureColorSpace::Srgb),
        role_semantic(role) != MipSemantic::Legacy,
{
}

/// The number of binary digits of `value`.
pub open spec fn bit_length(value: nat) -> nat
    decreases value,
{
    if value == 0 {
        0
    } else {
        1 + bit_length(value / 2)
    }
}

/// Half of `side`, but at least one.
pub open spec fn next_side(side: u32) -> u32 {
    if side / 2 > 1 {
        (side / 2) as u32
    } else {
        1
    }
}

/// The sizes of `count` mip levels from one on.
pub open spec fn level_sizes(width: u32, height: u32, count: nat) -> Seq<(u32, u32)>
    decreases count,
{
    if count == 0 {
        Seq::empty()
    } else {
        seq![(width, height)] + level_sizes(next_side(width), next_side(height), (count - 1) as nat)
    }
}

/// How many mip levels a texture has: with mips all of them down to one texel.
pub open spec fn level_count(width: u32, height: u32, mips: bool) -> nat {
    if mips {
        bit_length(
            if width > height {
                width as nat
            } else {
                height as nat
            },
        )
    } else {
        1
    }
}

/// The number of binary digits of `value`.
fn count_bits(value: u32) -> (count: u32)
    ensures
        count == bit_length(value as nat),
        count <= 32,
{
    let mut rest: u32 = value;
    let mut count: u32 = 0;
    proof {
        bit_length_fits(value, 32);
    }
    while rest > 0
        invariant
            count + bit_length(rest as nat) == bit_length(value as nat),
            bit_length(value as nat) <= 32,
        decreases rest,
    {
        rest = rest / 2;
        count += 1;
    }
    count
}

proof fn bit_length_bound(value: nat, digits: nat)
    requires
        value < two_to(digits),
    ensures
        bit_length(value) <= digits,
    decreases digits,
{
    if value > 0 {
        if digits == 0 {
        } else {
            bit_length_bound(value / 2, (digits - 1) as nat);
        }
    }
}

proof fn bit_length_fits(value: u32, digits: nat)
    requires
        digits == 32,
    ensures
        bit_length(value as nat) <= digits,
{
    assert(two_to(32) == 0x1_0000_0000) by {
        reveal_with_fuel(two_to, 33);
    }
    bit_length_bound(value as nat, digits);
}

/// The sizes of the mip levels of a texture, from the full size on.
pub fn mip_sizes(width: u32, height: u32, mips: bool) -> (sizes: Vec<(u32, u32)>)
    ensures
        sizes@ == level_sizes(width, height, level_count(width, height, mips)),
{
    let count: u32 = if mips {
        count_bits(
            if width > height {
                width
            } else {
                height
            },
        )
    } else {
        1
    };
    let ghost all = level_sizes(width, height, count as nat);
    let mut sizes: Vec<(u32, u32)> = Vec::new();
    let mut w: u32 = width;
    let mut h: u32 = height;
    let mut level: u32 = 0;
    while level < count
        invariant
            level <= count,
            sizes@ + level_sizes(w, h, (count - level) as nat) == all,
        decreases count - level,
    {
        sizes.push((w, h));
        let ghost before = (w, h);
        w = if w / 2 > 1 {
            w / 2
        } else {
            1
        };
        h = if h / 2 > 1 {
            h / 2
        } else {
            1
        };
        level += 1;
        proof {
            assert(level_sizes(before.0, before.1, (count - level + 1) as nat) =~= seq![before]
                + level_sizes(w, h, (count - level) as nat));
            assert(sizes@ + level_sizes(w, h, (count - level) as nat) =~= all);
        }
    }
    assert(sizes@ =~= all);
    sizes
}

/// The mip levels of a texture end with a single texel.
pub proof fn mip_chain_ends_with_one_texel(width: u32, height: u32)
    requires
        0 < width,
        0 < height,
    ensures
        level_sizes(width, height, level_count(width, height, true)).last() == (1u32, 1u32),
        level_count(width, height, true) > 0,
    decreases width + height,
{
    let count = level_count(width, height, true);
    if width <= 1 && height <= 1 {
        assert(bit_length(1) == 1) by {
            reveal_with_fuel(bit_length, 2);
        }
        assert(level_sizes(width, height, 1) =~= seq![(width, height)]) by {
            reveal_with_fuel(level_sizes, 2);
        }
    } else {
        mip_chain_ends_with_one_texel(next_side(width), next_side(height));
        let larger = if width > height {
            width
        } else {
            height
        };
        let next_larger = if next_side(width) > next_side(height) {
            next_side(width)
        } else {
            next_side(height)
        };
        assert(next_larger == larger / 2);
        assert(count == 1 + level_count(next_side(width), next_side(height), true));
        let rest = level_sizes(next_side(width), next_side(height), (count - 1) as nat);
        levels_have_count(next_side(width), next_side(height), (count - 1) as nat);
        assert(level_sizes(width, height, count) =~= seq![(width, height)] + rest);
        assert((seq![(width, height)] + rest).last() == rest.last());
    }
}

proof fn levels_have_count(width: u32, height: u32, count: nat)
    ensures
        level_sizes(width, height, count).len() == count,
    decreases count,
{
    if count > 0 {
        levels_have_count(next_side(width), next_side(height), (count - 1) as nat);
    }
}

/// Channel `c` of the texel at `(x, y)` of an image that is `width` wide.
pub open spec fn channel(pixels: Seq<u8>, width: int, x: int, y: int, c: int) -> int {
    pixels[(y * width + x) * 4 + c] as int
}

/// Whether `pixels` are the four-channel texels of an image.
pub open spec fn is_image(pixels: Seq<u8>, width: u32, height: u32) -> bool {
    width * height * 4 <= u32::MAX && pixels.len() >= width * height * 4
}

proof fn texel_is_inside(width: int, height: int, x: int, y: int)
    requires
        0 <= x < width,
        0 <= y < height,
    ensures
        0 <= y * width + x < width * height,
        0 <= y * width <= y * width + x,
{
    assert(0 <= y * width && y * width + width <= width * height) by (nonlinear_arith)
        requires
            0 <= x < width,
            0 <= y < height,
    ;
}

proof fn texel_of_index(width: int, height: int, t: int)
    requires
        0 <= t < width * height,
        0 <= width,
        0 <= height,
    ensures
        0 < width,
        0 < height,
        0 <= t % width < width,
        0 <= t / width < height,
        t == (t / width) * width + t % width,
{
    assert(0 < width && 0 < height) by (nonlinear_arith)
        requires
            0 <= t < width * height,
            0 <= width,
            0 <= height,
    ;
    assert(0 <= t % width < width && t == (t / width) * width + t % width && 0 <= t / width)
        by (nonlinear_arith)
        requires
            0 <= t,
            0 < width,
    ;
    assert(t / width < height) by (nonlinear_arith)
        requires
            0 < width,
            0 < height,
            t < width * height,
            t == (t / width) * width + t % width,
            0 <= t % width,
    ;
}

/// The channel of a texel.
fn read_channel(pixels: &[u8], width: u32, height: u32, x: u32, y: u32, c: usize) -> (value: u32)
    requires
        is_image(pixels@, width, height),
        x < width,
        y < height,
        c < 4,
    ensures
        value == channel(pixels@, width as int, x as int, y as int, c as int),
        value <= 255,
{
    proof {
        texel_is_inside(width as int, height as int, x as int, y as int);
    }
    let at: usize = (y as usize * width as usize + x as usize) * 4 + c;
    pixels[at] as u32
}

/// Half of `side`, rounded up.
pub open spec fn half_up(side: u32) -> u32 {
    ((side + 1) / 2) as u32
}

/// Half of `side`, rounded up.
fn halve_up(side: u32) -> (half: u32)
    ensures
        half == half_up(side),
{
    side / 2 + side % 2
}

/// The average of channel `c` over the texels of the two-by-two block at
/// `(x, y)` that the image has.
pub open spec fn block_average(
    pixels: Seq<u8>,
    width: int,
    height: int,
    x: int,
    y: int,
    c: int,
) -> int {
    let right = 2 * x + 1 < width;
    let below = 2 * y + 1 < height;
    let sum = channel(pixels, width, 2 * x, 2 * y, c) + (if right {
        channel(pixels, width, 2 * x + 1, 2 * y, c)
    } else {
        0
    }) + (if below {
        channel(pixels, width, 2 * x, 2 * y + 1, c)
    } else {
        0
    }) + (if right && below {
        channel(pixels, width, 2 * x + 1, 2 * y + 1, c)
    } else {
        0
    });
    if right && below {
        sum / 4
    } else if right || below {
        sum / 2
    } else {
        sum
    }
}

/// The image at half the size, rounded up.
pub open spec fn halved(pixels: Seq<u8>, width: u32, height: u32) -> Seq<u8> {
    let new_width = half_up(width) as int;
    Seq::new(
        (new_width * half_up(height) * 4) as nat,
        |i: int|
            block_average(
                pixels,
                width as int,
                height as int,
                (i / 4) % new_width,
                (i / 4) / new_width,
                i % 4,
            ) as u8,
    )
}

proof fn half_is_smaller(width: u32, height: u32)
    requires
        width * height * 4 <= u32::MAX,
    ensures
        half_up(width) * half_up(height) <= width * height,
        half_up(width) * half_up(height) * 4 <= u32::MAX,
        half_up(width) <= width,
        half_up(height) <= height,
{
    assert(half_up(width) * half_up(height) <= width * height) by (nonlinear_arith)
        requires
            0 <= half_up(width) <= width,
            0 <= half_up(height) <= height,
    ;
}

/// The average of a channel over a block.
fn average_block(pixels: &[u8], width: u32, height: u32, x: u32, y: u32, c: usize) -> (value: u8)
    requires
        is_image(pixels@, width, height),
        2 * x < width,
        2 * y < height,
        c < 4,
    ensures
        value == block_average(
            pixels@,
            width as int,
            height as int,
            x as int,
            y as int,
            c as int,
        ),
{
    let right = width - 2 * x > 1;
    let below = height - 2 * y > 1;
    let mut sum: u32 = read_channel(pixels, width, height, 2 * x, 2 * y, c);
    let mut samples: u32 = 1;
    if right {
        sum = sum + read_channel(pixels, width, height, 2 * x + 1, 2 * y, c);
        samples = samples + 1;
    }
    if below {
        sum = sum + read_channel(pixels, width, height, 2 * x, 2 * y + 1, c);
        samples = samples + 1;
        if right {
            sum = sum + read_channel(pixels, width, height, 2 * x + 1, 2 * y + 1, c);
            samples = samples + 1;
        }
    }
    if samples == 4 {
        (sum / 4) as u8
    } else if samples == 2 {
        (sum / 2) as u8
    } else {
        sum as u8
    }
}

/// The image at half the size, rounded up: each texel is the average of the
/// block that it covers.
pub fn downsample_rgba(px: &[u8], w: u32, h: u32) -> (out: Vec<u8>)
    requires
        is_image(px@, w, h),
    ensures
        out@ == halved(px@, w, h),
        is_image(out@, half_up(w), half_up(h)),
{
    let nw: u32 = halve_up(w);
    let nh: u32 = halve_up(h);
    proof {
        half_is_smaller(w, h);
        assert(nw * nh >= 0) by (nonlinear_arith)
            requires
                nw >= 0,
                nh >= 0,
        ;
    }
    let count: usize = nw as usize * nh as usize;
    let mut out: Vec<u8> = Vec::new();
    let mut t: usize = 0;
    while t < count
        invariant
            t <= count,
            count == nw * nh,
            nw == half_up(w),
            nh == half_up(h),
            is_image(px@, w, h),
            out@.len() == 4 * t,
            count * 4 <= u32::MAX,
            forall|i: int| 0 <= i < 4 * t ==> #[trigger] out@[i] == halved(px@, w, h)[i],
        decreases count - t,
    {
        proof {
            texel_of_index(nw as int, nh as int, t as int);
        }
        let x: u32 = (t % nw as usize) as u32;
        let y: u32 = (t / nw as usize) as u32;
        out.push(average_block(px, w, h, x, y, 0));
        out.push(average_block(px, w, h, x, y, 1));
        out.push(average_block(px, w, h, x, y, 2));
        out.push(average_block(px, w, h, x, y, 3));
        proof {
            assert forall|i: int| 4 * t <= i < 4 * t + 4 implies #[trigger] out@[i] == halved(
                px@,
                w,
                h,
            )[i] by {
                assert(i / 4 == t);
                assert(i == 4 * t || i == 4 * t + 1 || i == 4 * t + 2 || i == 4 * t + 3);
                assert(0 <= i < nw * nh * 4);
            }
        }
        t += 1;
    }
    assert(out@ =~= halved(px@, w, h));
    out
}

/// What is left of an image once it has been halved until no side exceeds
/// `limit`.
pub open spec fn capped(pixels: Seq<u8>, width: u32, height: u32, limit: u32) -> (
    Seq<u8>,
    u32,
    u32,
)
    decreases width + height,
{
    if limit == 0 || (width <= limit && height <= limit) {
        (pixels, width, height)
    } else {
        capped(halved(pixels, width, height), half_up(width), half_up(height), limit)
    }
}

/// Halves an image until no side exceeds the limit.
pub fn cap_texture_rgba(rgba: Vec<u8>, width: u32, height: u32, max_texture_dim: Option<u32>) -> (
    image: (Vec<u8>, u32, u32))
    requires
        is_image(rgba@, width, height),
        max_texture_dim != Some(0u32),
    ensures
        (image.0@, image.1, image.2) == (match max_texture_dim {
            Some(limit) => capped(rgba@, width, height, limit),
            None => (rgba@, width, height),
        }),
{
    let limit: u32 = match max_texture_dim {
        Some(limit) => limit,
        None => {
            return (rgba, width, height);
        },
    };
    let mut pixels = rgba;
    let mut w: u32 = width;
    let mut h: u32 = height;
    while w > limit || h > limit
        invariant
            0 < limit,
            is_image(pixels@, w, h),
            capped(pixels@, w, h, limit) == capped(rgba@, width, height, limit),
        decreases w + h,
    {
        pixels = downsample_rgba(pixels.as_slice(), w, h);
        w = halve_up(w);
        h = halve_up(h);
    }
    (pixels, w, h)
}

/// A capped image has no side above the limit and as many texels as its sides
/// say.
pub proof fn capped_sides_fit(pixels: Seq<u8>, width: u32, height: u32, limit: u32)
    requires
        0 < limit,
        is_image(pixels, width, height),
        pixels.len() == width * height * 4,
    ensures
        ({
            let image = capped(pixels, width, height, limit);
            &&& image.1 <= limit
            &&& image.2 <= limit
            &&& image.0.len() == image.1 * image.2 * 4
        }),
    decreases width + height,
{
    if width > limit || height > limit {
        half_is_smaller(width, height);
        assert(half_up(width) * half_up(height) >= 0) by (nonlinear_arith)
            requires
                half_up(width) >= 0,
                half_up(height) >= 0,
        ;
        capped_sides_fit(
            halved(pixels, width, height),
            half_up(width),
            half_up(height),
            limit,
        );
    }
}

/// `coordinate`, or the last one below `side`.
pub open spec fn clamped_coordinate(coordinate: int, side: int) -> int {
    if coordinate < side {
        coordinate
    } else {
        side - 1
    }
}

/// The column or row of a two-by-two block, clamped to the image.
fn clamp_coordinate(coordinate: u32, side: u32) -> (clamped: u32)
    requires
        0 < side,
    ensures
        clamped == clamped_coordinate(coordinate as int, side as int),
        clamped < side,
{
    if coordinate < side {
        coordinate
    } else {
        side - 1
    }
}

/// Channel `c` of texel `k` of the two-by-two block at `(x, y)`, in row order,
/// with the edges repeated.
pub open spec fn block_channel(
    pixels: Seq<u8>,
    width: int,
    height: int,
    x: int,
    y: int,
    k: int,
    c: int,
) -> int {
    channel(
        pixels,
        width,
        clamped_coordinate(2 * x + k % 2, width),
        clamped_coordinate(2 * y + k / 2, height),
        c,
    )
}

/// The image at another size, each texel the average of the encoded bytes of
/// its block.
pub open spec fn averaged(
    src: Seq<u8>,
    width: u32,
    height: u32,
    new_width: u32,
    new_height: u32,
) -> Seq<u8> {
    Seq::new(
        (new_width * new_height * 4) as nat,
        |i: int|
            ({
                let (w, h) = (width as int, height as int);
                let x = (i / 4) % (new_width as int);
                let y = (i / 4) / (new_width as int);
                (block_channel(src, w, h, x, y, 0, i % 4) + block_channel(
                    src,
                    w,
                    h,
                    x,
                    y,
                    1,
                    i % 4,
                ) + block_channel(src, w, h, x, y, 2, i % 4) + block_channel(
                    src,
                    w,
                    h,
                    x,
                    y,
                    3,
                    i % 4,
                )) / 4
            }) as u8,
    )
}

/// The average of a channel over a block with repeated edges.
fn average_clamped(src: &[u8], w: u32, h: u32, x: u32, y: u32, c: usize) -> (value: u8)
    requires
        is_image(src@, w, h),
        0 < w,
        0 < h,
        x <= 0x4000_0000,
        y <= 0x4000_0000,
        c < 4,
    ensures
        value == (block_channel(src@, w as int, h as int, x as int, y as int, 0, c as int)
            + block_channel(src@, w as int, h as int, x as int, y as int, 1, c as int)
            + block_channel(src@, w as int, h as int, x as int, y as int, 2, c as int)
            + block_channel(src@, w as int, h as int, x as int, y as int, 3, c as int)) / 4,
{
    let left: u32 = clamp_coordinate(2 * x, w);
    let right: u32 = clamp_coordinate(2 * x + 1, w);
    let top: u32 = clamp_coordinate(2 * y, h);
    let bottom: u32 = clamp_coordinate(2 * y + 1, h);
    let sum: u32 = read_channel(src, w, h, left, top, c) + read_channel(src, w, h, right, top, c)
        + read_channel(src, w, h, left, bottom, c) + read_channel(src, w, h, right, bottom, c);
    (sum / 4) as u8
}

proof fn sides_are_small(width: u32, height: u32)
    requires
        0 < width,
        0 < height,
        width * height * 4 <= u32::MAX,
    ensures
        width <= 0x3fff_ffff,
        height <= 0x3fff_ffff,
{
    assert(width <= width * height && height <= width * height) by (nonlinear_arith)
        requires
            0 < width,
            0 < height,
    ;
}

/// The image at another size, each texel the average of the encoded bytes of
/// its block.
pub fn downsample_legacy(src: &[u8], w: u32, h: u32, nw: u32, nh: u32) -> (out: Vec<u8>)
    requires
        is_image(src@, w, h),
        0 < w,
        0 < h,
        nw * nh * 4 <= u32::MAX,
    ensures
        out@ == averaged(src@, w, h, nw, nh),
{
    assert(0 <= nw * nh) by (nonlinear_arith)
        requires
            0 <= nw,
            0 <= nh,
    ;
    let count: usize = nw as usize * nh as usize;
    let mut out: Vec<u8> = Vec::new();
    let mut t: usize = 0;
    while t < count
        invariant
            t <= count,
            count == nw * nh,
            is_image(src@, w, h),
            0 < w,
            0 < h,
            out@.len() == 4 * t,
            count * 4 <= u32::MAX,
            forall|i: int| 0 <= i < 4 * t ==> #[trigger] out@[i] == averaged(src@, w, h, nw, nh)[i],
        decreases count - t,
    {
        proof {
            texel_of_index(nw as int, nh as int, t as int);
            sides_are_small(nw, nh);
        }
        let x: u32 = (t % nw as usize) as u32;
        let y: u32 = (t / nw as usize) as u32;
        out.push(average_clamped(src, w, h, x, y, 0));
        out.push(average_clamped(src, w, h, x, y, 1));
        out.push(average_clamped(src, w, h, x, y, 2));
        out.push(average_clamped(src, w, h, x, y, 3));
        proof {
            assert forall|i: int| 4 * t <= i < 4 * t + 4 implies #[trigger] out@[i] == averaged(
                src@,
                w,
                h,
                nw,
                nh,
            )[i] by {
                assert(i / 4 == t);
                assert(i == 4 * t || i == 4 * t + 1 || i == 4 * t + 2 || i == 4 * t + 3);
                assert(0 <= i < nw * nh * 4);
            }
        }
        t += 1;
    }
    assert(out@ =~= averaged(src@, w, h, nw, nh));
    out
}

/// Whether `block` is the two-by-two block at `(x, y)`, in row order, with the
/// edges repeated.
pub open spec fn is_block(
    src: Seq<u8>,
    width: u32,
    height: u32,
    x: int,
    y: int,
    block: [[u8; 4]; 4],
) -> bool {
    forall|k: int, c: int|
        0 <= k < 4 && 0 <= c < 4 ==> #[trigger] block@[k]@[c] == block_channel(
            src,
            width as int,
            height as int,
            x,
            y,
            k,
            c,
        )
}

/// Whether texel `t` of `out` is what `filter` makes of its block.
pub open spec fn is_filtered_texel<F: Fn(MipSemantic, [[u8; 4]; 4]) -> [u8; 4]>(
    filter: F,
    semantic: MipSemantic,
    src: Seq<u8>,
    width: u32,
    height: u32,
    new_width: u32,
    out: Seq<u8>,
    t: int,
) -> bool {
    exists|block: [[u8; 4]; 4], texel: [u8; 4]|
        is_block(src, width, height, t % (new_width as int), t / (new_width as int), block)
            && #[trigger] call_ensures(filter, (semantic, block), texel) && texel@ =~= out.subrange(
            4 * t,
            4 * t + 4,
        )
}

/// Whether `out` is the image at another size, filtered by the meaning of its
/// texels.
pub open spec fn is_filtered<F: Fn(MipSemantic, [[u8; 4]; 4]) -> [u8; 4]>(
    filter: F,
    semantic: MipSemantic,
    src: Seq<u8>,
    width: u32,
    height: u32,
    new_width: u32,
    new_height: u32,
    out: Seq<u8>,
) -> bool {
    if semantic == MipSemantic::Legacy {
        out == averaged(src, width, height, new_width, new_height)
    } else {
        out.len() == new_width * new_height * 4 && forall|t: int|
            0 <= t < new_width * new_height ==> #[trigger] is_filtered_texel(
                filter,
                semantic,
                src,
                width,
                height,
                new_width,
                out,
                t,
            )
    }
}

/// The texel at `(x, y)`.
fn read_texel(src: &[u8], w: u32, h: u32, x: u32, y: u32) -> (texel: [u8; 4])
    requires
        is_image(src@, w, h),
        x < w,
        y < h,
    ensures
        forall|c: int|
            0 <= c < 4 ==> #[trigger] texel@[c] == channel(src@, w as int, x as int, y as int, c),
{
    [
        read_channel(src, w, h, x, y, 0) as u8,
        read_channel(src, w, h, x, y, 1) as u8,
        read_channel(src, w, h, x, y, 2) as u8,
        read_channel(src, w, h, x, y, 3) as u8,
    ]
}

/// The two-by-two block at `(x, y)`.
fn read_block(src: &[u8], w: u32, h: u32, x: u32, y: u32) -> (block: [[u8; 4]; 4])
    requires
        is_image(src@, w, h),
        0 < w,
        0 < h,
        x <= 0x4000_0000,
        y <= 0x4000_0000,
    ensures
        is_block(src@, w, h, x as int, y as int, block),
{
    let left: u32 = clamp_coordinate(2 * x, w);
    let right: u32 = clamp_coordinate(2 * x + 1, w);
    let top: u32 = clamp_coordinate(2 * y, h);
    let bottom: u32 = clamp_coordinate(2 * y + 1, h);
    let block = [
        read_texel(src, w, h, left, top),
        read_texel(src, w, h, right, top),
        read_texel(src, w, h, left, bottom),
        read_texel(src, w, h, right, bottom),
    ];
    proof {
        assert forall|k: int, c: int| 0 <= k < 4 && 0 <= c < 4 implies #[trigger] block@[k]@[c]
            == block_channel(src@, w as int, h as int, x as int, y as int, k, c) by {
            assert(k == 0 || k == 1 || k == 2 || k == 3);
        }
    }
    block
}

/// The image at another size. Legacy textures average their bytes; `filter`
/// makes a texel of a block for the other meanings.
pub fn downsample_semantic<F: Fn(MipSemantic, [[u8; 4]; 4]) -> [u8; 4]>(
    src: &[u8],
    w: u32,
    h: u32,
    nw: u32,
    nh: u32,
    semantic: MipSemantic,
    filter: &F,
) -> (out: Vec<u8>)
    requires
        is_image(src@, w, h),
        0 < w,
        0 < h,
        nw * nh * 4 <= u32::MAX,
        forall|block: [[u8; 4]; 4]| #[trigger] call_requires(*filter, (semantic, block)),
    ensures
        is_filtered(*filter, semantic, src@, w, h, nw, nh, out@),
        out@.len() == nw * nh * 4,
{
    assert(0 <= nw * nh) by (nonlinear_arith)
        requires
            0 <= nw,
            0 <= nh,
    ;
    if semantic == MipSemantic::Legacy {
        return downsample_legacy(src, w, h, nw, nh);
    }
    let count: usize = nw as usize * nh as usize;
    let mut out: Vec<u8> = Vec::new();
    let mut t: usize = 0;
    while t < count
        invariant
            t <= count,
            count == nw * nh,
            is_image(src@, w, h),
            0 < w,
            0 < h,
            out@.len() == 4 * t,
            count * 4 <= u32::MAX,
            forall|block: [[u8; 4]; 4]| #[trigger] call_requires(*filter, (semantic, block)),
            forall|k: int|
                0 <= k < t ==> #[trigger] is_filtered_texel(
                    *filter,
                    semantic,
                    src@,
                    w,
                    h,
                    nw,
                    out@,
                    k,
                ),
        decreases count - t,
    {
        proof {
            texel_of_index(nw as int, nh as int, t as int);
            sides_are_small(nw, nh);
        }
        let x: u32 = (t % nw as usize) as u32;
        let y: u32 = (t / nw as usize) as u32;
        let block = read_block(src, w, h, x, y);
        let texel = filter(semantic, block);
        let ghost before = out@;
        out.push(texel[0]);
        out.push(texel[1]);
        out.push(texel[2]);
        out.push(texel[3]);
        proof {
            assert forall|k: int| 0 <= k < t + 1 implies #[trigger] is_filtered_texel(
                *filter,
                semantic,
                src@,
                w,
                h,
                nw,
                out@,
                k,
            ) by {
                if k < t {
                    assert(is_filtered_texel(*filter, semantic, src@, w, h, nw, before, k));
                    assert(before.subrange(4 * k, 4 * k + 4) =~= out@.subrange(4 * k, 4 * k + 4));
                } else {
                    assert(call_ensures(*filter, (semantic, block), texel));
                    assert(texel@ =~= out@.subrange(4 * k, 4 * k + 4));
                }
            }
        }
        t += 1;
    }
    out
}

/// Whether `image` is what is left of a texture once it has been filtered down
/// to half its size until no side exceeds `limit`.
pub open spec fn is_capped<F: Fn(MipSemantic, [[u8; 4]; 4]) -> [u8; 4]>(
    filter: F,
    semantic: MipSemantic,
    pixels: Seq<u8>,
    width: u32,
    height: u32,
    limit: u32,
    image: (Seq<u8>, u32, u32),
) -> bool
    decreases width + height,
{
    if limit == 0 || (width <= limit && height <= limit) {
        image == (pixels, width, height)
    } else {
        exists|smaller: Seq<u8>|
            #[trigger] is_filtered(
                filter,
                semantic,
                pixels,
                width,
                height,
                half_up(width),
                half_up(height),
                smaller,
            ) && is_capped(
                filter,
                semantic,
                smaller,
                half_up(width),
                half_up(height),
                limit,
                image,
            )
    }
}

/// Filters a texture down until no side exceeds the limit.
pub fn cap_texture_rgba_semantic<F: Fn(MipSemantic, [[u8; 4]; 4]) -> [u8; 4]>(
    rgba: Vec<u8>,
    width: u32,
    height: u32,
    max_texture_dim: Option<u32>,
    semantic: MipSemantic,
    filter: &F,
) -> (image: (Vec<u8>, u32, u32))
    requires
        is_image(rgba@, width, height),
        0 < width,
        0 < height,
        max_texture_dim != Some(0u32),
        forall|block: [[u8; 4]; 4]| #[trigger] call_requires(*filter, (semantic, block)),
    ensures
        match max_texture_dim {
            Some(limit) => is_capped(
                *filter,
                semantic,
                rgba@,
                width,
                height,
                limit,
                (image.0@, image.1, image.2),
            ),
            None => (image.0@, image.1, image.2) == (rgba@, width, height),
        },
    decreases width + height,
{
    let limit: u32 = match max_texture_dim {
        Some(limit) => limit,
        None => {
            return (rgba, width, height);
        },
    };
    if width <= limit && height <= limit {
        return (rgba, width, height);
    }
    let next_width: u32 = halve_up(width);
    let next_height: u32 = halve_up(height);
    proof {
        half_is_smaller(width, height);
    }
    let smaller = downsample_semantic(
        rgba.as_slice(),
        width,
        height,
        next_width,
        next_height,
        semantic,
        filter,
    );
    cap_texture_rgba_semantic(smaller, next_width, next_height, max_texture_dim, semantic, filter)
}

/// Whether mip level `k + 1` is level `k` filtered to its size.
pub open spec fn is_next_level<F: Fn(MipSemantic, [[u8; 4]; 4]) -> [u8; 4]>(
    filter: F,
    semantic: MipSemantic,
    sizes: Seq<(u32, u32)>,
    levels: Seq<Seq<u8>>,
    k: int,
) -> bool {
    is_filtered(
        filter,
        semantic,
        levels[k],
        sizes[k].0,
        sizes[k].1,
        sizes[k + 1].0,
        sizes[k + 1].1,
        levels[k + 1],
    )
}

/// Whether `levels` are the mip levels of a texture: its texels, and then each
/// level filtered from the one before.
pub open spec fn are_levels<F: Fn(MipSemantic, [[u8; 4]; 4]) -> [u8; 4]>(
    filter: F,
    semantic: MipSemantic,
    rgba: Seq<u8>,
    sizes: Seq<(u32, u32)>,
    levels: Seq<Seq<u8>>,
) -> bool {
    &&& levels.len() == sizes.len()
    &&& levels.len() > 0 ==> levels[0] == rgba
    &&& forall|k: int|
        0 <= k < levels.len() - 1 ==> #[trigger] is_next_level(filter, semantic, sizes, levels, k)
}

proof fn levels_follow(width: u32, height: u32, count: nat, k: int)
    requires
        0 <= k < count - 1,
    ensures
        level_sizes(width, height, count).len() == count,
        level_sizes(width, height, count)[k + 1] == (
            next_side(level_sizes(width, height, count)[k].0),
            next_side(level_sizes(width, height, count)[k].1),
        ),
    decreases count,
{
    levels_have_count(width, height, count);
    let rest = level_sizes(next_side(width), next_side(height), (count - 1) as nat);
    levels_have_count(next_side(width), next_side(height), (count - 1) as nat);
    assert(level_sizes(width, height, count) =~= seq![(width, height)] + rest);
    if k > 0 {
        levels_follow(next_side(width), next_side(height), (count - 1) as nat, k - 1);
        assert(level_sizes(width, height, count)[k] == rest[k - 1]);
        assert(level_sizes(width, height, count)[k + 1] == rest[k]);
    } else {
        assert(rest[0] == (next_side(width), next_side(height))) by {
            reveal_with_fuel(level_sizes, 2);
        }
    }
}

/// The mip levels of a texture, from its own texels on.
pub fn mip_levels<F: Fn(MipSemantic, [[u8; 4]; 4]) -> [u8; 4]>(
    rgba: Vec<u8>,
    width: u32,
    height: u32,
    mips: bool,
    semantic: MipSemantic,
    filter: &F,
) -> (levels: Vec<Vec<u8>>)
    requires
        is_image(rgba@, width, height),
        0 < width,
        0 < height,
        forall|block: [[u8; 4]; 4]| #[trigger] call_requires(*filter, (semantic, block)),
    ensures
        are_levels(
            *filter,
            semantic,
            rgba@,
            level_sizes(width, height, level_count(width, height, mips)),
            rows(levels@),
        ),
{
    let sizes = mip_sizes(width, height, mips);
    let ghost count = level_count(width, height, mips);
    let ghost texels = rgba@;
    proof {
        levels_have_count(width, height, count);
        if mips {
            mip_chain_ends_with_one_texel(width, height);
        }
        assert(sizes@[0] == (width, height));
    }
    let mut levels: Vec<Vec<u8>> = Vec::new();
    levels.push(rgba);
    let mut level: usize = 1;
    while level < sizes.len()
        invariant
            sizes@ == level_sizes(width, height, count),
            sizes@.len() == count,
            1 <= level <= sizes@.len(),
            levels@.len() == level,
            levels@[0]@ == texels,
            sizes@[level - 1].0 > 0,
            sizes@[level - 1].1 > 0,
            is_image(levels@[level - 1]@, sizes@[level - 1].0, sizes@[level - 1].1),
            forall|block: [[u8; 4]; 4]| #[trigger] call_requires(*filter, (semantic, block)),
            forall|k: int|
                0 <= k < level - 1 ==> #[trigger] is_next_level(
                    *filter,
                    semantic,
                    sizes@,
                    rows(levels@),
                    k,
                ),
        decreases sizes@.len() - level,
    {
        let (w, h) = sizes[level - 1];
        let (nw, nh) = sizes[level];
        proof {
            levels_follow(width, height, count, level - 1);
            assert(nw * nh <= w * h) by (nonlinear_arith)
                requires
                    0 < nw <= w,
                    0 < nh <= h,
            ;
            assert(0 <= nw * nh) by (nonlinear_arith)
                requires
                    0 < nw,
                    0 < nh,
            ;
        }
        let smaller = downsample_semantic(
            levels[level - 1].as_slice(),
            w,
            h,
            nw,
            nh,
            semantic,
            filter,
        );
        let ghost before = rows(levels@);
        levels.push(smaller);
        proof {
            let after = rows(levels@);
            assert forall|k: int| 0 <= k < level implies #[trigger] is_next_level(
                *filter,
                semantic,
                sizes@,
                after,
                k,
            ) by {
                if k < level - 1 {
                    assert(is_next_level(*filter, semantic, sizes@, before, k));
                    assert(after[k] == before[k]);
                    assert(after[k + 1] == before[k + 1]);
                } else {
                    assert(after[k] == before[k]);
                    assert(after[k + 1] == smaller@);
                }
            }
        }
        level += 1;
    }
    levels
}

/// The texels of an image with four channels: gray values are repeated, the
/// second channel of two is opacity, missing opacity is full, and formats
/// without eight-bit channels become gray.
pub open spec fn rgba_of(image: ImageData) -> Seq<u8> {
    let pixels = image.pixels@;
    match image.format {
        PixelFormat::R8G8B8A8 => pixels,
        PixelFormat::R8G8B8 => Seq::new(
            (pixels.len() / 3) * 4,
            |i: int|
                if i % 4 == 3 {
                    255
                } else {
                    pixels[i / 4 * 3 + i % 4]
                },
        ),
        PixelFormat::R8 => Seq::new(
            pixels.len() * 4,
            |i: int|
                if i % 4 == 3 {
                    255
                } else {
                    pixels[i / 4]
                },
        ),
        PixelFormat::R8G8 => Seq::new(
            (pixels.len() / 2) * 4,
            |i: int|
                if i % 4 == 3 {
                    pixels[i / 4 * 2 + 1]
                } else {
                    pixels[i / 4 * 2]
                },
        ),
        PixelFormat::Other => Seq::new(
            (image.width * image.height * 4) as nat,
            |i: int| 128u8,
        ),
    }
}

/// The texels of an image with four channels.
pub fn to_rgba8(image: &ImageData) -> (rgba: Vec<u8>)
    requires
        image.width * image.height * 4 <= u32::MAX,
    ensures
        rgba@ == rgba_of(*image),
{
    let ghost all = rgba_of(*image);
    let mut out: Vec<u8> = Vec::new();
    let length: usize = image.pixels.len();
    match image.format {
        PixelFormat::R8G8B8A8 => {
            let mut i: usize = 0;
            while i < length
                invariant
                    i <= length,
                    length == image.pixels@.len(),
                    out@ == image.pixels@.take(i as int),
                decreases length - i,
            {
                out.push(image.pixels[i]);
                i += 1;
                assert(out@ =~= image.pixels@.take(i as int));
            }
            assert(out@ =~= all);
        },
        PixelFormat::R8G8B8 => {
            let mut t: usize = 0;
            while t < length / 3
                invariant
                    t <= length / 3,
                    length == image.pixels@.len(),
                    image.format is R8G8B8,
                    all == rgba_of(*image),
                    out@.len() == 4 * t,
                    forall|i: int| 0 <= i < 4 * t ==> #[trigger] out@[i] == all[i],
                decreases length / 3 - t,
            {
                out.push(image.pixels[3 * t]);
                out.push(image.pixels[3 * t + 1]);
                out.push(image.pixels[3 * t + 2]);
                out.push(255);
                t += 1;
            }
            assert(out@ =~= all);
        },
        PixelFormat::R8 => {
            let mut t: usize = 0;
            while t < length
                invariant
                    t <= length,
                    length == image.pixels@.len(),
                    image.format is R8,
                    all == rgba_of(*image),
                    out@.len() == 4 * t,
                    forall|i: int| 0 <= i < 4 * t ==> #[trigger] out@[i] == all[i],
                decreases length - t,
            {
                out.push(image.pixels[t]);
                out.push(image.pixels[t]);
                out.push(image.pixels[t]);
                out.push(255);
                t += 1;
            }
            assert(out@ =~= all);
        },
        PixelFormat::R8G8 => {
            let mut t: usize = 0;
            while t < length / 2
                invariant
                    t <= length / 2,
                    length == image.pixels@.len(),
                    image.format is R8G8,
                    all == rgba_of(*image),
                    out@.len() == 4 * t,
                    forall|i: int| 0 <= i < 4 * t ==> #[trigger] out@[i] == all[i],
                decreases length / 2 - t,
            {
                out.push(image.pixels[2 * t]);
                out.push(image.pixels[2 * t]);
                out.push(image.pixels[2 * t]);
                out.push(image.pixels[2 * t + 1]);
                t += 1;
            }
            assert(out@ =~= all);
        },
        PixelFormat::Other => {
            assert(0 <= image.width * image.height) by (nonlinear_arith)
                requires
                    0 <= image.width,
                    0 <= image.height,
            ;
            let count: usize = image.width as usize * image.height as usize * 4;
            let mut i: usize = 0;
            while i < count
                invariant
                    i <= count,
                    out@.len() == i,
                    forall|k: int| 0 <= k < i ==> #[trigger] out@[k] == 128,
                decreases count - i,
            {
                out.push(128);
                i += 1;
            }
            assert(out@ =~= all);
        },
    }
    out
}

/// What tells two uploaded textures apart: the exact texels, the size and how
/// they are filtered.
#[derive(Debug, PartialEq, Eq, Hash)]
pub struct ModelTextureCacheKey {
    pub width: u32,
    pub height: u32,
    pub rgba: Vec<u8>,
    pub color_space: TextureColorSpace,
    pub mip_semantic: MipSemantic,
}

/// The contents of a key.
pub struct TextureKey {
    pub width: u32,
    pub height: u32,
    pub rgba: Seq<u8>,
    pub color_space: TextureColorSpace,
    pub mip_semantic: MipSemantic,
}

impl View for ModelTextureCacheKey {
    type V = TextureKey;

    open spec fn view(&self) -> TextureKey {
        TextureKey {
            width: self.width,
            height: self.height,
            rgba: self.rgba@,
            color_space: self.color_space,
            mip_semantic: self.mip_semantic,
        }
    }
}

impl ModelTextureCacheKey {
    /// Whether two keys have the same contents.
    pub fn same(&self, other: &Self) -> (same: bool)
        ensures
            same == (self@ == other@),
    {
        if self.width != other.width || self.height != other.height || self.color_space
            != other.color_space || self.mip_semantic != other.mip_semantic || self.rgba.len()
            != other.rgba.len() {
            return false;
        }
        let mut i: usize = 0;
        while i < self.rgba.len()
            invariant
                i <= self.rgba@.len(),
                self.rgba@.len() == other.rgba@.len(),
                forall|k: int| 0 <= k < i ==> self.rgba@[k] == other.rgba@[k],
            decreases self.rgba@.len() - i,
        {
            if self.rgba[i] != other.rgba[i] {
                return false;
            }
            i += 1;
        }
        assert(self.rgba@ =~= other.rgba@);
        true
    }
}

/// Shares uploaded textures between models by their contents: a slot names a
/// texture that the owner of the cache has uploaded for a key. The texels are
/// kept, so that equal keys are equal images.
#[derive(Debug)]
pub struct ModelTextureCache {
    keys: Vec<ModelTextureCacheKey>,
    hits: usize,
}

/// The contents of a texture cache.
pub struct TextureCacheView {
    pub keys: Seq<TextureKey>,
    pub hits: nat,
}

impl View for ModelTextureCache {
    type V = TextureCacheView;

    closed spec fn view(&self) -> TextureCacheView {
        TextureCacheView {
            keys: self.keys@.map_values(|key: ModelTextureCacheKey| key@),
            hits: self.hits as nat,
        }
    }
}

impl Default for ModelTextureCache {
    fn default() -> (cache: Self)
        ensures
            cache@.keys.len() == 0,
            cache@.hits == 0,
            cache.wf(),
    {
        ModelTextureCache { keys: Vec::new(), hits: 0 }
    }
}

/// A cache after a texture was asked for: one that is there is reused, another
/// gets the next slot.
pub open spec fn with_texture(cache: TextureCacheView, key: TextureKey) -> TextureCacheView {
    if cache.keys.contains(key) {
        TextureCacheView { keys: cache.keys, hits: cache.hits + 1 }
    } else {
        TextureCacheView { keys: cache.keys.push(key), hits: cache.hits }
    }
}

impl ModelTextureCache {
    /// Whether every image has one slot.
    pub open spec fn wf(&self) -> bool {
        all_different(self@.keys)
    }

    /// A cache without textures.
    pub fn new() -> (cache: Self)
        ensures
            cache@.keys.len() == 0,
            cache@.hits == 0,
            cache.wf(),
    {
        ModelTextureCache { keys: Vec::new(), hits: 0 }
    }

    /// How many textures there are.
    pub fn len(&self) -> (count: usize)
        ensures
            count == self@.keys.len(),
    {
        self.keys.len()
    }

    /// Whether there is no texture.
    pub fn is_empty(&self) -> (empty: bool)
        ensures
            empty == (self@.keys.len() == 0),
    {
        self.keys.len() == 0
    }

    /// How often an uploaded texture was reused.
    pub fn hit_count(&self) -> (hits: usize)
        ensures
            hits == self@.hits,
    {
        self.hits
    }

    /// What a slot was uploaded for.
    pub fn key(&self, slot: usize) -> (key: &ModelTextureCacheKey)
        requires
            slot < self@.keys.len(),
        ensures
            key@ == self@.keys[slot as int],
    {
        &self.keys[slot]
    }

    /// The slot of a texture, and whether it has to be uploaded: an image that
    /// is not there gets the next slot.
    pub fn get_or_upload_semantic(&mut self, key: ModelTextureCacheKey) -> (slot: (usize, bool))
        requires
            old(self).wf(),
            old(self)@.hits < usize::MAX,
        ensures
            final(self).wf(),
            slot.0 < final(self)@.keys.len(),
            final(self)@.keys[slot.0 as int] == key@,
            slot.1 == !old(self)@.keys.contains(key@),
            final(self)@ == with_texture(old(self)@, key@),
    {
        let mut i: usize = 0;
        while i < self.keys.len()
            invariant
                i <= self.keys@.len(),
                old(self).wf(),
                old(self)@.hits < usize::MAX,
                *self == *old(self),
                forall|k: int| 0 <= k < i ==> #[trigger] self@.keys[k] != key@,
            decreases self.keys@.len() - i,
        {
            if self.keys[i].same(&key) {
                assert(old(self)@.keys[i as int] == key@);
                self.hits = self.hits + 1;
                return (i, false);
            }
            assert(self@.keys[i as int] == self.keys@[i as int]@);
            i += 1;
        }
        self.keys.push(key);
        assert(self@.keys =~= old(self)@.keys.push(key@));
        (i, true)
    }

    /// The slot of a texture that is filtered by its encoded bytes.
    pub fn get_or_upload(
        &mut self,
        width: u32,
        height: u32,
        rgba: Vec<u8>,
        color_space: TextureColorSpace,
    ) -> (slot: (usize, bool))
        requires
            old(self).wf(),
            old(self)@.hits < usize::MAX,
        ensures
            ({
                let key = TextureKey {
                    width,
                    height,
                    rgba: rgba@,
                    color_space,
                    mip_semantic: MipSemantic::Legacy,
                };
                &&& final(self).wf()
                &&& slot.0 < final(self)@.keys.len()
                &&& final(self)@.keys[slot.0 as int] == key
                &&& slot.1 == !old(self)@.keys.contains(key)
                &&& final(self)@ == with_texture(old(self)@, key)
            }),
    {
        self.get_or_upload_semantic(
            ModelTextureCacheKey {
                width,
                height,
                rgba,
                color_space,
                mip_semantic: MipSemantic::Legacy,
            },
        )
    }
}

/// Equal images that are filtered alike share a slot, and different ones never
/// do.
pub proof fn slots_are_images(cache: ModelTextureCache, a: int, b: int)
    requires
        cache.wf(),
        0 <= a < cache@.keys.len(),
        0 <= b < cache@.keys.len(),
    ensures
        cache@.keys[a] == cache@.keys[b] <==> a == b,
{
}

/// The bytes of the texel at `(x, y)`, channel by channel, in an image whose
/// rows are `width` texels.
pub open spec fn texel_byte(pixels: Seq<u8>, width: int, x: int, y: int, c: int) -> u8 {
    pixels[4 * (width * y + x) + c]
}

proof fn texel_bytes_are_channels(pixels: Seq<u8>, width: int, x: int, y: int, c: int)
    ensures
        channel(pixels, width, x, y, c) == texel_byte(pixels, width, x, y, c),
{
    assert((y * width + x) * 4 + c == 4 * (width * y + x) + c) by (nonlinear_arith);
}

proof fn index_of_texel(width: int, height: int, x: int, y: int, c: int)
    requires
        0 <= x < width,
        0 <= y < height,
        0 <= c < 4,
    ensures
        ({
            let i = 4 * (width * y + x) + c;
            &&& 0 <= i < width * height * 4
            &&& i % 4 == c
            &&& (i / 4) % width == x
            &&& (i / 4) / width == y
        }),
{
    let t = width * y + x;
    texel_is_inside(width, height, x, y);
    assert(width * y == y * width) by (nonlinear_arith);
    assert((4 * t + c) / 4 == t);
    assert(t % width == x && t / width == y) by (nonlinear_arith)
        requires
            t == width * y + x,
            0 <= x < width,
            0 <= y,
    ;
    assert(4 * t + c < width * height * 4);
}

/// The sum of channel `c` over the texels of an image at `(2 x, 2 y)`, to its
/// right and below, as far as there are any.
pub open spec fn corner_sum(
    pixels: Seq<u8>,
    width: int,
    height: int,
    x: int,
    y: int,
    c: int,
) -> int {
    let here = |dx: int, dy: int|
        if 2 * x + dx < width && 2 * y + dy < height {
            texel_byte(pixels, width, 2 * x + dx, 2 * y + dy, c) as int
        } else {
            0
        };
    here(0, 0) + here(1, 0) + here(0, 1) + here(1, 1)
}

/// A texel of the halved image is the sum of the source texels at twice its
/// coordinates, to the right and below, over their number, rounded down.
pub proof fn halved_texels_average_their_corner(
    pixels: Seq<u8>,
    width: u32,
    height: u32,
    x: int,
    y: int,
    c: int,
)
    requires
        is_image(pixels, width, height),
        0 <= 2 * x < width,
        0 <= 2 * y < height,
        0 <= c < 4,
    ensures
        ({
            let new_width = (width + 1) / 2;
            let value = texel_byte(halved(pixels, width, height), new_width, x, y, c);
            let sum = corner_sum(pixels, width as int, height as int, x, y, c);
            if 2 * x + 1 < width && 2 * y + 1 < height {
                4 * value <= sum < 4 * value + 4
            } else if 2 * x + 1 < width || 2 * y + 1 < height {
                2 * value <= sum < 2 * value + 2
            } else {
                value == sum
            }
        }),
{
    let (w, h) = (width as int, height as int);
    let new_width = (width + 1) / 2;
    let new_height = (height + 1) / 2;
    half_is_smaller(width, height);
    index_of_texel(new_width, new_height, x, y, c);
    texel_bytes_are_channels(pixels, w, 2 * x, 2 * y, c);
    texel_bytes_are_channels(pixels, w, 2 * x + 1, 2 * y, c);
    texel_bytes_are_channels(pixels, w, 2 * x, 2 * y + 1, c);
    texel_bytes_are_channels(pixels, w, 2 * x + 1, 2 * y + 1, c);
    let value = block_average(pixels, w, h, x, y, c);
    assert(0 <= value <= 255);
    assert(halved(pixels, width, height)[4 * (new_width * y + x) + c] == value as u8);
}

/// A source texel counts only in the texel at half its coordinates: images that
/// agree on the texels whose halved coordinates are `(x, y)` have the same texel
/// there once they are halved.
pub proof fn halved_texels_depend_on_their_corner(
    first: Seq<u8>,
    second: Seq<u8>,
    width: u32,
    height: u32,
    x: int,
    y: int,
    c: int,
)
    requires
        is_image(first, width, height),
        is_image(second, width, height),
        0 <= 2 * x < width,
        0 <= 2 * y < height,
        0 <= c < 4,
        forall|sx: int, sy: int|
            0 <= sx < width && 0 <= sy < height && sx / 2 == x && sy / 2 == y ==> texel_byte(
                first,
                width as int,
                sx,
                sy,
                c,
            ) == #[trigger] texel_byte(second, width as int, sx, sy, c),
    ensures
        texel_byte(halved(first, width, height), (width + 1) / 2, x, y, c) == texel_byte(
            halved(second, width, height),
            (width + 1) / 2,
            x,
            y,
            c,
        ),
{
    let w = width as int;
    half_is_smaller(width, height);
    index_of_texel((width + 1) / 2, (height + 1) / 2, x, y, c);
    assert forall|dx: int, dy: int|
        0 <= dx < 2 && 0 <= dy < 2 && 2 * x + dx < width && 2 * y + dy
            < height implies #[trigger] channel(first, w, 2 * x + dx, 2 * y + dy, c) == channel(
        second,
        w,
        2 * x + dx,
        2 * y + dy,
        c,
    ) by {
        texel_bytes_are_channels(first, w, 2 * x + dx, 2 * y + dy, c);
        texel_bytes_are_channels(second, w, 2 * x + dx, 2 * y + dy, c);
        assert(texel_byte(first, w, 2 * x + dx, 2 * y + dy, c) == texel_byte(
            second,
            w,
            2 * x + dx,
            2 * y + dy,
            c,
        ));
    }
    assert(channel(first, w, 2 * x + 0, 2 * y + 0, c) == channel(
        second,
        w,
        2 * x + 0,
        2 * y + 0,
        c,
    ));
    if 2 * x + 1 < width {
        assert(channel(first, w, 2 * x + 1, 2 * y + 0, c) == channel(
            second,
            w,
            2 * x + 1,
            2 * y + 0,
            c,
        ));
    }
    if 2 * y + 1 < height {
        assert(channel(first, w, 2 * x + 0, 2 * y + 1, c) == channel(
            second,
            w,
            2 * x + 0,
            2 * y + 1,
            c,
        ));
    }
    if 2 * x + 1 < width && 2 * y + 1 < height {
        assert(channel(first, w, 2 * x + 1, 2 * y + 1, c) == channel(
            second,
            w,
            2 * x + 1,
            2 * y + 1,
            c,
        ));
    }
}

/// Where the source texels at `(2 x, 2 y)`, to the right and below have the
/// value `value`, the halved image has it at `(x, y)`.
pub proof fn halving_keeps_even_corners(
    pixels: Seq<u8>,
    width: u32,
    height: u32,
    x: int,
    y: int,
    c: int,
    value: u8,
)
    requires
        is_image(pixels, width, height),
        0 <= 2 * x < width,
        0 <= 2 * y < height,
        0 <= c < 4,
        forall|sx: int, sy: int|
            2 * x <= sx < 2 * x + 2 && sx < width && 2 * y <= sy < 2 * y + 2 && sy < height
                ==> #[trigger] texel_byte(pixels, width as int, sx, sy, c) == value,
    ensures
        texel_byte(halved(pixels, width, height), (width + 1) / 2, x, y, c) == value,
{
    halved_texels_average_their_corner(pixels, width, height, x, y, c);
    let w = width as int;
    assert(texel_byte(pixels, w, 2 * x + 0, 2 * y + 0, c) == value);
    if 2 * x + 1 < width {
        assert(texel_byte(pixels, w, 2 * x + 1, 2 * y + 0, c) == value);
    }
    if 2 * y + 1 < height {
        assert(texel_byte(pixels, w, 2 * x + 0, 2 * y + 1, c) == value);
    }
    if 2 * x + 1 < width && 2 * y + 1 < height {
        assert(texel_byte(pixels, w, 2 * x + 1, 2 * y + 1, c) == value);
    }
}

/// An image that fits its limit stays as it is. Another is halved no further
/// than it has to: at twice its size it would not fit.
pub proof fn images_are_not_capped_needlessly(
    pixels: Seq<u8>,
    width: u32,
    height: u32,
    limit: u32,
)
    requires
        0 < limit,
    ensures
        width <= limit && height <= limit ==> capped(pixels, width, height, limit) == (
            pixels,
            width,
            height,
        ),
        width > limit || height > limit ==> {
            let image = capped(pixels, width, height, limit);
            2 * image.1 > limit || 2 * image.2 > limit
        },
    decreases width + height,
{
    if width > limit || height > limit {
        images_are_not_capped_needlessly(
            halved(pixels, width, height),
            half_up(width),
            half_up(height),
            limit,
        );
    }
}

/// The texel of an image at `(x, y)`, or the nearest one that it has.
pub open spec fn nearest_byte(
    pixels: Seq<u8>,
    width: int,
    height: int,
    x: int,
    y: int,
    c: int,
) -> u8 {
    texel_byte(
        pixels,
        width,
        if x < width {
            x
        } else {
            width - 1
        },
        if y < height {
            y
        } else {
            height - 1
        },
        c,
    )
}

/// A texel of a mip level that is averaged is the sum of the four texels at
/// twice its coordinates, to the right and below, with the edges repeated, over
/// four, rounded down.
pub proof fn averaged_texels_average_their_corner(
    src: Seq<u8>,
    width: u32,
    height: u32,
    new_width: u32,
    new_height: u32,
    x: int,
    y: int,
    c: int,
)
    requires
        is_image(src, width, height),
        0 < width,
        0 < height,
        0 <= x < new_width,
        0 <= y < new_height,
        0 <= c < 4,
    ensures
        ({
            let (w, h) = (width as int, height as int);
            let value = texel_byte(
                averaged(src, width, height, new_width, new_height),
                new_width as int,
                x,
                y,
                c,
            );
            let sum = nearest_byte(src, w, h, 2 * x, 2 * y, c) + nearest_byte(
                src,
                w,
                h,
                2 * x + 1,
                2 * y,
                c,
            ) + nearest_byte(src, w, h, 2 * x, 2 * y + 1, c) + nearest_byte(
                src,
                w,
                h,
                2 * x + 1,
                2 * y + 1,
                c,
            );
            4 * value <= sum < 4 * value + 4
        }),
{
    let (w, h) = (width as int, height as int);
    index_of_texel(new_width as int, new_height as int, x, y, c);
    assert forall|k: int| 0 <= k < 4 implies #[trigger] block_channel(src, w, h, x, y, k, c)
        == nearest_byte(src, w, h, 2 * x + k % 2, 2 * y + k / 2, c) by {
        texel_bytes_are_channels(
            src,
            w,
            clamped_coordinate(2 * x + k % 2, w),
            clamped_coordinate(2 * y + k / 2, h),
            c,
        );
    }
    assert(block_channel(src, w, h, x, y, 0, c) == nearest_byte(src, w, h, 2 * x, 2 * y, c));
    assert(block_channel(src, w, h, x, y, 1, c) == nearest_byte(src, w, h, 2 * x + 1, 2 * y, c));
    assert(block_channel(src, w, h, x, y, 2, c) == nearest_byte(src, w, h, 2 * x, 2 * y + 1, c));
    assert(block_channel(src, w, h, x, y, 3, c) == nearest_byte(
        src,
        w,
        h,
        2 * x + 1,
        2 * y + 1,
        c,
    ));
    let sum = block_channel(src, w, h, x, y, 0, c) + block_channel(src, w, h, x, y, 1, c)
        + block_channel(src, w, h, x, y, 2, c) + block_channel(src, w, h, x, y, 3, c);
    assert(0 <= sum / 4 <= 255);
    let i = 4 * (new_width * y + x) + c;
    assert(averaged(src, width, height, new_width, new_height)[i] == (sum / 4) as u8);
}

/// A texel of a mip level that is filtered is what the filter makes of the four
/// texels at twice its coordinates, to the right, below and diagonally, with the
/// edges repeated.
pub proof fn filtered_texels_see_their_corner<F: Fn(MipSemantic, [[u8; 4]; 4]) -> [u8; 4]>(
    filter: F,
    semantic: MipSemantic,
    src: Seq<u8>,
    width: u32,
    height: u32,
    new_width: u32,
    new_height: u32,
    out: Seq<u8>,
    x: int,
    y: int,
)
    requires
        semantic != MipSemantic::Legacy,
        is_filtered(filter, semantic, src, width, height, new_width, new_height, out),
        0 <= x < new_width,
        0 <= y < new_height,
    ensures
        exists|block: [[u8; 4]; 4], texel: [u8; 4]| #[trigger]
            call_ensures(filter, (semantic, block), texel) && {
                let (w, h) = (width as int, height as int);
                forall|c: int|
                    0 <= c < 4 ==> {
                        &&& #[trigger] texel@[c] == texel_byte(out, new_width as int, x, y, c)
                        &&& block@[0]@[c] == nearest_byte(src, w, h, 2 * x, 2 * y, c)
                        &&& block@[1]@[c] == nearest_byte(src, w, h, 2 * x + 1, 2 * y, c)
                        &&& block@[2]@[c] == nearest_byte(src, w, h, 2 * x, 2 * y + 1, c)
                        &&& block@[3]@[c] == nearest_byte(src, w, h, 2 * x + 1, 2 * y + 1, c)
                    }
            },
{
    let (w, h) = (width as int, height as int);
    let t = new_width * y + x;
    index_of_texel(new_width as int, new_height as int, x, y, 0);
    assert(0 <= t < new_width * new_height);
    assert(is_filtered_texel(filter, semantic, src, width, height, new_width, out, t));
    let (block, texel) = choose|block: [[u8; 4]; 4], texel: [u8; 4]|
        is_block(src, width, height, t % (new_width as int), t / (new_width as int), block)
            && #[trigger] call_ensures(filter, (semantic, block), texel) && texel@ =~= out.subrange(
            4 * t,
            4 * t + 4,
        );
    assert(t % (new_width as int) == x && t / (new_width as int) == y);
    assert(call_ensures(filter, (semantic, block), texel));
    assert forall|c: int| 0 <= c < 4 implies {
        &&& #[trigger] texel@[c] == texel_byte(out, new_width as int, x, y, c)
        &&& block@[0]@[c] == nearest_byte(src, w, h, 2 * x, 2 * y, c)
        &&& block@[1]@[c] == nearest_byte(src, w, h, 2 * x + 1, 2 * y, c)
        &&& block@[2]@[c] == nearest_byte(src, w, h, 2 * x, 2 * y + 1, c)
        &&& block@[3]@[c] == nearest_byte(src, w, h, 2 * x + 1, 2 * y + 1, c)
    } by {
        assert(texel@[c] == out.subrange(4 * t, 4 * t + 4)[c]);
        assert forall|k: int| 0 <= k < 4 implies #[trigger] block@[k]@[c] == nearest_byte(
            src,
            w,
            h,
            2 * x + k % 2,
            2 * y + k / 2,
            c,
        ) by {
            texel_bytes_are_channels(
                src,
                w,
                clamped_coordinate(2 * x + k % 2, w),
                clamped_coordinate(2 * y + k / 2, h),
                c,
            );
        }
        assert(block@[0]@[c] == nearest_byte(src, w, h, 2 * x + 0, 2 * y + 0, c));
        assert(block@[1]@[c] == nearest_byte(src, w, h, 2 * x + 1, 2 * y + 0, c));
        assert(block@[2]@[c] == nearest_byte(src, w, h, 2 * x + 0, 2 * y + 1, c));
        assert(block@[3]@[c] == nearest_byte(src, w, h, 2 * x + 1, 2 * y + 1, c));
    }
}

/// The first mip level has the size of the texture, each other half the sides
/// of the one before it, rounded down but not to zero.
pub proof fn mip_levels_halve(width: u32, height: u32, k: int)
    requires
        0 < width,
        0 < height,
        0 <= k < level_count(width, height, true),
    ensures
        ({
            let count = level_count(width, height, true);
            let sizes = level_sizes(width, height, count);
            &&& sizes.len() == count
            &&& sizes[0] == (width, height)
            &&& k + 1 < count ==> {
                &&& sizes[k + 1].0 == sizes[k].0 / 2 || (sizes[k].0 <= 1 && sizes[k + 1].0 == 1)
                &&& sizes[k + 1].1 == sizes[k].1 / 2 || (sizes[k].1 <= 1 && sizes[k + 1].1 == 1)
            }
        }),
{
    let count = level_count(width, height, true);
    levels_have_count(width, height, count);
    if k + 1 < count {
        levels_follow(width, height, count, k);
    }
}

/// A texture with mips has as many levels as its longer side has binary digits,
/// another has one.
pub proof fn mip_levels_are_counted(width: u32, height: u32)
    requires
        0 < width,
        0 < height,
    ensures
        level_count(width, height, false) == 1,
        ({
            let count = level_count(width, height, true);
            &&& count >= 1
            &&& width < two_to(count) && height < two_to(count)
            &&& two_to((count - 1) as nat) <= width || two_to((count - 1) as nat) <= height
        }),
{
    let longer = if width > height {
        width as nat
    } else {
        height as nat
    };
    digits_bound(longer);
}

proof fn digits_bound(value: nat)
    ensures
        value < two_to(bit_length(value)),
        value > 0 ==> bit_length(value) >= 1 && two_to((bit_length(value) - 1) as nat) <= value,
    decreases value,
{
    if value > 0 {
        digits_bound(value / 2);
        if value / 2 == 0 {
            assert(bit_length(0) == 0);
            assert(two_to(0) == 1);
        }
    }
}

/// Each texel keeps its color and opacity: a single channel is gray, the second
/// of two is opacity, and what the image lacks is opaque.
pub proof fn expanded_texels_keep_their_color(image: ImageData, t: int)
    requires
        0 <= t,
    ensures
        ({
            let pixels = image.pixels@;
            let rgba = rgba_of(image);
            match image.format {
                PixelFormat::R8G8B8A8 => rgba == pixels,
                PixelFormat::R8G8B8 => rgba.len() == 4 * (pixels.len() / 3) && (t < pixels.len() / 3
                    ==> {
                    &&& rgba[4 * t] == pixels[3 * t]
                    &&& rgba[4 * t + 1] == pixels[3 * t + 1]
                    &&& rgba[4 * t + 2] == pixels[3 * t + 2]
                    &&& rgba[4 * t + 3] == 0xff
                }),
                PixelFormat::R8G8 => rgba.len() == 4 * (pixels.len() / 2) && (t < pixels.len() / 2
                    ==> {
                    &&& rgba[4 * t] == pixels[2 * t]
                    &&& rgba[4 * t + 1] == pixels[2 * t]
                    &&& rgba[4 * t + 2] == pixels[2 * t]
                    &&& rgba[4 * t + 3] == pixels[2 * t + 1]
                }),
                PixelFormat::R8 => rgba.len() == 4 * pixels.len() && (t < pixels.len() ==> {
                    &&& rgba[4 * t] == pixels[t]
                    &&& rgba[4 * t + 1] == pixels[t]
                    &&& rgba[4 * t + 2] == pixels[t]
                    &&& rgba[4 * t + 3] == 0xff
                }),
                PixelFormat::Other => rgba.len() == image.width * image.height * 4 && (t
                    < rgba.len() ==> rgba[t] == 0x80),
            }
        }),
{
    assert(image.width * image.height >= 0) by (nonlinear_arith)
        requires
            image.width >= 0,
            image.height >= 0,
    ;
}

/// A texture that was asked for is there, under the slot that it had if it was
/// there before; the textures of other slots stay.
pub proof fn asked_textures_stay(cache: TextureCacheView, key: TextureKey, slot: int)
    requires
        0 <= slot < cache.keys.len(),
    ensures
        with_texture(cache, key).keys.contains(key),
        with_texture(cache, key).keys[slot] == cache.keys[slot],
        with_texture(with_texture(cache, key), key).keys == with_texture(cache, key).keys,
        with_texture(with_texture(cache, key), key).hits == with_texture(cache, key).hits + 1,
        with_texture(cache, key).keys.len() + with_texture(cache, key).hits == cache.keys.len()
            + cache.hits + 1,
{
    let after = with_texture(cache, key);
    if !cache.keys.contains(key) {
        assert(after.keys[cache.keys.len() as int] == key);
    }
}

/// The first mip level of a texture holds its texels, and a texel of each other
/// is what the filter makes of the four texels of the level before that it
/// covers.
pub proof fn mip_levels_are_filtered_from_the_level_before<
    F: Fn(MipSemantic, [[u8; 4]; 4]) -> [u8; 4],
>(
    filter: F,
    semantic: MipSemantic,
    rgba: Seq<u8>,
    sizes: Seq<(u32, u32)>,
    levels: Seq<Seq<u8>>,
    k: int,
    x: int,
    y: int,
)
    requires
        are_levels(filter, semantic, rgba, sizes, levels),
        semantic != MipSemantic::Legacy,
        0 <= k < sizes.len() - 1,
        0 <= x < sizes[k + 1].0,
        0 <= y < sizes[k + 1].1,
    ensures
        levels.len() == sizes.len(),
        levels[0] == rgba,
        exists|block: [[u8; 4]; 4], texel: [u8; 4]| #[trigger]
            call_ensures(filter, (semantic, block), texel) && {
                let (w, h) = (sizes[k].0 as int, sizes[k].1 as int);
                forall|c: int|
                    0 <= c < 4 ==> {
                        &&& #[trigger] texel@[c] == texel_byte(
                            levels[k + 1],
                            sizes[k + 1].0 as int,
                            x,
                            y,
                            c,
                        )
                        &&& block@[0]@[c] == nearest_byte(levels[k], w, h, 2 * x, 2 * y, c)
                        &&& block@[1]@[c] == nearest_byte(levels[k], w, h, 2 * x + 1, 2 * y, c)
                        &&& block@[2]@[c] == nearest_byte(levels[k], w, h, 2 * x, 2 * y + 1, c)
                        &&& block@[3]@[c] == nearest_byte(
                            levels[k],
                            w,
                            h,
                            2 * x + 1,
                            2 * y + 1,
                            c,
                        )
                    }
            },
{
    assert(is_next_level(filter, semantic, sizes, levels, k));
    filtered_texels_see_their_corner(
        filter,
        semantic,
        levels[k],
        sizes[k].0,
        sizes[k].1,
        sizes[k + 1].0,
        sizes[k + 1].1,
        levels[k + 1],
        x,
        y,
    );
}

proof fn filtered_sizes_fit<F: Fn(MipSemantic, [[u8; 4]; 4]) -> [u8; 4]>(
    filter: F,
    semantic: MipSemantic,
    pixels: Seq<u8>,
    width: u32,
    height: u32,
    limit: u32,
    image: (Seq<u8>, u32, u32),
)
    requires
        0 < limit,
        is_capped(filter, semantic, pixels, width, height, limit, image),
    ensures
        image.1 <= limit && image.2 <= limit,
        width <= limit && height <= limit ==> image == (pixels, width, height),
        width > limit || height > limit ==> 2 * image.1 > limit || 2 * image.2 > limit,
        image.1 <= width && image.2 <= height,
    decreases width + height,
{
    if width > limit || height > limit {
        let smaller = choose|smaller: Seq<u8>|
            #[trigger] is_filtered(
                filter,
                semantic,
                pixels,
                width,
                height,
                half_up(width),
                half_up(height),
                smaller,
            ) && is_capped(
                filter,
                semantic,
                smaller,
                half_up(width),
                half_up(height),
                limit,
                image,
            );
        filtered_sizes_fit(
            filter,
            semantic,
            smaller,
            half_up(width),
            half_up(height),
            limit,
            image,
        );
    }
}

/// A texture that is filtered down to its limit fits it; one that fits already
/// stays as it is, and another is halved no further than it has to.
pub proof fn filtered_textures_fit_their_limit<F: Fn(MipSemantic, [[u8; 4]; 4]) -> [u8; 4]>(
    filter: F,
    semantic: MipSemantic,
    pixels: Seq<u8>,
    width: u32,
    height: u32,
    limit: u32,
    image: (Seq<u8>, u32, u32),
)
    requires
        0 < limit,
        is_capped(filter, semantic, pixels, width, height, limit, image),
    ensures
        image.1 <= limit && image.2 <= limit,
        width <= limit && height <= limit ==> image == (pixels, width, height),
        width > limit || height > limit ==> 2 * image.1 > limit || 2 * image.2 > limit,
{
    filtered_sizes_fit(filter, semantic, pixels, width, height, limit, image);
}

} // verus!
