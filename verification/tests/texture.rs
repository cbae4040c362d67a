use pocket3d::import::{ImageData, PixelFormat};
use pocket3d::material::{
    GltfSampler, TextureColorSpace, TextureInfo, TextureRole, TextureTransform,
};
use pocket3d::texture::{
    cap_texture_rgba, cap_texture_rgba_semantic, downsample_legacy, downsample_rgba,
    downsample_semantic, mip_sizes, mtoon_texture_semantic, to_rgba8, MipSemantic,
    ModelTextureCache, ModelTextureCacheKey,
};

fn srgb_to_linear(encoded: f32) -> f32 {
    if encoded <= 0.04045 {
        encoded / 12.92
    } else {
        ((encoded + 0.055) / 1.055).powf(2.4)
    }
}

fn linear_to_srgb(linear: f32) -> f32 {
    if linear <= 0.0031308 {
        linear * 12.92
    } else {
        1.055 * linear.powf(1.0 / 2.4) - 0.055
    }
}

/// The mean of four texels, taken in the space that the semantic asks for.
fn filter(semantic: MipSemantic, texels: [[u8; 4]; 4]) -> [u8; 4] {
    let mut mean = [0.0f32; 4];
    for texel in texels {
        for c in 0..4 {
            let value = texel[c] as f32 / 255.0;
            mean[c] += match semantic {
                MipSemantic::SrgbColor if c < 3 => srgb_to_linear(value),
                MipSemantic::TangentNormal if c < 3 => value * 2.0 - 1.0,
                _ => value,
            };
        }
    }
    let mut filtered = mean.map(|value| value * 0.25);
    if semantic == MipSemantic::TangentNormal {
        let length = (filtered[0] * filtered[0]
            + filtered[1] * filtered[1]
            + filtered[2] * filtered[2])
            .sqrt();
        if length > 1e-6 {
            for value in &mut filtered[..3] {
                *value /= length;
            }
        } else {
            filtered[..3].copy_from_slice(&[0.0, 0.0, 1.0]);
        }
    }
    let mut out = [0u8; 4];
    for c in 0..4 {
        let value = match semantic {
            MipSemantic::SrgbColor if c < 3 => linear_to_srgb(filtered[c]),
            MipSemantic::TangentNormal if c < 3 => filtered[c] * 0.5 + 0.5,
            _ => filtered[c],
        };
        out[c] = (value.clamp(0.0, 1.0) * 255.0).round() as u8;
    }
    out
}

#[test]
fn semantic_mips_filter_color_alpha_data_and_normals() {
    let color = [
        0, 0, 0, 0, 255, 255, 255, 255, 0, 0, 0, 0, 255, 255, 255, 255,
    ];
    let srgb = downsample_semantic(&color, 2, 2, 1, 1, MipSemantic::SrgbColor, &filter);
    let data = downsample_semantic(&color, 2, 2, 1, 1, MipSemantic::LinearData, &filter);
    assert!((srgb[0] as i32 - 188).abs() <= 1);
    assert_eq!(srgb[3], 128);
    assert_eq!(data[0], 128);
    let normals = [
        255, 128, 128, 255, 128, 255, 128, 255, 128, 128, 255, 255, 128, 128, 255, 255,
    ];
    let mip = downsample_semantic(&normals, 2, 2, 1, 1, MipSemantic::TangentNormal, &filter);
    let v: Vec<f32> = mip[..3]
        .iter()
        .map(|byte| *byte as f32 / 255.0 * 2.0 - 1.0)
        .collect();
    let length = v
        .iter()
        .map(|component| component * component)
        .sum::<f32>()
        .sqrt();
    assert!((length - 1.0).abs() < 0.02);
}

#[test]
fn legacy_mips_round_the_mean_down() {
    let px = [1, 2, 3, 4, 2, 2, 3, 4, 1, 3, 3, 5, 2, 2, 3, 6];
    assert_eq!(downsample_legacy(&px, 2, 2, 1, 1), vec![1, 2, 3, 4]);
    let flat = |_: MipSemantic, _: [[u8; 4]; 4]| [9u8; 4];
    assert_eq!(
        downsample_semantic(&px, 2, 2, 1, 1, MipSemantic::Legacy, &flat),
        vec![1, 2, 3, 4]
    );
    assert_eq!(
        downsample_semantic(&px, 2, 2, 1, 1, MipSemantic::LinearData, &flat),
        vec![9; 4]
    );
}

#[test]
fn mip_chains_halve_to_one_texel() {
    assert_eq!(
        mip_sizes(8, 3, true),
        vec![(8, 3), (4, 1), (2, 1), (1, 1)]
    );
    assert_eq!(mip_sizes(8, 3, false), vec![(8, 3)]);
    assert_eq!(mip_sizes(1, 1, true), vec![(1, 1)]);
}

#[test]
fn capped_textures_fit_their_limit() {
    let rgba: Vec<u8> = (0..4 * 4 * 4).map(|i| i as u8).collect();
    let (capped, width, height) = cap_texture_rgba(rgba.clone(), 4, 4, Some(2));
    assert_eq!((width, height), (2, 2));
    assert_eq!(capped, downsample_rgba(&rgba, 4, 4));
    assert_eq!(
        cap_texture_rgba(rgba.clone(), 4, 4, None),
        (rgba.clone(), 4, 4)
    );
    let wide: Vec<u8> = vec![200; 8 * 4];
    assert_eq!(
        cap_texture_rgba(wide, 8, 1, Some(3)),
        (vec![200; 2 * 4], 2, 1)
    );
    let (capped, width, height) =
        cap_texture_rgba_semantic(rgba, 4, 4, Some(1), MipSemantic::LinearData, &filter);
    assert_eq!((capped.len(), width, height), (4, 1, 1));
}

#[test]
fn images_expand_to_four_channels() {
    let image = |format, pixels: Vec<u8>| ImageData {
        width: 2,
        height: 1,
        format,
        pixels,
    };
    assert_eq!(
        to_rgba8(&image(PixelFormat::R8G8B8, vec![1, 2, 3, 4, 5, 6])),
        vec![1, 2, 3, 255, 4, 5, 6, 255]
    );
    assert_eq!(
        to_rgba8(&image(PixelFormat::R8G8B8A8, vec![1, 2, 3, 4, 5, 6, 7, 8])),
        vec![1, 2, 3, 4, 5, 6, 7, 8]
    );
}

#[test]
fn texture_cache_key_uses_exact_pixels_and_dimensions() {
    let key = |width, height, rgba: &[u8], color_space| ModelTextureCacheKey {
        width,
        height,
        rgba: rgba.to_vec(),
        color_space,
        mip_semantic: MipSemantic::Legacy,
    };
    let reference = key(2, 1, &[1, 2, 3, 4, 5, 6, 7, 8], TextureColorSpace::Srgb);
    let same = key(2, 1, &[1, 2, 3, 4, 5, 6, 7, 8], TextureColorSpace::Srgb);
    assert!(reference == same && reference.same(&same));
    assert!(reference != key(1, 2, &[1, 2, 3, 4, 5, 6, 7, 8], TextureColorSpace::Srgb));
    assert!(reference != key(2, 1, &[1, 2, 3, 4, 5, 6, 7, 9], TextureColorSpace::Srgb));
    assert!(reference != key(2, 1, &[1, 2, 3, 4, 5, 6, 7, 8], TextureColorSpace::Linear));
    let with_semantic = |color_space, mip_semantic| ModelTextureCacheKey {
        mip_semantic,
        ..key(2, 1, &[1, 2, 3, 4, 5, 6, 7, 8], color_space)
    };
    let color = with_semantic(TextureColorSpace::Srgb, MipSemantic::SrgbColor);
    let normal = with_semantic(TextureColorSpace::Linear, MipSemantic::TangentNormal);
    let shift = with_semantic(TextureColorSpace::Linear, MipSemantic::LinearData);
    assert!(color != normal && !color.same(&normal));
    assert!(normal != shift && !normal.same(&shift));
}

#[test]
fn equal_images_share_a_slot() {
    let mut cache = ModelTextureCache::new();
    assert!(cache.is_empty());
    let pixels = vec![1, 2, 3, 4];
    assert_eq!(
        cache.get_or_upload(1, 1, pixels.clone(), TextureColorSpace::Srgb),
        (0, true)
    );
    assert_eq!(
        cache.get_or_upload(1, 1, pixels.clone(), TextureColorSpace::Linear),
        (1, true)
    );
    assert_eq!(
        cache.get_or_upload(1, 1, pixels.clone(), TextureColorSpace::Srgb),
        (0, false)
    );
    assert_eq!(
        cache.get_or_upload_semantic(ModelTextureCacheKey {
            width: 1,
            height: 1,
            rgba: pixels,
            color_space: TextureColorSpace::Srgb,
            mip_semantic: MipSemantic::SrgbColor,
        }),
        (2, true)
    );
    assert_eq!(cache.len(), 3);
    assert_eq!(cache.hit_count(), 1);
}

#[test]
fn texture_semantics_follow_roles() {
    let info = |role: TextureRole| TextureInfo {
        texture_index: 0,
        image_index: 0,
        sampler: GltfSampler::default(),
        tex_coord: 0,
        transform: TextureTransform::default(),
        role,
        color_space: role.color_space(),
    };
    assert_eq!(
        mtoon_texture_semantic(&info(TextureRole::Normal)),
        MipSemantic::TangentNormal
    );
    for role in [
        TextureRole::BaseColor,
        TextureRole::Emissive,
        TextureRole::Matcap,
        TextureRole::RimMultiply,
    ] {
        assert_eq!(mtoon_texture_semantic(&info(role)), MipSemantic::SrgbColor);
    }
    for role in [
        TextureRole::ShadingShift,
        TextureRole::OutlineWidth,
        TextureRole::UvAnimationMask,
    ] {
        assert_eq!(mtoon_texture_semantic(&info(role)), MipSemantic::LinearData);
    }
}
