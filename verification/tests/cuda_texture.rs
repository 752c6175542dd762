use goldy::cuda::texture::{
    format_info, storage_shader_compatible, AddressMode, ArrayFormat, CompareFunction,
    CudaAddressMode, CudaFilterMode, CudaSamplerKey, CudaTexture, FilterMode, SamplerDesc,
    TextureError, TextureFormat, TextureKind,
};
use goldy::cuda::texture_objects::{plan_array, TextureObjects};

#[test]
fn rejects_bgra_formats() {
    assert!(format_info(TextureFormat::Bgra8Unorm).is_err());
    assert!(format_info(TextureFormat::Bgra8UnormSrgb).is_err());
}

#[test]
fn accepts_core_formats() {
    for format in [
        TextureFormat::R8Unorm,
        TextureFormat::Rg8Unorm,
        TextureFormat::Rgba8Unorm,
        TextureFormat::Rgba8UnormSrgb,
        TextureFormat::Rgba16Float,
        TextureFormat::Rgba32Float,
    ] {
        format_info(format).unwrap();
    }
}

#[test]
fn storage_compat_size_matched_pairs() {
    assert!(storage_shader_compatible("float4", TextureFormat::Rgba32Float));
    assert!(storage_shader_compatible("half4", TextureFormat::Rgba16Float));
    assert!(storage_shader_compatible("uint8_t4", TextureFormat::Rgba8Unorm));
    assert!(storage_shader_compatible("vector<uint8_t, 4>", TextureFormat::Rgba8Unorm));
    // Mismatched sizes / types must stay rejected (no typed UAV conversion).
    assert!(!storage_shader_compatible("float4", TextureFormat::Rgba8Unorm));
    assert!(!storage_shader_compatible("float4", TextureFormat::Rgba16Float));
    assert!(!storage_shader_compatible("half4", TextureFormat::Rgba32Float));
    assert!(!storage_shader_compatible("uint8_t4", TextureFormat::Rgba32Float));
    assert!(!storage_shader_compatible("uchar4", TextureFormat::Rgba8Unorm));
    assert!(!storage_shader_compatible("float", TextureFormat::Rgba32Float));
}

#[test]
fn sampler_rejects_compare_and_split_filters() {
    let mut desc = SamplerDesc::default();
    desc.compare = Some(CompareFunction::Less);
    assert!(CudaSamplerKey::from_desc(&desc).is_err());

    desc = SamplerDesc::default();
    desc.mag_filter = FilterMode::Linear;
    desc.min_filter = FilterMode::Nearest;
    assert!(CudaSamplerKey::from_desc(&desc).is_err());
}

#[test]
fn sampler_maps_linear_repeat() {
    let key = CudaSamplerKey::from_desc(&SamplerDesc {
        mag_filter: FilterMode::Linear,
        min_filter: FilterMode::Linear,
        mipmap_filter: FilterMode::Linear,
        address_mode_u: AddressMode::Repeat,
        address_mode_v: AddressMode::Repeat,
        address_mode_w: AddressMode::Repeat,
        ..Default::default()
    })
    .unwrap();
    assert_eq!(key.filter, CudaFilterMode::Linear);
    assert_eq!(key.address_u, CudaAddressMode::Wrap);
}

#[test]
fn arrays_are_planned_from_formats() {
    let plain = plan_array(4, 2, TextureFormat::Rg8Unorm, false).unwrap();
    assert_eq!((plain.width, plain.height, plain.num_channels), (4, 2, 2));
    assert_eq!((plain.format, plain.surface_flags), (ArrayFormat::UnormInt8X2, None));
    let surface = plan_array(4, 2, TextureFormat::Rgba16Float, true).unwrap();
    assert_eq!((surface.format, surface.surface_flags), (ArrayFormat::Half, Some(2)));
    assert_eq!(
        plan_array(4, 2, TextureFormat::Bgra8Unorm, true),
        Err(TextureError::UnsupportedFormat { format: TextureFormat::Bgra8Unorm })
    );
}

#[test]
fn objects_are_made_once_and_drained() {
    let mut objects = TextureObjects::new();
    let nearest = CudaSamplerKey::nearest_clamp();
    let linear = CudaSamplerKey { filter: CudaFilterMode::Linear, ..nearest };
    assert_eq!(nearest.to_texture_desc(false).flags, 2);
    assert_eq!(linear.to_texture_desc(true).flags, 18);
    assert_eq!(linear.to_texture_desc(true).filter, CudaFilterMode::Linear);
    assert_eq!(objects.tex_object(nearest), None);
    objects.keep_tex_object(nearest, 11);
    objects.keep_tex_object(linear, 12);
    assert_eq!(objects.tex_object(nearest), Some(11));
    assert_eq!(objects.tex_object(linear), Some(12));
    let direct = CudaTexture::create(
        1,
        4,
        4,
        TextureFormat::Rgba8Unorm,
        TextureKind::Direct,
        false,
        None,
        None,
    )
    .unwrap()
    .0;
    let sampled = CudaTexture { kind: TextureKind::Interpolated, ..direct };
    assert_eq!(
        objects.surf_object(&sampled),
        Err(TextureError::NoSurfaceView { kind: TextureKind::Interpolated })
    );
    assert_eq!(objects.surf_object(&direct), Ok(None));
    objects.keep_surf_object(13);
    assert_eq!(objects.surf_object(&direct), Ok(Some(13)));
    assert_eq!(objects.drain(), (vec![11, 12], Some(13)));
    assert_eq!(objects.drain(), (vec![], None));
}
