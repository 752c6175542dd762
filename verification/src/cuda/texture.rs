//! CUDA arrays and the texture and surface objects over them: formats, samplers,
//! regions and copies.

use vstd::prelude::*;

verus! {

/// Texture formats of the runtime.
#[derive(Clone, Copy, Debug, PartialEq, Eq, Structural)]
pub enum TextureFormat {
    R8Unorm,
    Rg8Unorm,
    Rgba8Unorm,
    Rgba8UnormSrgb,
    Rgba16Float,
    Rgba32Float,
    Bgra8Unorm,
    Bgra8UnormSrgb,
}

impl TextureFormat {
    /// The name of the format.
    pub open spec fn label(self) -> Seq<char> {
        match self {
            TextureFormat::R8Unorm => "R8Unorm"@,
            TextureFormat::Rg8Unorm => "Rg8Unorm"@,
            TextureFormat::Rgba8Unorm => "Rgba8Unorm"@,
            TextureFormat::Rgba8UnormSrgb => "Rgba8UnormSrgb"@,
            TextureFormat::Rgba16Float => "Rgba16Float"@,
            TextureFormat::Rgba32Float => "Rgba32Float"@,
            TextureFormat::Bgra8Unorm => "Bgra8Unorm"@,
            TextureFormat::Bgra8UnormSrgb => "Bgra8UnormSrgb"@,
        }
    }

    /// The name of the format.
    pub fn name(&self) -> (text: &'static str)
        ensures
            text@ == self.label(),
    {
        match self {
            TextureFormat::R8Unorm => "R8Unorm",
            TextureFormat::Rg8Unorm => "Rg8Unorm",
            TextureFormat::Rgba8Unorm => "Rgba8Unorm",
            TextureFormat::Rgba8UnormSrgb => "Rgba8UnormSrgb",
            TextureFormat::Rgba16Float => "Rgba16Float",
            TextureFormat::Rgba32Float => "Rgba32Float",
            TextureFormat::Bgra8Unorm => "Bgra8Unorm",
            TextureFormat::Bgra8UnormSrgb => "Bgra8UnormSrgb",
        }
    }

    /// Bytes of one pixel.
    pub open spec fn pixel_bytes(self) -> u32 {
        match self {
            TextureFormat::R8Unorm => 1,
            TextureFormat::Rg8Unorm => 2,
            TextureFormat::Rgba8Unorm => 4,
            TextureFormat::Rgba8UnormSrgb => 4,
            TextureFormat::Rgba16Float => 8,
            TextureFormat::Rgba32Float => 16,
            TextureFormat::Bgra8Unorm => 4,
            TextureFormat::Bgra8UnormSrgb => 4,
        }
    }

    /// Bytes of one pixel.
    pub fn bytes_per_pixel(self) -> (bytes: u32)
        ensures
            bytes == self.pixel_bytes(),
            1 <= bytes <= 16,
    {
        match self {
            TextureFormat::R8Unorm => 1,
            TextureFormat::Rg8Unorm => 2,
            TextureFormat::Rgba8Unorm => 4,
            TextureFormat::Rgba8UnormSrgb => 4,
            TextureFormat::Rgba16Float => 8,
            TextureFormat::Rgba32Float => 16,
            TextureFormat::Bgra8Unorm => 4,
            TextureFormat::Bgra8UnormSrgb => 4,
        }
    }
}

/// Element formats of CUDA arrays.
#[derive(Clone, Copy, Debug, PartialEq, Eq, Structural)]
pub enum ArrayFormat {
    UnormInt8X1,
    UnormInt8X2,
    UnormInt8X4,
    Half,
    Float,
}

/// A texture format as CUDA has it.
#[derive(Clone, Copy, Debug, PartialEq, Eq, Structural)]
pub struct CudaFormatInfo {
    pub array_format: ArrayFormat,
    pub num_channels: u32,
    pub bytes_per_pixel: u32,
    pub srgb: bool,
}

/// Why a texture operation is refused.
#[derive(Clone, Copy, Debug, PartialEq, Eq, Structural)]
pub enum TextureError {
    UnsupportedFormat { format: TextureFormat },
    ComparisonSampling,
    SplitFilters { mag: FilterMode, min: FilterMode },
    ZeroDimensions,
    RenderTarget,
    NullArray,
    NoSurfaceView { kind: TextureKind },
    PitchTooSmall { pitch: u32, tight: u32 },
    UploadTooSmall { len: u64, needed: u64 },
    EmptyRegion,
    RegionOutOfBounds,
    DownloadLength { len: u64, expected: u64 },
    SizeMismatch,
    FormatMismatch,
}

/// The array format of a texture format. CUDA arrays have no channel order that
/// matches the BGRA formats.
pub open spec fn cuda_format(format: TextureFormat) -> Result<CudaFormatInfo, TextureError> {
    let bytes_per_pixel = format.pixel_bytes();
    match format {
        TextureFormat::R8Unorm => Ok(
            CudaFormatInfo {
                array_format: ArrayFormat::UnormInt8X1,
                num_channels: 1,
                bytes_per_pixel,
                srgb: false,
            },
        ),
        TextureFormat::Rg8Unorm => Ok(
            CudaFormatInfo {
                array_format: ArrayFormat::UnormInt8X2,
                num_channels: 2,
                bytes_per_pixel,
                srgb: false,
            },
        ),
        TextureFormat::Rgba8Unorm => Ok(
            CudaFormatInfo {
                array_format: ArrayFormat::UnormInt8X4,
                num_channels: 4,
                bytes_per_pixel,
                srgb: false,
            },
        ),
        TextureFormat::Rgba8UnormSrgb => Ok(
            CudaFormatInfo {
                array_format: ArrayFormat::UnormInt8X4,
                num_channels: 4,
                bytes_per_pixel,
                srgb: true,
            },
        ),
        TextureFormat::Rgba16Float => Ok(
            CudaFormatInfo {
                array_format: ArrayFormat::Half,
                num_channels: 4,
                bytes_per_pixel,
                srgb: false,
            },
        ),
        TextureFormat::Rgba32Float => Ok(
            CudaFormatInfo {
                array_format: ArrayFormat::Float,
                num_channels: 4,
                bytes_per_pixel,
                srgb: false,
            },
        ),
        TextureFormat::Bgra8Unorm => Err(TextureError::UnsupportedFormat { format }),
        TextureFormat::Bgra8UnormSrgb => Err(TextureError::UnsupportedFormat { format }),
    }
}

/// Maps a texture format to a CUDA array format, or rejects it.
pub fn format_info(format: TextureFormat) -> (info: Result<CudaFormatInfo, TextureError>)
    ensures
        info == cuda_format(format),
{
    let bytes_per_pixel: u32 = format.bytes_per_pixel();
    let (array_format, num_channels, srgb): (ArrayFormat, u32, bool) = match format {
        TextureFormat::R8Unorm => (ArrayFormat::UnormInt8X1, 1, false),
        TextureFormat::Rg8Unorm => (ArrayFormat::UnormInt8X2, 2, false),
        TextureFormat::Rgba8Unorm => (ArrayFormat::UnormInt8X4, 4, false),
        TextureFormat::Rgba8UnormSrgb => (ArrayFormat::UnormInt8X4, 4, true),
        TextureFormat::Rgba16Float => (ArrayFormat::Half, 4, false),
        TextureFormat::Rgba32Float => (ArrayFormat::Float, 4, false),
        TextureFormat::Bgra8Unorm => {
            return Err(TextureError::UnsupportedFormat { format });
        },
        TextureFormat::Bgra8UnormSrgb => {
            return Err(TextureError::UnsupportedFormat { format });
        },
    };
    Ok(CudaFormatInfo { array_format, num_channels, bytes_per_pixel, srgb })
}

/// Unicode white space.
pub open spec fn is_space(c: char) -> bool {
    let n = c as u32;
    ||| 0x9 <= n <= 0xd
    ||| n == 0x20
    ||| n == 0x85
    ||| n == 0xa0
    ||| n == 0x1680
    ||| 0x2000 <= n <= 0x200a
    ||| n == 0x2028
    ||| n == 0x2029
    ||| n == 0x202f
    ||| n == 0x205f
    ||| n == 0x3000
}

fn is_white_space(c: char) -> (space: bool)
    ensures
        space == is_space(c),
{
    let n: u32 = c as u32;
    (0x9 <= n && n <= 0xd) || n == 0x20 || n == 0x85 || n == 0xa0 || n == 0x1680 || (0x2000 <= n && n
        <= 0x200a) || n == 0x2028 || n == 0x2029 || n == 0x202f || n == 0x205f || n == 0x3000
}

/// First place from `i` on that is not white space.
pub open spec fn skip_space(s: Seq<char>, i: int) -> int
    decreases s.len() - i,
{
    if 0 <= i < s.len() && is_space(s[i]) {
        skip_space(s, i + 1)
    } else {
        i
    }
}

/// End of `s` up to `j` without the white space before `j`.
pub open spec fn drop_space(s: Seq<char>, j: int) -> int
    decreases j,
{
    if 0 < j <= s.len() && is_space(s[j - 1]) {
        drop_space(s, j - 1)
    } else {
        j
    }
}

/// `s` without white space at either end.
pub open spec fn trimmed(s: Seq<char>) -> Seq<char> {
    let a = skip_space(s, 0);
    let b = drop_space(s, s.len() as int);
    if a <= b {
        s.subrange(a, b)
    } else {
        Seq::empty()
    }
}

/// The element type of a storage texture in a shader matches the format: the two
/// have the same bytes, since surface stores do not convert.
pub open spec fn element_matches(element: Seq<char>, format: TextureFormat) -> bool {
    match format {
        TextureFormat::Rgba32Float => element == "float4"@,
        TextureFormat::Rgba16Float => element == "half4"@,
        TextureFormat::Rgba8Unorm => element == "uint8_t4"@ || element == "vector<uint8_t, 4>"@
            || element == "vector<uint8_t,4>"@,
        _ => false,
    }
}

fn matches_between(text: &str, from: usize, to: usize, word: &str) -> (equal: bool)
    requires
        from <= to <= text@.len(),
    ensures
        equal == (text@.subrange(from as int, to as int) == word@),
{
    let n: usize = word.unicode_len();
    if to - from != n {
        return false;
    }
    let mut i: usize = 0;
    while i < n
        invariant
            i <= n,
            n == word@.len(),
            to - from == n,
            from <= to <= text@.len(),
            forall|j: int| 0 <= j < i ==> text@[from + j] == #[trigger] word@[j],
        decreases n - i,
    {
        if text.get_char(from + i) != word.get_char(i) {
            assert(text@.subrange(from as int, to as int)[i as int] != word@[i as int]);
            return false;
        }
        i += 1;
    }
    assert(text@.subrange(from as int, to as int) =~= word@);
    true
}

/// Whether a storage parameter of a shader with this element type can write a
/// texture of this format.
pub fn storage_shader_compatible(element: &str, format: TextureFormat) -> (compatible: bool)
    ensures
        compatible == element_matches(trimmed(element@), format),
{
    let len: usize = element.unicode_len();
    let mut a: usize = 0;
    while a < len && is_white_space(element.get_char(a))
        invariant
            a <= len,
            len == element@.len(),
            skip_space(element@, 0) == skip_space(element@, a as int),
        decreases len - a,
    {
        a += 1;
    }
    let mut b: usize = len;
    while b > 0 && is_white_space(element.get_char(b - 1))
        invariant
            b <= len,
            len == element@.len(),
            drop_space(element@, len as int) == drop_space(element@, b as int),
        decreases b,
    {
        b -= 1;
    }
    if a > b {
        a = b;
    }
    assert(trimmed(element@) =~= element@.subrange(a as int, b as int));
    match format {
        TextureFormat::Rgba32Float => matches_between(element, a, b, "float4"),
        TextureFormat::Rgba16Float => matches_between(element, a, b, "half4"),
        TextureFormat::Rgba8Unorm => matches_between(element, a, b, "uint8_t4")
            || matches_between(element, a, b, "vector<uint8_t, 4>")
            || matches_between(element, a, b, "vector<uint8_t,4>"),
        _ => false,
    }
}

/// How a texture is filtered.
#[derive(Clone, Copy, Debug, PartialEq, Eq, Structural)]
pub enum FilterMode {
    Nearest,
    Linear,
}

/// What lies beyond the edge of a texture.
#[derive(Clone, Copy, Debug, PartialEq, Eq, Structural)]
pub enum AddressMode {
    ClampToEdge,
    Repeat,
    MirrorRepeat,
}

/// Comparison of a depth sampler.
#[derive(Clone, Copy, Debug, PartialEq, Eq, Structural)]
pub enum CompareFunction {
    Never,
    Less,
    Equal,
    LessEqual,
    Greater,
    NotEqual,
    GreaterEqual,
    Always,
}

/// Sampler settings. The level-of-detail clamps are the bits of their numbers, and
/// the anisotropy is a whole number of at least one.
#[derive(Clone, Copy, Debug, PartialEq, Eq, Structural)]
pub struct SamplerDesc {
    pub mag_filter: FilterMode,
    pub min_filter: FilterMode,
    pub mipmap_filter: FilterMode,
    pub address_mode_u: AddressMode,
    pub address_mode_v: AddressMode,
    pub address_mode_w: AddressMode,
    pub compare: Option<CompareFunction>,
    pub max_anisotropy: u32,
    pub lod_min_bits: u32,
    pub lod_max_bits: u32,
}

/// Address modes of CUDA texture objects.
#[derive(Clone, Copy, Debug, PartialEq, Eq, Structural)]
pub enum CudaAddressMode {
    Wrap,
    Clamp,
    Mirror,
}

/// Filter modes of CUDA texture objects.
#[derive(Clone, Copy, Debug, PartialEq, Eq, Structural)]
pub enum CudaFilterMode {
    Point,
    Linear,
}

/// Sampler settings that one CUDA texture object can hold.
#[derive(Clone, Copy, Debug, PartialEq, Eq, Structural)]
pub struct CudaSamplerKey {
    pub address_u: CudaAddressMode,
    pub address_v: CudaAddressMode,
    pub address_w: CudaAddressMode,
    pub filter: CudaFilterMode,
    pub mip_filter: CudaFilterMode,
    pub max_anisotropy: u32,
    pub lod_min_bits: u32,
    pub lod_max_bits: u32,
}

/// The driver's name for an address mode.
pub open spec fn cuda_address(mode: AddressMode) -> CudaAddressMode {
    match mode {
        AddressMode::ClampToEdge => CudaAddressMode::Clamp,
        AddressMode::Repeat => CudaAddressMode::Wrap,
        AddressMode::MirrorRepeat => CudaAddressMode::Mirror,
    }
}

/// The driver's name for a filter.
pub open spec fn cuda_filter(mode: FilterMode) -> CudaFilterMode {
    match mode {
        FilterMode::Nearest => CudaFilterMode::Point,
        FilterMode::Linear => CudaFilterMode::Linear,
    }
}

/// Names an address mode to the driver.
pub fn map_address(mode: AddressMode) -> (mapped: CudaAddressMode)
    ensures
        mapped == cuda_address(mode),
{
    match mode {
        AddressMode::ClampToEdge => CudaAddressMode::Clamp,
        AddressMode::Repeat => CudaAddressMode::Wrap,
        AddressMode::MirrorRepeat => CudaAddressMode::Mirror,
    }
}

/// Names a filter to the driver.
pub fn map_filter(mode: FilterMode) -> (mapped: CudaFilterMode)
    ensures
        mapped == cuda_filter(mode),
{
    match mode {
        FilterMode::Nearest => CudaFilterMode::Point,
        FilterMode::Linear => CudaFilterMode::Linear,
    }
}

/// The bits of the default upper level-of-detail clamp, which is 32.
pub const DEFAULT_LOD_MAX_BITS: u32 = 0x4200_0000;

/// The default sampler settings: nearest, clamped, without comparison.
pub open spec fn default_sampler() -> SamplerDesc {
    SamplerDesc {
        mag_filter: FilterMode::Nearest,
        min_filter: FilterMode::Nearest,
        mipmap_filter: FilterMode::Nearest,
        address_mode_u: AddressMode::ClampToEdge,
        address_mode_v: AddressMode::ClampToEdge,
        address_mode_w: AddressMode::ClampToEdge,
        compare: None,
        max_anisotropy: 1,
        lod_min_bits: 0,
        lod_max_bits: DEFAULT_LOD_MAX_BITS,
    }
}

impl Default for SamplerDesc {
    fn default() -> (desc: SamplerDesc)
        ensures
            desc == default_sampler(),
    {
        SamplerDesc {
            mag_filter: FilterMode::Nearest,
            min_filter: FilterMode::Nearest,
            mipmap_filter: FilterMode::Nearest,
            address_mode_u: AddressMode::ClampToEdge,
            address_mode_v: AddressMode::ClampToEdge,
            address_mode_w: AddressMode::ClampToEdge,
            compare: None,
            max_anisotropy: 1,
            lod_min_bits: 0,
            lod_max_bits: DEFAULT_LOD_MAX_BITS,
        }
    }
}

/// The texture-object settings of sampler settings that CUDA supports.
pub open spec fn sampler_key(desc: SamplerDesc) -> CudaSamplerKey {
    CudaSamplerKey {
        address_u: cuda_address(desc.address_mode_u),
        address_v: cuda_address(desc.address_mode_v),
        address_w: cuda_address(desc.address_mode_w),
        filter: cuda_filter(desc.mag_filter),
        mip_filter: cuda_filter(desc.mipmap_filter),
        max_anisotropy: desc.max_anisotropy,
        lod_min_bits: desc.lod_min_bits,
        lod_max_bits: desc.lod_max_bits,
    }
}

impl CudaSamplerKey {
    /// Maps sampler settings to those of a texture object. Comparison, and different
    /// filters for magnification and minification, are not supported.
    pub fn from_desc(desc: &SamplerDesc) -> (key: Result<CudaSamplerKey, TextureError>)
        ensures
            key == (if desc.compare is Some {
                Err::<CudaSamplerKey, TextureError>(TextureError::ComparisonSampling)
            } else if desc.mag_filter != desc.min_filter {
                Err(
                    TextureError::SplitFilters { mag: desc.mag_filter, min: desc.min_filter },
                )
            } else {
                Ok(sampler_key(*desc))
            }),
    {
        if desc.compare.is_some() {
            return Err(TextureError::ComparisonSampling);
        }
        if desc.mag_filter != desc.min_filter {
            return Err(TextureError::SplitFilters { mag: desc.mag_filter, min: desc.min_filter });
        }
        Ok(
            CudaSamplerKey {
                address_u: map_address(desc.address_mode_u),
                address_v: map_address(desc.address_mode_v),
                address_w: map_address(desc.address_mode_w),
                filter: map_filter(desc.mag_filter),
                mip_filter: map_filter(desc.mipmap_filter),
                max_anisotropy: desc.max_anisotropy,
                lod_min_bits: desc.lod_min_bits,
                lod_max_bits: desc.lod_max_bits,
            },
        )
    }

    /// The texture-object settings of the default sampler.
    pub fn nearest_clamp() -> (key: CudaSamplerKey)
        ensures
            key == sampler_key(default_sampler()),
    {
        CudaSamplerKey {
            address_u: CudaAddressMode::Clamp,
            address_v: CudaAddressMode::Clamp,
            address_w: CudaAddressMode::Clamp,
            filter: CudaFilterMode::Point,
            mip_filter: CudaFilterMode::Point,
            max_anisotropy: 1,
            lod_min_bits: 0,
            lod_max_bits: DEFAULT_LOD_MAX_BITS,
        }
    }
}

/// How shaders reach a texture.
#[derive(Clone, Copy, Debug, PartialEq, Eq, Structural)]
pub enum TextureKind {
    /// Loads and stores.
    Direct,
    /// Sampled reads.
    Interpolated,
    /// Both.
    DirectInterpolated,
}

/// What is known of a texture on the CUDA side.
#[derive(Clone, Copy, Debug, PartialEq, Eq, Structural)]
pub struct CudaTexture {
    pub id: u64,
    pub width: u32,
    pub height: u32,
    pub format: TextureFormat,
    pub kind: TextureKind,
    /// Its array belongs to memory imported from another API.
    pub imported: bool,
    pub srgb: bool,
    pub storage_slot: Option<u32>,
    pub sampled_slot: Option<u32>,
}

/// Widest texture whose rows are addressed in 32 bits.
pub const MAX_TEXTURE_WIDTH: u32 = 0x0fff_ffff;

impl CudaTexture {
    /// The texture has pixels, and its rows can be addressed.
    pub open spec fn wf(self) -> bool {
        0 < self.width <= MAX_TEXTURE_WIDTH && 0 < self.height
    }

    /// Whether a texture of this kind needs a surface object.
    pub open spec fn has_surface(kind: TextureKind) -> bool {
        kind is Direct || kind is DirectInterpolated
    }

    /// Describes a texture that CUDA allocates. Second in the result: whether its
    /// array has to support surface stores.
    pub fn create(
        id: u64,
        width: u32,
        height: u32,
        format: TextureFormat,
        kind: TextureKind,
        render_target: bool,
        storage_slot: Option<u32>,
        sampled_slot: Option<u32>,
    ) -> (created: Result<(CudaTexture, bool), TextureError>)
        ensures
            if width == 0 || height == 0 {
                created == Err::<(CudaTexture, bool), TextureError>(TextureError::ZeroDimensions)
            } else if render_target {
                created == Err::<(CudaTexture, bool), TextureError>(TextureError::RenderTarget)
            } else {
                match cuda_format(format) {
                    Err(e) => created == Err::<(CudaTexture, bool), TextureError>(e),
                    Ok(info) => created == Ok::<(CudaTexture, bool), TextureError>(
                        (
                            CudaTexture {
                                id,
                                width,
                                height,
                                format,
                                kind,
                                imported: false,
                                srgb: info.srgb,
                                storage_slot,
                                sampled_slot,
                            },
                            CudaTexture::has_surface(kind),
                        ),
                    ),
                }
            },
    {
        if width == 0 || height == 0 {
            return Err(TextureError::ZeroDimensions);
        }
        if render_target {
            return Err(TextureError::RenderTarget);
        }
        match format_info(format) {
            Ok(info) => {
                let need_surface = match kind {
                    TextureKind::Direct => true,
                    TextureKind::DirectInterpolated => true,
                    TextureKind::Interpolated => false,
                };
                Ok(
                    (
                        CudaTexture {
                            id,
                            width,
                            height,
                            format,
                            kind,
                            imported: false,
                            srgb: info.srgb,
                            storage_slot,
                            sampled_slot,
                        },
                        need_surface,
                    ),
                )
            },
            Err(e) => Err(e),
        }
    }

    /// Describes a texture over an array imported from another API.
    pub fn from_imported_array(
        id: u64,
        array_is_null: bool,
        width: u32,
        height: u32,
        format: TextureFormat,
        kind: TextureKind,
        storage_slot: Option<u32>,
        sampled_slot: Option<u32>,
    ) -> (created: Result<CudaTexture, TextureError>)
        ensures
            if array_is_null {
                created == Err::<CudaTexture, TextureError>(TextureError::NullArray)
            } else if width == 0 || height == 0 {
                created == Err::<CudaTexture, TextureError>(TextureError::ZeroDimensions)
            } else {
                match cuda_format(format) {
                    Err(e) => created == Err::<CudaTexture, TextureError>(e),
                    Ok(info) => created == Ok::<CudaTexture, TextureError>(
                        CudaTexture {
                            id,
                            width,
                            height,
                            format,
                            kind,
                            imported: true,
                            srgb: info.srgb,
                            storage_slot,
                            sampled_slot,
                        },
                    ),
                }
            },
    {
        if array_is_null {
            return Err(TextureError::NullArray);
        }
        if width == 0 || height == 0 {
            return Err(TextureError::ZeroDimensions);
        }
        match format_info(format) {
            Ok(info) => Ok(
                CudaTexture {
                    id,
                    width,
                    height,
                    format,
                    kind,
                    imported: true,
                    srgb: info.srgb,
                    storage_slot,
                    sampled_slot,
                },
            ),
            Err(e) => Err(e),
        }
    }

    /// Bytes of the texture.
    pub fn byte_size(&self) -> (size: u64)
        requires
            self.wf(),
        ensures
            size == self.width * self.height * self.format.pixel_bytes(),
    {
        assert(self.width * self.height <= 0x0fff_ffff * 0xffff_ffff && 0 <= self.width
            * self.height) by (nonlinear_arith)
            requires
                0 <= self.width <= 0x0fff_ffff,
                0 <= self.height <= 0xffff_ffff,
        ;
        let area: u64 = self.width as u64 * self.height as u64;
        let bpp: u64 = self.format.bytes_per_pixel() as u64;
        assert(area * bpp <= 0x0fff_ffff * 0xffff_ffff * 16) by (nonlinear_arith)
            requires
                0 <= area <= 0x0fff_ffff * 0xffff_ffff,
                0 <= bpp <= 16,
        ;
        area * bpp
    }

    /// Refuses a surface view of a texture that is only sampled.
    pub fn check_surface(&self) -> (result: Result<(), TextureError>)
        ensures
            result == (if CudaTexture::has_surface(self.kind) {
                Ok::<(), TextureError>(())
            } else {
                Err(TextureError::NoSurfaceView { kind: self.kind })
            }),
    {
        match self.kind {
            TextureKind::Interpolated => Err(TextureError::NoSurfaceView { kind: self.kind }),
            _ => Ok(()),
        }
    }
}

/// A rectangle of a texture.
#[derive(Clone, Copy, Debug, PartialEq, Eq, Structural)]
pub struct Region {
    pub x: u32,
    pub y: u32,
    pub width: u32,
    pub height: u32,
}

impl Region {
    /// The rectangle lies within the texture.
    pub open spec fn inside(self, texture: CudaTexture) -> bool {
        self.x + self.width <= texture.width && self.y + self.height <= texture.height
    }

    fn is_inside(&self, texture: &CudaTexture) -> (inside: bool)
        ensures
            inside == self.inside(*texture),
    {
        let right = match self.x.checked_add(self.width) {
            Some(end) => end <= texture.width,
            None => false,
        };
        let bottom = match self.y.checked_add(self.height) {
            Some(end) => end <= texture.height,
            None => false,
        };
        right && bottom
    }
}

/// One end of a copy.
#[derive(Clone, Copy, Debug, PartialEq, Eq, Structural)]
pub enum CopyEnd {
    /// The host bytes of the operation.
    Host { pitch: u32 },
    Device { ptr: u64, pitch: u32 },
    Array { texture: u64, x_bytes: u32, y: u32 },
}

/// A copy of rows of bytes.
#[derive(Clone, Copy, Debug, PartialEq, Eq, Structural)]
pub struct Memcpy2D {
    pub src: CopyEnd,
    pub dst: CopyEnd,
    pub width_bytes: u32,
    pub height: u32,
}

/// Bytes of a row of the rectangle, as far as 32 bits go.
pub open spec fn tight_row(width: u32, format: TextureFormat) -> u32 {
    if width * format.pixel_bytes() > u32::MAX {
        u32::MAX
    } else {
        (width * format.pixel_bytes()) as u32
    }
}

/// The distance between rows: tight where none is given.
pub open spec fn row_pitch(pitch: u32, tight: u32) -> u32 {
    if pitch == 0 {
        tight
    } else {
        pitch
    }
}

/// Bytes that an upload of rows takes from the host.
pub open spec fn upload_bytes(pitch: u32, tight: u32, height: u32) -> int {
    pitch * (if height == 0 {
        0
    } else {
        height - 1
    }) + tight
}

/// The place of the rectangle in the texture's array.
pub open spec fn array_end(texture: CudaTexture, region: Region) -> CopyEnd {
    CopyEnd::Array {
        texture: texture.id,
        x_bytes: (region.x * texture.format.pixel_bytes()) as u32,
        y: region.y,
    }
}

fn tight_row_bytes(width: u32, format: TextureFormat) -> (bytes: u32)
    ensures
        bytes == tight_row(width, format),
{
    let bpp: u32 = format.bytes_per_pixel();
    match width.checked_mul(bpp) {
        Some(bytes) => bytes,
        None => u32::MAX,
    }
}

fn region_end(texture: &CudaTexture, region: &Region) -> (end: CopyEnd)
    requires
        texture.wf(),
        region.inside(*texture),
    ensures
        end == array_end(*texture, *region),
{
    let bpp: u32 = texture.format.bytes_per_pixel();
    assert(region.x * bpp <= 0x0fff_ffff * 16 && 0 <= region.x * bpp) by (nonlinear_arith)
        requires
            0 <= region.x <= 0x0fff_ffff,
            0 <= bpp <= 16,
    ;
    CopyEnd::Array { texture: texture.id, x_bytes: region.x * bpp, y: region.y }
}

/// Plans an upload of host bytes into a texture.
pub fn memcpy_htod_array(texture: &CudaTexture, region: &Region, len: u64, src_row_pitch: u32) -> (copy:
    Result<Memcpy2D, TextureError>)
    requires
        texture.wf(),
    ensures
        ({
            let tight = tight_row(region.width, texture.format);
            let pitch = row_pitch(src_row_pitch, tight);
            let needed = upload_bytes(pitch, tight, region.height);
            copy == (if pitch < tight {
                Err::<Memcpy2D, TextureError>(TextureError::PitchTooSmall { pitch, tight })
            } else if len < needed {
                Err(TextureError::UploadTooSmall { len, needed: needed as u64 })
            } else if region.width == 0 || region.height == 0 {
                Err(TextureError::EmptyRegion)
            } else if !region.inside(*texture) {
                Err(TextureError::RegionOutOfBounds)
            } else {
                Ok(
                    Memcpy2D {
                        src: CopyEnd::Host { pitch },
                        dst: array_end(*texture, *region),
                        width_bytes: tight,
                        height: region.height,
                    },
                )
            })
        }),
{
    let tight: u32 = tight_row_bytes(region.width, texture.format);
    let pitch: u32 = if src_row_pitch == 0 { tight } else { src_row_pitch };
    if pitch < tight {
        return Err(TextureError::PitchTooSmall { pitch, tight });
    }
    let rows: u32 = region.height.saturating_sub(1);
    assert(pitch * rows <= 0xffff_ffff * 0xffff_ffff && 0 <= pitch * rows) by (nonlinear_arith)
        requires
            0 <= pitch <= 0xffff_ffff,
            0 <= rows <= 0xffff_ffff,
    ;
    let needed: u64 = pitch as u64 * rows as u64 + tight as u64;
    if len < needed {
        return Err(TextureError::UploadTooSmall { len, needed });
    }
    if region.width == 0 || region.height == 0 {
        return Err(TextureError::EmptyRegion);
    }
    if !region.is_inside(texture) {
        return Err(TextureError::RegionOutOfBounds);
    }
    Ok(
        Memcpy2D {
            src: CopyEnd::Host { pitch },
            dst: region_end(texture, region),
            width_bytes: tight,
            height: region.height,
        },
    )
}

/// Plans a copy of a device buffer into a texture.
pub fn memcpy_dtod_array(
    src_device_ptr: u64,
    src_row_pitch: u32,
    texture: &CudaTexture,
    region: &Region,
) -> (copy: Result<Memcpy2D, TextureError>)
    requires
        texture.wf(),
    ensures
        ({
            let tight = tight_row(region.width, texture.format);
            let pitch = row_pitch(src_row_pitch, tight);
            copy == (if pitch < tight {
                Err::<Memcpy2D, TextureError>(TextureError::PitchTooSmall { pitch, tight })
            } else if !region.inside(*texture) {
                Err(TextureError::RegionOutOfBounds)
            } else {
                Ok(
                    Memcpy2D {
                        src: CopyEnd::Device { ptr: src_device_ptr, pitch },
                        dst: array_end(*texture, *region),
                        width_bytes: tight,
                        height: region.height,
                    },
                )
            })
        }),
{
    let tight: u32 = tight_row_bytes(region.width, texture.format);
    let pitch: u32 = if src_row_pitch == 0 { tight } else { src_row_pitch };
    if pitch < tight {
        return Err(TextureError::PitchTooSmall { pitch, tight });
    }
    if !region.is_inside(texture) {
        return Err(TextureError::RegionOutOfBounds);
    }
    Ok(
        Memcpy2D {
            src: CopyEnd::Device { ptr: src_device_ptr, pitch },
            dst: region_end(texture, region),
            width_bytes: tight,
            height: region.height,
        },
    )
}

/// The download of a texture.
pub open spec fn download_copy(texture: CudaTexture, region: Region, len: u64) -> Result<
    Memcpy2D,
    TextureError,
> {
    let tight = tight_row(region.width, texture.format);
    if len != tight * region.height {
        Err(TextureError::DownloadLength { len, expected: (tight * region.height) as u64 })
    } else if !region.inside(texture) {
        Err(TextureError::RegionOutOfBounds)
    } else {
        Ok(
            Memcpy2D {
                src: array_end(texture, region),
                dst: CopyEnd::Host { pitch: tight },
                width_bytes: tight,
                height: region.height,
            },
        )
    }
}

/// Plans a download of a texture into `len` host bytes, row after row.
pub fn memcpy_dtoh_array(texture: &CudaTexture, region: &Region, len: u64) -> (copy: Result<
    Memcpy2D,
    TextureError,
>)
    requires
        texture.wf(),
    ensures
        copy == download_copy(*texture, *region, len),
{
    let tight: u32 = tight_row_bytes(region.width, texture.format);
    assert(tight * region.height <= 0xffff_ffff * 0xffff_ffff && 0 <= tight * region.height)
        by (nonlinear_arith)
        requires
            0 <= tight <= 0xffff_ffff,
            0 <= region.height <= 0xffff_ffff,
    ;
    let expected: u64 = tight as u64 * region.height as u64;
    if len != expected {
        return Err(TextureError::DownloadLength { len, expected });
    }
    if !region.is_inside(texture) {
        return Err(TextureError::RegionOutOfBounds);
    }
    Ok(
        Memcpy2D {
            src: region_end(texture, region),
            dst: CopyEnd::Host { pitch: tight },
            width_bytes: tight,
            height: region.height,
        },
    )
}

/// Plans a copy of a texture into a device buffer.
pub fn memcpy_array_to_device(
    texture: &CudaTexture,
    region: &Region,
    dst_device_ptr: u64,
    dst_row_pitch: u32,
) -> (copy: Result<Memcpy2D, TextureError>)
    requires
        texture.wf(),
    ensures
        ({
            let tight = tight_row(region.width, texture.format);
            let pitch = row_pitch(dst_row_pitch, tight);
            copy == (if pitch < tight {
                Err::<Memcpy2D, TextureError>(TextureError::PitchTooSmall { pitch, tight })
            } else if !region.inside(*texture) {
                Err(TextureError::RegionOutOfBounds)
            } else {
                Ok(
                    Memcpy2D {
                        src: array_end(*texture, *region),
                        dst: CopyEnd::Device { ptr: dst_device_ptr, pitch },
                        width_bytes: tight,
                        height: region.height,
                    },
                )
            })
        }),
{
    let tight: u32 = tight_row_bytes(region.width, texture.format);
    let pitch: u32 = if dst_row_pitch == 0 { tight } else { dst_row_pitch };
    if pitch < tight {
        return Err(TextureError::PitchTooSmall { pitch, tight });
    }
    if !region.is_inside(texture) {
        return Err(TextureError::RegionOutOfBounds);
    }
    Ok(
        Memcpy2D {
            src: region_end(texture, region),
            dst: CopyEnd::Device { ptr: dst_device_ptr, pitch },
            width_bytes: tight,
            height: region.height,
        },
    )
}

/// Plans a copy of a whole texture into another of the same size and format.
pub fn memcpy_array_to_array(src: &CudaTexture, dst: &CudaTexture) -> (copy: Result<
    Memcpy2D,
    TextureError,
>)
    requires
        src.wf(),
    ensures
        copy == (if src.width != dst.width || src.height != dst.height {
            Err::<Memcpy2D, TextureError>(TextureError::SizeMismatch)
        } else if src.format != dst.format {
            Err(TextureError::FormatMismatch)
        } else {
            Ok(
                Memcpy2D {
                    src: CopyEnd::Array { texture: src.id, x_bytes: 0, y: 0 },
                    dst: CopyEnd::Array { texture: dst.id, x_bytes: 0, y: 0 },
                    width_bytes: (src.width * src.format.pixel_bytes()) as u32,
                    height: src.height,
                },
            )
        }),
{
    if src.width != dst.width || src.height != dst.height {
        return Err(TextureError::SizeMismatch);
    }
    if src.format != dst.format {
        return Err(TextureError::FormatMismatch);
    }
    let bpp: u32 = src.format.bytes_per_pixel();
    assert(src.width * bpp <= 0x0fff_ffff * 16 && 0 <= src.width * bpp) by (nonlinear_arith)
        requires
            0 <= src.width <= 0x0fff_ffff,
            0 <= bpp <= 16,
    ;
    Ok(
        Memcpy2D {
            src: CopyEnd::Array { texture: src.id, x_bytes: 0, y: 0 },
            dst: CopyEnd::Array { texture: dst.id, x_bytes: 0, y: 0 },
            width_bytes: src.width * bpp,
            height: src.height,
        },
    )
}

/// A rectangle inside a texture has rows that 32 bits can count, so its tight row
/// is the row itself.
pub proof fn rows_inside_a_texture_are_exact(texture: CudaTexture, region: Region)
    requires
        texture.wf(),
        region.inside(texture),
    ensures
        tight_row(region.width, texture.format) == region.width * texture.format.pixel_bytes(),
{
    assert(region.width * texture.format.pixel_bytes() <= 0x0fff_ffff * 16) by (nonlinear_arith)
        requires
            0 <= region.width <= 0x0fff_ffff,
            0 <= texture.format.pixel_bytes() <= 16,
    ;
}

} // verus!
