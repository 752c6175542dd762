//! The objects through which kernels reach a texture: each is made once and kept.

use vstd::prelude::*;

use super::texture::{
    cuda_format, format_info, ArrayFormat, CudaAddressMode, CudaFilterMode, CudaSamplerKey,
    CudaTexture, TextureError, TextureFormat,
};

verus! {

/// Coordinates run from zero to one.
pub const TRSF_NORMALIZED_COORDINATES: u32 = 2;

/// Reads are converted from sRGB.
pub const TRSF_SRGB: u32 = 16;

/// The array supports loads and stores of surfaces.
pub const ARRAY3D_SURFACE_LDST: u32 = 2;

/// An array about to be made.
#[derive(Clone, Copy, Debug, PartialEq, Eq, Structural)]
pub struct ArrayPlan {
    pub width: u32,
    pub height: u32,
    pub format: ArrayFormat,
    pub num_channels: u32,
    /// Flags of an array that supports surfaces; `None` for a plain array.
    pub surface_flags: Option<u32>,
}

/// Plans the array of a texture. Only an array that supports surfaces is made with flags.
pub fn plan_array(width: u32, height: u32, format: TextureFormat, need_surface: bool) -> (plan: Result<
    ArrayPlan,
    TextureError,
>)
    ensures
        match cuda_format(format) {
            Err(e) => plan == Err::<ArrayPlan, TextureError>(e),
            Ok(info) => plan == Ok::<ArrayPlan, TextureError>(
                ArrayPlan {
                    width,
                    height,
                    format: info.array_format,
                    num_channels: info.num_channels,
                    surface_flags: if need_surface {
                        Some(ARRAY3D_SURFACE_LDST)
                    } else {
                        None
                    },
                },
            ),
        },
{
    match format_info(format) {
        Ok(info) => Ok(
            ArrayPlan {
                width,
                height,
                format: info.array_format,
                num_channels: info.num_channels,
                surface_flags: if need_surface {
                    Some(ARRAY3D_SURFACE_LDST)
                } else {
                    None
                },
            },
        ),
        Err(e) => Err(e),
    }
}

/// The settings of a texture object. The clamps are the bits of their numbers.
#[derive(Clone, Copy, Debug, PartialEq, Eq, Structural)]
pub struct TextureDesc {
    pub address_u: CudaAddressMode,
    pub address_v: CudaAddressMode,
    pub address_w: CudaAddressMode,
    pub filter: CudaFilterMode,
    pub mip_filter: CudaFilterMode,
    pub max_anisotropy: u32,
    pub lod_min_bits: u32,
    pub lod_max_bits: u32,
    pub flags: u32,
}

/// The settings of a texture object under a sampler.
pub open spec fn object_settings(sampler: CudaSamplerKey, srgb: bool) -> TextureDesc {
    TextureDesc {
        address_u: sampler.address_u,
        address_v: sampler.address_v,
        address_w: sampler.address_w,
        filter: sampler.filter,
        mip_filter: sampler.mip_filter,
        max_anisotropy: sampler.max_anisotropy,
        lod_min_bits: sampler.lod_min_bits,
        lod_max_bits: sampler.lod_max_bits,
        flags: if srgb {
            (TRSF_NORMALIZED_COORDINATES + TRSF_SRGB) as u32
        } else {
            TRSF_NORMALIZED_COORDINATES
        },
    }
}

impl CudaSamplerKey {
    /// The settings of a texture object under the sampler. Its coordinates are
    /// normalized, and an sRGB format is converted when it is read.
    pub fn to_texture_desc(self, srgb: bool) -> (desc: TextureDesc)
        ensures
            desc == object_settings(self, srgb),
    {
        let mut flags: u32 = TRSF_NORMALIZED_COORDINATES;
        if srgb {
            assert(2u32 | 16u32 == 18u32) by (bit_vector);
            flags = flags | TRSF_SRGB;
        }
        TextureDesc {
            address_u: self.address_u,
            address_v: self.address_v,
            address_w: self.address_w,
            filter: self.filter,
            mip_filter: self.mip_filter,
            max_anisotropy: self.max_anisotropy,
            lod_min_bits: self.lod_min_bits,
            lod_max_bits: self.lod_max_bits,
            flags,
        }
    }
}

/// The objects of a texture.
#[verifier::ext_equal]
pub struct ObjectsView {
    /// Texture objects by sampler, in the order in which they were made.
    pub textures: Seq<(CudaSamplerKey, u64)>,
    pub surface: Option<u64>,
}

/// The objects of a texture: one texture object for each sampler that it is read under,
/// and one surface object.
pub struct TextureObjects {
    textures: Vec<(CudaSamplerKey, u64)>,
    surface: Option<u64>,
}

impl View for TextureObjects {
    type V = ObjectsView;

    closed spec fn view(&self) -> ObjectsView {
        ObjectsView { textures: self.textures@, surface: self.surface }
    }
}

impl ObjectsView {
    /// No sampler has two objects.
    pub open spec fn wf(self) -> bool {
        forall|i: int, j: int|
            0 <= i < j < self.textures.len() ==> (#[trigger] self.textures[i]).0 != (
            #[trigger] self.textures[j]).0
    }

    /// The object of a sampler, where one was made.
    pub open spec fn texture_of(self, sampler: CudaSamplerKey) -> Option<u64> {
        if exists|i: int| 0 <= i < self.textures.len() && (#[trigger] self.textures[i]).0 == sampler {
            Some(
                self.textures[choose|i: int|
                    0 <= i < self.textures.len() && (#[trigger] self.textures[i]).0 == sampler].1,
            )
        } else {
            None
        }
    }
}

impl TextureObjects {
    /// No objects yet.
    pub fn new() -> (objects: Self)
        ensures
            objects@ == (ObjectsView { textures: Seq::empty(), surface: None }),
            objects@.wf(),
    {
        TextureObjects { textures: Vec::new(), surface: None }
    }

    /// The texture object to use under a sampler; `None` where one has to be made.
    pub fn tex_object(&self, sampler: CudaSamplerKey) -> (object: Option<u64>)
        requires
            self@.wf(),
        ensures
            object == self@.texture_of(sampler),
    {
        let mut i: usize = 0;
        while i < self.textures.len()
            invariant
                i <= self.textures.len(),
                self@.wf(),
                forall|j: int| 0 <= j < i ==> (#[trigger] self@.textures[j]).0 != sampler,
            decreases self.textures.len() - i,
        {
            if self.textures[i].0 == sampler {
                assert(self@.textures[i as int].0 == sampler);
                return Some(self.textures[i].1);
            }
            i += 1;
        }
        None
    }

    /// Keeps the texture object that was made under a sampler.
    pub fn keep_tex_object(&mut self, sampler: CudaSamplerKey, object: u64)
        requires
            old(self)@.wf(),
            old(self)@.texture_of(sampler) is None,
        ensures
            final(self)@ == (ObjectsView {
                textures: old(self)@.textures.push((sampler, object)),
                ..old(self)@
            }),
            final(self)@.wf(),
    {
        self.textures.push((sampler, object));
    }

    /// The surface object to use; `None` where one has to be made. A texture that is only
    /// sampled has none.
    pub fn surf_object(&self, texture: &CudaTexture) -> (object: Result<Option<u64>, TextureError>)
        ensures
            object == (if CudaTexture::has_surface(texture.kind) {
                Ok::<Option<u64>, TextureError>(self@.surface)
            } else {
                Err(TextureError::NoSurfaceView { kind: texture.kind })
            }),
    {
        match texture.check_surface() {
            Ok(_) => Ok(self.surface),
            Err(e) => Err(e),
        }
    }

    /// Keeps the surface object that was made.
    pub fn keep_surf_object(&mut self, object: u64)
        requires
            old(self)@.surface is None,
        ensures
            final(self)@ == (ObjectsView { surface: Some(object), ..old(self)@ }),
    {
        self.surface = Some(object);
    }

    /// Takes out every object, to be destroyed: the texture objects in the order in which
    /// they were made, and the surface object.
    pub fn drain(&mut self) -> (drained: (Vec<u64>, Option<u64>))
        ensures
            final(self)@ == (ObjectsView { textures: Seq::empty(), surface: None }),
            drained.0@ == old(self)@.textures.map_values(|t: (CudaSamplerKey, u64)| t.1),
            drained.1 == old(self)@.surface,
    {
        let mut objects: Vec<u64> = Vec::new();
        let mut i: usize = 0;
        while i < self.textures.len()
            invariant
                i <= self.textures.len(),
                *self == *old(self),
                objects@ == self@.textures.take(i as int).map_values(
                    |t: (CudaSamplerKey, u64)| t.1,
                ),
            decreases self.textures.len() - i,
        {
            objects.push(self.textures[i].1);
            assert(objects@ =~= self@.textures.take(i + 1).map_values(
                |t: (CudaSamplerKey, u64)| t.1,
            ));
            i += 1;
        }
        assert(self@.textures.take(i as int) =~= self@.textures);
        let surface = self.surface;
        self.textures = Vec::new();
        self.surface = None;
        (objects, surface)
    }
}

/// A texture object that was kept is the one that is used from then on, and the objects
/// of other samplers stay.
pub proof fn kept_object_is_used(before: ObjectsView, sampler: CudaSamplerKey, object: u64, other: CudaSamplerKey)
    requires
        before.wf(),
        before.texture_of(sampler) is None,
    ensures
        ({
            let after = ObjectsView { textures: before.textures.push((sampler, object)), ..before };
            after.texture_of(other) == (if other == sampler {
                Some(object)
            } else {
                before.texture_of(other)
            })
        }),
{
    let after = ObjectsView { textures: before.textures.push((sampler, object)), ..before };
    let n = before.textures.len() as int;
    assert(after.textures[n] == (sampler, object));
    if other == sampler {
        assert(after.textures[n].0 == other);
        let k = choose|i: int|
            0 <= i < after.textures.len() && (#[trigger] after.textures[i]).0 == other;
        assert(k == n) by {
            if k < n {
                assert(before.textures[k].0 == sampler);
            }
        }
    } else if before.texture_of(other) is Some {
        let i = choose|i: int|
            0 <= i < before.textures.len() && (#[trigger] before.textures[i]).0 == other;
        assert(after.textures[i] == before.textures[i]);
        let k = choose|i: int|
            0 <= i < after.textures.len() && (#[trigger] after.textures[i]).0 == other;
        assert(k < n);
        assert(before.textures[k].0 == other);
        assert(k == i);
    } else {
        assert forall|i: int| 0 <= i < after.textures.len() implies (
        #[trigger] after.textures[i]).0 != other by {
            if i < n {
                assert(before.textures[i].0 != other);
            }
        }
    }
}

} // verus!
