//! Execution of CUDA operations: the driver calls that each one makes, on a live
//! stream or while a graph is captured, and the steps of a whole submission.

use std::collections::HashMap;
use vstd::bytes::{spec_u32_from_le_bytes, u32_from_le_bytes};
use vstd::prelude::*;
use vstd::slice::slice_subrange;

use super::ops::{CudaOp, Grid, IndirectShape};
use super::texture::{
    array_end, memcpy_array_to_array, memcpy_array_to_device, memcpy_dtod_array,
    memcpy_htod_array, row_pitch, tight_row, upload_bytes, CopyEnd, CudaTexture, Memcpy2D, Region,
    TextureError, MAX_TEXTURE_WIDTH,
};

verus! {

broadcast use vstd::std_specs::hash::group_hash_axioms;

/// A device allocation.
#[derive(Clone, Copy, Debug, PartialEq, Eq, Structural)]
pub struct MemoryInfo {
    pub len: u64,
    /// Device address of its first byte.
    pub base: u64,
}

/// The allocations that operations name: device memory, and the lengths of host
/// staging.
pub struct ExecEnv {
    pub memory: HashMap<u64, MemoryInfo>,
    pub hosts: HashMap<u64, u64>,
}

/// What is checked after an operation where validation is on.
#[derive(Clone, Copy, Debug, PartialEq, Eq, Structural)]
pub enum SyncPoint {
    Dispatch { launch: usize },
    ClearBuffer,
    WriteBuffer,
    WriteFromHost,
    CopyBuffer,
    WriteTexture,
    WriteTextureFromHost,
    CopyBufferToTexture,
    CopyTexture,
    WaitExternalFence,
    SignalExternalFence,
    CopyTextureToReadback,
    DeferredHostWrite,
    GraphLaunchAfterCapture,
    RetainedGraphLaunch,
}

impl SyncPoint {
    /// The name of what a wait follows; a dispatch goes by its own label.
    pub open spec fn words(self) -> Option<Seq<char>> {
        match self {
            SyncPoint::Dispatch { .. } => None,
            SyncPoint::ClearBuffer => Some("ClearBuffer"@),
            SyncPoint::WriteBuffer => Some("WriteBuffer"@),
            SyncPoint::WriteFromHost => Some("WriteFromHost"@),
            SyncPoint::CopyBuffer => Some("CopyBuffer"@),
            SyncPoint::WriteTexture => Some("WriteTexture"@),
            SyncPoint::WriteTextureFromHost => Some("WriteTextureFromHost"@),
            SyncPoint::CopyBufferToTexture => Some("CopyBufferToTexture"@),
            SyncPoint::CopyTexture => Some("CopyTexture"@),
            SyncPoint::WaitExternalFence => Some("WaitExternalFence"@),
            SyncPoint::SignalExternalFence => Some("SignalExternalFence"@),
            SyncPoint::CopyTextureToReadback => Some("CopyTextureToReadback"@),
            SyncPoint::DeferredHostWrite => Some("deferred host write"@),
            SyncPoint::GraphLaunchAfterCapture => Some("graph launch after capture"@),
            SyncPoint::RetainedGraphLaunch => Some("retained graph launch"@),
        }
    }

    /// The name of what a wait follows, where it is not a dispatch.
    pub fn name(&self) -> (name: Option<&'static str>)
        ensures
            match name {
                Some(n) => self.words() == Some(n@),
                None => self.words() is None,
            },
    {
        match self {
            SyncPoint::Dispatch { .. } => None,
            SyncPoint::ClearBuffer => Some("ClearBuffer"),
            SyncPoint::WriteBuffer => Some("WriteBuffer"),
            SyncPoint::WriteFromHost => Some("WriteFromHost"),
            SyncPoint::CopyBuffer => Some("CopyBuffer"),
            SyncPoint::WriteTexture => Some("WriteTexture"),
            SyncPoint::WriteTextureFromHost => Some("WriteTextureFromHost"),
            SyncPoint::CopyBufferToTexture => Some("CopyBufferToTexture"),
            SyncPoint::CopyTexture => Some("CopyTexture"),
            SyncPoint::WaitExternalFence => Some("WaitExternalFence"),
            SyncPoint::SignalExternalFence => Some("SignalExternalFence"),
            SyncPoint::CopyTextureToReadback => Some("CopyTextureToReadback"),
            SyncPoint::DeferredHostWrite => Some("deferred host write"),
            SyncPoint::GraphLaunchAfterCapture => Some("graph launch after capture"),
            SyncPoint::RetainedGraphLaunch => Some("retained graph launch"),
        }
    }
}

/// Host bytes that a copy reads.
#[derive(Clone, Copy, Debug, PartialEq, Eq, Structural)]
pub enum HostBytes {
    Nothing,
    Payload { payload: usize },
    Staging { host: u64, offset: u64, len: u64 },
}

/// One call of the driver.
#[derive(Clone, Copy, Debug, PartialEq, Eq, Structural)]
pub enum CudaCall {
    LaunchKernel { launch: usize, grid: Grid },
    /// The kernel that sets the grid of the kernel captured after it.
    LaunchUpdater { shape: IndirectShape },
    /// Copies twelve bytes to the host and waits for them.
    ReadShape { memory: u64, start: u64 },
    /// Launches the kernel of an operation with the grid just read.
    LaunchResolved { op: usize },
    MemsetRange { memory: u64, start: u64, len: u64 },
    MemsetPtr { ptr: u64, size: u64 },
    Upload { memory: u64, start: u64, len: u64, bytes: HostBytes },
    UploadPtr { ptr: u64, len: u64, bytes: HostBytes },
    CopyRange { src: u64, src_start: u64, dst: u64, dst_start: u64, len: u64 },
    /// A copy within one allocation, through scratch memory.
    CopyViaScratch { memory: u64, src_start: u64, dst_start: u64, len: u64 },
    CopyPtr { src_ptr: u64, dst_ptr: u64, size: u64 },
    Copy2D { copy: Memcpy2D, bytes: HostBytes },
    WaitFence { value: u64 },
    SignalFence { value: u64 },
    /// Waits for the stream where validation is on.
    Validate { point: SyncPoint },
}

/// Why an operation cannot be executed.
#[derive(Clone, Copy, Debug, PartialEq, Eq, Structural)]
pub enum ExecError {
    IndirectShapeOutOfBounds,
    ClearOutOfBounds,
    WriteOutOfBounds,
    WriteFromHostExceedsStaging,
    WriteFromHostOutOfBounds,
    CopySourceOutOfBounds,
    CopyDestinationOutOfBounds,
    WriteTextureFromHostExceedsStaging,
    DeferredWriteOutOfBounds,
    IndirectGridTooLarge { grid: Grid, max_grid: Grid },
    Texture { error: TextureError },
}

/// The bytes from `start` lie in the allocation.
pub open spec fn in_range(env: ExecEnv, memory: u64, start: u64, len: u64) -> bool {
    start + len <= env.memory@[memory].len
}

/// Calls followed by a check where operations are validated.
pub open spec fn then_validate(calls: Seq<CudaCall>, validate: bool, point: SyncPoint) -> Seq<CudaCall> {
    if validate {
        calls.push(CudaCall::Validate { point })
    } else {
        calls
    }
}

/// Calls of a planned two-dimensional copy.
pub open spec fn copy_2d(
    copy: Result<Memcpy2D, TextureError>,
    bytes: HostBytes,
    validate: bool,
    point: SyncPoint,
) -> Result<Seq<CudaCall>, ExecError> {
    match copy {
        Ok(copy) => Ok(then_validate(seq![CudaCall::Copy2D { copy, bytes }], validate, point)),
        Err(error) => Err(ExecError::Texture { error }),
    }
}

/// The upload of host bytes into a texture.
pub open spec fn htod_copy(texture: CudaTexture, region: Region, len: u64, src_row_pitch: u32) -> Result<
    Memcpy2D,
    TextureError,
> {
    let tight = tight_row(region.width, texture.format);
    let pitch = row_pitch(src_row_pitch, tight);
    let needed = upload_bytes(pitch, tight, region.height);
    if pitch < tight {
        Err(TextureError::PitchTooSmall { pitch, tight })
    } else if len < needed {
        Err(TextureError::UploadTooSmall { len, needed: needed as u64 })
    } else if region.width == 0 || region.height == 0 {
        Err(TextureError::EmptyRegion)
    } else if !region.inside(texture) {
        Err(TextureError::RegionOutOfBounds)
    } else {
        Ok(
            Memcpy2D {
                src: CopyEnd::Host { pitch },
                dst: array_end(texture, region),
                width_bytes: tight,
                height: region.height,
            },
        )
    }
}

/// The copy between a device buffer and a texture.
pub open spec fn device_copy(
    ptr: u64,
    row: u32,
    texture: CudaTexture,
    region: Region,
    to_texture: bool,
) -> Result<Memcpy2D, TextureError> {
    let tight = tight_row(region.width, texture.format);
    let pitch = row_pitch(row, tight);
    if pitch < tight {
        Err(TextureError::PitchTooSmall { pitch, tight })
    } else if !region.inside(texture) {
        Err(TextureError::RegionOutOfBounds)
    } else {
        let device = CopyEnd::Device { ptr, pitch };
        let array = array_end(texture, region);
        Ok(
            Memcpy2D {
                src: if to_texture {
                    device
                } else {
                    array
                },
                dst: if to_texture {
                    array
                } else {
                    device
                },
                width_bytes: tight,
                height: region.height,
            },
        )
    }
}

/// The copy of a whole texture.
pub open spec fn texture_copy(src: CudaTexture, dst: CudaTexture) -> Result<Memcpy2D, TextureError> {
    if src.width != dst.width || src.height != dst.height {
        Err(TextureError::SizeMismatch)
    } else if src.format != dst.format {
        Err(TextureError::FormatMismatch)
    } else {
        Ok(
            Memcpy2D {
                src: CopyEnd::Array { texture: src.id, x_bytes: 0, y: 0 },
                dst: CopyEnd::Array { texture: dst.id, x_bytes: 0, y: 0 },
                width_bytes: (src.width * src.format.pixel_bytes()) as u32,
                height: src.height,
            },
        )
    }
}

/// The address of a byte of an allocation: the one noted when the operation was
/// recorded while capturing, else where the allocation lies now.
pub open spec fn live_ptr(env: ExecEnv, memory: u64, abs: u64, baked: u64, validate: bool) -> u64 {
    if validate {
        (env.memory@[memory].base + abs) as u64
    } else {
        baked
    }
}

/// The driver calls of one operation. `validate` is off exactly while a graph is
/// captured: no call may then wait, allocate or look at an allocation.
pub open spec fn op_calls(env: ExecEnv, op: CudaOp, index: usize, validate: bool) -> Result<
    Seq<CudaCall>,
    ExecError,
> {
    match op {
        CudaOp::Launch { launch, grid } => Ok(
            then_validate(
                seq![CudaCall::LaunchKernel { launch, grid }],
                validate,
                SyncPoint::Dispatch { launch },
            ),
        ),
        CudaOp::LaunchIndirect { launch, shape } => if !validate {
            Ok(
                seq![
                    CudaCall::LaunchUpdater { shape },
                    CudaCall::LaunchKernel { launch, grid: Grid { x: 1, y: 1, z: 1 } },
                ],
            )
        } else if !in_range(env, shape.memory, shape.abs_offset, 12) {
            Err(ExecError::IndirectShapeOutOfBounds)
        } else {
            Ok(
                seq![
                    CudaCall::ReadShape { memory: shape.memory, start: shape.abs_offset },
                    CudaCall::LaunchResolved { op: index },
                ],
            )
        },
        CudaOp::Clear { memory, abs_offset, size, device_ptr } => if !validate {
            Ok(
                if size == 0 {
                    Seq::empty()
                } else {
                    seq![CudaCall::MemsetPtr { ptr: device_ptr, size }]
                },
            )
        } else if !in_range(env, memory, abs_offset, size) {
            Err(ExecError::ClearOutOfBounds)
        } else {
            Ok(
                then_validate(
                    seq![CudaCall::MemsetRange { memory, start: abs_offset, len: size }],
                    validate,
                    SyncPoint::ClearBuffer,
                ),
            )
        },
        CudaOp::Write { memory, abs_offset, payload, len } => if !in_range(
            env,
            memory,
            abs_offset,
            len,
        ) {
            Err(ExecError::WriteOutOfBounds)
        } else {
            Ok(
                then_validate(
                    seq![
                        CudaCall::Upload {
                            memory,
                            start: abs_offset,
                            len,
                            bytes: HostBytes::Payload { payload },
                        },
                    ],
                    validate,
                    SyncPoint::WriteBuffer,
                ),
            )
        },
        CudaOp::WriteFromHost { memory, abs_offset, device_ptr, host, host_offset, len } => {
            let bytes = HostBytes::Staging { host, offset: host_offset, len };
            if host_offset + len > env.hosts@[host] {
                Err(ExecError::WriteFromHostExceedsStaging)
            } else if !validate {
                Ok(seq![CudaCall::UploadPtr { ptr: device_ptr, len, bytes }])
            } else if !in_range(env, memory, abs_offset, len) {
                Err(ExecError::WriteFromHostOutOfBounds)
            } else {
                Ok(
                    then_validate(
                        seq![CudaCall::Upload { memory, start: abs_offset, len, bytes }],
                        validate,
                        SyncPoint::WriteFromHost,
                    ),
                )
            }
        },
        CudaOp::Copy { src, src_abs, src_ptr, dst, dst_abs, dst_ptr, size } => if !validate {
            Ok(
                if size == 0 {
                    Seq::empty()
                } else {
                    seq![CudaCall::CopyPtr { src_ptr, dst_ptr, size }]
                },
            )
        } else if size == 0 {
            Ok(then_validate(Seq::empty(), validate, SyncPoint::CopyBuffer))
        } else if !in_range(env, src, src_abs, size) {
            Err(ExecError::CopySourceOutOfBounds)
        } else if !in_range(env, dst, dst_abs, size) {
            Err(ExecError::CopyDestinationOutOfBounds)
        } else {
            Ok(
                then_validate(
                    if src == dst {
                        seq![
                            CudaCall::CopyViaScratch {
                                memory: src,
                                src_start: src_abs,
                                dst_start: dst_abs,
                                len: size,
                            },
                        ]
                    } else {
                        seq![
                            CudaCall::CopyRange {
                                src,
                                src_start: src_abs,
                                dst,
                                dst_start: dst_abs,
                                len: size,
                            },
                        ]
                    },
                    validate,
                    SyncPoint::CopyBuffer,
                ),
            )
        },
        CudaOp::WriteTexture { texture, region, payload, len, src_row_pitch } => copy_2d(
            htod_copy(texture, region, len, src_row_pitch),
            HostBytes::Payload { payload },
            validate,
            SyncPoint::WriteTexture,
        ),
        CudaOp::WriteTextureFromHost { texture, region, host, host_offset, len, src_row_pitch } => if host_offset
            + len > env.hosts@[host] {
            Err(ExecError::WriteTextureFromHostExceedsStaging)
        } else {
            copy_2d(
                htod_copy(texture, region, len, src_row_pitch),
                HostBytes::Staging { host, offset: host_offset, len },
                validate,
                SyncPoint::WriteTextureFromHost,
            )
        },
        CudaOp::CopyBufferToTexture { src, src_abs, src_ptr, src_row_pitch, texture, region } => copy_2d(
            device_copy(
                live_ptr(env, src, src_abs, src_ptr, validate),
                src_row_pitch,
                texture,
                region,
                true,
            ),
            HostBytes::Nothing,
            validate,
            SyncPoint::CopyBufferToTexture,
        ),
        CudaOp::CopyTexture { from, to } => copy_2d(
            texture_copy(from, to),
            HostBytes::Nothing,
            validate,
            SyncPoint::CopyTexture,
        ),
        CudaOp::WaitExternalFence { value } => Ok(
            then_validate(
                seq![CudaCall::WaitFence { value }],
                validate,
                SyncPoint::WaitExternalFence,
            ),
        ),
        CudaOp::SignalExternalFence { value } => Ok(
            then_validate(
                seq![CudaCall::SignalFence { value }],
                validate,
                SyncPoint::SignalExternalFence,
            ),
        ),
        CudaOp::CopyTextureToBuffer { texture, region, dst, dst_abs, dst_ptr, dst_row_pitch } => copy_2d(
            device_copy(
                live_ptr(env, dst, dst_abs, dst_ptr, validate),
                dst_row_pitch,
                texture,
                region,
                false,
            ),
            HostBytes::Nothing,
            validate,
            SyncPoint::CopyTextureToReadback,
        ),
    }
}

/// The allocations that an operation names exist, its byte ranges end within the
/// address space, and its textures are well formed.
pub open spec fn executable(env: ExecEnv, op: CudaOp) -> bool {
    match op {
        CudaOp::Launch { .. } => true,
        CudaOp::LaunchIndirect { launch, shape } => env.memory@.contains_key(shape.memory)
            && shape.abs_offset + 12 <= u64::MAX,
        CudaOp::Clear { memory, abs_offset, size, device_ptr } => env.memory@.contains_key(memory)
            && abs_offset + size <= u64::MAX,
        CudaOp::Write { memory, abs_offset, payload, len } => env.memory@.contains_key(memory)
            && abs_offset + len <= u64::MAX,
        CudaOp::WriteFromHost { memory, abs_offset, device_ptr, host, host_offset, len } => env.memory@.contains_key(
            memory,
        ) && env.hosts@.contains_key(host) && abs_offset + len <= u64::MAX && host_offset + len
            <= u64::MAX,
        CudaOp::Copy { src, src_abs, src_ptr, dst, dst_abs, dst_ptr, size } => env.memory@.contains_key(
            src,
        ) && env.memory@.contains_key(dst) && src_abs + size <= u64::MAX && dst_abs + size
            <= u64::MAX,
        CudaOp::WriteTexture { texture, region, payload, len, src_row_pitch } => texture.wf(),
        CudaOp::WriteTextureFromHost { texture, region, host, host_offset, len, src_row_pitch } => texture.wf()
            && env.hosts@.contains_key(host) && host_offset + len <= u64::MAX,
        CudaOp::CopyBufferToTexture { src, src_abs, src_ptr, src_row_pitch, texture, region } => texture.wf()
            && env.memory@.contains_key(src) && env.memory@[src].base + src_abs <= u64::MAX,
        CudaOp::CopyTexture { from, to } => from.wf(),
        CudaOp::WaitExternalFence { .. } => true,
        CudaOp::SignalExternalFence { .. } => true,
        CudaOp::CopyTextureToBuffer { texture, region, dst, dst_abs, dst_ptr, dst_row_pitch } => texture.wf()
            && env.memory@.contains_key(dst) && env.memory@[dst].base + dst_abs <= u64::MAX,
    }
}

impl ExecEnv {
    fn memory_len(&self, memory: u64) -> (len: u64)
        requires
            self.memory@.contains_key(memory),
        ensures
            len == self.memory@[memory].len,
    {
        match self.memory.get(&memory) {
            Some(m) => m.len,
            None => 0,
        }
    }

    fn memory_base(&self, memory: u64) -> (base: u64)
        requires
            self.memory@.contains_key(memory),
        ensures
            base == self.memory@[memory].base,
    {
        match self.memory.get(&memory) {
            Some(m) => m.base,
            None => 0,
        }
    }

    fn host_len(&self, host: u64) -> (len: u64)
        requires
            self.hosts@.contains_key(host),
        ensures
            len == self.hosts@[host],
    {
        match self.hosts.get(&host) {
            Some(len) => *len,
            None => 0,
        }
    }
}

impl CudaTexture {
    fn is_whole(&self) -> (whole: bool)
        ensures
            whole == self.wf(),
    {
        0 < self.width && self.width <= MAX_TEXTURE_WIDTH && 0 < self.height
    }
}

impl ExecEnv {
    fn reaches(&self, memory: u64, offset: u64, len: u64) -> (reaches: bool)
        ensures
            reaches == (self.memory@.contains_key(memory) && offset + len <= u64::MAX),
    {
        self.memory.contains_key(&memory) && offset <= u64::MAX - len
    }

    fn addresses(&self, memory: u64, offset: u64) -> (addresses: bool)
        ensures
            addresses == (self.memory@.contains_key(memory) && self.memory@[memory].base + offset
                <= u64::MAX),
    {
        match self.memory.get(&memory) {
            Some(m) => m.base <= u64::MAX - offset,
            None => false,
        }
    }

    fn reads_host(&self, host: u64, offset: u64, len: u64) -> (reads: bool)
        ensures
            reads == (self.hosts@.contains_key(host) && offset + len <= u64::MAX),
    {
        self.hosts.contains_key(&host) && offset <= u64::MAX - len
    }

    fn can_execute_op(&self, op: &CudaOp) -> (can: bool)
        ensures
            can == executable(*self, *op),
    {
        match op {
            CudaOp::Launch { .. } => true,
            CudaOp::LaunchIndirect { shape, .. } => self.reaches(shape.memory, shape.abs_offset, 12),
            CudaOp::Clear { memory, abs_offset, size, .. } => self.reaches(
                *memory,
                *abs_offset,
                *size,
            ),
            CudaOp::Write { memory, abs_offset, len, .. } => self.reaches(
                *memory,
                *abs_offset,
                *len,
            ),
            CudaOp::WriteFromHost { memory, abs_offset, host, host_offset, len, .. } => self.reaches(
                *memory,
                *abs_offset,
                *len,
            ) && self.reads_host(*host, *host_offset, *len),
            CudaOp::Copy { src, src_abs, dst, dst_abs, size, .. } => self.reaches(
                *src,
                *src_abs,
                *size,
            ) && self.reaches(*dst, *dst_abs, *size),
            CudaOp::WriteTexture { texture, .. } => texture.is_whole(),
            CudaOp::WriteTextureFromHost { texture, host, host_offset, len, .. } => texture.is_whole()
                && self.reads_host(*host, *host_offset, *len),
            CudaOp::CopyBufferToTexture { src, src_abs, texture, .. } => texture.is_whole()
                && self.addresses(*src, *src_abs),
            CudaOp::CopyTexture { from, .. } => from.is_whole(),
            CudaOp::WaitExternalFence { .. } => true,
            CudaOp::SignalExternalFence { .. } => true,
            CudaOp::CopyTextureToBuffer { texture, dst, dst_abs, .. } => texture.is_whole()
                && self.addresses(*dst, *dst_abs),
        }
    }

    /// Whether what operations refer to is there, and their ranges end within the address
    /// space.
    pub fn can_execute(&self, ops: &Vec<CudaOp>) -> (can: bool)
        ensures
            can == (forall|i: int| 0 <= i < ops@.len() ==> executable(*self, #[trigger] ops@[i])),
    {
        let mut i: usize = 0;
        while i < ops.len()
            invariant
                i <= ops.len(),
                forall|j: int| 0 <= j < i ==> executable(*self, #[trigger] ops@[j]),
            decreases ops.len() - i,
        {
            if !self.can_execute_op(&ops[i]) {
                assert(!executable(*self, ops@[i as int]));
                return false;
            }
            i += 1;
        }
        true
    }
}

fn push_copy_2d(
    calls: &mut Vec<CudaCall>,
    copy: Result<Memcpy2D, TextureError>,
    bytes: HostBytes,
    validate: bool,
    point: SyncPoint,
) -> (result: Result<(), ExecError>)
    ensures
        match copy_2d(copy, bytes, validate, point) {
            Ok(added) => result is Ok && final(calls)@ == old(calls)@ + added,
            Err(e) => result == Err::<(), ExecError>(e) && final(calls)@ == old(calls)@,
        },
{
    match copy {
        Ok(copy) => {
            calls.push(CudaCall::Copy2D { copy, bytes });
            if validate {
                calls.push(CudaCall::Validate { point });
            }
            assert(calls@ =~= old(calls)@ + then_validate(
                seq![CudaCall::Copy2D { copy, bytes }],
                validate,
                point,
            ));
            Ok(())
        },
        Err(error) => Err(ExecError::Texture { error }),
    }
}

fn push_validated(calls: &mut Vec<CudaCall>, call: CudaCall, validate: bool, point: SyncPoint)
    ensures
        final(calls)@ == old(calls)@ + then_validate(seq![call], validate, point),
{
    calls.push(call);
    if validate {
        calls.push(CudaCall::Validate { point });
    }
    assert(calls@ =~= old(calls)@ + then_validate(seq![call], validate, point));
}

fn execute_copy(
    env: &ExecEnv,
    calls: &mut Vec<CudaCall>,
    src: u64,
    src_abs: u64,
    dst: u64,
    dst_abs: u64,
    size: u64,
) -> (result: Result<(), ExecError>)
    requires
        env.memory@.contains_key(src),
        env.memory@.contains_key(dst),
        src_abs + size <= u64::MAX,
        dst_abs + size <= u64::MAX,
    ensures
        match op_calls(
            *env,
            CudaOp::Copy { src, src_abs, src_ptr: 0, dst, dst_abs, dst_ptr: 0, size },
            0,
            true,
        ) {
            Ok(added) => result is Ok && final(calls)@ == old(calls)@ + added,
            Err(e) => result == Err::<(), ExecError>(e) && final(calls)@ == old(calls)@,
        },
{
    if size == 0 {
        calls.push(CudaCall::Validate { point: SyncPoint::CopyBuffer });
        assert(calls@ =~= old(calls)@ + then_validate(Seq::empty(), true, SyncPoint::CopyBuffer));
        return Ok(());
    }
    if src_abs + size > env.memory_len(src) {
        return Err(ExecError::CopySourceOutOfBounds);
    }
    if dst_abs + size > env.memory_len(dst) {
        return Err(ExecError::CopyDestinationOutOfBounds);
    }
    let call = if src == dst {
        CudaCall::CopyViaScratch {
            memory: src,
            src_start: src_abs,
            dst_start: dst_abs,
            len: size,
        }
    } else {
        CudaCall::CopyRange { src, src_start: src_abs, dst, dst_start: dst_abs, len: size }
    };
    push_validated(calls, call, true, SyncPoint::CopyBuffer);
    Ok(())
}

fn execute_op(
    env: &ExecEnv,
    calls: &mut Vec<CudaCall>,
    op: &CudaOp,
    index: usize,
    validate: bool,
) -> (result: Result<(), ExecError>)
    requires
        executable(*env, *op),
    ensures
        match op_calls(*env, *op, index, validate) {
            Ok(added) => result is Ok && final(calls)@ == old(calls)@ + added,
            Err(e) => result == Err::<(), ExecError>(e) && final(calls)@ == old(calls)@,
        },
{
    let ghost start = calls@;
    match *op {
        CudaOp::Launch { launch, grid } => {
            push_validated(
                calls,
                CudaCall::LaunchKernel { launch, grid },
                validate,
                SyncPoint::Dispatch { launch },
            );
        },
        CudaOp::LaunchIndirect { launch, shape } => {
            if !validate {
                calls.push(CudaCall::LaunchUpdater { shape });
                calls.push(CudaCall::LaunchKernel { launch, grid: Grid { x: 1, y: 1, z: 1 } });
            } else {
                if shape.abs_offset + 12 > env.memory_len(shape.memory) {
                    return Err(ExecError::IndirectShapeOutOfBounds);
                }
                calls.push(CudaCall::ReadShape { memory: shape.memory, start: shape.abs_offset });
                calls.push(CudaCall::LaunchResolved { op: index });
            }
            assert(calls@ =~= start + op_calls(*env, *op, index, validate)->Ok_0);
        },
        CudaOp::Clear { memory, abs_offset, size, device_ptr } => {
            if !validate {
                if size != 0 {
                    calls.push(CudaCall::MemsetPtr { ptr: device_ptr, size });
                }
                assert(calls@ =~= start + op_calls(*env, *op, index, validate)->Ok_0);
            } else {
                if abs_offset + size > env.memory_len(memory) {
                    return Err(ExecError::ClearOutOfBounds);
                }
                push_validated(
                    calls,
                    CudaCall::MemsetRange { memory, start: abs_offset, len: size },
                    validate,
                    SyncPoint::ClearBuffer,
                );
            }
        },
        CudaOp::Write { memory, abs_offset, payload, len } => {
            if abs_offset + len > env.memory_len(memory) {
                return Err(ExecError::WriteOutOfBounds);
            }
            push_validated(
                calls,
                CudaCall::Upload {
                    memory,
                    start: abs_offset,
                    len,
                    bytes: HostBytes::Payload { payload },
                },
                validate,
                SyncPoint::WriteBuffer,
            );
        },
        CudaOp::WriteFromHost { memory, abs_offset, device_ptr, host, host_offset, len } => {
            if host_offset + len > env.host_len(host) {
                return Err(ExecError::WriteFromHostExceedsStaging);
            }
            let bytes = HostBytes::Staging { host, offset: host_offset, len };
            if !validate {
                calls.push(CudaCall::UploadPtr { ptr: device_ptr, len, bytes });
                assert(calls@ =~= start + op_calls(*env, *op, index, validate)->Ok_0);
            } else {
                if abs_offset + len > env.memory_len(memory) {
                    return Err(ExecError::WriteFromHostOutOfBounds);
                }
                push_validated(
                    calls,
                    CudaCall::Upload { memory, start: abs_offset, len, bytes },
                    validate,
                    SyncPoint::WriteFromHost,
                );
            }
        },
        CudaOp::Copy { src, src_abs, src_ptr, dst, dst_abs, dst_ptr, size } => {
            if !validate {
                if size != 0 {
                    calls.push(CudaCall::CopyPtr { src_ptr, dst_ptr, size });
                }
                assert(calls@ =~= start + op_calls(*env, *op, index, validate)->Ok_0);
            } else {
                return execute_copy(env, calls, src, src_abs, dst, dst_abs, size);
            }
        },
        CudaOp::WriteTexture { texture, region, payload, len, src_row_pitch } => {
            let copy = memcpy_htod_array(&texture, &region, len, src_row_pitch);
            return push_copy_2d(
                calls,
                copy,
                HostBytes::Payload { payload },
                validate,
                SyncPoint::WriteTexture,
            );
        },
        CudaOp::WriteTextureFromHost { texture, region, host, host_offset, len, src_row_pitch } => {
            if host_offset + len > env.host_len(host) {
                return Err(ExecError::WriteTextureFromHostExceedsStaging);
            }
            let copy = memcpy_htod_array(&texture, &region, len, src_row_pitch);
            return push_copy_2d(
                calls,
                copy,
                HostBytes::Staging { host, offset: host_offset, len },
                validate,
                SyncPoint::WriteTextureFromHost,
            );
        },
        CudaOp::CopyBufferToTexture { src, src_abs, src_ptr, src_row_pitch, texture, region } => {
            let ptr: u64 = if !validate {
                src_ptr
            } else {
                env.memory_base(src) + src_abs
            };
            let copy = memcpy_dtod_array(ptr, src_row_pitch, &texture, &region);
            return push_copy_2d(
                calls,
                copy,
                HostBytes::Nothing,
                validate,
                SyncPoint::CopyBufferToTexture,
            );
        },
        CudaOp::CopyTexture { from, to } => {
            let copy = memcpy_array_to_array(&from, &to);
            return push_copy_2d(calls, copy, HostBytes::Nothing, validate, SyncPoint::CopyTexture);
        },
        CudaOp::WaitExternalFence { value } => {
            push_validated(
                calls,
                CudaCall::WaitFence { value },
                validate,
                SyncPoint::WaitExternalFence,
            );
        },
        CudaOp::SignalExternalFence { value } => {
            push_validated(
                calls,
                CudaCall::SignalFence { value },
                validate,
                SyncPoint::SignalExternalFence,
            );
        },
        CudaOp::CopyTextureToBuffer { texture, region, dst, dst_abs, dst_ptr, dst_row_pitch } => {
            let ptr: u64 = if !validate {
                dst_ptr
            } else {
                env.memory_base(dst) + dst_abs
            };
            let copy = memcpy_array_to_device(&texture, &region, ptr, dst_row_pitch);
            return push_copy_2d(
                calls,
                copy,
                HostBytes::Nothing,
                validate,
                SyncPoint::CopyTextureToReadback,
            );
        },
    }
    Ok(())
}

/// The calls of operations, up to the first that cannot be executed, and why it
/// cannot.
#[verifier::ext_equal]
pub struct Execution {
    pub calls: Seq<CudaCall>,
    pub error: Option<ExecError>,
}

/// The execution of operations in order.
pub open spec fn run_ops(env: ExecEnv, ops: Seq<CudaOp>, validate: bool) -> Execution
    decreases ops.len(),
{
    if ops.len() == 0 {
        Execution { calls: Seq::empty(), error: None }
    } else {
        let before = run_ops(env, ops.drop_last(), validate);
        if before.error is Some {
            before
        } else {
            match op_calls(env, ops.last(), (ops.len() - 1) as usize, validate) {
                Ok(calls) => Execution { calls: before.calls + calls, error: None },
                Err(e) => Execution { calls: before.calls, error: Some(e) },
            }
        }
    }
}

proof fn lemma_run_stops(env: ExecEnv, ops: Seq<CudaOp>, validate: bool, n: int)
    requires
        0 <= n <= ops.len(),
        run_ops(env, ops.take(n), validate).error is Some,
    ensures
        run_ops(env, ops, validate) == run_ops(env, ops.take(n), validate),
    decreases ops.len() - n,
{
    if n < ops.len() {
        assert(ops.take(n + 1).drop_last() =~= ops.take(n));
        lemma_run_stops(env, ops, validate, n + 1);
    } else {
        assert(ops.take(n) =~= ops);
    }
}

/// The planned calls of operations.
pub struct ExecutionPlan {
    pub calls: Vec<CudaCall>,
    pub error: Option<ExecError>,
}

/// Plans the driver calls of operations. `validate` is off while a graph is
/// captured.
pub fn execute_ops(env: &ExecEnv, ops: &Vec<CudaOp>, validate: bool) -> (plan: ExecutionPlan)
    requires
        forall|i: int| 0 <= i < ops@.len() ==> executable(*env, #[trigger] ops@[i]),
    ensures
        run_ops(*env, ops@, validate) == (Execution { calls: plan.calls@, error: plan.error }),
{
    let mut calls: Vec<CudaCall> = Vec::new();
    let mut i: usize = 0;
    while i < ops.len()
        invariant
            i <= ops.len(),
            forall|i: int| 0 <= i < ops@.len() ==> executable(*env, #[trigger] ops@[i]),
            run_ops(*env, ops@.take(i as int), validate) == (Execution {
                calls: calls@,
                error: None,
            }),
        decreases ops.len() - i,
    {
        assert(ops@.take(i + 1).drop_last() =~= ops@.take(i as int));
        match execute_op(env, &mut calls, &ops[i], i, validate) {
            Ok(_) => {},
            Err(e) => {
                proof {
                    lemma_run_stops(*env, ops@, validate, i + 1);
                }
                return ExecutionPlan { calls, error: Some(e) };
            },
        }
        i += 1;
    }
    assert(ops@.take(i as int) =~= ops@);
    ExecutionPlan { calls, error: None }
}

/// The call waits for the device, allocates, or reads where an allocation lies.
pub open spec fn illegal_in_capture(call: CudaCall) -> bool {
    call is Validate || call is ReadShape || call is LaunchResolved || call is CopyViaScratch
        || call is MemsetRange || call is CopyRange
}

/// Capturing operations makes no call that is illegal while a graph is captured.
pub proof fn capture_makes_no_illegal_call(env: ExecEnv, ops: Seq<CudaOp>)
    ensures
        forall|i: int|
            0 <= i < run_ops(env, ops, false).calls.len() ==> !illegal_in_capture(
                #[trigger] run_ops(env, ops, false).calls[i],
            ),
    decreases ops.len(),
{
    if ops.len() > 0 {
        capture_makes_no_illegal_call(env, ops.drop_last());
    }
}

/// A grid read from device memory: least significant byte first.
pub open spec fn shape_grid(bytes: Seq<u8>) -> Grid {
    Grid {
        x: spec_u32_from_le_bytes(bytes.subrange(0, 4)),
        y: spec_u32_from_le_bytes(bytes.subrange(4, 8)),
        z: spec_u32_from_le_bytes(bytes.subrange(8, 12)),
    }
}

/// What becomes of an indirect launch once its grid is known.
#[derive(Clone, Copy, Debug, PartialEq, Eq, Structural)]
pub enum IndirectLaunch {
    /// An empty grid launches nothing.
    Nothing,
    TooLarge { grid: Grid, max_grid: Grid },
    Launch { grid: Grid },
}

/// The fate of an indirect launch with a grid.
pub open spec fn indirect_launch(grid: Grid, max_grid: Grid) -> IndirectLaunch {
    if grid.x == 0 || grid.y == 0 || grid.z == 0 {
        IndirectLaunch::Nothing
    } else if grid.x > max_grid.x || grid.y > max_grid.y || grid.z > max_grid.z {
        IndirectLaunch::TooLarge { grid, max_grid }
    } else {
        IndirectLaunch::Launch { grid }
    }
}

/// Decides an indirect launch from the bytes of its grid.
pub fn launch_indirect_fallback(bytes: &Vec<u8>, max_grid: &Grid) -> (launch: IndirectLaunch)
    requires
        bytes@.len() == 12,
    ensures
        launch == indirect_launch(shape_grid(bytes@), *max_grid),
{
    let all = bytes.as_slice();
    let grid = Grid {
        x: u32_from_le_bytes(slice_subrange(all, 0, 4)),
        y: u32_from_le_bytes(slice_subrange(all, 4, 8)),
        z: u32_from_le_bytes(slice_subrange(all, 8, 12)),
    };
    if grid.x == 0 || grid.y == 0 || grid.z == 0 {
        return IndirectLaunch::Nothing;
    }
    if grid.x > max_grid.x || grid.y > max_grid.y || grid.z > max_grid.z {
        return IndirectLaunch::TooLarge { grid, max_grid: *max_grid };
    }
    IndirectLaunch::Launch { grid }
}

/// The calls of an indirect launch whose fate is known: the launch of its kernel, and what
/// follows any launch that is executed.
pub open spec fn resolved(launch: usize, fate: IndirectLaunch) -> Result<Seq<CudaCall>, ExecError> {
    match fate {
        IndirectLaunch::Nothing => Ok(Seq::empty()),
        IndirectLaunch::TooLarge { grid, max_grid } => Err(
            ExecError::IndirectGridTooLarge { grid, max_grid },
        ),
        IndirectLaunch::Launch { grid } => Ok(
            then_validate(
                seq![CudaCall::LaunchKernel { launch, grid }],
                true,
                SyncPoint::Dispatch { launch },
            ),
        ),
    }
}

/// Plans the calls of an indirect launch once its grid was decided on.
pub fn resolved_calls(launch: usize, fate: &IndirectLaunch) -> (calls: Result<
    Vec<CudaCall>,
    ExecError,
>)
    ensures
        match resolved(launch, *fate) {
            Ok(all) => calls is Ok && calls->Ok_0@ == all,
            Err(e) => calls == Err::<Vec<CudaCall>, ExecError>(e),
        },
{
    let mut calls: Vec<CudaCall> = Vec::new();
    match *fate {
        IndirectLaunch::Nothing => {},
        IndirectLaunch::TooLarge { grid, max_grid } => {
            return Err(ExecError::IndirectGridTooLarge { grid, max_grid });
        },
        IndirectLaunch::Launch { grid } => {
            push_validated(
                &mut calls,
                CudaCall::LaunchKernel { launch, grid },
                true,
                SyncPoint::Dispatch { launch },
            );
        },
    }
    Ok(calls)
}

/// An indirect launch whose grid is in bounds makes the calls of a direct launch with that
/// grid.
pub proof fn resolved_launch_is_direct(
    env: ExecEnv,
    launch: usize,
    grid: Grid,
    max_grid: Grid,
    index: usize,
)
    requires
        indirect_launch(grid, max_grid) is Launch,
    ensures
        resolved(launch, indirect_launch(grid, max_grid)) == op_calls(
            env,
            CudaOp::Launch { launch, grid },
            index,
            true,
        ),
{
}

} // verus!
