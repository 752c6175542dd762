//! What the calls of operations do to the pixels of textures, and what follows for writes,
//! copies and downloads of textures.

use vstd::prelude::*;

use super::execute::{op_calls, CudaCall, ExecEnv};
use super::memory::{effect, host_bytes, DeviceBytes, HostMemory};
use super::ops::CudaOp;
use super::texture::{download_copy, CopyEnd, CudaTexture, Memcpy2D, Region};

verus! {

broadcast use vstd::std_specs::hash::group_hash_axioms;

/// The byte of each array at a row and at a column, which counts bytes.
pub type ArrayBytes = spec_fn(u64, int, int) -> u8;

/// What a device holds: linear memory, and the arrays of textures.
pub struct DeviceState {
    pub linear: DeviceBytes,
    pub arrays: ArrayBytes,
}

/// The byte at a row and a column of what a copy of rows reads.
pub open spec fn read_at(host: Seq<u8>, state: DeviceState, src: CopyEnd, row: int, col: int) -> u8 {
    match src {
        CopyEnd::Host { pitch } => host[row * pitch + col],
        CopyEnd::Device { ptr, pitch } => (state.linear)(ptr + row * pitch + col),
        CopyEnd::Array { texture, x_bytes, y } => (state.arrays)(texture, y + row, x_bytes + col),
    }
}

/// A copy of rows was carried out: the bytes of its rectangle were written, and no others.
pub open spec fn moved_rows(
    host: Seq<u8>,
    before: DeviceState,
    after: DeviceState,
    copy: Memcpy2D,
) -> bool {
    match copy.dst {
        CopyEnd::Array { texture, x_bytes, y } => {
            &&& after.linear == before.linear
            &&& forall|t: u64, row: int, col: int| #[trigger]
                (after.arrays)(t, row, col) == if t == texture && y <= row < y + copy.height
                    && x_bytes <= col < x_bytes + copy.width_bytes {
                    read_at(host, before, copy.src, row - y, col - x_bytes)
                } else {
                    (before.arrays)(t, row, col)
                }
        },
        CopyEnd::Device { ptr, pitch } => {
            &&& after.arrays == before.arrays
            &&& forall|row: int, col: int|
                0 <= row < copy.height && 0 <= col < copy.width_bytes ==> (after.linear)(
                    ptr + row * pitch + col,
                ) == #[trigger] read_at(host, before, copy.src, row, col)
            &&& forall|a: int| #[trigger]
                (after.linear)(a) == (before.linear)(a) || in_rectangle(
                    a - ptr,
                    pitch as int,
                    copy.width_bytes as int,
                    copy.height as int,
                )
        },
        CopyEnd::Host { .. } => after == before,
    }
}

/// The byte at a distance from the first lies in one of the rows of a rectangle.
pub open spec fn in_rectangle(distance: int, pitch: int, width: int, height: int) -> bool {
    exists|row: int|
        0 <= row < height && #[trigger] (row * pitch) <= distance < row * pitch + width
}

/// What a call does to a device. Kernels may write anything.
pub open spec fn does(
    env: ExecEnv,
    host: HostMemory,
    before: DeviceState,
    after: DeviceState,
    call: CudaCall,
) -> bool {
    match call {
        CudaCall::LaunchKernel { .. } => true,
        CudaCall::LaunchUpdater { .. } => true,
        CudaCall::LaunchResolved { .. } => true,
        CudaCall::Copy2D { copy, bytes } => moved_rows(host_bytes(host, bytes), before, after, copy),
        CudaCall::Validate { .. } => after == before,
        _ => {
            &&& after.arrays == before.arrays
            &&& effect(env, host, before.linear, after.linear, call)
        },
    }
}

/// Calls were carried out in order: `states` is what the device held before each of them,
/// and after the last.
pub open spec fn carried_out(
    env: ExecEnv,
    host: HostMemory,
    states: Seq<DeviceState>,
    calls: Seq<CudaCall>,
) -> bool {
    &&& states.len() == calls.len() + 1
    &&& forall|i: int|
        0 <= i < calls.len() ==> does(env, host, states[i], states[i + 1], #[trigger] calls[i])
}

/// A copy of rows, and nothing else but a check after it, was carried out.
proof fn lemma_one_copy(
    env: ExecEnv,
    host: HostMemory,
    states: Seq<DeviceState>,
    calls: Seq<CudaCall>,
)
    requires
        carried_out(env, host, states, calls),
        calls.len() == 1 || (calls.len() == 2 && calls[1] is Validate),
    ensures
        does(env, host, states[0], states.last(), calls[0]),
{
    assert(does(env, host, states[0], states[1], calls[0]));
    if calls.len() == 2 {
        assert(does(env, host, states[1], states[2], calls[1]));
    }
}

proof fn lemma_pixel_place(x: int, i: int, k: int, width: int, bytes: int)
    requires
        0 <= x,
        0 <= i < width,
        0 <= k < bytes,
    ensures
        (x + i) * bytes + k == x * bytes + (i * bytes + k),
        0 <= i * bytes + k < width * bytes,
        (x + width) * bytes == x * bytes + width * bytes,
{
    assert((x + i) * bytes == x * bytes + i * bytes) by (nonlinear_arith);
    assert((x + width) * bytes == x * bytes + width * bytes) by (nonlinear_arith);
    assert(0 <= i * bytes && i * bytes + bytes <= width * bytes) by (nonlinear_arith)
        requires
            0 <= i < width,
            0 < bytes,
    ;
}

proof fn lemma_row_bytes(texture: CudaTexture, region: Region)
    requires
        texture.wf(),
    ensures
        1 <= texture.format.pixel_bytes() <= 16,
        region.x + region.width <= texture.width ==> 0 <= region.width
            * texture.format.pixel_bytes() <= u32::MAX && 0 <= region.x
            * texture.format.pixel_bytes() <= u32::MAX,
        0 <= texture.width * texture.format.pixel_bytes() <= u32::MAX,
{
    let bytes = texture.format.pixel_bytes() as int;
    assert(0 <= texture.width * bytes <= 0x0fff_ffff * 16) by (nonlinear_arith)
        requires
            0 <= texture.width <= 0x0fff_ffff,
            1 <= bytes <= 16,
    ;
    if region.x + region.width <= texture.width {
        assert(0 <= region.width * bytes <= 0x0fff_ffff * 16 && 0 <= region.x * bytes <= 0x0fff_ffff
            * 16) by (nonlinear_arith)
            requires
                0 <= region.width <= 0x0fff_ffff,
                0 <= region.x <= 0x0fff_ffff,
                1 <= bytes <= 16,
        ;
    }
}

/// A write of a payload into a texture puts each pixel of the payload at its place in the
/// region: pixel `(i, j)` of the payload, whose rows lie `pitch` bytes apart, becomes pixel
/// `(x + i, y + j)` of the texture. No other byte of any texture changes, and none of linear
/// memory. It is refused exactly where rows would overlap, the payload is too short, or the
/// region is empty or leaves the texture.
pub proof fn texture_write_places_the_pixels(
    env: ExecEnv,
    host: HostMemory,
    states: Seq<DeviceState>,
    texture: CudaTexture,
    region: Region,
    payload: usize,
    len: u64,
    src_row_pitch: u32,
    index: usize,
    validate: bool,
    i: int,
    j: int,
    k: int,
    other: u64,
    row: int,
    col: int,
)
    requires
        texture.wf(),
        0 <= i < region.width,
        0 <= j < region.height,
        0 <= k < texture.format.pixel_bytes(),
    ensures
        ({
            let op = CudaOp::WriteTexture { texture, region, payload, len, src_row_pitch };
            let bytes = texture.format.pixel_bytes() as int;
            let pitch = if src_row_pitch == 0 {
                region.width * bytes
            } else {
                src_row_pitch as int
            };
            let after = states.last();
            &&& op_calls(env, op, index, validate) is Ok <==> pitch >= region.width * bytes && len
                >= (region.height - 1) * pitch + region.width * bytes && region.x + region.width
                <= texture.width && region.y + region.height <= texture.height
            &&& op_calls(env, op, index, validate) is Ok && carried_out(
                env,
                host,
                states,
                op_calls(env, op, index, validate)->Ok_0,
            ) ==> {
                &&& (after.arrays)(texture.id, region.y + j, (region.x + i) * bytes + k)
                    == host.payloads[payload as int][j * pitch + i * bytes + k]
                &&& !(other == texture.id && region.y <= row < region.y + region.height && region.x
                    * bytes <= col < (region.x + region.width) * bytes) ==> (after.arrays)(
                    other,
                    row,
                    col,
                ) == (states[0].arrays)(other, row, col)
                &&& after.linear == states[0].linear
            }
        }),
{
    let op = CudaOp::WriteTexture { texture, region, payload, len, src_row_pitch };
    let bytes = texture.format.pixel_bytes() as int;
    lemma_row_bytes(texture, region);
    lemma_pixel_place(region.x as int, i, k, region.width as int, bytes);
    lemma_upload_size(texture, region, src_row_pitch);
    if op_calls(env, op, index, validate) is Ok {
        let calls = op_calls(env, op, index, validate)->Ok_0;
        if carried_out(env, host, states, calls) {
            lemma_one_copy(env, host, states, calls);
        }
    }
}

/// The bytes that an upload of a region inside a texture takes.
proof fn lemma_upload_size(texture: CudaTexture, region: Region, src_row_pitch: u32)
    requires
        texture.wf(),
        0 < region.width,
        0 < region.height,
    ensures
        region.x + region.width <= texture.width ==> super::texture::upload_bytes(
            super::texture::row_pitch(
                src_row_pitch,
                super::texture::tight_row(region.width, texture.format),
            ),
            super::texture::tight_row(region.width, texture.format),
            region.height,
        ) == (region.height - 1) * (if src_row_pitch == 0 {
            region.width * texture.format.pixel_bytes()
        } else {
            src_row_pitch as int
        }) + region.width * texture.format.pixel_bytes(),
        0 < region.width * texture.format.pixel_bytes(),
{
    lemma_row_bytes(texture, region);
    let bytes = texture.format.pixel_bytes() as int;
    assert(0 < region.width * bytes) by (nonlinear_arith)
        requires
            0 < region.width,
            1 <= bytes,
    ;
    let pitch = if src_row_pitch == 0 {
        region.width * bytes
    } else {
        src_row_pitch as int
    };
    assert(pitch * (region.height - 1) == (region.height - 1) * pitch) by (nonlinear_arith);
}

/// A write of host staging into a texture puts each staged pixel at its place in the
/// region, as a write of a payload does, from the byte of the staging on where the write
/// starts. It is refused where that would leave the staging, too.
pub proof fn texture_write_from_host_places_the_pixels(
    env: ExecEnv,
    mem: HostMemory,
    states: Seq<DeviceState>,
    texture: CudaTexture,
    region: Region,
    host: u64,
    host_offset: u64,
    len: u64,
    src_row_pitch: u32,
    index: usize,
    validate: bool,
    i: int,
    j: int,
    k: int,
    other: u64,
    row: int,
    col: int,
)
    requires
        texture.wf(),
        mem.staging[host].len() == env.hosts@[host],
        0 <= i < region.width,
        0 <= j < region.height,
        0 <= k < texture.format.pixel_bytes(),
    ensures
        ({
            let op = CudaOp::WriteTextureFromHost {
                texture,
                region,
                host,
                host_offset,
                len,
                src_row_pitch,
            };
            let bytes = texture.format.pixel_bytes() as int;
            let pitch = if src_row_pitch == 0 {
                region.width * bytes
            } else {
                src_row_pitch as int
            };
            let after = states.last();
            &&& op_calls(env, op, index, validate) is Ok <==> host_offset + len
                <= mem.staging[host].len() && pitch >= region.width * bytes && len >= (region.height
                - 1) * pitch + region.width * bytes && region.x + region.width <= texture.width
                && region.y + region.height <= texture.height
            &&& op_calls(env, op, index, validate) is Ok && carried_out(
                env,
                mem,
                states,
                op_calls(env, op, index, validate)->Ok_0,
            ) ==> {
                &&& (after.arrays)(texture.id, region.y + j, (region.x + i) * bytes + k)
                    == mem.staging[host][host_offset + j * pitch + i * bytes + k]
                &&& !(other == texture.id && region.y <= row < region.y + region.height && region.x
                    * bytes <= col < (region.x + region.width) * bytes) ==> (after.arrays)(
                    other,
                    row,
                    col,
                ) == (states[0].arrays)(other, row, col)
                &&& after.linear == states[0].linear
            }
        }),
{
    let op = CudaOp::WriteTextureFromHost {
        texture,
        region,
        host,
        host_offset,
        len,
        src_row_pitch,
    };
    let bytes = texture.format.pixel_bytes() as int;
    lemma_row_bytes(texture, region);
    lemma_pixel_place(region.x as int, i, k, region.width as int, bytes);
    lemma_upload_size(texture, region, src_row_pitch);
    if op_calls(env, op, index, validate) is Ok {
        let calls = op_calls(env, op, index, validate)->Ok_0;
        let pitch = if src_row_pitch == 0 {
            region.width * bytes
        } else {
            src_row_pitch as int
        };
        assert(0 <= j * pitch <= (region.height - 1) * pitch) by (nonlinear_arith)
            requires
                0 <= j <= region.height - 1,
                0 <= pitch,
        ;
        if carried_out(env, mem, states, calls) {
            lemma_one_copy(env, mem, states, calls);
        }
    }
}

/// A copy of a buffer into a texture puts pixel `(i, j)` of the buffer, whose rows lie
/// `pitch` bytes apart from the byte on where the copy starts, at `(x + i, y + j)` of the
/// texture, and changes nothing else. It reads the memory where it lies, or while a graph is
/// captured from the address that was noted. It is refused exactly where rows would overlap
/// or the region leaves the texture.
pub proof fn buffer_to_texture_places_the_pixels(
    env: ExecEnv,
    host: HostMemory,
    states: Seq<DeviceState>,
    src: u64,
    src_abs: u64,
    src_ptr: u64,
    src_row_pitch: u32,
    texture: CudaTexture,
    region: Region,
    index: usize,
    validate: bool,
    i: int,
    j: int,
    k: int,
    other: u64,
    row: int,
    col: int,
)
    requires
        texture.wf(),
        env.memory@[src].base + src_abs <= u64::MAX,
        0 <= i < region.width,
        0 <= j < region.height,
        0 <= k < texture.format.pixel_bytes(),
    ensures
        ({
            let op = CudaOp::CopyBufferToTexture {
                src,
                src_abs,
                src_ptr,
                src_row_pitch,
                texture,
                region,
            };
            let bytes = texture.format.pixel_bytes() as int;
            let pitch = if src_row_pitch == 0 {
                region.width * bytes
            } else {
                src_row_pitch as int
            };
            let from = if validate {
                env.memory@[src].base + src_abs
            } else {
                src_ptr as int
            };
            let after = states.last();
            &&& op_calls(env, op, index, validate) is Ok <==> pitch >= region.width * bytes
                && region.x + region.width <= texture.width && region.y + region.height
                <= texture.height
            &&& op_calls(env, op, index, validate) is Ok && carried_out(
                env,
                host,
                states,
                op_calls(env, op, index, validate)->Ok_0,
            ) ==> {
                &&& (after.arrays)(texture.id, region.y + j, (region.x + i) * bytes + k) == (
                states[0].linear)(from + j * pitch + i * bytes + k)
                &&& !(other == texture.id && region.y <= row < region.y + region.height && region.x
                    * bytes <= col < (region.x + region.width) * bytes) ==> (after.arrays)(
                    other,
                    row,
                    col,
                ) == (states[0].arrays)(other, row, col)
                &&& after.linear == states[0].linear
            }
        }),
{
    let op = CudaOp::CopyBufferToTexture { src, src_abs, src_ptr, src_row_pitch, texture, region };
    let bytes = texture.format.pixel_bytes() as int;
    lemma_row_bytes(texture, region);
    lemma_pixel_place(region.x as int, i, k, region.width as int, bytes);
    if op_calls(env, op, index, validate) is Ok {
        let calls = op_calls(env, op, index, validate)->Ok_0;
        if carried_out(env, host, states, calls) {
            lemma_one_copy(env, host, states, calls);
        }
    }
}

/// A copy of a texture into a buffer puts pixel `(x + i, y + j)` of the texture at row `j`
/// and pixel `i` of the buffer, whose rows lie `pitch` bytes apart, and changes no byte
/// outside these rows and no texture. It writes the memory where it lies, or while a graph
/// is captured at the address that was noted. It is refused exactly where rows would overlap
/// or the region leaves the texture.
pub proof fn texture_to_buffer_places_the_pixels(
    env: ExecEnv,
    host: HostMemory,
    states: Seq<DeviceState>,
    texture: CudaTexture,
    region: Region,
    dst: u64,
    dst_abs: u64,
    dst_ptr: u64,
    dst_row_pitch: u32,
    index: usize,
    validate: bool,
    i: int,
    j: int,
    k: int,
    a: int,
)
    requires
        texture.wf(),
        env.memory@[dst].base + dst_abs <= u64::MAX,
        0 <= i < region.width,
        0 <= j < region.height,
        0 <= k < texture.format.pixel_bytes(),
    ensures
        ({
            let op = CudaOp::CopyTextureToBuffer {
                texture,
                region,
                dst,
                dst_abs,
                dst_ptr,
                dst_row_pitch,
            };
            let bytes = texture.format.pixel_bytes() as int;
            let pitch = if dst_row_pitch == 0 {
                region.width * bytes
            } else {
                dst_row_pitch as int
            };
            let to = if validate {
                env.memory@[dst].base + dst_abs
            } else {
                dst_ptr as int
            };
            let after = states.last();
            &&& op_calls(env, op, index, validate) is Ok <==> pitch >= region.width * bytes
                && region.x + region.width <= texture.width && region.y + region.height
                <= texture.height
            &&& op_calls(env, op, index, validate) is Ok && carried_out(
                env,
                host,
                states,
                op_calls(env, op, index, validate)->Ok_0,
            ) ==> {
                &&& (after.linear)(to + j * pitch + (i * bytes + k)) == (states[0].arrays)(
                    texture.id,
                    region.y + j,
                    (region.x + i) * bytes + k,
                )
                &&& (after.linear)(a) == (states[0].linear)(a) || in_rectangle(
                    a - to,
                    pitch,
                    region.width * bytes,
                    region.height as int,
                )
                &&& after.arrays == states[0].arrays
            }
        }),
{
    let op = CudaOp::CopyTextureToBuffer { texture, region, dst, dst_abs, dst_ptr, dst_row_pitch };
    let bytes = texture.format.pixel_bytes() as int;
    lemma_row_bytes(texture, region);
    lemma_pixel_place(region.x as int, i, k, region.width as int, bytes);
    if op_calls(env, op, index, validate) is Ok {
        let calls = op_calls(env, op, index, validate)->Ok_0;
        if carried_out(env, host, states, calls) {
            lemma_one_copy(env, host, states, calls);
            let copy = calls[0]->copy;
            assert(read_at(
                host_bytes(host, calls[0]->Copy2D_bytes),
                states[0],
                copy.src,
                j,
                i * bytes + k,
            ) == (states[0].arrays)(texture.id, region.y + j, (region.x + i) * bytes + k));
        }
    }
}

/// A copy of a texture gives every byte of the one to the other, and changes nothing else.
/// It is refused exactly where the sizes or the formats differ.
pub proof fn texture_copy_moves_the_pixels(
    env: ExecEnv,
    host: HostMemory,
    states: Seq<DeviceState>,
    from: CudaTexture,
    to: CudaTexture,
    index: usize,
    validate: bool,
    other: u64,
    row: int,
    col: int,
)
    requires
        from.wf(),
    ensures
        ({
            let op = CudaOp::CopyTexture { from, to };
            let after = states.last();
            &&& op_calls(env, op, index, validate) is Ok <==> from.width == to.width && from.height
                == to.height && from.format == to.format
            &&& op_calls(env, op, index, validate) is Ok && carried_out(
                env,
                host,
                states,
                op_calls(env, op, index, validate)->Ok_0,
            ) ==> {
                &&& (after.arrays)(other, row, col) == if other == to.id && 0 <= row < from.height
                    && 0 <= col < from.width * from.format.pixel_bytes() {
                    (states[0].arrays)(from.id, row, col)
                } else {
                    (states[0].arrays)(other, row, col)
                }
                &&& after.linear == states[0].linear
            }
        }),
{
    let op = CudaOp::CopyTexture { from, to };
    lemma_row_bytes(from, Region { x: 0, y: 0, width: 0, height: 0 });
    if op_calls(env, op, index, validate) is Ok {
        let calls = op_calls(env, op, index, validate)->Ok_0;
        if carried_out(env, host, states, calls) {
            lemma_one_copy(env, host, states, calls);
        }
    }
}

/// A download reads the pixels of its region row after row: byte `k` of pixel `(i, j)` of
/// the region is the byte that follows those of the pixels before it. It is refused exactly
/// where the host bytes are not as many as those of the region, or the region leaves the
/// texture.
pub proof fn download_reads_the_pixels(
    state: DeviceState,
    texture: CudaTexture,
    region: Region,
    len: u64,
    i: int,
    j: int,
    k: int,
)
    requires
        texture.wf(),
        0 <= i < region.width,
        0 <= j < region.height,
        0 <= k < texture.format.pixel_bytes(),
    ensures
        ({
            let bytes = texture.format.pixel_bytes() as int;
            &&& region.x + region.width <= texture.width ==> (download_copy(
                texture,
                region,
                len,
            ) is Ok <==> len == region.width * bytes * region.height && region.y + region.height
                <= texture.height)
            &&& download_copy(texture, region, len) matches Ok(copy) ==> {
                &&& region.x + region.width <= texture.width
                &&& copy.dst matches CopyEnd::Host { pitch } && pitch == region.width * bytes
                &&& copy.width_bytes == region.width * bytes
                &&& copy.height == region.height
                &&& read_at(Seq::empty(), state, copy.src, j, i * bytes + k) == (state.arrays)(
                    texture.id,
                    region.y + j,
                    (region.x + i) * bytes + k,
                )
            }
        }),
{
    let bytes = texture.format.pixel_bytes() as int;
    lemma_row_bytes(texture, region);
    lemma_pixel_place(region.x as int, i, k, region.width as int, bytes);
}

} // verus!
