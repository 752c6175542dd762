//! Writing, reading and clearing of buffers from the CPU.

use vstd::prelude::*;

use super::barriers::{
    buffer_barrier_full, full_buffer_barrier, Barrier, GlobalBarrier, ACCESS_COMMON,
    ACCESS_COPY_DEST, ACCESS_COPY_SOURCE, ACCESS_UNORDERED_ACCESS, SYNC_ALL, SYNC_COPY,
};
use super::buffer::{BufferError, BufferTable, HeapType, InitialState, ResourcePlan};
use super::context::PendingDeletion;
use super::command_list::{issue_barrier, issue_one, Call};
use super::memory::{
    apply, is_zero_buffer, overwrite, run_calls, run_calls_in_a_row, zero_fill_zeroes_the_range,
    zeros, Memory,
};
use super::record::{clear_size, clear_span, emit_zero_fill, zero_fill};
use super::types::BufferState;

verus! {

broadcast use vstd::std_specs::hash::group_hash_axioms;

/// Most bytes that one upload moves.
pub const UPLOAD_CHUNK_SIZE: u64 = 0x100_0000;

/// One chunk of an upload: bytes of the data, where they go, and the fence value
/// that is signalled once they are there.
#[derive(Clone, Copy, Debug, PartialEq, Eq, Structural)]
pub struct UploadChunk {
    pub first: u64,
    pub size: u64,
    pub dst_offset: u64,
    pub fence_value: u64,
}

/// The `i`th chunk of an upload of `len` bytes to `offset`. Each chunk takes two
/// fence values, of which it signals the first.
pub open spec fn upload_chunk(offset: int, len: int, fence_value: int, i: int) -> UploadChunk {
    UploadChunk {
        first: (i * UPLOAD_CHUNK_SIZE) as u64,
        size: if len - i * UPLOAD_CHUNK_SIZE < UPLOAD_CHUNK_SIZE {
            (len - i * UPLOAD_CHUNK_SIZE) as u64
        } else {
            UPLOAD_CHUNK_SIZE
        },
        dst_offset: (offset + i * UPLOAD_CHUNK_SIZE) as u64,
        fence_value: (fence_value + 1 + 2 * i) as u64,
    }
}

/// How many chunks an upload takes.
pub open spec fn chunk_count(len: int) -> int {
    (len + UPLOAD_CHUNK_SIZE - 1) / (UPLOAD_CHUNK_SIZE as int)
}

/// The chunks of an upload.
pub open spec fn upload_chunks(offset: int, len: int, fence_value: int) -> Seq<UploadChunk> {
    Seq::new(chunk_count(len) as nat, |i: int| upload_chunk(offset, len, fence_value, i))
}

/// How the bytes of a write reach a buffer.
pub enum WritePlan {
    Nothing,
    /// Through a mapping of the buffer's resource.
    Mapped { resource: u64, offset: u64, size: u64 },
    /// Through an upload buffer, a chunk at a time; `upload` is the one that the
    /// buffer has, where it holds a chunk, else one of `width` bytes is to be made
    /// first.
    Staged {
        resource: u64,
        upload: Option<u64>,
        width: u64,
        chunks: Vec<UploadChunk>,
        next_fence_value: u64,
    },
}

/// The upload buffer that a buffer has, where it holds `width` bytes.
pub open spec fn fitting_upload(b: BufferState, width: u64) -> Option<u64> {
    if b.upload_width >= width {
        b.upload_buffer
    } else {
        None
    }
}

/// Bytes that the largest chunk of an upload moves.
pub open spec fn chunk_width(len: u64) -> u64 {
    if len < UPLOAD_CHUNK_SIZE {
        len
    } else {
        UPLOAD_CHUNK_SIZE
    }
}

fn plan_chunks(offset: u64, len: u64, fence_value: u64) -> (chunks: Vec<UploadChunk>)
    requires
        offset + len <= u64::MAX,
        fence_value + 2 * chunk_count(len as int) <= u64::MAX,
    ensures
        chunks@ == upload_chunks(offset as int, len as int, fence_value as int),
{
    let mut chunks: Vec<UploadChunk> = Vec::new();
    let mut written: u64 = 0;
    let mut fence: u64 = fence_value;
    let ghost mut n: int = 0;
    while written < len
        invariant
            0 <= n <= chunk_count(len as int),
            written <= len,
            offset + len <= u64::MAX,
            fence == fence_value + 2 * n,
            fence_value + 2 * chunk_count(len as int) <= u64::MAX,
            written == len || written == n * UPLOAD_CHUNK_SIZE,
            written == len ==> n == chunk_count(len as int),
            chunks@ == Seq::new(
                n as nat,
                |i: int| upload_chunk(offset as int, len as int, fence_value as int, i),
            ),
        decreases len - written,
    {
        let left: u64 = len - written;
        let size: u64 = if left < UPLOAD_CHUNK_SIZE { left } else { UPLOAD_CHUNK_SIZE };
        assert(n < chunk_count(len as int));
        chunks.push(
            UploadChunk {
                first: written,
                size,
                dst_offset: offset + written,
                fence_value: fence + 1,
            },
        );
        proof {
            n = n + 1;
        }
        assert(chunks@ =~= Seq::new(
            n as nat,
            |i: int| upload_chunk(offset as int, len as int, fence_value as int, i),
        ));
        written += size;
        fence += 2;
    }
    chunks
}

impl BufferTable {
    /// Plans a write of `len` bytes at `offset`. No chunk is larger than the upload
    /// buffer that it goes through.
    pub fn plan_write(&self, buffer: u64, offset: u64, len: u64, fence_value: u64) -> (plan: Result<
        WritePlan,
        BufferError,
    >)
        requires
            offset + len <= u64::MAX,
            fence_value + 2 * chunk_count(len as int) <= u64::MAX,
        ensures
            if len == 0 {
                plan matches Ok(WritePlan::Nothing)
            } else if !self.entries@.contains_key(buffer) {
                plan matches Err(e) && e == BufferError::InvalidBuffer
            } else {
                let b = self.entries@[buffer];
                if offset + len > b.size {
                    plan matches Err(e) && e == BufferError::OutOfBounds
                } else if !b.is_storage {
                    plan matches Ok(p) && p == (WritePlan::Mapped {
                        resource: b.resource,
                        offset,
                        size: len,
                    })
                } else {
                    &&& plan matches Ok(
                        WritePlan::Staged { resource, upload, width, chunks, next_fence_value },
                    )
                    &&& resource == b.resource
                    &&& upload == fitting_upload(b, chunk_width(len))
                    &&& width == chunk_width(len)
                    &&& forall|i: int|
                        0 <= i < chunks@.len() ==> (#[trigger] chunks@[i]).size <= (
                        if upload is Some {
                            b.upload_width
                        } else {
                            width
                        })
                    &&& chunks@ == upload_chunks(offset as int, len as int, fence_value as int)
                    &&& next_fence_value == fence_value + 2 * chunk_count(len as int)
                }
            },
    {
        if len == 0 {
            return Ok(WritePlan::Nothing);
        }
        let b = match self.entries.get(&buffer) {
            Some(b) => b,
            None => {
                return Err(BufferError::InvalidBuffer);
            },
        };
        if offset + len > b.size {
            return Err(BufferError::OutOfBounds);
        }
        if !b.is_storage {
            return Ok(WritePlan::Mapped { resource: b.resource, offset, size: len });
        }
        let width: u64 = if len < UPLOAD_CHUNK_SIZE { len } else { UPLOAD_CHUNK_SIZE };
        let chunks = plan_chunks(offset, len, fence_value);
        let next_fence_value: u64 = fence_value + 2 * (chunks.len() as u64);
        let upload: Option<u64> = if b.upload_width >= width { b.upload_buffer } else { None };
        Ok(
            WritePlan::Staged {
                resource: b.resource,
                upload,
                width,
                chunks,
                next_fence_value,
            },
        )
    }

    /// Plans the upload buffer of a buffer for a write of `min_size` bytes: none where
    /// it has one already that holds a chunk of the write.
    pub fn ensure_upload_buffer(&self, buffer: u64, device_known: bool, min_size: u64) -> (plan: Result<
        Option<ResourcePlan>,
        BufferError,
    >)
        ensures
            plan == (if !self.entries@.contains_key(buffer) {
                Err::<Option<ResourcePlan>, BufferError>(BufferError::InvalidBuffer)
            } else if fitting_upload(self.entries@[buffer], chunk_width(min_size)) is Some {
                Ok(None)
            } else if !device_known {
                Err(BufferError::InvalidDevice)
            } else {
                Ok(
                    Some(
                        ResourcePlan {
                            heap: HeapType::Upload,
                            width: chunk_width(min_size),
                            allow_unordered_access: false,
                            initial_state: InitialState::GenericRead,
                        },
                    ),
                )
            }),
    {
        let b = match self.entries.get(&buffer) {
            Some(b) => b,
            None => {
                return Err(BufferError::InvalidBuffer);
            },
        };
        let width: u64 = if min_size < UPLOAD_CHUNK_SIZE { min_size } else { UPLOAD_CHUNK_SIZE };
        if b.upload_buffer.is_some() && b.upload_width >= width {
            return Ok(None);
        }
        if !device_known {
            return Err(BufferError::InvalidDevice);
        }
        Ok(
            Some(
                ResourcePlan {
                    heap: HeapType::Upload,
                    width,
                    allow_unordered_access: false,
                    initial_state: InitialState::GenericRead,
                },
            ),
        )
    }

    /// Notes the upload buffer of `width` bytes that was made for a buffer. One that it
    /// takes the place of goes once the device has reached a fence value: that before
    /// `device_fence`, the next one to be given out.
    pub fn set_upload_buffer(&mut self, buffer: u64, upload: u64, width: u64, device_fence: u64) -> (replaced:
        Option<(u64, PendingDeletion)>)
        requires
            old(self).wf(),
            old(self).entries@.contains_key(buffer),
        ensures
            final(self).wf(),
            final(self).next_handle == old(self).next_handle,
            final(self).entries@ == old(self).entries@.insert(
                buffer,
                BufferState {
                    upload_buffer: Some(upload),
                    upload_width: width,
                    ..old(self).entries@[buffer]
                },
            ),
            replaced == (match old(self).entries@[buffer].upload_buffer {
                Some(old_upload) => Some(
                    (
                        if device_fence == 0 {
                            0u64
                        } else {
                            (device_fence - 1) as u64
                        },
                        PendingDeletion::StandaloneResource(old_upload),
                    ),
                ),
                None => None,
            }),
    {
        let mut replaced: Option<(u64, PendingDeletion)> = None;
        match self.entries.remove(&buffer) {
            Some(mut b) => {
                if let Some(old_upload) = b.upload_buffer {
                    replaced = Some(
                        (
                            device_fence.saturating_sub(1),
                            PendingDeletion::StandaloneResource(old_upload),
                        ),
                    );
                }
                b.upload_buffer = Some(upload);
                b.upload_width = width;
                self.entries.insert(buffer, b);
            },
            None => {
                assert(false);
            },
        }
        assert(self.entries@ =~= old(self).entries@.insert(
            buffer,
            BufferState {
                upload_buffer: Some(upload),
                upload_width: width,
                ..old(self).entries@[buffer]
            },
        ));
        replaced
    }
}

/// The barrier that opens a storage buffer for copying into it.
pub open spec fn copy_in(resource: u64) -> Barrier {
    Barrier::Buffer(
        full_buffer_barrier(resource, SYNC_ALL, SYNC_COPY, ACCESS_COMMON, ACCESS_COPY_DEST),
    )
}

/// The barrier that ends copying into a storage buffer.
pub open spec fn copy_in_done(resource: u64) -> Barrier {
    Barrier::Buffer(
        full_buffer_barrier(resource, SYNC_COPY, SYNC_ALL, ACCESS_COPY_DEST, ACCESS_COMMON),
    )
}

/// Calls that move one staged chunk into a buffer.
pub open spec fn chunk_calls(resource: u64, upload: u64, chunk: UploadChunk) -> Seq<Call> {
    issue_one(copy_in(resource)) + seq![
        Call::CopyBufferRegion {
            dst: resource,
            dst_offset: chunk.dst_offset,
            src: upload,
            src_offset: 0,
            size: chunk.size,
        },
    ] + issue_one(copy_in_done(resource))
}

/// Records the calls that move one staged chunk into a buffer.
pub fn record_chunk(resource: u64, upload: u64, chunk: &UploadChunk) -> (calls: Vec<Call>)
    ensures
        calls@ == chunk_calls(resource, upload, *chunk),
{
    let mut calls: Vec<Call> = Vec::new();
    let to = buffer_barrier_full(resource, SYNC_ALL, SYNC_COPY, ACCESS_COMMON, ACCESS_COPY_DEST);
    issue_barrier(&mut calls, Barrier::Buffer(to));
    calls.push(
        Call::CopyBufferRegion {
            dst: resource,
            dst_offset: chunk.dst_offset,
            src: upload,
            src_offset: 0,
            size: chunk.size,
        },
    );
    let back = buffer_barrier_full(resource, SYNC_COPY, SYNC_ALL, ACCESS_COPY_DEST, ACCESS_COMMON);
    issue_barrier(&mut calls, Barrier::Buffer(back));
    assert(calls@ =~= chunk_calls(resource, upload, *chunk));
    calls
}

/// The bytes of a buffer after the first `n` chunks of an upload.
pub open spec fn after_chunks(bytes: Seq<u8>, data: Seq<u8>, chunks: Seq<UploadChunk>, n: int) -> Seq<u8>
    decreases n,
{
    if n <= 0 {
        bytes
    } else {
        let c = chunks[n - 1];
        overwrite(
            after_chunks(bytes, data, chunks, n - 1),
            c.dst_offset as int,
            data.subrange(c.first as int, c.first + c.size),
        )
    }
}

proof fn lemma_after_chunks(bytes: Seq<u8>, data: Seq<u8>, offset: int, fence_value: int, n: int)
    requires
        0 <= offset,
        offset + data.len() <= bytes.len() <= u64::MAX,
        0 <= n <= chunk_count(data.len() as int),
    ensures
        after_chunks(bytes, data, upload_chunks(offset, data.len() as int, fence_value), n)
            == overwrite(
            bytes,
            offset,
            data.take(
                if n * UPLOAD_CHUNK_SIZE < data.len() {
                    n * UPLOAD_CHUNK_SIZE
                } else {
                    data.len() as int
                },
            ),
        ),
    decreases n,
{
    let chunks = upload_chunks(offset, data.len() as int, fence_value);
    if n == 0 {
        assert(overwrite(bytes, offset, data.take(0)) =~= bytes);
    } else {
        lemma_after_chunks(bytes, data, offset, fence_value, n - 1);
        let done = (n - 1) * UPLOAD_CHUNK_SIZE;
        assert(done < data.len());
        let c = chunks[n - 1];
        assert(c.first == done && c.dst_offset == offset + done);
        assert(after_chunks(bytes, data, chunks, n) =~= overwrite(
            bytes,
            offset,
            data.take(done + c.size),
        ));
    }
}

/// Writing by chunks writes the data: every byte of it at its place, and no other
/// byte.
pub proof fn chunked_write_writes_the_data(
    bytes: Seq<u8>,
    data: Seq<u8>,
    offset: int,
    fence_value: int,
)
    requires
        0 <= offset,
        offset + data.len() <= bytes.len() <= u64::MAX,
    ensures
        after_chunks(
            bytes,
            data,
            upload_chunks(offset, data.len() as int, fence_value),
            chunk_count(data.len() as int),
        ) == overwrite(bytes, offset, data),
{
    lemma_after_chunks(bytes, data, offset, fence_value, chunk_count(data.len() as int));
    assert(data.take(data.len() as int) =~= data);
}

/// The calls of one chunk move its bytes from the upload buffer.
pub proof fn chunk_calls_move_the_chunk(
    memory: Memory,
    resource: u64,
    upload: u64,
    chunk: UploadChunk,
)
    requires
        memory.contains_key(resource),
        memory.contains_key(upload),
        chunk.size <= memory[upload].len(),
    ensures
        run_calls(memory, chunk_calls(resource, upload, chunk)) == memory.insert(
            resource,
            overwrite(
                memory[resource],
                chunk.dst_offset as int,
                memory[upload].subrange(0, chunk.size as int),
            ),
        ),
{
    let a = copy_in(resource);
    let b = copy_in_done(resource);
    let copy = Call::CopyBufferRegion {
        dst: resource,
        dst_offset: chunk.dst_offset,
        src: upload,
        src_offset: 0,
        size: chunk.size,
    };
    let calls = chunk_calls(resource, upload, chunk);
    reveal_with_fuel(run_calls, 6);
    assert(calls =~= seq![
        Call::QueueBarrier(a),
        Call::IssueBarriers,
        copy,
        Call::QueueBarrier(b),
        Call::IssueBarriers,
    ]);
    let c4 = calls.drop_last();
    let c3 = c4.drop_last();
    let c2 = c3.drop_last();
    let c1 = c2.drop_last();
    assert(c1.drop_last() =~= Seq::<Call>::empty());
    assert(c4.last() == Call::QueueBarrier(b) && c3.last() == copy && c2.last()
        == Call::IssueBarriers && c1.last() == Call::QueueBarrier(a));
}

/// Barriers around a copy into a read-back resource. Global ones: buffer barriers
/// are not safe on every adapter here.
pub open spec fn before_readback() -> GlobalBarrier {
    GlobalBarrier {
        sync_before: SYNC_ALL,
        sync_after: SYNC_COPY,
        access_before: ACCESS_UNORDERED_ACCESS,
        access_after: ACCESS_COPY_SOURCE,
    }
}

/// The barrier after a copy into a read-back resource.
pub open spec fn after_readback() -> GlobalBarrier {
    GlobalBarrier {
        sync_before: SYNC_COPY,
        sync_after: SYNC_ALL,
        access_before: ACCESS_COPY_SOURCE,
        access_after: ACCESS_UNORDERED_ACCESS,
    }
}

/// Calls that copy the first bytes of a buffer into a read-back resource.
pub open spec fn readback_calls(resource: u64, readback: u64, len: u64) -> Seq<Call> {
    issue_one(Barrier::Global(before_readback())) + seq![
        Call::CopyBufferRegion {
            dst: readback,
            dst_offset: 0,
            src: resource,
            src_offset: 0,
            size: len,
        },
    ] + issue_one(Barrier::Global(after_readback()))
}

/// Records the copy of the first bytes of a buffer into a read-back resource.
pub fn record_readback(calls: &mut Vec<Call>, resource: u64, readback: u64, len: u64)
    ensures
        final(calls)@ == old(calls)@ + readback_calls(resource, readback, len),
{
    issue_barrier(
        calls,
        Barrier::Global(
            GlobalBarrier {
                sync_before: SYNC_ALL,
                sync_after: SYNC_COPY,
                access_before: ACCESS_UNORDERED_ACCESS,
                access_after: ACCESS_COPY_SOURCE,
            },
        ),
    );
    calls.push(
        Call::CopyBufferRegion {
            dst: readback,
            dst_offset: 0,
            src: resource,
            src_offset: 0,
            size: len,
        },
    );
    issue_barrier(
        calls,
        Barrier::Global(
            GlobalBarrier {
                sync_before: SYNC_COPY,
                sync_after: SYNC_ALL,
                access_before: ACCESS_COPY_SOURCE,
                access_after: ACCESS_UNORDERED_ACCESS,
            },
        ),
    );
    assert(calls@ =~= old(calls)@ + readback_calls(resource, readback, len));
}

/// How a buffer is read by the CPU.
#[derive(Clone, Copy, Debug, PartialEq, Eq, Structural)]
pub enum ReadPlan {
    /// Copy it into its own read-back resource, then read that resource's mapping.
    Coherent { resource: u64, readback: u64, size: u64 },
    /// Copy it into a read-back resource of `len` bytes, made for the purpose.
    Staged { resource: u64, len: u64 },
    /// Read a mapping of the buffer's resource.
    Mapped { resource: u64, len: u64 },
}

impl BufferTable {
    /// Records the copy of a CPU-readable storage buffer into its own read-back
    /// resource. Nothing is recorded for another buffer.
    pub fn emit_copy_coherent_readback(&self, buffer: u64, calls: &mut Vec<Call>) -> (result: Result<
        (),
        BufferError,
    >)
        ensures
            if !self.entries@.contains_key(buffer) {
                result == Err::<(), BufferError>(BufferError::InvalidBuffer) && final(calls)@
                    == old(calls)@
            } else {
                let b = self.entries@[buffer];
                if !b.flags.cpu_readable || !b.is_storage {
                    result is Ok && final(calls)@ == old(calls)@
                } else if b.coherent_readback is None {
                    result == Err::<(), BufferError>(BufferError::MissingReadback)
                        && final(calls)@ == old(calls)@
                } else {
                    result is Ok && final(calls)@ == old(calls)@ + readback_calls(
                        b.resource,
                        b.coherent_readback->0,
                        b.size,
                    )
                }
            },
    {
        let b = match self.entries.get(&buffer) {
            Some(b) => b,
            None => {
                return Err(BufferError::InvalidBuffer);
            },
        };
        if !b.flags.cpu_readable || !b.is_storage {
            return Ok(());
        }
        match b.coherent_readback {
            Some(readback) => {
                record_readback(calls, b.resource, readback, b.size);
                Ok(())
            },
            None => Err(BufferError::MissingReadback),
        }
    }

    /// Checks a read of the persistent mapping of a CPU-readable buffer.
    pub fn read_coherent(&self, buffer: u64, offset: u64, len: u64) -> (result: Result<
        (),
        BufferError,
    >)
        requires
            offset + len <= u64::MAX,
        ensures
            result == (if !self.entries@.contains_key(buffer) {
                Err::<(), BufferError>(BufferError::InvalidBuffer)
            } else if !self.entries@[buffer].flags.cpu_readable {
                Err(BufferError::NotCpuReadable)
            } else if !self.entries@[buffer].coherent_readback_mapped {
                Err(BufferError::NotMapped)
            } else if offset + len > self.entries@[buffer].size {
                Err(BufferError::OutOfBounds)
            } else {
                Ok(())
            }),
    {
        let b = match self.entries.get(&buffer) {
            Some(b) => b,
            None => {
                return Err(BufferError::InvalidBuffer);
            },
        };
        if !b.flags.cpu_readable {
            return Err(BufferError::NotCpuReadable);
        }
        if !b.coherent_readback_mapped {
            return Err(BufferError::NotMapped);
        }
        if offset + len > b.size {
            return Err(BufferError::OutOfBounds);
        }
        Ok(())
    }

    /// Plans a read of the first `len` bytes of a buffer.
    pub fn read_to_cpu(&self, buffer: u64, device_known: bool, len: u64) -> (plan: Result<
        ReadPlan,
        BufferError,
    >)
        ensures
            plan == (if !self.entries@.contains_key(buffer) {
                Err::<ReadPlan, BufferError>(BufferError::InvalidBuffer)
            } else {
                let b = self.entries@[buffer];
                if len > b.size {
                    Err(BufferError::OutOfBounds)
                } else if !b.is_storage {
                    Ok(ReadPlan::Mapped { resource: b.resource, len })
                } else if !device_known {
                    Err(BufferError::InvalidDevice)
                } else if b.flags.cpu_readable && b.coherent_readback is Some {
                    if b.coherent_readback_mapped {
                        Ok(
                            ReadPlan::Coherent {
                                resource: b.resource,
                                readback: b.coherent_readback->0,
                                size: b.size,
                            },
                        )
                    } else {
                        Err(BufferError::NotMapped)
                    }
                } else {
                    Ok(ReadPlan::Staged { resource: b.resource, len })
                }
            }),
    {
        let b = match self.entries.get(&buffer) {
            Some(b) => b,
            None => {
                return Err(BufferError::InvalidBuffer);
            },
        };
        if len > b.size {
            return Err(BufferError::OutOfBounds);
        }
        if !b.is_storage {
            return Ok(ReadPlan::Mapped { resource: b.resource, len });
        }
        if !device_known {
            return Err(BufferError::InvalidDevice);
        }
        if b.flags.cpu_readable {
            match b.coherent_readback {
                Some(readback) => {
                    if !b.coherent_readback_mapped {
                        return Err(BufferError::NotMapped);
                    }
                    return Ok(
                        ReadPlan::Coherent { resource: b.resource, readback, size: b.size },
                    );
                },
                None => {},
            }
        }
        Ok(ReadPlan::Staged { resource: b.resource, len })
    }
}

/// Calls of a synchronous clear of a storage buffer.
pub open spec fn clear_copy_calls(resource: u64, zero: u64, offset: u64, size: u64) -> Seq<Call> {
    issue_one(copy_in(resource)) + zero_fill(resource, offset as int, zero, size as int)
        + issue_one(copy_in_done(resource))
}

impl BufferTable {
    /// Plans a clear: copies from the zero buffer for storage, zeros through a
    /// mapping otherwise, nothing for an empty range.
    pub fn clear(&self, buffer: u64, zero: Option<u64>, offset: u64, size: u64) -> (calls: Result<
        Vec<Call>,
        BufferError,
    >)
        requires
            offset + size <= u64::MAX,
        ensures
            if !self.entries@.contains_key(buffer) {
                calls matches Err(e) && e == BufferError::InvalidBuffer
            } else {
                let b = self.entries@[buffer];
                let span = clear_span(b.size, offset, size);
                if offset + span > b.size {
                    calls matches Err(e) && e == BufferError::OutOfBounds
                } else if span == 0 {
                    calls matches Ok(c) && c@ == Seq::<Call>::empty()
                } else if !b.is_storage {
                    calls matches Ok(c) && c@ == seq![
                        Call::ZeroMapped { resource: b.resource, offset, size: span },
                    ]
                } else if zero is None {
                    calls matches Err(e) && e == BufferError::InvalidDevice
                } else {
                    calls matches Ok(c) && c@ == clear_copy_calls(
                        b.resource,
                        zero->0,
                        offset,
                        span,
                    )
                }
            },
    {
        let b = match self.entries.get(&buffer) {
            Some(b) => b,
            None => {
                return Err(BufferError::InvalidBuffer);
            },
        };
        let span: u64 = clear_size(b.size, offset, size);
        if offset + span > b.size {
            return Err(BufferError::OutOfBounds);
        }
        let mut calls: Vec<Call> = Vec::new();
        if span == 0 {
            return Ok(calls);
        }
        if !b.is_storage {
            calls.push(Call::ZeroMapped { resource: b.resource, offset, size: span });
            assert(calls@ =~= seq![
                Call::ZeroMapped { resource: b.resource, offset, size: span },
            ]);
            return Ok(calls);
        }
        let zero: u64 = match zero {
            Some(zero) => zero,
            None => {
                return Err(BufferError::InvalidDevice);
            },
        };
        let resource: u64 = b.resource;
        let to = buffer_barrier_full(resource, SYNC_ALL, SYNC_COPY, ACCESS_COMMON, ACCESS_COPY_DEST);
        issue_barrier(&mut calls, Barrier::Buffer(to));
        emit_zero_fill(&mut calls, resource, offset, zero, span);
        let back = buffer_barrier_full(
            resource,
            SYNC_COPY,
            SYNC_ALL,
            ACCESS_COPY_DEST,
            ACCESS_COMMON,
        );
        issue_barrier(&mut calls, Barrier::Buffer(back));
        assert(calls@ =~= clear_copy_calls(resource, zero, offset, span));
        Ok(calls)
    }
}

/// A clear of a storage buffer zeroes its range and nothing else.
pub proof fn clear_zeroes_the_range(
    memory: Memory,
    resource: u64,
    zero: u64,
    offset: u64,
    size: u64,
)
    requires
        memory.contains_key(resource),
        is_zero_buffer(memory, zero),
        resource != zero,
        offset + size <= memory[resource].len(),
        offset + size <= u64::MAX,
    ensures
        run_calls(memory, clear_copy_calls(resource, zero, offset, size)) == memory.insert(
            resource,
            overwrite(memory[resource], offset as int, zeros(size as int)),
        ),
{
    let head = issue_one(copy_in(resource));
    let fill = zero_fill(resource, offset as int, zero, size as int);
    let tail = issue_one(copy_in_done(resource));
    run_calls_in_a_row(memory, head + fill, tail);
    run_calls_in_a_row(memory, head, fill);
    lemma_issue_keeps_memory(memory, copy_in(resource));
    zero_fill_zeroes_the_range(memory, resource, offset as int, zero, size as int);
    lemma_issue_keeps_memory(run_calls(memory, fill), copy_in_done(resource));
}

/// A read of a storage buffer hands out the bytes that it holds: the copy fills the
/// read-back resource with them and changes nothing else.
pub proof fn readback_copies_the_contents(
    memory: Memory,
    resource: u64,
    readback: u64,
    len: u64,
)
    requires
        memory.contains_key(resource),
        memory.contains_key(readback),
        len <= memory[resource].len(),
        len <= memory[readback].len(),
    ensures
        ({
            let after = run_calls(memory, readback_calls(resource, readback, len));
            &&& after[readback].take(len as int) == memory[resource].take(len as int)
            &&& after == memory.insert(readback, after[readback])
            &&& after[readback].len() == memory[readback].len()
        }),
{
    let head = issue_one(Barrier::Global(before_readback()));
    let copy = Call::CopyBufferRegion {
        dst: readback,
        dst_offset: 0,
        src: resource,
        src_offset: 0,
        size: len,
    };
    let tail = issue_one(Barrier::Global(after_readback()));
    let calls = readback_calls(resource, readback, len);
    run_calls_in_a_row(memory, head + seq![copy], tail);
    run_calls_in_a_row(memory, head, seq![copy]);
    lemma_issue_keeps_memory(memory, Barrier::Global(before_readback()));
    assert(seq![copy].drop_last() =~= Seq::<Call>::empty());
    reveal_with_fuel(run_calls, 2);
    let mid = run_calls(memory, seq![copy]);
    assert(mid == apply(memory, copy));
    lemma_issue_keeps_memory(mid, Barrier::Global(after_readback()));
    assert(mid[readback].take(len as int) =~= memory[resource].take(len as int));
    assert(mid =~= memory.insert(readback, mid[readback]));
}

proof fn lemma_issue_keeps_memory(memory: Memory, barrier: Barrier)
    ensures
        run_calls(memory, issue_one(barrier)) == memory,
{
    reveal_with_fuel(run_calls, 3);
    assert(issue_one(barrier).drop_last() =~= seq![Call::QueueBarrier(barrier)]);
    assert(seq![Call::QueueBarrier(barrier)].drop_last() =~= Seq::<Call>::empty());
}

/// A chunk of the data lies in the upload buffer, which is large enough for it.
pub open spec fn chunk_staged(memory: Memory, upload: u64, data: Seq<u8>, chunk: UploadChunk) -> bool {
    &&& memory.contains_key(upload)
    &&& chunk.size <= memory[upload].len()
    &&& memory[upload].take(chunk.size as int) == data.subrange(
        chunk.first as int,
        chunk.first + chunk.size,
    )
}

/// A write of `data` a chunk at a time: `states` holds memory before the calls of each
/// chunk, when the host has put the chunk into the upload buffer, and after the calls of
/// the last. Between the calls of two chunks the host writes the upload buffer alone.
pub open spec fn written_in_chunks(
    states: Seq<Memory>,
    resource: u64,
    upload: u64,
    data: Seq<u8>,
    chunks: Seq<UploadChunk>,
) -> bool {
    &&& states.len() == chunks.len() + 1
    &&& forall|i: int|
        0 <= i < chunks.len() ==> {
            let after = run_calls(#[trigger] states[i], chunk_calls(resource, upload, chunks[i]));
            &&& chunk_staged(states[i], upload, data, chunks[i])
            &&& states[i + 1] == after.insert(upload, states[i + 1][upload])
        }
}

proof fn lemma_written_so_far(
    states: Seq<Memory>,
    resource: u64,
    upload: u64,
    data: Seq<u8>,
    chunks: Seq<UploadChunk>,
    n: int,
)
    requires
        written_in_chunks(states, resource, upload, data, chunks),
        states[0].contains_key(resource),
        states[0].contains_key(upload),
        resource != upload,
        0 <= n <= chunks.len(),
    ensures
        states[n].dom() == states[0].dom(),
        states[n][resource] == after_chunks(states[0][resource], data, chunks, n),
        forall|r: u64|
            r != resource && r != upload ==> #[trigger] states[n][r] == states[0][r],
    decreases n,
{
    if n > 0 {
        lemma_written_so_far(states, resource, upload, data, chunks, n - 1);
        let before = states[n - 1];
        let c = chunks[n - 1];
        assert(chunk_staged(before, upload, data, c));
        assert(before.dom().contains(resource));
        chunk_calls_move_the_chunk(before, resource, upload, c);
        assert(before[upload].subrange(0, c.size as int) =~= before[upload].take(c.size as int));
        assert(states[n].dom() =~= states[0].dom());
    }
}

/// The bytes that a read of `len` bytes hands out. `staging` is the read-back resource
/// that is made for a read that needs one.
pub open spec fn read_bytes(memory: Memory, plan: ReadPlan, staging: u64, len: u64) -> Seq<u8> {
    match plan {
        ReadPlan::Coherent { resource, readback, size } => run_calls(
            memory,
            readback_calls(resource, readback, size),
        )[readback].take(len as int),
        ReadPlan::Staged { resource, len: copied } => run_calls(
            memory,
            readback_calls(resource, staging, copied),
        )[staging].take(len as int),
        ReadPlan::Mapped { resource, len: mapped } => memory[resource].take(len as int),
    }
}

/// A read of `len` bytes of a resource can be carried out: what it copies is there, and
/// what it copies into has room for it.
pub open spec fn readable(memory: Memory, plan: ReadPlan, staging: u64, resource: u64, len: u64) -> bool {
    match plan {
        ReadPlan::Coherent { resource: from, readback, size } => {
            &&& from == resource
            &&& memory.contains_key(readback)
            &&& len <= size <= memory[resource].len()
            &&& size <= memory[readback].len()
        },
        ReadPlan::Staged { resource: from, len: copied } => {
            &&& from == resource
            &&& copied == len
            &&& memory.contains_key(staging)
            &&& len <= memory[resource].len()
            &&& len <= memory[staging].len()
        },
        ReadPlan::Mapped { resource: from, len: mapped } => {
            &&& from == resource
            &&& mapped == len
            &&& len <= memory[resource].len()
        },
    }
}

/// A read hands out the first bytes that the buffer holds, whichever way it goes.
pub proof fn read_hands_out_the_contents(
    memory: Memory,
    plan: ReadPlan,
    staging: u64,
    resource: u64,
    len: u64,
)
    requires
        memory.contains_key(resource),
        readable(memory, plan, staging, resource, len),
    ensures
        read_bytes(memory, plan, staging, len) == memory[resource].take(len as int),
{
    match plan {
        ReadPlan::Coherent { resource: from, readback, size } => {
            readback_copies_the_contents(memory, resource, readback, size);
            let after = run_calls(memory, readback_calls(resource, readback, size));
            assert(after[readback].take(len as int) =~= after[readback].take(size as int).take(
                len as int,
            ));
            assert(memory[resource].take(len as int) =~= memory[resource].take(size as int).take(
                len as int,
            ));
        },
        ReadPlan::Staged { .. } => {
            readback_copies_the_contents(memory, resource, staging, len);
        },
        ReadPlan::Mapped { .. } => {},
    }
}

/// A read gives back what a write through an upload buffer wrote: once every chunk has
/// gone through the upload buffer, the buffer holds its old bytes with the data over
/// them, no other resource has changed, and a read of `len` bytes hands out the first
/// of these bytes.
pub proof fn read_gives_back_what_was_written(
    states: Seq<Memory>,
    resource: u64,
    upload: u64,
    data: Seq<u8>,
    offset: int,
    fence_value: int,
    plan: ReadPlan,
    staging: u64,
    len: u64,
)
    requires
        written_in_chunks(
            states,
            resource,
            upload,
            data,
            upload_chunks(offset, data.len() as int, fence_value),
        ),
        states[0].contains_key(resource),
        states[0].contains_key(upload),
        resource != upload,
        0 <= offset,
        offset + data.len() <= states[0][resource].len() <= u64::MAX,
        readable(states.last(), plan, staging, resource, len),
    ensures
        states.last()[resource] == overwrite(states[0][resource], offset, data),
        forall|r: u64|
            r != resource && r != upload ==> #[trigger] states.last()[r] == states[0][r],
        read_bytes(states.last(), plan, staging, len) == overwrite(
            states[0][resource],
            offset,
            data,
        ).take(len as int),
{
    let chunks = upload_chunks(offset, data.len() as int, fence_value);
    lemma_written_so_far(states, resource, upload, data, chunks, chunks.len() as int);
    chunked_write_writes_the_data(states[0][resource], data, offset, fence_value);
    assert(states.last().dom().contains(resource));
    read_hands_out_the_contents(states.last(), plan, staging, resource, len);
}

/// Bytes of the upload buffer that a write of `len` bytes goes through: the one that the
/// buffer has, or the one that is made for the write.
pub open spec fn upload_room(b: BufferState, len: u64) -> u64 {
    if fitting_upload(b, chunk_width(len)) is Some {
        b.upload_width
    } else {
        chunk_width(len)
    }
}

/// No staging memory is written beyond its size: every chunk of a write fits the upload
/// buffer that it goes through, whatever upload buffer earlier writes have left.
pub proof fn chunks_fit_their_upload_buffer(
    b: BufferState,
    offset: u64,
    len: u64,
    fence_value: u64,
    i: int,
)
    requires
        0 <= i < chunk_count(len as int),
    ensures
        ({
            let chunks = upload_chunks(offset as int, len as int, fence_value as int);
            &&& chunks.len() == chunk_count(len as int)
            &&& chunks[i].size <= upload_room(b, len)
            &&& chunks[i].first + chunks[i].size <= len
        }),
{
}

/// Of two writes the later one is read back: where it wrote, a read hands out its bytes,
/// where only the earlier one wrote, those of that one, and elsewhere what was there
/// before. The writes may go through different upload buffers.
pub proof fn later_write_is_read_back(
    first: Seq<Memory>,
    first_upload: u64,
    first_data: Seq<u8>,
    first_offset: int,
    first_fence: int,
    second: Seq<Memory>,
    second_upload: u64,
    second_data: Seq<u8>,
    second_offset: int,
    second_fence: int,
    resource: u64,
    plan: ReadPlan,
    staging: u64,
    len: u64,
    i: int,
)
    requires
        written_in_chunks(
            first,
            resource,
            first_upload,
            first_data,
            upload_chunks(first_offset, first_data.len() as int, first_fence),
        ),
        written_in_chunks(
            second,
            resource,
            second_upload,
            second_data,
            upload_chunks(second_offset, second_data.len() as int, second_fence),
        ),
        first[0].contains_key(resource),
        first[0].contains_key(first_upload),
        second[0].contains_key(resource),
        second[0].contains_key(second_upload),
        resource != first_upload,
        resource != second_upload,
        second[0][resource] == first.last()[resource],
        0 <= first_offset,
        first_offset + first_data.len() <= first[0][resource].len() <= u64::MAX,
        0 <= second_offset,
        second_offset + second_data.len() <= first[0][resource].len(),
        readable(second.last(), plan, staging, resource, len),
        0 <= i < len,
    ensures
        ({
            let read = read_bytes(second.last(), plan, staging, len);
            &&& read.len() == len
            &&& read[i] == if second_offset <= i < second_offset + second_data.len() {
                second_data[i - second_offset]
            } else if first_offset <= i < first_offset + first_data.len() {
                first_data[i - first_offset]
            } else {
                first[0][resource][i]
            }
        }),
{
    let chunks = upload_chunks(first_offset, first_data.len() as int, first_fence);
    lemma_written_so_far(
        first,
        resource,
        first_upload,
        first_data,
        chunks,
        chunks.len() as int,
    );
    chunked_write_writes_the_data(first[0][resource], first_data, first_offset, first_fence);
    read_gives_back_what_was_written(
        second,
        resource,
        second_upload,
        second_data,
        second_offset,
        second_fence,
        plan,
        staging,
        len,
    );
}

/// A read gives back what a write through a mapping wrote.
pub proof fn mapped_read_gives_back_what_was_written(
    memory: Memory,
    resource: u64,
    data: Seq<u8>,
    offset: int,
    staging: u64,
    len: u64,
)
    requires
        memory.contains_key(resource),
        0 <= offset,
        offset + data.len() <= memory[resource].len() <= u64::MAX,
        len <= memory[resource].len(),
    ensures
        ({
            let bytes = overwrite(memory[resource], offset, data);
            let plan = ReadPlan::Mapped { resource, len };
            &&& read_bytes(memory.insert(resource, bytes), plan, staging, len) == bytes.take(
                len as int,
            )
            &&& bytes.subrange(offset, offset + data.len()) == data
        }),
{
    let bytes = overwrite(memory[resource], offset, data);
    assert(bytes.subrange(offset, offset + data.len()) =~= data);
}

} // verus!
