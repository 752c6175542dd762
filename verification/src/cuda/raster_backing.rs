//! Vertex and index buffers as the companion device sees them.

use vstd::prelude::*;

use super::raster::RasterError;

verus! {

/// Where the bytes of a buffer live.
#[derive(Clone, Copy, Debug, PartialEq, Eq, Structural)]
pub enum CudaPhysKind {
    /// In memory of CUDA alone.
    Native,
    /// In memory that both devices see.
    Shared,
    /// In memory of CUDA, with a copy that the companion sees.
    NativeAndTwin,
}

/// Memory of the companion that CUDA has imported.
#[derive(Clone, Copy, Debug, PartialEq, Eq, Structural)]
pub struct SharedBacking {
    pub size: u64,
    /// Address on the companion.
    pub gpu_va: u64,
    /// Address in CUDA.
    pub device_ptr: u64,
    /// Fence value after the last write of CUDA.
    pub last_cuda_fence: u64,
    /// Fence value after the last read of the companion.
    pub last_dx12_ia_fence: u64,
    /// CUDA wrote without a signal: the host has to wait before the companion reads.
    pub pending_host_sync: bool,
}

/// A buffer.
#[derive(Clone, Copy, Debug, PartialEq, Eq, Structural)]
pub struct RasterBuffer {
    pub phys_kind: CudaPhysKind,
    pub offset: u64,
    pub size: u64,
    pub capacity: u64,
    /// Counts the changes of the contents.
    pub content_epoch: u64,
    /// The epoch whose contents the twin has.
    pub shared_epoch: u64,
    pub shared: Option<SharedBacking>,
    /// Its memory: address and length.
    pub memory_base: u64,
    pub memory_len: u64,
    pub slot: Option<u32>,
}

/// A call that brings a backing up to date.
#[derive(Clone, Copy, Debug, PartialEq, Eq, Structural)]
pub enum RefreshCall {
    /// Copies on the stream.
    CopyDeviceToDevice { dst_ptr: u64, src_ptr: u64, size: u64 },
    /// Signals the next value of the companion fence from the stream.
    SignalFence,
}

/// How a buffer is made ready for the companion.
#[derive(Clone, Copy, Debug, PartialEq, Eq, Structural)]
pub enum Refresh {
    /// The companion sees the contents once a fence value has passed; nothing is to be
    /// done. Shared memory counts as bound, a twin that is up to date does not.
    Current { fence: u64, counts_as_bind: bool },
    /// The buffer is empty: the twin only takes the epoch.
    Empty,
    /// The contents are copied to the twin and a fence is signaled.
    Copy { dst_ptr: u64, src_ptr: u64, size: u64 },
}

/// The least size of a backing.
pub open spec fn backing_size(capacity: u64) -> u64 {
    if capacity < 4 {
        4
    } else {
        capacity
    }
}

/// The buffer needs a new twin: it has none, or one that is too small.
pub open spec fn needs_backing(buffer: RasterBuffer) -> bool {
    buffer.phys_kind is NativeAndTwin && (buffer.shared is None || buffer.shared->Some_0.size
        < backing_size(buffer.capacity))
}

/// The twin has the contents of the buffer.
pub open spec fn twin_current(buffer: RasterBuffer) -> bool {
    buffer.shared_epoch == buffer.content_epoch
}

/// How a buffer with its backing in place is made ready.
pub open spec fn refresh_of(buffer: RasterBuffer) -> Result<Refresh, RasterError> {
    match buffer.phys_kind {
        CudaPhysKind::Shared => match buffer.shared {
            Some(shared) => Ok(
                Refresh::Current { fence: shared.last_cuda_fence, counts_as_bind: true },
            ),
            None => Err(RasterError::SharedBackingMissing),
        },
        CudaPhysKind::NativeAndTwin => if buffer.size == 0 {
            Ok(Refresh::Empty)
        } else if twin_current(buffer) {
            Ok(
                Refresh::Current {
                    fence: buffer.shared->Some_0.last_cuda_fence,
                    counts_as_bind: false,
                },
            )
        } else if buffer.offset + buffer.size > buffer.memory_len {
            Err(RasterError::SourceOutOfRange)
        } else {
            Ok(
                Refresh::Copy {
                    dst_ptr: buffer.shared->Some_0.device_ptr,
                    src_ptr: (buffer.memory_base + buffer.offset) as u64,
                    size: buffer.size,
                },
            )
        },
        CudaPhysKind::Native => Err(RasterError::UnexpectedPhysKind),
    }
}

/// The buffer once it was made ready. A copy signaled a fence value.
pub open spec fn refreshed(buffer: RasterBuffer, refresh: Refresh, signaled: u64) -> RasterBuffer {
    match refresh {
        Refresh::Current { .. } => buffer,
        Refresh::Empty => RasterBuffer { shared_epoch: buffer.content_epoch, ..buffer },
        Refresh::Copy { .. } => RasterBuffer {
            shared_epoch: buffer.content_epoch,
            shared: Some(SharedBacking { last_cuda_fence: signaled, ..buffer.shared->Some_0 }),
            ..buffer
        },
    }
}

/// The fence value that the companion has to wait for; zero for none.
pub open spec fn refresh_fence(refresh: Refresh, signaled: u64) -> u64 {
    match refresh {
        Refresh::Current { fence, counts_as_bind } => fence,
        Refresh::Empty => 0,
        Refresh::Copy { .. } => signaled,
    }
}

/// What has to be done to make a buffer ready.
#[derive(Clone, Copy, Debug, PartialEq, Eq, Structural)]
pub struct RefreshBegun {
    /// The worker is flushed and the streams of the device are waited for.
    pub host_sync: bool,
    /// Fence value after which the old twin may be dropped.
    pub wait_old: Option<u64>,
    pub refresh: Refresh,
}

/// The buffer without a demand for a host wait on its shared memory.
pub open spec fn without_host_sync(buffer: RasterBuffer) -> RasterBuffer {
    if buffer.phys_kind is Shared && buffer.shared is Some
        && buffer.shared->Some_0.pending_host_sync {
        RasterBuffer {
            shared: Some(
                SharedBacking { pending_host_sync: false, ..buffer.shared->Some_0 },
            ),
            ..buffer
        }
    } else {
        buffer
    }
}

/// The fence value after which the twin of a buffer may be dropped, if there is one.
pub open spec fn old_twin_fence(buffer: RasterBuffer) -> Option<u64> {
    match buffer.shared {
        Some(shared) => if shared.last_cuda_fence > 0 {
            Some(shared.last_cuda_fence)
        } else {
            None
        },
        None => None,
    }
}

impl RasterBuffer {
    /// The size of the twin that has to be made, if one has.
    pub fn missing_backing(&self) -> (size: Option<u64>)
        ensures
            size == (if needs_backing(*self) {
                Some(backing_size(self.capacity))
            } else {
                None
            }),
    {
        let size: u64 = if self.capacity < 4 {
            4
        } else {
            self.capacity
        };
        match self.phys_kind {
            CudaPhysKind::NativeAndTwin => match self.shared {
                None => Some(size),
                Some(shared) => if shared.size < size {
                    Some(size)
                } else {
                    None
                },
            },
            _ => None,
        }
    }

    /// Puts a new twin in place. The old one may be dropped once the returned fence
    /// value, if any, has passed.
    pub fn install_backing(&mut self, backing: SharedBacking) -> (wait: Option<u64>)
        ensures
            *final(self) == (RasterBuffer {
                shared: Some(backing),
                shared_epoch: u64::MAX,
                ..*old(self)
            }),
            wait == (match old(self).shared {
                Some(shared) => if shared.last_cuda_fence > 0 {
                    Some(shared.last_cuda_fence)
                } else {
                    None
                },
                None => None,
            }),
    {
        let wait = match self.shared {
            Some(shared) => if shared.last_cuda_fence > 0 {
                Some(shared.last_cuda_fence)
            } else {
                None
            },
            None => None,
        };
        self.shared = Some(backing);
        self.shared_epoch = u64::MAX;
        wait
    }

    /// Takes the demand for a host wait off shared memory. Where there was one, the
    /// worker is flushed and the streams of the device are waited for.
    pub fn take_host_sync(&mut self) -> (sync: bool)
        ensures
            sync == (old(self).phys_kind is Shared && old(self).shared is Some && old(
                self,
            ).shared->Some_0.pending_host_sync),
            *final(self) == (if sync {
                RasterBuffer {
                    shared: Some(
                        SharedBacking { pending_host_sync: false, ..old(self).shared->Some_0 },
                    ),
                    ..*old(self)
                }
            } else {
                *old(self)
            }),
    {
        match self.phys_kind {
            CudaPhysKind::Shared => match self.shared {
                Some(shared) => {
                    if shared.pending_host_sync {
                        self.shared = Some(SharedBacking { pending_host_sync: false, ..shared });
                    }
                    shared.pending_host_sync
                },
                None => false,
            },
            _ => false,
        }
    }

    /// Plans how the buffer is made ready for the companion.
    pub fn plan_refresh(&self) -> (refresh: Result<Refresh, RasterError>)
        requires
            !needs_backing(*self),
            self.offset + self.size <= u64::MAX,
            self.memory_base + self.memory_len <= u64::MAX,
        ensures
            refresh == refresh_of(*self),
    {
        match self.phys_kind {
            CudaPhysKind::Shared => match self.shared {
                Some(shared) => Ok(
                    Refresh::Current { fence: shared.last_cuda_fence, counts_as_bind: true },
                ),
                None => Err(RasterError::SharedBackingMissing),
            },
            CudaPhysKind::NativeAndTwin => {
                if self.size == 0 {
                    return Ok(Refresh::Empty);
                }
                let shared = match self.shared {
                    Some(shared) => shared,
                    None => {
                        return Err(RasterError::SharedBackingMissing);
                    },
                };
                if self.content_epoch == self.shared_epoch {
                    return Ok(
                        Refresh::Current { fence: shared.last_cuda_fence, counts_as_bind: false },
                    );
                }
                if self.offset + self.size > self.memory_len {
                    return Err(RasterError::SourceOutOfRange);
                }
                Ok(
                    Refresh::Copy {
                        dst_ptr: shared.device_ptr,
                        src_ptr: self.memory_base + self.offset,
                        size: self.size,
                    },
                )
            },
            CudaPhysKind::Native => Err(RasterError::UnexpectedPhysKind),
        }
    }

    /// Begins to make the buffer ready for the companion. `created` is the twin that was
    /// made where one was missing.
    pub fn begin_refresh(&mut self, created: &Option<SharedBacking>) -> (begun: Result<
        RefreshBegun,
        RasterError,
    >)
        requires
            needs_backing(*old(self)) ==> (created matches Some(backing) && backing.size
                >= backing_size(old(self).capacity)),
            old(self).offset + old(self).size <= u64::MAX,
            old(self).memory_base + old(self).memory_len <= u64::MAX,
        ensures
            ({
                let synced = without_host_sync(*old(self));
                let ready = if needs_backing(*old(self)) {
                    RasterBuffer { shared: *created, shared_epoch: u64::MAX, ..synced }
                } else {
                    synced
                };
                &&& *final(self) == ready
                &&& begun == (match refresh_of(ready) {
                    Ok(refresh) => Ok(
                        RefreshBegun {
                            host_sync: synced != *old(self),
                            wait_old: if needs_backing(*old(self)) {
                                old_twin_fence(*old(self))
                            } else {
                                None
                            },
                            refresh,
                        },
                    ),
                    Err(e) => Err(e),
                })
            }),
    {
        let host_sync = self.take_host_sync();
        let wait_old = match self.missing_backing() {
            Some(_) => match created {
                Some(backing) => self.install_backing(*backing),
                None => None,
            },
            None => None,
        };
        match self.plan_refresh() {
            Ok(refresh) => Ok(RefreshBegun { host_sync, wait_old, refresh }),
            Err(e) => Err(e),
        }
    }

    /// Takes in that the buffer was made ready, with the fence value that a copy
    /// signaled. Returns the fence value that the companion has to wait for.
    pub fn finish_refresh(&mut self, refresh: &Refresh, signaled: u64) -> (fence: u64)
        requires
            refresh is Copy ==> old(self).shared is Some,
        ensures
            *final(self) == refreshed(*old(self), *refresh, signaled),
            fence == refresh_fence(*refresh, signaled),
    {
        match *refresh {
            Refresh::Current { fence, counts_as_bind } => fence,
            Refresh::Empty => {
                self.shared_epoch = self.content_epoch;
                0
            },
            Refresh::Copy { .. } => {
                if let Some(shared) = self.shared {
                    self.shared = Some(SharedBacking { last_cuda_fence: signaled, ..shared });
                }
                self.shared_epoch = self.content_epoch;
                signaled
            },
        }
    }
}

impl Refresh {
    /// The calls that make the buffer ready, in order.
    pub fn calls(&self) -> (calls: Vec<RefreshCall>)
        ensures
            calls@ == (match *self {
                Refresh::Copy { dst_ptr, src_ptr, size } => seq![
                    RefreshCall::CopyDeviceToDevice { dst_ptr, src_ptr, size },
                    RefreshCall::SignalFence,
                ],
                _ => Seq::empty(),
            }),
    {
        let mut calls: Vec<RefreshCall> = Vec::new();
        if let Refresh::Copy { dst_ptr, src_ptr, size } = *self {
            calls.push(RefreshCall::CopyDeviceToDevice { dst_ptr, src_ptr, size });
            calls.push(RefreshCall::SignalFence);
        }
        calls
    }

    /// Whether this counts as a bind of shared memory.
    pub fn counts_as_bind(&self) -> (counts: bool)
        ensures
            counts == (match *self {
                Refresh::Current { fence, counts_as_bind } => counts_as_bind,
                Refresh::Empty => false,
                Refresh::Copy { .. } => true,
            }),
    {
        match *self {
            Refresh::Current { fence, counts_as_bind } => counts_as_bind,
            Refresh::Empty => false,
            Refresh::Copy { .. } => true,
        }
    }
}

/// A twin that was made ready has the contents of its buffer, and making it ready
/// once more copies nothing.
pub proof fn refresh_makes_the_twin_current(buffer: RasterBuffer, signaled: u64)
    requires
        buffer.phys_kind is NativeAndTwin,
        buffer.shared is Some,
        refresh_of(buffer) is Ok,
    ensures
        ({
            let after = refreshed(buffer, refresh_of(buffer)->Ok_0, signaled);
            twin_current(after) && refresh_of(after) is Ok && !(refresh_of(after)->Ok_0 is Copy)
        }),
{
}

} // verus!
