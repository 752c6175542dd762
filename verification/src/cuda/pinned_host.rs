//! Page-locked host staging.

use vstd::prelude::*;

verus! {

/// The allocation is mapped into the address space of the device.
pub const MEMHOSTALLOC_DEVICEMAP: u32 = 2;

/// The allocation is write-combined.
pub const MEMHOSTALLOC_WRITECOMBINED: u32 = 4;

/// Flags of staging that the host writes.
pub const UPLOAD_FLAGS: u32 = 6;

/// Flags of staging that the host reads.
pub const READBACK_FLAGS: u32 = 0;

/// Page-locked host memory.
pub struct CudaPinnedHost {
    pub bytes: Vec<u8>,
    pub flags: u32,
    /// Where the device sees the first byte, for mapped memory.
    pub device_ptr: Option<u64>,
}

/// The bytes of an allocation: at least one is allocated.
pub open spec fn allocated_len(len: nat) -> nat {
    if len == 0 {
        1
    } else {
        len
    }
}

/// The flags ask for a mapping into the address space of the device.
pub open spec fn is_mapped(flags: u32) -> bool {
    flags & MEMHOSTALLOC_DEVICEMAP != 0
}

fn zeroed(len: usize) -> (bytes: Vec<u8>)
    ensures
        bytes@ == Seq::new(len as nat, |i: int| 0u8),
{
    let mut bytes: Vec<u8> = Vec::new();
    while bytes.len() < len
        invariant
            bytes@.len() <= len,
            forall|i: int| 0 <= i < bytes@.len() ==> bytes@[i] == 0,
        decreases len - bytes@.len(),
    {
        bytes.push(0);
    }
    assert(bytes@ =~= Seq::new(len as nat, |i: int| 0u8));
    bytes
}

impl CudaPinnedHost {
    /// Zeroed memory. `mapping` is the device address that the driver gave; memory
    /// that is not mapped has none.
    pub fn alloc_with_flags(len: usize, flags: u32, mapping: Option<u64>) -> (host: Self)
        ensures
            host.bytes@ == Seq::new(allocated_len(len as nat), |i: int| 0u8),
            host.flags == flags,
            host.device_ptr == (if is_mapped(flags) {
                mapping
            } else {
                None
            }),
    {
        let len: usize = if len == 0 {
            1
        } else {
            len
        };
        let device_ptr = if flags & MEMHOSTALLOC_DEVICEMAP != 0 {
            mapping
        } else {
            None
        };
        CudaPinnedHost { bytes: zeroed(len), flags, device_ptr }
    }

    /// Memory that the host writes and the device reads.
    pub fn alloc_upload(len: usize, mapping: Option<u64>) -> (host: Self)
        ensures
            host.bytes@ == Seq::new(allocated_len(len as nat), |i: int| 0u8),
            host.flags == UPLOAD_FLAGS,
            host.device_ptr == mapping,
    {
        assert(6u32 & 2u32 != 0) by (bit_vector);
        CudaPinnedHost::alloc_with_flags(len, UPLOAD_FLAGS, mapping)
    }

    /// Memory that the device writes and the host reads.
    pub fn alloc_readback(len: usize) -> (host: Self)
        ensures
            host.bytes@ == Seq::new(allocated_len(len as nat), |i: int| 0u8),
            host.flags == READBACK_FLAGS,
            host.device_ptr is None,
    {
        CudaPinnedHost::alloc_with_flags(len, READBACK_FLAGS, None)
    }

    /// How many bytes it holds.
    pub fn len(&self) -> (len: usize)
        ensures
            len == self.bytes@.len(),
    {
        self.bytes.len()
    }

    /// Replaces the memory by another with the same flags. What fits of the contents
    /// is kept where `preserve` asks for it; the rest is zero.
    pub fn resize(&mut self, new_len: usize, preserve: bool, mapping: Option<u64>)
        ensures
            final(self).flags == old(self).flags,
            final(self).device_ptr == (if is_mapped(old(self).flags) {
                mapping
            } else {
                None
            }),
            final(self).bytes@ == Seq::new(
                allocated_len(new_len as nat),
                |i: int|
                    if preserve && i < old(self).bytes@.len() {
                        old(self).bytes@[i]
                    } else {
                        0u8
                    },
            ),
    {
        let mut next = CudaPinnedHost::alloc_with_flags(new_len, self.flags, mapping);
        if preserve {
            let n: usize = if self.bytes.len() < next.bytes.len() {
                self.bytes.len()
            } else {
                next.bytes.len()
            };
            let ghost len = next.bytes@.len();
            let ghost flags = next.flags;
            let ghost ptr = next.device_ptr;
            let mut i: usize = 0;
            while i < n
                invariant
                    i <= n,
                    n <= self.bytes@.len(),
                    n <= len,
                    next.bytes@.len() == len,
                    next.flags == flags,
                    next.device_ptr == ptr,
                    *self == *old(self),
                    forall|j: int| 0 <= j < i ==> next.bytes@[j] == self.bytes@[j],
                    forall|j: int| i <= j < len ==> next.bytes@[j] == 0,
                decreases n - i,
            {
                let b: u8 = self.bytes[i];
                next.bytes.set(i, b);
                i += 1;
            }
        }
        self.bytes = next.bytes;
        self.device_ptr = next.device_ptr;
        assert(self.bytes@ =~= Seq::new(
            allocated_len(new_len as nat),
            |i: int|
                if preserve && i < old(self).bytes@.len() {
                    old(self).bytes@[i]
                } else {
                    0u8
                },
        ));
    }
}

} // verus!
