//! Resource tables of the Direct3D 12 backend. Objects that only Direct3D can
//! hold (resources, command lists, pipelines) stand in them as identifiers.

use std::collections::HashMap;
use vstd::prelude::*;

verus! {

/// Creation flags of a buffer.
#[derive(Clone, Copy, Debug, PartialEq, Eq, Structural)]
pub struct BufferFlags {
    pub cpu_readable: bool,
    pub cpu_writable: bool,
}

/// A tile of physical memory: the heap it lies in and its byte offset there.
#[derive(Clone, Copy, Debug, PartialEq, Eq, Structural)]
pub struct Tile {
    pub heap: u64,
    pub offset: u64,
}

/// A buffer of the backend.
pub struct BufferState {
    pub device_handle: u64,
    pub resource: u64,
    /// Logical size in bytes.
    pub size: u64,
    pub allocation_size: u64,
    /// Descriptor of a storage buffer's unordered access view or of a uniform
    /// buffer's constant buffer view.
    pub bindless_offset: Option<u32>,
    /// Descriptor of a storage buffer's shader resource view.
    pub bindless_srv_offset: Option<u32>,
    pub is_storage: bool,
    pub upload_buffer: Option<u64>,
    /// Bytes of the upload buffer; zero where there is none.
    pub upload_width: u64,
    pub element_stride: Option<u32>,
    pub is_view: bool,
    pub coherent_readback: Option<u64>,
    /// Whether the read-back resource is persistently mapped.
    pub coherent_readback_mapped: bool,
    pub flags: BufferFlags,
    pub transient_placed: bool,
    pub parent_for_view: Option<u64>,
    pub view_byte_offset: Option<u64>,
    pub is_reserved: bool,
    pub tile_byte_size: u32,
    pub reserved_tiles: Vec<Option<Tile>>,
}

/// A texture of the backend.
#[derive(Clone, Copy, Debug, PartialEq, Eq, Structural)]
pub struct TextureState {
    pub device_handle: u64,
    pub resource: u64,
    pub is_storage: bool,
    /// The barrier layout that the last recorded command left the texture in.
    pub last_layout: u32,
}

/// A render target of the backend.
#[derive(Clone, Copy, Debug, PartialEq, Eq, Structural)]
pub struct RenderTargetState {
    pub device_handle: u64,
    pub texture: u64,
    pub depth_texture: Option<u64>,
    pub has_rendered: bool,
}

/// What command recording needs of a device.
#[derive(Clone, Copy, Debug, PartialEq, Eq, Structural)]
pub struct DeviceRecordInfo {
    /// Zero-filled upload buffer that clears copy from.
    pub zero_buffer: u64,
    pub has_dispatch_indirect_signature: bool,
    pub has_batch_dispatch_signature: bool,
}

/// Buffers by handle.
pub type BufferMap = HashMap<u64, BufferState>;

/// Textures by handle.
pub type TextureMap = HashMap<u64, TextureState>;

/// Render targets by handle.
pub type RenderTargetMap = HashMap<u64, RenderTargetState>;

/// The tables that recording reads and does not change.
pub struct RecordTables {
    pub buffers: HashMap<u64, BufferState>,
    /// Known compute pipelines, each with the device it was made on.
    pub compute_pipelines: HashMap<u64, u64>,
    pub render_targets: HashMap<u64, RenderTargetState>,
    pub devices: HashMap<u64, DeviceRecordInfo>,
}

} // verus!
