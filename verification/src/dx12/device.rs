//! Adapters and devices, and the messages of the debug layer.

use vstd::prelude::*;

use super::tables::DeviceOwned;
use crate::text::{push_signed, signed_decimal};

verus! {

broadcast use vstd::std_specs::hash::group_hash_axioms;

/// Descriptors of the heap for render target views.
pub const RTV_HEAP_DESCRIPTORS: u32 = 256;

/// Descriptors of the heap for depth stencil views.
pub const DSV_HEAP_DESCRIPTORS: u32 = 256;

/// Descriptors of the bindless heap for views.
pub const BINDLESS_HEAP_DESCRIPTORS: u32 = 16384;

/// Descriptors of the bindless heap for samplers.
pub const SAMPLER_HEAP_DESCRIPTORS: u32 = 2048;

/// Bytes from one indirect dispatch to the next: three workgroup counts.
pub const INDIRECT_DISPATCH_STRIDE: u32 = 12;

/// An adapter as it is enumerated: its name in code units, padded with zeros.
pub struct DxgiAdapter {
    pub adapter_id: u32,
    pub description: Vec<u16>,
    pub vendor_id: u32,
    pub flags: u32,
    /// Shaders can query rays.
    pub ray_query: bool,
    pub ray_tracing_pipelines: bool,
}

/// The units without the zeros at their end.
pub open spec fn without_trailing_zeros(units: Seq<u16>) -> Seq<u16>
    decreases units.len(),
{
    if units.len() > 0 && units.last() == 0 {
        without_trailing_zeros(units.drop_last())
    } else {
        units
    }
}

/// The code units of the name of an adapter.
pub fn adapter_name(adapter: &DxgiAdapter) -> (name: Vec<u16>)
    ensures
        name@ == without_trailing_zeros(adapter.description@),
{
    let mut len: usize = adapter.description.len();
    let ghost all = adapter.description@;
    assert(all.take(len as int) =~= all);
    while len > 0 && adapter.description[len - 1] == 0
        invariant
            len <= all.len(),
            all == adapter.description@,
            without_trailing_zeros(all.take(len as int)) == without_trailing_zeros(all),
        decreases len,
    {
        assert(all.take(len as int).drop_last() =~= all.take(len - 1));
        len -= 1;
    }
    let mut name: Vec<u16> = Vec::new();
    let mut i: usize = 0;
    while i < len
        invariant
            i <= len <= all.len(),
            all == adapter.description@,
            name@ == all.take(i as int),
        decreases len - i,
    {
        name.push(adapter.description[i]);
        assert(name@ =~= all.take(i + 1));
        i += 1;
    }
    name
}

/// Why a device cannot be made.
#[derive(Clone, Copy, Debug, PartialEq, Eq, Structural)]
pub enum DeviceError {
    InvalidAdapterId { adapter_id: u32 },
    /// The device does not support enhanced barriers.
    EnhancedBarriersRequired,
    InvalidDevice { device: u64 },
}

/// The first adapter with an identifier stands at an index.
pub open spec fn is_first_adapter(adapters: Seq<DxgiAdapter>, adapter_id: u32, index: int) -> bool {
    &&& 0 <= index < adapters.len()
    &&& adapters[index].adapter_id == adapter_id
    &&& forall|j: int| 0 <= j < index ==> (#[trigger] adapters[j]).adapter_id != adapter_id
}

/// Finds an adapter by its identifier: the first that has it.
pub fn find_adapter(adapters: &Vec<DxgiAdapter>, adapter_id: u32) -> (index: Result<
    usize,
    DeviceError,
>)
    ensures
        match index {
            Ok(i) => is_first_adapter(adapters@, adapter_id, i as int),
            Err(e) => e == (DeviceError::InvalidAdapterId { adapter_id }) && forall|j: int|
                0 <= j < adapters@.len() ==> (#[trigger] adapters@[j]).adapter_id != adapter_id,
        },
{
    let mut i: usize = 0;
    while i < adapters.len()
        invariant
            i <= adapters.len(),
            forall|j: int| 0 <= j < i ==> (#[trigger] adapters@[j]).adapter_id != adapter_id,
        decreases adapters.len() - i,
    {
        if adapters[i].adapter_id == adapter_id {
            return Ok(i);
        }
        i += 1;
    }
    Err(DeviceError::InvalidAdapterId { adapter_id })
}

/// What the driver said of a device.
#[derive(Clone, Copy, Debug, PartialEq, Eq, Structural)]
pub struct DeviceFeatures {
    pub enhanced_barriers: bool,
    pub tiled_resources_tier: i32,
}

/// Checks what the back end cannot do without. Tells whether buffers can be reserved.
pub fn check_features(features: &DeviceFeatures) -> (result: Result<bool, DeviceError>)
    ensures
        result == (if features.enhanced_barriers {
            Ok(features.tiled_resources_tier >= 1)
        } else {
            Err(DeviceError::EnhancedBarriersRequired)
        }),
{
    if !features.enhanced_barriers {
        return Err(DeviceError::EnhancedBarriersRequired);
    }
    Ok(features.tiled_resources_tier >= 1)
}

/// A device.
#[derive(Clone, Copy, Debug, PartialEq, Eq, Structural)]
pub struct LogicalDevice {
    pub adapter_id: u32,
    /// Next timeline value to be given out.
    pub timeline_next: u64,
    /// Values that destroyed contexts had reached.
    pub retired_floor: u64,
    pub supports_reserved_buffers: bool,
    /// Its cache of pipelines has to be saved.
    pub pso_cache_dirty: bool,
    /// Objects that wait to be released.
    pub pending_deletions: usize,
}

/// A device that was just made.
pub open spec fn fresh_device(adapter_id: u32, supports_reserved_buffers: bool) -> LogicalDevice {
    LogicalDevice {
        adapter_id,
        timeline_next: 1,
        retired_floor: 0,
        supports_reserved_buffers,
        pso_cache_dirty: false,
        pending_deletions: 0,
    }
}

impl LogicalDevice {
    /// A device that was just made.
    pub fn new(adapter_id: u32, supports_reserved_buffers: bool) -> (device: Self)
        ensures
            device == fresh_device(adapter_id, supports_reserved_buffers),
    {
        LogicalDevice {
            adapter_id,
            timeline_next: 1,
            retired_floor: 0,
            supports_reserved_buffers,
            pso_cache_dirty: false,
            pending_deletions: 0,
        }
    }
}

/// Something of a table that belongs to a device.
#[derive(Clone, Copy, Debug, PartialEq, Eq, Structural)]
pub struct OwnedObject {
    pub device_handle: u64,
    pub object: u64,
}

impl DeviceOwned for OwnedObject {
    open spec fn on_device(&self) -> u64 {
        self.device_handle
    }

    fn device(&self) -> (device: u64) {
        self.device_handle
    }
}

/// How grave a message of the debug layer is.
pub open spec fn severity_word(severity: i32) -> Seq<char> {
    if severity == 0 {
        "CORRUPTION"@
    } else if severity == 1 {
        "ERROR"@
    } else if severity == 2 {
        "WARNING"@
    } else if severity == 3 {
        "INFO"@
    } else if severity == 4 {
        "MSG"@
    } else {
        "?"@
    }
}

/// How grave a message of the debug layer is.
pub fn severity_name(severity: i32) -> (name: &'static str)
    ensures
        name@ == severity_word(severity),
{
    if severity == 0 {
        "CORRUPTION"
    } else if severity == 1 {
        "ERROR"
    } else if severity == 2 {
        "WARNING"
    } else if severity == 3 {
        "INFO"
    } else if severity == 4 {
        "MSG"
    } else {
        "?"
    }
}

/// A message of the debug layer.
pub struct DebugMessage {
    pub severity: i32,
    pub id: i32,
    pub text: String,
}

/// The line of a message.
pub open spec fn message_line(message: DebugMessage) -> Seq<char> {
    "  [D3D12 "@ + severity_word(message.severity) + "] id="@ + signed_decimal(message.id as int)
        + " "@ + message.text@ + "\n"@
}

/// The lines of messages, in order.
pub open spec fn message_lines(messages: Seq<DebugMessage>) -> Seq<char>
    decreases messages.len(),
{
    if messages.len() == 0 {
        Seq::empty()
    } else {
        message_lines(messages.drop_last()) + message_line(messages.last())
    }
}

/// The messages of the debug layer as one text, if there are any.
pub fn drain_info_queue(messages: &Vec<DebugMessage>) -> (text: Option<String>)
    ensures
        match text {
            Some(t) => messages@.len() > 0 && t@ == message_lines(messages@),
            None => messages@.len() == 0,
        },
{
    if messages.len() == 0 {
        return None;
    }
    let mut text: String = String::new();
    let mut i: usize = 0;
    assert(text@ =~= message_lines(messages@.take(0)));
    while i < messages.len()
        invariant
            i <= messages.len(),
            text@ == message_lines(messages@.take(i as int)),
        decreases messages.len() - i,
    {
        let ghost before = text@;
        assert(messages@.take(i + 1).drop_last() =~= messages@.take(i as int));
        text.append("  [D3D12 ");
        text.append(severity_name(messages[i].severity));
        text.append("] id=");
        push_signed(&mut text, messages[i].id as i64);
        text.append(" ");
        text.append(messages[i].text.as_str());
        text.append("\n");
        assert(text@ =~= before + message_line(messages@[i as int]));
        i += 1;
    }
    assert(messages@.take(i as int) =~= messages@);
    Some(text)
}

/// How a finished wait for a fence is taken.
#[derive(Clone, Copy, Debug, PartialEq, Eq, Structural)]
pub enum FenceOutcome {
    Reached { completed: u64 },
    /// Every fence of a removed device reads as its largest value.
    DeviceRemoved,
}

/// What the value of a fence means after a wait.
pub fn fence_outcome(completed: u64) -> (outcome: FenceOutcome)
    ensures
        outcome == (if completed == u64::MAX {
            FenceOutcome::DeviceRemoved
        } else {
            FenceOutcome::Reached { completed }
        }),
{
    if completed == u64::MAX {
        FenceOutcome::DeviceRemoved
    } else {
        FenceOutcome::Reached { completed }
    }
}

/// Whether the fence of a device has reached a value; a device that is not there has
/// reached none.
pub fn is_fence_complete(completed: Option<u64>, token: u64) -> (complete: bool)
    ensures
        complete == (completed is Some && completed->Some_0 >= token),
{
    match completed {
        Some(value) => value >= token,
        None => false,
    }
}

} // verus!
