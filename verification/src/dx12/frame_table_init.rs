//! Frame tables: their buffers and descriptors, and lowering of render commands to
//! them.

use std::collections::HashMap;
use vstd::prelude::*;

use super::buffer::{buffer_wf, BufferTable};
use super::commands::{RenderBinding, ResourceCategory};
use super::frame_table::{
    reserve_step, ContextFrameTable, FrameTableError, FrameTableLayout, ROW_IN_USE,
};
use super::context::StagingRow;
use super::types::{BufferFlags, BufferState};

verus! {

broadcast use vstd::std_specs::hash::group_hash_axioms;

/// Bytes of a table buffer: at least a constant buffer's alignment.
pub open spec fn table_buffer_bytes(num_u32s: u32) -> u64 {
    if num_u32s * 4 < 256 {
        256
    } else {
        (num_u32s * 4) as u64
    }
}

/// Bytes of a table buffer.
pub fn table_buffer_size(num_u32s: u32) -> (size: u64)
    ensures
        size == table_buffer_bytes(num_u32s),
{
    let logical: u64 = num_u32s as u64 * 4;
    if logical < 256 {
        256
    } else {
        logical
    }
}

/// Bytes of the upload buffer behind staging memory: at least a constant buffer's
/// alignment.
pub open spec fn staging_buffer_bytes(staging_bytes: u64) -> u64 {
    if staging_bytes < 256 {
        256
    } else {
        staging_bytes
    }
}

/// Bytes of the upload buffer behind staging memory.
pub fn staging_buffer_size(staging_bytes: u64) -> (size: u64)
    ensures
        size == staging_buffer_bytes(staging_bytes),
{
    if staging_bytes < 256 {
        256
    } else {
        staging_bytes
    }
}

/// A buffer of words for shaders to write, with its descriptor.
pub open spec fn is_table_buffer(
    b: BufferState,
    device: u64,
    resource: u64,
    num_u32s: u32,
    slot: u32,
) -> bool {
    &&& b.device_handle == device
    &&& b.resource == resource
    &&& b.size == table_buffer_bytes(num_u32s)
    &&& b.allocation_size == table_buffer_bytes(num_u32s)
    &&& b.bindless_offset == Some(slot)
    &&& b.bindless_srv_offset is None
    &&& b.is_storage
    &&& b.upload_buffer is None
    &&& b.upload_width == 0
    &&& b.element_stride == Some(4u32)
    &&& !b.is_view
    &&& b.coherent_readback is None
    &&& !b.coherent_readback_mapped
    &&& b.flags == (BufferFlags { cpu_readable: false, cpu_writable: false })
    &&& !b.transient_placed
    &&& b.parent_for_view is None
    &&& b.view_byte_offset is None
    &&& !b.is_reserved
    &&& b.tile_byte_size == 0
    &&& b.reserved_tiles@.len() == 0
}

/// A view of words at a bindless slot.
#[derive(Clone, Copy, Debug, PartialEq, Eq, Structural)]
pub struct UavWrite {
    pub slot: u32,
    pub resource: u64,
    pub num_u32s: u32,
}

impl BufferTable {
    /// Enters a table buffer whose resource was made.
    pub fn register_table_buffer(&mut self, device: u64, resource: u64, num_u32s: u32, slot: u32) -> (handle:
        u64)
        requires
            old(self).wf(),
            old(self).next_handle < u64::MAX,
        ensures
            final(self).wf(),
            handle == old(self).next_handle,
            final(self).next_handle == handle + 1,
            final(self).entries@.dom() == old(self).entries@.dom().insert(handle),
            is_table_buffer(final(self).entries@[handle], device, resource, num_u32s, slot),
            forall|h: u64| #[trigger]
                old(self).entries@.contains_key(h) ==> final(self).entries@[h]
                    == old(self).entries@[h],
    {
        let handle: u64 = self.next_handle;
        self.next_handle = handle + 1;
        let size: u64 = table_buffer_size(num_u32s);
        let state = BufferState {
            device_handle: device,
            resource,
            size,
            allocation_size: size,
            bindless_offset: Some(slot),
            bindless_srv_offset: None,
            is_storage: true,
            upload_buffer: None,
            upload_width: 0,
            element_stride: Some(4),
            is_view: false,
            coherent_readback: None,
            coherent_readback_mapped: false,
            flags: BufferFlags { cpu_readable: false, cpu_writable: false },
            transient_placed: false,
            parent_for_view: None,
            view_byte_offset: None,
            is_reserved: false,
            tile_byte_size: 0,
            reserved_tiles: Vec::new(),
        };
        assert(buffer_wf(state));
        assert(!self.entries@.contains_key(handle));
        self.entries.insert(handle, state);
        assert(self.entries@.dom() =~= old(self).entries@.dom().insert(handle));
        handle
    }

    /// Takes out buffers whose table could not be completed. Their descriptors are
    /// given back.
    pub fn release_registered_buffers(&mut self, handles: &Vec<u64>)
        requires
            old(self).wf(),
        ensures
            final(self).wf(),
            final(self).next_handle == old(self).next_handle,
            final(self).entries@ == old(self).entries@.remove_keys(handles@.to_set()),
    {
        let ghost all = self.entries@;
        let mut i: usize = 0;
        assert(all.remove_keys(handles@.take(0).to_set()) =~= all);
        while i < handles.len()
            invariant
                i <= handles.len(),
                self.next_handle == old(self).next_handle,
                self.entries@ == all.remove_keys(handles@.take(i as int).to_set()),
            decreases handles.len() - i,
        {
            proof {
                super::context::lemma_take_to_set(handles@, i as int);
            }
            self.entries.remove(&handles[i]);
            assert(self.entries@ =~= all.remove_keys(handles@.take(i + 1).to_set()));
            i += 1;
        }
        assert(handles@.take(i as int) =~= handles@);
        assert forall|h: u64| #[trigger] self.entries@.contains_key(h) implies buffer_wf(
            self.entries@[h],
        ) && h < self.next_handle by {
            assert(all.contains_key(h));
        }
    }

    /// Takes the buffers of a table out. Their descriptors are given back.
    pub fn destroy_table_buffers(&mut self, table: &ContextFrameTable)
        requires
            old(self).wf(),
        ensures
            final(self).wf(),
            final(self).next_handle == old(self).next_handle,
            final(self).entries@ == old(self).entries@.remove(table.selector).remove(
                table.device_table,
            ),
    {
        self.entries.remove(&table.selector);
        self.entries.remove(&table.device_table);
        assert forall|h: u64| #[trigger] self.entries@.contains_key(h) implies buffer_wf(
            self.entries@[h],
        ) && h < self.next_handle by {
            assert(old(self).entries@.contains_key(h));
        }
    }
}

/// How far the creation of a table has come.
#[derive(Clone, Copy, Debug, PartialEq, Eq, Structural)]
pub enum TableInit {
    Selector,
    DeviceTable { selector: u64, selector_slot: u32 },
    Staging { selector: u64, selector_slot: u32, device_table: u64, table_slot: u32 },
}

/// What has to be made next for a table.
#[derive(Clone, Copy, Debug, PartialEq, Eq, Structural)]
pub enum InitAction {
    /// A buffer of words that shaders can write, with its descriptor.
    MakeTableBuffer { num_u32s: u32 },
    /// An upload buffer, mapped for as long as it lives.
    MakeStaging { bytes: u64 },
}

/// What was made.
#[derive(Clone, Copy, Debug, PartialEq, Eq, Structural)]
pub struct MadeResource {
    pub resource: u64,
    /// Bindless slot of a table buffer.
    pub slot: u32,
}

/// Where a step of a table's creation leads.
pub enum InitStep {
    Next { init: TableInit },
    Ready { table: ContextFrameTable },
    /// Nothing is left of the table; the descriptors of the released buffers are
    /// given back.
    Failed { released: Vec<u64> },
}

impl TableInit {
    /// The buffers made so far.
    pub open spec fn made(self) -> Seq<u64> {
        match self {
            TableInit::Selector => Seq::empty(),
            TableInit::DeviceTable { selector, .. } => seq![selector],
            TableInit::Staging { selector, device_table, .. } => seq![selector, device_table],
        }
    }

    /// The buffers made so far.
    fn handles(&self) -> (handles: Vec<u64>)
        ensures
            handles@ == self.made(),
    {
        let mut handles: Vec<u64> = Vec::new();
        match *self {
            TableInit::Selector => {},
            TableInit::DeviceTable { selector, .. } => {
                handles.push(selector);
            },
            TableInit::Staging { selector, device_table, .. } => {
                handles.push(selector);
                handles.push(device_table);
            },
        }
        handles
    }

    /// What has to be made next: the selector, the table, then the staging memory.
    pub fn action(&self, layout: &FrameTableLayout) -> (action: InitAction)
        requires
            layout.wf(),
        ensures
            action == (match *self {
                TableInit::Selector => InitAction::MakeTableBuffer { num_u32s: 1 },
                TableInit::DeviceTable { .. } => InitAction::MakeTableBuffer {
                    num_u32s: layout.table_u32s,
                },
                TableInit::Staging { .. } => InitAction::MakeStaging {
                    bytes: staging_buffer_bytes((4 * layout.staging_u32s()) as u64),
                },
            }),
    {
        match *self {
            TableInit::Selector => InitAction::MakeTableBuffer { num_u32s: 1 },
            TableInit::DeviceTable { .. } => InitAction::MakeTableBuffer {
                num_u32s: layout.table_u32s,
            },
            TableInit::Staging { .. } => {
                proof {
                    layout.row_fits(0);
                }
                let words: u64 = layout.staging_selector_u32s as u64 + layout.max_rows as u64
                    * layout.row_stride as u64;
                InitAction::MakeStaging { bytes: staging_buffer_size(words * 4) }
            },
        }
    }

    /// Takes up what was made; nothing where it could not be made, and then every
    /// buffer made so far is taken out again.
    pub fn init_context(
        self,
        buffers: &mut BufferTable,
        device: u64,
        layout: FrameTableLayout,
        made: Option<MadeResource>,
    ) -> (step: InitStep)
        requires
            old(buffers).wf(),
            old(buffers).next_handle < u64::MAX,
            layout.wf(),
        ensures
            final(buffers).wf(),
            match made {
                None => {
                    &&& step matches InitStep::Failed { released } && released@ == self.made()
                    &&& final(buffers).next_handle == old(buffers).next_handle
                    &&& final(buffers).entries@ == old(buffers).entries@.remove_keys(
                        self.made().to_set(),
                    )
                },
                Some(m) => match self {
                    TableInit::Selector => {
                        let handle = old(buffers).next_handle;
                        &&& step == InitStep::Next {
                            init: TableInit::DeviceTable { selector: handle, selector_slot: m.slot },
                        }
                        &&& table_buffer_entered(*old(buffers), *final(buffers), device, m, 1)
                    },
                    TableInit::DeviceTable { selector, selector_slot } => {
                        let handle = old(buffers).next_handle;
                        &&& step == InitStep::Next {
                            init: TableInit::Staging {
                                selector,
                                selector_slot,
                                device_table: handle,
                                table_slot: m.slot,
                            },
                        }
                        &&& table_buffer_entered(
                            *old(buffers),
                            *final(buffers),
                            device,
                            m,
                            layout.table_u32s,
                        )
                    },
                    TableInit::Staging { selector, selector_slot, device_table, table_slot } => {
                        &&& *final(buffers) == *old(buffers)
                        &&& step matches InitStep::Ready { table } && is_fresh_table(
                            table,
                            layout,
                            selector,
                            selector_slot,
                            device_table,
                            table_slot,
                            m.resource,
                        )
                    },
                },
            },
    {
        match made {
            None => {
                let released = self.handles();
                buffers.release_registered_buffers(&released);
                InitStep::Failed { released }
            },
            Some(m) => match self {
                TableInit::Selector => {
                    let selector: u64 = buffers.register_table_buffer(device, m.resource, 1, m.slot);
                    InitStep::Next {
                        init: TableInit::DeviceTable { selector, selector_slot: m.slot },
                    }
                },
                TableInit::DeviceTable { selector, selector_slot } => {
                    let device_table: u64 = buffers.register_table_buffer(
                        device,
                        m.resource,
                        layout.table_u32s,
                        m.slot,
                    );
                    InitStep::Next {
                        init: TableInit::Staging {
                            selector,
                            selector_slot,
                            device_table,
                            table_slot: m.slot,
                        },
                    }
                },
                TableInit::Staging { selector, selector_slot, device_table, table_slot } => {
                    InitStep::Ready {
                        table: ContextFrameTable::new(
                            layout,
                            selector,
                            device_table,
                            selector_slot,
                            table_slot,
                            m.resource,
                        ),
                    }
                },
            },
        }
    }
}

/// One table buffer was entered under the next handle, and nothing else changed.
pub open spec fn table_buffer_entered(
    before: BufferTable,
    after: BufferTable,
    device: u64,
    made: MadeResource,
    num_u32s: u32,
) -> bool {
    let handle = before.next_handle;
    &&& after.next_handle == handle + 1
    &&& after.entries@.dom() == before.entries@.dom().insert(handle)
    &&& is_table_buffer(after.entries@[handle], device, made.resource, num_u32s, made.slot)
    &&& forall|h: u64| #[trigger]
        before.entries@.contains_key(h) ==> after.entries@[h] == before.entries@[h]
}

/// A table with these resources and every row free.
pub open spec fn is_fresh_table(
    table: ContextFrameTable,
    layout: FrameTableLayout,
    selector: u64,
    selector_slot: u32,
    device_table: u64,
    table_slot: u32,
    staging: u64,
) -> bool {
    &&& table.wf()
    &&& table.layout == layout
    &&& table.selector == selector
    &&& table.device_table == device_table
    &&& table.selector_slot == selector_slot
    &&& table.table_slot == table_slot
    &&& table.staging == staging
    &&& table.submission_counter == 0
    &&& table.pinned_rows == 0
    &&& table.tokens() == Seq::new(layout.max_rows as nat, |i: int| 0u64)
}

/// What a pass outside any context needs before it can stage its words.
#[derive(Clone, Copy, Debug, PartialEq, Eq, Structural)]
pub enum LegacyTable {
    /// The device has its table already.
    Present,
    /// The table has to be created first.
    Create,
}

/// Whether a device already has the table that passes outside any context use. They
/// never borrow the ring of a live context.
pub fn ensure_legacy_frame_table<D>(
    devices: &HashMap<u64, D>,
    tables: &HashMap<u64, ContextFrameTable>,
    device: u64,
) -> (table: Result<LegacyTable, FrameTableError>)
    ensures
        table == (if !devices@.contains_key(device) {
            Err(FrameTableError::InvalidDevice { device })
        } else if tables@.contains_key(device) {
            Ok(LegacyTable::Present)
        } else {
            Ok(LegacyTable::Create)
        }),
{
    if !devices.contains_key(&device) {
        return Err(FrameTableError::InvalidDevice { device });
    }
    if tables.contains_key(&device) {
        Ok(LegacyTable::Present)
    } else {
        Ok(LegacyTable::Create)
    }
}

/// A failed creation leaves no buffer behind: once the buffers that it entered are
/// taken out, the entries are those from before it began.
pub proof fn rollback_restores_the_buffers(
    before: BufferTable,
    first: BufferTable,
    second: BufferTable,
    device: u64,
    made: MadeResource,
    other: MadeResource,
    words: u32,
)
    requires
        before.wf(),
        first.wf(),
        table_buffer_entered(before, first, device, made, 1),
        table_buffer_entered(first, second, device, other, words),
    ensures
        first.entries@.remove_keys(
            (TableInit::DeviceTable {
                selector: before.next_handle,
                selector_slot: made.slot,
            }).made().to_set(),
        ) == before.entries@,
        second.entries@.remove_keys(
            (TableInit::Staging {
                selector: before.next_handle,
                selector_slot: made.slot,
                device_table: first.next_handle,
                table_slot: other.slot,
            }).made().to_set(),
        ) == before.entries@,
{
    let selector = before.next_handle;
    let device_table = first.next_handle;
    let one = seq![selector];
    let both = seq![selector, device_table];
    assert(one[0] == selector && both[0] == selector && both[1] == device_table);
    assert forall|h: u64| one.to_set().contains(h) <==> h == selector by {}
    assert forall|h: u64| both.to_set().contains(h) <==> h == selector || h == device_table by {
        if both.contains(h) {
            let i = choose|i: int| 0 <= i < 2 && both[i] == h;
            assert(i == 0 || i == 1);
        }
    }
    assert(!before.entries@.contains_key(selector));
    assert(!first.entries@.contains_key(device_table));
    assert(first.entries@.remove_keys(one.to_set()) =~= before.entries@);
    assert(second.entries@.remove_keys(both.to_set()) =~= before.entries@) by {
        assert forall|h: u64| before.entries@.contains_key(h) implies second.entries@[h]
            == before.entries@[h] by {
            assert(first.entries@.contains_key(h));
        }
    }
}

/// A table that was created can be bound: its buffers are entered, at the slots that
/// it names.
pub proof fn created_table_can_be_bound(
    before: BufferTable,
    first: BufferTable,
    second: BufferTable,
    device: u64,
    layout: FrameTableLayout,
    made: MadeResource,
    other: MadeResource,
    table: ContextFrameTable,
    staging: u64,
)
    requires
        before.wf(),
        first.wf(),
        table_buffer_entered(before, first, device, made, 1),
        table_buffer_entered(first, second, device, other, layout.table_u32s),
        is_fresh_table(
            table,
            layout,
            before.next_handle,
            made.slot,
            first.next_handle,
            other.slot,
            staging,
        ),
    ensures
        bind_writes(table, second.entries@) == Ok::<(UavWrite, UavWrite), FrameTableError>(
            (
                UavWrite { slot: made.slot, resource: made.resource, num_u32s: 1 },
                UavWrite {
                    slot: other.slot,
                    resource: other.resource,
                    num_u32s: layout.table_u32s,
                },
            ),
        ),
{
    assert(first.entries@.contains_key(before.next_handle));
}

/// The views to write when a table is made: the selector, then the table.
pub open spec fn bind_writes(table: ContextFrameTable, buffers: Map<u64, BufferState>) -> Result<
    (UavWrite, UavWrite),
    FrameTableError,
> {
    if !buffers.contains_key(table.selector) {
        Err(FrameTableError::MissingSelector)
    } else if !buffers.contains_key(table.device_table) {
        Err(FrameTableError::MissingDeviceTable)
    } else {
        Ok(
            (
                UavWrite {
                    slot: table.selector_slot,
                    resource: buffers[table.selector].resource,
                    num_u32s: 1,
                },
                UavWrite {
                    slot: table.table_slot,
                    resource: buffers[table.device_table].resource,
                    num_u32s: table.layout.table_u32s,
                },
            ),
        )
    }
}

impl ContextFrameTable {
    /// The views to write when the table is made: the selector, then the table.
    pub fn bind_to_bindless_heap(&self, buffers: &HashMap<u64, BufferState>) -> (writes: Result<
        (UavWrite, UavWrite),
        FrameTableError,
    >)
        ensures
            writes == bind_writes(*self, buffers@),
    {
        let selector: u64 = match buffers.get(&self.selector) {
            Some(b) => b.resource,
            None => {
                return Err(FrameTableError::MissingSelector);
            },
        };
        let table: u64 = match buffers.get(&self.device_table) {
            Some(b) => b.resource,
            None => {
                return Err(FrameTableError::MissingDeviceTable);
            },
        };
        Ok(
            (
                UavWrite { slot: self.selector_slot, resource: selector, num_u32s: 1 },
                UavWrite {
                    slot: self.table_slot,
                    resource: table,
                    num_u32s: self.layout.table_u32s,
                },
            ),
        )
    }

    /// Takes the next row of the ring for a pass outside any context, whose rows no
    /// retained list should hold.
    pub fn write_staging_standalone(&mut self, completed: u64) -> (result: Result<
        StagingRow,
        FrameTableError,
    >)
        requires
            old(self).wf(),
        ensures
            final(self).wf(),
            final(self).same_resources(*old(self)),
            ({
                let row = (old(self).submission_counter % old(self).layout.max_rows) as u32;
                let step = reserve_step(old(self).tokens()[row as int], completed);
                &&& result == (if old(self).pinned(row) {
                    Err(FrameTableError::StillPinned { row })
                } else {
                    Ok(StagingRow { row, step })
                })
                &&& final(self).tokens() == if !old(self).pinned(row) && step is Claimed {
                    old(self).tokens().update(row as int, ROW_IN_USE)
                } else {
                    old(self).tokens()
                }
            }),
            final(self).pinned_rows == old(self).pinned_rows,
            final(self).submission_counter == (if old(self).submission_counter == u32::MAX {
                0
            } else {
                (old(self).submission_counter + 1) as u32
            }),
    {
        let row: u32 = self.next_row();
        self.assert_not_pinned(row)?;
        let step = self.reserve_row_with_backpressure(row, completed);
        Ok(StagingRow { row, step })
    }
}

/// Where a descriptor lies in its heap.
pub fn descriptor_offset(slot: u32, descriptor_size: u32) -> (offset: usize)
    requires
        slot * descriptor_size <= u32::MAX,
    ensures
        offset == slot * descriptor_size,
{
    (slot * descriptor_size) as usize
}

/// A buffer of a bind has no descriptor.
#[derive(Clone, Copy, Debug, PartialEq, Eq, Structural)]
pub struct NoBindlessOffset {
    pub buffer: u64,
}

/// The bindless indices of buffers, or the first buffer that has none.
pub open spec fn offsets_of(buffers: Map<u64, BufferState>, handles: Seq<u64>) -> Result<
    Seq<u32>,
    NoBindlessOffset,
>
    decreases handles.len(),
{
    if handles.len() == 0 {
        Ok(Seq::empty())
    } else {
        match offsets_of(buffers, handles.drop_last()) {
            Err(e) => Err(e),
            Ok(before) => {
                let h = handles.last();
                if buffers.contains_key(h) && buffers[h].bindless_offset is Some {
                    Ok(before.push(buffers[h].bindless_offset->Some_0))
                } else {
                    Err(NoBindlessOffset { buffer: h })
                }
            },
        }
    }
}

proof fn lemma_offsets_error(buffers: Map<u64, BufferState>, handles: Seq<u64>, n: int)
    requires
        0 <= n <= handles.len(),
        offsets_of(buffers, handles.take(n)) is Err,
    ensures
        offsets_of(buffers, handles) == offsets_of(buffers, handles.take(n)),
    decreases handles.len(),
{
    if n < handles.len() {
        assert(handles.drop_last().take(n) =~= handles.take(n));
        lemma_offsets_error(buffers, handles.drop_last(), n);
    } else {
        assert(handles.take(n) =~= handles);
    }
}

/// Resolves the bindless indices of a bind of buffers.
pub fn bind_indices(buffers: &HashMap<u64, BufferState>, handles: &Vec<u64>) -> (indices: Result<
    Vec<u32>,
    NoBindlessOffset,
>)
    ensures
        match offsets_of(buffers@, handles@) {
            Ok(offsets) => indices is Ok && indices->Ok_0@ == offsets,
            Err(e) => indices == Err::<Vec<u32>, NoBindlessOffset>(e),
        },
{
    let mut indices: Vec<u32> = Vec::new();
    let mut i: usize = 0;
    while i < handles.len()
        invariant
            i <= handles.len(),
            offsets_of(buffers@, handles@.take(i as int)) == Ok::<Seq<u32>, NoBindlessOffset>(
                indices@,
            ),
        decreases handles.len() - i,
    {
        assert(handles@.take(i + 1).drop_last() =~= handles@.take(i as int));
        let h: u64 = handles[i];
        let offset = match buffers.get(&h) {
            Some(b) => b.bindless_offset,
            None => None,
        };
        match offset {
            Some(offset) => {
                indices.push(offset);
            },
            None => {
                proof {
                    lemma_offsets_error(buffers@, handles@, i + 1);
                }
                return Err(NoBindlessOffset { buffer: h });
            },
        }
        i += 1;
    }
    assert(handles@.take(i as int) =~= handles@);
    Ok(indices)
}

/// How a command of a standalone pass is lowered: the indices of a bind of buffers go
/// into the frame table, any other command is lowered without the buffers.
pub open spec fn lowers(
    buffers: Map<u64, BufferState>,
    command: RenderBinding,
    lowered: Option<Vec<u32>>,
) -> bool {
    match command {
        RenderBinding::BindResources { buffers: handles } => lowered matches Some(indices)
            && offsets_of(buffers, handles@) == Ok::<Seq<u32>, NoBindlessOffset>(indices@),
        _ => lowered is None,
    }
}

/// Why commands cannot be lowered, if they cannot.
pub open spec fn lower_error(buffers: Map<u64, BufferState>, commands: Seq<RenderBinding>) -> Option<
    NoBindlessOffset,
>
    decreases commands.len(),
{
    if commands.len() == 0 {
        None
    } else {
        match lower_error(buffers, commands.drop_last()) {
            Some(e) => Some(e),
            None => match commands.last() {
                RenderBinding::BindResources { buffers: handles } => match offsets_of(
                    buffers,
                    handles@,
                ) {
                    Ok(_) => None,
                    Err(e) => Some(e),
                },
                _ => None,
            },
        }
    }
}

proof fn lemma_lower_error(buffers: Map<u64, BufferState>, commands: Seq<RenderBinding>, n: int)
    requires
        0 <= n <= commands.len(),
        lower_error(buffers, commands.take(n)) is Some,
    ensures
        lower_error(buffers, commands) == lower_error(buffers, commands.take(n)),
    decreases commands.len(),
{
    if n < commands.len() {
        assert(commands.drop_last().take(n) =~= commands.take(n));
        lemma_lower_error(buffers, commands.drop_last(), n);
    } else {
        assert(commands.take(n) =~= commands);
    }
}

/// Lowers the commands of a standalone pass.
pub fn prepare_render_commands(buffers: &HashMap<u64, BufferState>, commands: &Vec<RenderBinding>) -> (result:
    Result<Vec<Option<Vec<u32>>>, NoBindlessOffset>)
    ensures
        match lower_error(buffers@, commands@) {
            Some(e) => result == Err::<Vec<Option<Vec<u32>>>, NoBindlessOffset>(e),
            None => result is Ok && result->Ok_0@.len() == commands@.len() && forall|i: int|
                0 <= i < commands@.len() ==> lowers(
                    buffers@,
                    commands@[i],
                    #[trigger] result->Ok_0@[i],
                ),
        },
{
    let mut out: Vec<Option<Vec<u32>>> = Vec::new();
    let mut i: usize = 0;
    while i < commands.len()
        invariant
            i <= commands.len(),
            lower_error(buffers@, commands@.take(i as int)) is None,
            out@.len() == i,
            forall|j: int| 0 <= j < i ==> lowers(buffers@, commands@[j], #[trigger] out@[j]),
        decreases commands.len() - i,
    {
        assert(commands@.take(i + 1).drop_last() =~= commands@.take(i as int));
        match &commands[i] {
            RenderBinding::BindResources { buffers: handles } => {
                match bind_indices(buffers, handles) {
                    Ok(indices) => {
                        out.push(Some(indices));
                    },
                    Err(e) => {
                        proof {
                            lemma_lower_error(buffers@, commands@, i + 1);
                        }
                        return Err(e);
                    },
                }
            },
            _ => {
                out.push(None);
            },
        }
        i += 1;
    }
    assert(commands@.take(i as int) =~= commands@);
    Ok(out)
}

/// The buffer is the one at a bindless index: a storage buffer by either of its views,
/// a uniform buffer by its only one. Indices belong to a device.
pub open spec fn at_index(b: BufferState, device: u64, index: u32, category: ResourceCategory) -> bool {
    b.device_handle == device && match category {
        ResourceCategory::Scattered => b.is_storage && (b.bindless_offset == Some(index)
            || b.bindless_srv_offset == Some(index)),
        ResourceCategory::Broadcast => !b.is_storage && b.bindless_offset == Some(index),
        _ => false,
    }
}

fn is_at_index(b: &BufferState, device: u64, index: u32, category: ResourceCategory) -> (at: bool)
    ensures
        at == at_index(*b, device, index, category),
{
    if b.device_handle != device {
        return false;
    }
    let uav = match b.bindless_offset {
        Some(offset) => offset == index,
        None => false,
    };
    let srv = match b.bindless_srv_offset {
        Some(offset) => offset == index,
        None => false,
    };
    match category {
        ResourceCategory::Scattered => b.is_storage && (uav || srv),
        ResourceCategory::Broadcast => !b.is_storage && uav,
        _ => false,
    }
}

/// The element stride of a buffer at a bindless index, if there is one and it has a
/// stride. Where several are there, it is that of any of them.
pub fn buffer_stride_for_bindless_index(
    buffers: &HashMap<u64, BufferState>,
    device: u64,
    index: u32,
    category: ResourceCategory,
) -> (stride: Option<u32>)
    ensures
        (exists|h: u64| #[trigger]
            buffers@.contains_key(h) && at_index(buffers@[h], device, index, category) && stride
                == buffers@[h].element_stride) || (stride is None && forall|h: u64| #[trigger]
            buffers@.contains_key(h) ==> !at_index(buffers@[h], device, index, category)),
{
    let ghost all = buffers@;
    for entry in iter: buffers.iter()
        invariant
            all == buffers@,
            forall|i: int|
                0 <= i < iter.seq().len() ==> all.contains_key(*(#[trigger] iter.seq()[i]).0)
                    && all[*iter.seq()[i].0] == *iter.seq()[i].1,
            forall|k: u64| #[trigger] all.contains_key(k) ==> iter.seq().contains((&k, &all[k])),
            forall|i: int|
                0 <= i < iter.index() ==> !at_index(
                    *(#[trigger] iter.seq()[i]).1,
                    device,
                    index,
                    category,
                ),
    {
        if is_at_index(entry.1, device, index, category) {
            assert(all.contains_key(*entry.0));
            return entry.1.element_stride;
        }
    }
    None
}

} // verus!
