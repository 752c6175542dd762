//! Frame tables: a ring of upload rows that carries per-submission binding words
//! to the device, with its row tokens, its pinned rows and the copies that open a
//! submission.

use std::collections::HashMap;
use vstd::prelude::*;

use super::barriers::{
    buffer_barrier_full, full_buffer_barrier, sync_access_paired, Barrier, ACCESS_COMMON,
    ACCESS_COPY_DEST, ACCESS_COPY_SOURCE, ACCESS_UNORDERED_ACCESS, SYNC_ALL, SYNC_COMPUTE_SHADING,
    SYNC_COPY,
};
use super::command_list::{issue_barrier, issue_one, Call};
use super::commands::{GpuCommand, GraphCommand};
use super::types::BufferState;

verus! {

broadcast use vstd::std_specs::hash::group_hash_axioms;

/// Token of a row that is reserved for staging and has not been recorded yet.
pub const ROW_IN_USE: u64 = u64::MAX;

/// Rows that the pin mask has bits for.
pub const ROW_LIMIT: u32 = 32;

/// Sizes of a frame table.
#[derive(Clone, Copy, Debug, PartialEq, Eq, Structural)]
pub struct FrameTableLayout {
    pub max_rows: u32,
    /// Words of one row.
    pub row_stride: u32,
    /// Words of the device-local table.
    pub table_u32s: u32,
    /// Words before the first row in the staging memory: one selector per row.
    pub staging_selector_u32s: u32,
    /// First bindless slot that is not kept for the frame-table protocol.
    pub user_slot_base: u32,
}

impl FrameTableLayout {
    /// There are rows, each has a selector word, and all of them fit the table.
    pub open spec fn wf(self) -> bool {
        &&& 0 < self.max_rows <= ROW_LIMIT
        &&& 0 < self.row_stride <= 0x10_0000
        &&& self.max_rows <= self.staging_selector_u32s <= 0x1_0000
        &&& self.max_rows * self.row_stride <= self.table_u32s <= 0x1000_0000
    }

    /// Words of the staging memory.
    pub open spec fn staging_u32s(self) -> int {
        self.staging_selector_u32s + self.max_rows * self.row_stride
    }

    /// First word of a row in the staging memory.
    pub open spec fn row_word(self, row: u32) -> int {
        self.staging_selector_u32s + row * self.row_stride
    }

    /// Words of a payload that fit in a row.
    pub open spec fn fitting(self, words: int) -> int {
        if words < self.row_stride {
            words
        } else {
            self.row_stride as int
        }
    }

    /// Byte offset of a row in the staging memory.
    pub fn staging_row_payload_byte_offset(&self, row: u32) -> (offset: u64)
        requires
            self.wf(),
            row < self.max_rows,
        ensures
            offset == 4 * self.row_word(row),
    {
        proof {
            self.row_fits(row);
        }
        (self.staging_selector_u32s as u64 + row as u64 * self.row_stride as u64) * 4
    }

    /// Byte offset of a row's selector in the staging memory.
    pub fn staging_selector_byte_offset(&self, row: u32) -> (offset: u64)
        requires
            self.wf(),
            row < self.max_rows,
        ensures
            offset == 4 * row,
    {
        row as u64 * 4
    }

    /// A row lies within the staging memory and within the table.
    pub proof fn row_fits(self, row: u32)
        requires
            self.wf(),
            row < self.max_rows,
        ensures
            self.staging_selector_u32s <= self.row_word(row),
            self.row_word(row) + self.row_stride <= self.staging_u32s(),
            0 <= row * self.row_stride <= self.table_u32s - self.row_stride,
    {
        assert(row * self.row_stride + self.row_stride <= self.max_rows * self.row_stride && 0
            <= row * self.row_stride) by (nonlinear_arith)
            requires
                row + 1 <= self.max_rows,
                0 <= self.row_stride,
                0 <= row,
        ;
    }

    /// Words of a payload that are copied: at most a row, at most the table.
    pub fn copied_words(&self, words: usize) -> (count: usize)
        requires
            self.wf(),
        ensures
            count == self.fitting(words as int),
    {
        proof {
            self.row_fits(0);
        }
        let a: usize = if words < self.row_stride as usize {
            words
        } else {
            self.row_stride as usize
        };
        if a < self.table_u32s as usize {
            a
        } else {
            self.table_u32s as usize
        }
    }
}

/// Frame-table resources and ring state of one context.
pub struct ContextFrameTable {
    pub layout: FrameTableLayout,
    /// Buffer that holds the selected row's index on the device.
    pub selector: u64,
    /// Device-local table.
    pub device_table: u64,
    pub selector_slot: u32,
    pub table_slot: u32,
    /// Upload resource behind the staging memory.
    pub staging: u64,
    pub submission_counter: u32,
    /// Bit mask of rows that retained command lists hold.
    pub pinned_rows: u32,
    /// Last timeline value that used each row: zero for a free row, `ROW_IN_USE`
    /// for a reserved one.
    pub last_token_for_row: Vec<u64>,
}

/// A bit mask holds a row.
pub open spec fn mask_has(mask: u32, row: u32) -> bool {
    mask & (1u32 << row) != 0
}

impl ContextFrameTable {
    /// Each row has the fence value of the submission that used it last.
    pub open spec fn wf(self) -> bool {
        &&& self.layout.wf()
        &&& self.last_token_for_row@.len() == self.layout.max_rows
    }

    /// The row is held by a retained command list.
    pub open spec fn pinned(self, row: u32) -> bool {
        mask_has(self.pinned_rows, row)
    }

    /// The token of each row.
    pub open spec fn tokens(self) -> Seq<u64> {
        self.last_token_for_row@
    }

    /// Everything but the tokens, the pins and the counter is the same.
    pub open spec fn same_resources(self, other: ContextFrameTable) -> bool {
        &&& self.layout == other.layout
        &&& self.selector == other.selector
        &&& self.device_table == other.device_table
        &&& self.selector_slot == other.selector_slot
        &&& self.table_slot == other.table_slot
        &&& self.staging == other.staging
    }

    /// A table with every row free.
    pub fn new(
        layout: FrameTableLayout,
        selector: u64,
        device_table: u64,
        selector_slot: u32,
        table_slot: u32,
        staging: u64,
    ) -> (table: ContextFrameTable)
        requires
            layout.wf(),
        ensures
            table.wf(),
            table.layout == layout,
            table.selector == selector,
            table.device_table == device_table,
            table.selector_slot == selector_slot,
            table.table_slot == table_slot,
            table.staging == staging,
            table.submission_counter == 0,
            table.pinned_rows == 0,
            table.tokens() == Seq::new(layout.max_rows as nat, |i: int| 0u64),
            forall|row: u32| row < layout.max_rows ==> !#[trigger] table.pinned(row),
    {
        let mut tokens: Vec<u64> = Vec::new();
        let mut i: u32 = 0;
        while i < layout.max_rows
            invariant
                i <= layout.max_rows,
                tokens@ == Seq::new(i as nat, |j: int| 0u64),
            decreases layout.max_rows - i,
        {
            tokens.push(0);
            i += 1;
        }
        assert forall|row: u32| row < layout.max_rows implies !mask_has(0u32, row) by {
            assert(0u32 & (1u32 << row) == 0) by (bit_vector);
        }
        ContextFrameTable {
            layout,
            selector,
            device_table,
            selector_slot,
            table_slot,
            staging,
            submission_counter: 0,
            pinned_rows: 0,
            last_token_for_row: tokens,
        }
    }

    /// Whether the row is held by a retained command list.
    pub fn is_pinned(&self, row: u32) -> (pinned: bool)
        requires
            self.wf(),
            row < self.layout.max_rows,
        ensures
            pinned == self.pinned(row),
    {
        self.pinned_rows & (1u32 << row) != 0
    }

    /// Pins a row so that the copies of a retained command list keep their source
    /// bytes. A row is pinned by one list at a time: pinning it again is an error.
    pub fn pin_row(&mut self, row: u32) -> (result: Result<(), FrameTableError>)
        requires
            old(self).wf(),
            row < old(self).layout.max_rows,
        ensures
            final(self).wf(),
            final(self).same_resources(*old(self)),
            final(self).tokens() == old(self).tokens(),
            final(self).submission_counter == old(self).submission_counter,
            old(self).pinned(row) <==> result == Err::<(), FrameTableError>(
                FrameTableError::AlreadyPinned { row },
            ),
            !old(self).pinned(row) <==> result is Ok,
            result is Err ==> final(self).pinned_rows == old(self).pinned_rows,
            forall|r: u32|
                r < ROW_LIMIT ==> (#[trigger] final(self).pinned(r) <==> old(self).pinned(r) || r
                    == row),
    {
        let bit: u32 = 1u32 << row;
        let prev: u32 = self.pinned_rows;
        self.pinned_rows = prev | bit;
        proof {
            lemma_mask_or(prev, row);
        }
        if prev & bit != 0 {
            return Err(FrameTableError::AlreadyPinned { row });
        }
        Ok(())
    }

    /// Releases a row pinned by `pin_row`.
    pub fn unpin_row(&mut self, row: u32)
        requires
            old(self).wf(),
            row < old(self).layout.max_rows,
        ensures
            final(self).wf(),
            final(self).same_resources(*old(self)),
            final(self).tokens() == old(self).tokens(),
            final(self).submission_counter == old(self).submission_counter,
            final(self).pinned_rows == without_row(old(self).pinned_rows, row),
            forall|r: u32|
                r < ROW_LIMIT ==> (#[trigger] final(self).pinned(r) <==> old(self).pinned(r) && r
                    != row),
    {
        let bit: u32 = 1u32 << row;
        let prev: u32 = self.pinned_rows;
        self.pinned_rows = prev & !bit;
        proof {
            lemma_mask_and_not(prev, row);
        }
    }

    /// Records the timeline value that owns a row, or zero to give up a
    /// reservation.
    pub fn record_submission(&mut self, row: u32, token: u64)
        requires
            old(self).wf(),
            row < old(self).layout.max_rows,
            token != ROW_IN_USE,
        ensures
            final(self).wf(),
            final(self).same_resources(*old(self)),
            final(self).pinned_rows == old(self).pinned_rows,
            final(self).submission_counter == old(self).submission_counter,
            final(self).tokens() == old(self).tokens().update(row as int, token),
    {
        self.last_token_for_row.set(row as usize, token);
    }

    /// The next row of the ring; the counter moves on and wraps.
    pub fn next_row(&mut self) -> (row: u32)
        requires
            old(self).wf(),
        ensures
            final(self).wf(),
            final(self).same_resources(*old(self)),
            final(self).pinned_rows == old(self).pinned_rows,
            final(self).tokens() == old(self).tokens(),
            row == old(self).submission_counter % old(self).layout.max_rows,
            row < old(self).layout.max_rows,
            final(self).submission_counter == (if old(self).submission_counter == u32::MAX {
                0
            } else {
                (old(self).submission_counter + 1) as u32
            }),
    {
        let sub: u32 = self.submission_counter;
        self.submission_counter = sub.wrapping_add(1);
        sub % self.layout.max_rows
    }

    /// The row that the last submission staged; the first row before any did.
    pub open spec fn active(self) -> u32 {
        (if self.submission_counter == 0 {
            0
        } else {
            (self.submission_counter - 1) as u32
        }) % self.layout.max_rows
    }

    /// The row that the last submission staged; the first row before any did.
    pub fn active_row(&self) -> (row: u32)
        requires
            self.wf(),
        ensures
            row == self.active(),
            row < self.layout.max_rows,
    {
        self.submission_counter.saturating_sub(1) % self.layout.max_rows
    }

    /// The row of the last prologue, if there was one.
    pub fn last_prologue_row(&self) -> (row: Option<u32>)
        requires
            self.wf(),
        ensures
            row == (if self.submission_counter == 0 {
                None
            } else {
                Some(self.active())
            }),
            row matches Some(r) ==> r < self.layout.max_rows,
    {
        if self.submission_counter == 0 {
            None
        } else {
            Some(self.active_row())
        }
    }

    /// Refuses a row that is still pinned.
    pub fn assert_not_pinned(&self, row: u32) -> (result: Result<(), FrameTableError>)
        requires
            self.wf(),
            row < self.layout.max_rows,
        ensures
            self.pinned(row) <==> result == Err::<(), FrameTableError>(
                FrameTableError::StillPinned { row },
            ),
            !self.pinned(row) <==> result is Ok,
    {
        if self.is_pinned(row) {
            return Err(FrameTableError::StillPinned { row });
        }
        Ok(())
    }

    /// One attempt to claim a row, given how far the fence has come. A row whose
    /// last user has not retired is not claimed: the caller waits and tries again.
    pub fn reserve_row_with_backpressure(&mut self, row: u32, completed: u64) -> (step: ReserveStep)
        requires
            old(self).wf(),
            row < old(self).layout.max_rows,
        ensures
            final(self).wf(),
            final(self).same_resources(*old(self)),
            final(self).pinned_rows == old(self).pinned_rows,
            final(self).submission_counter == old(self).submission_counter,
            step == reserve_step(old(self).tokens()[row as int], completed),
            final(self).tokens() == if step is Claimed {
                old(self).tokens().update(row as int, ROW_IN_USE)
            } else {
                old(self).tokens()
            },
    {
        let prev: u64 = self.last_token_for_row[row as usize];
        if prev == ROW_IN_USE {
            return ReserveStep::Busy;
        }
        if prev > 0 && completed < prev {
            return ReserveStep::WaitFor { token: prev };
        }
        self.last_token_for_row.set(row as usize, ROW_IN_USE);
        ReserveStep::Claimed
    }

    /// Writes the words of a submission into the staging memory of its row, and
    /// the row's selector. Words that do not fit in a row are left out.
    pub fn write_row_payload(&self, staging: &mut Vec<u32>, data: &Vec<u32>, row: u32)
        requires
            self.wf(),
            row < self.layout.max_rows,
            old(staging)@.len() == self.layout.staging_u32s(),
        ensures
            final(staging)@ == staged(self.layout, old(staging)@, data@, row),
    {
        proof {
            self.layout.row_fits(row);
        }
        let count: usize = self.layout.copied_words(data.len());
        let len: usize = staging.len();
        let first: usize = self.layout.staging_selector_u32s as usize + row as usize
            * self.layout.row_stride as usize;
        let ghost start = staging@;
        let mut i: usize = 0;
        while i < count
            invariant
                i <= count,
                count == self.layout.fitting(data@.len() as int),
                count <= data@.len(),
                first == self.layout.row_word(row),
                first + count <= len,
                staging@.len() == len,
                start.len() == len,
                forall|j: int|
                    0 <= j < len ==> #[trigger] staging@[j] == if first <= j < first + i {
                        data@[j - first]
                    } else {
                        start[j]
                    },
            decreases count - i,
        {
            staging.set(first + i, data[i]);
            i += 1;
        }
        staging.set(row as usize, row);
        assert(staging@ =~= staged(self.layout, start, data@, row));
    }
}

/// A mask without one row.
pub open spec fn without_row(mask: u32, row: u32) -> u32 {
    mask & !(1u32 << row)
}

/// The staging memory after a row's payload and selector were written.
pub open spec fn staged(layout: FrameTableLayout, staging: Seq<u32>, data: Seq<u32>, row: u32) -> Seq<
    u32,
> {
    Seq::new(
        staging.len(),
        |j: int|
            if j == row {
                row
            } else if layout.row_word(row) <= j < layout.row_word(row) + layout.fitting(
                data.len() as int,
            ) {
                data[j - layout.row_word(row)]
            } else {
                staging[j]
            },
    )
}

proof fn lemma_mask_or(mask: u32, row: u32)
    requires
        row < 32,
    ensures
        forall|r: u32| r < 32 ==> (#[trigger] mask_has(mask | (1u32 << row), r) <==> mask_has(mask, r) || r == row),
        mask_has(mask, row) ==> mask | (1u32 << row) == mask,
{
    assert forall|r: u32| r < 32 implies (#[trigger] mask_has(mask | (1u32 << row), r) <==> mask_has(mask, r) || r == row) by {
        assert((mask | (1u32 << row)) & (1u32 << r) != 0 <==> mask & (1u32 << r) != 0 || r == row)
            by (bit_vector)
            requires
                r < 32,
                row < 32,
        ;
    }
    assert(mask & (1u32 << row) != 0 ==> mask | (1u32 << row) == mask) by (bit_vector)
        requires
            row < 32,
    ;
}

proof fn lemma_mask_and_not(mask: u32, row: u32)
    requires
        row < 32,
    ensures
        forall|r: u32| r < 32 ==> (#[trigger] mask_has(without_row(mask, row), r) <==> mask_has(mask, r) && r != row),
        !mask_has(mask, row) ==> without_row(mask, row) == mask,
{
    assert forall|r: u32| r < 32 implies (#[trigger] mask_has(without_row(mask, row), r) <==> mask_has(mask, r) && r != row) by {
        assert((mask & !(1u32 << row)) & (1u32 << r) != 0 <==> mask & (1u32 << r) != 0 && r != row)
            by (bit_vector)
            requires
                r < 32,
                row < 32,
        ;
    }
    assert(mask & (1u32 << row) == 0 ==> mask & !(1u32 << row) == mask) by (bit_vector)
        requires
            row < 32,
    ;
}

/// Why the frame table refuses an operation.
#[derive(Clone, Copy, Debug, PartialEq, Eq, Structural)]
pub enum FrameTableError {
    AlreadyPinned { row: u32 },
    StillPinned { row: u32 },
    InvalidContext { context: u64 },
    InvalidDevice { device: u64 },
    MissingDeviceTable,
    MissingSelector,
}

/// Outcome of one attempt to claim a row.
#[derive(Clone, Copy, Debug, PartialEq, Eq, Structural)]
pub enum ReserveStep {
    /// Another submitter holds the row and has not recorded it yet.
    Busy,
    /// The fence has to reach the row's token first.
    WaitFor { token: u64 },
    Claimed,
}

/// What an attempt to claim a row with this token comes to.
pub open spec fn reserve_step(token: u64, completed: u64) -> ReserveStep {
    if token == ROW_IN_USE {
        ReserveStep::Busy
    } else if completed < token {
        ReserveStep::WaitFor { token }
    } else {
        ReserveStep::Claimed
    }
}

/// A claimed row on its way to a submission. It is given up unless it is taken or
/// committed.
pub struct RowReservation {
    pub row: Option<u32>,
}

impl RowReservation {
    /// A reservation that holds no row.
    pub fn new() -> (reservation: RowReservation)
        ensures
            reservation.row is None,
    {
        RowReservation { row: None }
    }

    /// Holds a row.
    pub fn set(&mut self, row: u32)
        ensures
            final(self).row == Some(row),
    {
        self.row = Some(row);
    }

    /// Disarms the reservation: the caller records the row itself.
    pub fn take(&mut self) -> (row: Option<u32>)
        ensures
            row == old(self).row,
            final(self).row is None,
    {
        let row = self.row;
        self.row = None;
        row
    }

    /// Records the timeline value of the submission that uses the row.
    pub fn commit(self, table: &mut ContextFrameTable, token: u64)
        requires
            old(table).wf(),
            self.row matches Some(r) ==> r < old(table).layout.max_rows,
            token != ROW_IN_USE,
        ensures
            final(table).wf(),
            final(table).same_resources(*old(table)),
            final(table).pinned_rows == old(table).pinned_rows,
            final(table).submission_counter == old(table).submission_counter,
            final(table).tokens() == match self.row {
                Some(row) => old(table).tokens().update(row as int, token),
                None => old(table).tokens(),
            },
    {
        match self.row {
            Some(row) => {
                table.record_submission(row, token);
            },
            None => {},
        }
    }

    /// Gives the row up: it is free again.
    pub fn abort(self, table: &mut ContextFrameTable)
        requires
            old(table).wf(),
            self.row matches Some(r) ==> r < old(table).layout.max_rows,
        ensures
            final(table).wf(),
            final(table).same_resources(*old(table)),
            final(table).pinned_rows == old(table).pinned_rows,
            final(table).submission_counter == old(table).submission_counter,
            final(table).tokens() == match self.row {
                Some(row) => old(table).tokens().update(row as int, 0u64),
                None => old(table).tokens(),
            },
    {
        match self.row {
            Some(row) => {
                table.record_submission(row, 0);
            },
            None => {},
        }
    }
}

/// A row is claimed only once the work that used it last has retired.
pub proof fn claimed_row_has_retired(token: u64, completed: u64)
    ensures
        reserve_step(token, completed) is Claimed <==> token != ROW_IN_USE && token <= completed,
{
}

/// A claimed row cannot be claimed again before it is recorded or given up; once
/// given up it can be claimed at any time, and once recorded as soon as the fence
/// has reached its token.
pub proof fn reservation_protocol(token: u64, completed: u64, recorded: u64)
    requires
        reserve_step(token, completed) is Claimed,
        recorded != ROW_IN_USE,
    ensures
        reserve_step(ROW_IN_USE, completed) is Busy,
        reserve_step(0, completed) is Claimed,
        reserve_step(recorded, completed) is Claimed <==> recorded <= completed,
{
}

/// Unpinning a row that was free before it was pinned restores the pins.
pub proof fn pin_then_unpin_restores(mask: u32, row: u32)
    requires
        row < ROW_LIMIT,
        !mask_has(mask, row),
    ensures
        without_row(mask | (1u32 << row), row) == mask,
{
    assert(mask & (1u32 << row) == 0 ==> (mask | (1u32 << row)) & !(1u32 << row) == mask)
        by (bit_vector)
        requires
            row < 32,
    ;
}

/// Writing one row leaves the payload of every other row as it was.
pub proof fn staging_one_row_keeps_the_others(
    layout: FrameTableLayout,
    staging: Seq<u32>,
    data: Seq<u32>,
    row: u32,
    other: u32,
    j: int,
)
    requires
        layout.wf(),
        staging.len() == layout.staging_u32s(),
        row < layout.max_rows,
        other < layout.max_rows,
        row != other,
        layout.row_word(other) <= j < layout.row_word(other) + layout.row_stride,
    ensures
        staged(layout, staging, data, row)[j] == staging[j],
        staged(layout, staging, data, row)[other as int] == staging[other as int],
{
    layout.row_fits(row);
    layout.row_fits(other);
    assert(row < other ==> (row + 1) * layout.row_stride <= other * layout.row_stride)
        by (nonlinear_arith)
        requires
            0 <= layout.row_stride,
    ;
    assert(other < row ==> (other + 1) * layout.row_stride <= row * layout.row_stride)
        by (nonlinear_arith)
        requires
            0 <= layout.row_stride,
    ;
    assert((row + 1) * layout.row_stride == row * layout.row_stride + layout.row_stride)
        by (nonlinear_arith);
    assert((other + 1) * layout.row_stride == other * layout.row_stride + layout.row_stride)
        by (nonlinear_arith);
}

/// State of a buffer between the copies of a prologue.
#[derive(Clone, Copy, Debug, PartialEq, Eq, Structural)]
pub enum ResourceState {
    Common,
    UnorderedAccess,
    CopyDest,
    CopySource,
    GenericRead,
}

/// The barrier stages of a resource state.
pub open spec fn state_sync(state: ResourceState) -> u32 {
    match state {
        ResourceState::UnorderedAccess => SYNC_COMPUTE_SHADING,
        ResourceState::CopyDest => SYNC_COPY,
        ResourceState::CopySource => SYNC_COPY,
        ResourceState::GenericRead => SYNC_COPY,
        ResourceState::Common => SYNC_ALL,
    }
}

/// The barrier accesses of a resource state. The implicit read of an upload buffer
/// counts as a copy source.
pub open spec fn state_access(state: ResourceState) -> u32 {
    match state {
        ResourceState::UnorderedAccess => ACCESS_UNORDERED_ACCESS,
        ResourceState::CopyDest => ACCESS_COPY_DEST,
        ResourceState::CopySource => ACCESS_COPY_SOURCE,
        ResourceState::GenericRead => ACCESS_COPY_SOURCE,
        ResourceState::Common => ACCESS_COMMON,
    }
}

/// The barrier stages and accesses of a resource state.
pub fn legacy_state_to_barrier(state: ResourceState) -> (sides: (u32, u32))
    ensures
        sides == (state_sync(state), state_access(state)),
        sync_access_paired(sides.0, sides.1),
{
    match state {
        ResourceState::UnorderedAccess => (SYNC_COMPUTE_SHADING, ACCESS_UNORDERED_ACCESS),
        ResourceState::CopyDest => (SYNC_COPY, ACCESS_COPY_DEST),
        ResourceState::CopySource => (SYNC_COPY, ACCESS_COPY_SOURCE),
        ResourceState::GenericRead => (SYNC_COPY, ACCESS_COPY_SOURCE),
        ResourceState::Common => (SYNC_ALL, ACCESS_COMMON),
    }
}

/// Calls that move a buffer from one state to another; none where they are equal.
pub open spec fn transition_calls(
    resource: u64,
    before: ResourceState,
    after: ResourceState,
) -> Seq<Call> {
    if before == after {
        Seq::empty()
    } else {
        issue_one(
            Barrier::Buffer(
                full_buffer_barrier(
                    resource,
                    state_sync(before),
                    state_sync(after),
                    state_access(before),
                    state_access(after),
                ),
            ),
        )
    }
}

/// Moves a buffer from one state to another.
pub fn transition_buffer(
    calls: &mut Vec<Call>,
    resource: u64,
    before: ResourceState,
    after: ResourceState,
)
    ensures
        final(calls)@ == old(calls)@ + transition_calls(resource, before, after),
{
    if before == after {
        return;
    }
    let (sync_before, access_before) = legacy_state_to_barrier(before);
    let (sync_after, access_after) = legacy_state_to_barrier(after);
    let barrier = buffer_barrier_full(
        resource,
        sync_before,
        sync_after,
        access_before,
        access_after,
    );
    issue_barrier(calls, Barrier::Buffer(barrier));
}

/// The copy of a row's payload from the staging memory into the device table.
pub open spec fn payload_copy(
    layout: FrameTableLayout,
    device_table: u64,
    staging: u64,
    words: int,
    row: u32,
) -> Call {
    Call::CopyBufferRegion {
        dst: device_table,
        dst_offset: (4 * row * layout.row_stride) as u64,
        src: staging,
        src_offset: (4 * layout.row_word(row)) as u64,
        size: (4 * layout.fitting(words)) as u64,
    }
}

/// Calls that open a submission: the row's payload goes to the device table and
/// its index to the selector.
pub open spec fn prologue_calls(
    layout: FrameTableLayout,
    device_table: u64,
    selector: u64,
    staging: u64,
    words: int,
    row: u32,
) -> Seq<Call> {
    transition_calls(staging, ResourceState::GenericRead, ResourceState::CopySource)
        + transition_calls(device_table, ResourceState::Common, ResourceState::CopyDest)
        + transition_calls(selector, ResourceState::Common, ResourceState::CopyDest) + seq![
        payload_copy(layout, device_table, staging, words, row),
        Call::CopyBufferRegion {
            dst: selector,
            dst_offset: 0,
            src: staging,
            src_offset: (4 * row) as u64,
            size: 4,
        },
    ] + transition_calls(device_table, ResourceState::CopyDest, ResourceState::UnorderedAccess)
        + transition_calls(selector, ResourceState::CopyDest, ResourceState::UnorderedAccess)
        + transition_calls(staging, ResourceState::CopySource, ResourceState::GenericRead)
}

/// Calls that refresh the active row of the device table and leave the selector
/// alone.
pub open spec fn refresh_calls(
    layout: FrameTableLayout,
    device_table: u64,
    staging: u64,
    words: int,
    row: u32,
) -> Seq<Call> {
    transition_calls(staging, ResourceState::GenericRead, ResourceState::CopySource)
        + transition_calls(device_table, ResourceState::UnorderedAccess, ResourceState::CopyDest)
        + seq![payload_copy(layout, device_table, staging, words, row)] + transition_calls(
        device_table,
        ResourceState::CopyDest,
        ResourceState::UnorderedAccess,
    ) + transition_calls(staging, ResourceState::CopySource, ResourceState::GenericRead)
}

impl ContextFrameTable {
    fn emit_payload_copy(
        &self,
        calls: &mut Vec<Call>,
        device_table: u64,
        words: usize,
        row: u32,
    )
        requires
            self.wf(),
            row < self.layout.max_rows,
        ensures
            final(calls)@ == old(calls)@.push(
                payload_copy(self.layout, device_table, self.staging, words as int, row),
            ),
    {
        proof {
            self.layout.row_fits(row);
        }
        let count: usize = self.layout.copied_words(words);
        let row_bytes: u64 = self.layout.row_stride as u64 * 4;
        assert(row * (self.layout.row_stride * 4) == 4 * row * self.layout.row_stride)
            by (nonlinear_arith);
        assert(4 * row * self.layout.row_stride == 4 * (row * self.layout.row_stride))
            by (nonlinear_arith);
        let src: u64 = self.layout.staging_row_payload_byte_offset(row);
        calls.push(
            Call::CopyBufferRegion {
                dst: device_table,
                dst_offset: row as u64 * row_bytes,
                src: self.staging,
                src_offset: src,
                size: count as u64 * 4,
            },
        );
    }

    /// Records the copies that open a submission whose words were staged in `row`.
    pub fn record_prologue_gpu_copies(
        &self,
        buffers: &HashMap<u64, BufferState>,
        calls: &mut Vec<Call>,
        words: usize,
        row: u32,
    ) -> (result: Result<(), FrameTableError>)
        requires
            self.wf(),
            row < self.layout.max_rows,
        ensures
            if !buffers@.contains_key(self.device_table) {
                result == Err::<(), FrameTableError>(FrameTableError::MissingDeviceTable)
                    && final(calls)@ == old(calls)@
            } else if !buffers@.contains_key(self.selector) {
                result == Err::<(), FrameTableError>(FrameTableError::MissingSelector)
                    && final(calls)@ == old(calls)@
            } else {
                result is Ok && final(calls)@ == old(calls)@ + prologue_calls(
                    self.layout,
                    buffers@[self.device_table].resource,
                    buffers@[self.selector].resource,
                    self.staging,
                    words as int,
                    row,
                )
            },
    {
        let table: u64 = match buffers.get(&self.device_table) {
            Some(b) => b.resource,
            None => {
                return Err(FrameTableError::MissingDeviceTable);
            },
        };
        let selector: u64 = match buffers.get(&self.selector) {
            Some(b) => b.resource,
            None => {
                return Err(FrameTableError::MissingSelector);
            },
        };
        transition_buffer(calls, self.staging, ResourceState::GenericRead, ResourceState::CopySource);
        transition_buffer(calls, table, ResourceState::Common, ResourceState::CopyDest);
        transition_buffer(calls, selector, ResourceState::Common, ResourceState::CopyDest);
        self.emit_payload_copy(calls, table, words, row);
        calls.push(
            Call::CopyBufferRegion {
                dst: selector,
                dst_offset: 0,
                src: self.staging,
                src_offset: self.layout.staging_selector_byte_offset(row),
                size: 4,
            },
        );
        transition_buffer(calls, table, ResourceState::CopyDest, ResourceState::UnorderedAccess);
        transition_buffer(calls, selector, ResourceState::CopyDest, ResourceState::UnorderedAccess);
        transition_buffer(calls, self.staging, ResourceState::CopySource, ResourceState::GenericRead);
        assert(calls@ =~= old(calls)@ + prologue_calls(
            self.layout,
            table,
            selector,
            self.staging,
            words as int,
            row,
        ));
        Ok(())
    }

    /// Opens a submission that has claimed a row: its words go into the staging memory,
    /// and the copies that bring them to the device are recorded.
    pub fn record_prologue(
        &self,
        buffers: &HashMap<u64, BufferState>,
        calls: &mut Vec<Call>,
        staging: &mut Vec<u32>,
        data: &Vec<u32>,
        row: u32,
    ) -> (result: Result<(), FrameTableError>)
        requires
            self.wf(),
            row < self.layout.max_rows,
            old(staging)@.len() == self.layout.staging_u32s(),
        ensures
            final(staging)@ == staged(self.layout, old(staging)@, data@, row),
            if !buffers@.contains_key(self.device_table) {
                result == Err::<(), FrameTableError>(FrameTableError::MissingDeviceTable)
                    && final(calls)@ == old(calls)@
            } else if !buffers@.contains_key(self.selector) {
                result == Err::<(), FrameTableError>(FrameTableError::MissingSelector)
                    && final(calls)@ == old(calls)@
            } else {
                result is Ok && final(calls)@ == old(calls)@ + prologue_calls(
                    self.layout,
                    buffers@[self.device_table].resource,
                    buffers@[self.selector].resource,
                    self.staging,
                    data@.len() as int,
                    row,
                )
            },
    {
        self.write_row_payload(staging, data, row);
        self.record_prologue_gpu_copies(buffers, calls, data.len(), row)
    }

    /// Refreshes the active row: stages the words in it again and copies it to the
    /// device table, without moving the selector on.
    pub fn sync_table_row_to_device(
        &self,
        buffers: &HashMap<u64, BufferState>,
        calls: &mut Vec<Call>,
        staging: &mut Vec<u32>,
        data: &Vec<u32>,
    ) -> (result: Result<(), FrameTableError>)
        requires
            self.wf(),
            old(staging)@.len() == self.layout.staging_u32s(),
        ensures
            if !buffers@.contains_key(self.device_table) {
                result == Err::<(), FrameTableError>(FrameTableError::MissingDeviceTable)
                    && final(calls)@ == old(calls)@ && final(staging)@ == old(staging)@
            } else {
                result is Ok && final(staging)@ == staged(
                    self.layout,
                    old(staging)@,
                    data@,
                    self.active(),
                ) && final(calls)@ == old(calls)@ + refresh_calls(
                    self.layout,
                    buffers@[self.device_table].resource,
                    self.staging,
                    data@.len() as int,
                    self.active(),
                )
            },
    {
        let table: u64 = match buffers.get(&self.device_table) {
            Some(b) => b.resource,
            None => {
                return Err(FrameTableError::MissingDeviceTable);
            },
        };
        let row: u32 = self.active_row();
        self.write_row_payload(staging, data, row);
        transition_buffer(calls, self.staging, ResourceState::GenericRead, ResourceState::CopySource);
        transition_buffer(calls, table, ResourceState::UnorderedAccess, ResourceState::CopyDest);
        self.emit_payload_copy(calls, table, data.len(), row);
        transition_buffer(calls, table, ResourceState::CopyDest, ResourceState::UnorderedAccess);
        transition_buffer(calls, self.staging, ResourceState::CopySource, ResourceState::GenericRead);
        assert(calls@ =~= old(calls)@ + refresh_calls(
            self.layout,
            table,
            self.staging,
            data@.len() as int,
            row,
        ));
        Ok(())
    }
}

/// The command stages a frame table.
pub open spec fn stages_frame_table(cmd: GpuCommand) -> bool {
    cmd is FrameTableStaging
}

/// The graph command stages a frame table.
pub open spec fn graph_stages_frame_table(cmd: GraphCommand) -> bool {
    cmd matches GraphCommand::Compute(c) && c is FrameTableStaging
}

/// The first command that stages a frame table, as its index.
pub fn extract_staging_from_commands(commands: &Vec<GpuCommand>) -> (first: Option<usize>)
    ensures
        match first {
            Some(i) => i < commands@.len() && stages_frame_table(commands@[i as int]) && forall|j: int|
                0 <= j < i ==> !#[trigger] stages_frame_table(commands@[j]),
            None => forall|j: int|
                0 <= j < commands@.len() ==> !#[trigger] stages_frame_table(commands@[j]),
        },
{
    let mut i: usize = 0;
    while i < commands.len()
        invariant
            i <= commands.len(),
            forall|j: int| 0 <= j < i ==> !#[trigger] stages_frame_table(commands@[j]),
        decreases commands.len() - i,
    {
        match &commands[i] {
            GpuCommand::FrameTableStaging { .. } => {
                return Some(i);
            },
            _ => {},
        }
        i += 1;
    }
    None
}

/// The first graph command that stages a frame table, as its index.
pub fn extract_staging_from_graph(commands: &Vec<GraphCommand>) -> (first: Option<usize>)
    ensures
        match first {
            Some(i) => i < commands@.len() && graph_stages_frame_table(commands@[i as int])
                && forall|j: int|
                0 <= j < i ==> !#[trigger] graph_stages_frame_table(commands@[j]),
            None => forall|j: int|
                0 <= j < commands@.len() ==> !#[trigger] graph_stages_frame_table(commands@[j]),
        },
{
    let mut i: usize = 0;
    while i < commands.len()
        invariant
            i <= commands.len(),
            forall|j: int| 0 <= j < i ==> !#[trigger] graph_stages_frame_table(commands@[j]),
        decreases commands.len() - i,
    {
        match &commands[i] {
            GraphCommand::Compute(GpuCommand::FrameTableStaging { .. }) => {
                return Some(i);
            },
            _ => {},
        }
        i += 1;
    }
    None
}

} // verus!
