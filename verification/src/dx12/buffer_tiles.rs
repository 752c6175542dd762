//! Logical sizes of buffers, and the tiles of reserved buffers that follow them.

use vstd::prelude::*;

use super::buffer::{
    align_256, num_tiles_for_bytes, rewrite_root_buffer_descriptors, root_descriptors, stride_of,
    tiles_for, BufferError, BufferTable, DescriptorWrite, BUFFER_TILE_BYTES,
};
use super::buffer_lifecycle::ReservedSupport;
use super::types::{BufferState, Tile};

verus! {

broadcast use vstd::std_specs::hash::group_hash_axioms;

/// Tiles to map or unmap when a logical size changes.
#[derive(Clone, Copy, Debug, PartialEq, Eq, Structural)]
pub enum TileChange {
    Keep,
    MapTiles { first: u64, count: u64 },
    UnmapTiles { first: u64, count: u64 },
}

/// The tiles that a change of the logical size adds or frees.
pub open spec fn tile_change(old_size: u64, new_size: u64) -> TileChange {
    let old = tiles_for(old_size);
    let new = tiles_for(new_size);
    if new > old {
        TileChange::MapTiles { first: old as u64, count: (new - old) as u64 }
    } else if new < old {
        TileChange::UnmapTiles { first: new as u64, count: (old - new) as u64 }
    } else {
        TileChange::Keep
    }
}

/// Why a logical size is refused; `None` where it is not.
pub open spec fn logical_size_refused(
    buffers: Map<u64, BufferState>,
    support: Option<ReservedSupport>,
    device: u64,
    buffer: u64,
    new_size: u64,
) -> Option<BufferError> {
    if !buffers.contains_key(buffer) {
        Some(BufferError::InvalidBuffer)
    } else {
        let b = buffers[buffer];
        let stride = stride_of(b.element_stride);
        if b.device_handle != device {
            Some(BufferError::DifferentDevice)
        } else if b.is_view {
            Some(BufferError::IsView)
        } else if b.transient_placed {
            Some(BufferError::TransientPlaced)
        } else if new_size > b.allocation_size {
            Some(BufferError::ExceedsAllocation)
        } else if new_size == 0 {
            Some(BufferError::ZeroSize)
        } else if b.is_storage && stride > 0 && (new_size as u32) % stride != 0 {
            Some(BufferError::NotDivisibleByStride)
        } else if !b.is_storage && align_256(new_size as int) > b.allocation_size {
            Some(BufferError::ExceedsAllocation)
        } else if support is None {
            Some(BufferError::InvalidDevice)
        } else if b.is_reserved && !support->0.has_tile_pool {
            Some(BufferError::MissingTilePool)
        } else {
            None
        }
    }
}

/// A change of a logical size about to happen.
pub struct LogicalSizePlan {
    pub new_size: u64,
    pub tiles: TileChange,
    pub writes: Vec<DescriptorWrite>,
}

impl BufferTable {
    /// Plans a change of a buffer's logical size within its allocation: the tiles to
    /// map or unmap where it is reserved, and the descriptors to write.
    pub fn plan_logical_size(
        &self,
        support: Option<ReservedSupport>,
        device: u64,
        buffer: u64,
        new_size: u64,
    ) -> (plan: Result<LogicalSizePlan, BufferError>)
        requires
            self.wf(),
        ensures
            match logical_size_refused(self.entries@, support, device, buffer, new_size) {
                Some(e) => plan matches Err(f) && f == e,
                None => {
                    let b = self.entries@[buffer];
                    &&& plan matches Ok(p)
                    &&& p.new_size == new_size
                    &&& p.tiles == if b.is_reserved {
                        tile_change(b.size, new_size)
                    } else {
                        TileChange::Keep
                    }
                    &&& p.writes@ == root_descriptors(
                        b.resource,
                        new_size,
                        b.is_storage,
                        stride_of(b.element_stride),
                        b.bindless_offset,
                        b.bindless_srv_offset,
                    )
                },
            },
    {
        let b = match self.entries.get(&buffer) {
            Some(b) => b,
            None => {
                return Err(BufferError::InvalidBuffer);
            },
        };
        if b.device_handle != device {
            return Err(BufferError::DifferentDevice);
        }
        if b.is_view {
            return Err(BufferError::IsView);
        }
        if b.transient_placed {
            return Err(BufferError::TransientPlaced);
        }
        if new_size > b.allocation_size {
            return Err(BufferError::ExceedsAllocation);
        }
        if new_size == 0 {
            return Err(BufferError::ZeroSize);
        }
        let stride: u32 = match b.element_stride {
            Some(stride) => stride,
            None => 4,
        };
        if b.is_storage && stride > 0 && (new_size as u32) % stride != 0 {
            return Err(BufferError::NotDivisibleByStride);
        }
        if !b.is_storage {
            let aligned: u64 = (new_size + 255) / 256 * 256;
            if aligned > b.allocation_size {
                return Err(BufferError::ExceedsAllocation);
            }
        }
        let has_pool = match support {
            Some(s) => s.has_tile_pool,
            None => {
                return Err(BufferError::InvalidDevice);
            },
        };
        if b.is_reserved && !has_pool {
            return Err(BufferError::MissingTilePool);
        }
        let old_pages: u64 = num_tiles_for_bytes(b.size);
        let new_pages: u64 = num_tiles_for_bytes(new_size);
        let tiles = if !b.is_reserved {
            TileChange::Keep
        } else if new_pages > old_pages {
            TileChange::MapTiles { first: old_pages, count: new_pages - old_pages }
        } else if new_pages < old_pages {
            TileChange::UnmapTiles { first: new_pages, count: old_pages - new_pages }
        } else {
            TileChange::Keep
        };
        let writes = rewrite_root_buffer_descriptors(
            b.resource,
            new_size,
            b.is_storage,
            b.element_stride,
            b.bindless_offset,
            b.bindless_srv_offset,
        );
        Ok(LogicalSizePlan { new_size, tiles, writes })
    }
}

/// The tile table with tiles mapped from `first` on.
pub open spec fn mapped(table: Seq<Option<Tile>>, first: int, tiles: Seq<Tile>) -> Seq<Option<Tile>> {
    Seq::new(
        table.len(),
        |i: int|
            if first <= i < first + tiles.len() {
                Some(tiles[i - first])
            } else {
                table[i]
            },
    )
}

/// The tile table with the tiles from `first` to before `end` unmapped.
pub open spec fn unmapped(table: Seq<Option<Tile>>, first: int, end: int) -> Seq<Option<Tile>> {
    Seq::new(
        table.len(),
        |i: int|
            if first <= i < end {
                None
            } else {
                table[i]
            },
    )
}

/// The tiles mapped from `first` to before `end`, in order.
pub open spec fn tiles_between(table: Seq<Option<Tile>>, first: int, end: int) -> Seq<Tile>
    decreases end - first,
{
    if first >= end {
        Seq::empty()
    } else {
        let rest = tiles_between(table, first, end - 1);
        match table[end - 1] {
            Some(tile) => rest.push(tile),
            None => rest,
        }
    }
}

fn unmap_range(table: &mut Vec<Option<Tile>>, first: usize, end: usize) -> (freed: Vec<Tile>)
    requires
        first <= end <= old(table)@.len(),
    ensures
        final(table)@ == unmapped(old(table)@, first as int, end as int),
        freed@ == tiles_between(old(table)@, first as int, end as int),
{
    let ghost start = table@;
    let mut freed: Vec<Tile> = Vec::new();
    let mut i: usize = first;
    assert(table@ =~= unmapped(start, first as int, first as int));
    while i < end
        invariant
            first <= i <= end <= start.len(),
            table@ == unmapped(start, first as int, i as int),
            freed@ == tiles_between(start, first as int, i as int),
        decreases end - i,
    {
        assert(table@[i as int] == start[i as int]);
        match table[i] {
            Some(tile) => {
                freed.push(tile);
            },
            None => {},
        }
        table.set(i, None);
        assert(table@ =~= unmapped(start, first as int, i + 1));
        i += 1;
    }
    freed
}

/// Everything of a buffer but its size and its tiles.
pub open spec fn same_but_tiles(a: BufferState, b: BufferState) -> bool {
    a == (BufferState { size: a.size, reserved_tiles: a.reserved_tiles, ..b })
}

impl BufferTable {
    /// Takes over a planned logical size. `tiles` are the tiles mapped for it; the
    /// tiles that it unmaps are handed back.
    pub fn apply_logical_size(
        &mut self,
        buffer: u64,
        new_size: u64,
        change: TileChange,
        tiles: &Vec<Tile>,
    ) -> (freed: Vec<Tile>)
        requires
            old(self).wf(),
            old(self).entries@.contains_key(buffer),
            new_size <= old(self).entries@[buffer].allocation_size,
            change == (if old(self).entries@[buffer].is_reserved {
                tile_change(old(self).entries@[buffer].size, new_size)
            } else {
                TileChange::Keep
            }),
            change matches TileChange::MapTiles { first, count } ==> tiles@.len() == count,
        ensures
            final(self).wf(),
            final(self).next_handle == old(self).next_handle,
            final(self).entries@.dom() == old(self).entries@.dom(),
            forall|h: u64| #[trigger]
                old(self).entries@.contains_key(h) && h != buffer ==> final(self).entries@[h]
                    == old(self).entries@[h],
            ({
                let before = old(self).entries@[buffer];
                let after = final(self).entries@[buffer];
                let table = before.reserved_tiles@;
                &&& same_but_tiles(after, before)
                &&& after.size == new_size
                &&& match change {
                    TileChange::Keep => after.reserved_tiles@ == table && freed@ == Seq::<
                        Tile,
                    >::empty(),
                    TileChange::MapTiles { first, count } => after.reserved_tiles@ == mapped(
                        table,
                        first as int,
                        tiles@,
                    ) && freed@ == Seq::<Tile>::empty(),
                    TileChange::UnmapTiles { first, count } => after.reserved_tiles@ == unmapped(
                        table,
                        first as int,
                        first + count,
                    ) && freed@ == tiles_between(table, first as int, first + count),
                }
            }),
    {
        let ghost start = self.entries@;
        let mut freed: Vec<Tile> = Vec::new();
        match self.entries.remove(&buffer) {
            Some(mut b) => {
                let ghost before = b;
                proof {
                    lemma_tiles_monotonic(b.size, b.allocation_size);
                    lemma_tiles_monotonic(new_size, b.allocation_size);
                }
                b.size = new_size;
                let mut table: Vec<Option<Tile>> = Vec::new();
                table.append(&mut b.reserved_tiles);
                let ghost tiles0 = table@;
                assert(tiles0 =~= before.reserved_tiles@);
                let len: usize = table.len();
                match change {
                    TileChange::Keep => {},
                    TileChange::MapTiles { first, count } => {
                        let mut i: usize = 0;
                        assert(mapped(tiles0, first as int, tiles@.take(0)) =~= tiles0);
                        while i < tiles.len()
                            invariant
                                i <= tiles.len(),
                                tiles@.len() == count,
                                first + count <= len,
                                len == tiles0.len(),
                                table@ == mapped(tiles0, first as int, tiles@.take(i as int)),
                            decreases tiles.len() - i,
                        {
                            table.set(first as usize + i, Some(tiles[i]));
                            assert(table@ =~= mapped(tiles0, first as int, tiles@.take(i + 1)));
                            i += 1;
                        }
                        assert(tiles@.take(i as int) =~= tiles@);
                    },
                    TileChange::UnmapTiles { first, count } => {
                        freed = unmap_range(&mut table, first as usize, (first + count) as usize);
                    },
                }
                b.reserved_tiles = table;
                self.entries.insert(buffer, b);
            },
            None => {
                assert(false);
            },
        }
        assert(self.entries@.dom() =~= start.dom());
        freed
    }
}

proof fn lemma_tiles_monotonic(a: u64, b: u64)
    requires
        a <= b,
    ensures
        tiles_for(a) <= tiles_for(b),
{
}

/// End of the run of mapped tiles that holds `i`.
pub open spec fn run_end(table: Seq<Option<Tile>>, i: int) -> int
    decreases table.len() - i,
{
    if 0 <= i < table.len() && table[i] is Some {
        run_end(table, i + 1)
    } else {
        i
    }
}

proof fn lemma_run_end(table: Seq<Option<Tile>>, i: int, e: int)
    requires
        0 <= i <= e <= table.len(),
        forall|j: int| i <= j < e ==> #[trigger] table[j] is Some,
        e == table.len() || table[e] is None,
    ensures
        run_end(table, i) == e,
    decreases e - i,
{
    if i < e {
        lemma_run_end(table, i + 1, e);
    }
}

/// The maximal runs of mapped tiles from `i` on, each with its first tile and its
/// length.
pub open spec fn runs_from(table: Seq<Option<Tile>>, i: int) -> Seq<(int, int)>
    decreases table.len() - i,
    when 0 <= i
    via runs_decrease
{
    if i >= table.len() {
        Seq::empty()
    } else if table[i] is None {
        runs_from(table, i + 1)
    } else {
        seq![(i, run_end(table, i) - i)] + runs_from(table, run_end(table, i))
    }
}

#[via_fn]
proof fn runs_decrease(table: Seq<Option<Tile>>, i: int) {
    if i < table.len() && table[i] is Some {
        lemma_run_end_moves(table, i);
    }
}

proof fn lemma_run_end_moves(table: Seq<Option<Tile>>, i: int)
    requires
        0 <= i <= table.len(),
    ensures
        i <= run_end(table, i) <= table.len(),
        i < table.len() && table[i] is Some ==> i < run_end(table, i),
        forall|j: int| i <= j < run_end(table, i) ==> #[trigger] table[j] is Some,
        run_end(table, i) < table.len() ==> table[run_end(table, i)] is None,
    decreases table.len() - i,
{
    if i < table.len() && table[i] is Some {
        lemma_run_end_moves(table, i + 1);
    }
}

/// Runs of tiles to unmap, and the tiles that go back.
pub struct UnusedTiles {
    pub runs: Vec<(u32, u32)>,
    pub freed: Vec<Tile>,
}

/// First tile that lies wholly at or above a byte offset.
pub open spec fn first_unused_tile(offset: u64) -> int {
    (if offset + (BUFFER_TILE_BYTES - 1) > u64::MAX {
        u64::MAX as int
    } else {
        offset + (BUFFER_TILE_BYTES - 1)
    }) / (BUFFER_TILE_BYTES as int)
}

/// The runs as they are handed to the tile mapping.
pub open spec fn as_words(runs: Seq<(int, int)>) -> Seq<(u32, u32)> {
    runs.map_values(|r: (int, int)| (r.0 as u32, r.1 as u32))
}

impl BufferTable {
    /// Frees the tiles of a reserved buffer at and above a byte offset, run by run.
    /// Nothing happens for another kind of buffer, or where the device has no tile
    /// pool.
    pub fn hint_unused_above(&mut self, buffer: u64, has_tile_pool: bool, offset: u64) -> (unused:
        UnusedTiles)
        requires
            old(self).wf(),
        ensures
            final(self).wf(),
            final(self).next_handle == old(self).next_handle,
            final(self).entries@.dom() == old(self).entries@.dom(),
            forall|h: u64| #[trigger]
                old(self).entries@.contains_key(h) && h != buffer ==> final(self).entries@[h]
                    == old(self).entries@[h],
            ({
                let before = old(self).entries@[buffer];
                let after = final(self).entries@[buffer];
                let table = before.reserved_tiles@;
                let first = first_unused_tile(offset);
                if old(self).entries@.contains_key(buffer) && before.is_reserved && has_tile_pool
                    && first < table.len() {
                    &&& same_but_tiles(after, before)
                    &&& after.size == before.size
                    &&& after.reserved_tiles@ == unmapped(table, first, table.len() as int)
                    &&& unused.freed@ == tiles_between(table, first, table.len() as int)
                    &&& unused.runs@ == as_words(runs_from(table, first))
                } else {
                    &&& final(self).entries@ == old(self).entries@
                    &&& unused.freed@ == Seq::<Tile>::empty()
                    &&& unused.runs@ == Seq::<(u32, u32)>::empty()
                }
            }),
    {
        let ghost start = self.entries@;
        let mut runs: Vec<(u32, u32)> = Vec::new();
        let mut freed: Vec<Tile> = Vec::new();
        let tile: u64 = BUFFER_TILE_BYTES as u64;
        let first: u64 = offset.saturating_add(tile - 1) / tile;
        let applies = match self.entries.get(&buffer) {
            Some(b) => b.is_reserved && first < b.reserved_tiles.len() as u64,
            None => false,
        };
        if !applies || !has_tile_pool {
            return UnusedTiles { runs, freed };
        }
        match self.entries.remove(&buffer) {
            Some(mut b) => {
                let ghost before = b;
                let mut table: Vec<Option<Tile>> = Vec::new();
                table.append(&mut b.reserved_tiles);
                let ghost tiles = table@;
                assert(tiles =~= before.reserved_tiles@);
                runs = collect_runs(&table, first as usize);
                let len: usize = table.len();
                freed = unmap_range(&mut table, first as usize, len);
                b.reserved_tiles = table;
                self.entries.insert(buffer, b);
            },
            None => {
                assert(false);
            },
        }
        assert(self.entries@.dom() =~= start.dom());
        UnusedTiles { runs, freed }
    }
}

fn collect_runs(table: &Vec<Option<Tile>>, first: usize) -> (runs: Vec<(u32, u32)>)
    requires
        first <= table@.len(),
    ensures
        runs@ == as_words(runs_from(table@, first as int)),
{
    let mut runs: Vec<(u32, u32)> = Vec::new();
    let mut i: usize = first;
    while i < table.len()
        invariant
            first <= i <= table@.len(),
            runs@ + as_words(runs_from(table@, i as int)) == as_words(
                runs_from(table@, first as int),
            ),
        decreases table@.len() - i,
    {
        let mapped = match table[i] {
            Some(_) => true,
            None => false,
        };
        if !mapped {
            i += 1;
        } else {
            let start: usize = i;
            while i < table.len() && table[i].is_some()
                invariant
                    start <= i <= table@.len(),
                    forall|j: int| start <= j < i ==> #[trigger] table@[j] is Some,
                decreases table@.len() - i,
            {
                i += 1;
            }
            proof {
                lemma_run_end(table@, start as int, i as int);
            }
            let ghost before = runs@;
            runs.push((start as u32, (i - start) as u32));
            assert(as_words(runs_from(table@, start as int)) =~= seq![
                (start as u32, (i - start) as u32),
            ] + as_words(runs_from(table@, i as int)));
            assert(runs@ + as_words(runs_from(table@, i as int)) =~= before + as_words(
                runs_from(table@, start as int),
            ));
        }
    }
    assert(runs@ + as_words(runs_from(table@, i as int)) =~= runs@);
    runs
}

} // verus!
