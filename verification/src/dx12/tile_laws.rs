//! Which tiles of a reserved buffer are mapped, and which sizes buffers can take.

use vstd::prelude::*;

use super::buffer::{tiles_for, BufferError, BUFFER_TILE_BYTES};
use super::buffer_lifecycle::ReservedSupport;
use super::buffer_resize::{kept_bytes, resize_plan, resize_refused};
use super::buffer_tiles::{
    as_words, first_unused_tile, logical_size_refused, mapped, run_end, runs_from, tile_change,
    tiles_between, unmapped, TileChange,
};
use super::types::{BufferState, Tile};

verus! {

broadcast use vstd::std_specs::hash::group_hash_axioms;

/// Exactly the tiles that hold some of the first `size` bytes are mapped.
pub open spec fn holds_exactly(table: Seq<Option<Tile>>, size: int) -> bool {
    forall|i: int|
        0 <= i < table.len() ==> (#[trigger] table[i] is Some <==> i * BUFFER_TILE_BYTES < size)
}

/// What a change of tiles makes of a tile table.
pub open spec fn changed(table: Seq<Option<Tile>>, change: TileChange, tiles: Seq<Tile>) -> Seq<
    Option<Tile>,
> {
    match change {
        TileChange::Keep => table,
        TileChange::MapTiles { first, count } => mapped(table, first as int, tiles),
        TileChange::UnmapTiles { first, count } => unmapped(table, first as int, first + count),
    }
}

/// A buffer whose mapped tiles are exactly those of its size has, after its size has
/// changed, exactly those of its new size mapped. Tiles that it needed before and still
/// needs stay the same.
pub proof fn resizing_maps_exactly_the_tiles_needed(
    table: Seq<Option<Tile>>,
    tiles: Seq<Tile>,
    old_size: u64,
    new_size: u64,
    i: int,
)
    requires
        holds_exactly(table, old_size as int),
        tile_change(old_size, new_size) matches TileChange::MapTiles { first, count }
            ==> tiles.len() == count,
        0 <= i < table.len(),
    ensures
        ({
            let after = changed(table, tile_change(old_size, new_size), tiles);
            &&& after.len() == table.len()
            &&& after[i] is Some <==> i * BUFFER_TILE_BYTES < new_size
            &&& i * BUFFER_TILE_BYTES < old_size && i * BUFFER_TILE_BYTES < new_size ==> after[i]
                == table[i]
        }),
{
}

/// The tiles that go back when a size shrinks are those between, and no others.
pub proof fn freed_tiles_are_those_between(
    table: Seq<Option<Tile>>,
    first: int,
    end: int,
    i: int,
)
    requires
        0 <= first <= i < end <= table.len(),
    ensures
        table[i] matches Some(tile) ==> tiles_between(table, first, end).contains(tile),
    decreases end - first,
{
    let freed = tiles_between(table, first, end);
    let rest = tiles_between(table, first, end - 1);
    if i < end - 1 {
        freed_tiles_are_those_between(table, first, end - 1, i);
        if table[i] is Some {
            let k = choose|k: int| 0 <= k < rest.len() && rest[k] == table[i]->0;
            assert(freed[k] == table[i]->0);
        }
    } else if table[i] is Some {
        assert(freed[freed.len() - 1] == table[i]->0);
    }
}

/// Every tile that goes back was mapped in the range.
pub proof fn freed_tiles_were_mapped(table: Seq<Option<Tile>>, first: int, end: int, k: int) -> (i:
    int)
    requires
        0 <= first <= end <= table.len(),
        0 <= k < tiles_between(table, first, end).len(),
    ensures
        first <= i < end,
        table[i] == Some(tiles_between(table, first, end)[k]),
    decreases end - first,
{
    let rest = tiles_between(table, first, end - 1);
    if k < rest.len() {
        freed_tiles_were_mapped(table, first, end - 1, k)
    } else {
        end - 1
    }
}

/// A tile lies in one of the runs.
pub open spec fn in_a_run(runs: Seq<(int, int)>, i: int) -> bool {
    exists|r: int|
        0 <= r < runs.len() && (#[trigger] runs[r]).0 <= i < runs[r].0 + runs[r].1
}

proof fn lemma_run_end(table: Seq<Option<Tile>>, i: int)
    requires
        0 <= i <= table.len(),
    ensures
        i <= run_end(table, i) <= table.len(),
        i < table.len() && table[i] is Some ==> i < run_end(table, i),
        forall|j: int| i <= j < run_end(table, i) ==> #[trigger] table[j] is Some,
    decreases table.len() - i,
{
    if i < table.len() && table[i] is Some {
        lemma_run_end(table, i + 1);
    }
}

proof fn lemma_runs_start(table: Seq<Option<Tile>>, from: int)
    requires
        0 <= from <= table.len(),
    ensures
        forall|r: int|
            0 <= r < runs_from(table, from).len() ==> from <= (#[trigger] runs_from(
                table,
                from,
            )[r]).0 && 0 < runs_from(table, from)[r].1 && runs_from(table, from)[r].0
                + runs_from(table, from)[r].1 <= table.len(),
    decreases table.len() - from,
{
    if from < table.len() {
        if table[from] is None {
            lemma_runs_start(table, from + 1);
            assert(runs_from(table, from) == runs_from(table, from + 1));
        } else {
            let end = run_end(table, from);
            let runs = runs_from(table, from);
            let rest = runs_from(table, end);
            lemma_run_end(table, from);
            lemma_runs_start(table, end);
            assert(runs =~= seq![(from, end - from)] + rest);
            assert forall|r: int| 0 <= r < runs.len() implies from <= (#[trigger] runs[r]).0 && 0
                < runs[r].1 && runs[r].0 + runs[r].1 <= table.len() by {
                if r > 0 {
                    assert(runs[r] == rest[r - 1]);
                }
            }
        }
    }
}

/// The runs that are unmapped hold exactly the mapped tiles from a tile on.
pub proof fn runs_hold_exactly_the_mapped_tiles(table: Seq<Option<Tile>>, from: int, i: int)
    requires
        0 <= from <= table.len(),
    ensures
        in_a_run(runs_from(table, from), i) <==> from <= i < table.len() && table[i] is Some,
    decreases table.len() - from,
{
    let runs = runs_from(table, from);
    if from < table.len() {
        if table[from] is None {
            runs_hold_exactly_the_mapped_tiles(table, from + 1, i);
        } else {
            let end = run_end(table, from);
            lemma_run_end(table, from);
            let rest = runs_from(table, end);
            runs_hold_exactly_the_mapped_tiles(table, end, i);
            lemma_runs_start(table, end);
            assert(runs =~= seq![(from, end - from)] + rest);
            assert(runs[0] == (from, end - from));
            if in_a_run(rest, i) {
                let r = choose|r: int|
                    0 <= r < rest.len() && (#[trigger] rest[r]).0 <= i < rest[r].0 + rest[r].1;
                assert(runs[r + 1] == rest[r]);
            }
            if in_a_run(runs, i) {
                let r = choose|r: int|
                    0 <= r < runs.len() && (#[trigger] runs[r]).0 <= i < runs[r].0 + runs[r].1;
                if r > 0 {
                    assert(runs[r] == rest[r - 1]);
                }
            }
        }
    }
}

/// The runs are told in words as they are, where the table has no more tiles than a word
/// can count.
pub proof fn runs_are_told_as_they_are(table: Seq<Option<Tile>>, from: int, r: int)
    requires
        0 <= from <= table.len() <= u32::MAX,
        0 <= r < runs_from(table, from).len(),
    ensures
        as_words(runs_from(table, from)).len() == runs_from(table, from).len(),
        as_words(runs_from(table, from))[r].0 == runs_from(table, from)[r].0,
        as_words(runs_from(table, from))[r].1 == runs_from(table, from)[r].1,
{
    lemma_runs_start(table, from);
}

/// The first tile that is given up is the first that holds no byte before the offset.
pub proof fn first_unused_tile_holds_nothing_before(offset: u64)
    requires
        offset <= u64::MAX - BUFFER_TILE_BYTES,
    ensures
        first_unused_tile(offset) * BUFFER_TILE_BYTES >= offset,
        (first_unused_tile(offset) - 1) * BUFFER_TILE_BYTES < offset,
{
}

/// As many tiles are mapped for a size as hold its bytes: one fewer would not.
pub proof fn tiles_hold_their_bytes(bytes: u64)
    ensures
        tiles_for(bytes) * BUFFER_TILE_BYTES >= bytes,
        (tiles_for(bytes) - 1) * BUFFER_TILE_BYTES < bytes,
{
}

/// A whole number of elements, of a storage buffer: of four bytes each where nothing else
/// is told.
pub open spec fn whole_elements(b: BufferState, size: u64) -> bool {
    let stride = match b.element_stride {
        Some(stride) => stride as int,
        None => 4,
    };
    b.is_storage && stride > 0 ==> size as int % stride == 0
}

/// A logical size is taken exactly where the buffer is the device's own, is no view and is
/// not placed; the size is not zero and lies within the allocation, of a uniform buffer up
/// to a whole number of 256 bytes; it is a whole number of elements; and a reserved buffer
/// has a pool to take tiles from.
pub proof fn logical_size_is_taken_where_it_fits(
    buffers: Map<u64, BufferState>,
    support: Option<ReservedSupport>,
    device: u64,
    buffer: u64,
    new_size: u64,
)
    requires
        new_size <= u32::MAX,
    ensures
        logical_size_refused(buffers, support, device, buffer, new_size) is None <==> {
            let b = buffers[buffer];
            &&& buffers.contains_key(buffer)
            &&& b.device_handle == device
            &&& !b.is_view
            &&& !b.transient_placed
            &&& 0 < new_size <= b.allocation_size
            &&& whole_elements(b, new_size)
            &&& !b.is_storage ==> (new_size % 256 == 0 || new_size - new_size % 256 + 256
                <= b.allocation_size)
            &&& support is Some
            &&& b.is_reserved ==> support->0.has_tile_pool
        },
        logical_size_refused(buffers, support, device, buffer, new_size) matches Some(e) ==> {
            let b = buffers[buffer];
            match e {
                BufferError::InvalidBuffer => !buffers.contains_key(buffer),
                BufferError::DifferentDevice => b.device_handle != device,
                BufferError::IsView => b.is_view,
                BufferError::TransientPlaced => b.transient_placed,
                BufferError::ExceedsAllocation => new_size > b.allocation_size || !b.is_storage
                    && new_size - new_size % 256 + 256 > b.allocation_size,
                BufferError::ZeroSize => new_size == 0,
                BufferError::NotDivisibleByStride => !whole_elements(b, new_size),
                BufferError::InvalidDevice => support is None,
                BufferError::MissingTilePool => b.is_reserved && !support->0.has_tile_pool,
                _ => false,
            }
        },
{
    assert(new_size <= u32::MAX ==> new_size as u32 == new_size) by (bit_vector);
}

/// A resize is taken exactly where the buffer is the device's own, is no view and is not
/// placed, and either keeps its size or takes one that is a whole number of elements and,
/// if the buffer is reserved, lies beyond what it reserves.
pub proof fn resize_is_taken_where_it_fits(
    buffers: Map<u64, BufferState>,
    device_known: bool,
    device: u64,
    buffer: u64,
    new_size: u64,
)
    requires
        new_size <= u32::MAX,
        buffers[buffer].flags.cpu_readable ==> buffers[buffer].is_storage,
    ensures
        resize_refused(buffers, device_known, device, buffer, new_size) is None <==> {
            let b = buffers[buffer];
            &&& buffers.contains_key(buffer)
            &&& b.device_handle == device
            &&& !b.is_view
            &&& !b.transient_placed
            &&& new_size == b.size || {
                &&& b.is_reserved ==> new_size > b.allocation_size
                &&& whole_elements(b, new_size)
                &&& device_known
            }
        },
{
    let stride = match buffers[buffer].element_stride {
        Some(stride) => stride as int,
        None => 4,
    };
    assert(stride > 0 ==> 0int % stride == 0) by (nonlinear_arith);
    assert(new_size <= u32::MAX ==> new_size as u32 == new_size) by (bit_vector);
}

/// The new resource of a resized buffer holds its new size: exactly, of a storage buffer,
/// and up to a whole number of 256 bytes, of a uniform one. A buffer that is read back gets
/// a resource of the same width for that.
pub proof fn resized_resource_holds_the_new_size(b: BufferState, new_size: u64)
    requires
        new_size <= u64::MAX - 255,
    ensures
        ({
            let plan = resize_plan(b, new_size);
            &&& plan.new_size == new_size
            &&& plan.allocation_size == plan.resources.main.width
            &&& b.is_storage ==> plan.resources.main.width == new_size
                && plan.resources.main.allow_unordered_access && plan.resources.main.heap is Default
            &&& !b.is_storage ==> new_size <= plan.resources.main.width < new_size + 256
                && plan.resources.main.width % 256 == 0 && plan.resources.main.heap is Upload
            &&& plan.resources.readback is Some <==> b.flags.cpu_readable
            &&& plan.resources.readback matches Some(r) ==> r.width == plan.resources.main.width
                && r.heap is Readback && !r.allow_unordered_access
            &&& plan.unmap_readback == if b.coherent_readback_mapped {
                b.coherent_readback
            } else {
                None
            }
        }),
{
}

/// A resize that keeps the contents keeps all of them that fit.
pub proof fn resize_keeps_all_that_fits(old_size: u64, new_size: u64, preserve: bool)
    ensures
        kept_bytes(old_size, new_size, preserve) <= old_size,
        kept_bytes(old_size, new_size, preserve) <= new_size,
        preserve ==> kept_bytes(old_size, new_size, preserve) == old_size || kept_bytes(
            old_size,
            new_size,
            preserve,
        ) == new_size,
        !preserve ==> kept_bytes(old_size, new_size, preserve) == 0,
{
}

} // verus!
