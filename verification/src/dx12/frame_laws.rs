//! How the words of a submission reach the device.

use vstd::bytes::spec_u32_to_le_bytes;
use vstd::prelude::*;

use super::barriers::{
    ACCESS_COPY_DEST, ACCESS_COPY_SOURCE, ACCESS_UNORDERED_ACCESS, SYNC_COMPUTE_SHADING, SYNC_COPY,
};
use super::command_list::Call;
use super::frame_table::{prologue_calls, refresh_calls, staged, FrameTableLayout};
use super::frame_table_init::{offsets_of, staging_buffer_bytes, table_buffer_bytes};
use super::list_laws::{lets_follow, opened_for, orders};
use super::memory::{apply, overwrite, run_calls, run_calls_in_a_row, Memory};
use super::record_laws::prologue_delivers_the_row;
use super::types::BufferState;

verus! {

broadcast use vstd::std_specs::hash::group_hash_axioms;

/// Four bytes of memory spell a word, lowest byte first.
pub open spec fn spells(bytes: Seq<u8>, word_index: int, word: u32) -> bool {
    bytes.subrange(4 * word_index, 4 * word_index + 4) == spec_u32_to_le_bytes(word)
}

/// The memory spells words.
pub open spec fn spells_all(bytes: Seq<u8>, words: Seq<u32>) -> bool {
    &&& bytes.len() == 4 * words.len()
    &&& forall|w: int| 0 <= w < words.len() ==> spells(bytes, w, #[trigger] words[w])
}

/// A staged row holds the words of the submission from its first on, as many as fit, and
/// its selector holds the number of the row; every other word is as before. No two rows
/// share a word, and no row shares one with a selector.
pub proof fn staged_row_holds_the_words(
    layout: FrameTableLayout,
    staging: Seq<u32>,
    data: Seq<u32>,
    row: u32,
    j: int,
    other: int,
)
    requires
        layout.wf(),
        row < layout.max_rows,
        staging.len() == layout.staging_selector_u32s + layout.max_rows * layout.row_stride,
    ensures
        ({
            let after = staged(layout, staging, data, row);
            let first = layout.staging_selector_u32s + row * layout.row_stride;
            &&& after.len() == staging.len()
            &&& after[row as int] == row
            &&& 0 <= j < data.len() && j < layout.row_stride ==> after[first + j] == data[j]
            &&& 0 <= other < staging.len() && other != row && !(first <= other < first
                + layout.row_stride) ==> after[other] == staging[other]
            &&& row < first
            &&& first + layout.row_stride <= staging.len()
        }),
{
    layout.row_fits(row);
}

/// The words of a submission that opens with a row reach that row of the table on the
/// device, word for word, and the selector there names the row. No other word of the table
/// changes.
pub proof fn submitted_words_reach_the_device(
    layout: FrameTableLayout,
    device_table: u64,
    selector: u64,
    staging: u64,
    before: Seq<u32>,
    data: Seq<u32>,
    row: u32,
    memory: Memory,
    j: int,
    k: int,
)
    requires
        layout.wf(),
        row < layout.max_rows,
        device_table != selector,
        device_table != staging,
        selector != staging,
        before.len() == layout.staging_selector_u32s + layout.max_rows * layout.row_stride,
        spells_all(memory[staging], staged(layout, before, data, row)),
        memory[device_table].len() >= 4 * layout.table_u32s,
        memory[selector].len() >= 4,
        0 <= j < data.len(),
        j < layout.row_stride,
        0 <= k < memory[device_table].len(),
        k < 4 * row * layout.row_stride || k >= 4 * row * layout.row_stride + 4 * layout.row_stride,
    ensures
        ({
            let after = run_calls(
                memory,
                prologue_calls(
                    layout,
                    device_table,
                    selector,
                    staging,
                    data.len() as int,
                    row,
                ),
            );
            &&& spells(after[device_table], row * layout.row_stride + j, data[j])
            &&& spells(after[selector], 0, row)
            &&& after[device_table][k] == memory[device_table][k]
        }),
{
    layout.row_fits(row);
    prologue_delivers_the_row(
        layout,
        device_table,
        selector,
        staging,
        data.len() as int,
        row,
        memory,
    );
    let words = staged(layout, before, data, row);
    let first = layout.row_word(row);
    staged_row_holds_the_words(layout, before, data, row, j, 0);
    assert(4 * row * layout.row_stride == 4 * (row * layout.row_stride)) by (nonlinear_arith);
    assert(words[first + j] == data[j]);
    let at = row * layout.row_stride;
    let from = memory[staging].subrange(4 * first, 4 * first + 4 * layout.fitting(data.len() as int));
    let table = overwrite(memory[device_table], 4 * at, from);
    assert(table.subrange(4 * (at + j), 4 * (at + j) + 4) =~= memory[staging].subrange(
        4 * (first + j),
        4 * (first + j) + 4,
    ));
    assert(words[row as int] == row);
    let chosen = overwrite(
        memory[selector],
        0,
        memory[staging].subrange(4 * row, 4 * row + 4),
    );
    assert(chosen.subrange(0, 4) =~= memory[staging].subrange(4 * row, 4 * row + 4));
    assert(spells(memory[staging], row as int, words[row as int]));
}

/// The copies of a submission's opening are made while the staging memory is open for being
/// copied from and the table and the selector for being copied to; shaders can use both
/// afterwards.
pub proof fn opening_copies_are_ordered(
    layout: FrameTableLayout,
    device_table: u64,
    selector: u64,
    staging: u64,
    words: int,
    row: u32,
)
    requires
        device_table != selector,
        device_table != staging,
        selector != staging,
    ensures
        ({
            let calls = prologue_calls(layout, device_table, selector, staging, words, row);
            &&& exists|n: int|
                {
                    &&& 0 <= n < calls.len()
                    &&& #[trigger] calls[n] matches Call::CopyBufferRegion { dst, src, .. } && dst
                        == device_table && src == staging
                    &&& opened_for(calls, n, device_table, SYNC_COPY, ACCESS_COPY_DEST)
                    &&& opened_for(calls, n, staging, SYNC_COPY, ACCESS_COPY_SOURCE)
                }
            &&& exists|n: int|
                {
                    &&& 0 <= n < calls.len()
                    &&& #[trigger] calls[n] matches Call::CopyBufferRegion { dst, src, .. } && dst
                        == selector && src == staging
                    &&& opened_for(calls, n, selector, SYNC_COPY, ACCESS_COPY_DEST)
                    &&& opened_for(calls, n, staging, SYNC_COPY, ACCESS_COPY_SOURCE)
                }
            &&& opened_for(
                calls,
                calls.len() as int,
                device_table,
                SYNC_COMPUTE_SHADING,
                ACCESS_UNORDERED_ACCESS,
            )
            &&& opened_for(
                calls,
                calls.len() as int,
                selector,
                SYNC_COMPUTE_SHADING,
                ACCESS_UNORDERED_ACCESS,
            )
        }),
{
    let calls = prologue_calls(layout, device_table, selector, staging, words, row);
    assert(calls.len() == 14);
    assert(orders(calls[0], staging) && lets_follow(calls[0], SYNC_COPY, ACCESS_COPY_SOURCE));
    assert(calls[1] is IssueBarriers && calls[3] is IssueBarriers && calls[5] is IssueBarriers);
    assert(orders(calls[2], device_table) && lets_follow(calls[2], SYNC_COPY, ACCESS_COPY_DEST));
    assert(orders(calls[4], selector) && lets_follow(calls[4], SYNC_COPY, ACCESS_COPY_DEST));
    assert(calls[6] is CopyBufferRegion && calls[7] is CopyBufferRegion);
    assert(orders(calls[8], device_table) && lets_follow(
        calls[8],
        SYNC_COMPUTE_SHADING,
        ACCESS_UNORDERED_ACCESS,
    ));
    assert(orders(calls[10], selector) && lets_follow(
        calls[10],
        SYNC_COMPUTE_SHADING,
        ACCESS_UNORDERED_ACCESS,
    ));
    assert(orders(calls[12], staging) && !orders(calls[12], selector) && !orders(
        calls[12],
        device_table,
    ));
    assert(!orders(calls[10], device_table) && !orders(calls[8], staging));
    assert(calls[9] is IssueBarriers && calls[11] is IssueBarriers && calls[13] is IssueBarriers);
    assert(!orders(calls[2], staging) && !orders(calls[4], staging) && !orders(
        calls[4],
        device_table,
    ));
}

/// Refreshing the active row brings its words to the row of the table on the device, word
/// for word, and changes no other word of the table nor any other memory.
pub proof fn refreshed_words_reach_the_device(
    layout: FrameTableLayout,
    device_table: u64,
    staging: u64,
    before: Seq<u32>,
    data: Seq<u32>,
    row: u32,
    memory: Memory,
    j: int,
    k: int,
    other: u64,
)
    requires
        layout.wf(),
        row < layout.max_rows,
        device_table != staging,
        other != device_table,
        before.len() == layout.staging_selector_u32s + layout.max_rows * layout.row_stride,
        spells_all(memory[staging], staged(layout, before, data, row)),
        memory[device_table].len() >= 4 * layout.table_u32s,
        0 <= j < data.len(),
        j < layout.row_stride,
        0 <= k < memory[device_table].len(),
        k < 4 * row * layout.row_stride || k >= 4 * row * layout.row_stride + 4 * layout.row_stride,
    ensures
        ({
            let after = run_calls(
                memory,
                refresh_calls(layout, device_table, staging, data.len() as int, row),
            );
            &&& spells(after[device_table], row * layout.row_stride + j, data[j])
            &&& after[device_table][k] == memory[device_table][k]
            &&& after[other] == memory[other]
        }),
{
    layout.row_fits(row);
    assert(4 * row * layout.row_stride == 4 * (row * layout.row_stride)) by (nonlinear_arith);
    let calls = refresh_calls(layout, device_table, staging, data.len() as int, row);
    let copy = super::frame_table::payload_copy(
        layout,
        device_table,
        staging,
        data.len() as int,
        row,
    );
    assert(calls.len() == 9);
    let a = calls.take(4);
    let c = calls.skip(5);
    assert(calls =~= a + seq![copy] + c);
    lemma_only_barriers(memory, a);
    run_calls_in_a_row(memory, a, seq![copy]);
    assert(run_calls(memory, seq![copy]) == apply(memory, copy)) by {
        reveal_with_fuel(run_calls, 2);
        assert(seq![copy].drop_last() =~= Seq::<Call>::empty());
    }
    run_calls_in_a_row(memory, a + seq![copy], c);
    lemma_only_barriers(apply(memory, copy), c);
    let words = staged(layout, before, data, row);
    let first = layout.row_word(row);
    staged_row_holds_the_words(layout, before, data, row, j, 0);
    assert(words[first + j] == data[j]);
    let at = row * layout.row_stride;
    let from = memory[staging].subrange(4 * first, 4 * first + 4 * layout.fitting(data.len() as int));
    let table = overwrite(memory[device_table], 4 * at, from);
    assert(table.subrange(4 * (at + j), 4 * (at + j) + 4) =~= memory[staging].subrange(
        4 * (first + j),
        4 * (first + j) + 4,
    ));
}

proof fn lemma_only_barriers(memory: Memory, calls: Seq<Call>)
    requires
        forall|i: int|
            0 <= i < calls.len() ==> #[trigger] calls[i] is QueueBarrier || calls[i]
                is IssueBarriers,
    ensures
        run_calls(memory, calls) == memory,
    decreases calls.len(),
{
    if calls.len() > 0 {
        let rest = calls.drop_last();
        assert forall|i: int| 0 <= i < rest.len() implies #[trigger] rest[i] is QueueBarrier
            || rest[i] is IssueBarriers by {
            assert(rest[i] == calls[i]);
        }
        lemma_only_barriers(memory, rest);
        assert(calls.last() == calls[calls.len() - 1]);
    }
}

/// The buffers behind a table hold every word of it, and are never smaller than 256 bytes.
pub proof fn table_buffers_hold_their_words(num_u32s: u32, staging_bytes: u64)
    ensures
        table_buffer_bytes(num_u32s) >= 4 * num_u32s,
        table_buffer_bytes(num_u32s) >= 256,
        table_buffer_bytes(num_u32s) == 256 || table_buffer_bytes(num_u32s) == 4 * num_u32s,
        staging_buffer_bytes(staging_bytes) >= staging_bytes,
        staging_buffer_bytes(staging_bytes) >= 256,
        staging_buffer_bytes(staging_bytes) == 256 || staging_buffer_bytes(staging_bytes)
            == staging_bytes,
{
}

/// The bindless indices of buffers are those of each buffer, in order; they are refused for
/// the first buffer that is not known or has none.
pub proof fn bound_indices_are_those_of_the_buffers(
    buffers: Map<u64, BufferState>,
    handles: Seq<u64>,
    i: int,
)
    requires
        0 <= i < handles.len(),
    ensures
        offsets_of(buffers, handles) is Ok <==> forall|k: int|
            0 <= k < handles.len() ==> buffers.contains_key(#[trigger] handles[k])
                && buffers[handles[k]].bindless_offset is Some,
        offsets_of(buffers, handles) matches Ok(indices) ==> indices.len() == handles.len()
            && buffers[handles[i]].bindless_offset == Some(indices[i]),
        (!buffers.contains_key(handles[i]) || buffers[handles[i]].bindless_offset is None) && (
        forall|k: int|
            0 <= k < i ==> buffers.contains_key(#[trigger] handles[k])
                && buffers[handles[k]].bindless_offset is Some) ==> offsets_of(buffers, handles)
            is Err && offsets_of(buffers, handles)->Err_0.buffer == handles[i],
    decreases handles.len(),
{
    let rest = handles.drop_last();
    let n = handles.len() - 1;
    assert(forall|k: int| 0 <= k < n ==> #[trigger] rest[k] == handles[k]);
    if rest.len() > 0 {
        bound_indices_are_those_of_the_buffers(buffers, rest, if i < n {
            i
        } else {
            0
        });
    }
    if forall|k: int|
        0 <= k < handles.len() ==> buffers.contains_key(#[trigger] handles[k])
            && buffers[handles[k]].bindless_offset is Some {
        assert forall|k: int| 0 <= k < rest.len() implies buffers.contains_key(#[trigger] rest[k])
            && buffers[rest[k]].bindless_offset is Some by {
            assert(rest[k] == handles[k]);
        }
        assert(buffers.contains_key(handles[n]));
    }
    if offsets_of(buffers, handles) is Ok {
        assert forall|k: int|
            0 <= k < handles.len() implies buffers.contains_key(#[trigger] handles[k])
            && buffers[handles[k]].bindless_offset is Some by {
            if k < n {
                assert(rest[k] == handles[k]);
            }
        }
    }
    if i == n && forall|k: int|
        0 <= k < i ==> buffers.contains_key(#[trigger] handles[k])
            && buffers[handles[k]].bindless_offset is Some {
        assert forall|k: int| 0 <= k < rest.len() implies buffers.contains_key(#[trigger] rest[k])
            && buffers[rest[k]].bindless_offset is Some by {
            assert(rest[k] == handles[k]);
        }
    }
}

} // verus!
