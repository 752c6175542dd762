//! Which images of a swapchain come back, and when.

use vstd::prelude::*;

use super::backend::{
    access_of, all_returned, first_token, less, polled, returned_images, still_out,
    BindlessSlotKind, ResourceAccess, SurfaceState, SwapchainReturn,
};

verus! {

broadcast use vstd::std_specs::hash::group_hash_axioms;

/// An image comes back exactly once its fence value has been reached, in the order in which
/// it was presented; one whose value has not been reached stays out, in that order too.
pub proof fn image_comes_back_at_its_value(pending: Seq<SwapchainReturn>, progress: u64, i: int)
    requires
        0 <= i < pending.len(),
    ensures
        ({
            let back = returned_images(pending, progress);
            let out = still_out(pending, progress);
            let b = returned_images(pending.take(i), progress).len() as int;
            let o = still_out(pending.take(i), progress).len() as int;
            &&& b + o == i
            &&& if pending[i].return_fence <= progress {
                b < back.len() && back[b] == pending[i].image_index
            } else {
                o < out.len() && out[o] == pending[i]
            }
            &&& back.len() + out.len() == pending.len()
        }),
    decreases pending.len(),
{
    let rest = pending.drop_last();
    if i < rest.len() {
        image_comes_back_at_its_value(rest, progress, i);
        assert(rest.take(i) =~= pending.take(i));
        assert(rest[i] == pending[i]);
    } else {
        assert(pending.take(i) =~= rest);
        if rest.len() > 0 {
            image_comes_back_at_its_value(rest, progress, 0);
        } else {
            assert(returned_images(rest, progress) =~= Seq::<u32>::empty());
            assert(still_out(rest, progress) =~= Seq::<SwapchainReturn>::empty());
        }
    }
}

/// Images that come back are taken off the count of those that are out, as far as it goes.
pub proof fn returned_images_are_taken_off(count: u32, taken: nat)
    ensures
        taken <= count ==> less(count, taken) + taken == count,
        taken > count ==> less(count, taken) == 0,
{
}

proof fn lemma_all_returned(
    surfaces: Map<u64, SurfaceState>,
    order: Seq<u64>,
    progress: u64,
    i: int,
    image: u32,
)
    requires
        0 <= i < order.len(),
        returned_images(surfaces[order[i]].pending_swapchain_returns@, progress).contains(image),
    ensures
        all_returned(surfaces, order, progress).contains(image),
    decreases order.len(),
{
    let rest = all_returned(surfaces, order.drop_last(), progress);
    let own = returned_images(surfaces[order.last()].pending_swapchain_returns@, progress);
    let all = all_returned(surfaces, order, progress);
    if i < order.len() - 1 {
        assert(order.drop_last()[i] == order[i]);
        lemma_all_returned(surfaces, order.drop_last(), progress, i, image);
        let k = choose|k: int| 0 <= k < rest.len() && rest[k] == image;
        assert(all[k] == image);
    } else {
        let k = choose|k: int| 0 <= k < own.len() && own[k] == image;
        assert(all[rest.len() + k] == image);
    }
}

/// A poll for a device finds every image of its surfaces whose value has been reached, and
/// leaves the surfaces of other devices alone.
pub proof fn poll_finds_every_image_that_came_back(
    before: Map<u64, SurfaceState>,
    after: Map<u64, SurfaceState>,
    device: u64,
    reached: u64,
    images: Seq<u32>,
    surface: u64,
    i: int,
)
    requires
        polled(before, after, device, reached, images),
        before.contains_key(surface),
        0 <= i < before[surface].pending_swapchain_returns@.len(),
    ensures
        before[surface].device_handle != device ==> after[surface] == before[surface],
        before[surface].device_handle == device
            && before[surface].pending_swapchain_returns@[i].return_fence <= reached
            ==> images.contains(before[surface].pending_swapchain_returns@[i].image_index),
        before[surface].device_handle == device
            && before[surface].pending_swapchain_returns@[i].return_fence > reached
            ==> after[surface].pending_swapchain_returns@.contains(
            before[surface].pending_swapchain_returns@[i],
        ),
{
    let pending = before[surface].pending_swapchain_returns@;
    image_comes_back_at_its_value(pending, reached, i);
    if before[surface].device_handle == device {
        let order = choose|order: Seq<u64>| #[trigger]
            super::backend::lists_surfaces(before, device, order) && images == all_returned(
                before,
                order,
                reached,
            );
        assert(super::tables::on_device_keys(before, device).contains(surface));
        assert(order.to_set().contains(surface));
        let k = choose|k: int| 0 <= k < order.len() && order[k] == surface;
        if pending[i].return_fence <= reached {
            lemma_all_returned(before, order, reached, k, pending[i].image_index);
        }
    }
}

/// The job of a fence value is that of the first image that comes back under it.
pub proof fn job_is_that_of_the_first_image(pending: Seq<SwapchainReturn>, value: u64, i: int)
    requires
        0 <= i < pending.len(),
        pending[i].return_fence == value,
        forall|j: int| 0 <= j < i ==> (#[trigger] pending[j]).return_fence != value,
    ensures
        first_token(pending, value) == pending[i].issue_token,
    decreases pending.len(),
{
    if i > 0 {
        let rest = pending.skip(1);
        assert(pending[0].return_fence != value);
        assert(rest[i - 1] == pending[i]);
        assert forall|j: int| 0 <= j < i - 1 implies (#[trigger] rest[j]).return_fence != value by {
            assert(rest[j] == pending[j + 1]);
        }
        job_is_that_of_the_first_image(rest, value, i - 1);
    }
}

/// A slot that holds storage is read and written, one that holds a shader resource is read;
/// of others nothing is said.
pub proof fn slot_kind_tells_the_access(kind: Option<BindlessSlotKind>)
    ensures
        access_of(kind) == Some(ResourceAccess::ReadWrite) <==> kind == Some(
            BindlessSlotKind::StorageUav,
        ),
        access_of(kind) == Some(ResourceAccess::Read) <==> kind == Some(
            BindlessSlotKind::ReadOnlySrv,
        ),
        access_of(kind) is None <==> kind is None || kind == Some(BindlessSlotKind::UniformCbv),
{
}

} // verus!
