//! When values of a timeline are waited for, retired, signaled and forgotten.

use vstd::prelude::*;

use super::timeline::{
    completed_on, crossed, events_below, is_pending, pruned, pruned_events,
    retires_to, wait_outcome, LedgerCompletion, LedgerEntry, WaitCompletion,
};

verus! {

broadcast use vstd::std_specs::hash::group_hash_axioms;

/// A completion can be asked about: an event always, a fence once its value is bound.
pub open spec fn can_be_asked(completion: LedgerCompletion) -> bool {
    match completion {
        LedgerCompletion::CudaEvent { event } => true,
        LedgerCompletion::Dx12Fence { companion, value, recycle } => value != 0,
    }
}

/// A wait for a value waits for the completion that was entered for it on its context. It
/// is over at once where the value is not there any more but has retired, and is refused
/// where it was never entered on that context.
pub proof fn wait_is_for_its_own_completion(
    ledger: Map<u64, LedgerEntry>,
    retired: u64,
    context: u64,
    value: u64,
)
    ensures
        ({
            let entered = ledger.contains_key(value) && ledger[value].context == context;
            let outcome = wait_outcome(ledger, retired, context, value);
            &&& entered ==> (outcome matches WaitCompletion::Pending { completion } && completion
                == ledger[value].completion)
            &&& outcome is Pending <==> entered
            &&& outcome is AlreadyComplete <==> !entered && value > 0 && value <= retired
            &&& outcome is Missing <==> !entered && (value == 0 || value > retired)
        }),
{
}

/// A value counts as completed on a context exactly where it was entered there and
/// recorded, can be asked about and was found complete; it counts as pending exactly where
/// it was entered and recorded and cannot be asked about or was not found complete.
pub proof fn values_complete_or_pend(
    ledger: Map<u64, LedgerEntry>,
    complete: Set<u64>,
    context: u64,
    value: u64,
)
    ensures
        ({
            let entered = ledger.contains_key(value) && ledger[value].context == context
                && ledger[value].recorded;
            let done = can_be_asked(ledger[value].completion) && complete.contains(value);
            &&& completed_on(ledger, complete, context, value) <==> entered && done
            &&& is_pending(ledger, context, complete, value) <==> entered && !done
        }),
{
}

/// A device retires a value only once every value up to it, of any context, was recorded
/// and found complete; and it retires as far as that goes.
pub proof fn retirement_needs_every_value(
    ledger: Map<u64, LedgerEntry>,
    complete: Set<u64>,
    from: u64,
    to: u64,
    value: u64,
)
    requires
        retires_to(ledger, complete, from, to),
    ensures
        from < value <= to ==> ledger.contains_key(value) && ledger[value].recorded && can_be_asked(
            ledger[value].completion,
        ) && complete.contains(value),
        to < u64::MAX && value == to + 1 ==> !(ledger.contains_key(value) && ledger[value].recorded
            && can_be_asked(ledger[value].completion) && complete.contains(value)),
        from <= to,
{
    if from < value <= to {
        assert(super::timeline::retirable(ledger, complete, value));
    }
}

/// The values that are signaled are those after the last one signaled, up to the one that
/// has completed: each once, in order.
pub proof fn every_value_is_signaled_once(last: u64, completed: u64, value: u64, i: int, j: int)
    ensures
        crossed(last, completed).contains(value) <==> last < value <= completed,
        0 <= i < j < crossed(last, completed).len() ==> crossed(last, completed)[i] < crossed(
            last,
            completed,
        )[j],
{
    let values = crossed(last, completed);
    if last < value <= completed {
        assert(values[value - last - 1] == value);
    }
}

/// Pruning forgets exactly the values that have retired, and keeps every other entry as it
/// is.
pub proof fn pruning_forgets_what_has_retired(
    ledger: Map<u64, LedgerEntry>,
    retired: u64,
    value: u64,
)
    requires
        value > 0,
    ensures
        pruned(ledger, retired).contains_key(value) <==> ledger.contains_key(value) && value
            > retired,
        pruned(ledger, retired).contains_key(value) ==> pruned(ledger, retired)[value]
            == ledger[value],
{
}

proof fn lemma_events(ledger: Map<u64, LedgerEntry>, n: nat, event: u64)
    requires
        n <= 0x1_0000_0000_0000_0000,
    ensures
        events_below(ledger, n).contains(event) <==> exists|v: u64|
            {
                &&& v < n
                &&& #[trigger] ledger.contains_key(v)
                &&& ledger[v].completion == (LedgerCompletion::CudaEvent { event })
            },
    decreases n,
{
    if n > 0 {
        let rest = events_below(ledger, (n - 1) as nat);
        let all = events_below(ledger, n);
        let last = (n - 1) as u64;
        lemma_events(ledger, (n - 1) as nat, event);
        if rest.contains(event) {
            let k = choose|k: int| 0 <= k < rest.len() && rest[k] == event;
            assert(all[k] == event);
        }
        if ledger.contains_key(last) && ledger[last].completion == (LedgerCompletion::CudaEvent {
            event,
        }) {
            assert(all[all.len() - 1] == event);
        }
        if all.contains(event) && !rest.contains(event) {
            let k = choose|k: int| 0 <= k < all.len() && all[k] == event;
            if k < rest.len() {
                assert(rest[k] == event);
            }
            assert(ledger.contains_key(last));
        }
    }
}

/// The events that pruning gives back are exactly those of the values it forgets.
pub proof fn pruning_gives_back_the_events_it_forgets(
    ledger: Map<u64, LedgerEntry>,
    retired: u64,
    event: u64,
)
    requires
        retired > 0,
    ensures
        pruned_events(ledger, retired).contains(event) <==> exists|v: u64|
            {
                &&& v <= retired
                &&& #[trigger] ledger.contains_key(v)
                &&& ledger[v].completion == (LedgerCompletion::CudaEvent { event })
            },
{
    lemma_events(ledger, (retired + 1) as nat, event);
}

} // verus!
