//! What holds of a dispatch queue over several operations.

use crate::dispatch::{QueueModel, QueueType};
use crate::request::ApiRequestView;
use vstd::prelude::*;

verus! {

/// A queue after a run of submissions, each to its own tier, in their order.
pub open spec fn pushed_all(
    queue: QueueModel,
    submitted: Seq<(QueueType, ApiRequestView)>,
) -> QueueModel
    decreases submitted.len(),
{
    if submitted.len() == 0 {
        queue
    } else {
        pushed_all(queue, submitted.drop_last()).pushed(submitted.last().0, submitted.last().1)
    }
}

/// The requests of a run of submissions that went to one tier, in their order.
pub open spec fn submitted_to(
    submitted: Seq<(QueueType, ApiRequestView)>,
    tier: QueueType,
) -> Seq<ApiRequestView>
    decreases submitted.len(),
{
    if submitted.len() == 0 {
        Seq::empty()
    } else if submitted.last().0 == tier {
        submitted_to(submitted.drop_last(), tier).push(submitted.last().1)
    } else {
        submitted_to(submitted.drop_last(), tier)
    }
}

/// A queue after a number of extractions from one tier.
pub open spec fn extracted_times(queue: QueueModel, tier: QueueType, times: nat) -> QueueModel
    decreases times,
{
    if times == 0 {
        queue
    } else {
        extracted_times(queue, tier, (times - 1) as nat).extracted(tier)
    }
}

/// A tier holds what it held, followed by what was submitted to it, in the
/// order of submission: submissions to other tiers neither add to it nor
/// reorder it. Its length grows by the number of submissions to it.
pub proof fn lemma_pushes_append(
    queue: QueueModel,
    submitted: Seq<(QueueType, ApiRequestView)>,
    tier: QueueType,
)
    ensures
        pushed_all(queue, submitted).pending(tier) == queue.pending(tier) + submitted_to(
            submitted,
            tier,
        ),
        pushed_all(queue, submitted).pending(tier).len() == queue.pending(tier).len()
            + submitted_to(submitted, tier).len(),
        pushed_all(queue, submitted).endpoint == queue.endpoint,
    decreases submitted.len(),
{
    if submitted.len() == 0 {
        assert(queue.pending(tier) + Seq::<ApiRequestView>::empty() =~= queue.pending(tier));
    } else {
        let before = submitted.drop_last();
        lemma_pushes_append(queue, before, tier);
        let last = submitted.last();
        if last.0 == tier {
            assert((queue.pending(tier) + submitted_to(before, tier)).push(last.1)
                =~= queue.pending(tier) + submitted_to(before, tier).push(last.1));
        }
    }
}

/// After `n` submissions to one tier of a fresh queue, with nothing taken out
/// or aborted, that tier has length `n` and the other tiers are empty.
pub proof fn lemma_length_counts_pushes(
    endpoint: Seq<char>,
    tier: QueueType,
    submitted: Seq<(QueueType, ApiRequestView)>,
    other: QueueType,
)
    requires
        forall|i: int| 0 <= i < submitted.len() ==> (#[trigger] submitted[i]).0 == tier,
    ensures
        pushed_all(QueueModel::empty(endpoint), submitted).pending(tier).len() == submitted.len(),
        other != tier ==> pushed_all(QueueModel::empty(endpoint), submitted).pending(other).len()
            == 0,
{
    lemma_pushes_append(QueueModel::empty(endpoint), submitted, tier);
    lemma_pushes_append(QueueModel::empty(endpoint), submitted, other);
    lemma_submitted_to_one_tier(submitted, tier, other);
}

/// Of submissions that all went to one tier, that tier got every one and any
/// other tier none.
pub proof fn lemma_submitted_to_one_tier(
    submitted: Seq<(QueueType, ApiRequestView)>,
    tier: QueueType,
    other: QueueType,
)
    requires
        forall|i: int| 0 <= i < submitted.len() ==> (#[trigger] submitted[i]).0 == tier,
    ensures
        submitted_to(submitted, tier).len() == submitted.len(),
        other != tier ==> submitted_to(submitted, other).len() == 0,
    decreases submitted.len(),
{
    if submitted.len() > 0 {
        let before = submitted.drop_last();
        assert forall|i: int| 0 <= i < before.len() implies (#[trigger] before[i]).0 == tier by {
            assert(before[i] == submitted[i]);
        }
        lemma_submitted_to_one_tier(before, tier, other);
        assert(submitted.last() == submitted[submitted.len() - 1]);
    }
}

/// An extraction from the mutable or the passive tier hands out everything
/// that is pending there, oldest first, and leaves that tier empty; the other
/// tiers and the endpoint stay as they were.
pub proof fn lemma_drain_takes_all(queue: QueueModel, tier: QueueType, other: QueueType)
    requires
        tier != QueueType::Immutable,
    ensures
        queue.batch(tier) == queue.pending(tier),
        queue.extracted(tier).pending(tier).len() == 0,
        other != tier ==> queue.extracted(tier).pending(other) == queue.pending(other),
        queue.extracted(tier).endpoint == queue.endpoint,
{
    assert(queue.pending(tier).take(queue.pending(tier).len() as int) =~= queue.pending(tier));
}

/// Draining twice with nothing submitted in between hands out everything,
/// then nothing.
pub proof fn lemma_second_drain_is_empty(queue: QueueModel, tier: QueueType)
    requires
        tier != QueueType::Immutable,
    ensures
        queue.batch(tier) == queue.pending(tier),
        queue.extracted(tier).batch(tier) == Seq::<ApiRequestView>::empty(),
        queue.extracted(tier).extracted(tier) == queue.extracted(tier),
{
    lemma_drain_takes_all(queue, tier, tier);
    let once = queue.extracted(tier);
    assert(once.batch(tier) =~= Seq::<ApiRequestView>::empty());
    assert(once.pending(tier).skip(0) =~= once.pending(tier));
}

/// No extraction from the immutable tier hands out more than one request, and
/// none hands out more than is pending, whatever the tier.
pub proof fn lemma_batch_bounds(queue: QueueModel, tier: QueueType)
    ensures
        queue.batch(QueueType::Immutable).len() <= 1,
        queue.batch(tier).len() == queue.batch_len(tier),
        queue.batch_len(tier) <= queue.pending(tier).len(),
        queue.batch(tier) + queue.extracted(tier).pending(tier) == queue.pending(tier),
{
    let pending = queue.pending(tier);
    let n = queue.batch_len(tier) as int;
    assert(pending.take(n) + pending.skip(n) =~= pending);
}

/// Repeated extractions from the immutable tier hand out what was pending one
/// request at a time, in the order of submission: after `times` extractions
/// the first `times` requests are gone, and the next extraction hands out the
/// request that stood at that place, or nothing once the tier is empty.
pub proof fn lemma_immutable_one_at_a_time(queue: QueueModel, times: nat)
    ensures
        extracted_times(queue, QueueType::Immutable, times).immutable == if times
            <= queue.immutable.len() {
            queue.immutable.skip(times as int)
        } else {
            Seq::<ApiRequestView>::empty()
        },
        extracted_times(queue, QueueType::Immutable, times).batch(QueueType::Immutable) == if times
            < queue.immutable.len() {
            seq![queue.immutable[times as int]]
        } else {
            Seq::<ApiRequestView>::empty()
        },
        extracted_times(queue, QueueType::Immutable, times).mutable == queue.mutable,
        extracted_times(queue, QueueType::Immutable, times).passive == queue.passive,
        extracted_times(queue, QueueType::Immutable, times).endpoint == queue.endpoint,
    decreases times,
{
    let tier = QueueType::Immutable;
    let all = queue.immutable;
    if times == 0 {
        assert(all.skip(0) =~= all);
    } else {
        lemma_immutable_one_at_a_time(queue, (times - 1) as nat);
        let before = extracted_times(queue, tier, (times - 1) as nat);
        if times <= all.len() {
            assert(all.skip(times - 1).skip(1) =~= all.skip(times as int));
            assert(before.extracted(tier).immutable =~= all.skip(times as int));
        } else {
            assert(before.extracted(tier).immutable =~= Seq::<ApiRequestView>::empty());
        }
    }
    let now = extracted_times(queue, tier, times);
    if times < all.len() {
        assert(now.batch(tier) =~= seq![all[times as int]]);
    } else {
        assert(now.batch(tier) =~= Seq::<ApiRequestView>::empty());
    }
}

/// An abort of the mutable tier empties it and counts what it held; an abort
/// of the immutable or the passive tier counts 0 and changes nothing,
/// whatever those tiers hold. No abort touches another tier or the endpoint.
pub proof fn lemma_abort_policy(queue: QueueModel, tier: QueueType, other: QueueType)
    ensures
        tier == QueueType::Mutable ==> queue.abort_len(tier) == queue.mutable.len()
            && queue.aborted(tier).mutable.len() == 0,
        tier != QueueType::Mutable ==> queue.abort_len(tier) == 0 && queue.aborted(tier) == queue,
        other != tier ==> queue.aborted(tier).pending(other) == queue.pending(other),
        queue.aborted(tier).endpoint == queue.endpoint,
        queue.aborted(tier).batch(QueueType::Mutable).len() == if tier == QueueType::Mutable {
            0
        } else {
            queue.mutable.len()
        },
{
}

/// Something is pending exactly when some tier has a nonzero length, and
/// nothing is pending exactly when all three lengths are zero.
pub proof fn lemma_has_pending(queue: QueueModel)
    ensures
        queue.has_pending() <==> exists|tier: QueueType| queue.pending(tier).len() != 0,
        !queue.has_pending() <==> queue.pending(QueueType::Mutable).len() == 0 && queue.pending(
            QueueType::Immutable,
        ).len() == 0 && queue.pending(QueueType::Passive).len() == 0,
{
    if queue.has_pending() {
        if queue.mutable.len() != 0 {
            assert(queue.pending(QueueType::Mutable).len() != 0);
        } else if queue.immutable.len() != 0 {
            assert(queue.pending(QueueType::Immutable).len() != 0);
        } else {
            assert(queue.pending(QueueType::Passive).len() != 0);
        }
    }
}

/// The tiers are independent: a submission to one tier leaves the other tiers
/// and the endpoint as they were.
pub proof fn lemma_push_keeps_other_tiers(
    queue: QueueModel,
    tier: QueueType,
    request: ApiRequestView,
    other: QueueType,
)
    ensures
        queue.pushed(tier, request).pending(tier) == queue.pending(tier).push(request),
        other != tier ==> queue.pushed(tier, request).pending(other) == queue.pending(other),
        queue.pushed(tier, request).endpoint == queue.endpoint,
        queue.pushed(tier, request).has_pending(),
{
}

} // verus!
