//! When a write finds a buffer, and how many actions writes and reads take.
use crate::buffer::{is_initial, num_buffers};
use crate::counting::{
    lemma_refs_at, lemma_refs_holder, lemma_refs_nonneg, lemma_refs_update, lemma_total_bounded,
    lemma_total_when_held, lemma_weight_bounds,
};
use crate::index::{max_readcount, readcount_of, BufferIndex, RefCount};
use crate::input::{any_free, is_free, WriteProgress};
use crate::model::{live, refs, weight, Reader, Step, System};
use crate::output::ReadProgress;
use crate::safety::{
    law_new_buffer_satisfies_invariant, law_run_keeps_invariant, law_step_keeps_invariant,
};
use crate::shared::SharedView;
use vstd::prelude::*;

verus! {

/// While no write has claimed it, a buffer is free if and only if it is not the
/// latest one and no consumer holds it.
pub proof fn law_free_means_out_of_sight<T>(sys: System<T>, i: int)
    requires
        sys.inv(),
        0 <= i < sys.shared.len(),
        !sys.claimed(i),
    ensures
        is_free(sys.counts, sys.shared.done, i) <==> !sys.visible(i),
{
    lemma_refs_nonneg(sys.readers, i);
    assert(sys.shared.done[i] >= 0);
}

/// If the buffers outnumber by two those that the consumers hold, one is free.
pub proof fn law_spare_buffer_is_free<T>(sys: System<T>)
    requires
        sys.inv(),
        sys.writer is Scanning || sys.writer is Finished,
        sys.shared.len() >= weight(sys.readers) + 2,
    ensures
        any_free(sys.counts, sys.shared.done),
{
    let n = sys.shared.len();
    let latest = sys.shared.latest();
    if !any_free(sys.counts, sys.shared.done) {
        assert forall|i: int| 0 <= i < n && i != latest implies #[trigger] refs(sys.readers, i)
            > 0 by {
            assert(!is_free(sys.counts, sys.shared.done, i));
            law_free_means_out_of_sight(sys, i);
        }
        lemma_total_when_held(sys.readers, n, latest);
        lemma_total_bounded(sys.readers, n);
    }
}

/// Two buffers per consumer, and two more, make writes wait-free: whatever the
/// consumers are doing, a buffer is free.
pub proof fn law_two_buffers_per_consumer_suffice<T>(sys: System<T>)
    requires
        sys.inv(),
        sys.writer is Scanning || sys.writer is Finished,
        sys.shared.len() >= 2 * (1 + live(sys.readers)),
    ensures
        any_free(sys.counts, sys.shared.done),
{
    lemma_weight_bounds(sys.readers);
    law_spare_buffer_is_free(sys);
}

/// Where no consumer is busy switching from one buffer to another, one buffer per
/// consumer, and two more, suffice for a buffer to be free.
pub proof fn law_one_buffer_per_settled_consumer_suffices<T>(sys: System<T>)
    requires
        sys.inv(),
        sys.writer is Scanning || sys.writer is Finished,
        forall|r: int|
            0 <= r < sys.readers.len() ==> !((#[trigger] sys.readers[r]) is Live
                && sys.readers[r]->progress is Discarding),
        sys.shared.len() >= live(sys.readers) + 2,
    ensures
        any_free(sys.counts, sys.shared.done),
{
    lemma_settled_weight(sys.readers);
    law_spare_buffer_is_free(sys);
}

/// Nothing that anybody does changes the amount of buffers.
proof fn lemma_run_keeps_len<T>(sys: System<T>, steps: Seq<Step<T>>)
    requires
        sys.inv(),
        sys.can_run(steps),
    ensures
        sys.run(steps).shared.len() == sys.shared.len(),
    decreases steps.len(),
{
    if steps.len() > 0 {
        lemma_run_keeps_len(sys, steps.drop_last());
        law_run_keeps_invariant(sys, steps.drop_last());
    }
}

/// A buffer that was made for some wait-free read concurrency keeps its promise:
/// whatever happens, as long as there are not more consumers than that, a producer
/// who looks for a free buffer finds one.
pub proof fn law_new_buffer_stays_wait_free<T>(
    wf_read_concurrency: int,
    shared: SharedView<T>,
    counts: Seq<RefCount>,
    read_idx: BufferIndex,
    steps: Seq<Step<T>>,
)
    requires
        is_initial(shared, counts, read_idx),
        shared.len() == num_buffers(wf_read_concurrency),
        System::start(shared, counts, read_idx).can_run(steps),
        ({
            let after = System::start(shared, counts, read_idx).run(steps);
            &&& after.writer is Scanning || after.writer is Finished
            &&& live(after.readers) <= wf_read_concurrency
        }),
    ensures
        ({
            let after = System::start(shared, counts, read_idx).run(steps);
            any_free(after.counts, after.shared.done)
        }),
{
    let sys = System::start(shared, counts, read_idx);
    law_new_buffer_satisfies_invariant(shared, counts, read_idx);
    law_run_keeps_invariant(sys, steps);
    lemma_run_keeps_len(sys, steps);
    law_two_buffers_per_consumer_suffice(sys.run(steps));
}

/// Any amount of consumers leaves a buffer free if the distinct buffers that they
/// hold are fewer by two than the buffers there are.
pub proof fn law_few_distinct_versions_leave_a_buffer_free<T>(sys: System<T>, held: Set<int>)
    requires
        sys.inv(),
        sys.writer is Scanning || sys.writer is Finished,
        held.finite(),
        forall|i: int| refs(sys.readers, i) > 0 ==> #[trigger] held.contains(i),
        sys.shared.len() >= held.len() + 2,
    ensures
        any_free(sys.counts, sys.shared.done),
{
    let n = sys.shared.len();
    if !any_free(sys.counts, sys.shared.done) {
        let all = vstd::set_lib::set_int_range(0, n);
        vstd::set_lib::lemma_int_range(0, n);
        let busy = held.insert(sys.shared.latest());
        assert forall|i: int| all.contains(i) implies busy.contains(i) by {
            if i != sys.shared.latest() {
                assert(!is_free(sys.counts, sys.shared.done, i));
                law_free_means_out_of_sight(sys, i);
                assert(held.contains(i));
            }
        }
        vstd::set_lib::lemma_len_subset(all, busy);
    }
}

proof fn lemma_settled_weight(readers: Seq<Reader>)
    requires
        forall|r: int|
            0 <= r < readers.len() ==> !((#[trigger] readers[r]) is Live
                && readers[r]->progress is Discarding),
    ensures
        weight(readers) == live(readers),
    decreases readers.len(),
{
    if readers.len() > 0 {
        let rest = readers.drop_last();
        assert forall|r: int| 0 <= r < rest.len() implies !((#[trigger] rest[r]) is Live
            && rest[r]->progress is Discarding) by {
            assert(rest[r] == readers[r]);
        }
        lemma_settled_weight(rest);
        assert(readers[readers.len() - 1] == readers.last());
    }
}

/// With any amount of buffers, consumers who have all fetched the latest update
/// leave a buffer free.
pub proof fn law_up_to_date_consumers_leave_a_buffer_free<T>(sys: System<T>)
    requires
        sys.inv(),
        sys.writer is Scanning || sys.writer is Finished,
        forall|r: int, i: int|
            0 <= r < sys.readers.len() && i != sys.shared.latest()
                ==> #[trigger] sys.readers[r].refs(i) == 0,
    ensures
        any_free(sys.counts, sys.shared.done),
        forall|i: int|
            0 <= i < sys.shared.len() && i != sys.shared.latest() ==> is_free(
                sys.counts,
                sys.shared.done,
                i,
            ),
{
    assert forall|i: int| 0 <= i < sys.shared.len() && i != sys.shared.latest() implies is_free(
        sys.counts,
        sys.shared.done,
        i,
    ) by {
        lemma_refs_nonneg(sys.readers, i);
        if refs(sys.readers, i) > 0 {
            let r = lemma_refs_holder(sys.readers, i);
            assert(sys.readers[r].refs(i) == 0);
        }
        law_free_means_out_of_sight(sys, i);
    }
    let other: int = if sys.shared.latest() == 0 {
        1
    } else {
        0
    };
    assert(is_free(sys.counts, sys.shared.done, other));
}

/// When the last holder of an old buffer switches to another buffer or leaves,
/// the old buffer becomes free.
pub proof fn law_last_holder_frees_buffer<T>(sys: System<T>, step: Step<T>, r: int)
    requires
        sys.inv(),
        sys.enabled(step),
        sys.is_live(r),
        step == (Step::<T>::Leaves { reader: r }) || (step == (Step::<T>::Read { reader: r })
            && sys.readers[r]->progress is Discarding),
        sys.readers[r]->read_idx != sys.shared.latest(),
        refs(sys.readers, sys.readers[r]->read_idx as int) == 1,
    ensures
        is_free(
            sys.next(step).counts,
            sys.next(step).shared.done,
            sys.readers[r]->read_idx as int,
        ),
{
    let after = sys.next(step);
    let i = sys.readers[r]->read_idx as int;
    law_step_keeps_invariant(sys, step);
    lemma_refs_update(sys.readers, r, after.readers[r], i);
    lemma_refs_at(sys.readers, r, i);
    assert(sys.readers[r].in_range(sys.shared.len()));
    assert(sys.visible(i));
    assert(!sys.claimed(i));
    law_free_means_out_of_sight(after, i);
}

/// A buffer that is free stays free until the producer claims it, wherever the
/// producer's search stands. Meanwhile, each action brings the producer, who looks
/// at one buffer after the other and starts over after the last one, closer to it.
pub proof fn law_free_buffer_stays_free<T>(sys: System<T>, step: Step<T>, i: int)
    requires
        sys.inv(),
        sys.enabled(step),
        is_free(sys.counts, sys.shared.done, i),
        sys.writer is Scanning,
    ensures
        match sys.next(step).writer {
            WriteProgress::Scanning { idx } => {
                let before = sys.writer->Scanning_idx;
                &&& is_free(sys.next(step).counts, sys.next(step).shared.done, i)
                &&& step !is Write ==> idx == before
                &&& step is Write ==> {
                    &&& before != i
                    &&& idx == if before + 1 < sys.shared.len() {
                        before + 1
                    } else {
                        0
                    }
                }
            },
            WriteProgress::Storing { idx } => step is Write && idx == sys.writer->Scanning_idx,
            _ => false,
        },
{
    law_free_means_out_of_sight(sys, i);
    match step {
        Step::Read { reader } => {
            lemma_refs_at(sys.readers, reader, i);
        },
        Step::Leaves { reader } => {
            lemma_refs_at(sys.readers, reader, i);
        },
        _ => {},
    }
}

/// How many of `steps` are actions of the producer.
pub open spec fn writes_in<T>(steps: Seq<Step<T>>) -> int
    decreases steps.len(),
{
    if steps.len() == 0 {
        0
    } else {
        writes_in(steps.drop_last()) + if steps.last() is Write {
            1int
        } else {
            0int
        }
    }
}

/// How many of `steps` are actions of consumer `r`.
pub open spec fn reads_in<T>(steps: Seq<Step<T>>, r: int) -> int
    decreases steps.len(),
{
    if steps.len() == 0 {
        0
    } else {
        reads_in(steps.drop_last(), r) + if steps.last() == (Step::<T>::Read { reader: r }) {
            1int
        } else {
            0int
        }
    }
}

/// How many more actions a write takes at most, when buffer `i` of `len` is free.
pub open spec fn write_remaining(writer: WriteProgress, i: int, len: int) -> int {
    match writer {
        WriteProgress::Scanning { idx } => if idx <= i {
            i - idx + 4
        } else {
            len - idx + i + 4
        },
        WriteProgress::Storing { idx } => 3,
        WriteProgress::Resetting { idx } => 2,
        WriteProgress::Publishing { idx } => 1,
        WriteProgress::Finished => 0,
    }
}

/// How many more actions a read takes at most.
pub open spec fn read_remaining(progress: ReadProgress) -> int {
    match progress {
        ReadProgress::Checking => 3,
        ReadProgress::Acquiring => 2,
        ReadProgress::Discarding { next } => 1,
        ReadProgress::Ready => 0,
    }
}

/// Once a buffer is free, wherever the producer's search stands, each action of the
/// producer brings its write closer to the end, whatever the consumers do
/// meanwhile.
pub proof fn law_write_is_bounded<T>(sys: System<T>, steps: Seq<Step<T>>, i: int)
    requires
        sys.inv(),
        sys.can_run(steps),
        forall|k: int| 0 <= k < steps.len() ==> !((#[trigger] steps[k]) is WriteStarts),
        sys.writer is Scanning ==> is_free(sys.counts, sys.shared.done, i),
    ensures
        ({
            let after = sys.run(steps);
            let len = sys.shared.len();
            &&& after.shared.len() == len
            &&& writes_in(steps) + write_remaining(after.writer, i, len) <= write_remaining(
                sys.writer,
                i,
                len,
            )
            &&& write_remaining(after.writer, i, len) >= 0
            &&& write_remaining(after.writer, i, len) == 0 ==> after.writer is Finished
            &&& after.writer !is Finished ==> after.enabled(Step::Write)
            &&& after.writer is Scanning ==> is_free(after.counts, after.shared.done, i)
        }),
    decreases steps.len(),
{
    if steps.len() > 0 {
        let rest = steps.drop_last();
        assert forall|k: int| 0 <= k < rest.len() implies !((
        #[trigger] rest[k]) is WriteStarts) by {
            assert(rest[k] == steps[k]);
        }
        law_write_is_bounded(sys, rest, i);
        law_run_keeps_invariant(sys, rest);
        law_run_keeps_invariant(sys, steps);
        lemma_run_keeps_len(sys, steps);
        let mid = sys.run(rest);
        assert(steps.last() == steps[steps.len() - 1]);
        if mid.writer is Scanning {
            law_free_buffer_stays_free(mid, steps.last(), i);
        }
    }
}

/// With two buffers per consumer, and two more, a write is wait-free: from any
/// point on, it is finished after at most as many actions of the producer as there
/// are buffers, and three more, whatever the consumers do meanwhile.
pub proof fn law_write_is_wait_free<T>(sys: System<T>, steps: Seq<Step<T>>)
    requires
        sys.inv(),
        sys.can_run(steps),
        forall|k: int| 0 <= k < steps.len() ==> !((#[trigger] steps[k]) is WriteStarts),
        sys.writer is Scanning ==> sys.shared.len() >= 2 * (1 + live(sys.readers)),
    ensures
        writes_in(steps) <= sys.shared.len() + 3,
        writes_in(steps) == sys.shared.len() + 3 ==> sys.run(steps).writer is Finished,
        sys.run(steps).writer !is Finished ==> sys.run(steps).enabled(Step::Write),
{
    if sys.writer is Scanning {
        law_two_buffers_per_consumer_suffice(sys);
    }
    let i = choose|i: int| is_free(sys.counts, sys.shared.done, i);
    law_write_is_bounded(sys, steps, i);
}

/// A write that waits is released by the last holder of an old buffer: once that
/// consumer has switched to another buffer or left, the write is finished after at
/// most as many actions of the producer as there are buffers, and three more,
/// whatever the other consumers do meanwhile.
pub proof fn law_last_holder_releases_waiting_write<T>(
    sys: System<T>,
    step: Step<T>,
    r: int,
    steps: Seq<Step<T>>,
)
    requires
        sys.inv(),
        sys.enabled(step),
        sys.is_live(r),
        step == (Step::<T>::Leaves { reader: r }) || (step == (Step::<T>::Read { reader: r })
            && sys.readers[r]->progress is Discarding),
        sys.readers[r]->read_idx != sys.shared.latest(),
        refs(sys.readers, sys.readers[r]->read_idx as int) == 1,
        sys.writer is Scanning,
        sys.next(step).can_run(steps),
        forall|k: int| 0 <= k < steps.len() ==> !((#[trigger] steps[k]) is WriteStarts),
    ensures
        ({
            let after = sys.next(step).run(steps);
            &&& writes_in(steps) <= sys.shared.len() + 3
            &&& writes_in(steps) == sys.shared.len() + 3 ==> after.writer is Finished
            &&& after.writer !is Finished ==> after.enabled(Step::Write)
        }),
{
    law_step_keeps_invariant(sys, step);
    law_last_holder_frees_buffer(sys, step, r);
    law_write_is_bounded(sys.next(step), steps, sys.readers[r]->read_idx as int);
}

/// A read is wait-free: counted from its start, it is finished after at most three
/// actions of the consumer, whatever the producer and the other consumers do
/// meanwhile, and the next of these actions can be taken at any time, as long as
/// the reader count has room for an acquisition.
pub proof fn law_read_is_wait_free<T>(sys: System<T>, steps: Seq<Step<T>>, r: int)
    requires
        sys.can_run(steps),
        sys.is_live(r),
        forall|k: int|
            0 <= k < steps.len() ==> (#[trigger] steps[k]) != (Step::<T>::ReadStarts { reader: r })
                && steps[k] != (Step::<T>::Leaves { reader: r }),
    ensures
        ({
            let after = sys.run(steps);
            &&& after.is_live(r)
            &&& reads_in(steps, r) + read_remaining(after.readers[r]->progress)
                <= read_remaining(sys.readers[r]->progress)
            &&& reads_in(steps, r) <= 3
            &&& reads_in(steps, r) == 3 ==> after.readers[r]->progress is Ready
            &&& after.readers[r]->progress !is Ready && (after.readers[r]->progress is Acquiring
                ==> readcount_of(after.shared.latest_info) < max_readcount()) ==> after.enabled(
                Step::Read { reader: r },
            )
        }),
    decreases steps.len(),
{
    if steps.len() > 0 {
        let rest = steps.drop_last();
        assert forall|k: int| 0 <= k < rest.len() implies (#[trigger] rest[k]) != (
        Step::<T>::ReadStarts { reader: r }) && rest[k] != (Step::<T>::Leaves { reader: r }) by {
            assert(rest[k] == steps[k]);
        }
        law_read_is_wait_free(sys, rest, r);
        assert(steps.last() == steps[steps.len() - 1]);
    }
}

} // verus!
