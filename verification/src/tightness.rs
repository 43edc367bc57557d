//! Two buffers per consumer, and two more, are not only enough: with one buffer
//! fewer, the consumers can bring the producer to a halt.
use crate::buffer::is_initial;
use crate::index::{
    law_acquisition_counts_one_reader, readcount_of, BufferIndex, RefCount,
    INFINITE_REFCOUNT,
};
use crate::input::{is_first_free, is_free, lemma_write_target_is};
use crate::model::{live, Reader, Step, System};
use crate::operations::{law_write_is_a_run, write_steps, wrote};
use crate::output::ReadProgress;
use crate::safety::{
    law_new_buffer_satisfies_invariant, law_run_keeps_invariant, law_step_keeps_invariant,
};
use crate::shared::SharedView;
use vstd::prelude::*;

verus! {

/// Some steps, one after the other, make `after` of `sys`.
#[verifier::opaque]
spec fn is_reachable<T>(sys: System<T>, after: System<T>) -> bool {
    exists|steps: Seq<Step<T>>| #[trigger] sys.can_run(steps) && sys.run(steps) == after
}

proof fn lemma_reach_itself<T>(sys: System<T>)
    ensures
        is_reachable(sys, sys),
{
    reveal(is_reachable);
    let none = Seq::<Step<T>>::empty();
    assert(sys.can_run(none));
}

proof fn lemma_reach_step<T>(sys: System<T>, mid: System<T>, step: Step<T>)
    requires
        is_reachable(sys, mid),
        mid.enabled(step),
    ensures
        is_reachable(sys, mid.next(step)),
{
    reveal(is_reachable);
    let steps = choose|steps: Seq<Step<T>>|
        #[trigger] sys.can_run(steps) && sys.run(steps) == mid;
    assert(steps.push(step).drop_last() =~= steps);
    assert(sys.can_run(steps.push(step)));
}

proof fn lemma_run_joins_run<T>(sys: System<T>, first: Seq<Step<T>>, second: Seq<Step<T>>)
    requires
        sys.can_run(first),
        sys.run(first).can_run(second),
    ensures
        sys.can_run(first + second),
        sys.run(first + second) == sys.run(first).run(second),
    decreases second.len(),
{
    if second.len() == 0 {
        assert(first + second =~= first);
    } else {
        lemma_run_joins_run(sys, first, second.drop_last());
        assert((first + second).drop_last() =~= first + second.drop_last());
        assert((first + second).last() == second.last());
    }
}

proof fn lemma_reach_run<T>(sys: System<T>, mid: System<T>, steps: Seq<Step<T>>)
    requires
        is_reachable(sys, mid),
        mid.can_run(steps),
    ensures
        is_reachable(sys, mid.run(steps)),
{
    reveal(is_reachable);
    let first = choose|steps: Seq<Step<T>>|
        #[trigger] sys.can_run(steps) && sys.run(steps) == mid;
    lemma_run_joins_run(sys, first, steps);
}

/// The first `k` consumers are halfway from one buffer to the next: consumer `j`
/// has acquired buffer `2 * j + 1` and not yet departed from buffer `2 * j`.
spec fn stalled(readers: Seq<Reader>, k: int) -> bool {
    forall|j: int|
        0 <= j < k ==> #[trigger] readers[j] == (Reader::Live {
            read_idx: (2 * j) as usize,
            progress: ReadProgress::Discarding { next: (2 * j + 1) as usize },
        })
}

/// Nobody has ever departed. Buffer `m` is the latest one, `readers` readers have
/// acquired it so far, each buffer before it has one reader on record, and each
/// buffer after it was never published.
#[verifier::opaque]
spec fn filled_up_to<T>(sys: System<T>, m: int, readers: int) -> bool {
    &&& sys.inv()
    &&& sys.writer is Finished
    &&& 0 <= m < sys.shared.len()
    &&& sys.shared.latest_info == m * 1024 + readers
    &&& 0 <= readers <= 1
    &&& sys.counts[m] == INFINITE_REFCOUNT
    &&& forall|i: int| 0 <= i < sys.shared.len() ==> #[trigger] sys.shared.done[i] == 0
    &&& forall|i: int| 0 <= i < m ==> #[trigger] sys.counts[i] == 1
    &&& forall|i: int| m < i < sys.shared.len() ==> #[trigger] sys.counts[i] == 0
}

/// A write goes to the next buffer.
proof fn lemma_write_goes_on<T>(start: System<T>, sys: System<T>, m: int) -> (after: System<T>)
    requires
        is_reachable(start, sys),
        filled_up_to(sys, m, 1),
        m + 1 < sys.shared.len(),
    ensures
        is_reachable(start, after),
        filled_up_to(after, m + 1, 0),
        after.readers == sys.readers,
        after.shared.len() == sys.shared.len(),
{
    reveal(filled_up_to);
    let v = sys.value;
    assert forall|j: int| 0 <= j < m + 1 implies !is_free(sys.counts, sys.shared.done, j) by {
        assert(sys.shared.done[j] == 0);
        if j < m {
            assert(sys.counts[j] == 1);
        }
    }
    assert(sys.shared.done[m + 1] == 0 && sys.counts[m + 1] == 0);
    assert(is_first_free(sys.counts, sys.shared.done, m + 1));
    lemma_write_target_is(sys.counts, sys.shared.done, m + 1);
    law_write_is_a_run(sys, v);
    let steps = write_steps(m + 1, v);
    let after = wrote(sys, m + 1, v);
    lemma_reach_run(start, sys, steps);
    law_run_keeps_invariant(sys, steps);
    assert(sys.shared.latest() == m);
    assert(readcount_of(sys.shared.latest_info) == 1);
    after
}

/// The consumer of buffer `m - 1` acquires the latest buffer `m`, and stalls.
proof fn lemma_consumer_stalls<T>(start: System<T>, sys: System<T>, m: int, r: int) -> (after:
    System<T>)
    requires
        is_reachable(start, sys),
        filled_up_to(sys, m, 0),
        m >= 1,
        0 <= r < sys.readers.len(),
        sys.readers[r] == (Reader::Live {
            read_idx: (m - 1) as usize,
            progress: ReadProgress::Ready,
        }),
    ensures
        is_reachable(start, after),
        filled_up_to(after, m, 1),
        after.readers == sys.readers.update(
            r,
            Reader::Live {
                read_idx: (m - 1) as usize,
                progress: ReadProgress::Discarding { next: m as usize },
            },
        ),
        after.shared.len() == sys.shared.len(),
{
    reveal(filled_up_to);
    let read = Step::<T>::Read { reader: r };
    assert(sys.shared.latest() == m && readcount_of(sys.shared.latest_info) == 0);
    let started = sys.next(Step::ReadStarts { reader: r });
    lemma_reach_step(start, sys, Step::ReadStarts { reader: r });
    law_step_keeps_invariant(sys, Step::ReadStarts { reader: r });
    let checked = started.next(read);
    lemma_reach_step(start, started, read);
    law_step_keeps_invariant(started, read);
    assert(checked.readers[r]->progress is Acquiring);
    law_acquisition_counts_one_reader(sys.shared.latest_info);
    let acquired = checked.next(read);
    lemma_reach_step(start, checked, read);
    law_step_keeps_invariant(checked, read);
    assert(acquired.readers =~= sys.readers.update(
        r,
        Reader::Live {
            read_idx: (m - 1) as usize,
            progress: ReadProgress::Discarding { next: m as usize },
        },
    ));
    acquired
}

/// A consumer joins at the latest buffer.
proof fn lemma_consumer_joins<T>(start: System<T>, sys: System<T>, m: int) -> (after: System<T>)
    requires
        is_reachable(start, sys),
        filled_up_to(sys, m, 0),
    ensures
        is_reachable(start, after),
        filled_up_to(after, m, 1),
        after.readers == sys.readers.push(
            Reader::Live { read_idx: m as usize, progress: ReadProgress::Ready },
        ),
        after.shared.len() == sys.shared.len(),
{
    reveal(filled_up_to);
    assert(sys.shared.latest() == m && readcount_of(sys.shared.latest_info) == 0);
    let after = sys.next(Step::Joins);
    lemma_reach_step(start, sys, Step::Joins);
    law_step_keeps_invariant(sys, Step::Joins);
    after
}

/// Consumer after consumer can stall, each of them on two buffers of its own.
proof fn lemma_consumers_stall<T>(start: System<T>, k: int) -> (after: System<T>)
    requires
        filled_up_to(start, 0, 1),
        start.readers == seq![Reader::Live { read_idx: 0, progress: ReadProgress::Ready }],
        k >= 1,
        2 * k < start.shared.len(),
    ensures
        is_reachable(start, after),
        filled_up_to(after, 2 * k, 0),
        after.readers.len() == k,
        stalled(after.readers, k),
        after.shared.len() == start.shared.len(),
    decreases k,
{
    let ready = if k == 1 {
        lemma_reach_itself(start);
        start
    } else {
        let before = lemma_consumers_stall(start, k - 1);
        lemma_consumer_joins(start, before, 2 * (k - 1))
    };
    let written = lemma_write_goes_on(start, ready, 2 * (k - 1));
    let waiting = lemma_consumer_stalls(start, written, 2 * k - 1, k - 1);
    lemma_write_goes_on(start, waiting, 2 * k - 1)
}

proof fn lemma_stalled_are_live(readers: Seq<Reader>)
    requires
        stalled(readers, readers.len() as int),
    ensures
        live(readers) == readers.len(),
    decreases readers.len(),
{
    if readers.len() > 0 {
        let rest = readers.drop_last();
        assert forall|j: int| 0 <= j < rest.len() implies #[trigger] rest[j] == (Reader::Live {
            read_idx: (2 * j) as usize,
            progress: ReadProgress::Discarding { next: (2 * j + 1) as usize },
        }) by {
            assert(rest[j] == readers[j]);
        }
        lemma_stalled_are_live(rest);
        assert(readers[readers.len() - 1] is Live);
    }
}

/// Two buffers per consumer, and two more, are the least amount that is wait-free:
/// on a buffer with one slot fewer, from its initial state on, the consumers and
/// the producer can act in such a way that there are just that many consumers, the
/// producer is idle, and no slot is free for its next write.
pub proof fn law_fewer_buffers_are_not_wait_free<T>(
    consumers: int,
    shared: SharedView<T>,
    counts: Seq<RefCount>,
    read_idx: BufferIndex,
)
    requires
        consumers >= 1,
        is_initial(shared, counts, read_idx),
        shared.len() == 2 * (1 + consumers) - 1,
    ensures
        exists|steps: Seq<Step<T>>|
            {
                let after = System::start(shared, counts, read_idx).run(steps);
                &&& #[trigger] System::start(shared, counts, read_idx).can_run(steps)
                &&& live(after.readers) == consumers
                &&& after.writer is Finished
                &&& forall|i: int|
                    0 <= i < after.shared.len() ==> #[trigger] after.counts[i]
                        != after.shared.done[i]
            },
{
    let start = System::start(shared, counts, read_idx);
    law_new_buffer_satisfies_invariant(shared, counts, read_idx);
    assert(filled_up_to(start, 0, 1)) by {
        reveal(filled_up_to);
    }
    let after = lemma_consumers_stall(start, consumers);
    lemma_stalled_are_live(after.readers);
    reveal(filled_up_to);
    reveal(is_reachable);
    assert forall|i: int| 0 <= i < after.shared.len() implies #[trigger] after.counts[i]
        != after.shared.done[i] by {
        assert(after.shared.done[i] == 0);
    }
    let steps = choose|steps: Seq<Step<T>>|
        #[trigger] start.can_run(steps) && start.run(steps) == after;
    assert(start.can_run(steps));
}

} // verus!
