//! What every interleaving of the producer's and the consumers' actions keeps.
use crate::buffer::is_initial;
use crate::counting::{lemma_refs_at, lemma_refs_nonneg, lemma_refs_push, lemma_refs_update};
use crate::index::{law_acquisition_counts_one_reader, valid_info, BufferIndex, RefCount};
use crate::input::WriteProgress;
use crate::model::{refs, Reader, Step, System};
use crate::output::ReadProgress;
use crate::shared::SharedView;
use vstd::prelude::*;

verus! {

/// An action of the producer keeps the invariant.
proof fn lemma_write_keeps_inv<T>(sys: System<T>)
    requires
        sys.inv(),
        sys.enabled(Step::Write),
    ensures
        sys.next(Step::Write).inv(),
{
    let after = sys.next(Step::Write);
    assert forall|q: int| 0 <= q < after.readers.len() implies after.goes_forward(
        #[trigger] after.readers[q],
    ) by {
        assert(sys.goes_forward(sys.readers[q]));
        if let Reader::Live { read_idx, progress: ReadProgress::Discarding { next } } =
            sys.readers[q] {
            lemma_refs_at(sys.readers, q, read_idx as int);
            lemma_refs_at(sys.readers, q, next as int);
            assert(sys.visible(read_idx as int) && sys.visible(next as int));
        }
    }
    let latest = sys.shared.latest();
    lemma_refs_nonneg(sys.readers, latest);
    match sys.writer {
        WriteProgress::Scanning { idx } => {
            lemma_refs_nonneg(sys.readers, idx as int);
            assert(sys.shared.done[idx as int] >= 0);
        },
        WriteProgress::Storing { idx } => {
            assert(sys.claimed(idx as int) && !sys.visible(idx as int));
        },
        WriteProgress::Resetting { idx } => {
            assert(sys.claimed(idx as int) && !sys.visible(idx as int));
        },
        WriteProgress::Publishing { idx } => {
            assert(sys.claimed(idx as int) && !sys.visible(idx as int));
            lemma_refs_nonneg(sys.readers, idx as int);
            assert(after.shared.latest() == idx);
        },
        WriteProgress::Finished => {},
    }
}

/// An action of a consumer keeps the invariant.
proof fn lemma_read_keeps_inv<T>(sys: System<T>, r: int)
    requires
        sys.inv(),
        sys.enabled(Step::Read { reader: r }),
    ensures
        sys.next(Step::Read { reader: r }).inv(),
{
    let step = Step::<T>::Read { reader: r };
    let after = sys.next(step);
    assert forall|i: int| true implies #[trigger] refs(after.readers, i) == refs(sys.readers, i)
        - sys.readers[r].refs(i) + after.readers[r].refs(i) by {
        lemma_refs_update(sys.readers, r, after.readers[r], i);
    }
    assert forall|i: int| true implies #[trigger] refs(sys.readers, i) >= 0 by {
        lemma_refs_nonneg(sys.readers, i);
    }
    let read_idx = sys.readers[r]->read_idx;
    lemma_refs_at(sys.readers, r, read_idx as int);
    assert(sys.readers[r].in_range(sys.shared.len()));
    assert forall|i: int| after.claimed(i) implies !#[trigger] after.visible(i) by {
        assert(sys.claimed(i) && !sys.visible(i));
        lemma_refs_at(sys.readers, r, i);
    }
    match sys.readers[r]->progress {
        ReadProgress::Checking => {
            assert(after.counts_readers());
        },
        ReadProgress::Acquiring => {
            law_acquisition_counts_one_reader(sys.shared.latest_info);
            assert(after.counts_readers());
        },
        ReadProgress::Discarding { next } => {
            assert(after.counts_readers());
        },
        ReadProgress::Ready => {},
    }
    assert(sys.visible(read_idx as int));
    assert forall|q: int| 0 <= q < after.readers.len() implies after.goes_forward(
        #[trigger] after.readers[q],
    ) by {
        assert(sys.goes_forward(sys.readers[q]));
    }
    assert(after.ranges());
    assert(after.remembers());
}

/// A consumer who joins keeps the invariant.
proof fn lemma_join_keeps_inv<T>(sys: System<T>)
    requires
        sys.inv(),
        sys.enabled(Step::Joins),
    ensures
        sys.next(Step::Joins).inv(),
{
    let after = sys.next(Step::Joins);
    let reader = after.readers.last();
    law_acquisition_counts_one_reader(sys.shared.latest_info);
    assert(after.shared.wf() && valid_info(after.shared.latest_info));
    assert(after.shared.latest() == sys.shared.latest());
    assert forall|i: int| true implies #[trigger] refs(after.readers, i) == refs(sys.readers, i)
        + reader.refs(i) && refs(sys.readers, i) >= 0 by {
        lemma_refs_push(sys.readers, reader, i);
        lemma_refs_nonneg(sys.readers, i);
    }
    assert forall|i: int| after.claimed(i) implies !#[trigger] after.visible(i) by {
        assert(sys.claimed(i) && !sys.visible(i));
    }
    assert forall|q: int| 0 <= q < after.readers.len() implies after.goes_forward(
        #[trigger] after.readers[q],
    ) by {
        if q < sys.readers.len() {
            assert(sys.goes_forward(sys.readers[q]));
        }
    }
    assert forall|q: int| 0 <= q < after.readers.len() implies (
    #[trigger] after.readers[q]).in_range(after.shared.len()) by {
        if q < sys.readers.len() {
            assert(sys.readers[q].in_range(sys.shared.len()));
        }
    }
    assert(after.counts_readers());
    assert(after.remembers());
}

/// A consumer who leaves, or starts to read, keeps the invariant.
proof fn lemma_idle_reader_keeps_inv<T>(sys: System<T>, r: int, step: Step<T>)
    requires
        sys.inv(),
        sys.enabled(step),
        step == (Step::<T>::ReadStarts { reader: r }) || step == (Step::<T>::Leaves { reader: r }),
    ensures
        sys.next(step).inv(),
{
    let after = sys.next(step);
    let read_idx = sys.readers[r]->read_idx;
    assert forall|i: int| true implies #[trigger] refs(after.readers, i) == refs(sys.readers, i)
        - sys.readers[r].refs(i) + after.readers[r].refs(i) && refs(sys.readers, i) >= 0 by {
        lemma_refs_update(sys.readers, r, after.readers[r], i);
        lemma_refs_nonneg(sys.readers, i);
    }
    lemma_refs_at(sys.readers, r, read_idx as int);
    assert(sys.readers[r].in_range(sys.shared.len()));
    assert(sys.visible(read_idx as int));
    assert forall|i: int| after.claimed(i) implies !#[trigger] after.visible(i) by {
        assert(sys.claimed(i) && !sys.visible(i));
        lemma_refs_at(sys.readers, r, i);
    }
    assert forall|q: int| 0 <= q < after.readers.len() implies after.goes_forward(
        #[trigger] after.readers[q],
    ) by {
        assert(sys.goes_forward(sys.readers[q]));
    }
    assert(after.counts_readers());
    assert(after.ranges());
    assert(after.remembers());
}

/// Whatever happens next keeps the invariant.
pub proof fn law_step_keeps_invariant<T>(sys: System<T>, step: Step<T>)
    requires
        sys.inv(),
        sys.enabled(step),
    ensures
        sys.next(step).inv(),
{
    match step {
        Step::WriteStarts { value } => {
            assert(forall|i: int| !sys.next(step).claimed(i));
            assert(forall|i: int| sys.next(step).visible(i) == sys.visible(i));
            assert forall|q: int| 0 <= q < sys.readers.len() implies sys.next(step).goes_forward(
                #[trigger] sys.readers[q],
            ) by {
                assert(sys.goes_forward(sys.readers[q]));
            }
        },
        Step::Write => {
            lemma_write_keeps_inv(sys);
        },
        Step::ReadStarts { reader } => {
            lemma_idle_reader_keeps_inv(sys, reader, step);
        },
        Step::Read { reader } => {
            lemma_read_keeps_inv(sys, reader);
        },
        Step::Joins => {
            lemma_join_keeps_inv(sys);
        },
        Step::Leaves { reader } => {
            lemma_idle_reader_keeps_inv(sys, reader, step);
        },
    }
}

/// However the actions of the producer and of the consumers interleave, the
/// invariant holds after each of them.
pub proof fn law_run_keeps_invariant<T>(sys: System<T>, steps: Seq<Step<T>>)
    requires
        sys.inv(),
        sys.can_run(steps),
    ensures
        sys.run(steps).inv(),
    decreases steps.len(),
{
    if steps.len() > 0 {
        law_run_keeps_invariant(sys, steps.drop_last());
        law_step_keeps_invariant(sys.run(steps.drop_last()), steps.last());
    }
}

/// A new buffer, with its one producer and its one consumer, satisfies the
/// invariant.
pub proof fn law_new_buffer_satisfies_invariant<T>(
    shared: SharedView<T>,
    counts: Seq<RefCount>,
    read_idx: BufferIndex,
)
    requires
        is_initial(shared, counts, read_idx),
    ensures
        System::start(shared, counts, read_idx).inv(),
{
    let sys = System::start(shared, counts, read_idx);
    assert forall|i: int| true implies #[trigger] refs(sys.readers, i)
        == sys.readers[0].refs(i) by {
        assert(sys.readers.drop_last() =~= Seq::empty());
        reveal_with_fuel(refs, 2);
    }
    assert(sys.counts_readers());
}

/// There is no data race: the buffer that the producer puts a value into is not
/// the latest one, and no consumer reads from it or has acquired access to it.
pub proof fn law_no_data_race<T>(sys: System<T>, i: int, r: int)
    requires
        sys.inv(),
        sys.claimed(i),
        0 <= r < sys.readers.len(),
    ensures
        i != sys.shared.latest(),
        sys.readers[r].refs(i) == 0,
        sys.readers[r] matches Reader::Live { read_idx, progress } ==> read_idx != i,
{
    assert(!sys.visible(i));
    lemma_refs_at(sys.readers, r, i);
}

/// As long as a consumer holds a buffer, nothing that anybody does changes what
/// the buffer holds.
pub proof fn law_held_data_is_stable<T>(sys: System<T>, step: Step<T>, r: int, i: int)
    requires
        sys.inv(),
        sys.enabled(step),
        0 <= r < sys.readers.len(),
        sys.readers[r].refs(i) > 0,
    ensures
        sys.next(step).shared.data[i] == sys.shared.data[i],
        sys.next(step).stamps[i] == sys.stamps[i],
{
    lemma_refs_at(sys.readers, r, i);
    assert(sys.visible(i));
    assert(sys.readers[r].in_range(sys.shared.len()));
}

/// Over any stretch of time during which a consumer holds a buffer, the buffer
/// keeps what it holds.
pub proof fn law_held_data_is_stable_over_runs<T>(
    sys: System<T>,
    steps: Seq<Step<T>>,
    r: int,
    i: int,
)
    requires
        sys.inv(),
        sys.can_run(steps),
        0 <= r < sys.readers.len(),
        forall|k: int|
            0 <= k < steps.len() ==> (#[trigger] sys.run(steps.take(k))).readers[r].refs(i) > 0,
    ensures
        sys.run(steps).shared.data[i] == sys.shared.data[i],
        sys.run(steps).stamps[i] == sys.stamps[i],
    decreases steps.len(),
{
    if steps.len() > 0 {
        let rest = steps.drop_last();
        assert forall|k: int| 0 <= k < rest.len() implies (
        #[trigger] sys.run(rest.take(k))).readers[r].refs(i) > 0 by {
            assert(rest.take(k) =~= steps.take(k));
        }
        law_held_data_is_stable_over_runs(sys, rest, r, i);
        law_run_keeps_invariant(sys, rest);
        lemma_readers_remain(sys, rest, r);
        assert(steps.take(steps.len() - 1) =~= rest);
        law_held_data_is_stable(sys.run(rest), steps.last(), r, i);
    }
}

/// The action that ends a write makes its value the latest one, and the last one
/// in the history; no other action publishes anything.
pub proof fn law_write_publishes_its_value<T>(sys: System<T>, step: Step<T>)
    requires
        sys.inv(),
        sys.enabled(step),
    ensures
        ({
            let after = sys.next(step);
            if step is Write && sys.writer is Publishing {
                &&& after.writer is Finished
                &&& after.shared.latest() == sys.writer->Publishing_idx
                &&& after.shared.latest_value() == sys.value
                &&& after.history == sys.history.push(sys.value)
            } else {
                &&& after.shared.latest() == sys.shared.latest()
                &&& after.shared.latest_value() == sys.shared.latest_value()
                &&& after.history == sys.history
            }
        }),
{
    assert(sys.visible(sys.shared.latest()));
}

/// A consumer who finds no update reads what was published last, and so does one
/// who fetches an update, as of the action by which it finds out.
pub proof fn law_reader_sees_latest_publication<T>(sys: System<T>, r: int)
    requires
        sys.inv(),
        sys.enabled(Step::Read { reader: r }),
    ensures
        ({
            let before = sys.readers[r]->progress;
            let after = sys.next(Step::Read { reader: r });
            match after.readers[r] {
                Reader::Live { read_idx, progress: ReadProgress::Ready } => before is Checking
                    ==> after.shared.data[read_idx as int] == sys.history.last(),
                Reader::Live { read_idx, progress: ReadProgress::Discarding { next } } => {
                    &&& before is Acquiring
                    &&& after.shared.data[next as int] == sys.history.last()
                },
                _ => true,
            }
        }),
{
    assert(sys.visible(sys.shared.latest()));
    assert(sys.stamps[sys.shared.latest()] == sys.history.len() - 1);
}

/// A consumer reads from a buffer that holds something published, and never goes
/// back to what was published earlier.
pub proof fn law_reader_goes_forward<T>(sys: System<T>, step: Step<T>, r: int)
    requires
        sys.inv(),
        sys.enabled(step),
        sys.is_live(r),
        sys.next(step).is_live(r),
    ensures
        ({
            let after = sys.next(step);
            let old_stamp = sys.stamps[sys.readers[r]->read_idx as int];
            let new_stamp = after.stamps[after.readers[r]->read_idx as int];
            &&& 0 <= old_stamp <= new_stamp < after.history.len()
            &&& after.shared.data[after.readers[r]->read_idx as int] == after.history[new_stamp]
        }),
{
    let after = sys.next(step);
    law_step_keeps_invariant(sys, step);
    assert(sys.goes_forward(sys.readers[r]));
    assert(sys.readers[r].in_range(sys.shared.len()));
    assert(after.readers[r].in_range(after.shared.len()));
    lemma_refs_at(sys.readers, r, sys.readers[r]->read_idx as int);
    lemma_refs_at(after.readers, r, after.readers[r]->read_idx as int);
    assert(sys.visible(sys.readers[r]->read_idx as int));
    assert(after.visible(after.readers[r]->read_idx as int));
    law_held_data_is_stable(sys, step, r, sys.readers[r]->read_idx as int);
}

/// What was published stays in the history, in order.
pub proof fn law_history_only_grows<T>(sys: System<T>, steps: Seq<Step<T>>)
    requires
        sys.can_run(steps),
    ensures
        sys.history.is_prefix_of(sys.run(steps).history),
    decreases steps.len(),
{
    if steps.len() > 0 {
        law_history_only_grows(sys, steps.drop_last());
    }
}

/// However the others interleave with it, a write publishes its value once: as long
/// as it is under way the history stays as it was, and once it is finished the
/// history has grown by its value.
pub proof fn law_write_publishes_once<T>(sys: System<T>, steps: Seq<Step<T>>)
    requires
        sys.can_run(steps),
        sys.writer !is Finished,
        forall|k: int| 0 <= k < steps.len() ==> !((#[trigger] steps[k]) is WriteStarts),
    ensures
        ({
            let after = sys.run(steps);
            &&& after.value == sys.value
            &&& after.history == if after.writer is Finished {
                sys.history.push(sys.value)
            } else {
                sys.history
            }
        }),
    decreases steps.len(),
{
    if steps.len() > 0 {
        let rest = steps.drop_last();
        assert forall|k: int| 0 <= k < rest.len() implies !((
        #[trigger] rest[k]) is WriteStarts) by {
            assert(rest[k] == steps[k]);
        }
        law_write_publishes_once(sys, rest);
        assert(steps.last() == steps[steps.len() - 1]);
    }
}

/// However the others interleave with it, a read gives what was published last when
/// it started, or something that was published since.
pub proof fn law_read_is_up_to_date<T>(sys: System<T>, steps: Seq<Step<T>>, r: int)
    requires
        sys.inv(),
        sys.can_run(steps),
        sys.is_live(r),
        sys.readers[r]->progress is Checking,
        forall|k: int|
            0 <= k < steps.len() ==> (#[trigger] steps[k]) != (Step::<T>::ReadStarts { reader: r })
                && steps[k] != (Step::<T>::Leaves { reader: r }),
    ensures
        ({
            let after = sys.run(steps);
            let oldest = sys.history.len() - 1;
            &&& after.is_live(r)
            &&& after.readers[r]->progress is Ready ==> after.holds_publication_from(
                oldest,
                after.readers[r]->read_idx as int,
            )
            &&& after.readers[r]->progress matches ReadProgress::Discarding { next } ==> {
                after.holds_publication_from(oldest, next as int)
            }
        }),
    decreases steps.len(),
{
    if steps.len() > 0 {
        let rest = steps.drop_last();
        let mid = sys.run(rest);
        let after = sys.run(steps);
        assert forall|k: int| 0 <= k < rest.len() implies (#[trigger] rest[k]) != (
        Step::<T>::ReadStarts { reader: r }) && rest[k] != (Step::<T>::Leaves { reader: r }) by {
            assert(rest[k] == steps[k]);
        }
        assert(steps.last() == steps[steps.len() - 1]);
        law_read_is_up_to_date(sys, rest, r);
        law_run_keeps_invariant(sys, rest);
        law_run_keeps_invariant(sys, steps);
        law_history_only_grows(sys, rest);
        let read_idx = mid.readers[r]->read_idx as int;
        lemma_refs_at(mid.readers, r, read_idx);
        law_held_data_is_stable(mid, steps.last(), r, read_idx);
        if let ReadProgress::Discarding { next } = mid.readers[r]->progress {
            lemma_refs_at(mid.readers, r, next as int);
            law_held_data_is_stable(mid, steps.last(), r, next as int);
        }
        assert(after.readers[r].in_range(after.shared.len()));
        lemma_refs_at(after.readers, r, after.readers[r]->read_idx as int);
        assert(after.visible(after.readers[r]->read_idx as int));
        assert(0 <= after.stamps[after.readers[r]->read_idx as int]);
        if let ReadProgress::Discarding { next } = after.readers[r]->progress {
            lemma_refs_at(after.readers, r, next as int);
            assert(after.visible(next as int));
            assert(0 <= after.stamps[next as int]);
        }
    }
}

proof fn lemma_gone_stays_gone<T>(sys: System<T>, step: Step<T>, r: int)
    requires
        sys.enabled(step),
        0 <= r < sys.readers.len(),
    ensures
        r < sys.next(step).readers.len(),
        sys.readers[r] is Gone ==> sys.next(step).readers[r] is Gone,
{
}

/// Over any stretch of time, a consumer goes from one publication to the same or
/// to a later one.
pub proof fn law_reader_goes_forward_over_runs<T>(sys: System<T>, steps: Seq<Step<T>>, r: int)
    requires
        sys.inv(),
        sys.can_run(steps),
        sys.is_live(r),
        sys.run(steps).is_live(r),
    ensures
        ({
            let after = sys.run(steps);
            sys.stamps[sys.readers[r]->read_idx as int]
                <= after.stamps[after.readers[r]->read_idx as int]
        }),
    decreases steps.len(),
{
    if steps.len() > 0 {
        let before = steps.drop_last();
        let mid = sys.run(before);
        law_run_keeps_invariant(sys, before);
        lemma_readers_remain(sys, before, r);
        lemma_gone_stays_gone(mid, steps.last(), r);
        law_reader_goes_forward_over_runs(sys, before, r);
        law_reader_goes_forward(mid, steps.last(), r);
    }
}

proof fn lemma_readers_remain<T>(sys: System<T>, steps: Seq<Step<T>>, r: int)
    requires
        sys.can_run(steps),
        0 <= r < sys.readers.len(),
    ensures
        r < sys.run(steps).readers.len(),
    decreases steps.len(),
{
    if steps.len() > 0 {
        lemma_readers_remain(sys, steps.drop_last(), r);
        lemma_gone_stays_gone(sys.run(steps.drop_last()), steps.last(), r);
    }
}

} // verus!
