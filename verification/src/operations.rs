//! What holds of whole writes and reads, one after the other.
use crate::buffer::{is_initial, SPMCBuffer};
use crate::index::{
    law_acquisition_counts_one_reader, max_readcount, overflow_of, readcount_of, BufferIndex,
    RefCount,
};
use crate::input::{
    any_free, can_write, is_first_free, is_free, lemma_write_target_exists, recorded,
    write_in_range, write_target, WriteProgress,
};
use crate::model::{refs, Reader, Step, System};
use crate::output::{can_acquire, can_read, ReadProgress};
use crate::shared::{shared_cloned, SharedView};
use vstd::pervasive::strictly_cloned;
use vstd::prelude::*;
use vstd::std_specs::cmp::PartialEqSpec;

verus! {

/// A new buffer can be read and written to at once, and reading it gives what it
/// was made with.
pub proof fn law_new_buffer_is_usable<T>(
    shared: SharedView<T>,
    counts: Seq<RefCount>,
    read_idx: BufferIndex,
)
    requires
        is_initial(shared, counts, read_idx),
    ensures
        can_read(shared, read_idx as int),
        can_write(shared, counts),
        any_free(counts, shared.done),
        shared.latest_value() == shared.data[0],
        shared.fetched(read_idx as int) == shared,
{
    assert(is_free(counts, shared.done, 1));
}

/// After a write, any consumer can read, and what it reads is what was written.
pub proof fn law_read_gives_back_last_write<T>(
    shared: SharedView<T>,
    counts: Seq<RefCount>,
    value: T,
    read_idx: int,
)
    requires
        can_write(shared, counts),
        any_free(counts, shared.done),
        0 <= read_idx < shared.len(),
    ensures
        ({
            let after = shared.written(write_target(counts, shared.done), value);
            &&& can_read(after, read_idx)
            &&& after.latest_value() == value
        }),
{
    lemma_write_target_exists(counts, shared.done);
}

/// A read changes neither what any buffer holds nor which one is the latest, so
/// the next read, by whichever consumer, gives the same value.
pub proof fn law_read_does_not_disturb_others<T>(
    shared: SharedView<T>,
    read_idx: int,
    other_idx: int,
)
    requires
        can_read(shared, read_idx),
        shared.latest() != read_idx ==> !overflow_of(shared.latest_info),
        0 <= other_idx < shared.len(),
    ensures
        ({
            let after = shared.fetched(read_idx);
            &&& after.wf()
            &&& after.data == shared.data
            &&& after.latest() == shared.latest()
            &&& after.latest_value() == shared.latest_value()
            &&& can_acquire(after) ==> can_read(after, other_idx)
        }),
{
}

/// A consumer who has read and reads again, with no write in between, gets the
/// same value and changes nothing.
pub proof fn law_second_read_changes_nothing<T>(shared: SharedView<T>, read_idx: int)
    requires
        can_read(shared, read_idx),
        shared.latest() != read_idx ==> !overflow_of(shared.latest_info),
    ensures
        ({
            let after = shared.fetched(read_idx);
            &&& can_read(after, shared.latest())
            &&& after.fetched(shared.latest()) == after
            &&& after.latest_value() == shared.latest_value()
        }),
{
}

/// A consumer who joins reads what was published last, and changes nothing for
/// the others but the reader count, as long as the count and its overflow bit do
/// not run over into the buffer index.
pub proof fn law_new_consumer_reads_latest<T>(shared: SharedView<T>)
    requires
        shared.wf(),
        shared.latest_info % 1024 != 1023,
    ensures
        can_read(shared.acquired(), shared.latest()),
        shared.acquired().latest() == shared.latest(),
        shared.acquired().latest_value() == shared.latest_value(),
        shared.acquired().fetched(shared.latest()) == shared.acquired(),
        readcount_of(shared.latest_info) < max_readcount() ==> {
            &&& readcount_of(shared.acquired().latest_info) == readcount_of(shared.latest_info) + 1
            &&& overflow_of(shared.acquired().latest_info) == overflow_of(shared.latest_info)
        },
{
}

/// A consumer who leaves does not change what the others read.
pub proof fn law_leaving_does_not_disturb_others<T>(shared: SharedView<T>, read_idx: int)
    requires
        shared.wf(),
        0 <= read_idx < shared.len(),
    ensures
        shared.departed(read_idx).wf(),
        shared.departed(read_idx).data == shared.data,
        shared.departed(read_idx).latest_info == shared.latest_info,
        shared.departed(read_idx).latest_value() == shared.latest_value(),
{
}

/// A write touches one buffer: all others keep their values and their amounts of
/// departed readers.
pub proof fn law_write_touches_one_buffer<T>(
    shared: SharedView<T>,
    counts: Seq<RefCount>,
    value: T,
    i: int,
)
    requires
        can_write(shared, counts),
        any_free(counts, shared.done),
        0 <= i < shared.len(),
        i != write_target(counts, shared.done),
    ensures
        shared.written(write_target(counts, shared.done), value).data[i] == shared.data[i],
        shared.written(write_target(counts, shared.done), value).done[i] == shared.done[i],
{
    lemma_write_target_exists(counts, shared.done);
}

/// Whatever has happened so far, and whether or not any consumer is left, the
/// producer may write once a buffer is free, and may go on with what it has begun.
pub proof fn law_producer_stays_allowed<T>(sys: System<T>)
    requires
        sys.inv(),
    ensures
        can_write(sys.shared, sys.counts),
        write_in_range(sys.writer, sys.counts.len() as int),
{
}

/// Whatever has happened so far, every consumer who has not left may read as long
/// as the reader count has room, and may leave.
pub proof fn law_consumer_stays_allowed<T>(sys: System<T>, r: int)
    requires
        sys.inv(),
        sys.is_live(r),
    ensures
        sys.readers[r]->read_idx < sys.shared.len(),
        readcount_of(sys.shared.latest_info) < max_readcount() ==> {
            &&& can_acquire(sys.shared)
            &&& can_read(sys.shared, sys.readers[r]->read_idx as int)
        },
{
    assert(sys.readers[r].in_range(sys.shared.len()));
}

/// The reader count has room for one more acquisition as long as the consumers who
/// hold the latest buffer, and those who held it since it was published and have
/// departed from it, are fewer than it can count. Where nobody has departed, only
/// as many concurrent consumers fill it up.
pub proof fn law_reader_count_has_room<T>(sys: System<T>)
    requires
        sys.inv(),
    ensures
        ({
            let holders = refs(sys.readers, sys.shared.latest());
            let departed = sys.shared.done[sys.shared.latest()];
            &&& readcount_of(sys.shared.latest_info) == holders + departed
            &&& can_acquire(sys.shared) <==> holders + departed < max_readcount()
            &&& sys.enabled(Step::Joins) <==> holders + departed < max_readcount()
            &&& departed == 0 ==> (can_acquire(sys.shared) <==> holders < max_readcount())
        }),
{
}

/// `step` can happen to `sys`, and makes `after` of it.
#[verifier::opaque]
spec fn leads_to<T>(sys: System<T>, step: Step<T>, after: System<T>) -> bool {
    sys.enabled(step) && sys.next(step) == after
}

/// `steps` can happen to `sys` one after the other, and make `after` of it.
#[verifier::opaque]
spec fn reaches<T>(sys: System<T>, steps: Seq<Step<T>>, after: System<T>) -> bool {
    sys.can_run(steps) && sys.run(steps) == after
}

proof fn lemma_reaches_itself<T>(sys: System<T>)
    ensures
        reaches(sys, Seq::empty(), sys),
{
    reveal(reaches);
}

proof fn lemma_reaches_further<T>(
    sys: System<T>,
    steps: Seq<Step<T>>,
    mid: System<T>,
    step: Step<T>,
    after: System<T>,
)
    requires
        reaches(sys, steps, mid),
        leads_to(mid, step, after),
    ensures
        reaches(sys, steps.push(step), after),
{
    reveal(reaches);
    reveal(leads_to);
    assert(steps.push(step).drop_last() =~= steps);
}

/// The actions of a write of `value` that finds buffer `idx` free, and none before
/// it.
pub open spec fn write_steps<T>(idx: int, value: T) -> Seq<Step<T>> {
    seq![Step::WriteStarts { value }] + Seq::new((idx + 4) as nat, |k: int| Step::<T>::Write)
}

/// The state after a write of `value` into buffer `idx`.
pub open spec fn wrote<T>(sys: System<T>, idx: int, value: T) -> System<T> {
    System {
        shared: sys.shared.written(idx, value),
        counts: recorded(sys.counts, idx, sys.shared.latest_info),
        value,
        history: sys.history.push(value),
        stamps: sys.stamps.update(idx, sys.history.len() as int),
        ..sys
    }
}

/// A write passes over the buffers that are not free.
proof fn lemma_scan_is_a_run<T>(sys: System<T>, value: T, idx: int, k: int)
    requires
        sys.inv(),
        sys.writer is Finished,
        is_first_free(sys.counts, sys.shared.done, idx),
        0 <= k <= idx,
    ensures
        reaches(
            sys,
            write_steps(idx, value).take(k + 1),
            System { writer: WriteProgress::Scanning { idx: k as usize }, value, ..sys },
        ),
    decreases k,
{
    let steps = write_steps(idx, value);
    let after = System { writer: WriteProgress::Scanning { idx: k as usize }, value, ..sys };
    if k == 0 {
        let start = Step::<T>::WriteStarts { value };
        lemma_reaches_itself(sys);
        assert(leads_to(sys, start, after)) by {
            reveal(leads_to);
        }
        lemma_reaches_further(sys, Seq::empty(), sys, start, after);
        assert(steps.take(1) =~= Seq::empty().push(start));
    } else {
        let before = System {
            writer: WriteProgress::Scanning { idx: (k - 1) as usize },
            value,
            ..sys
        };
        lemma_scan_is_a_run(sys, value, idx, k - 1);
        assert(leads_to(before, Step::Write, after)) by {
            reveal(leads_to);
            assert(!is_free(sys.counts, sys.shared.done, k - 1));
        }
        lemma_reaches_further(sys, steps.take(k), before, Step::Write, after);
        assert(steps.take(k + 1) =~= steps.take(k).push(Step::Write));
    }
}

/// Once it has come to a free buffer, a write takes four more actions.
proof fn lemma_found_buffer_is_written<T>(sys: System<T>, value: T, idx: int) -> (states: (
    System<T>,
    System<T>,
    System<T>,
))
    requires
        sys.inv(),
        sys.writer is Finished,
        is_free(sys.counts, sys.shared.done, idx),
    ensures
        leads_to(
            System { writer: WriteProgress::Scanning { idx: idx as usize }, value, ..sys },
            Step::Write,
            states.0,
        ),
        leads_to(states.0, Step::Write, states.1),
        leads_to(states.1, Step::Write, states.2),
        leads_to(states.2, Step::Write, wrote(sys, idx, value)),
{
    reveal(leads_to);
    let found = System { writer: WriteProgress::Scanning { idx: idx as usize }, value, ..sys };
    let claimed = found.next(Step::Write);
    let stored = claimed.next(Step::Write);
    let reset = stored.next(Step::Write);
    (claimed, stored, reset)
}

/// A whole write, with nobody else at work meanwhile, is a run of the producer's
/// actions. Everything that holds of all runs holds of it.
pub proof fn law_write_is_a_run<T>(sys: System<T>, value: T)
    requires
        sys.inv(),
        sys.writer is Finished,
        any_free(sys.counts, sys.shared.done),
    ensures
        ({
            let idx = write_target(sys.counts, sys.shared.done);
            let steps = write_steps(idx, value);
            &&& sys.can_run(steps)
            &&& sys.run(steps) == wrote(sys, idx, value)
        }),
{
    let idx = write_target(sys.counts, sys.shared.done);
    lemma_write_target_exists(sys.counts, sys.shared.done);
    let steps = write_steps(idx, value);
    assert(reaches(sys, steps, wrote(sys, idx, value))) by {
        let found = System { writer: WriteProgress::Scanning { idx: idx as usize }, value, ..sys };
        lemma_scan_is_a_run(sys, value, idx, idx);
        let (claimed, stored, reset) = lemma_found_buffer_is_written(sys, value, idx);
        let first = steps.take(idx + 1);
        let second = first.push(Step::Write);
        let third = second.push(Step::Write);
        let fourth = third.push(Step::Write);
        lemma_reaches_further(sys, first, found, Step::Write, claimed);
        lemma_reaches_further(sys, second, claimed, Step::Write, stored);
        lemma_reaches_further(sys, third, stored, Step::Write, reset);
        lemma_reaches_further(sys, fourth, reset, Step::Write, wrote(sys, idx, value));
        assert(steps =~= fourth.push(Step::Write));
    }
    reveal(reaches);
}

/// The actions of a read by consumer `r`, who has an update to fetch if `update`.
pub open spec fn read_steps<T>(r: int, update: bool) -> Seq<Step<T>> {
    let read = Step::<T>::Read { reader: r };
    if update {
        seq![Step::ReadStarts { reader: r }, read, read, read]
    } else {
        seq![Step::ReadStarts { reader: r }, read]
    }
}

/// The state after a whole read by consumer `r`.
pub open spec fn has_read<T>(sys: System<T>, r: int) -> System<T> {
    let reader = Reader::Live {
        read_idx: sys.shared.latest() as usize,
        progress: ReadProgress::Ready,
    };
    System {
        shared: sys.shared.fetched(sys.readers[r]->read_idx as int),
        readers: sys.readers.update(r, reader),
        ..sys
    }
}

/// A consumer who is up to date finds so by its first action.
proof fn lemma_nothing_to_fetch<T>(sys: System<T>, r: int) -> (started: System<T>)
    requires
        sys.inv(),
        sys.is_live(r),
        sys.readers[r]->progress is Ready,
        sys.shared.latest() == sys.readers[r]->read_idx,
    ensures
        leads_to(sys, Step::ReadStarts { reader: r }, started),
        leads_to(started, Step::Read { reader: r }, has_read(sys, r)),
{
    reveal(leads_to);
    let started = sys.next(Step::ReadStarts { reader: r });
    assert(started.next(Step::Read { reader: r }).readers =~= has_read(sys, r).readers);
    started
}

/// A consumer who is not up to date takes three actions to become so.
#[verifier::rlimit(30)]
proof fn lemma_update_is_fetched<T>(sys: System<T>, r: int) -> (states: (
    System<T>,
    System<T>,
    System<T>,
))
    requires
        sys.inv(),
        sys.is_live(r),
        sys.readers[r]->progress is Ready,
        sys.shared.latest() != sys.readers[r]->read_idx,
        can_read(sys.shared, sys.readers[r]->read_idx as int),
    ensures
        leads_to(sys, Step::ReadStarts { reader: r }, states.0),
        leads_to(states.0, Step::Read { reader: r }, states.1),
        leads_to(states.1, Step::Read { reader: r }, states.2),
        leads_to(states.2, Step::Read { reader: r }, has_read(sys, r)),
{
    reveal(leads_to);
    let started = sys.next(Step::ReadStarts { reader: r });
    let checked = started.next(Step::Read { reader: r });
    let acquired = checked.next(Step::Read { reader: r });
    law_acquisition_counts_one_reader(sys.shared.latest_info);
    assert(checked.readers[r]->progress is Acquiring);
    assert(acquired.readers[r]->progress == (ReadProgress::Discarding {
        next: sys.shared.latest() as usize,
    }));
    assert(acquired.next(Step::Read { reader: r }).readers =~= has_read(sys, r).readers);
    (started, checked, acquired)
}

/// A whole read, with nobody else at work meanwhile, is a run of the consumer's
/// actions. Everything that holds of all runs holds of it.
pub proof fn law_read_is_a_run<T>(sys: System<T>, r: int)
    requires
        sys.inv(),
        sys.is_live(r),
        sys.readers[r]->progress is Ready,
        can_read(sys.shared, sys.readers[r]->read_idx as int),
    ensures
        ({
            let steps = read_steps::<T>(r, sys.shared.latest() != sys.readers[r]->read_idx);
            &&& sys.can_run(steps)
            &&& sys.run(steps) == has_read(sys, r)
        }),
{
    let steps = read_steps::<T>(r, sys.shared.latest() != sys.readers[r]->read_idx);
    assert(reaches(sys, steps, has_read(sys, r))) by {
        let start = Step::<T>::ReadStarts { reader: r };
        let read = Step::<T>::Read { reader: r };
        let first = Seq::empty().push(start);
        let second = first.push(read);
        let third = second.push(read);
        lemma_reaches_itself(sys);
        if sys.shared.latest() != sys.readers[r]->read_idx {
            let (started, checked, acquired) = lemma_update_is_fetched(sys, r);
            lemma_reaches_further(sys, Seq::empty(), sys, start, started);
            lemma_reaches_further(sys, first, started, read, checked);
            lemma_reaches_further(sys, second, checked, read, acquired);
            lemma_reaches_further(sys, third, acquired, read, has_read(sys, r));
            assert(steps =~= third.push(read));
        } else {
            let started = lemma_nothing_to_fetch(sys, r);
            lemma_reaches_further(sys, Seq::empty(), sys, start, started);
            lemma_reaches_further(sys, first, started, read, has_read(sys, r));
            assert(steps =~= second);
        }
    }
    reveal(reaches);
}

/// A copy of a buffer is equal to the buffer, where copies of values are equal to
/// the values.
pub proof fn law_copy_is_equal<T: Clone + PartialEq + Send>(buf: SPMCBuffer<T>, copy: SPMCBuffer<T>)
    requires
        forall|a: T, b: T| #[trigger] strictly_cloned(a, b) ==> a.eq_spec(&b),
        shared_cloned(buf.shared@, copy.shared@),
        copy.input@ == buf.input@,
        copy.output.read_idx == buf.output.read_idx,
    ensures
        buf.eq_spec(&copy),
{
    assert forall|i: int| 0 <= i < buf.shared@.len() implies (
    #[trigger] buf.shared@.data[i]).eq_spec(&copy.shared@.data[i]) by {
        assert(strictly_cloned(buf.shared@.data[i], copy.shared@.data[i]));
    }
}

/// Buffers that are equal and have records for all their buffers have the same
/// amount of buffers, the same counters everywhere, and equal values everywhere.
pub proof fn law_equal_buffers_agree_everywhere<T: Clone + PartialEq + Send>(
    a: SPMCBuffer<T>,
    b: SPMCBuffer<T>,
)
    requires
        a.eq_spec(&b),
        a.input@.len() == a.shared@.len(),
        b.input@.len() == b.shared@.len(),
    ensures
        a.shared@.len() == b.shared@.len(),
        a.shared@.done == b.shared@.done,
        a.shared@.latest_info == b.shared@.latest_info,
        forall|i: int|
            0 <= i < a.shared@.len() ==> (#[trigger] a.shared@.data[i]).eq_spec(&b.shared@.data[i]),
        a.input@ == b.input@,
        a.output.read_idx == b.output.read_idx,
{
    assert(a.shared@.done =~= b.shared@.done);
}

} // verus!
