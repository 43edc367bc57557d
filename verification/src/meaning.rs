//! What actions, conditions and results mean, said with the fields they are about.
//!
//! Whoever performs the actions of a write or of a read elsewhere, on atomics for
//! instance, relies on these laws: on what each action does and returns, and on
//! which actions follow each other.
use crate::buffer::{is_initial, num_buffers, SPMCBuffer};
use crate::index::{
    fresh_info, max_readcount, overflow_of, readcount_of, slot_of, valid_info, BufferIndex,
    RefCount, SharedIndex, INFINITE_REFCOUNT, MAX_BUFFERS, MAX_CONCURRENT_READERS,
    SHARED_INDEX_MASK, SHARED_INDEX_MULTIPLIER, SHARED_OVERFLOW_BIT, SHARED_READCOUNT_MASK,
};
use crate::input::{
    any_free, can_write, is_first_free, is_free, lemma_write_target_exists, recorded,
    write_action, write_effect, write_event, write_in_range, write_next, write_target,
    SPMCBufferInput, WriteAction, WriteProgress,
};
use crate::output::{
    can_acquire, can_read, read_action, read_effect, read_event, read_next, ReadAction,
    ReadProgress,
};
use crate::shared::{
    law_view_shows_the_fields, may_compare, may_have_other_data, may_have_same_data,
    same_counters, same_data, shared_cloned, SPMCBufferSharedState, SharedView,
};
use vstd::pervasive::strictly_cloned;
use vstd::prelude::*;
use vstd::std_specs::cmp::PartialEqSpec;

verus! {

// The shared index

/// The limits and the layout of the shared index.
pub proof fn law_limits()
    ensures
        MAX_BUFFERS == 64,
        MAX_CONCURRENT_READERS == 31,
        INFINITE_REFCOUNT == 0xffff,
        SHARED_READCOUNT_MASK == 0x1ff,
        SHARED_OVERFLOW_BIT == 0x200,
        SHARED_INDEX_MASK == 0xfc00,
        SHARED_INDEX_MULTIPLIER == 0x400,
        max_readcount() == 511,
{
}

/// A shared index made of a buffer index, an overflow bit and a reader count is
/// taken apart into the same, whatever stands above its 16 bits.
pub proof fn law_index_is_taken_apart(
    idx: int,
    overflow: bool,
    count: int,
    above: int,
    info: SharedIndex,
)
    requires
        0 <= idx < 64,
        0 <= count < 512,
        info == above * 65536 + idx * 1024 + (if overflow {
            512int
        } else {
            0int
        }) + count,
    ensures
        slot_of(info) == idx,
        overflow_of(info) == overflow,
        readcount_of(info) == count,
        valid_info(info) <==> above == 0 && !overflow,
{
}

/// A fresh shared index designates its buffer, with no reader and no overflow.
pub proof fn law_fresh_index(idx: int)
    requires
        0 <= idx < 64,
    ensures
        fresh_info(idx) == idx * 1024,
        slot_of(fresh_info(idx) as usize) == idx,
        readcount_of(fresh_info(idx) as usize) == 0,
        !overflow_of(fresh_info(idx) as usize),
{
}

// The shared state

/// The producer's view is its list of reader counts.
pub proof fn law_view_shows_the_records(input: SPMCBufferInput)
    ensures
        input@ == input.reader_counts@,
{
}

/// The latest buffer is the one that the shared index designates, and the latest
/// value is what that buffer holds.
pub proof fn law_latest_is_designated<T>(shared: SharedView<T>)
    ensures
        shared.len() == shared.data.len(),
        shared.latest() == (shared.latest_info / 1024) % 64,
        shared.latest_value() == shared.data[(shared.latest_info as int / 1024) % 64],
        shared.wf() <==> {
            &&& shared.done.len() == shared.data.len()
            &&& 2 <= shared.data.len() <= 64
            &&& (shared.latest_info / 1024) % 64 < shared.data.len()
        },
{
}

/// What a whole write leaves behind: buffer `i` holds the value, has no departed
/// readers and is the latest one, and all other buffers are as before.
pub proof fn law_written_state<T>(shared: SharedView<T>, i: int, value: T)
    requires
        0 <= i < shared.data.len() <= 64,
        shared.done.len() == shared.data.len(),
    ensures
        ({
            let after = shared.written(i, value);
            &&& after.data.len() == shared.data.len()
            &&& after.done.len() == shared.done.len()
            &&& after.data[i] == value
            &&& after.done[i] == 0
            &&& after.latest_info == i * 1024
            &&& forall|j: int|
                0 <= j < shared.data.len() && j != i ==> {
                    &&& #[trigger] after.data[j] == shared.data[j]
                    &&& after.done[j] == shared.done[j]
                }
        }),
{
}

/// What a whole read leaves behind: all values are as before, and if the reader was
/// not up to date, it is counted in at the latest buffer and out at its own.
pub proof fn law_fetched_state<T>(shared: SharedView<T>, i: int)
    requires
        0 <= i < shared.data.len(),
        shared.done.len() == shared.data.len(),
        shared.latest_info < usize::MAX,
    ensures
        ({
            let after = shared.fetched(i);
            let up_to_date = (shared.latest_info / 1024) % 64 == i;
            &&& after.data == shared.data
            &&& after.done.len() == shared.done.len()
            &&& after.latest_info == shared.latest_info + (if up_to_date {
                0int
            } else {
                1int
            })
            &&& up_to_date ==> after.done == shared.done
            &&& !up_to_date && shared.done[i] < usize::MAX ==> after.done[i] == shared.done[i] + 1
            &&& !up_to_date && shared.done[i] == usize::MAX ==> after.done[i] == 0
            &&& forall|j: int|
                0 <= j < shared.done.len() && j != i ==> #[trigger] after.done[j]
                    == shared.done[j]
        }),
{
}

/// What joining leaves behind: one more reader on the shared index.
pub proof fn law_acquired_state<T>(shared: SharedView<T>)
    ensures
        shared.acquired().data == shared.data,
        shared.acquired().done == shared.done,
        shared.latest_info < usize::MAX ==> shared.acquired().latest_info == shared.latest_info
            + 1,
        shared.latest_info == usize::MAX ==> shared.acquired().latest_info == 0,
{
}

/// What leaving leaves behind: one more departed reader of the buffer.
pub proof fn law_departed_state<T>(shared: SharedView<T>, i: int)
    requires
        0 <= i < shared.done.len(),
    ensures
        shared.departed(i).data == shared.data,
        shared.departed(i).latest_info == shared.latest_info,
        shared.departed(i).done.len() == shared.done.len(),
        shared.done[i] < usize::MAX ==> shared.departed(i).done[i] == shared.done[i] + 1,
        shared.done[i] == usize::MAX ==> shared.departed(i).done[i] == 0,
        forall|j: int|
            0 <= j < shared.done.len() && j != i ==> #[trigger] shared.departed(i).done[j]
                == shared.done[j],
{
}

// Writes

/// Each action of the producer does to the shared state what its name and its index
/// say, and nothing else, and returns what its name says.
pub proof fn law_write_actions_do_as_named<T>(
    shared: SharedView<T>,
    idx: BufferIndex,
    info: SharedIndex,
    value: Option<T>,
    v: T,
)
    requires
        idx < shared.data.len(),
        shared.done.len() == shared.data.len(),
    ensures
        write_effect(shared, WriteAction::LoadDone { idx }, value) == shared,
        write_event(shared, WriteAction::LoadDone { idx }) == shared.done[idx as int],
        ({
            let after = write_effect(shared, WriteAction::StoreValue { idx }, Some(v));
            &&& after.data.len() == shared.data.len()
            &&& after.data[idx as int] == v
            &&& forall|j: int|
                0 <= j < shared.data.len() && j != idx ==> #[trigger] after.data[j]
                    == shared.data[j]
            &&& after.done == shared.done
            &&& after.latest_info == shared.latest_info
        }),
        ({
            let after = write_effect(shared, WriteAction::ResetDone { idx }, value);
            &&& after.done.len() == shared.done.len()
            &&& after.done[idx as int] == 0
            &&& forall|j: int|
                0 <= j < shared.done.len() && j != idx ==> #[trigger] after.done[j]
                    == shared.done[j]
            &&& after.data == shared.data
            &&& after.latest_info == shared.latest_info
        }),
        ({
            let after = write_effect(shared, WriteAction::SwapLatest { info }, value);
            &&& after.latest_info == info
            &&& after.data == shared.data
            &&& after.done == shared.done
        }),
        write_event(shared, WriteAction::SwapLatest { info }) == shared.latest_info,
        write_effect(shared, WriteAction::Nothing, value) == shared,
        write_event(shared, WriteAction::Nothing) == 0,
        write_event(shared, WriteAction::StoreValue { idx }) == 0,
        write_event(shared, WriteAction::ResetDone { idx }) == 0,
{
}

/// A write has nothing to do if and only if it is finished, and a finished write
/// stays finished and leaves the records alone.
pub proof fn law_write_ends_when_finished(
    counts: Seq<RefCount>,
    progress: WriteProgress,
    event: usize,
)
    ensures
        write_action(progress) is Nothing <==> progress is Finished,
        progress is Finished ==> write_next(counts, progress, event) == (counts, progress),
{
}

/// A write looks at the first buffer first. As long as the one it looks at is not
/// free, it looks at the one after it next, and at the first one after the last.
pub proof fn law_write_looks_at_every_buffer(
    counts: Seq<RefCount>,
    progress: WriteProgress,
    idx: BufferIndex,
    done: RefCount,
)
    requires
        write_action(progress) == (WriteAction::LoadDone { idx }),
        idx < counts.len() <= 64,
        counts[idx as int] != done,
    ensures
        write_action(WriteProgress::Scanning { idx: 0 }) == (WriteAction::LoadDone { idx: 0 }),
        write_next(counts, progress, done).0 == counts,
        idx + 1 < counts.len() ==> write_action(write_next(counts, progress, done).1) == (
        WriteAction::LoadDone { idx: (idx + 1) as usize }),
        idx + 1 == counts.len() ==> write_action(write_next(counts, progress, done).1) == (
        WriteAction::LoadDone { idx: 0 }),
{
}

/// A write serves one buffer from end to end: the buffer that it finds free is the
/// one that it puts the value into, the one whose departed readers it forgets, and
/// the one that it publishes, in this order. Then it is finished. In the records,
/// the published buffer has an infinite count, the formerly latest one has the
/// count that was found, and all others are as before.
pub proof fn law_write_serves_one_buffer(
    counts: Seq<RefCount>,
    progress: WriteProgress,
    idx: BufferIndex,
    stored: usize,
    reset: usize,
    former_info: SharedIndex,
)
    requires
        write_action(progress) == (WriteAction::LoadDone { idx }),
        idx < counts.len() <= 64,
        (former_info / 1024) % 64 < counts.len(),
    ensures
        ({
            let (counts1, storing) = write_next(counts, progress, counts[idx as int]);
            let (counts2, resetting) = write_next(counts1, storing, stored);
            let (counts3, publishing) = write_next(counts2, resetting, reset);
            let (after, finished) = write_next(counts3, publishing, former_info);
            &&& write_action(storing) == (WriteAction::StoreValue { idx })
            &&& write_action(resetting) == (WriteAction::ResetDone { idx })
            &&& write_action(publishing) == (WriteAction::SwapLatest {
                info: (idx * 1024) as usize,
            })
            &&& write_action(finished) is Nothing
            &&& counts1 == counts && counts2 == counts && counts3 == counts
            &&& after.len() == counts.len()
            &&& after[idx as int] == 0xffff
            &&& (former_info / 1024) % 64 != idx ==> after[(former_info / 1024) as int % 64]
                == former_info % 512
            &&& forall|j: int|
                0 <= j < counts.len() && j != idx && j != (former_info / 1024) % 64
                    ==> #[trigger] after[j] == counts[j]
        }),
{
}

/// The actions of a write, performed on a shared state, publish its value: the
/// buffer that the shared index designates afterwards holds it.
pub proof fn law_write_actions_publish_the_value<T>(
    shared: SharedView<T>,
    counts: Seq<RefCount>,
    progress: WriteProgress,
    idx: BufferIndex,
    value: T,
    none: Option<T>,
)
    requires
        write_action(progress) == (WriteAction::LoadDone { idx }),
        idx < counts.len() <= 64,
        shared.data.len() == counts.len(),
        shared.done.len() == counts.len(),
        counts[idx as int] == shared.done[idx as int],
    ensures
        ({
            let event = write_event(shared, write_action(progress));
            let storing = write_next(counts, progress, event).1;
            let after_store = write_effect(shared, write_action(storing), Some(value));
            let resetting = write_next(counts, storing, 0).1;
            let after_reset = write_effect(after_store, write_action(resetting), none);
            let publishing = write_next(counts, resetting, 0).1;
            let after = write_effect(after_reset, write_action(publishing), none);
            &&& after.data[(after.latest_info as int / 1024) % 64] == value
            &&& (after.latest_info / 1024) % 64 == idx
            &&& after.latest_info % 1024 == 0
            &&& after.done[idx as int] == 0
            &&& forall|j: int|
                0 <= j < shared.data.len() && j != idx ==> {
                    &&& #[trigger] after.data[j] == shared.data[j]
                    &&& after.done[j] == shared.done[j]
                }
        }),
{
}

/// The action of a write that is in range is about one of the buffers.
pub proof fn law_write_in_range(progress: WriteProgress, len: int)
    requires
        0 <= len <= 64,
    ensures
        write_in_range(progress, len) <==> match progress {
            WriteProgress::Scanning { idx } => idx < len,
            WriteProgress::Storing { idx } => idx < len,
            WriteProgress::Resetting { idx } => idx < len,
            WriteProgress::Publishing { idx } => idx < len,
            WriteProgress::Finished => true,
        },
        write_in_range(progress, len) ==> match write_action(progress) {
            WriteAction::LoadDone { idx } => idx < len,
            WriteAction::StoreValue { idx } => idx < len,
            WriteAction::ResetDone { idx } => idx < len,
            WriteAction::SwapLatest { info } => info / 1024 < len && info % 1024 == 0,
            WriteAction::Nothing => true,
        },
{
}

/// A buffer is free where the readers on record have all departed. The write target
/// is a free buffer, and none before it is free.
pub proof fn law_write_target_is_first_free(counts: Seq<RefCount>, done: Seq<RefCount>)
    requires
        counts.len() == done.len(),
    ensures
        forall|i: int| #[trigger]
            is_free(counts, done, i) <==> 0 <= i < counts.len() && counts[i] == done[i],
        any_free(counts, done) <==> exists|i: int|
            0 <= i < counts.len() && #[trigger] counts[i] == done[i],
        any_free(counts, done) ==> {
            let idx = write_target(counts, done);
            &&& 0 <= idx < counts.len()
            &&& counts[idx] == done[idx]
            &&& forall|j: int| 0 <= j < idx ==> #[trigger] counts[j] != done[j]
            &&& is_first_free(counts, done, idx)
        },
{
    if any_free(counts, done) {
        lemma_write_target_exists(counts, done);
        let idx = write_target(counts, done);
        assert(counts[idx] == done[idx]);
        assert forall|j: int| 0 <= j < idx implies #[trigger] counts[j] != done[j] by {
            assert(!is_free(counts, done, j));
        }
    } else {
        assert forall|i: int| 0 <= i < counts.len() implies #[trigger] counts[i] != done[i] by {
            assert(!is_free(counts, done, i));
        }
    }
}

/// A write is allowed wherever there is a record for each of 2 to 64 buffers, the
/// shared index designates one of them, and its overflow bit is clear.
pub proof fn law_when_writes_are_allowed<T>(shared: SharedView<T>, counts: Seq<RefCount>)
    ensures
        can_write(shared, counts) <==> {
            &&& 2 <= counts.len() <= 64
            &&& shared.data.len() == counts.len()
            &&& shared.done.len() == counts.len()
            &&& (shared.latest_info / 1024) % 64 < counts.len()
            &&& shared.latest_info % 1024 < 512
        },
{
}

/// Recording a publication touches two records.
pub proof fn law_recorded_counts(
    counts: Seq<RefCount>,
    write_idx: int,
    former_info: SharedIndex,
)
    requires
        0 <= write_idx < counts.len(),
        (former_info / 1024) % 64 < counts.len(),
    ensures
        ({
            let after = recorded(counts, write_idx, former_info);
            &&& after.len() == counts.len()
            &&& after[write_idx] == 0xffff
            &&& (former_info / 1024) % 64 != write_idx ==> after[(former_info / 1024) as int % 64]
                == former_info % 512
            &&& forall|j: int|
                0 <= j < counts.len() && j != write_idx && j != (former_info / 1024) % 64
                    ==> #[trigger] after[j] == counts[j]
        }),
{
}

// Reads

/// Each action of a consumer does to the shared state what its name and its index
/// say, and nothing else, and returns what its name says. To do nothing tells
/// nothing.
pub proof fn law_read_actions_do_as_named<T>(shared: SharedView<T>, idx: BufferIndex)
    requires
        idx < shared.done.len(),
    ensures
        read_effect(shared, ReadAction::LoadLatest) == shared,
        read_event(shared, ReadAction::LoadLatest) == shared.latest_info,
        ({
            let after = read_effect(shared, ReadAction::AcquireLatest);
            &&& after.data == shared.data
            &&& after.done == shared.done
            &&& shared.latest_info < usize::MAX ==> after.latest_info == shared.latest_info + 1
            &&& shared.latest_info == usize::MAX ==> after.latest_info == 0
        }),
        read_event(shared, ReadAction::AcquireLatest) == shared.latest_info,
        ({
            let after = read_effect(shared, ReadAction::CountDeparture { idx });
            &&& after.data == shared.data
            &&& after.latest_info == shared.latest_info
            &&& after.done.len() == shared.done.len()
            &&& shared.done[idx as int] < usize::MAX ==> after.done[idx as int]
                == shared.done[idx as int] + 1
            &&& shared.done[idx as int] == usize::MAX ==> after.done[idx as int] == 0
            &&& forall|j: int|
                0 <= j < shared.done.len() && j != idx ==> #[trigger] after.done[j]
                    == shared.done[j]
        }),
        read_event(shared, ReadAction::CountDeparture { idx }) == 0,
        read_effect(shared, ReadAction::Nothing) == shared,
        read_event(shared, ReadAction::Nothing) == 0,
{
}

/// A read has nothing to do if and only if it is finished, and a finished read
/// stays finished and keeps its buffer.
pub proof fn law_read_ends_when_ready(
    read_idx: BufferIndex,
    progress: ReadProgress,
    event: usize,
)
    ensures
        read_action(read_idx, progress) is Nothing <==> progress is Ready,
        progress is Ready ==> read_next(read_idx, progress, event) == (read_idx, progress),
{
}

/// Every read looks at the shared index first. If it designates the buffer that is
/// being read, then the read is finished with that buffer.
pub proof fn law_read_without_update(read_idx: BufferIndex, info: SharedIndex)
    requires
        (info / 1024) % 64 == read_idx,
    ensures
        read_action(read_idx, ReadProgress::Checking) == ReadAction::LoadLatest,
        ({
            let (after_idx, after) = read_next(read_idx, ReadProgress::Checking, info);
            &&& after_idx == read_idx
            &&& read_action(after_idx, after) is Nothing
        }),
{
}

/// If the shared index designates another buffer than the one that is being read,
/// then the read acquires the latest buffer, whichever it is by then, and only
/// afterwards counts itself out of its own buffer. Then it is finished with the
/// buffer that it acquired.
pub proof fn law_read_with_update(
    read_idx: BufferIndex,
    info: SharedIndex,
    acquired_info: SharedIndex,
    departed: usize,
)
    requires
        (info / 1024) % 64 != read_idx,
    ensures
        read_action(read_idx, ReadProgress::Checking) == ReadAction::LoadLatest,
        ({
            let (idx1, acquiring) = read_next(read_idx, ReadProgress::Checking, info);
            let (idx2, discarding) = read_next(idx1, acquiring, acquired_info);
            let (idx3, ready) = read_next(idx2, discarding, departed);
            &&& idx1 == read_idx && idx2 == read_idx
            &&& read_action(idx1, acquiring) == ReadAction::AcquireLatest
            &&& read_action(idx2, discarding) == (ReadAction::CountDeparture { idx: read_idx })
            &&& idx3 == (acquired_info / 1024) % 64
            &&& read_action(idx3, ready) is Nothing
        }),
{
}

/// Counting a reader in at the latest buffer is allowed wherever the overflow bit
/// is clear afterwards.
pub proof fn law_when_acquisitions_are_allowed<T>(shared: SharedView<T>)
    ensures
        can_acquire(shared) <==> {
            &&& shared.latest_info < usize::MAX
            &&& (shared.latest_info + 1) % 1024 < 512
        },
{
}

/// A read is allowed wherever the buffers are 2 to 64, both the latest one and the
/// one that is being read exist, and either they are the same or counting in one
/// more reader leaves the overflow bit clear.
pub proof fn law_when_reads_are_allowed<T>(shared: SharedView<T>, read_idx: int)
    ensures
        can_read(shared, read_idx) <==> {
            &&& 2 <= shared.data.len() <= 64
            &&& shared.done.len() == shared.data.len()
            &&& (shared.latest_info / 1024) % 64 < shared.data.len()
            &&& 0 <= read_idx < shared.data.len()
            &&& (shared.latest_info / 1024) % 64 == read_idx || {
                &&& shared.latest_info < usize::MAX
                &&& (shared.latest_info + 1) % 1024 < 512
            }
        },
{
    let acquirable = can_acquire(shared);
    law_when_acquisitions_are_allowed(shared);
    law_latest_is_designated(shared);
    assert(can_read(shared, read_idx) <==> {
        &&& shared.wf()
        &&& 0 <= read_idx < shared.len()
        &&& shared.latest() != read_idx ==> acquirable
    });
}

// Whole buffers

/// A buffer without wait-free readers has two slots, and each wait-free reader
/// costs two more.
pub proof fn law_each_reader_costs_two_buffers(wf_read_concurrency: int)
    ensures
        num_buffers(0) == 2,
        num_buffers(wf_read_concurrency + 1) == num_buffers(wf_read_concurrency) + 2,
        num_buffers(wf_read_concurrency) == 2 * wf_read_concurrency + 2,
{
}

/// What a buffer looks like before anything has happened.
pub proof fn law_initial_state<T>(
    shared: SharedView<T>,
    counts: Seq<RefCount>,
    read_idx: BufferIndex,
)
    ensures
        is_initial(shared, counts, read_idx) <==> {
            &&& 2 <= shared.data.len() <= 64
            &&& shared.done.len() == shared.data.len()
            &&& counts.len() == shared.data.len()
            &&& shared.latest_info == 1
            &&& forall|i: int| 0 <= i < shared.done.len() ==> #[trigger] shared.done[i] == 0
            &&& counts[0] == 0xffff
            &&& forall|i: int| 0 < i < counts.len() ==> #[trigger] counts[i] == 0
            &&& read_idx == 0
        },
{
    let zeros = Seq::new(shared.data.len(), |i: int| 0usize);
    let records = Seq::new(
        shared.data.len(),
        |i: int|
            if i == 0 {
                INFINITE_REFCOUNT
            } else {
                0usize
            },
    );
    if is_initial(shared, counts, read_idx) {
        assert(shared.done == zeros && counts == records);
        assert(records[0] == 0xffff);
    } else {
        if shared.done.len() == shared.data.len() && (forall|i: int|
            0 <= i < shared.done.len() ==> #[trigger] shared.done[i] == 0) {
            assert(shared.done =~= zeros);
        }
        if counts.len() == shared.data.len() && counts[0] == 0xffff && (forall|i: int|
            0 < i < counts.len() ==> #[trigger] counts[i] == 0) {
            assert(counts =~= records);
        }
    }
}

/// A copy has the same amount of buffers, and in each of them a clone of the value
/// and the same departed readers; its shared index is the same.
pub proof fn law_copy_has_every_buffer<T: Clone>(a: SharedView<T>, b: SharedView<T>)
    requires
        a.done.len() == a.data.len(),
    ensures
        shared_cloned(a, b) <==> {
            &&& b.data.len() == a.data.len()
            &&& b.done.len() == a.done.len()
            &&& forall|i: int|
                0 <= i < a.data.len() ==> call_ensures(
                    T::clone,
                    (&a.data[i],),
                    #[trigger] b.data[i],
                )
            &&& forall|i: int| 0 <= i < a.done.len() ==> #[trigger] b.done[i] == a.done[i]
            &&& b.latest_info == a.latest_info
        },
{
    if b.done.len() == a.done.len() && (forall|i: int|
        0 <= i < a.done.len() ==> #[trigger] b.done[i] == a.done[i]) {
        assert(b.done =~= a.done);
    }
    if shared_cloned(a, b) {
        assert forall|i: int| 0 <= i < a.data.len() implies call_ensures(
            T::clone,
            (&a.data[i],),
            #[trigger] b.data[i],
        ) by {
            assert(strictly_cloned(a.data[i], b.data[i]));
        }
    }
}

/// A copy can be used wherever the buffer that it was made from can: what can be
/// written to or read from stays so, the same buffers are free, and a write goes to
/// the same one.
pub proof fn law_copy_is_usable<T: Clone>(
    a: SharedView<T>,
    b: SharedView<T>,
    counts: Seq<RefCount>,
    read_idx: int,
)
    requires
        shared_cloned(a, b),
    ensures
        a.wf() ==> b.wf(),
        can_write(a, counts) ==> can_write(b, counts),
        can_read(a, read_idx) ==> can_read(b, read_idx),
        can_acquire(a) <==> can_acquire(b),
        any_free(counts, a.done) <==> any_free(counts, b.done),
        write_target(counts, a.done) == write_target(counts, b.done),
        a.wf() ==> call_ensures(T::clone, (&a.latest_value(),), b.latest_value()),
{
    if a.wf() {
        assert(strictly_cloned(a.data[a.latest()], b.data[a.latest()]));
    }
}

/// Shared states are compared buffer by buffer, as far as both have buffers, and by
/// their shared indices.
pub proof fn law_comparison_of_shared_states<T: Clone + PartialEq + Send>(
    a: SPMCBufferSharedState<T>,
    b: SPMCBufferSharedState<T>,
)
    ensures
        same_counters(a@, b@) <==> {
            &&& a.latest_info == b.latest_info
            &&& forall|i: int|
                0 <= i < a.buffers@.len() && i < b.buffers@.len() ==> (
                #[trigger] a.buffers@[i]).done_readers == b.buffers@[i].done_readers
        },
        same_data(a@, b@) <==> forall|i: int|
            0 <= i < a.buffers@.len() && i < b.buffers@.len() ==> (
            #[trigger] a.buffers@[i]).data.eq_spec(&b.buffers@[i].data),
{
    law_view_shows_the_fields(a);
    law_view_shows_the_fields(b);
}

/// Comparing values comes down to their own comparison.
pub proof fn law_comparison_of_values<T: PartialEq>(
    a: SharedView<T>,
    b: SharedView<T>,
    x: T,
    y: T,
    res: bool,
)
    ensures
        may_compare(x, y, res) <==> call_ensures(T::eq, (&x, &y), res),
        may_have_same_data(a, b) <==> forall|i: int|
            0 <= i < a.data.len() && i < b.data.len() ==> call_ensures(
                T::eq,
                (&#[trigger] a.data[i], &b.data[i]),
                true,
            ),
        may_have_other_data(a, b) <==> exists|i: int|
            0 <= i < a.data.len() && i < b.data.len() && call_ensures(
                T::eq,
                (&#[trigger] a.data[i], &b.data[i]),
                false,
            ),
{
}

/// Two buffers with the same amount of slots, equal values and equal departed
/// readers in each of them, the same shared index, the same records and the same
/// read buffer are equal, wherever they come from.
pub proof fn law_buffers_with_equal_parts_are_equal<T: Clone + PartialEq + Send>(
    a: SPMCBuffer<T>,
    b: SPMCBuffer<T>,
)
    requires
        a.shared.buffers@.len() == b.shared.buffers@.len(),
        forall|i: int|
            0 <= i < a.shared.buffers@.len() ==> {
                &&& (#[trigger] a.shared.buffers@[i]).data.eq_spec(&b.shared.buffers@[i].data)
                &&& a.shared.buffers@[i].done_readers == b.shared.buffers@[i].done_readers
            },
        a.shared.latest_info == b.shared.latest_info,
        a.input.reader_counts@ == b.input.reader_counts@,
        a.output.read_idx == b.output.read_idx,
    ensures
        a.eq_spec(&b),
{
    law_view_shows_the_fields(a.shared);
    law_view_shows_the_fields(b.shared);
}

/// A buffer equals itself, where every value in it equals itself.
pub proof fn law_buffer_equals_itself<T: Clone + PartialEq + Send>(a: SPMCBuffer<T>)
    requires
        forall|i: int|
            0 <= i < a.shared.buffers@.len() ==> (#[trigger] a.shared.buffers@[i]).data.eq_spec(
                &a.shared.buffers@[i].data,
            ),
    ensures
        a.eq_spec(&a),
{
    law_buffers_with_equal_parts_are_equal(a, a);
}

/// Buffers that differ in any part are not equal: in the shared index, in a record,
/// in the read buffer, or in the departed readers or the value of a slot that both
/// have.
pub proof fn law_buffers_with_other_parts_are_not_equal<T: Clone + PartialEq + Send>(
    a: SPMCBuffer<T>,
    b: SPMCBuffer<T>,
    i: int,
)
    requires
        0 <= i < a.shared.buffers@.len(),
        i < b.shared.buffers@.len(),
        a.shared.latest_info != b.shared.latest_info || a.input.reader_counts@
            != b.input.reader_counts@ || a.output.read_idx != b.output.read_idx
            || a.shared.buffers@[i].done_readers != b.shared.buffers@[i].done_readers
            || !a.shared.buffers@[i].data.eq_spec(&b.shared.buffers@[i].data),
    ensures
        !a.eq_spec(&b),
{
    law_view_shows_the_fields(a.shared);
    law_view_shows_the_fields(b.shared);
}

/// Comparing buffers means what comparing their values means.
pub proof fn law_comparison_is_meaningful<T: Clone + PartialEq + Send>()
    ensures
        SPMCBuffer::<T>::obeys_eq_spec() == T::obeys_eq_spec(),
{
}

} // verus!
