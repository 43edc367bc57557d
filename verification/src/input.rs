//! Producer interface to SPMC buffers.
//!
//! A write is a sequence of atomic actions on the shared state. `WriteProgress`
//! tells how far a write has come, and thereby which action comes next. Whoever
//! holds the shared state performs the action and hands back what it returned,
//! with which [`SPMCBufferInput::advance`] decides how to go on.
use crate::index::{
    decode_index, decode_readcount, encode_fresh, fresh_info, overflow_of, readcount_of, slot_of,
    BufferIndex, RefCount, SharedIndex, INFINITE_REFCOUNT, MAX_BUFFERS,
};
use crate::shared::{law_view_shows_the_fields, Buffer, SPMCBufferSharedState, SharedView};
use vstd::prelude::*;

verus! {

/// Producer interface to SPMC buffers
///
/// The producer can use this struct to submit updates to the SPMC buffer
/// whenever it likes. These updates may or may not be nonblocking depending
/// on the buffer size and the readout pattern.
#[derive(Debug)]
pub struct SPMCBufferInput {
    /// Amount of readers who potentially have access to each (unreachable)
    /// buffer. The latest buffer, which is still reachable, is marked with an
    /// "infinite" reference count, to warn that we don't know the true value.
    pub reader_counts: Vec<RefCount>,
}

impl View for SPMCBufferInput {
    type V = Seq<RefCount>;

    open spec fn view(&self) -> Seq<RefCount> {
        self.reader_counts@
    }
}

/// How far a write has come.
#[derive(Debug, Clone, Copy, PartialEq, Eq, Structural)]
pub enum WriteProgress {
    /// Looking for an "old" buffer with no live reader, from `idx` on
    Scanning { idx: BufferIndex },
    /// About to put the new value into buffer `idx`
    Storing { idx: BufferIndex },
    /// About to forget the former readers of buffer `idx`
    Resetting { idx: BufferIndex },
    /// About to make buffer `idx` the latest one
    Publishing { idx: BufferIndex },
    /// Nothing is left to do
    Finished,
}

/// An atomic action of the producer on the shared state.
#[derive(Debug, Clone, Copy, PartialEq, Eq, Structural)]
pub enum WriteAction {
    /// Return the amount of readers who are done with buffer `idx`
    LoadDone { idx: BufferIndex },
    /// Put the new value into buffer `idx`
    StoreValue { idx: BufferIndex },
    /// Set the amount of readers who are done with buffer `idx` to zero
    ResetDone { idx: BufferIndex },
    /// Replace the shared index with `info`, and return the former one
    SwapLatest { info: SharedIndex },
    /// Do nothing
    Nothing,
}

/// The action that a write performs next.
pub open spec fn write_action(progress: WriteProgress) -> WriteAction {
    match progress {
        WriteProgress::Scanning { idx } => WriteAction::LoadDone { idx },
        WriteProgress::Storing { idx } => WriteAction::StoreValue { idx },
        WriteProgress::Resetting { idx } => WriteAction::ResetDone { idx },
        WriteProgress::Publishing { idx } => WriteAction::SwapLatest {
            info: fresh_info(idx as int) as usize,
        },
        WriteProgress::Finished => WriteAction::Nothing,
    }
}

/// What an action of the producer, with `value` to write, does to the shared state.
pub open spec fn write_effect<T>(
    shared: SharedView<T>,
    action: WriteAction,
    value: Option<T>,
) -> SharedView<T> {
    match action {
        WriteAction::LoadDone { idx } => shared,
        WriteAction::StoreValue { idx } => shared.stored(idx as int, value->0),
        WriteAction::ResetDone { idx } => shared.reset(idx as int),
        WriteAction::SwapLatest { info } => SharedView { latest_info: info, ..shared },
        WriteAction::Nothing => shared,
    }
}

/// What an action of the producer returns.
pub open spec fn write_event<T>(shared: SharedView<T>, action: WriteAction) -> usize {
    match action {
        WriteAction::LoadDone { idx } => shared.done[idx as int],
        WriteAction::SwapLatest { info } => shared.latest_info,
        _ => 0,
    }
}

/// The producer's records after it published buffer `write_idx` in the place of
/// what `former_info` designates: the former buffer has as many readers as were
/// counted, the new one has an unknown amount.
pub open spec fn recorded(
    counts: Seq<RefCount>,
    write_idx: int,
    former_info: SharedIndex,
) -> Seq<RefCount> {
    counts.update(slot_of(former_info), readcount_of(former_info) as usize).update(
        write_idx,
        INFINITE_REFCOUNT,
    )
}

/// How a write goes on once its action has returned `event`: what becomes of the
/// producer's records and of the progress.
pub open spec fn write_next(
    counts: Seq<RefCount>,
    progress: WriteProgress,
    event: usize,
) -> (Seq<RefCount>, WriteProgress) {
    match progress {
        WriteProgress::Scanning { idx } => if counts[idx as int] == event {
            (counts, WriteProgress::Storing { idx })
        } else if idx + 1 < counts.len() {
            (counts, WriteProgress::Scanning { idx: (idx + 1) as usize })
        } else {
            (counts, WriteProgress::Scanning { idx: 0 })
        },
        WriteProgress::Storing { idx } => (counts, WriteProgress::Resetting { idx }),
        WriteProgress::Resetting { idx } => (counts, WriteProgress::Publishing { idx }),
        WriteProgress::Publishing { idx } => (
            recorded(counts, idx as int, event),
            WriteProgress::Finished,
        ),
        WriteProgress::Finished => (counts, WriteProgress::Finished),
    }
}

/// The buffer that `progress` is concerned with is one of `len` buffers.
pub open spec fn write_in_range(progress: WriteProgress, len: int) -> bool {
    match progress {
        WriteProgress::Scanning { idx } => idx < len,
        WriteProgress::Storing { idx } => idx < len,
        WriteProgress::Resetting { idx } => idx < len,
        WriteProgress::Publishing { idx } => idx < len,
        WriteProgress::Finished => true,
    }
}

/// Buffer `i` is unreachable, and all its former readers have departed.
pub open spec fn is_free(counts: Seq<RefCount>, done: Seq<RefCount>, i: int) -> bool {
    &&& 0 <= i < counts.len()
    &&& counts[i] == done[i]
}

/// Buffer `i` is free, and no buffer before it is.
pub open spec fn is_first_free(counts: Seq<RefCount>, done: Seq<RefCount>, i: int) -> bool {
    &&& is_free(counts, done, i)
    &&& forall|j: int| 0 <= j < i ==> !is_free(counts, done, j)
}

/// Some buffer is free.
pub open spec fn any_free(counts: Seq<RefCount>, done: Seq<RefCount>) -> bool {
    exists|i: int| is_free(counts, done, i)
}

/// The buffer that the producer writes to: the first free one, if any is free.
pub open spec fn write_target(counts: Seq<RefCount>, done: Seq<RefCount>) -> int {
    choose|i: int| is_first_free(counts, done, i)
}

/// The records cover the buffers, and the reader count has not overflowed.
pub open spec fn can_write<T>(shared: SharedView<T>, counts: Seq<RefCount>) -> bool {
    &&& shared.wf()
    &&& !overflow_of(shared.latest_info)
    &&& counts.len() == shared.len()
}

/// The first free buffer is unique.
pub proof fn lemma_write_target_is(counts: Seq<RefCount>, done: Seq<RefCount>, i: int)
    requires
        is_first_free(counts, done, i),
    ensures
        write_target(counts, done) == i,
        any_free(counts, done),
{
    let t = write_target(counts, done);
    assert(is_first_free(counts, done, t));
    assert(is_free(counts, done, t) && is_free(counts, done, i));
}

/// Where some buffer is free, the write target is the first one that is.
pub proof fn lemma_write_target_exists(counts: Seq<RefCount>, done: Seq<RefCount>)
    requires
        any_free(counts, done),
    ensures
        is_first_free(counts, done, write_target(counts, done)),
{
    let i = choose|i: int| is_free(counts, done, i);
    lemma_first_free_below(counts, done, i);
}

proof fn lemma_first_free_below(counts: Seq<RefCount>, done: Seq<RefCount>, i: int)
    requires
        is_free(counts, done, i),
    ensures
        exists|j: int| is_first_free(counts, done, j),
    decreases i,
{
    if exists|j: int| 0 <= j < i && is_free(counts, done, j) {
        let j = choose|j: int| 0 <= j < i && is_free(counts, done, j);
        lemma_first_free_below(counts, done, j);
    } else {
        assert(is_first_free(counts, done, i));
    }
}

impl WriteProgress {
    /// The progress of a write that has not done anything yet.
    pub fn start() -> (progress: Self)
        ensures
            progress == (WriteProgress::Scanning { idx: 0 }),
    {
        WriteProgress::Scanning { idx: 0 }
    }

    /// The action that the write performs next.
    pub fn action(&self) -> (action: WriteAction)
        requires
            write_in_range(*self, MAX_BUFFERS as int),
        ensures
            action == write_action(*self),
            action is Nothing <==> *self is Finished,
    {
        match *self {
            WriteProgress::Scanning { idx } => WriteAction::LoadDone { idx },
            WriteProgress::Storing { idx } => WriteAction::StoreValue { idx },
            WriteProgress::Resetting { idx } => WriteAction::ResetDone { idx },
            WriteProgress::Publishing { idx } => WriteAction::SwapLatest {
                info: encode_fresh(idx),
            },
            WriteProgress::Finished => WriteAction::Nothing,
        }
    }
}

impl SPMCBufferInput {
    /// Go on with a write whose action has returned `event`. The event matters
    /// after `LoadDone` and `SwapLatest`.
    pub fn advance(&mut self, progress: WriteProgress, event: usize) -> (next: WriteProgress)
        requires
            write_in_range(progress, old(self)@.len() as int),
            progress is Publishing ==> slot_of(event) < old(self)@.len(),
        ensures
            (final(self)@, next) == write_next(old(self)@, progress, event),
            write_in_range(next, final(self)@.len() as int),
    {
        match progress {
            // We want to find a buffer which is unreachable, and whose previous
            // readers have all moved on to more recent data. We identify
            // unreachable buffers by having previously tagged the latest buffer
            // with an infinite reference count.
            WriteProgress::Scanning { idx } => {
                if self.reader_counts[idx] == event {
                    WriteProgress::Storing { idx }
                } else if idx < self.reader_counts.len() - 1 {
                    WriteProgress::Scanning { idx: idx + 1 }
                } else {
                    WriteProgress::Scanning { idx: 0 }
                }
            },
            WriteProgress::Storing { idx } => WriteProgress::Resetting { idx },
            WriteProgress::Resetting { idx } => WriteProgress::Publishing { idx },
            // Write down the former buffer's refcount, and set the latest
            // buffer's refcount to infinity so that we don't accidentally
            // write to it
            WriteProgress::Publishing { idx } => {
                let former_idx = decode_index(event);
                let former_readcount = decode_readcount(event);
                self.reader_counts[former_idx] = former_readcount;
                self.reader_counts[idx] = INFINITE_REFCOUNT;
                WriteProgress::Finished
            },
            WriteProgress::Finished => WriteProgress::Finished,
        }
    }

    /// Perform the next action of a write on a shared state that nobody else
    /// accesses meanwhile, and go on. `value` holds the new value until it is put
    /// into its buffer.
    pub fn step<T: Clone + PartialEq + Send>(
        &mut self,
        shared: &mut SPMCBufferSharedState<T>,
        progress: WriteProgress,
        value: &mut Option<T>,
    ) -> (next: WriteProgress)
        requires
            can_write(old(shared)@, old(self)@),
            write_in_range(progress, old(self)@.len() as int),
            progress is Scanning || progress is Storing ==> *old(value) is Some,
        ensures
            (final(self)@, next) == write_next(
                old(self)@,
                progress,
                write_event(old(shared)@, write_action(progress)),
            ),
            final(shared)@ == write_effect(old(shared)@, write_action(progress), *old(value)),
            progress is Storing ==> *final(value) is None,
            progress !is Storing ==> *final(value) == *old(value),
            can_write(final(shared)@, final(self)@),
            write_in_range(next, final(self)@.len() as int),
            next is Scanning || next is Storing ==> *final(value) is Some,
    {
        let event = match progress.action() {
            WriteAction::LoadDone { idx } => shared.buffers[idx].done_readers,
            WriteAction::StoreValue { idx } => {
                if let Some(new_value) = value.take() {
                    shared.store_value(idx, new_value);
                }
                0
            },
            WriteAction::ResetDone { idx } => {
                shared.reset_done(idx);
                0
            },
            WriteAction::SwapLatest { info } => shared.swap_latest(info),
            WriteAction::Nothing => 0,
        };
        self.advance(progress, event)
    }

    /// Write a new value into the SPMC buffer, if a buffer is free to receive it.
    /// Otherwise nothing changes, and the value is handed back.
    pub fn try_write<T: Clone + PartialEq + Send>(
        &mut self,
        shared: &mut SPMCBufferSharedState<T>,
        value: T,
    ) -> (res: Result<(), T>)
        requires
            can_write(old(shared)@, old(self)@),
        ensures
            res is Ok <==> exists|i: int|
                0 <= i < old(shared).buffers@.len() && #[trigger] old(self).reader_counts@[i]
                    == old(shared).buffers@[i].done_readers,
            res is Ok ==> {
                exists|idx: int|
                    {
                        &&& 0 <= idx < old(shared).buffers@.len()
                        &&& #[trigger] old(self).reader_counts@[idx] == old(
                            shared,
                        ).buffers@[idx].done_readers
                        &&& forall|j: int|
                            0 <= j < idx ==> #[trigger] old(self).reader_counts@[j] != old(
                                shared,
                            ).buffers@[j].done_readers
                        &&& final(shared).buffers@ == old(shared).buffers@.update(
                            idx,
                            (Buffer { data: value, done_readers: 0 }),
                        )
                        &&& final(shared).latest_info == idx * 1024
                        &&& final(self).reader_counts@ == old(self).reader_counts@.update(
                            (old(shared).latest_info / 1024) as int % 64,
                            (old(shared).latest_info % 512) as usize,
                        ).update(idx, 0xffff)
                    }
            },
            res is Err ==> {
                &&& res->Err_0 == value
                &&& final(shared).buffers@ == old(shared).buffers@
                &&& final(shared).latest_info == old(shared).latest_info
                &&& final(self).reader_counts@ == old(self).reader_counts@
            },
            res is Ok <==> any_free(old(self)@, old(shared)@.done),
            res is Ok ==> {
                let idx = write_target(old(self)@, old(shared)@.done);
                &&& is_first_free(old(self)@, old(shared)@.done, idx)
                &&& final(shared)@ == old(shared)@.written(idx, value)
                &&& final(self)@ == recorded(old(self)@, idx, old(shared)@.latest_info)
                &&& final(shared)@.latest_value() == value
            },
            res matches Err(rejected) ==> {
                &&& rejected == value
                &&& final(shared)@ == old(shared)@
                &&& final(self)@ == old(self)@
            },
            can_write(final(shared)@, final(self)@),
    {
        let mut pending: Option<T> = Some(value);
        let mut progress = WriteProgress::start();
        let mut scanned: usize = 0;
        while scanned < shared.buffers.len()
            invariant
                can_write(shared@, self@),
                shared@ == old(shared)@,
                self@ == old(self)@,
                pending == Some(value),
                scanned <= shared@.len(),
                progress == (WriteProgress::Scanning {
                    idx: if scanned < shared@.len() {
                        scanned
                    } else {
                        0
                    },
                }),
                forall|j: int| 0 <= j < scanned ==> !is_free(self@, shared@.done, j),
            decreases shared@.len() - scanned,
        {
            progress = self.step(shared, progress, &mut pending);
            if let WriteProgress::Storing { idx } = progress {
                proof {
                    lemma_write_target_is(self@, shared@.done, idx as int);
                }
                progress = self.step(shared, progress, &mut pending);
                progress = self.step(shared, progress, &mut pending);
                let _ = self.step(shared, progress, &mut pending);
                proof {
                    law_view_shows_the_fields(*old(shared));
                    law_view_shows_the_fields(*shared);
                    assert(is_first_free(old(self)@, old(shared)@.done, idx as int));
                    assert(old(self).reader_counts@[idx as int] == old(
                        shared,
                    ).buffers@[idx as int].done_readers);
                    assert forall|j: int| 0 <= j < idx implies #[trigger] old(
                        self,
                    ).reader_counts@[j] != old(shared).buffers@[j].done_readers by {
                        assert(!is_free(old(self)@, old(shared)@.done, j));
                    }
                    assert(shared.buffers@ =~= old(shared).buffers@.update(
                        idx as int,
                        Buffer { data: value, done_readers: 0 },
                    ));
                }
                return Ok(());
            }
            scanned = scanned + 1;
        }
        // Every buffer was looked at, and the value is still pending
        proof {
            law_view_shows_the_fields(*old(shared));
            law_view_shows_the_fields(*shared);
            assert(shared.buffers@ =~= old(shared).buffers@);
            assert forall|i: int| 0 <= i < old(shared).buffers@.len() implies #[trigger] old(
                self,
            ).reader_counts@[i] != old(shared).buffers@[i].done_readers by {
                assert(!is_free(old(self)@, old(shared)@.done, i));
            }
        }
        match pending {
            Some(rejected) => Err(rejected),
            None => Ok(()),
        }
    }

    /// Write a new value into the SPMC buffer.
    ///
    /// A buffer must be free to receive it: as long as none is, the producer has
    /// to wait for the consumers to drop their old buffers.
    pub fn write<T: Clone + PartialEq + Send>(
        &mut self,
        shared: &mut SPMCBufferSharedState<T>,
        value: T,
    )
        requires
            can_write(old(shared)@, old(self)@),
            any_free(old(self)@, old(shared)@.done),
        ensures
            exists|idx: int|
                {
                    &&& 0 <= idx < old(shared).buffers@.len()
                    &&& #[trigger] old(self).reader_counts@[idx] == old(
                        shared,
                    ).buffers@[idx].done_readers
                    &&& forall|j: int|
                        0 <= j < idx ==> #[trigger] old(self).reader_counts@[j] != old(
                            shared,
                        ).buffers@[j].done_readers
                    &&& final(shared).buffers@ == old(shared).buffers@.update(
                        idx,
                        (Buffer { data: value, done_readers: 0 }),
                    )
                    &&& final(shared).latest_info == idx * 1024
                    &&& final(self).reader_counts@ == old(self).reader_counts@.update(
                        (old(shared).latest_info / 1024) as int % 64,
                        (old(shared).latest_info % 512) as usize,
                    ).update(idx, 0xffff)
                },
            ({
                let idx = write_target(old(self)@, old(shared)@.done);
                &&& is_first_free(old(self)@, old(shared)@.done, idx)
                &&& final(shared)@ == old(shared)@.written(idx, value)
                &&& final(self)@ == recorded(old(self)@, idx, old(shared)@.latest_info)
                &&& final(shared)@.latest_value() == value
            }),
            can_write(final(shared)@, final(self)@),
    {
        let _ = self.try_write(shared, value);
    }
}

} // verus!
