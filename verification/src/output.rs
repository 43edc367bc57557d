//! Consumer interface to SPMC buffers.
//!
//! A read is a sequence of atomic actions on the shared state. `ReadProgress`
//! tells how far a read has come, and thereby which action comes next. Whoever
//! holds the shared state performs the action and hands back what it returned,
//! with which [`SPMCBufferOutput::advance`] decides how to go on.
use crate::index::{
    decode_index, max_readcount, overflow_of, readcount_of, slot_of, valid_info, BufferIndex,
    SharedIndex, MAX_BUFFERS, SHARED_INDEX_MASK, SHARED_INDEX_MULTIPLIER,
};
use crate::shared::{law_view_shows_the_fields, SPMCBufferSharedState, SharedView};
use vstd::prelude::*;

verus! {

/// Consumer interface to SPMC buffers
///
/// A consumer of data can use this struct to access the latest published update
/// from the producer whenever it likes. Readout is nonblocking: it takes at most
/// three atomic actions, whatever the producer and the other consumers do.
#[derive(Debug)]
pub struct SPMCBufferOutput {
    /// Index of the buffer which the consumer is currently reading from
    pub read_idx: BufferIndex,
}

/// How far a read has come.
#[derive(Debug, Clone, Copy, PartialEq, Eq, Structural)]
pub enum ReadProgress {
    /// About to check if the producer has submitted an update
    Checking,
    /// About to acquire access to the latest buffer
    Acquiring,
    /// About to drop the current read buffer and go with buffer `next`
    Discarding { next: BufferIndex },
    /// The read buffer can be accessed
    Ready,
}

/// An atomic action of a consumer on the shared state.
#[derive(Debug, Clone, Copy, PartialEq, Eq, Structural)]
pub enum ReadAction {
    /// Return the shared index
    LoadLatest,
    /// Count one more reader of the latest buffer, and return the shared index as
    /// it was before
    AcquireLatest,
    /// Count one more reader who is done with buffer `idx`
    CountDeparture { idx: BufferIndex },
    /// Do nothing
    Nothing,
}

/// The action that a read through buffer `read_idx` performs next.
pub open spec fn read_action(read_idx: BufferIndex, progress: ReadProgress) -> ReadAction {
    match progress {
        ReadProgress::Checking => ReadAction::LoadLatest,
        ReadProgress::Acquiring => ReadAction::AcquireLatest,
        ReadProgress::Discarding { next } => ReadAction::CountDeparture { idx: read_idx },
        ReadProgress::Ready => ReadAction::Nothing,
    }
}

/// What an action of a consumer does to the shared state.
pub open spec fn read_effect<T>(shared: SharedView<T>, action: ReadAction) -> SharedView<T> {
    match action {
        ReadAction::LoadLatest => shared,
        ReadAction::AcquireLatest => shared.acquired(),
        ReadAction::CountDeparture { idx } => shared.departed(idx as int),
        ReadAction::Nothing => shared,
    }
}

/// What an action of a consumer returns.
pub open spec fn read_event<T>(shared: SharedView<T>, action: ReadAction) -> usize {
    match action {
        ReadAction::LoadLatest => shared.latest_info,
        ReadAction::AcquireLatest => shared.latest_info,
        _ => 0,
    }
}

/// How a read goes on once its action has returned `event`: what becomes of the
/// read buffer and of the progress.
pub open spec fn read_next(
    read_idx: BufferIndex,
    progress: ReadProgress,
    event: usize,
) -> (BufferIndex, ReadProgress) {
    match progress {
        ReadProgress::Checking => if slot_of(event) != read_idx {
            (read_idx, ReadProgress::Acquiring)
        } else {
            (read_idx, ReadProgress::Ready)
        },
        ReadProgress::Acquiring => (
            read_idx,
            ReadProgress::Discarding { next: slot_of(event) as usize },
        ),
        ReadProgress::Discarding { next } => (next, ReadProgress::Ready),
        ReadProgress::Ready => (read_idx, ReadProgress::Ready),
    }
}

/// A reader of buffer `read_idx` can read: its buffer exists, and if it has an
/// update to fetch, then counting it in does not overflow the reader count.
pub open spec fn can_read<T>(shared: SharedView<T>, read_idx: int) -> bool {
    &&& shared.wf()
    &&& 0 <= read_idx < shared.len()
    &&& shared.latest() != read_idx ==> can_acquire(shared)
}

/// Counting in one more reader of the latest buffer does not overflow the reader
/// count.
pub open spec fn can_acquire<T>(shared: SharedView<T>) -> bool {
    &&& shared.latest_info < usize::MAX
    &&& !overflow_of((shared.latest_info + 1) as usize)
}

impl ReadProgress {
    /// The progress of a read that has not done anything yet.
    pub fn start() -> (progress: Self)
        ensures
            progress == ReadProgress::Checking,
    {
        ReadProgress::Checking
    }
}

impl SPMCBufferOutput {
    /// A consumer who reads from the buffer that `latest_info` designates, and who
    /// has been counted among its readers.
    pub fn attach(latest_info: SharedIndex) -> (output: Self)
        ensures
            output.read_idx == (latest_info / 1024) % 64,
            output.read_idx == slot_of(latest_info),
            output.read_idx < MAX_BUFFERS,
    {
        SPMCBufferOutput { read_idx: decode_index(latest_info) }
    }

    /// Check if the producer has submitted an update, that is, whether `info`
    /// designates another buffer than the one which is being read.
    pub fn update_available(&self, info: SharedIndex) -> (available: bool)
        requires
            self.read_idx < MAX_BUFFERS,
        ensures
            available <==> (info / 1024) % 64 != self.read_idx,
            available == (slot_of(info) != self.read_idx),
    {
        assert(info & 0xfc00 == ((info / 1024) % 64) * 1024) by (bit_vector);
        (info & SHARED_INDEX_MASK) != self.read_idx * SHARED_INDEX_MULTIPLIER
    }

    /// The action that a read performs next.
    pub fn action(&self, progress: ReadProgress) -> (action: ReadAction)
        ensures
            action == read_action(self.read_idx, progress),
            action is Nothing <==> progress is Ready,
    {
        match progress {
            ReadProgress::Checking => ReadAction::LoadLatest,
            ReadProgress::Acquiring => ReadAction::AcquireLatest,
            ReadProgress::Discarding { next } => ReadAction::CountDeparture { idx: self.read_idx },
            ReadProgress::Ready => ReadAction::Nothing,
        }
    }

    /// Go on with a read whose action has returned `event`. The event matters
    /// after `LoadLatest` and `AcquireLatest`.
    pub fn advance(&mut self, progress: ReadProgress, event: usize) -> (next: ReadProgress)
        requires
            old(self).read_idx < MAX_BUFFERS,
        ensures
            (final(self).read_idx, next) == read_next(old(self).read_idx, progress, event),
    {
        match progress {
            ReadProgress::Checking => {
                if self.update_available(event) {
                    ReadProgress::Acquiring
                } else {
                    ReadProgress::Ready
                }
            },
            ReadProgress::Acquiring => ReadProgress::Discarding { next: decode_index(event) },
            ReadProgress::Discarding { next } => {
                self.read_idx = next;
                ReadProgress::Ready
            },
            ReadProgress::Ready => ReadProgress::Ready,
        }
    }

    /// Perform the next action of a read on a shared state that nobody else
    /// accesses meanwhile, and go on.
    pub fn step<T: Clone + PartialEq + Send>(
        &mut self,
        shared: &mut SPMCBufferSharedState<T>,
        progress: ReadProgress,
    ) -> (next: ReadProgress)
        requires
            old(self).read_idx < old(shared)@.len() <= MAX_BUFFERS,
            progress is Acquiring ==> can_acquire(old(shared)@),
        ensures
            (final(self).read_idx, next) == read_next(
                old(self).read_idx,
                progress,
                read_event(old(shared)@, read_action(old(self).read_idx, progress)),
            ),
            final(shared)@ == read_effect(
                old(shared)@,
                read_action(old(self).read_idx, progress),
            ),
    {
        let event = match self.action(progress) {
            ReadAction::LoadLatest => shared.latest_info,
            ReadAction::AcquireLatest => shared.acquire_latest(),
            ReadAction::CountDeparture { idx } => {
                self.discard_read_buffer(shared);
                0
            },
            ReadAction::Nothing => 0,
        };
        self.advance(progress, event)
    }

    /// Access the latest value from the SPMC buffer
    pub fn read<'a, T: Clone + PartialEq + Send>(
        &mut self,
        shared: &'a mut SPMCBufferSharedState<T>,
    ) -> (value: &'a T)
        requires
            can_read(old(shared)@, old(self).read_idx as int),
        ensures
            *value == old(shared).buffers@[(old(shared).latest_info as int / 1024) % 64].data,
            final(self).read_idx == (old(shared).latest_info / 1024) % 64,
            final(shared).buffers@.len() == old(shared).buffers@.len(),
            forall|i: int|
                0 <= i < old(shared).buffers@.len() ==> {
                    &&& (#[trigger] final(shared).buffers@[i]).data == old(shared).buffers@[i].data
                    &&& i != old(self).read_idx || old(self).read_idx == final(self).read_idx
                        ==> final(shared).buffers@[i].done_readers
                        == old(shared).buffers@[i].done_readers
                },
            old(self).read_idx == final(self).read_idx ==> final(shared).latest_info == old(
                shared,
            ).latest_info,
            old(self).read_idx != final(self).read_idx ==> {
                let idx = old(self).read_idx as int;
                &&& final(shared).latest_info == old(shared).latest_info + 1
                &&& final(shared).buffers@[idx].done_readers == if old(
                    shared,
                ).buffers@[idx].done_readers == usize::MAX {
                    0
                } else {
                    old(shared).buffers@[idx].done_readers + 1
                }
            },
            *value == old(shared)@.latest_value(),
            final(self).read_idx == old(shared)@.latest(),
            final(shared)@ == old(shared)@.fetched(old(self).read_idx as int),
            valid_info(old(shared)@.latest_info) ==> {
                &&& final(shared)@.wf()
                &&& valid_info(final(shared)@.latest_info)
            },
    {
        // Check if the producer has submitted an update
        let checked = self.step(shared, ReadProgress::start());

        // If so, acquire access to the latest buffer, and only then drop our
        // current read buffer
        if let ReadProgress::Acquiring = checked {
            let acquired = self.step(shared, checked);
            let _ = self.step(shared, acquired);
        }
        proof {
            law_view_shows_the_fields(*old(shared));
            law_view_shows_the_fields(*shared);
        }
        // Access data from the current (read-only) read buffer
        &shared.buffers[self.read_idx].data
    }

    /// Drop the current read buffer. This allows the producer to write into it,
    /// so the buffer must not be read again through this interface.
    pub fn discard_read_buffer<T: Clone + PartialEq + Send>(
        &self,
        shared: &mut SPMCBufferSharedState<T>,
    )
        requires
            self.read_idx < old(shared)@.len(),
        ensures
            final(shared).buffers@.len() == old(shared).buffers@.len(),
            forall|i: int|
                0 <= i < old(shared).buffers@.len() && i != self.read_idx
                    ==> final(shared).buffers@[i] == old(shared).buffers@[i],
            final(shared).buffers@[self.read_idx as int].data == old(
                shared,
            ).buffers@[self.read_idx as int].data,
            final(shared).buffers@[self.read_idx as int].done_readers == if old(
                shared,
            ).buffers@[self.read_idx as int].done_readers == usize::MAX {
                0
            } else {
                old(shared).buffers@[self.read_idx as int].done_readers + 1
            },
            final(shared).latest_info == old(shared).latest_info,
            final(shared)@ == old(shared)@.departed(self.read_idx as int),
    {
        shared.count_departure(self.read_idx);
    }

    /// Create a new output interface associated with a given SPMC buffer. It
    /// starts with the latest buffer, whose reader count it increments.
    pub fn clone<T: Clone + PartialEq + Send>(
        &self,
        shared: &mut SPMCBufferSharedState<T>,
    ) -> (other: Self)
        ensures
            other.read_idx == (old(shared).latest_info / 1024) % 64,
            final(shared).buffers == old(shared).buffers,
            final(shared).latest_info == if old(shared).latest_info == usize::MAX {
                0
            } else {
                old(shared).latest_info + 1
            },
            other.read_idx == old(shared)@.latest(),
            final(shared)@ == old(shared)@.acquired(),
            valid_info(old(shared)@.latest_info) && readcount_of(old(shared)@.latest_info)
                < max_readcount() ==> {
                &&& valid_info(final(shared)@.latest_info)
                &&& final(shared)@.latest() == old(shared)@.latest()
            },
    {
        let latest_info = shared.acquire_latest();
        SPMCBufferOutput::attach(latest_info)
    }

    /// Leave the SPMC buffer, discarding the read buffer.
    pub fn drop<T: Clone + PartialEq + Send>(self, shared: &mut SPMCBufferSharedState<T>)
        requires
            self.read_idx < old(shared)@.len(),
        ensures
            final(shared).buffers@.len() == old(shared).buffers@.len(),
            forall|i: int|
                0 <= i < old(shared).buffers@.len() && i != self.read_idx
                    ==> final(shared).buffers@[i] == old(shared).buffers@[i],
            final(shared).buffers@[self.read_idx as int].data == old(
                shared,
            ).buffers@[self.read_idx as int].data,
            final(shared).buffers@[self.read_idx as int].done_readers == if old(
                shared,
            ).buffers@[self.read_idx as int].done_readers == usize::MAX {
                0
            } else {
                old(shared).buffers@[self.read_idx as int].done_readers + 1
            },
            final(shared).latest_info == old(shared).latest_info,
            final(shared)@ == old(shared)@.departed(self.read_idx as int),
    {
        self.discard_read_buffer(shared);
    }
}

} // verus!
