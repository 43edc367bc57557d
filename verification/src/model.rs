//! Model of one producer and any amount of consumers at work on one buffer.
//!
//! The atomic actions of the producer and of the consumers interleave in any
//! order. [`System`] is what all of them look like between two actions, and
//! [`Step`] is what may happen next: somebody performs one action and goes on as
//! `write_next` and `read_next` say, starts another write or read, joins, or
//! leaves.
use crate::index::{
    max_readcount, readcount_of, valid_info, BufferIndex, RefCount, INFINITE_REFCOUNT,
};
use crate::input::{
    write_action, write_effect, write_event, write_in_range, write_next, WriteProgress,
};
use crate::output::{read_action, read_effect, read_event, read_next, ReadProgress};
use crate::shared::SharedView;
use vstd::prelude::*;

verus! {

/// A consumer, between two actions.
pub enum Reader {
    /// It reads from buffer `read_idx`, or is busy fetching an update
    Live { read_idx: BufferIndex, progress: ReadProgress },
    /// It has left
    Gone,
}

/// Everybody and everything, between two actions.
pub struct System<T> {
    /// The shared state
    pub shared: SharedView<T>,
    /// The producer's records
    pub counts: Seq<RefCount>,
    /// How far the current write has come
    pub writer: WriteProgress,
    /// The value that the current write is about
    pub value: T,
    /// All consumers there have ever been
    pub readers: Seq<Reader>,
    /// All values that were ever published, in order
    pub history: Seq<T>,
    /// For each buffer, the position in the history of what it was last published with
    pub stamps: Seq<int>,
}

/// What may happen next.
pub enum Step<T> {
    /// The producer starts to write `value`
    WriteStarts { value: T },
    /// The producer performs the next action of its write
    Write,
    /// A consumer starts to read
    ReadStarts { reader: int },
    /// A consumer performs the next action of its read
    Read { reader: int },
    /// A new consumer acquires access to the latest buffer
    Joins,
    /// A consumer drops its read buffer for good
    Leaves { reader: int },
}

impl Reader {
    /// How many times the consumer has been counted in, and not yet out, as a
    /// reader of buffer `i`.
    pub open spec fn refs(self, i: int) -> int {
        match self {
            Reader::Live { read_idx, progress } => {
                let current: int = if read_idx == i {
                    1
                } else {
                    0
                };
                match progress {
                    ReadProgress::Discarding { next } => if next == i {
                        current + 1
                    } else {
                        current
                    },
                    _ => current,
                }
            },
            Reader::Gone => 0,
        }
    }

    /// How many times the consumer has been counted in, and not yet out, in all.
    pub open spec fn weight(self) -> int {
        match self {
            Reader::Live { read_idx, progress: ReadProgress::Discarding { next } } => 2,
            Reader::Live { read_idx, progress } => 1,
            Reader::Gone => 0,
        }
    }

    /// The buffers that the consumer is concerned with are among `len` buffers.
    pub open spec fn in_range(self, len: int) -> bool {
        match self {
            Reader::Live { read_idx, progress: ReadProgress::Discarding { next } } => read_idx < len
                && next < len,
            Reader::Live { read_idx, progress } => read_idx < len,
            Reader::Gone => true,
        }
    }
}

/// How many times `readers` have been counted in, and not yet out, as readers of
/// buffer `i`.
#[verifier::opaque]
pub open spec fn refs(readers: Seq<Reader>, i: int) -> int
    decreases readers.len(),
{
    if readers.len() == 0 {
        0
    } else {
        refs(readers.drop_last(), i) + readers.last().refs(i)
    }
}

/// How many times `readers` have been counted in, and not yet out, in all.
pub open spec fn weight(readers: Seq<Reader>) -> int
    decreases readers.len(),
{
    if readers.len() == 0 {
        0
    } else {
        weight(readers.drop_last()) + readers.last().weight()
    }
}

/// How many of `readers` have not left.
pub open spec fn live(readers: Seq<Reader>) -> int
    decreases readers.len(),
{
    if readers.len() == 0 {
        0
    } else {
        live(readers.drop_last()) + if readers.last() is Live {
            1int
        } else {
            0int
        }
    }
}

impl<T> System<T> {
    /// One producer who does nothing, and one consumer of buffer `read_idx`.
    pub open spec fn start(
        shared: SharedView<T>,
        counts: Seq<RefCount>,
        read_idx: BufferIndex,
    ) -> Self {
        System {
            shared,
            counts,
            writer: WriteProgress::Finished,
            value: shared.latest_value(),
            readers: seq![Reader::Live { read_idx, progress: ReadProgress::Ready }],
            history: seq![shared.latest_value()],
            stamps: Seq::new(shared.data.len(), |i: int| 0int),
        }
    }

    /// The producer has claimed buffer `i`, and has not yet published it.
    pub open spec fn claimed(self, i: int) -> bool {
        match self.writer {
            WriteProgress::Storing { idx } => idx == i,
            WriteProgress::Resetting { idx } => idx == i,
            WriteProgress::Publishing { idx } => idx == i,
            _ => false,
        }
    }

    /// Some consumer may access buffer `i`, now or once it has acquired access to
    /// the latest buffer.
    pub open spec fn visible(self, i: int) -> bool {
        i == self.shared.latest() || refs(self.readers, i) > 0
    }

    /// Buffer `i` holds what was published at position `oldest` of the history, or
    /// something that was published later.
    pub open spec fn holds_publication_from(self, oldest: int, i: int) -> bool {
        &&& oldest <= self.stamps[i] < self.history.len()
        &&& self.shared.data[i] == self.history[self.stamps[i]]
    }

    /// Consumer `r` exists and has not left.
    pub open spec fn is_live(self, r: int) -> bool {
        0 <= r < self.readers.len() && self.readers[r] is Live
    }

    /// `step` can happen next. Nobody acquires access to the latest buffer when
    /// its reader count is at its largest.
    pub open spec fn enabled(self, step: Step<T>) -> bool {
        match step {
            Step::WriteStarts { value } => self.writer is Finished,
            Step::Write => self.writer !is Finished,
            Step::ReadStarts { reader } => self.is_live(reader)
                && self.readers[reader]->progress is Ready,
            Step::Read { reader } => {
                &&& self.is_live(reader)
                &&& self.readers[reader]->progress !is Ready
                &&& self.readers[reader]->progress is Acquiring ==> readcount_of(
                    self.shared.latest_info,
                ) < max_readcount()
            },
            Step::Joins => readcount_of(self.shared.latest_info) < max_readcount(),
            Step::Leaves { reader } => self.is_live(reader)
                && self.readers[reader]->progress is Ready,
        }
    }

    /// What becomes of the system when `step` happens.
    pub open spec fn next(self, step: Step<T>) -> Self {
        match step {
            Step::WriteStarts { value } => System {
                writer: WriteProgress::Scanning { idx: 0 },
                value,
                ..self
            },
            Step::Write => {
                let action = write_action(self.writer);
                let (counts, writer) = write_next(
                    self.counts,
                    self.writer,
                    write_event(self.shared, action),
                );
                let after = System {
                    shared: write_effect(self.shared, action, Some(self.value)),
                    counts,
                    writer,
                    ..self
                };
                match self.writer {
                    WriteProgress::Publishing { idx } => System {
                        history: self.history.push(self.value),
                        stamps: self.stamps.update(idx as int, self.history.len() as int),
                        ..after
                    },
                    _ => after,
                }
            },
            Step::ReadStarts { reader } => System {
                readers: self.readers.update(
                    reader,
                    Reader::Live {
                        read_idx: self.readers[reader]->read_idx,
                        progress: ReadProgress::Checking,
                    },
                ),
                ..self
            },
            Step::Read { reader } => {
                let read_idx = self.readers[reader]->read_idx;
                let progress = self.readers[reader]->progress;
                let action = read_action(read_idx, progress);
                let (next_idx, next_progress) = read_next(
                    read_idx,
                    progress,
                    read_event(self.shared, action),
                );
                System {
                    shared: read_effect(self.shared, action),
                    readers: self.readers.update(
                        reader,
                        Reader::Live { read_idx: next_idx, progress: next_progress },
                    ),
                    ..self
                }
            },
            Step::Joins => System {
                shared: self.shared.acquired(),
                readers: self.readers.push(
                    Reader::Live {
                        read_idx: self.shared.latest() as usize,
                        progress: ReadProgress::Ready,
                    },
                ),
                ..self
            },
            Step::Leaves { reader } => System {
                shared: self.shared.departed(self.readers[reader]->read_idx as int),
                readers: self.readers.update(reader, Reader::Gone),
                ..self
            },
        }
    }

    /// `steps` can happen one after the other.
    pub open spec fn can_run(self, steps: Seq<Step<T>>) -> bool
        decreases steps.len(),
    {
        steps.len() > 0 ==> {
            &&& self.can_run(steps.drop_last())
            &&& self.run(steps.drop_last()).enabled(steps.last())
        }
    }

    /// What becomes of the system when `steps` happen one after the other.
    pub open spec fn run(self, steps: Seq<Step<T>>) -> Self
        decreases steps.len(),
    {
        if steps.len() == 0 {
            self
        } else {
            self.run(steps.drop_last()).next(steps.last())
        }
    }

    /// There is a record, an amount of departed readers and a stamp for every
    /// buffer, and everybody is concerned with existing buffers only.
    pub open spec fn ranges(self) -> bool {
        &&& self.shared.wf()
        &&& valid_info(self.shared.latest_info)
        &&& self.counts.len() == self.shared.len()
        &&& self.stamps.len() == self.shared.len()
        &&& write_in_range(self.writer, self.shared.len())
        &&& forall|r: int|
            0 <= r < self.readers.len() ==> (#[trigger] self.readers[r]).in_range(
                self.shared.len(),
            )
    }

    /// The reference counts are right: whoever was counted in as a reader of a
    /// buffer and was not counted out holds the buffer.
    pub open spec fn counts_readers(self) -> bool {
        &&& self.counts[self.shared.latest()] == INFINITE_REFCOUNT
        &&& self.shared.done[self.shared.latest()] + refs(self.readers, self.shared.latest())
            == readcount_of(self.shared.latest_info)
        &&& forall|i: int|
            0 <= i < self.shared.len() && i != self.shared.latest() && !self.claimed(i)
                ==> #[trigger] self.shared.done[i] + refs(self.readers, i) == self.counts[i]
        &&& forall|i: int|
            0 <= i < self.shared.len() && i != self.shared.latest() ==> #[trigger] self.counts[i]
                <= max_readcount()
    }

    /// The buffer that the producer is busy with is out of everybody's sight.
    pub open spec fn writes_in_private(self) -> bool {
        forall|i: int| self.claimed(i) ==> !#[trigger] self.visible(i)
    }

    /// The buffer that is about to be published holds the value to publish, and
    /// has no departed readers on record.
    pub open spec fn prepares(self) -> bool {
        match self.writer {
            WriteProgress::Resetting { idx } => self.shared.data[idx as int] == self.value,
            WriteProgress::Publishing { idx } => {
                &&& self.shared.data[idx as int] == self.value
                &&& self.shared.done[idx as int] == 0
            },
            _ => true,
        }
    }

    /// A consumer who switches from one buffer to another goes on with what was
    /// not published earlier.
    pub open spec fn goes_forward(self, reader: Reader) -> bool {
        match reader {
            Reader::Live { read_idx, progress: ReadProgress::Discarding { next } } => {
                self.stamps[read_idx as int] <= self.stamps[next as int]
            },
            _ => true,
        }
    }

    /// Every buffer that a consumer may access holds what it was published with,
    /// and the latest buffer is the one that was published last.
    pub open spec fn remembers(self) -> bool {
        &&& self.history.len() > 0
        &&& forall|r: int|
            0 <= r < self.readers.len() ==> self.goes_forward(#[trigger] self.readers[r])
        &&& self.stamps[self.shared.latest()] == self.history.len() - 1
        &&& forall|i: int|
            0 <= i < self.shared.len() && self.visible(i) ==> {
                &&& 0 <= #[trigger] self.stamps[i] < self.history.len()
                &&& self.shared.data[i] == self.history[self.stamps[i]]
            }
    }

    /// What holds between any two actions.
    pub open spec fn inv(self) -> bool {
        &&& self.ranges()
        &&& self.counts_readers()
        &&& self.writes_in_private()
        &&& self.prepares()
        &&& self.remembers()
    }
}

} // verus!
