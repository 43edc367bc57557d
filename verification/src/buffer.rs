//! The SPMC buffer as a whole.
use crate::index::{
    readcount_of, valid_info, BufferIndex, RefCount, INFINITE_REFCOUNT, MAX_CONCURRENT_READERS,
};
use crate::input::SPMCBufferInput;
use crate::output::SPMCBufferOutput;
use crate::shared::{
    may_have_other_data, may_have_same_data, same_counters, same_data, shared_cloned, Buffer,
    SPMCBufferSharedState, SharedView,
};
use vstd::prelude::*;
use vstd::std_specs::cmp::PartialEqSpec;

verus! {

/// A single-producer multiple-consumer buffer, useful for data sharing. More
/// general variant of triple buffering for multiple consumers.
///
/// Triple buffering is an extremely efficient synchronization protocol when
/// a producer thread wants to constantly update a value that is visible by a
/// single consumer thread. However, it is not safe to use in the presence of
/// multiple consumers, because a consumer thread can no longer assume that it
/// is the only thread having access to the read buffer and discard said read
/// buffer at will.
///
/// Reference counting techniques can be used to build a variant of triple
/// buffering which works for multiple consumers, remains provably wait-free
/// if one uses two buffers per consumer, and degrades gracefully when a smaller
/// amount of buffers is used as long as consumers frequently fetch updates from
/// the producer.
#[derive(Debug)]
pub struct SPMCBuffer<T: Clone + PartialEq + Send> {
    /// State that the input and the outputs operate on
    pub shared: SPMCBufferSharedState<T>,
    /// Input object used by the producer to send updates
    pub input: SPMCBufferInput,
    /// Clonable output object, used by consumers to read the current value
    pub output: SPMCBufferOutput,
}

/// Amount of buffers for a given wait-free read concurrency.
pub open spec fn num_buffers(wf_read_concurrency: int) -> int {
    2 * (1 + wf_read_concurrency)
}

/// Nothing has happened yet: buffer 0 is the latest one and has one reader, who
/// reads from it, and every other buffer is free.
pub open spec fn is_initial<T>(
    shared: SharedView<T>,
    counts: Seq<RefCount>,
    read_idx: BufferIndex,
) -> bool {
    &&& shared.wf()
    &&& shared.latest_info == 1
    &&& shared.done == Seq::new(shared.data.len(), |i: int| 0usize)
    &&& counts == Seq::new(
        shared.data.len(),
        |i: int|
            if i == 0 {
                INFINITE_REFCOUNT
            } else {
                0usize
            },
    )
    &&& read_idx == 0
}

impl<T: Clone + PartialEq + Send> SPMCBuffer<T> {
    /// Construct an SPMC buffer allowing for wait-free writes under up to N
    /// concurrent readouts to distinct buffer versions
    pub fn new(wf_read_concurrency: usize, initial: T) -> (buf: Self)
        requires
            wf_read_concurrency <= MAX_CONCURRENT_READERS,
        ensures
            buf.shared.buffers@.len() == 2 * (1 + wf_read_concurrency),
            forall|i: int|
                0 <= i < buf.shared.buffers@.len() ==> {
                    &&& cloned(initial, (#[trigger] buf.shared.buffers@[i]).data)
                    &&& buf.shared.buffers@[i].done_readers == 0
                },
            buf.shared.latest_info == 1,
            buf.input.reader_counts@.len() == buf.shared.buffers@.len(),
            buf.input.reader_counts@[0] == 0xffff,
            forall|i: int|
                0 < i < buf.input.reader_counts@.len() ==> buf.input.reader_counts@[i] == 0,
            buf.output.read_idx == 0,
            buf.shared@.len() == num_buffers(wf_read_concurrency as int),
            is_initial(buf.shared@, buf.input@, buf.output.read_idx),
            forall|i: int|
                0 <= i < buf.shared@.len() ==> cloned(initial, #[trigger] buf.shared@.data[i]),
            buf.shared@.latest() == 0,
            readcount_of(buf.shared@.latest_info) == 1,
            valid_info(buf.shared@.latest_info),
    {
        // Turn wait-free read concurrency into an actual buffer count
        let num_buffers: usize = 2 * (1 + wf_read_concurrency);

        // Create the shared state. Buffer 0 is initially considered the latest,
        // and has one reader accessing it (corresponding to a refcount of 1).
        let first = Buffer { data: initial, done_readers: 0 };
        let buffers = vec![first; num_buffers];
        proof {
            assert forall|i: int| 0 <= i < buffers@.len() implies {
                &&& cloned(initial, (#[trigger] buffers@[i]).data)
                &&& buffers@[i].done_readers == 0
            } by {
                assert(cloned(first, buffers@[i]));
            }
        }
        let shared = SPMCBufferSharedState { buffers, latest_info: 1 };

        // Mark the latest buffer with an "infinite" reference count, to forbid
        // selecting it as a write buffer (it's reader-visible!)
        let mut reader_counts: Vec<usize> = vec![0; num_buffers];
        reader_counts[0] = INFINITE_REFCOUNT;
        proof {
            assert(shared@.done =~= Seq::new(shared@.data.len(), |i: int| 0usize));
            assert(reader_counts@ =~= Seq::new(
                shared@.data.len(),
                |i: int|
                    if i == 0 {
                        INFINITE_REFCOUNT
                    } else {
                        0usize
                    },
            ));
        }
        SPMCBuffer {
            shared,
            input: SPMCBufferInput { reader_counts },
            output: SPMCBufferOutput { read_idx: 0 },
        }
    }

    /// Extract input and output of the SPMC buffer, and the state that they share
    pub fn split(self) -> (res: (SPMCBufferSharedState<T>, SPMCBufferInput, SPMCBufferOutput))
        ensures
            res == (self.shared, self.input, self.output),
    {
        (self.shared, self.input, self.output)
    }
}

impl<T: Clone + PartialEq + Send> Clone for SPMCBuffer<T> {
    fn clone(&self) -> (res: Self)
        ensures
            res.shared.buffers@.len() == self.shared.buffers@.len(),
            forall|i: int|
                0 <= i < self.shared.buffers@.len() ==> {
                    &&& call_ensures(
                        T::clone,
                        (&self.shared.buffers@[i].data,),
                        (#[trigger] res.shared.buffers@[i]).data,
                    )
                    &&& res.shared.buffers@[i].done_readers
                        == self.shared.buffers@[i].done_readers
                },
            res.shared.latest_info == self.shared.latest_info,
            res.input.reader_counts@ == self.input.reader_counts@,
            shared_cloned(self.shared@, res.shared@),
            res.input@ == self.input@,
            res.output.read_idx == self.output.read_idx,
    {
        let shared = self.shared.clone();
        let reader_counts = self.input.reader_counts.clone();
        SPMCBuffer {
            shared,
            input: SPMCBufferInput { reader_counts },
            output: SPMCBufferOutput { read_idx: self.output.read_idx },
        }
    }
}

impl<T: Clone + PartialEq + Send> PartialEq for SPMCBuffer<T> {
    fn eq(&self, other: &Self) -> (res: bool)
        ensures
            res ==> {
                &&& self.shared.latest_info == other.shared.latest_info
                &&& self.input.reader_counts@ == other.input.reader_counts@
                &&& self.output.read_idx == other.output.read_idx
            },
            res ==> forall|i: int|
                0 <= i < self.shared.buffers@.len() && i < other.shared.buffers@.len() ==> {
                    &&& (#[trigger] self.shared.buffers@[i]).done_readers
                        == other.shared.buffers@[i].done_readers
                    &&& call_ensures(
                        T::eq,
                        (&self.shared.buffers@[i].data, &other.shared.buffers@[i].data),
                        true,
                    )
                },
            !res ==> {
                ||| self.shared.latest_info != other.shared.latest_info
                ||| self.input.reader_counts@ != other.input.reader_counts@
                ||| self.output.read_idx != other.output.read_idx
                ||| exists|i: int|
                    0 <= i < self.shared.buffers@.len() && i < other.shared.buffers@.len() && {
                        ||| (#[trigger] self.shared.buffers@[i]).done_readers
                            != other.shared.buffers@[i].done_readers
                        ||| call_ensures(
                            T::eq,
                            (&self.shared.buffers@[i].data, &other.shared.buffers@[i].data),
                            false,
                        )
                    }
            },
            T::obeys_eq_spec() ==> res == {
                &&& self.shared.latest_info == other.shared.latest_info
                &&& self.input.reader_counts@ == other.input.reader_counts@
                &&& self.output.read_idx == other.output.read_idx
                &&& forall|i: int|
                    0 <= i < self.shared.buffers@.len() && i < other.shared.buffers@.len() ==> {
                        &&& (#[trigger] self.shared.buffers@[i]).done_readers
                            == other.shared.buffers@[i].done_readers
                        &&& self.shared.buffers@[i].data.eq_spec(&other.shared.buffers@[i].data)
                    }
            },
            res ==> {
                &&& same_counters(self.shared@, other.shared@)
                &&& may_have_same_data(self.shared@, other.shared@)
                &&& self.input@ == other.input@
                &&& self.output.read_idx == other.output.read_idx
            },
            !res ==> {
                ||| !same_counters(self.shared@, other.shared@)
                ||| may_have_other_data(self.shared@, other.shared@)
                ||| self.input@ != other.input@
                ||| self.output.read_idx != other.output.read_idx
            },
    {
        let shared_states_equal = self.shared.eq(&other.shared);
        let reader_counts_equal = self.input.reader_counts == other.input.reader_counts;
        proof {
            if reader_counts_equal {
                assert forall|i: int| 0 <= i < self.input@.len() implies self.input@[i]
                    == other.input@[i] by {
                    assert(self.input.reader_counts[i].eq_spec(&other.input.reader_counts[i]));
                }
                assert(self.input@ =~= other.input@);
            }
        }
        shared_states_equal && reader_counts_equal && self.output.read_idx
            == other.output.read_idx
    }
}

impl<T: Clone + PartialEq + Send> vstd::std_specs::cmp::PartialEqSpecImpl for SPMCBuffer<T> {
    open spec fn obeys_eq_spec() -> bool {
        T::obeys_eq_spec()
    }

    open spec fn eq_spec(&self, other: &Self) -> bool {
        &&& same_counters(self.shared@, other.shared@)
        &&& same_data(self.shared@, other.shared@)
        &&& self.input@ == other.input@
        &&& self.output.read_idx == other.output.read_idx
    }
}

} // verus!
