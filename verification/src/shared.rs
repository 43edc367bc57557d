//! State shared by the producer and the consumers of a buffer.
use crate::index::{fresh_info, slot_of, BufferIndex, RefCount, SharedIndex, MAX_BUFFERS};
use vstd::pervasive::strictly_cloned;
use vstd::prelude::*;
use vstd::std_specs::cmp::PartialEqSpec;

verus! {

/// One data storage buffer.
#[derive(Debug)]
pub struct Buffer<T: Clone + PartialEq + Send> {
    /// Actual data
    pub data: T,
    /// Amount of readers who are done with this buffer and switched to another
    pub done_readers: RefCount,
}

impl<T: Clone + PartialEq + Send> Clone for Buffer<T> {
    fn clone(&self) -> (res: Self)
        ensures
            strictly_cloned(self.data, res.data),
            res.done_readers == self.done_readers,
    {
        Buffer { data: self.data.clone(), done_readers: self.done_readers }
    }
}

/// Shared state for SPMC buffers
///
/// This struct provides both a set of shared buffers for single-producer
/// multiple-consumer broadcast communication and a way to know which of these
/// buffers contains the most up to date data with reader reference counting.
///
/// The number of buffers N is a design tradeoff: the larger it is, the more
/// robust the primitive is against contention, at the cost of increased memory
/// usage. An SPMC buffer is wait-free for both readers and writers if N is at
/// least twice the amount of data consumers plus two, but it can work correctly
/// in a degraded regime which is wait-free for readers and potentially blocking
/// for writers as long as N >= 2.
#[derive(Debug)]
pub struct SPMCBufferSharedState<T: Clone + PartialEq + Send> {
    /// Data storage buffers
    pub buffers: Vec<Buffer<T>>,
    /// Combination of reader count and latest buffer index
    pub latest_info: SharedIndex,
}

/// Mathematical view of the shared state.
#[verifier::ext_equal]
pub struct SharedView<T> {
    /// Contents of each buffer
    pub data: Seq<T>,
    /// Amount of readers who are done with each buffer
    pub done: Seq<RefCount>,
    /// Packed index of the latest buffer and amount of readers who acquired it
    pub latest_info: SharedIndex,
}

impl<T> SharedView<T> {
    /// Amount of buffers.
    pub open spec fn len(self) -> int {
        self.data.len() as int
    }

    /// Index of the latest buffer.
    pub open spec fn latest(self) -> int {
        slot_of(self.latest_info)
    }

    /// The value that was published last.
    pub open spec fn latest_value(self) -> T {
        self.data[self.latest()]
    }

    /// There are enough buffers, not too many, and the shared index designates
    /// one of them.
    pub open spec fn wf(self) -> bool {
        &&& self.done.len() == self.data.len()
        &&& 2 <= self.len() <= MAX_BUFFERS
        &&& self.latest() < self.len()
    }

    /// The state after one more reader acquired the latest buffer.
    pub open spec fn acquired(self) -> Self {
        SharedView {
            latest_info: if self.latest_info == usize::MAX {
                0
            } else {
                (self.latest_info + 1) as usize
            },
            ..self
        }
    }

    /// The state after one more reader departed from buffer `i`.
    pub open spec fn departed(self, i: int) -> Self {
        SharedView {
            done: self.done.update(
                i,
                if self.done[i] == usize::MAX {
                    0
                } else {
                    (self.done[i] + 1) as usize
                },
            ),
            ..self
        }
    }

    /// The state after `value` was put into buffer `i`.
    pub open spec fn stored(self, i: int, value: T) -> Self {
        SharedView { data: self.data.update(i, value), ..self }
    }

    /// The state after the departed readers of buffer `i` were forgotten.
    pub open spec fn reset(self, i: int) -> Self {
        SharedView { done: self.done.update(i, 0), ..self }
    }

    /// The state after buffer `i` was made the latest one, with no reader yet.
    pub open spec fn published(self, i: int) -> Self {
        SharedView { latest_info: fresh_info(i) as usize, ..self }
    }

    /// The state after `value` was put into buffer `i` and published.
    pub open spec fn written(self, i: int, value: T) -> Self {
        self.stored(i, value).reset(i).published(i)
    }

    /// The state after a reader of buffer `i` has fetched the latest update.
    pub open spec fn fetched(self, i: int) -> Self {
        if self.latest() == i {
            self
        } else {
            self.acquired().departed(i)
        }
    }
}

impl<T: Clone + PartialEq + Send> View for SPMCBufferSharedState<T> {
    type V = SharedView<T>;

    open spec fn view(&self) -> SharedView<T> {
        SharedView {
            data: Seq::new(self.buffers@.len(), |i: int| self.buffers@[i].data),
            done: Seq::new(self.buffers@.len(), |i: int| self.buffers@[i].done_readers),
            latest_info: self.latest_info,
        }
    }
}

/// The view of a shared state shows every buffer in its place: its value, its
/// departed readers, and nothing else but the shared index.
pub proof fn law_view_shows_the_fields<T: Clone + PartialEq + Send>(
    shared: SPMCBufferSharedState<T>,
)
    ensures
        shared@.data.len() == shared.buffers@.len(),
        shared@.done.len() == shared.buffers@.len(),
        forall|i: int|
            #![trigger shared.buffers@[i]]
            #![trigger shared@.data[i]]
            #![trigger shared@.done[i]]
            0 <= i < shared.buffers@.len() ==> {
                &&& shared@.data[i] == shared.buffers@[i].data
                &&& shared@.done[i] == shared.buffers@[i].done_readers
            },
        shared@.latest_info == shared.latest_info,
{
}

/// `b` is what a copy of `a` looks like: every value is what `T::clone` gave for the
/// value of `a`, all else is equal.
pub open spec fn shared_cloned<T: Clone>(a: SharedView<T>, b: SharedView<T>) -> bool {
    &&& b.data.len() == a.data.len()
    &&& forall|i: int| 0 <= i < a.data.len() ==> strictly_cloned(
        a.data[i],
        #[trigger] b.data[i],
    )
    &&& b.done == a.done
    &&& b.latest_info == a.latest_info
}

/// Amount of buffers that two shared states have in common.
pub open spec fn common_len<T>(a: SharedView<T>, b: SharedView<T>) -> int {
    if a.len() <= b.len() {
        a.len()
    } else {
        b.len()
    }
}

/// `a` and `b` have the same shared index and, in every buffer that both have,
/// the same amount of departed readers.
pub open spec fn same_counters<T>(a: SharedView<T>, b: SharedView<T>) -> bool {
    &&& a.latest_info == b.latest_info
    &&& forall|i: int| 0 <= i < common_len(a, b) ==> #[trigger] a.done[i] == b.done[i]
}

/// Comparing `a` with `b` may give `res`.
pub open spec fn may_compare<T: PartialEq>(a: T, b: T, res: bool) -> bool {
    call_ensures(T::eq, (&a, &b), res)
}

/// Comparing the values of `a` and `b` in the buffers that both have may find all
/// of them equal.
pub open spec fn may_have_same_data<T: PartialEq>(a: SharedView<T>, b: SharedView<T>) -> bool {
    forall|i: int|
        0 <= i < common_len(a, b) ==> may_compare(#[trigger] a.data[i], b.data[i], true)
}

/// Comparing the values of `a` and `b` in the buffers that both have may find two
/// that are not equal.
pub open spec fn may_have_other_data<T: PartialEq>(a: SharedView<T>, b: SharedView<T>) -> bool {
    exists|i: int|
        0 <= i < common_len(a, b) && may_compare(#[trigger] a.data[i], b.data[i], false)
}

/// `a` and `b` have equal values in every buffer that both have.
pub open spec fn same_data<T: PartialEq>(a: SharedView<T>, b: SharedView<T>) -> bool {
    forall|i: int| 0 <= i < common_len(a, b) ==> (#[trigger] a.data[i]).eq_spec(&b.data[i])
}

impl<T: Clone + PartialEq + Send> SPMCBufferSharedState<T> {
    /// Copy the shared state.
    pub fn clone(&self) -> (res: Self)
        ensures
            res.buffers@.len() == self.buffers@.len(),
            forall|i: int|
                0 <= i < self.buffers@.len() ==> {
                    &&& call_ensures(
                        T::clone,
                        (&self.buffers@[i].data,),
                        (#[trigger] res.buffers@[i]).data,
                    )
                    &&& res.buffers@[i].done_readers == self.buffers@[i].done_readers
                },
            res.latest_info == self.latest_info,
            shared_cloned(self@, res@),
    {
        let mut buffers: Vec<Buffer<T>> = Vec::new();
        let mut i: usize = 0;
        while i < self.buffers.len()
            invariant
                i <= self.buffers.len(),
                buffers.len() == i,
                forall|j: int|
                    0 <= j < i ==> {
                        &&& strictly_cloned(self.buffers@[j].data, (#[trigger] buffers@[j]).data)
                        &&& buffers@[j].done_readers == self.buffers@[j].done_readers
                    },
            decreases self.buffers.len() - i,
        {
            buffers.push(self.buffers[i].clone());
            i = i + 1;
        }
        let res = SPMCBufferSharedState { buffers, latest_info: self.latest_info };
        assert(res@.done =~= self@.done);
        res
    }

    /// Determine whether two shared states are equal, as far as both have buffers.
    pub fn eq(&self, other: &Self) -> (res: bool)
        ensures
            res ==> self.latest_info == other.latest_info,
            res ==> forall|i: int|
                0 <= i < self.buffers@.len() && i < other.buffers@.len() ==> {
                    &&& (#[trigger] self.buffers@[i]).done_readers == other.buffers@[i].done_readers
                    &&& call_ensures(
                        T::eq,
                        (&self.buffers@[i].data, &other.buffers@[i].data),
                        true,
                    )
                },
            !res ==> self.latest_info != other.latest_info || exists|i: int|
                0 <= i < self.buffers@.len() && i < other.buffers@.len() && {
                    ||| (#[trigger] self.buffers@[i]).done_readers
                        != other.buffers@[i].done_readers
                    ||| call_ensures(
                        T::eq,
                        (&self.buffers@[i].data, &other.buffers@[i].data),
                        false,
                    )
                },
            T::obeys_eq_spec() ==> res == {
                &&& self.latest_info == other.latest_info
                &&& forall|i: int|
                    0 <= i < self.buffers@.len() && i < other.buffers@.len() ==> {
                        &&& (#[trigger] self.buffers@[i]).done_readers
                            == other.buffers@[i].done_readers
                        &&& self.buffers@[i].data.eq_spec(&other.buffers@[i].data)
                    }
            },
            res ==> same_counters(self@, other@) && may_have_same_data(self@, other@),
            !res ==> !same_counters(self@, other@) || may_have_other_data(self@, other@),
            T::obeys_eq_spec() ==> res == (same_counters(self@, other@) && same_data(
                self@,
                other@,
            )),
    {
        let mut i: usize = 0;
        while i < self.buffers.len() && i < other.buffers.len()
            invariant
                i <= self.buffers.len(),
                i <= other.buffers.len(),
                forall|j: int|
                    0 <= j < i ==> {
                        &&& (#[trigger] self.buffers@[j]).done_readers
                            == other.buffers@[j].done_readers
                        &&& may_compare(self.buffers@[j].data, other.buffers@[j].data, true)
                    },
                T::obeys_eq_spec() ==> forall|j: int|
                    0 <= j < i ==> (#[trigger] self.buffers@[j]).data.eq_spec(
                        &other.buffers@[j].data,
                    ),
            decreases self.buffers.len() - i,
        {
            let buf1 = &self.buffers[i];
            let buf2 = &other.buffers[i];
            proof {
                assert(self@.data[i as int] == buf1.data && other@.data[i as int] == buf2.data);
                assert(self@.done[i as int] == buf1.done_readers);
            }
            if !(buf1.data == buf2.data && buf1.done_readers == buf2.done_readers) {
                return false;
            }
            i = i + 1;
        }
        self.latest_info == other.latest_info
    }

    /// Announce one more reader of the latest buffer, and return the shared index
    /// as it was before.
    pub fn acquire_latest(&mut self) -> (info: SharedIndex)
        ensures
            info == old(self).latest_info,
            final(self).buffers == old(self).buffers,
            final(self).latest_info == if info == usize::MAX {
                0
            } else {
                info + 1
            },
            final(self)@ == old(self)@.acquired(),
    {
        let info = self.latest_info;
        self.latest_info = info.wrapping_add(1);
        info
    }

    /// Announce that one more reader is done with buffer `idx`.
    pub fn count_departure(&mut self, idx: BufferIndex)
        requires
            idx < old(self).buffers.len(),
        ensures
            final(self).buffers@.len() == old(self).buffers@.len(),
            forall|i: int|
                0 <= i < old(self).buffers@.len() && i != idx ==> final(self).buffers@[i]
                    == old(self).buffers@[i],
            final(self).buffers@[idx as int].data == old(self).buffers@[idx as int].data,
            final(self).buffers@[idx as int].done_readers == if old(
                self,
            ).buffers@[idx as int].done_readers == usize::MAX {
                0
            } else {
                old(self).buffers@[idx as int].done_readers + 1
            },
            final(self).latest_info == old(self).latest_info,
            final(self)@ == old(self)@.departed(idx as int),
    {
        let done = self.buffers[idx].done_readers;
        self.buffers[idx].done_readers = done.wrapping_add(1);
    }

    /// Put `value` into buffer `idx`.
    pub fn store_value(&mut self, idx: BufferIndex, value: T)
        requires
            idx < old(self).buffers.len(),
        ensures
            final(self).buffers@.len() == old(self).buffers@.len(),
            forall|i: int|
                0 <= i < old(self).buffers@.len() && i != idx ==> final(self).buffers@[i]
                    == old(self).buffers@[i],
            final(self).buffers@[idx as int].data == value,
            final(self).buffers@[idx as int].done_readers == old(
                self,
            ).buffers@[idx as int].done_readers,
            final(self).latest_info == old(self).latest_info,
            final(self)@ == old(self)@.stored(idx as int, value),
    {
        self.buffers[idx].data = value;
    }

    /// Forget the readers who departed from what buffer `idx` held before.
    pub fn reset_done(&mut self, idx: BufferIndex)
        requires
            idx < old(self).buffers.len(),
        ensures
            final(self).buffers@.len() == old(self).buffers@.len(),
            forall|i: int|
                0 <= i < old(self).buffers@.len() && i != idx ==> final(self).buffers@[i]
                    == old(self).buffers@[i],
            final(self).buffers@[idx as int].data == old(self).buffers@[idx as int].data,
            final(self).buffers@[idx as int].done_readers == 0,
            final(self).latest_info == old(self).latest_info,
            final(self)@ == old(self)@.reset(idx as int),
    {
        self.buffers[idx].done_readers = 0;
    }

    /// Replace the shared index, and return the former one.
    pub fn swap_latest(&mut self, info: SharedIndex) -> (former_info: SharedIndex)
        ensures
            former_info == old(self).latest_info,
            final(self).buffers == old(self).buffers,
            final(self).latest_info == info,
            final(self)@ == (SharedView { latest_info: info, ..old(self)@ }),
    {
        let former_info = self.latest_info;
        self.latest_info = info;
        former_info
    }
}

} // verus!
