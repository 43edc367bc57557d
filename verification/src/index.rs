//! The shared index: "latest buffer" and "reader count" in one integer.
//!
//! At the start of a readout, a reader must atomically announce that it reads
//! the current buffer and learn which buffer that is. Both facts are therefore
//! packed in a single integer whose low-order bits act as a reference count, so
//! that one `fetch_add` does both:
//!
//! ```text
//!   bit (high-order first):       15 .. 10  9  8 .. 0
//!                                +--------+--+-------+
//!   Contents:                    |BUFFERID|OF|READCNT|
//!                                +--------+--+-------+
//! ```
//!
//! `BUFFERID` is the index of the latest buffer, `READCNT` the amount of readers
//! who have acquired access to it since it was published. `OF` is set when that
//! amount overflows `READCNT`, which takes 512 acquisitions of one publication.
use vstd::prelude::*;

verus! {

/// Position of a buffer in the list of buffers.
pub type BufferIndex = usize;

/// Amount of readers who have, or have had, access to a buffer.
pub type RefCount = usize;

/// Packed index of the latest buffer and amount of readers who acquired it.
pub type SharedIndex = usize;

/// Reference count of the latest buffer in the producer's records. No amount of
/// departed readers ever reaches it, so the producer does not write there.
pub const INFINITE_REFCOUNT: RefCount = 0xffff;

/// Bits of the shared index that hold the reader count.
pub const SHARED_READCOUNT_MASK: SharedIndex = 0b0000_0001_1111_1111;

/// Bit of the shared index that tells that the reader count has overflowed.
pub const SHARED_OVERFLOW_BIT: SharedIndex = 0b0000_0010_0000_0000;

/// Bits of the shared index that hold the index of the latest buffer.
pub const SHARED_INDEX_MASK: SharedIndex = 0b1111_1100_0000_0000;

/// Factor by which a buffer index is shifted in the shared index.
pub const SHARED_INDEX_MULTIPLIER: SharedIndex = 0b0000_0100_0000_0000;

/// Largest amount of buffers that a shared index can address.
pub const MAX_BUFFERS: usize = SHARED_INDEX_MASK / SHARED_INDEX_MULTIPLIER + 1;

/// Largest wait-free read concurrency that fits the implementation limits.
pub const MAX_CONCURRENT_READERS: usize = MAX_BUFFERS / 2 - 1;

/// Largest amount of acquisitions of one publication that the shared index counts.
pub open spec fn max_readcount() -> int {
    511
}

/// Index of the latest buffer, as recorded in `info`.
pub open spec fn slot_of(info: SharedIndex) -> int {
    (info as int / 1024) % 64
}

/// Amount of readers who have acquired the latest buffer, as recorded in `info`.
pub open spec fn readcount_of(info: SharedIndex) -> int {
    info as int % 512
}

/// Whether the reader count recorded in `info` has overflowed.
pub open spec fn overflow_of(info: SharedIndex) -> bool {
    (info as int / 512) % 2 == 1
}

/// The shared index that designates buffer `idx` with no reader yet.
pub open spec fn fresh_info(idx: int) -> int {
    idx * 1024
}

/// Whether `info` is one of the values that the shared index takes as long as
/// its reader count does not overflow: an index on 6 bits, a count on 9 bits,
/// and nothing else.
pub open spec fn valid_info(info: SharedIndex) -> bool {
    &&& info <= 0xffff
    &&& !overflow_of(info)
}

/// The shared index that designates buffer `idx` with no reader yet.
pub fn encode_fresh(idx: BufferIndex) -> (info: SharedIndex)
    requires
        idx < MAX_BUFFERS,
    ensures
        info == idx * 1024,
        info == fresh_info(idx as int),
        slot_of(info) == idx,
        readcount_of(info) == 0,
        valid_info(info),
{
    idx * SHARED_INDEX_MULTIPLIER
}

/// Extract the index of the latest buffer.
pub fn decode_index(info: SharedIndex) -> (idx: BufferIndex)
    ensures
        idx == (info / 1024) % 64,
        idx == slot_of(info),
        idx < MAX_BUFFERS,
{
    assert((info & 0xfc00) / 0x400 == (info / 1024) % 64) by (bit_vector);
    (info & SHARED_INDEX_MASK) / SHARED_INDEX_MULTIPLIER
}

/// Extract the reader count of the latest buffer.
pub fn decode_readcount(info: SharedIndex) -> (count: RefCount)
    ensures
        count == info % 512,
        count == readcount_of(info),
        count <= max_readcount(),
{
    assert(info & 0x1ff == info % 512) by (bit_vector);
    info & SHARED_READCOUNT_MASK
}

/// Tell whether the reader count has overflowed.
pub fn has_overflowed(info: SharedIndex) -> (overflow: bool)
    ensures
        overflow <==> info % 1024 >= 512,
        overflow == overflow_of(info),
{
    assert((info & 0x200 != 0) == ((info / 512) % 2 == 1)) by (bit_vector);
    (info & SHARED_OVERFLOW_BIT) != 0
}

/// A shared index is its buffer index and its reader count: two valid ones that
/// agree on both are equal.
pub proof fn law_index_is_faithful(a: SharedIndex, b: SharedIndex)
    requires
        valid_info(a),
        valid_info(b),
        slot_of(a) == slot_of(b),
        readcount_of(a) == readcount_of(b),
    ensures
        a == b,
{
}

/// Announcing one more reader leaves the buffer index alone and adds one to the
/// reader count, up to the largest count.
pub proof fn law_acquisition_counts_one_reader(info: SharedIndex)
    requires
        valid_info(info),
        readcount_of(info) < max_readcount(),
    ensures
        info + 1 <= 0xffff,
        valid_info((info + 1) as usize),
        slot_of((info + 1) as usize) == slot_of(info),
        readcount_of((info + 1) as usize) == readcount_of(info) + 1,
{
}

/// One acquisition too many sets the overflow bit, and still designates the same
/// buffer.
pub proof fn law_overflow_is_detected(info: SharedIndex)
    requires
        valid_info(info),
        readcount_of(info) == max_readcount(),
    ensures
        info + 1 <= 0xffff,
        overflow_of((info + 1) as usize),
        slot_of((info + 1) as usize) == slot_of(info),
{
}

} // verus!
