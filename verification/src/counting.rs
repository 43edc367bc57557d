//! How often the consumers hold the buffers, one by one and in all.
use crate::model::{live, refs, weight, Reader};
use crate::output::ReadProgress;
use vstd::prelude::*;

verus! {

/// Nobody is counted out who was not counted in.
pub proof fn lemma_refs_nonneg(readers: Seq<Reader>, i: int)
    ensures
        refs(readers, i) >= 0,
    decreases readers.len(),
{
    reveal(refs);
    if readers.len() > 0 {
        lemma_refs_nonneg(readers.drop_last(), i);
    }
}

/// No consumer holds a buffer more often than all consumers together do.
pub proof fn lemma_refs_at(readers: Seq<Reader>, r: int, i: int)
    requires
        0 <= r < readers.len(),
    ensures
        0 <= readers[r].refs(i) <= refs(readers, i),
    decreases readers.len(),
{
    reveal(refs);
    let rest = readers.drop_last();
    lemma_refs_nonneg(rest, i);
    if r < rest.len() {
        assert(rest[r] == readers[r]);
        lemma_refs_at(rest, r, i);
    }
}

/// Where all consumers together hold a buffer, one of them does.
pub proof fn lemma_refs_holder(readers: Seq<Reader>, i: int) -> (r: int)
    requires
        refs(readers, i) > 0,
    ensures
        0 <= r < readers.len(),
        readers[r].refs(i) > 0,
    decreases readers.len(),
{
    reveal(refs);
    let rest = readers.drop_last();
    if readers.last().refs(i) > 0 {
        readers.len() - 1
    } else {
        let r = lemma_refs_holder(rest, i);
        assert(rest[r] == readers[r]);
        r
    }
}

/// What one consumer does matters for that consumer only.
pub proof fn lemma_refs_update(readers: Seq<Reader>, r: int, reader: Reader, i: int)
    requires
        0 <= r < readers.len(),
    ensures
        refs(readers.update(r, reader), i) == refs(readers, i) - readers[r].refs(i)
            + reader.refs(i),
    decreases readers.len(),
{
    reveal(refs);
    let rest = readers.drop_last();
    let updated = readers.update(r, reader);
    if r < rest.len() {
        assert(updated.drop_last() =~= rest.update(r, reader));
        lemma_refs_update(rest, r, reader, i);
    } else {
        assert(updated.drop_last() =~= rest);
    }
}

/// A new consumer adds what it holds itself.
pub proof fn lemma_refs_push(readers: Seq<Reader>, reader: Reader, i: int)
    ensures
        refs(readers.push(reader), i) == refs(readers, i) + reader.refs(i),
{
    reveal(refs);
    assert(readers.push(reader).drop_last() =~= readers);
}

/// Sum of `refs(readers, i)` over the first `n` buffers.
pub open spec fn total_refs(readers: Seq<Reader>, n: int) -> int
    decreases n,
{
    if n <= 0 {
        0
    } else {
        total_refs(readers, n - 1) + refs(readers, n - 1)
    }
}

/// Sum of `reader.refs(i)` over the first `n` buffers.
pub open spec fn reader_total(reader: Reader, n: int) -> int
    decreases n,
{
    if n <= 0 {
        0
    } else {
        reader_total(reader, n - 1) + reader.refs(n - 1)
    }
}

/// A consumer holds as many buffers as its weight says.
pub proof fn lemma_reader_total(reader: Reader, n: int)
    requires
        n >= 0,
    ensures
        reader_total(reader, n) <= reader.weight(),
        reader matches Reader::Live { read_idx, progress } ==> {
            let current: int = if read_idx < n {
                1
            } else {
                0
            };
            reader_total(reader, n) == current + match progress {
                ReadProgress::Discarding { next } => if next < n {
                    1int
                } else {
                    0int
                },
                _ => 0int,
            }
        },
        reader is Gone ==> reader_total(reader, n) == 0,
    decreases n,
{
    if n > 0 {
        lemma_reader_total(reader, n - 1);
    }
}

pub proof fn lemma_total_push(readers: Seq<Reader>, n: int)
    requires
        readers.len() > 0,
        n >= 0,
    ensures
        total_refs(readers, n) == total_refs(readers.drop_last(), n) + reader_total(
            readers.last(),
            n,
        ),
    decreases n,
{
    reveal(refs);
    if n > 0 {
        lemma_total_push(readers, n - 1);
    }
}

/// The consumers together hold at most as many buffers as their weight says.
pub proof fn lemma_total_bounded(readers: Seq<Reader>, n: int)
    requires
        n >= 0,
    ensures
        total_refs(readers, n) <= weight(readers),
    decreases readers.len(),
{
    if readers.len() == 0 {
        lemma_total_of_nobody(readers, n);
    } else {
        lemma_total_push(readers, n);
        lemma_reader_total(readers.last(), n);
        lemma_total_bounded(readers.drop_last(), n);
    }
}

pub proof fn lemma_total_of_nobody(readers: Seq<Reader>, n: int)
    requires
        readers.len() == 0,
    ensures
        total_refs(readers, n) == 0,
    decreases n,
{
    reveal(refs);
    if n > 0 {
        lemma_total_of_nobody(readers, n - 1);
    }
}

/// Where every buffer but one is held, the consumers hold all buffers but one.
pub proof fn lemma_total_when_held(readers: Seq<Reader>, n: int, spare: int)
    requires
        n >= 0,
        forall|i: int| 0 <= i < n && i != spare ==> #[trigger] refs(readers, i) > 0,
    ensures
        total_refs(readers, n) >= n - if 0 <= spare < n {
            1int
        } else {
            0int
        },
    decreases n,
{
    if n > 0 {
        lemma_total_when_held(readers, n - 1, spare);
        lemma_refs_nonneg(readers, n - 1);
    }
}

pub proof fn lemma_weight_bounds(readers: Seq<Reader>)
    ensures
        0 <= live(readers) <= weight(readers) <= 2 * live(readers),
    decreases readers.len(),
{
    if readers.len() > 0 {
        lemma_weight_bounds(readers.drop_last());
    }
}

} // verus!
