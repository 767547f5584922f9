//! The mathematical model of splitting: how a byte sequence is carved into
//! bounded-size plaintext chunks, and how those chunks concatenate back.

use vstd::prelude::*;

verus! {

/// The plaintext chunks of `data` under a positive chunk limit: slices of
/// exactly `limit` bytes, except the last, which holds whatever remains.
/// Empty data still yields one (empty) chunk.
pub open spec fn plain_chunks(data: Seq<u8>, limit: nat) -> Seq<Seq<u8>>
    recommends
        limit > 0,
    decreases data.len(),
    when limit > 0
{
    if data.len() <= limit {
        seq![data]
    } else {
        seq![data.subrange(0, limit as int)] + plain_chunks(
            data.subrange(limit as int, data.len() as int),
            limit,
        )
    }
}

/// How many chunks a split of `size` bytes produces: one per full `limit`
/// bytes, one for the remainder, and one chunk even when `size` is zero.
pub open spec fn chunk_count(size: nat, limit: nat) -> nat
    recommends
        limit > 0,
    decreases size,
    when limit > 0
{
    if size <= limit {
        1
    } else {
        1 + chunk_count((size - limit) as nat, limit)
    }
}

/// The concatenation of a sequence of byte sequences, in order.
pub open spec fn concat_all(chunks: Seq<Seq<u8>>) -> Seq<u8>
    decreases chunks.len(),
{
    if chunks.len() == 0 {
        Seq::empty()
    } else {
        chunks[0] + concat_all(chunks.drop_first())
    }
}

/// The total length of a sequence of byte sequences.
pub open spec fn sum_lens(chunks: Seq<Seq<u8>>) -> nat
    decreases chunks.len(),
{
    if chunks.len() == 0 {
        0
    } else {
        chunks[0].len() + sum_lens(chunks.drop_first())
    }
}

/// Concatenating is additive: appending one more chunk appends its bytes.
pub proof fn lemma_concat_all_push(chunks: Seq<Seq<u8>>, tail: Seq<u8>)
    ensures
        concat_all(chunks.push(tail)) == concat_all(chunks) + tail,
    decreases chunks.len(),
{
    if chunks.len() == 0 {
        assert(chunks.push(tail).drop_first() =~= Seq::<Seq<u8>>::empty());
        assert(concat_all(chunks.push(tail)) == tail + concat_all(Seq::<Seq<u8>>::empty()));
        assert(tail + Seq::<u8>::empty() =~= tail);
        assert(concat_all(chunks) + tail =~= tail);
    } else {
        assert(chunks.push(tail).drop_first() =~= chunks.drop_first().push(tail));
        lemma_concat_all_push(chunks.drop_first(), tail);
        assert(concat_all(chunks.push(tail)) == chunks[0] + (concat_all(chunks.drop_first())
            + tail));
        assert(chunks[0] + (concat_all(chunks.drop_first()) + tail) =~= (chunks[0] + concat_all(
            chunks.drop_first(),
        )) + tail);
    }
}

/// The total length of the chunks is the length of their concatenation.
pub proof fn lemma_sum_lens_concat(chunks: Seq<Seq<u8>>)
    ensures
        sum_lens(chunks) == concat_all(chunks).len(),
    decreases chunks.len(),
{
    if chunks.len() > 0 {
        lemma_sum_lens_concat(chunks.drop_first());
    }
}

/// Chunks concatenate back to the data they were carved from.
pub proof fn lemma_plain_chunks_concat(data: Seq<u8>, limit: nat)
    requires
        limit > 0,
    ensures
        concat_all(plain_chunks(data, limit)) == data,
    decreases data.len(),
{
    if data.len() <= limit {
        assert(plain_chunks(data, limit)[0] == data);
        assert(plain_chunks(data, limit).drop_first() =~= Seq::<Seq<u8>>::empty());
        assert(concat_all(plain_chunks(data, limit)) == data + concat_all(
            Seq::<Seq<u8>>::empty(),
        ));
        assert(data + Seq::<u8>::empty() =~= data);
    } else {
        let rest = data.subrange(limit as int, data.len() as int);
        lemma_plain_chunks_concat(rest, limit);
        assert(plain_chunks(data, limit).drop_first() =~= plain_chunks(rest, limit));
        assert(concat_all(plain_chunks(data, limit)) =~= data.subrange(0, limit as int)
            + rest);
        assert(data.subrange(0, limit as int) + rest =~= data);
    }
}

/// The chunks of `data` number exactly `chunk_count` of its length.
pub proof fn lemma_plain_chunks_count(data: Seq<u8>, limit: nat)
    requires
        limit > 0,
    ensures
        plain_chunks(data, limit).len() == chunk_count(data.len(), limit),
    decreases data.len(),
{
    if data.len() > limit {
        lemma_plain_chunks_count(data.subrange(limit as int, data.len() as int), limit);
    }
}

/// Splitting non-empty data never yields more chunks than it has bytes.
pub proof fn lemma_plain_chunks_len_bound(data: Seq<u8>, limit: nat)
    requires
        limit > 0,
        data.len() > 0,
    ensures
        plain_chunks(data, limit).len() <= data.len(),
    decreases data.len(),
{
    if data.len() > limit {
        lemma_plain_chunks_len_bound(data.subrange(limit as int, data.len() as int), limit);
    }
}

} // verus!
