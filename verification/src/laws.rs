//! The properties this library promises, stated once and proved for all
//! inputs: the split/restore round trip, the chunk-count formula, checksum
//! determinism, and the size invariants of the manifest.

use vstd::prelude::*;
use vstd::arithmetic::div_mod::{lemma_div_by_self, lemma_div_plus_one,
    lemma_fundamental_div_mod_converse, lemma_mod_sub_multiples_vanish, lemma_small_mod};
use crate::checksum::checksum_of;
use crate::chunking::{chunk_count, concat_all, lemma_plain_chunks_concat, lemma_sum_lens_concat,
    plain_chunks, sum_lens};
use crate::gzip::decode_stored;
use crate::manifest::{chunk_matches, ChunkInfo};
use crate::restore::{decoded_seq, restore_ok};
use crate::split::{chunk_entry_ok, split_output_ok, SplitOutput};

verus! {

/// Round-trip identity, model side: stored chunks that decode to the
/// plaintext chunks of `data` restore successfully and concatenate back
/// to `data` exactly, whatever the compression mode.
pub proof fn lemma_round_trip(
    data: Seq<u8>,
    size: u64,
    limit: u64,
    stored: Seq<Seq<u8>>,
    compress: bool,
)
    requires
        limit > 0,
        size == data.len(),
        stored.len() == plain_chunks(data, limit as nat).len(),
        forall|i: int|
            0 <= i < stored.len() ==> decode_stored(#[trigger] stored[i], compress) == Some(
                plain_chunks(data, limit as nat)[i],
            ),
    ensures
        decoded_seq(stored, compress) == plain_chunks(data, limit as nat),
        concat_all(decoded_seq(stored, compress)) == data,
        restore_ok(size, stored, compress),
{
    let pcs = plain_chunks(data, limit as nat);
    assert(decoded_seq(stored, compress) =~= pcs);
    lemma_plain_chunks_concat(data, limit as nat);
    lemma_sum_lens_concat(pcs);
}

/// Round-trip identity, end to end: everything a successful split hands
/// out restores, and the restored bytes are the split's input.
pub proof fn lemma_split_then_restore(
    out: SplitOutput,
    data: Seq<u8>,
    size: u64,
    limit: u64,
    base: Seq<char>,
    compress: bool,
)
    requires
        limit > 0,
        size == data.len(),
        split_output_ok(out, data, limit, base, compress),
    ensures
        restore_ok(size, out.stored_chunks.deep_view(), compress),
        concat_all(decoded_seq(out.stored_chunks.deep_view(), compress)) == data,
{
    let pcs = plain_chunks(data, limit as nat);
    let stored = out.stored_chunks.deep_view();
    assert forall|i: int| 0 <= i < stored.len() implies decode_stored(
        #[trigger] stored[i],
        compress,
    ) == Some(pcs[i]) by {
        assert(chunk_entry_ok(out.info.chunks@[i], out.stored_chunks@[i]@, pcs[i], base, i,
            compress));
        assert(stored[i] == out.stored_chunks@[i]@);
    }
    lemma_round_trip(data, size, limit, stored, compress);
}

/// Chunk count formula: a split of `size` bytes under a positive `limit`
/// produces the rounded-up quotient of chunks, and exactly one chunk for
/// empty data.
pub proof fn lemma_chunk_count_formula(size: nat, limit: nat)
    requires
        limit > 0,
    ensures
        size == 0 ==> chunk_count(size, limit) == 1,
        size > 0 ==> chunk_count(size, limit) == ((size + limit - 1) as int) / (limit as int),
    decreases size,
{
    if 0 < size <= limit {
        let x = (size + limit - 1) as int;
        lemma_fundamental_div_mod_converse(x, limit as int, 1, x - limit);
    } else if size > limit {
        lemma_chunk_count_formula((size - limit) as nat, limit);
        lemma_div_plus_one((size - 1) as int, limit as int);
    }
}

/// Checksum determinism: equal byte sequences have equal digest strings.
pub proof fn lemma_checksum_deterministic(a: Seq<u8>, b: Seq<u8>)
    requires
        a == b,
    ensures
        checksum_of(a) == checksum_of(b),
{
}

/// Manifest plaintext-size invariant: the plaintext lengths of the chunks
/// of `data` sum to the length of `data`.
pub proof fn lemma_plain_sizes(data: Seq<u8>, limit: u64)
    requires
        limit > 0,
    ensures
        sum_lens(plain_chunks(data, limit as nat)) == data.len(),
{
    lemma_plain_chunks_concat(data, limit as nat);
    lemma_sum_lens_concat(plain_chunks(data, limit as nat));
}

/// Per-chunk compression round trip: a recorded chunk checksum is the
/// checksum of whatever the stored chunk decodes to.
pub proof fn lemma_stored_chunk_checksum(
    rec: ChunkInfo,
    stored: Seq<u8>,
    plain: Seq<u8>,
    compress: bool,
)
    requires
        decode_stored(stored, compress) == Some(plain),
        rec.chunk_checksum matches Some(c) && c@ == checksum_of(plain),
    ensures
        chunk_matches(rec, decode_stored(stored, compress).unwrap()),
{
}

/// Chunk sizing policy: every plaintext chunk respects the limit, and
/// every chunk but the last is filled to exactly the limit.
pub proof fn lemma_chunk_sizes_bounded(data: Seq<u8>, limit: nat)
    requires
        limit > 0,
    ensures
        forall|i: int|
            0 <= i < plain_chunks(data, limit).len() ==> (#[trigger] plain_chunks(
                data,
                limit,
            )[i]).len() <= limit,
        forall|i: int|
            0 <= i < plain_chunks(data, limit).len() - 1 ==> (#[trigger] plain_chunks(
                data,
                limit,
            )[i]).len() == limit,
    decreases data.len(),
{
    let pcs = plain_chunks(data, limit);
    if data.len() <= limit {
        assert(pcs[0] == data);
    } else {
        let rest = data.subrange(limit as int, data.len() as int);
        let rcs = plain_chunks(rest, limit);
        lemma_chunk_sizes_bounded(rest, limit);
        assert forall|i: int| 0 <= i < pcs.len() implies (#[trigger] pcs[i]).len() <= limit by {
            if i == 0 {
                assert(pcs[0] == data.subrange(0, limit as int));
            } else {
                assert(pcs[i] == rcs[i - 1]);
            }
        }
        assert forall|i: int| 0 <= i < pcs.len() - 1 implies (#[trigger] pcs[i]).len() == limit by {
            if i == 0 {
                assert(pcs[0] == data.subrange(0, limit as int));
            } else {
                assert(pcs[i] == rcs[i - 1]);
            }
        }
    }
}

/// Size boundary: when the size is a positive exact multiple of the
/// limit, the split has exactly `size / limit` chunks and the last one
/// holds exactly `limit` bytes — no trailing empty chunk.
pub proof fn lemma_exact_multiple(data: Seq<u8>, limit: nat)
    requires
        limit > 0,
        data.len() > 0,
        data.len() % limit == 0,
    ensures
        plain_chunks(data, limit).len() == data.len() / limit,
        plain_chunks(data, limit).last().len() == limit,
    decreases data.len(),
{
    let len = data.len();
    if len <= limit {
        if len < limit {
            lemma_small_mod(len, limit);
        }
        assert(len == limit);
        lemma_div_by_self(limit as int);
        assert(plain_chunks(data, limit).last() == data);
    } else {
        let rest = data.subrange(limit as int, len as int);
        lemma_mod_sub_multiples_vanish(len as int, limit as int);
        lemma_exact_multiple(rest, limit);
        lemma_div_plus_one((len - limit) as int, limit as int);
        let pcs = plain_chunks(data, limit);
        let rcs = plain_chunks(rest, limit);
        assert(pcs.last() == rcs.last());
    }
}

} // verus!
