//! The restorer: decode stored chunks in manifest order, check their
//! checksums, and concatenate them back into the original bytes.
//!
//! Checksum mismatches are reported but never abort the operation; a
//! chunk whose bytes do not decode at all, or a final size that differs
//! from the manifest, is a hard failure.  This asymmetry is deliberate.

use vstd::prelude::*;
use crate::checksum::{calculate_buffer_checksum, checksum_of};
use crate::chunking::{concat_all, lemma_concat_all_push, lemma_sum_lens_concat, sum_lens};
use crate::gzip::{decode_chunk, decode_stored};
use crate::manifest::{chunk_matches, ChunkInfo, SplitInfo};

verus! {

/// Why a restore failed hard.  Checksum mismatches are not here: they are
/// reported in the outcome and do not abort the restore.
#[derive(Debug, Clone, Copy, PartialEq, Eq, Structural)]
pub enum RestoreError {
    /// The stored bytes of the chunk at `index` are not a valid stream.
    ChunkDecode { index: usize },
    /// The reconstructed bytes do not sum to the manifest's original size.
    SizeMismatch { expected: u64, actual: u64 },
}

/// What a completed restore hands back: the reconstructed bytes and the
/// integrity findings, which the caller may report as it sees fit.
#[derive(Debug)]
pub struct RestoreOutcome {
    /// The reconstructed file content.
    pub data: Vec<u8>,
    /// One flag per chunk: whether its recorded checksum matched the
    /// decoded bytes (a chunk without a recorded checksum counts as
    /// matching).
    pub chunk_checksum_ok: Vec<bool>,
    /// Whether the whole-file checksum matched the manifest's.
    pub file_checksum_ok: bool,
}

/// Every stored chunk decodes.
pub open spec fn all_decode(stored: Seq<Seq<u8>>, compressed: bool) -> bool {
    forall|i: int|
        0 <= i < stored.len() ==> decode_stored(#[trigger] stored[i], compressed) is Some
}

/// The plaintexts of the stored chunks, in order.
pub open spec fn decoded_seq(stored: Seq<Seq<u8>>, compressed: bool) -> Seq<Seq<u8>> {
    Seq::new(stored.len(), |i: int| decode_stored(stored[i], compressed).unwrap())
}

/// When a restore of chunks announced to total `size` bytes succeeds:
/// every chunk decodes and the decoded lengths sum to `size`.  Checksums
/// play no part in this, by design.
pub open spec fn restore_ok(size: u64, stored: Seq<Seq<u8>>, compressed: bool) -> bool {
    &&& all_decode(stored, compressed)
    &&& sum_lens(decoded_seq(stored, compressed)) == size
}

/// Check a decoded chunk against its manifest record.  An absent recorded
/// checksum raises no complaint.
pub fn check_chunk(rec: &ChunkInfo, plain: &[u8]) -> (r: bool)
    ensures
        r == chunk_matches(*rec, plain@),
{
    match &rec.chunk_checksum {
        Some(expected) => {
            let actual = calculate_buffer_checksum(plain);
            actual == *expected
        },
        None => true,
    }
}

/// Reconstruct the original bytes from the stored chunks, one per
/// manifest entry, in order.  Succeeds if and only if every chunk decodes
/// and the decoded lengths sum to the manifest's original size; recorded
/// checksums that fail to match are only flagged in the outcome.
pub fn restore_buffer(info: &SplitInfo, stored_chunks: &Vec<Vec<u8>>) -> (r: Result<
    RestoreOutcome,
    RestoreError,
>)
    requires
        stored_chunks@.len() == info.chunks@.len(),
    ensures
        r is Ok <==> restore_ok(
            info.original_file_size,
            stored_chunks.deep_view(),
            info.is_compressed,
        ),
        r matches Ok(out) ==> {
            let decoded = decoded_seq(stored_chunks.deep_view(), info.is_compressed);
            &&& out.data@ == concat_all(decoded)
            &&& out.data@.len() == info.original_file_size
            &&& out.chunk_checksum_ok@.len() == stored_chunks@.len()
            &&& forall|i: int|
                0 <= i < stored_chunks@.len() ==> #[trigger] out.chunk_checksum_ok@[i]
                    == chunk_matches(info.chunks@[i], decoded[i])
            &&& out.file_checksum_ok == (info.original_checksum@ == checksum_of(out.data@))
        },
        r matches Err(e) ==> match e {
            RestoreError::ChunkDecode { index } => {
                &&& (index as int) < stored_chunks@.len()
                &&& decode_stored(stored_chunks.deep_view()[index as int], info.is_compressed)
                    is None
                &&& forall|j: int|
                    0 <= j < index as int ==> decode_stored(
                        #[trigger] stored_chunks.deep_view()[j],
                        info.is_compressed,
                    ) is Some
            },
            RestoreError::SizeMismatch { expected, actual } => {
                &&& all_decode(stored_chunks.deep_view(), info.is_compressed)
                &&& expected == info.original_file_size
                &&& actual == sum_lens(
                    decoded_seq(stored_chunks.deep_view(), info.is_compressed),
                )
                &&& expected != actual
            },
        },
{
    let ghost stored = stored_chunks.deep_view();
    let n = stored_chunks.len();
    let mut data: Vec<u8> = Vec::new();
    let mut flags: Vec<bool> = Vec::new();
    let mut i: usize = 0;

    proof {
        assert(stored.subrange(0, 0) =~= Seq::<Seq<u8>>::empty());
        assert(decoded_seq(stored.subrange(0, 0), info.is_compressed)
            =~= Seq::<Seq<u8>>::empty());
    }
    while i < n
        invariant
            n == stored_chunks@.len(),
            n == info.chunks@.len(),
            stored == stored_chunks.deep_view(),
            i <= n,
            flags@.len() == i,
            forall|j: int|
                0 <= j < i ==> decode_stored(#[trigger] stored[j], info.is_compressed) is Some,
            data@ == concat_all(decoded_seq(stored.subrange(0, i as int), info.is_compressed)),
            forall|j: int|
                0 <= j < i ==> #[trigger] flags@[j] == chunk_matches(
                    info.chunks@[j],
                    decode_stored(stored[j], info.is_compressed).unwrap(),
                ),
        decreases n - i,
    {
        proof {
            assert(stored[i as int] == stored_chunks@[i as int]@);
        }
        let mut plain = match decode_chunk(stored_chunks[i].as_slice(), info.is_compressed) {
            Some(p) => p,
            None => {
                proof {
                    assert(decode_stored(stored[i as int], info.is_compressed) is None);
                    assert(!all_decode(stored, info.is_compressed));
                }
                return Err(RestoreError::ChunkDecode { index: i });
            },
        };
        let ok = check_chunk(&info.chunks[i], plain.as_slice());
        flags.push(ok);
        let ghost pv = plain@;
        data.append(&mut plain);
        proof {
            let ds_i = decoded_seq(stored.subrange(0, i as int), info.is_compressed);
            let ds_i1 = decoded_seq(stored.subrange(0, i + 1), info.is_compressed);
            assert(ds_i1 =~= ds_i.push(pv));
            lemma_concat_all_push(ds_i, pv);
        }
        i = i + 1;
    }
    proof {
        assert(stored.subrange(0, n as int) =~= stored);
        lemma_sum_lens_concat(decoded_seq(stored, info.is_compressed));
    }
    let actual = data.len() as u64;
    if actual != info.original_file_size {
        return Err(
            RestoreError::SizeMismatch { expected: info.original_file_size, actual },
        );
    }
    let file_checksum = calculate_buffer_checksum(data.as_slice());
    let file_checksum_ok = file_checksum == info.original_checksum;
    Ok(RestoreOutcome { data, chunk_checksum_ok: flags, file_checksum_ok })
}

} // verus!
