//! The splitter: carve a buffer into bounded-size chunks, seal each one
//! with a checksum and its stored encoding, and assemble the manifest.

use vstd::prelude::*;
use vstd::slice::slice_subrange;
use crate::checksum::{calculate_buffer_checksum, checksum_of};
use crate::chunking::{chunk_count, lemma_plain_chunks_count, lemma_plain_chunks_len_bound,
    plain_chunks};
use crate::gzip::{decode_stored, encode_chunk};
use crate::manifest::{chunk_name, chunk_name_spec, sub_dir_name, sub_dir_spec, ChunkInfo,
    SplitInfo};

verus! {

/// Why a split failed: the plaintext bytes processed do not sum to the
/// announced size of the original file.
#[derive(Debug, Clone, Copy, PartialEq, Eq, Structural)]
pub enum SplitError {
    /// The defensive post-loop check tripped.
    SizeMismatch { expected: u64, actual: u64 },
}

/// Everything a split produces: the manifest and the stored bytes of each
/// chunk, in manifest order.
pub struct SplitOutput {
    /// The manifest.
    pub info: SplitInfo,
    /// The chunk files' contents, one per manifest entry.
    pub stored_chunks: Vec<Vec<u8>>,
}

/// What the manifest entry and the stored bytes of the chunk at position
/// `i` say about its plaintext `plain`.
pub open spec fn chunk_entry_ok(
    rec: ChunkInfo,
    stored: Seq<u8>,
    plain: Seq<u8>,
    base: Seq<char>,
    i: int,
    compress: bool,
) -> bool {
    &&& rec.chunk_filename@ == chunk_name_spec(base, (i + 1) as nat)
    &&& rec.chunk_size == stored.len()
    &&& rec.chunk_checksum matches Some(c) && c@ == checksum_of(plain)
    &&& decode_stored(stored, compress) == Some(plain)
    &&& (!compress ==> stored == plain)
}

/// The contract of a successful split of `data` under `limit` for a file
/// called `base`: the manifest fields are filled in as documented, and
/// every stored chunk decodes back to the corresponding plaintext chunk.
pub open spec fn split_output_ok(
    out: SplitOutput,
    data: Seq<u8>,
    limit: u64,
    base: Seq<char>,
    compress: bool,
) -> bool {
    let pcs = plain_chunks(data, limit as nat);
    &&& out.info.original_filename@ == base
    &&& out.info.original_file_size == data.len()
    &&& out.info.chunk_limit == limit
    &&& out.info.chunks_sub_dir@ == sub_dir_spec(base)
    &&& out.info.original_checksum@ == checksum_of(data)
    &&& out.info.is_compressed == compress
    &&& out.info.chunks@.len() == pcs.len()
    &&& out.stored_chunks@.len() == pcs.len()
    &&& forall|i: int|
        0 <= i < pcs.len() ==> chunk_entry_ok(
            #[trigger] out.info.chunks@[i],
            out.stored_chunks@[i]@,
            pcs[i],
            base,
            i,
            compress,
        )
}

/// Seal one plaintext chunk: checksum it, encode it for storage, and
/// write its manifest entry.  `index` is the 1-based chunk number.
pub fn seal_chunk(base: &str, index: u64, plain: &[u8], compress: bool) -> (r: (ChunkInfo, Vec<u8>))
    ensures
        r.0.chunk_filename@ == chunk_name_spec(base@, index as nat),
        r.0.chunk_size == r.1@.len(),
        r.0.chunk_checksum matches Some(c) && c@ == checksum_of(plain@),
        decode_stored(r.1@, compress) == Some(plain@),
        !compress ==> r.1@ == plain@,
{
    let checksum = calculate_buffer_checksum(plain);
    let stored = encode_chunk(plain, compress);
    let name = chunk_name(base, index);
    let rec = ChunkInfo {
        chunk_filename: name,
        chunk_size: stored.len() as u64,
        chunk_checksum: Some(checksum),
    };
    (rec, stored)
}

/// Assemble the manifest once every chunk is sealed.  Fails exactly when
/// the plaintext bytes processed do not sum to the announced file size —
/// the defensive check against a read-loop bug.
pub fn build_split_info(
    base: &str,
    original_file_size: u64,
    chunk_limit: u64,
    chunks: Vec<ChunkInfo>,
    original_checksum: String,
    is_compressed: bool,
    total_bytes_processed: u64,
) -> (r: Result<SplitInfo, SplitError>)
    ensures
        r is Ok <==> total_bytes_processed == original_file_size,
        r matches Ok(info) ==> {
            &&& info.original_filename@ == base@
            &&& info.original_file_size == original_file_size
            &&& info.chunk_limit == chunk_limit
            &&& info.chunks_sub_dir@ == sub_dir_spec(base@)
            &&& info.chunks@ == chunks@
            &&& info.original_checksum == original_checksum
            &&& info.is_compressed == is_compressed
        },
        r matches Err(e) ==> e == (SplitError::SizeMismatch {
            expected: original_file_size,
            actual: total_bytes_processed,
        }),
{
    if total_bytes_processed != original_file_size {
        return Err(
            SplitError::SizeMismatch {
                expected: original_file_size,
                actual: total_bytes_processed,
            },
        );
    }
    Ok(
        SplitInfo {
            original_filename: base.to_owned(),
            original_file_size,
            chunk_limit,
            chunks_sub_dir: sub_dir_name(base),
            chunks,
            original_checksum,
            is_compressed,
        },
    )
}

/// Split `data` into chunks of at most `chunk_limit` plaintext bytes,
/// sealing each one and assembling the manifest.  Empty data yields a
/// single empty chunk.  The defensive size check of the manifest builder
/// is proved to pass here.
pub fn split_buffer(data: &Vec<u8>, chunk_limit: u64, base: &str, compress: bool) -> (r:
    SplitOutput)
    requires
        chunk_limit > 0,
    ensures
        split_output_ok(r, data@, chunk_limit, base@, compress),
        r.info.chunks@.len() == chunk_count(data@.len(), chunk_limit as nat),
{
    let ghost pcs = plain_chunks(data@, chunk_limit as nat);
    let original_checksum = calculate_buffer_checksum(data.as_slice());
    let n = data.len();
    let mut chunks: Vec<ChunkInfo> = Vec::new();
    let mut stored_all: Vec<Vec<u8>> = Vec::new();
    let mut pos: usize = 0;
    let mut total: u64 = 0;

    if n == 0 {
        let (rec, stored) = seal_chunk(base, 1, data.as_slice(), compress);
        chunks.push(rec);
        stored_all.push(stored);
        proof {
            assert(pcs =~= seq![data@]);
        }
    } else {
        proof {
            lemma_plain_chunks_len_bound(data@, chunk_limit as nat);
            assert(data@.subrange(0, n as int) =~= data@);
            assert(pcs.subrange(0, 0) + plain_chunks(data@.subrange(0, n as int),
                chunk_limit as nat) =~= pcs);
        }
        while pos < n
            invariant
                chunk_limit > 0,
                n == data@.len(),
                pos <= n,
                total == pos as u64,
                pcs == plain_chunks(data@, chunk_limit as nat),
                pcs.len() <= n,
                chunks@.len() == stored_all@.len(),
                chunks@.len() <= pcs.len(),
                pos < n ==> pcs == pcs.subrange(0, chunks@.len() as int) + plain_chunks(
                    data@.subrange(pos as int, n as int),
                    chunk_limit as nat,
                ),
                pos == n ==> chunks@.len() == pcs.len(),
                forall|i: int|
                    0 <= i < chunks@.len() ==> chunk_entry_ok(
                        #[trigger] chunks@[i],
                        stored_all@[i]@,
                        pcs[i],
                        base@,
                        i,
                        compress,
                    ),
            decreases n - pos,
        {
            let ghost k = chunks@.len() as int;
            let ghost suffix = data@.subrange(pos as int, n as int);
            let remaining = n - pos;
            let step: usize = if chunk_limit < remaining as u64 {
                chunk_limit as usize
            } else {
                remaining
            };
            let end = pos + step;
            proof {
                assert(plain_chunks(suffix, chunk_limit as nat).len() >= 1);
                assert(k < pcs.len());
            }
            let chunk_slice = slice_subrange(data.as_slice(), pos, end);
            let index = (chunks.len() as u64) + 1;
            let (rec, stored) = seal_chunk(base, index, chunk_slice, compress);
            chunks.push(rec);
            stored_all.push(stored);
            proof {
                let scs = plain_chunks(suffix, chunk_limit as nat);
                if suffix.len() <= chunk_limit {
                    assert(end == n);
                    assert(chunk_slice@ =~= suffix);
                    assert(scs == seq![suffix]);
                    assert(pcs[k] == suffix);
                    assert(pcs.len() == k + 1);
                } else {
                    assert(step == chunk_limit as usize);
                    assert(chunk_slice@ =~= suffix.subrange(0, chunk_limit as int));
                    assert(pcs[k] == scs[0]);
                    assert(pcs[k] == chunk_slice@);
                    let rest = suffix.subrange(chunk_limit as int, suffix.len() as int);
                    assert(data@.subrange(end as int, n as int) =~= rest);
                    assert(pcs.subrange(0, k + 1) =~= pcs.subrange(0, k).push(pcs[k]));
                    assert(pcs.subrange(0, k).push(pcs[k]) + plain_chunks(rest,
                        chunk_limit as nat) =~= pcs.subrange(0, k) + scs);
                }
                assert forall|i: int| 0 <= i < chunks@.len() implies chunk_entry_ok(
                    #[trigger] chunks@[i],
                    stored_all@[i]@,
                    pcs[i],
                    base@,
                    i,
                    compress,
                ) by {
                    if i < k {
                        assert(chunk_entry_ok(chunks@[i], stored_all@[i]@, pcs[i], base@, i,
                            compress));
                    } else {
                        assert(chunks@[i] == rec);
                        assert(stored_all@[i] == stored);
                        assert(pcs[i] == chunk_slice@);
                    }
                }
            }
            total = total + step as u64;
            pos = end;
        }
    }
    proof {
        lemma_plain_chunks_count(data@, chunk_limit as nat);
    }
    match build_split_info(
        base,
        n as u64,
        chunk_limit,
        chunks,
        original_checksum,
        compress,
        total,
    ) {
        Ok(info) => SplitOutput { info, stored_chunks: stored_all },
        Err(_) => vstd::pervasive::unreached(),
    }
}

} // verus!
