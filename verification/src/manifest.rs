//! The manifest: the record a split writes and a restore reads.  It is the
//! only coupling between the two operations, so its fields and the names it
//! assigns to chunk files are pinned down exactly.

use vstd::prelude::*;
use vstd::string::StringExecFns;
use crate::checksum::checksum_of;

verus! {

/// One entry per stored chunk.
#[derive(Debug, Clone)]
pub struct ChunkInfo {
    /// Filename of the chunk on disk, e.g. "report.txt-001".
    pub chunk_filename: String,
    /// Size of the chunk as stored: the compressed size when compression is
    /// on, the plaintext size otherwise.
    pub chunk_size: u64,
    /// Checksum of the chunk's plaintext (pre-compression) bytes.
    pub chunk_checksum: Option<String>,
}

/// The split record for one original file.
#[derive(Debug, Clone)]
pub struct SplitInfo {
    /// Base name of the original file.
    pub original_filename: String,
    /// Total size of the original file in bytes.
    pub original_file_size: u64,
    /// Maximum plaintext bytes per chunk used during the split.
    pub chunk_limit: u64,
    /// Name of the subdirectory holding all chunk files for this file.
    pub chunks_sub_dir: String,
    /// The chunks, in reconstruction order.
    pub chunks: Vec<ChunkInfo>,
    /// Checksum of the whole original file.
    pub original_checksum: String,
    /// Whether every chunk was Gzip-compressed.
    pub is_compressed: bool,
}

/// Whether a chunk record's checksum agrees with the decoded plaintext
/// bytes.  An absent checksum raises no complaint.
pub open spec fn chunk_matches(rec: ChunkInfo, plain: Seq<u8>) -> bool {
    match rec.chunk_checksum {
        Some(c) => c@ == checksum_of(plain),
        None => true,
    }
}

/// One decimal digit as a character.
pub open spec fn digit_char(d: nat) -> char {
    if d == 0 {
        '0'
    } else if d == 1 {
        '1'
    } else if d == 2 {
        '2'
    } else if d == 3 {
        '3'
    } else if d == 4 {
        '4'
    } else if d == 5 {
        '5'
    } else if d == 6 {
        '6'
    } else if d == 7 {
        '7'
    } else if d == 8 {
        '8'
    } else {
        '9'
    }
}

/// The decimal rendering of a number, most significant digit first.
pub open spec fn dec_of(n: nat) -> Seq<char>
    decreases n,
{
    if n < 10 {
        seq![digit_char(n)]
    } else {
        dec_of(n / 10) + seq![digit_char(n % 10)]
    }
}

/// Zero-padding to at least three characters.  Longer renderings are kept
/// as they are: the counter is never truncated.
pub open spec fn padded3(s: Seq<char>) -> Seq<char> {
    if s.len() >= 3 {
        s
    } else if s.len() == 2 {
        seq!['0'] + s
    } else if s.len() == 1 {
        seq!['0', '0'] + s
    } else {
        seq!['0', '0', '0']
    }
}

/// The filename of chunk number `index`: the base name, a dash, and the
/// index in decimal, zero-padded to at least three digits.
pub open spec fn chunk_name_spec(base: Seq<char>, index: nat) -> Seq<char> {
    base + seq!['-'] + padded3(dec_of(index))
}

/// The chunks subdirectory for a file: its base name with "_parts" appended.
pub open spec fn sub_dir_spec(base: Seq<char>) -> Seq<char> {
    base + "_parts"@
}

/// How many characters the decimal rendering has, in the ranges the
/// padding cares about.
pub proof fn lemma_dec_of_len(n: nat)
    ensures
        n < 10 ==> dec_of(n).len() == 1,
        10 <= n < 100 ==> dec_of(n).len() == 2,
        n >= 100 ==> dec_of(n).len() >= 3,
    decreases n,
{
    if n >= 10 {
        lemma_dec_of_len(n / 10);
    }
}

fn append_digit(s: &mut String, d: u64)
    requires
        d < 10,
    ensures
        final(s)@ == old(s)@ + seq![digit_char(d as nat)],
{
    if d == 0 {
        s.append("0");
        proof {
            reveal_strlit("0");
            assert(s@ =~= old(s)@ + seq![digit_char(d as nat)]);
        }
    } else if d == 1 {
        s.append("1");
        proof {
            reveal_strlit("1");
            assert(s@ =~= old(s)@ + seq![digit_char(d as nat)]);
        }
    } else if d == 2 {
        s.append("2");
        proof {
            reveal_strlit("2");
            assert(s@ =~= old(s)@ + seq![digit_char(d as nat)]);
        }
    } else if d == 3 {
        s.append("3");
        proof {
            reveal_strlit("3");
            assert(s@ =~= old(s)@ + seq![digit_char(d as nat)]);
        }
    } else if d == 4 {
        s.append("4");
        proof {
            reveal_strlit("4");
            assert(s@ =~= old(s)@ + seq![digit_char(d as nat)]);
        }
    } else if d == 5 {
        s.append("5");
        proof {
            reveal_strlit("5");
            assert(s@ =~= old(s)@ + seq![digit_char(d as nat)]);
        }
    } else if d == 6 {
        s.append("6");
        proof {
            reveal_strlit("6");
            assert(s@ =~= old(s)@ + seq![digit_char(d as nat)]);
        }
    } else if d == 7 {
        s.append("7");
        proof {
            reveal_strlit("7");
            assert(s@ =~= old(s)@ + seq![digit_char(d as nat)]);
        }
    } else if d == 8 {
        s.append("8");
        proof {
            reveal_strlit("8");
            assert(s@ =~= old(s)@ + seq![digit_char(d as nat)]);
        }
    } else {
        s.append("9");
        proof {
            reveal_strlit("9");
            assert(s@ =~= old(s)@ + seq![digit_char(d as nat)]);
        }
    }
}

fn append_dec(s: &mut String, n: u64)
    ensures
        final(s)@ == old(s)@ + dec_of(n as nat),
    decreases n,
{
    if n < 10 {
        append_digit(s, n);
    } else {
        append_dec(s, n / 10);
        append_digit(s, n % 10);
        proof {
            assert(s@ =~= old(s)@ + dec_of(n as nat));
        }
    }
}

/// The filename of chunk number `index` of a file called `base`.
pub fn chunk_name(base: &str, index: u64) -> (r: String)
    ensures
        r@ == chunk_name_spec(base@, index as nat),
{
    let mut s = base.to_owned();
    s.append("-");
    if index < 10 {
        s.append("00");
    } else if index < 100 {
        s.append("0");
    }
    append_dec(&mut s, index);
    proof {
        reveal_strlit("-");
        reveal_strlit("0");
        reveal_strlit("00");
        lemma_dec_of_len(index as nat);
        assert(s@ =~= chunk_name_spec(base@, index as nat));
    }
    s
}

/// The chunks subdirectory name for a file called `base`.
pub fn sub_dir_name(base: &str) -> (r: String)
    ensures
        r@ == sub_dir_spec(base@),
{
    let mut s = base.to_owned();
    s.append("_parts");
    s
}

} // verus!
