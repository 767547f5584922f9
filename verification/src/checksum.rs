//! SHA-256 checksums rendered as lowercase hexadecimal strings.

use vstd::prelude::*;

verus! {

/// The SHA-256 digest of a byte sequence: 32 bytes, a pure function of the
/// input.  What those bytes are is known only to the hash function; the
/// contracts below speak of the digest solely through this name.
pub uninterp spec fn sha256_of(data: Seq<u8>) -> Seq<u8>;

/// The bytes a running checksum has been fed so far, in order.
pub uninterp spec fn checksum_fed(s: ChecksumState) -> Seq<u8>;

/// One hexadecimal digit, lower case.
pub open spec fn hex_digit(d: nat) -> char {
    if d == 0 {
        '0'
    } else if d == 1 {
        '1'
    } else if d == 2 {
        '2'
    } else if d == 3 {
        '3'
    } else if d == 4 {
        '4'
    } else if d == 5 {
        '5'
    } else if d == 6 {
        '6'
    } else if d == 7 {
        '7'
    } else if d == 8 {
        '8'
    } else if d == 9 {
        '9'
    } else if d == 10 {
        'a'
    } else if d == 11 {
        'b'
    } else if d == 12 {
        'c'
    } else if d == 13 {
        'd'
    } else if d == 14 {
        'e'
    } else {
        'f'
    }
}

/// The two hex digits of one byte, high nibble first.
pub open spec fn hex_byte(b: u8) -> Seq<char> {
    seq![hex_digit((b / 16) as nat), hex_digit((b % 16) as nat)]
}

/// Lowercase hex rendering of a byte sequence: two digits per byte.
pub open spec fn hex_of(data: Seq<u8>) -> Seq<char>
    decreases data.len(),
{
    if data.len() == 0 {
        Seq::empty()
    } else {
        hex_byte(data[0]) + hex_of(data.drop_first())
    }
}

/// The checksum string this crate records everywhere: the lowercase hex
/// rendering of the SHA-256 digest.
pub open spec fn checksum_of(data: Seq<u8>) -> Seq<char> {
    hex_of(sha256_of(data))
}

/// Relies on hex::encode: each input byte becomes two lowercase hex digits,
/// high nibble first, from the table "0123456789abcdef".
#[verifier::external_body]
fn hex_encode(data: &[u8]) -> (r: String)
    ensures
        r@ == hex_of(data@),
{
    hex::encode(data)
}

/// A running checksum over the bytes fed to it.  The struct holds sha2's
/// hasher state, which is opaque here; `checksum_fed` names what it has
/// been given so far.
#[verifier::external_body]
pub struct ChecksumState {
    hasher: sha2::Sha256,
}

impl ChecksumState {
    /// Relies on sha2's Digest::new: a fresh hasher that has seen no input.
    #[verifier::external_body]
    pub fn new() -> (r: ChecksumState)
        ensures
            checksum_fed(r) == Seq::<u8>::empty(),
    {
        ChecksumState { hasher: <sha2::Sha256 as sha2::Digest>::new() }
    }

    /// Relies on sha2's Digest::update: the digest is taken over the
    /// concatenation of everything fed, however the feeding is blocked.
    #[verifier::external_body]
    pub fn update(&mut self, data: &[u8])
        ensures
            checksum_fed(*final(self)) == checksum_fed(*old(self)) + data@,
    {
        sha2::Digest::update(&mut self.hasher, data);
    }

    /// Relies on sha2's Digest::finalize: the 32-byte SHA-256 digest of the
    /// bytes fed, a pure function of them.
    #[verifier::external_body]
    fn finalize_digest(self) -> (r: Vec<u8>)
        ensures
            r@ == sha256_of(checksum_fed(self)),
            r@.len() == 32,
    {
        <sha2::Sha256 as sha2::Digest>::finalize(self.hasher).to_vec()
    }

    /// Finish the checksum: the hex digest string of everything fed.
    pub fn finish_hex(self) -> (r: String)
        ensures
            r@ == checksum_of(checksum_fed(self)),
    {
        let digest = self.finalize_digest();
        hex_encode(digest.as_slice())
    }
}

/// SHA-256 checksum of a whole buffer, as a lowercase hex string.
pub fn calculate_buffer_checksum(buffer: &[u8]) -> (r: String)
    ensures
        r@ == checksum_of(buffer@),
{
    let mut state = ChecksumState::new();
    state.update(buffer);
    proof {
        assert(checksum_fed(state) =~= buffer@);
    }
    state.finish_hex()
}

} // verus!
