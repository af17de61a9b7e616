//! Checksum utilities: hash byte strings with a choice of digest
//! algorithms, render digests as lowercase hex, and parse the lines of a
//! checksum file (`<hash> <path>`).

use vstd::prelude::*;
use sha2::Digest;
use crate::text::{scan_ws, scan_non_ws, ws_end, non_ws_end, copy_range, bytes_eq};

verus! {

/// The digest algorithms offered.
#[derive(Clone, Copy, PartialEq, Eq, Structural, Debug)]
pub enum Algorithm {
    Sha256,
    Sha512,
    Md5,
    Blake2s,
    Blake2b,
}

/// The SHA-256 digest of a byte string.
pub uninterp spec fn sha256_of(data: Seq<u8>) -> Seq<u8>;

/// The SHA-512 digest of a byte string.
pub uninterp spec fn sha512_of(data: Seq<u8>) -> Seq<u8>;

/// The MD5 digest of a byte string.
pub uninterp spec fn md5_of(data: Seq<u8>) -> Seq<u8>;

/// The BLAKE2s-256 digest of a byte string.
pub uninterp spec fn blake2s_of(data: Seq<u8>) -> Seq<u8>;

/// The BLAKE2b-512 digest of a byte string.
pub uninterp spec fn blake2b_of(data: Seq<u8>) -> Seq<u8>;

/// Relies on `sha2::Sha256` through the `Digest` trait: the digest is a
/// function of the input bytes alone and is 32 bytes long.
#[verifier::external_body]
fn sha256_digest(data: &[u8]) -> (r: Vec<u8>)
    ensures
        r@ == sha256_of(data@),
        r@.len() == 32,
{
    sha2::Sha256::digest(data).to_vec()
}

/// Relies on `sha2::Sha512` through the `Digest` trait: the digest is a
/// function of the input bytes alone and is 64 bytes long.
#[verifier::external_body]
fn sha512_digest(data: &[u8]) -> (r: Vec<u8>)
    ensures
        r@ == sha512_of(data@),
        r@.len() == 64,
{
    sha2::Sha512::digest(data).to_vec()
}

/// Relies on `md5::Md5` through the `Digest` trait: the digest is a
/// function of the input bytes alone and is 16 bytes long.
#[verifier::external_body]
fn md5_digest(data: &[u8]) -> (r: Vec<u8>)
    ensures
        r@ == md5_of(data@),
        r@.len() == 16,
{
    md5::Md5::digest(data).to_vec()
}

/// Relies on `blake2::Blake2s256` through the `Digest` trait: the digest
/// is a function of the input bytes alone and is 32 bytes long.
#[verifier::external_body]
fn blake2s_digest(data: &[u8]) -> (r: Vec<u8>)
    ensures
        r@ == blake2s_of(data@),
        r@.len() == 32,
{
    blake2::Blake2s256::digest(data).to_vec()
}

/// Relies on `blake2::Blake2b512` through the `Digest` trait: the digest
/// is a function of the input bytes alone and is 64 bytes long.
#[verifier::external_body]
fn blake2b_digest(data: &[u8]) -> (r: Vec<u8>)
    ensures
        r@ == blake2b_of(data@),
        r@.len() == 64,
{
    blake2::Blake2b512::digest(data).to_vec()
}

/// The digest of a byte string under the chosen algorithm.
pub open spec fn digest_of(alg: Algorithm, data: Seq<u8>) -> Seq<u8> {
    match alg {
        Algorithm::Sha256 => sha256_of(data),
        Algorithm::Sha512 => sha512_of(data),
        Algorithm::Md5 => md5_of(data),
        Algorithm::Blake2s => blake2s_of(data),
        Algorithm::Blake2b => blake2b_of(data),
    }
}

/// Lowercase hex digit for a value below 16.
pub open spec fn hex_digit(n: u8) -> u8 {
    if n < 10 {
        (48 + n) as u8
    } else {
        (87 + n) as u8
    }
}

/// Lowercase hex rendering of a byte string, two digits per byte.
pub open spec fn hex_of(bytes: Seq<u8>) -> Seq<u8>
    decreases bytes.len(),
{
    if bytes.len() == 0 {
        Seq::empty()
    } else {
        hex_of(bytes.drop_last()) + seq![
            hex_digit(bytes.last() / 16),
            hex_digit(bytes.last() % 16),
        ]
    }
}

/// Render bytes as lowercase hex.
pub fn hex_encode(bytes: &[u8]) -> (r: Vec<u8>)
    ensures
        r@ == hex_of(bytes@),
{
    let mut out: Vec<u8> = Vec::new();
    let mut i: usize = 0;
    while i < bytes.len()
        invariant
            0 <= i <= bytes@.len(),
            out@ == hex_of(bytes@.subrange(0, i as int)),
        decreases bytes@.len() - i,
    {
        let b = bytes[i];
        let hi = b / 16;
        let lo = b % 16;
        out.push(if hi < 10 { 48 + hi } else { 87 + hi });
        out.push(if lo < 10 { 48 + lo } else { 87 + lo });
        proof {
            let pre = bytes@.subrange(0, i as int);
            let cur = bytes@.subrange(0, i + 1);
            assert(cur.drop_last() =~= pre);
            assert(cur.last() == bytes@[i as int]);
            assert(out@ =~= hex_of(cur));
        }
        i = i + 1;
    }
    proof {
        assert(bytes@.subrange(0, bytes@.len() as int) =~= bytes@);
    }
    out
}

/// Hash a byte string and render the digest as lowercase hex.
pub fn hash_bytes(data: &[u8], alg: &Algorithm) -> (r: Vec<u8>)
    ensures
        r@ == hex_of(digest_of(*alg, data@)),
{
    let d = match alg {
        Algorithm::Sha256 => sha256_digest(data),
        Algorithm::Sha512 => sha512_digest(data),
        Algorithm::Md5 => md5_digest(data),
        Algorithm::Blake2s => blake2s_digest(data),
        Algorithm::Blake2b => blake2b_digest(data),
    };
    hex_encode(d.as_slice())
}

/// One parsed checksum-file line: the recorded hash and the file path.
#[derive(Debug)]
pub struct ChecksumEntry {
    pub hash: Vec<u8>,
    pub path: Vec<u8>,
}

/// Why a checksum-file line was rejected.
#[derive(Clone, Copy, PartialEq, Eq, Structural, Debug)]
pub enum ChecksumLineError {
    /// The line holds no token at all.
    MissingHash,
    /// The line holds a hash but no path token.
    MissingPath,
}

/// First whitespace-separated token of `s` at or after `i`, if any.
pub open spec fn token_at(s: Seq<u8>, i: int) -> Option<(int, int)> {
    let t0 = scan_ws(s, i);
    let t1 = scan_non_ws(s, t0);
    if t1 == t0 {
        None
    } else {
        Some((t0, t1))
    }
}

/// What parsing a checksum line yields: its first two tokens, or which
/// of them is missing.
pub open spec fn checksum_line_spec(s: Seq<u8>) -> Result<(Seq<u8>, Seq<u8>), ChecksumLineError> {
    match token_at(s, 0) {
        None => Err(ChecksumLineError::MissingHash),
        Some((h0, h1)) => match token_at(s, h1) {
            None => Err(ChecksumLineError::MissingPath),
            Some((p0, p1)) => Ok((s.subrange(h0, h1), s.subrange(p0, p1))),
        },
    }
}

/// Parse one checksum-file line into its hash and path tokens. Tokens
/// past the second are ignored. The error says which token was missing.
pub fn parse_checksum_line(line: &[u8]) -> (r: Result<ChecksumEntry, ChecksumLineError>)
    ensures
        match r {
            Ok(e) => checksum_line_spec(line@) == Ok::<(Seq<u8>, Seq<u8>), ChecksumLineError>(
                (e.hash@, e.path@),
            ),
            Err(e) => checksum_line_spec(line@) == Err::<(Seq<u8>, Seq<u8>), ChecksumLineError>(e),
        },
{
    let h0 = ws_end(line, 0);
    let h1 = non_ws_end(line, h0);
    if h1 == h0 {
        return Err(ChecksumLineError::MissingHash);
    }
    let p0 = ws_end(line, h1);
    let p1 = non_ws_end(line, p0);
    if p1 == p0 {
        return Err(ChecksumLineError::MissingPath);
    }
    Ok(ChecksumEntry { hash: copy_range(line, h0, h1), path: copy_range(line, p0, p1) })
}

/// Decide one checksum verification: does the recorded hex hash match
/// the hash of the data read from the file?
pub fn verify_data(expected_hex: &[u8], data: &[u8], alg: &Algorithm) -> (r: bool)
    ensures
        r == (expected_hex@ == hex_of(digest_of(*alg, data@))),
{
    let h = hash_bytes(data, alg);
    bytes_eq(expected_hex, h.as_slice())
}

} // verus!
