//! The digest functions of the outside hashing crates, and the hexadecimal
//! notation of digests.

use blake2::Digest as _;
use vstd::prelude::*;

verus! {

/// The MD5 digest of a byte sequence, as `md5::compute` gives it.
pub uninterp spec fn md5_digest(data: Seq<u8>) -> Seq<u8>;

/// The SHA-1 digest of a byte sequence, as `sha1::Sha1` gives it.
pub uninterp spec fn sha1_digest(data: Seq<u8>) -> Seq<u8>;

/// The SHA-256 digest of a byte sequence, as `sha2::Sha256` gives it.
pub uninterp spec fn sha256_digest(data: Seq<u8>) -> Seq<u8>;

/// The SHA-512 digest of a byte sequence, as `sha2::Sha512` gives it.
pub uninterp spec fn sha512_digest(data: Seq<u8>) -> Seq<u8>;

/// The BLAKE2b-256 digest of a byte sequence, as `blake2::Blake2b256` gives it.
pub uninterp spec fn blake2b256_digest(data: Seq<u8>) -> Seq<u8>;

/// The BLAKE2b-512 digest of a byte sequence, as `blake2::Blake2b512` gives it.
pub uninterp spec fn blake2b512_digest(data: Seq<u8>) -> Seq<u8>;

/// The CRC-32 of a byte sequence, as `crc32fast::hash` gives it.
pub uninterp spec fn crc32_value(data: Seq<u8>) -> u32;

/// The XXH3 64-bit hash of a byte sequence, as `xxhash_rust::xxh3::xxh3_64` gives it.
pub uninterp spec fn xxh3_value(data: Seq<u8>) -> u64;

/// The XXH32 hash of a byte sequence with seed 0, as `xxhash_rust::xxh32::xxh32` gives it.
pub uninterp spec fn xxh32_value(data: Seq<u8>) -> u32;

/// The XXH64 hash of a byte sequence with seed 0, as `xxhash_rust::xxh64::xxh64` gives it.
pub uninterp spec fn xxh64_value(data: Seq<u8>) -> u64;

/// Calls `md5::compute`; claims the 16 bytes of the result are the MD5 digest of `data`.
#[verifier::external_body]
pub(crate) fn md5_compute(data: &[u8]) -> (r: Vec<u8>)
    ensures
        r@ == md5_digest(data@),
        r@.len() == 16,
{
    md5::compute(data).0.to_vec()
}

/// Calls `Digest::digest` of `sha1::Sha1`; claims the 20 bytes are the SHA-1 digest of `data`.
#[verifier::external_body]
pub(crate) fn sha1_compute(data: &[u8]) -> (r: Vec<u8>)
    ensures
        r@ == sha1_digest(data@),
        r@.len() == 20,
{
    sha1::Sha1::digest(data).to_vec()
}

/// Calls `Digest::digest` of `sha2::Sha256`; claims the 32 bytes are the SHA-256 digest of `data`.
#[verifier::external_body]
pub(crate) fn sha256_compute(data: &[u8]) -> (r: Vec<u8>)
    ensures
        r@ == sha256_digest(data@),
        r@.len() == 32,
{
    sha2::Sha256::digest(data).to_vec()
}

/// Calls `Digest::digest` of `sha2::Sha512`; claims the 64 bytes are the SHA-512 digest of `data`.
#[verifier::external_body]
pub(crate) fn sha512_compute(data: &[u8]) -> (r: Vec<u8>)
    ensures
        r@ == sha512_digest(data@),
        r@.len() == 64,
{
    sha2::Sha512::digest(data).to_vec()
}

/// Calls `Digest::digest` of `blake2::Blake2b256`; claims the 32 bytes are the BLAKE2b-256
/// digest of `data`.
#[verifier::external_body]
pub(crate) fn blake2b256_compute(data: &[u8]) -> (r: Vec<u8>)
    ensures
        r@ == blake2b256_digest(data@),
        r@.len() == 32,
{
    blake2::Blake2b256::digest(data).to_vec()
}

/// Calls `Digest::digest` of `blake2::Blake2b512`; claims the 64 bytes are the BLAKE2b-512
/// digest of `data`.
#[verifier::external_body]
pub(crate) fn blake2b512_compute(data: &[u8]) -> (r: Vec<u8>)
    ensures
        r@ == blake2b512_digest(data@),
        r@.len() == 64,
{
    blake2::Blake2b512::digest(data).to_vec()
}

/// Calls `crc32fast::hash`; claims the result is the CRC-32 of `data`.
#[verifier::external_body]
pub(crate) fn crc32_compute(data: &[u8]) -> (r: u32)
    ensures
        r == crc32_value(data@),
{
    crc32fast::hash(data)
}

/// Calls `xxhash_rust::xxh3::xxh3_64`; claims the result is the XXH3 hash of `data`.
#[verifier::external_body]
pub(crate) fn xxh3_compute(data: &[u8]) -> (r: u64)
    ensures
        r == xxh3_value(data@),
{
    xxhash_rust::xxh3::xxh3_64(data)
}

/// Calls `xxhash_rust::xxh32::xxh32` with seed 0; claims the result is the XXH32 hash of `data`.
#[verifier::external_body]
pub(crate) fn xxh32_compute(data: &[u8]) -> (r: u32)
    ensures
        r == xxh32_value(data@),
{
    xxhash_rust::xxh32::xxh32(data, 0)
}

/// Calls `xxhash_rust::xxh64::xxh64` with seed 0; claims the result is the XXH64 hash of `data`.
#[verifier::external_body]
pub(crate) fn xxh64_compute(data: &[u8]) -> (r: u64)
    ensures
        r == xxh64_value(data@),
{
    xxhash_rust::xxh64::xxh64(data, 0)
}

/// The big-endian bytes of a 32-bit value.
pub open spec fn be_bytes_u32(x: u32) -> Seq<u8> {
    seq![(x >> 24u32) as u8, (x >> 16u32) as u8, (x >> 8u32) as u8, x as u8]
}

/// The big-endian bytes of a 64-bit value.
pub open spec fn be_bytes_u64(x: u64) -> Seq<u8> {
    seq![
        (x >> 56u64) as u8,
        (x >> 48u64) as u8,
        (x >> 40u64) as u8,
        (x >> 32u64) as u8,
        (x >> 24u64) as u8,
        (x >> 16u64) as u8,
        (x >> 8u64) as u8,
        x as u8,
    ]
}

pub fn be_u32(x: u32) -> (r: Vec<u8>)
    ensures
        r@ == be_bytes_u32(x),
{
    let v = vec![(x >> 24u32) as u8, (x >> 16u32) as u8, (x >> 8u32) as u8, x as u8];
    proof {
        assert(v@ =~= be_bytes_u32(x));
    }
    v
}

pub fn be_u64(x: u64) -> (r: Vec<u8>)
    ensures
        r@ == be_bytes_u64(x),
{
    let v = vec![
        (x >> 56u64) as u8,
        (x >> 48u64) as u8,
        (x >> 40u64) as u8,
        (x >> 32u64) as u8,
        (x >> 24u64) as u8,
        (x >> 16u64) as u8,
        (x >> 8u64) as u8,
        x as u8,
    ];
    proof {
        assert(v@ =~= be_bytes_u64(x));
    }
    v
}

/// The lowercase hexadecimal digit for `d < 16`.
pub open spec fn hex_digit(d: nat) -> char {
    if d < 10 {
        (('0' as nat) + d) as char
    } else {
        (('a' as nat) + (d - 10)) as char
    }
}

/// Two lowercase hexadecimal digits per byte, high nibble first.
pub open spec fn hex_lower(data: Seq<u8>) -> Seq<char>
    decreases data.len(),
{
    if data.len() == 0 {
        Seq::empty()
    } else {
        let b = data.last();
        hex_lower(data.drop_last()).push(hex_digit((b / 16) as nat)).push(hex_digit((b % 16) as nat))
    }
}

/// Calls `hex::encode`; claims the result is the lowercase hexadecimal notation of `data`.
#[verifier::external_body]
pub(crate) fn hex_encode(data: &[u8]) -> (r: String)
    ensures
        r@ == hex_lower(data@),
{
    hex::encode(data)
}

/// The value of a hexadecimal digit of either case.
pub open spec fn hex_value(c: char) -> Option<u8> {
    if '0' <= c && c <= '9' {
        Some(((c as u32) - ('0' as u32)) as u8)
    } else if 'a' <= c && c <= 'f' {
        Some(((c as u32) - ('a' as u32) + 10) as u8)
    } else if 'A' <= c && c <= 'F' {
        Some(((c as u32) - ('A' as u32) + 10) as u8)
    } else {
        None
    }
}

/// Whether `s` is an even number of hexadecimal digits.
pub open spec fn hex_decodable(s: Seq<char>) -> bool {
    &&& s.len() % 2 == 0
    &&& forall|i: int| 0 <= i < s.len() ==> (#[trigger] hex_value(s[i])) is Some
}

/// The bytes that pairs of hexadecimal digits stand for.
pub open spec fn hex_bytes(s: Seq<char>) -> Seq<u8> {
    Seq::new(
        s.len() / 2,
        |i: int| (hex_value(s[2 * i])->0 * 16 + hex_value(s[2 * i + 1])->0) as u8,
    )
}

/// Calls `hex::decode`; claims it succeeds exactly on an even number of hexadecimal
/// digits of either case, and then gives the bytes that the digit pairs stand for.
#[verifier::external_body]
pub(crate) fn hex_decode(s: &str) -> (r: Option<Vec<u8>>)
    ensures
        r is Some <==> hex_decodable(s@),
        r is Some ==> r->0@ == hex_bytes(s@),
{
    hex::decode(s).ok()
}

} // verus!
