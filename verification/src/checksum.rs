//! Checksums: the algorithms and modes, the `[<mode>;]<algorithm>;<digest>`
//! notation, and the computation of a file's checksum from its contents.

use vstd::prelude::*;
use vstd::string::*;

use crate::digest::{
    be_bytes_u32, be_bytes_u64, be_u32, be_u64, blake2b512_compute, blake2b512_digest,
    blake2b256_compute, blake2b256_digest, crc32_compute, crc32_value, hex_bytes, hex_decodable,
    hex_decode, hex_encode, hex_lower, md5_compute, md5_digest, sha1_compute, sha1_digest,
    sha256_compute, sha256_digest, sha512_compute, sha512_digest, xxh32_compute, xxh32_value,
    xxh3_compute, xxh3_value, xxh64_compute, xxh64_value,
};
use crate::text::{
    byte_line_spans, byte_lines, chars_of, count_until, find_char, lemma_count_until_is, span_is,
    spans_of, string_of,
};

verus! {

/// The chunk size used to read files when none is given.
pub const DEFAULT_CHUNK_SIZE: usize = 8192;

/// The checksum algorithms.
#[derive(Debug, Clone, Copy, PartialEq, Eq, Structural, Hash)]
pub enum ChecksumAlgorithm {
    /// MD5, a 128-bit cryptographic hash.
    MD5,
    /// SHA-1, a 160-bit cryptographic hash.
    SHA1,
    /// SHA-256, the 256-bit member of the SHA-2 family.
    SHA256,
    /// SHA-512, the 512-bit member of the SHA-2 family.
    SHA512,
    /// CRC32, a 32-bit cyclic redundancy check.
    CRC32,
    /// XXH3, a fast 64-bit non-cryptographic hash.
    XXH3,
    /// XXH32, a fast 32-bit non-cryptographic hash.
    XXH32,
    /// XXH64, a fast 64-bit non-cryptographic hash.
    XXH64,
    /// BLAKE2b with a 256-bit output.
    BLAKE2B256,
    /// BLAKE2b with a 512-bit output.
    BLAKE2B512,
    /// Chooses the fastest algorithm from the file size; artsum manifests only.
    Best,
}

impl Default for ChecksumAlgorithm {
    /// The default algorithm is `Best`.
    fn default() -> (r: Self)
        ensures
            r == ChecksumAlgorithm::Best,
    {
        ChecksumAlgorithm::Best
    }
}

/// The lowercase name of an algorithm, as the checksum notation writes it.
pub open spec fn algorithm_name(a: ChecksumAlgorithm) -> Seq<char> {
    match a {
        ChecksumAlgorithm::MD5 => seq!['m', 'd', '5'],
        ChecksumAlgorithm::SHA1 => seq!['s', 'h', 'a', '1'],
        ChecksumAlgorithm::SHA256 => seq!['s', 'h', 'a', '2', '5', '6'],
        ChecksumAlgorithm::SHA512 => seq!['s', 'h', 'a', '5', '1', '2'],
        ChecksumAlgorithm::CRC32 => seq!['c', 'r', 'c', '3', '2'],
        ChecksumAlgorithm::XXH3 => seq!['x', 'x', 'h', '3'],
        ChecksumAlgorithm::XXH32 => seq!['x', 'x', 'h', '3', '2'],
        ChecksumAlgorithm::XXH64 => seq!['x', 'x', 'h', '6', '4'],
        ChecksumAlgorithm::BLAKE2B256 => seq!['b', 'l', 'a', 'k', 'e', '2', 'b', '2', '5', '6'],
        ChecksumAlgorithm::BLAKE2B512 => seq!['b', 'l', 'a', 'k', 'e', '2', 'b', '5', '1', '2'],
        ChecksumAlgorithm::Best => seq!['b', 'e', 's', 't'],
    }
}

/// The algorithm whose name is exactly `s` (names are case-sensitive).
pub open spec fn algorithm_from_name(s: Seq<char>) -> Option<ChecksumAlgorithm> {
    if s == algorithm_name(ChecksumAlgorithm::MD5) {
        Some(ChecksumAlgorithm::MD5)
    } else if s == algorithm_name(ChecksumAlgorithm::SHA1) {
        Some(ChecksumAlgorithm::SHA1)
    } else if s == algorithm_name(ChecksumAlgorithm::SHA256) {
        Some(ChecksumAlgorithm::SHA256)
    } else if s == algorithm_name(ChecksumAlgorithm::SHA512) {
        Some(ChecksumAlgorithm::SHA512)
    } else if s == algorithm_name(ChecksumAlgorithm::CRC32) {
        Some(ChecksumAlgorithm::CRC32)
    } else if s == algorithm_name(ChecksumAlgorithm::XXH3) {
        Some(ChecksumAlgorithm::XXH3)
    } else if s == algorithm_name(ChecksumAlgorithm::XXH32) {
        Some(ChecksumAlgorithm::XXH32)
    } else if s == algorithm_name(ChecksumAlgorithm::XXH64) {
        Some(ChecksumAlgorithm::XXH64)
    } else if s == algorithm_name(ChecksumAlgorithm::BLAKE2B256) {
        Some(ChecksumAlgorithm::BLAKE2B256)
    } else if s == algorithm_name(ChecksumAlgorithm::BLAKE2B512) {
        Some(ChecksumAlgorithm::BLAKE2B512)
    } else if s == algorithm_name(ChecksumAlgorithm::Best) {
        Some(ChecksumAlgorithm::Best)
    } else {
        None
    }
}

impl ChecksumAlgorithm {
    /// The lowercase name of the algorithm.
    pub fn name(&self) -> (r: &'static str)
        ensures
            r@ == algorithm_name(*self),
    {
        match self {
            ChecksumAlgorithm::MD5 => {
                proof {
                    reveal_strlit("md5");
                }
                "md5"
            },
            ChecksumAlgorithm::SHA1 => {
                proof {
                    reveal_strlit("sha1");
                }
                "sha1"
            },
            ChecksumAlgorithm::SHA256 => {
                proof {
                    reveal_strlit("sha256");
                }
                "sha256"
            },
            ChecksumAlgorithm::SHA512 => {
                proof {
                    reveal_strlit("sha512");
                }
                "sha512"
            },
            ChecksumAlgorithm::CRC32 => {
                proof {
                    reveal_strlit("crc32");
                }
                "crc32"
            },
            ChecksumAlgorithm::XXH3 => {
                proof {
                    reveal_strlit("xxh3");
                }
                "xxh3"
            },
            ChecksumAlgorithm::XXH32 => {
                proof {
                    reveal_strlit("xxh32");
                }
                "xxh32"
            },
            ChecksumAlgorithm::XXH64 => {
                proof {
                    reveal_strlit("xxh64");
                }
                "xxh64"
            },
            ChecksumAlgorithm::BLAKE2B256 => {
                proof {
                    reveal_strlit("blake2b256");
                }
                "blake2b256"
            },
            ChecksumAlgorithm::BLAKE2B512 => {
                proof {
                    reveal_strlit("blake2b512");
                }
                "blake2b512"
            },
            ChecksumAlgorithm::Best => {
                proof {
                    reveal_strlit("best");
                }
                "best"
            },
        }
    }

    /// The name of the algorithm as an owned string.
    pub fn to_string(&self) -> (r: String)
        ensures
            r@ == algorithm_name(*self),
    {
        String::from_str(self.name())
    }

    /// The algorithm named by `cs[from..to]`, if any.
    pub fn from_chars(cs: &Vec<char>, from: usize, to: usize) -> (r: Option<ChecksumAlgorithm>)
        requires
            from <= to <= cs@.len(),
        ensures
            r == algorithm_from_name(cs@.subrange(from as int, to as int)),
    {
        if span_is(cs, from, to, ChecksumAlgorithm::MD5.name()) {
            Some(ChecksumAlgorithm::MD5)
        } else if span_is(cs, from, to, ChecksumAlgorithm::SHA1.name()) {
            Some(ChecksumAlgorithm::SHA1)
        } else if span_is(cs, from, to, ChecksumAlgorithm::SHA256.name()) {
            Some(ChecksumAlgorithm::SHA256)
        } else if span_is(cs, from, to, ChecksumAlgorithm::SHA512.name()) {
            Some(ChecksumAlgorithm::SHA512)
        } else if span_is(cs, from, to, ChecksumAlgorithm::CRC32.name()) {
            Some(ChecksumAlgorithm::CRC32)
        } else if span_is(cs, from, to, ChecksumAlgorithm::XXH3.name()) {
            Some(ChecksumAlgorithm::XXH3)
        } else if span_is(cs, from, to, ChecksumAlgorithm::XXH32.name()) {
            Some(ChecksumAlgorithm::XXH32)
        } else if span_is(cs, from, to, ChecksumAlgorithm::XXH64.name()) {
            Some(ChecksumAlgorithm::XXH64)
        } else if span_is(cs, from, to, ChecksumAlgorithm::BLAKE2B256.name()) {
            Some(ChecksumAlgorithm::BLAKE2B256)
        } else if span_is(cs, from, to, ChecksumAlgorithm::BLAKE2B512.name()) {
            Some(ChecksumAlgorithm::BLAKE2B512)
        } else if span_is(cs, from, to, ChecksumAlgorithm::Best.name()) {
            Some(ChecksumAlgorithm::Best)
        } else {
            None
        }
    }

    /// The algorithm named `s`, if any (names are case-sensitive).
    pub fn from_name(s: &str) -> (r: Option<ChecksumAlgorithm>)
        ensures
            r == algorithm_from_name(s@),
    {
        let cs = chars_of(s);
        proof {
            assert(cs@.subrange(0, cs@.len() as int) =~= cs@);
        }
        ChecksumAlgorithm::from_chars(&cs, 0, cs.len())
    }
}


/// How a file's bytes are fed to the hash.
#[derive(Debug, Clone, Copy, PartialEq, Eq, Structural, Hash)]
pub enum ChecksumMode {
    /// The raw bytes of the file.
    Binary,
    /// The lines of the file, each ended by `\n` whatever ending it had.
    Text,
}

impl Default for ChecksumMode {
    /// The default mode is `Binary`.
    fn default() -> (r: Self)
        ensures
            r == ChecksumMode::Binary,
    {
        ChecksumMode::Binary
    }
}

/// The name of a mode: empty for binary, `text` for text.
pub open spec fn mode_name(m: ChecksumMode) -> Seq<char> {
    match m {
        ChecksumMode::Binary => Seq::empty(),
        ChecksumMode::Text => seq!['t', 'e', 'x', 't'],
    }
}

/// The mode whose name is exactly `s`.
pub open spec fn mode_from_name(s: Seq<char>) -> Option<ChecksumMode> {
    if s == mode_name(ChecksumMode::Binary) {
        Some(ChecksumMode::Binary)
    } else if s == mode_name(ChecksumMode::Text) {
        Some(ChecksumMode::Text)
    } else {
        None
    }
}

impl ChecksumMode {
    /// The name of the mode.
    pub fn name(&self) -> (r: &'static str)
        ensures
            r@ == mode_name(*self),
    {
        match self {
            ChecksumMode::Binary => {
                proof {
                    reveal_strlit("");
                }
                ""
            },
            ChecksumMode::Text => {
                proof {
                    reveal_strlit("text");
                }
                "text"
            },
        }
    }

    /// The name of the mode as an owned string.
    pub fn to_string(&self) -> (r: String)
        ensures
            r@ == mode_name(*self),
    {
        String::from_str(self.name())
    }

    /// The mode named by `cs[from..to]`, if any.
    pub fn from_chars(cs: &Vec<char>, from: usize, to: usize) -> (r: Option<ChecksumMode>)
        requires
            from <= to <= cs@.len(),
        ensures
            r == mode_from_name(cs@.subrange(from as int, to as int)),
    {
        if span_is(cs, from, to, ChecksumMode::Binary.name()) {
            Some(ChecksumMode::Binary)
        } else if span_is(cs, from, to, ChecksumMode::Text.name()) {
            Some(ChecksumMode::Text)
        } else {
            None
        }
    }

    /// The mode named `s`, if any.
    pub fn from_name(s: &str) -> (r: Option<ChecksumMode>)
        ensures
            r == mode_from_name(s@),
    {
        let cs = chars_of(s);
        proof {
            assert(cs@.subrange(0, cs@.len() as int) =~= cs@);
        }
        ChecksumMode::from_chars(&cs, 0, cs.len())
    }
}

/// The kinds of input/output failure that checksum computation reports.
#[derive(Debug, Clone, Copy, PartialEq, Eq, Structural, Hash)]
pub enum IoErrorKind {
    /// The file does not exist.
    NotFound,
    /// The file's contents are not what the mode requires (text that is not UTF-8).
    InvalidData,
    /// Any other failure to read the file.
    Other,
}

/// An input/output failure: its kind and its message.
#[derive(Debug, Clone, PartialEq, Eq)]
pub struct IoFailure {
    pub kind: IoErrorKind,
    pub message: String,
}

/// The errors of checksum operations.
#[derive(Debug, Clone, PartialEq, Eq)]
pub enum ChecksumError {
    /// Reading the file failed.
    IoError(IoFailure),
    /// A checksum string is not `<algorithm>;<digest>` or `<mode>;<algorithm>;<digest>`.
    InvalidChecksumFormat,
    /// A checksum string names no known algorithm; holds the name it gave.
    UnsupportedAlgorithm(String),
    /// A checksum string names no known mode; holds the name it gave.
    UnsupportedMode(String),
}

/// The mathematical value of a checksum error.
pub enum ChecksumErrorView {
    Io(IoErrorKind, Seq<char>),
    InvalidChecksumFormat,
    UnsupportedAlgorithm(Seq<char>),
    UnsupportedMode(Seq<char>),
}

impl View for ChecksumError {
    type V = ChecksumErrorView;

    open spec fn view(&self) -> ChecksumErrorView {
        match self {
            ChecksumError::IoError(f) => ChecksumErrorView::Io(f.kind, f.message@),
            ChecksumError::InvalidChecksumFormat => ChecksumErrorView::InvalidChecksumFormat,
            ChecksumError::UnsupportedAlgorithm(s) => ChecksumErrorView::UnsupportedAlgorithm(s@),
            ChecksumError::UnsupportedMode(s) => ChecksumErrorView::UnsupportedMode(s@),
        }
    }
}

/// The message of a checksum error.
pub open spec fn checksum_error_text(e: ChecksumErrorView) -> Seq<char> {
    match e {
        ChecksumErrorView::Io(_, m) => "IO Error: "@ + m,
        ChecksumErrorView::InvalidChecksumFormat =>
            "Invalid checksum string format, expected '<algorithm>;<digest>' or '<mode>;<algorithm>;<digest>'"@,
        ChecksumErrorView::UnsupportedAlgorithm(s) => "Unsupported checksum algorithm "@ + s,
        ChecksumErrorView::UnsupportedMode(s) => "Unsupported checksum mode "@ + s,
    }
}

impl ChecksumError {
    /// The message of the error.
    pub fn to_string(&self) -> (r: String)
        ensures
            r@ == checksum_error_text(self@),
    {
        match self {
            ChecksumError::IoError(f) => {
                let mut s = String::from_str("IO Error: ");
                s.append(f.message.as_str());
                s
            },
            ChecksumError::InvalidChecksumFormat => String::from_str(
                "Invalid checksum string format, expected '<algorithm>;<digest>' or '<mode>;<algorithm>;<digest>'",
            ),
            ChecksumError::UnsupportedAlgorithm(a) => {
                let mut s = String::from_str("Unsupported checksum algorithm ");
                s.append(a.as_str());
                s
            },
            ChecksumError::UnsupportedMode(m) => {
                let mut s = String::from_str("Unsupported checksum mode ");
                s.append(m.as_str());
                s
            },
        }
    }
}

/// A checksum: the mode and algorithm it was computed with, and the digest
/// in hexadecimal.
#[derive(Debug, Clone, PartialEq, Eq, Hash)]
pub struct Checksum {
    pub mode: ChecksumMode,
    pub algorithm: ChecksumAlgorithm,
    pub digest: String,
}

/// The mathematical value of a checksum.
pub struct ChecksumView {
    pub mode: ChecksumMode,
    pub algorithm: ChecksumAlgorithm,
    pub digest: Seq<char>,
}

impl View for Checksum {
    type V = ChecksumView;

    open spec fn view(&self) -> ChecksumView {
        ChecksumView { mode: self.mode, algorithm: self.algorithm, digest: self.digest@ }
    }
}

/// The notation of a checksum: `<algorithm>;<digest>`, or `text;<algorithm>;<digest>`
/// in text mode.
pub open spec fn render_checksum(c: ChecksumView) -> Seq<char> {
    if c.mode == ChecksumMode::Text {
        mode_name(ChecksumMode::Text) + seq![';'] + algorithm_name(c.algorithm) + seq![';']
            + c.digest
    } else {
        algorithm_name(c.algorithm) + seq![';'] + c.digest
    }
}

/// What parsing a checksum string gives: the string is cut at `;` into at most
/// three parts; a first part naming a mode is followed by the algorithm and the
/// digest (which may hold `;`); otherwise the first part is the algorithm and the
/// second, which must end the string, the digest, in binary mode.
pub open spec fn parse_checksum(s: Seq<char>) -> Result<ChecksumView, ChecksumErrorView> {
    let i = count_until(s, ';');
    if i >= s.len() {
        Err(ChecksumErrorView::InvalidChecksumFormat)
    } else {
        let first = s.take(i as int);
        let rest = s.skip(i as int + 1);
        let j = count_until(rest, ';');
        match mode_from_name(first) {
            Some(mode) => {
                if j >= rest.len() {
                    Err(ChecksumErrorView::InvalidChecksumFormat)
                } else {
                    let name = rest.take(j as int);
                    match algorithm_from_name(name) {
                        Some(algorithm) => Ok(
                            ChecksumView { mode, algorithm, digest: rest.skip(j as int + 1) },
                        ),
                        None => Err(ChecksumErrorView::UnsupportedAlgorithm(name)),
                    }
                }
            },
            None => {
                if j < rest.len() {
                    Err(ChecksumErrorView::InvalidChecksumFormat)
                } else {
                    match algorithm_from_name(first) {
                        Some(algorithm) => Ok(
                            ChecksumView { mode: ChecksumMode::Binary, algorithm, digest: rest },
                        ),
                        None => Err(ChecksumErrorView::UnsupportedAlgorithm(first)),
                    }
                }
            },
        }
    }
}

/// The values of a parse result.
pub open spec fn checksum_result_view(r: Result<Checksum, ChecksumError>) -> Result<
    ChecksumView,
    ChecksumErrorView,
> {
    match r {
        Ok(c) => Ok(c@),
        Err(e) => Err(e@),
    }
}

impl Checksum {
    /// Parses the checksum written in `cs[from..to]`.
    pub fn from_chars(cs: &Vec<char>, from: usize, to: usize) -> (r: Result<Checksum, ChecksumError>)
        requires
            from <= to <= cs@.len(),
        ensures
            checksum_result_view(r) == parse_checksum(cs@.subrange(from as int, to as int)),
    {
        let ghost s = cs@.subrange(from as int, to as int);
        let i = find_char(cs, from, to, ';');
        if i == to {
            return Err(ChecksumError::InvalidChecksumFormat);
        }
        let j = find_char(cs, i + 1, to, ';');
        proof {
            assert(s.take(i - from) =~= cs@.subrange(from as int, i as int));
            assert(s.skip(i - from + 1) =~= cs@.subrange(i + 1, to as int));
            let rest = cs@.subrange(i + 1, to as int);
            if j < to {
                assert(rest.take(j - (i + 1)) =~= cs@.subrange(i + 1, j as int));
                assert(rest.skip(j - (i + 1) + 1) =~= cs@.subrange(j + 1, to as int));
            }
        }
        match ChecksumMode::from_chars(cs, from, i) {
            Some(mode) => {
                if j == to {
                    Err(ChecksumError::InvalidChecksumFormat)
                } else {
                    match ChecksumAlgorithm::from_chars(cs, i + 1, j) {
                        Some(algorithm) => Ok(
                            Checksum { mode, algorithm, digest: string_of(cs, j + 1, to) },
                        ),
                        None => Err(ChecksumError::UnsupportedAlgorithm(string_of(cs, i + 1, j))),
                    }
                }
            },
            None => {
                if j < to {
                    Err(ChecksumError::InvalidChecksumFormat)
                } else {
                    match ChecksumAlgorithm::from_chars(cs, from, i) {
                        Some(algorithm) => Ok(
                            Checksum {
                                mode: ChecksumMode::Binary,
                                algorithm,
                                digest: string_of(cs, i + 1, to),
                            },
                        ),
                        None => Err(ChecksumError::UnsupportedAlgorithm(string_of(cs, from, i))),
                    }
                }
            },
        }
    }

    /// Parses a checksum written `<algorithm>;<digest>` or `<mode>;<algorithm>;<digest>`.
    pub fn from_str(s: &str) -> (r: Result<Checksum, ChecksumError>)
        ensures
            checksum_result_view(r) == parse_checksum(s@),
    {
        let cs = chars_of(s);
        proof {
            assert(cs@.subrange(0, cs@.len() as int) =~= cs@);
        }
        Checksum::from_chars(&cs, 0, cs.len())
    }

    /// The notation of the checksum.
    pub fn to_string(&self) -> (r: String)
        ensures
            r@ == render_checksum(self@),
    {
        let mut s = String::new();
        if self.mode == ChecksumMode::Text {
            s.append(ChecksumMode::Text.name());
            s.append(";");
        }
        s.append(self.algorithm.name());
        s.append(";");
        s.append(self.digest.as_str());
        proof {
            reveal_strlit(";");
            assert(s@ =~= render_checksum(self@));
        }
        s
    }

    /// Whether two checksums are equal in mode, algorithm and digest.
    pub fn same_as(&self, other: &Checksum) -> (r: bool)
        ensures
            r == (self@ == other@),
    {
        self.mode == other.mode && self.algorithm == other.algorithm && self.digest == other.digest
    }

    /// A copy of the checksum.
    pub fn duplicate(&self) -> (r: Checksum)
        ensures
            r@ == self@,
    {
        Checksum { mode: self.mode, algorithm: self.algorithm, digest: self.digest.clone() }
    }
}

/// Two sequences that differ in length or at some position are different.
proof fn lemma_differ<A>(a: Seq<A>, b: Seq<A>, i: int)
    requires
        a.len() != b.len() || (0 <= i < a.len() && i < b.len() && a[i] != b[i]),
    ensures
        a != b,
{
}

/// Facts about an algorithm's name that the checksum notation relies on.
pub proof fn lemma_algorithm_name(a: ChecksumAlgorithm)
    ensures
        algorithm_name(a).len() > 0,
        forall|k: int|
            0 <= k < algorithm_name(a).len() ==> (#[trigger] algorithm_name(a)[k]) != ';'
                && !crate::text::is_ws(algorithm_name(a)[k]) && algorithm_name(a)[k] != '#',
        algorithm_from_name(algorithm_name(a)) == Some(a),
        mode_from_name(algorithm_name(a)) is None,
{
    let n = algorithm_name(a);
    lemma_differ(n, mode_name(ChecksumMode::Binary), 0);
    lemma_differ(n, mode_name(ChecksumMode::Text), 0);
    let md5 = algorithm_name(ChecksumAlgorithm::MD5);
    let sha1 = algorithm_name(ChecksumAlgorithm::SHA1);
    let sha256 = algorithm_name(ChecksumAlgorithm::SHA256);
    let sha512 = algorithm_name(ChecksumAlgorithm::SHA512);
    let crc32 = algorithm_name(ChecksumAlgorithm::CRC32);
    let xxh3 = algorithm_name(ChecksumAlgorithm::XXH3);
    let xxh32 = algorithm_name(ChecksumAlgorithm::XXH32);
    let xxh64 = algorithm_name(ChecksumAlgorithm::XXH64);
    let b256 = algorithm_name(ChecksumAlgorithm::BLAKE2B256);
    let b512 = algorithm_name(ChecksumAlgorithm::BLAKE2B512);
    match a {
        ChecksumAlgorithm::MD5 => {},
        ChecksumAlgorithm::SHA1 => {
            lemma_differ(n, md5, 0);
        },
        ChecksumAlgorithm::SHA256 => {
            lemma_differ(n, md5, 0);
            lemma_differ(n, sha1, 0);
        },
        ChecksumAlgorithm::SHA512 => {
            lemma_differ(n, md5, 0);
            lemma_differ(n, sha1, 0);
            lemma_differ(n, sha256, 3);
        },
        ChecksumAlgorithm::CRC32 => {
            lemma_differ(n, md5, 0);
            lemma_differ(n, sha1, 0);
            lemma_differ(n, sha256, 0);
            lemma_differ(n, sha512, 0);
        },
        ChecksumAlgorithm::XXH3 => {
            lemma_differ(n, md5, 0);
            lemma_differ(n, sha1, 0);
            lemma_differ(n, sha256, 0);
            lemma_differ(n, sha512, 0);
            lemma_differ(n, crc32, 0);
        },
        ChecksumAlgorithm::XXH32 => {
            lemma_differ(n, md5, 0);
            lemma_differ(n, sha1, 0);
            lemma_differ(n, sha256, 0);
            lemma_differ(n, sha512, 0);
            lemma_differ(n, crc32, 0);
            lemma_differ(n, xxh3, 0);
        },
        ChecksumAlgorithm::XXH64 => {
            lemma_differ(n, md5, 0);
            lemma_differ(n, sha1, 0);
            lemma_differ(n, sha256, 0);
            lemma_differ(n, sha512, 0);
            lemma_differ(n, crc32, 0);
            lemma_differ(n, xxh3, 0);
            lemma_differ(n, xxh32, 3);
        },
        ChecksumAlgorithm::BLAKE2B256 => {
            lemma_differ(n, md5, 0);
            lemma_differ(n, sha1, 0);
            lemma_differ(n, sha256, 0);
            lemma_differ(n, sha512, 0);
            lemma_differ(n, crc32, 0);
            lemma_differ(n, xxh3, 0);
            lemma_differ(n, xxh32, 0);
            lemma_differ(n, xxh64, 0);
        },
        ChecksumAlgorithm::BLAKE2B512 => {
            lemma_differ(n, md5, 0);
            lemma_differ(n, sha1, 0);
            lemma_differ(n, sha256, 0);
            lemma_differ(n, sha512, 0);
            lemma_differ(n, crc32, 0);
            lemma_differ(n, xxh3, 0);
            lemma_differ(n, xxh32, 0);
            lemma_differ(n, xxh64, 0);
            lemma_differ(n, b256, 7);
        },
        ChecksumAlgorithm::Best => {
            lemma_differ(n, md5, 0);
            lemma_differ(n, sha1, 0);
            lemma_differ(n, sha256, 0);
            lemma_differ(n, sha512, 0);
            lemma_differ(n, crc32, 0);
            lemma_differ(n, xxh3, 0);
            lemma_differ(n, xxh32, 0);
            lemma_differ(n, xxh64, 0);
            lemma_differ(n, b256, 1);
            lemma_differ(n, b512, 1);
        },
    }
}


/// Parsing the notation of a checksum gives that checksum back, provided a
/// binary-mode digest holds no `;` (which would read as a third part).
pub proof fn lemma_checksum_round_trip(c: ChecksumView)
    requires
        c.mode == ChecksumMode::Text || !c.digest.contains(';'),
    ensures
        parse_checksum(render_checksum(c)) == Ok::<ChecksumView, ChecksumErrorView>(c),
{
    lemma_algorithm_name(c.algorithm);
    let name = algorithm_name(c.algorithm);
    let s = render_checksum(c);
    if c.mode == ChecksumMode::Text {
        let t = mode_name(ChecksumMode::Text);
        lemma_count_until_is(s, ';', 4);
        assert(s.take(4) =~= t);
        let rest = s.skip(5);
        assert(rest =~= name + seq![';'] + c.digest);
        assert(rest[name.len() as int] == ';');
        lemma_count_until_is(rest, ';', name.len() as int);
        assert(rest.take(name.len() as int) =~= name);
        assert(rest.skip(name.len() as int + 1) =~= c.digest);
    } else {
        assert(s[name.len() as int] == ';');
        lemma_count_until_is(s, ';', name.len() as int);
        assert(s.take(name.len() as int) =~= name);
        let rest = s.skip(name.len() as int + 1);
        assert(rest =~= c.digest);
        assert forall|j: int| 0 <= j < rest.len() implies rest[j] != ';' by {
            if rest[j] == ';' {
                assert(c.digest.contains(';'));
            }
        }
        lemma_count_until_is(rest, ';', rest.len() as int);
    }
}


/// Calls `std::str::from_utf8`; claims it succeeds exactly on well-formed UTF-8.
#[verifier::external_body]
fn utf8_valid(bytes: &[u8]) -> (r: bool)
    ensures
        r == vstd::utf8::valid_utf8(bytes@),
{
    std::str::from_utf8(bytes).is_ok()
}

/// The algorithm that `Best` stands for on a file of `size` bytes: CRC32 below
/// one kibibyte, XXH3 from there on.
pub open spec fn best_for_size(size: nat) -> ChecksumAlgorithm {
    if size < 1024 {
        ChecksumAlgorithm::CRC32
    } else {
        ChecksumAlgorithm::XXH3
    }
}

/// The algorithm a checksum of a file of `size` bytes is computed with.
pub open spec fn resolved_algorithm(a: ChecksumAlgorithm, size: nat) -> ChecksumAlgorithm {
    if a == ChecksumAlgorithm::Best {
        best_for_size(size)
    } else {
        a
    }
}

/// The digest bytes of `data` under a concrete algorithm; the integer hashes
/// are taken big-endian.
pub open spec fn algorithm_digest(a: ChecksumAlgorithm, data: Seq<u8>) -> Seq<u8> {
    match a {
        ChecksumAlgorithm::MD5 => md5_digest(data),
        ChecksumAlgorithm::SHA1 => sha1_digest(data),
        ChecksumAlgorithm::SHA256 => sha256_digest(data),
        ChecksumAlgorithm::SHA512 => sha512_digest(data),
        ChecksumAlgorithm::CRC32 => be_bytes_u32(crc32_value(data)),
        ChecksumAlgorithm::XXH3 => be_bytes_u64(xxh3_value(data)),
        ChecksumAlgorithm::XXH32 => be_bytes_u32(xxh32_value(data)),
        ChecksumAlgorithm::XXH64 => be_bytes_u64(xxh64_value(data)),
        ChecksumAlgorithm::BLAKE2B256 => blake2b256_digest(data),
        ChecksumAlgorithm::BLAKE2B512 => blake2b512_digest(data),
        ChecksumAlgorithm::Best => Seq::empty(),
    }
}

/// The number of bytes of a digest under a concrete algorithm.
pub open spec fn digest_length(a: ChecksumAlgorithm) -> nat {
    match a {
        ChecksumAlgorithm::MD5 => 16,
        ChecksumAlgorithm::SHA1 => 20,
        ChecksumAlgorithm::SHA256 => 32,
        ChecksumAlgorithm::SHA512 => 64,
        ChecksumAlgorithm::CRC32 => 4,
        ChecksumAlgorithm::XXH3 => 8,
        ChecksumAlgorithm::XXH32 => 4,
        ChecksumAlgorithm::XXH64 => 8,
        ChecksumAlgorithm::BLAKE2B256 => 32,
        ChecksumAlgorithm::BLAKE2B512 => 64,
        ChecksumAlgorithm::Best => 0,
    }
}

/// Each line followed by `\n`.
pub open spec fn lines_with_newlines(ls: Seq<Seq<u8>>) -> Seq<u8>
    decreases ls.len(),
{
    if ls.len() == 0 {
        Seq::empty()
    } else {
        lines_with_newlines(ls.drop_last()) + ls.last().push(10u8)
    }
}

/// Whether every line of `b` is UTF-8.
pub open spec fn lines_are_utf8(b: Seq<u8>) -> bool {
    forall|i: int| 0 <= i < byte_lines(b).len() ==> vstd::utf8::valid_utf8(#[trigger] byte_lines(b)[i])
}

/// The bytes that the hash is fed: in binary mode the file's bytes (none when
/// reading in chunks of zero bytes); in text mode each line followed by `\n`,
/// when every line is UTF-8.
pub open spec fn hashed_bytes(mode: ChecksumMode, chunk_size: Option<usize>, b: Seq<u8>) -> Option<Seq<u8>> {
    match mode {
        ChecksumMode::Binary => Some(
            if chunk_size == Some(0usize) {
                Seq::empty()
            } else {
                b
            },
        ),
        ChecksumMode::Text => if lines_are_utf8(b) {
            Some(lines_with_newlines(byte_lines(b)))
        } else {
            None
        },
    }
}

/// Whether reading `b` as text in chunks of zero bytes fails on a chunk of
/// nothing: it does once a first line has been read.
pub open spec fn zero_chunk_text_fails(mode: ChecksumMode, chunk_size: Option<usize>, b: Seq<u8>) -> bool {
    &&& mode == ChecksumMode::Text
    &&& chunk_size == Some(0usize)
    &&& byte_lines(b).len() > 0
    &&& vstd::utf8::valid_utf8(byte_lines(b)[0])
}

/// The message of the failure to read a file as text.
pub open spec fn not_utf8_message() -> Seq<char> {
    "stream did not contain valid UTF-8"@
}

/// The digest of a file's contents, or the failure to compute it.
pub open spec fn file_digest(
    algorithm: ChecksumAlgorithm,
    mode: ChecksumMode,
    chunk_size: Option<usize>,
    content: Result<Seq<u8>, (IoErrorKind, Seq<char>)>,
) -> Result<Seq<u8>, (IoErrorKind, Seq<char>)> {
    match content {
        Err(f) => Err(f),
        Ok(b) => match hashed_bytes(mode, chunk_size, b) {
            None => Err((IoErrorKind::InvalidData, not_utf8_message())),
            Some(d) => Ok(algorithm_digest(resolved_algorithm(algorithm, b.len()), d)),
        },
    }
}

/// The values of what reading a file gave.
pub open spec fn content_view(content: &Result<Vec<u8>, IoFailure>) -> Result<Seq<u8>, (IoErrorKind, Seq<char>)> {
    match content {
        Ok(b) => Ok(b@),
        Err(f) => Err((f.kind, f.message@)),
    }
}

/// The progress handler of a computation that reports no progress.
#[derive(Debug, Clone, Copy, PartialEq, Eq)]
pub struct NoProgress;

/// What a checksum computation is asked to do.
#[derive(Debug, Clone)]
pub struct ChecksumOptions<P = NoProgress> {
    /// The path of the file.
    pub filepath: String,
    /// The algorithm to use.
    pub algorithm: ChecksumAlgorithm,
    /// The mode to use.
    pub mode: ChecksumMode,
    /// The size of the chunks the file is read in; `DEFAULT_CHUNK_SIZE` when none.
    pub chunk_size: Option<usize>,
    /// What is told of the progress (the bytes read and the file's size), if anything.
    pub progress_callback: Option<P>,
}

/// The options of one pass over a file's chunks, with what handles each chunk
/// and what is told of the progress.
pub struct ChecksumProcessingOptions<'a, F, P = NoProgress> {
    pub filepath: &'a String,
    pub mode: ChecksumMode,
    pub chunk_size: Option<usize>,
    pub process_chunk: F,
    pub progress_callback: Option<P>,
}

impl<P: Copy> ChecksumOptions<P> {
    /// The options of a pass over the file's chunks, each handed to
    /// `process_chunk`, with the progress handler of these options.
    pub fn to_processing_options<F>(&self, process_chunk: F) -> (r: ChecksumProcessingOptions<'_, F, P>)
        ensures
            r.filepath == &self.filepath,
            r.mode == self.mode,
            r.chunk_size == self.chunk_size,
            r.process_chunk == process_chunk,
            r.progress_callback == self.progress_callback,
    {
        ChecksumProcessingOptions {
            filepath: &self.filepath,
            mode: self.mode,
            chunk_size: self.chunk_size,
            process_chunk,
            progress_callback: self.progress_callback,
        }
    }
}

impl ChecksumAlgorithm {
    /// The fastest algorithm for a file of `file_size` bytes.
    pub fn select_best(file_size: u64) -> (r: ChecksumAlgorithm)
        ensures
            r == best_for_size(file_size as nat),
    {
        if file_size < 1024 {
            ChecksumAlgorithm::CRC32
        } else {
            ChecksumAlgorithm::XXH3
        }
    }

    /// The digest of `data` under this algorithm, which must be a concrete one.
    pub fn digest(&self, data: &[u8]) -> (r: Vec<u8>)
        requires
            *self != ChecksumAlgorithm::Best,
        ensures
            r@ == algorithm_digest(*self, data@),
            r@.len() == digest_length(*self),
    {
        match self {
            ChecksumAlgorithm::MD5 => md5_compute(data),
            ChecksumAlgorithm::SHA1 => sha1_compute(data),
            ChecksumAlgorithm::SHA256 => sha256_compute(data),
            ChecksumAlgorithm::SHA512 => sha512_compute(data),
            ChecksumAlgorithm::CRC32 => be_u32(crc32_compute(data)),
            ChecksumAlgorithm::XXH3 => be_u64(xxh3_compute(data)),
            ChecksumAlgorithm::XXH32 => be_u32(xxh32_compute(data)),
            ChecksumAlgorithm::XXH64 => be_u64(xxh64_compute(data)),
            ChecksumAlgorithm::BLAKE2B256 => blake2b256_compute(data),
            ChecksumAlgorithm::BLAKE2B512 => blake2b512_compute(data),
            ChecksumAlgorithm::Best => vstd::pervasive::unreached(),
        }
    }

    /// The digest of a file's contents under `options` (this algorithm plays no part:
    /// the options name the algorithm).
    pub fn checksum_file<P>(&self, options: &ChecksumOptions<P>, content: &Result<Vec<u8>, IoFailure>) -> (r:
        Result<Vec<u8>, ChecksumError>)
        requires
            content matches Ok(b) ==> !zero_chunk_text_fails(options.mode, options.chunk_size, b@),
        ensures
            match file_digest(options.algorithm, options.mode, options.chunk_size, content_view(content)) {
                Ok(d) => r matches Ok(v) && v@ == d,
                Err(f) => r matches Err(e) && e@ == ChecksumErrorView::Io(f.0, f.1),
            },
            r matches Ok(v) ==> content matches Ok(b) && v@.len() == digest_length(
                resolved_algorithm(options.algorithm, b@.len()),
            ),
    {
        match checksum_file(options, content) {
            Ok(d) => Ok(d),
            Err(f) => Err(ChecksumError::IoError(f)),
        }
    }
}

/// Whether reading `content` as text in chunks of zero bytes fails on a chunk
/// of nothing, which ends the program.
pub fn zero_chunk_text_failure<P>(options: &ChecksumOptions<P>, content: &Vec<u8>) -> (r: bool)
    ensures
        r == zero_chunk_text_fails(options.mode, options.chunk_size, content@),
{
    if options.mode != ChecksumMode::Text || options.chunk_size != Some(0usize) {
        return false;
    }
    let spans = byte_line_spans(content);
    if spans.len() == 0 {
        return false;
    }
    proof {
        assert(spans_of(content@, spans@)[0] == content@.subrange(spans@[0].0 as int, spans@[0].1 as int));
    }
    let (from, to) = spans[0];
    utf8_valid(&content.as_slice()[from..to])
}

/// The bytes the hash is fed, or `None` when text mode meets a line that is not UTF-8.
pub fn hashed_input(mode: ChecksumMode, chunk_size: Option<usize>, content: &Vec<u8>) -> (r: Option<Vec<u8>>)
    ensures
        match hashed_bytes(mode, chunk_size, content@) {
            Some(d) => r matches Some(v) && v@ == d,
            None => r is None,
        },
{
    match mode {
        ChecksumMode::Binary => {
            if chunk_size == Some(0usize) {
                Some(Vec::new())
            } else {
                Some(content.clone())
            }
        },
        ChecksumMode::Text => {
            let spans = byte_line_spans(content);
            let ghost lines = byte_lines(content@);
            let mut out: Vec<u8> = Vec::new();
            let mut i: usize = 0;
            while i < spans.len()
                invariant
                    mode == ChecksumMode::Text,
                    i <= spans@.len(),
                    spans_of(content@, spans@) == lines,
                    crate::text::spans_within(spans@, content@.len()),
                    lines == byte_lines(content@),
                    out@ == lines_with_newlines(lines.take(i as int)),
                    forall|k: int| 0 <= k < i ==> vstd::utf8::valid_utf8(#[trigger] lines[k]),
                decreases spans@.len() - i,
            {
                let (from, to) = spans[i];
                proof {
                    assert(lines[i as int] == content@.subrange(from as int, to as int));
                }
                if !utf8_valid(&content.as_slice()[from..to]) {
                    proof {
                        assert(!vstd::utf8::valid_utf8(byte_lines(content@)[i as int]));
                    }
                    return None;
                }
                let mut k: usize = from;
                let ghost before = out@;
                while k < to
                    invariant
                        from <= k <= to <= content@.len(),
                        out@ == before + content@.subrange(from as int, k as int),
                    decreases to - k,
                {
                    out.push(content[k]);
                    proof {
                        assert(out@ =~= before + content@.subrange(from as int, k + 1));
                    }
                    k = k + 1;
                }
                out.push(10u8);
                proof {
                    assert(lines.take(i + 1).drop_last() =~= lines.take(i as int));
                    assert(out@ =~= lines_with_newlines(lines.take(i + 1)));
                }
                i = i + 1;
            }
            proof {
                assert(lines.take(i as int) =~= lines);
            }
            Some(out)
        },
    }
}

/// Chunks of bytes, one after the other.
pub open spec fn flatten(cs: Seq<Seq<u8>>) -> Seq<u8>
    decreases cs.len(),
{
    if cs.len() == 0 {
        Seq::empty()
    } else {
        flatten(cs.drop_last()) + cs.last()
    }
}

/// Chunks as values.
pub open spec fn chunks_view(cs: Vec<Vec<u8>>) -> Seq<Seq<u8>> {
    cs@.map_values(|c: Vec<u8>| c@)
}

/// Whether every chunk holds at least one byte and at most `size`.
pub open spec fn chunks_fit(cs: Seq<Seq<u8>>, size: nat) -> bool {
    forall|i: int| 0 <= i < cs.len() ==> 0 < (#[trigger] cs[i]).len() <= size
}

/// Appends `bytes[from..to]` to `out` in chunks of `size` bytes, the last one shorter.
fn push_pieces(out: &mut Vec<Vec<u8>>, bytes: &Vec<u8>, from: usize, to: usize, size: usize)
    requires
        size > 0,
        from <= to <= bytes@.len(),
        chunks_fit(chunks_view(*old(out)), size as nat),
    ensures
        flatten(chunks_view(*final(out))) == flatten(chunks_view(*old(out))) + bytes@.subrange(
            from as int,
            to as int,
        ),
        chunks_fit(chunks_view(*final(out)), size as nat),
{
    let mut start: usize = from;
    while start < to
        invariant
            size > 0,
            from <= start <= to <= bytes@.len(),
            flatten(chunks_view(*out)) == flatten(chunks_view(*old(out))) + bytes@.subrange(
                from as int,
                start as int,
            ),
            chunks_fit(chunks_view(*out), size as nat),
        decreases to - start,
    {
        let end: usize = if to - start > size {
            start + size
        } else {
            to
        };
        let mut piece: Vec<u8> = Vec::new();
        let mut k: usize = start;
        while k < end
            invariant
                start <= k <= end <= bytes@.len(),
                piece@ == bytes@.subrange(start as int, k as int),
            decreases end - k,
        {
            piece.push(bytes[k]);
            proof {
                assert(piece@ =~= bytes@.subrange(start as int, k + 1));
            }
            k = k + 1;
        }
        let ghost before = chunks_view(*out);
        let ghost pv = piece@;
        out.push(piece);
        proof {
            assert(chunks_view(*out) =~= before.push(pv));
            assert(chunks_view(*out).drop_last() =~= before);
            assert(bytes@.subrange(from as int, end as int) =~= bytes@.subrange(from as int, start as int)
                + pv);
        }
        start = end;
    }
}

/// The chunks a pass over a file's contents hands to the hash, in order. In
/// binary mode the bytes are read in chunks of `chunk_size`. In text mode the
/// lines, each followed by `\n`, are gathered into chunks of at most
/// `chunk_size` bytes, and a line longer than that is handed on in pieces of
/// `chunk_size`; `None` when a line is not UTF-8. The chunks together are the
/// bytes the hash is fed.
pub fn file_chunks(mode: ChecksumMode, chunk_size: usize, content: &Vec<u8>) -> (r: Option<Vec<Vec<u8>>>)
    requires
        chunk_size > 0,
    ensures
        match hashed_bytes(mode, Some(chunk_size), content@) {
            None => r is None,
            Some(d) => r matches Some(cs) && flatten(chunks_view(cs)) == d && chunks_fit(
                chunks_view(cs),
                chunk_size as nat,
            ),
        },
{
    let mut out: Vec<Vec<u8>> = Vec::new();
    proof {
        assert(chunks_view(out) =~= Seq::<Seq<u8>>::empty());
    }
    match mode {
        ChecksumMode::Binary => {
            push_pieces(&mut out, content, 0, content.len(), chunk_size);
            proof {
                assert(content@.subrange(0, content@.len() as int) =~= content@);
            }
            Some(out)
        },
        ChecksumMode::Text => {
            if hashed_input(mode, Some(chunk_size), content).is_none() {
                return None;
            }
            let spans = byte_line_spans(content);
            let ghost lines = byte_lines(content@);
            let mut buffer: Vec<u8> = Vec::new();
            let mut i: usize = 0;
            while i < spans.len()
                invariant
                    chunk_size > 0,
                    i <= spans@.len(),
                    spans_of(content@, spans@) == lines,
                    crate::text::spans_within(spans@, content@.len()),
                    lines == byte_lines(content@),
                    flatten(chunks_view(out)) + buffer@ == lines_with_newlines(lines.take(i as int)),
                    chunks_fit(chunks_view(out), chunk_size as nat),
                    buffer@.len() <= chunk_size,
                decreases spans@.len() - i,
            {
                let (from, to) = spans[i];
                let mut line: Vec<u8> = Vec::new();
                let mut k: usize = from;
                while k < to
                    invariant
                        from <= k <= to <= content@.len(),
                        line@ == content@.subrange(from as int, k as int),
                    decreases to - k,
                {
                    line.push(content[k]);
                    proof {
                        assert(line@ =~= content@.subrange(from as int, k + 1));
                    }
                    k = k + 1;
                }
                line.push(10u8);
                let ghost lv = line@;
                let ghost prefix = lines_with_newlines(lines.take(i as int));
                proof {
                    assert(lines[i as int] == content@.subrange(from as int, to as int));
                    assert(lines.take(i + 1).drop_last() =~= lines.take(i as int));
                    assert(lines_with_newlines(lines.take(i + 1)) == prefix + lv);
                }
                if buffer.len() > 0 && line.len() > chunk_size - buffer.len() {
                    let ghost before = chunks_view(out);
                    let ghost bv = buffer@;
                    out.push(buffer);
                    proof {
                        assert(chunks_view(out) =~= before.push(bv));
                        assert(chunks_view(out).drop_last() =~= before);
                    }
                    buffer = Vec::new();
                    proof {
                        assert(flatten(chunks_view(out)) + buffer@ =~= prefix);
                    }
                }
                if line.len() > chunk_size {
                    if buffer.len() > 0 {
                        let ghost before = chunks_view(out);
                        let ghost bv = buffer@;
                        out.push(buffer);
                        proof {
                            assert(chunks_view(out) =~= before.push(bv));
                            assert(chunks_view(out).drop_last() =~= before);
                        }
                        buffer = Vec::new();
                    }
                    proof {
                        assert(flatten(chunks_view(out)) =~= prefix);
                    }
                    let n = line.len();
                    push_pieces(&mut out, &line, 0, n, chunk_size);
                    proof {
                        assert(line@.subrange(0, n as int) =~= lv);
                        assert(flatten(chunks_view(out)) + buffer@ =~= prefix + lv);
                    }
                } else {
                    let ghost bv = buffer@;
                    let mut j: usize = 0;
                    while j < line.len()
                        invariant
                            j <= line@.len(),
                            line@ == lv,
                            buffer@ == bv + lv.take(j as int),
                        decreases line@.len() - j,
                    {
                        buffer.push(line[j]);
                        proof {
                            assert(buffer@ =~= bv + lv.take(j + 1));
                        }
                        j = j + 1;
                    }
                    proof {
                        assert(lv.take(lv.len() as int) =~= lv);
                        assert(flatten(chunks_view(out)) + buffer@ =~= (flatten(chunks_view(out)) + bv) + lv);
                    }
                }
                i = i + 1;
            }
            if buffer.len() > 0 {
                let ghost before = chunks_view(out);
                let ghost bv = buffer@;
                out.push(buffer);
                proof {
                    assert(chunks_view(out) =~= before.push(bv));
                    assert(chunks_view(out).drop_last() =~= before);
                }
            } else {
                proof {
                    assert(flatten(chunks_view(out)) + buffer@ =~= flatten(chunks_view(out)));
                }
            }
            proof {
                assert(lines.take(i as int) =~= lines);
            }
            Some(out)
        },
    }
}

/// Hashing the chunks of a pass one after the other gives the file's digest:
/// the chunking does not change what the hash is fed.
pub proof fn lemma_chunks_give_the_digest(
    algorithm: ChecksumAlgorithm,
    mode: ChecksumMode,
    chunk_size: usize,
    b: Seq<u8>,
    cs: Seq<Seq<u8>>,
)
    requires
        hashed_bytes(mode, Some(chunk_size), b) == Some(flatten(cs)),
    ensures
        file_digest(algorithm, mode, Some(chunk_size), Ok(b)) == Ok::<Seq<u8>, (IoErrorKind, Seq<char>)>(
            algorithm_digest(resolved_algorithm(algorithm, b.len()), flatten(cs)),
        ),
{
}

/// The digest of a file's contents under the concrete algorithm `algorithm`,
/// the bytes fed to the hash as the options' mode asks.
fn calculate<P>(algorithm: ChecksumAlgorithm, options: &ChecksumOptions<P>, content: &Result<Vec<u8>, IoFailure>) -> (r: Result<Vec<u8>, IoFailure>)
    requires
        algorithm != ChecksumAlgorithm::Best,
        content matches Ok(b) ==> !zero_chunk_text_fails(options.mode, options.chunk_size, b@),
    ensures
        match file_digest(algorithm, options.mode, options.chunk_size, content_view(content)) {
            Ok(d) => r matches Ok(v) && v@ == d,
            Err(f) => r matches Err(e) && e.kind == f.0 && e.message@ == f.1,
        },
        r matches Ok(v) ==> v@.len() == digest_length(algorithm),
{
    match content {
        Err(f) => Err(IoFailure { kind: f.kind, message: f.message.clone() }),
        Ok(bytes) => match hashed_input(options.mode, options.chunk_size, bytes) {
            None => Err(IoFailure {
                kind: IoErrorKind::InvalidData,
                message: String::from_str("stream did not contain valid UTF-8"),
            }),
            Some(data) => Ok(algorithm.digest(data.as_slice())),
        },
    }
}

/// The MD5 digest of a file's contents, fed as the options' mode asks.
pub fn calculate_md5<P>(options: &ChecksumOptions<P>, content: &Result<Vec<u8>, IoFailure>) -> (r: Result<Vec<u8>, IoFailure>)
    requires
        content matches Ok(b) ==> !zero_chunk_text_fails(options.mode, options.chunk_size, b@),
    ensures
        match file_digest(ChecksumAlgorithm::MD5, options.mode, options.chunk_size, content_view(content)) {
            Ok(d) => r matches Ok(v) && v@ == d,
            Err(f) => r matches Err(e) && e.kind == f.0 && e.message@ == f.1,
        },
        r matches Ok(v) ==> v@.len() == digest_length(ChecksumAlgorithm::MD5),
{
    calculate(ChecksumAlgorithm::MD5, options, content)
}

/// The SHA-1 digest of a file's contents, fed as the options' mode asks.
pub fn calculate_sha1<P>(options: &ChecksumOptions<P>, content: &Result<Vec<u8>, IoFailure>) -> (r: Result<Vec<u8>, IoFailure>)
    requires
        content matches Ok(b) ==> !zero_chunk_text_fails(options.mode, options.chunk_size, b@),
    ensures
        match file_digest(ChecksumAlgorithm::SHA1, options.mode, options.chunk_size, content_view(content)) {
            Ok(d) => r matches Ok(v) && v@ == d,
            Err(f) => r matches Err(e) && e.kind == f.0 && e.message@ == f.1,
        },
        r matches Ok(v) ==> v@.len() == digest_length(ChecksumAlgorithm::SHA1),
{
    calculate(ChecksumAlgorithm::SHA1, options, content)
}

/// The SHA-256 digest of a file's contents, fed as the options' mode asks.
pub fn calculate_sha256<P>(options: &ChecksumOptions<P>, content: &Result<Vec<u8>, IoFailure>) -> (r: Result<Vec<u8>, IoFailure>)
    requires
        content matches Ok(b) ==> !zero_chunk_text_fails(options.mode, options.chunk_size, b@),
    ensures
        match file_digest(ChecksumAlgorithm::SHA256, options.mode, options.chunk_size, content_view(content)) {
            Ok(d) => r matches Ok(v) && v@ == d,
            Err(f) => r matches Err(e) && e.kind == f.0 && e.message@ == f.1,
        },
        r matches Ok(v) ==> v@.len() == digest_length(ChecksumAlgorithm::SHA256),
{
    calculate(ChecksumAlgorithm::SHA256, options, content)
}

/// The SHA-512 digest of a file's contents, fed as the options' mode asks.
pub fn calculate_sha512<P>(options: &ChecksumOptions<P>, content: &Result<Vec<u8>, IoFailure>) -> (r: Result<Vec<u8>, IoFailure>)
    requires
        content matches Ok(b) ==> !zero_chunk_text_fails(options.mode, options.chunk_size, b@),
    ensures
        match file_digest(ChecksumAlgorithm::SHA512, options.mode, options.chunk_size, content_view(content)) {
            Ok(d) => r matches Ok(v) && v@ == d,
            Err(f) => r matches Err(e) && e.kind == f.0 && e.message@ == f.1,
        },
        r matches Ok(v) ==> v@.len() == digest_length(ChecksumAlgorithm::SHA512),
{
    calculate(ChecksumAlgorithm::SHA512, options, content)
}

/// The CRC-32 of a file's contents, big-endian, fed as the options' mode asks.
pub fn calculate_crc32<P>(options: &ChecksumOptions<P>, content: &Result<Vec<u8>, IoFailure>) -> (r: Result<Vec<u8>, IoFailure>)
    requires
        content matches Ok(b) ==> !zero_chunk_text_fails(options.mode, options.chunk_size, b@),
    ensures
        match file_digest(ChecksumAlgorithm::CRC32, options.mode, options.chunk_size, content_view(content)) {
            Ok(d) => r matches Ok(v) && v@ == d,
            Err(f) => r matches Err(e) && e.kind == f.0 && e.message@ == f.1,
        },
        r matches Ok(v) ==> v@.len() == digest_length(ChecksumAlgorithm::CRC32),
{
    calculate(ChecksumAlgorithm::CRC32, options, content)
}

/// The XXH3 hash of a file's contents, big-endian, fed as the options' mode asks.
pub fn calculate_xxh3<P>(options: &ChecksumOptions<P>, content: &Result<Vec<u8>, IoFailure>) -> (r: Result<Vec<u8>, IoFailure>)
    requires
        content matches Ok(b) ==> !zero_chunk_text_fails(options.mode, options.chunk_size, b@),
    ensures
        match file_digest(ChecksumAlgorithm::XXH3, options.mode, options.chunk_size, content_view(content)) {
            Ok(d) => r matches Ok(v) && v@ == d,
            Err(f) => r matches Err(e) && e.kind == f.0 && e.message@ == f.1,
        },
        r matches Ok(v) ==> v@.len() == digest_length(ChecksumAlgorithm::XXH3),
{
    calculate(ChecksumAlgorithm::XXH3, options, content)
}

/// The XXH32 hash of a file's contents, big-endian, fed as the options' mode asks.
pub fn calculate_xxh32<P>(options: &ChecksumOptions<P>, content: &Result<Vec<u8>, IoFailure>) -> (r: Result<Vec<u8>, IoFailure>)
    requires
        content matches Ok(b) ==> !zero_chunk_text_fails(options.mode, options.chunk_size, b@),
    ensures
        match file_digest(ChecksumAlgorithm::XXH32, options.mode, options.chunk_size, content_view(content)) {
            Ok(d) => r matches Ok(v) && v@ == d,
            Err(f) => r matches Err(e) && e.kind == f.0 && e.message@ == f.1,
        },
        r matches Ok(v) ==> v@.len() == digest_length(ChecksumAlgorithm::XXH32),
{
    calculate(ChecksumAlgorithm::XXH32, options, content)
}

/// The XXH64 hash of a file's contents, big-endian, fed as the options' mode asks.
pub fn calculate_xxh64<P>(options: &ChecksumOptions<P>, content: &Result<Vec<u8>, IoFailure>) -> (r: Result<Vec<u8>, IoFailure>)
    requires
        content matches Ok(b) ==> !zero_chunk_text_fails(options.mode, options.chunk_size, b@),
    ensures
        match file_digest(ChecksumAlgorithm::XXH64, options.mode, options.chunk_size, content_view(content)) {
            Ok(d) => r matches Ok(v) && v@ == d,
            Err(f) => r matches Err(e) && e.kind == f.0 && e.message@ == f.1,
        },
        r matches Ok(v) ==> v@.len() == digest_length(ChecksumAlgorithm::XXH64),
{
    calculate(ChecksumAlgorithm::XXH64, options, content)
}

/// The BLAKE2b-256 digest of a file's contents, fed as the options' mode asks.
pub fn calculate_blake2b256<P>(options: &ChecksumOptions<P>, content: &Result<Vec<u8>, IoFailure>) -> (r: Result<Vec<u8>, IoFailure>)
    requires
        content matches Ok(b) ==> !zero_chunk_text_fails(options.mode, options.chunk_size, b@),
    ensures
        match file_digest(ChecksumAlgorithm::BLAKE2B256, options.mode, options.chunk_size, content_view(content)) {
            Ok(d) => r matches Ok(v) && v@ == d,
            Err(f) => r matches Err(e) && e.kind == f.0 && e.message@ == f.1,
        },
        r matches Ok(v) ==> v@.len() == digest_length(ChecksumAlgorithm::BLAKE2B256),
{
    calculate(ChecksumAlgorithm::BLAKE2B256, options, content)
}

/// The BLAKE2b-512 digest of a file's contents, fed as the options' mode asks.
pub fn calculate_blake2b512<P>(options: &ChecksumOptions<P>, content: &Result<Vec<u8>, IoFailure>) -> (r: Result<Vec<u8>, IoFailure>)
    requires
        content matches Ok(b) ==> !zero_chunk_text_fails(options.mode, options.chunk_size, b@),
    ensures
        match file_digest(ChecksumAlgorithm::BLAKE2B512, options.mode, options.chunk_size, content_view(content)) {
            Ok(d) => r matches Ok(v) && v@ == d,
            Err(f) => r matches Err(e) && e.kind == f.0 && e.message@ == f.1,
        },
        r matches Ok(v) ==> v@.len() == digest_length(ChecksumAlgorithm::BLAKE2B512),
{
    calculate(ChecksumAlgorithm::BLAKE2B512, options, content)
}

/// The digest of a file's contents with the algorithm the options name, `Best`
/// resolved from the file size.
pub fn checksum_file<P>(options: &ChecksumOptions<P>, content: &Result<Vec<u8>, IoFailure>) -> (r: Result<Vec<u8>, IoFailure>)
    requires
        content matches Ok(b) ==> !zero_chunk_text_fails(options.mode, options.chunk_size, b@),
    ensures
        match file_digest(options.algorithm, options.mode, options.chunk_size, content_view(content)) {
            Ok(d) => r matches Ok(v) && v@ == d,
            Err(f) => r matches Err(e) && e.kind == f.0 && e.message@ == f.1,
        },
        r matches Ok(v) ==> content matches Ok(b) && v@.len() == digest_length(
            resolved_algorithm(options.algorithm, b@.len()),
        ),
{
    let bytes = match content {
        Err(f) => {
            return Err(IoFailure { kind: f.kind, message: f.message.clone() });
        },
        Ok(b) => b,
    };
    let algorithm = if options.algorithm == ChecksumAlgorithm::Best {
        ChecksumAlgorithm::select_best(bytes.len() as u64)
    } else {
        options.algorithm
    };
    match algorithm {
        ChecksumAlgorithm::MD5 => calculate_md5(options, content),
        ChecksumAlgorithm::SHA1 => calculate_sha1(options, content),
        ChecksumAlgorithm::SHA256 => calculate_sha256(options, content),
        ChecksumAlgorithm::SHA512 => calculate_sha512(options, content),
        ChecksumAlgorithm::CRC32 => calculate_crc32(options, content),
        ChecksumAlgorithm::XXH3 => calculate_xxh3(options, content),
        ChecksumAlgorithm::XXH32 => calculate_xxh32(options, content),
        ChecksumAlgorithm::XXH64 => calculate_xxh64(options, content),
        ChecksumAlgorithm::BLAKE2B256 => calculate_blake2b256(options, content),
        ChecksumAlgorithm::BLAKE2B512 => calculate_blake2b512(options, content),
        ChecksumAlgorithm::Best => vstd::pervasive::unreached(),
    }
}

impl Checksum {
    /// The checksum of a file's contents: the mode of the options, the algorithm
    /// they name with `Best` resolved from the file size, and the digest in
    /// lowercase hexadecimal.
    pub fn from_file<P>(options: &ChecksumOptions<P>, content: &Result<Vec<u8>, IoFailure>) -> (r: Result<Checksum, ChecksumError>)
        requires
            content matches Ok(b) ==> !zero_chunk_text_fails(options.mode, options.chunk_size, b@),
        ensures
            match content {
                Ok(b) => match file_digest(options.algorithm, options.mode, options.chunk_size, Ok(b@)) {
                    Ok(d) => r matches Ok(c) && c@ == ChecksumView {
                        mode: options.mode,
                        algorithm: resolved_algorithm(options.algorithm, b@.len()),
                        digest: hex_lower(d),
                    },
                    Err(f) => r matches Err(e) && e@ == ChecksumErrorView::Io(f.0, f.1),
                },
                Err(f) => r matches Err(e) && e@ == ChecksumErrorView::Io(f.kind, f.message@),
            },
            r matches Ok(c) ==> c.digest@.len() == 2 * digest_length(c.algorithm),
    {
        match checksum_file(options, content) {
            Err(f) => Err(ChecksumError::IoError(f)),
            Ok(d) => {
                proof {
                    lemma_hex_lower_index(d@);
                }
                let algorithm = match content {
                    Ok(b) => if options.algorithm == ChecksumAlgorithm::Best {
                        ChecksumAlgorithm::select_best(b.len() as u64)
                    } else {
                        options.algorithm
                    },
                    Err(_) => options.algorithm,
                };
                Ok(Checksum { mode: options.mode, algorithm, digest: hex_encode(d.as_slice()) })
            },
        }
    }

    /// Whether the digest of a file's contents under `options` is the one this
    /// checksum's digest stands for; a digest that is not hexadecimal is an
    /// invalid checksum.
    pub fn verify_file<P>(&self, options: &ChecksumOptions<P>, content: &Result<Vec<u8>, IoFailure>) -> (r: Result<bool, ChecksumError>)
        requires
            content matches Ok(b) ==> !zero_chunk_text_fails(options.mode, options.chunk_size, b@),
        ensures
            !hex_decodable(self.digest@) ==> (r matches Err(e) && e@ == ChecksumErrorView::InvalidChecksumFormat),
            hex_decodable(self.digest@) ==> match file_digest(options.algorithm, options.mode, options.chunk_size, content_view(content)) {
                Ok(d) => r == Ok::<bool, ChecksumError>(hex_bytes(self.digest@) == d),
                Err(f) => r matches Err(e) && e@ == ChecksumErrorView::Io(f.0, f.1),
            },
    {
        let expected = match hex_decode(self.digest.as_str()) {
            Some(v) => v,
            None => {
                return Err(ChecksumError::InvalidChecksumFormat);
            },
        };
        match self.algorithm.checksum_file(options, content) {
            Err(e) => Err(e),
            Ok(actual) => Ok(bytes_equal(&expected, &actual)),
        }
    }
}

/// Whether two byte vectors hold the same bytes.
pub fn bytes_equal(a: &Vec<u8>, b: &Vec<u8>) -> (r: bool)
    ensures
        r == (a@ == b@),
{
    if a.len() != b.len() {
        return false;
    }
    let mut i: usize = 0;
    while i < a.len()
        invariant
            a@.len() == b@.len(),
            i <= a@.len(),
            forall|k: int| 0 <= k < i ==> a@[k] == b@[k],
        decreases a@.len() - i,
    {
        if a[i] != b[i] {
            return false;
        }
        i = i + 1;
    }
    assert(a@ =~= b@);
    true
}


/// `Best` always resolves to a concrete algorithm, and a concrete algorithm to itself.
pub proof fn lemma_resolved_concrete(a: ChecksumAlgorithm, size: nat)
    ensures
        resolved_algorithm(a, size) != ChecksumAlgorithm::Best,
        a != ChecksumAlgorithm::Best ==> resolved_algorithm(a, size) == a,
        resolved_algorithm(resolved_algorithm(a, size), size) == resolved_algorithm(a, size),
{
}

/// Computing a file's checksum again, with the algorithm and mode that the
/// first computation recorded, on the same contents, gives the same checksum:
/// unchanged files verify as valid. Chunk sizes may differ, but not between
/// zero and non-zero (reading in chunks of zero bytes reads nothing).
pub proof fn lemma_recompute_unchanged(
    algorithm: ChecksumAlgorithm,
    mode: ChecksumMode,
    chunk_size: usize,
    other_chunk_size: usize,
    b: Seq<u8>,
)
    requires
        file_digest(algorithm, mode, Some(chunk_size), Ok(b)) is Ok,
        (chunk_size == 0) == (other_chunk_size == 0),
    ensures
        ({
            let d = file_digest(algorithm, mode, Some(chunk_size), Ok(b))->Ok_0;
            let recorded = resolved_algorithm(algorithm, b.len());
            &&& file_digest(recorded, mode, Some(other_chunk_size), Ok(b)) == Ok::<
                Seq<u8>,
                (IoErrorKind, Seq<char>),
            >(d)
            &&& resolved_algorithm(recorded, b.len()) == recorded
        }),
{
    lemma_resolved_concrete(algorithm, b.len());
}

/// The index-wise form of the hexadecimal notation.
pub proof fn lemma_hex_lower_index(d: Seq<u8>)
    ensures
        hex_lower(d).len() == 2 * d.len(),
        forall|i: int|
            0 <= i < d.len() ==> #[trigger] hex_lower(d)[2 * i] == crate::digest::hex_digit((d[i] / 16) as nat)
                && hex_lower(d)[2 * i + 1] == crate::digest::hex_digit((d[i] % 16) as nat),
    decreases d.len(),
{
    if d.len() > 0 {
        let init = d.drop_last();
        lemma_hex_lower_index(init);
        assert forall|i: int| 0 <= i < d.len() implies #[trigger] hex_lower(d)[2 * i]
            == crate::digest::hex_digit((d[i] / 16) as nat) && hex_lower(d)[2 * i + 1]
            == crate::digest::hex_digit((d[i] % 16) as nat) by {
            if i < d.len() - 1 {
                assert(init[i] == d[i]);
                assert(hex_lower(init)[2 * i] == crate::digest::hex_digit((init[i] / 16) as nat));
            }
        }
    }
}

/// A hexadecimal digit reads back as its value.
pub proof fn lemma_hex_digit_value(x: nat)
    requires
        x < 16,
    ensures
        crate::digest::hex_value(crate::digest::hex_digit(x)) == Some(x as u8),
{
    let c = crate::digest::hex_digit(x);
    if x < 10 {
        assert(c as u32 == 48 + x);
    } else {
        assert(c as u32 == 97 + (x - 10));
    }
}

/// The hexadecimal notation of bytes reads back as those bytes: a digest that
/// was written down verifies against the digest it came from.
pub proof fn lemma_hex_round_trip(d: Seq<u8>)
    ensures
        hex_decodable(hex_lower(d)),
        hex_bytes(hex_lower(d)) == d,
{
    lemma_hex_lower_index(d);
    let h = hex_lower(d);
    assert forall|k: int| 0 <= k < h.len() implies (#[trigger] crate::digest::hex_value(h[k])) is Some by {
        let i = k / 2;
        if k % 2 == 0 {
            assert(k == 2 * i);
            assert(h[2 * i] == crate::digest::hex_digit((d[i] / 16) as nat));
            lemma_hex_digit_value((d[i] / 16) as nat);
        } else {
            assert(k == 2 * i + 1);
            assert(h[2 * i] == crate::digest::hex_digit((d[i] / 16) as nat));
            assert(h[2 * i + 1] == crate::digest::hex_digit((d[i] % 16) as nat));
            lemma_hex_digit_value((d[i] % 16) as nat);
        }
    }
    assert forall|i: int| 0 <= i < d.len() implies #[trigger] hex_bytes(h)[i] == d[i] by {
        assert(h[2 * i] == crate::digest::hex_digit((d[i] / 16) as nat));
        lemma_hex_digit_value((d[i] / 16) as nat);
        lemma_hex_digit_value((d[i] % 16) as nat);
        let hi = (d[i] / 16) as u8;
        let lo = (d[i] % 16) as u8;
        assert((hi * 16 + lo) as u8 == d[i]);
    }
    assert(hex_bytes(h) =~= d);
}


/// Text mode normalizes line endings: a text whose lines end in `\r\n` is
/// hashed as the same text with lines ending in `\n`. (The lines hold no `\n`,
/// the last is not empty, and no other ends with `\r`, which `\n` alone would
/// take for part of the ending.)
pub proof fn lemma_text_mode_line_endings(ls: Seq<Seq<u8>>, chunk_size: Option<usize>, other_chunk_size: Option<usize>)
    requires
        ls.len() == 0 || ls.last().len() > 0,
        forall|i: int, k: int| 0 <= i < ls.len() && 0 <= k < ls[i].len() ==> (#[trigger] ls[i][k]) != 10u8,
        forall|i: int| 0 <= i < ls.len() - 1 ==> (#[trigger] ls[i]).len() == 0 || ls[i].last() != 13u8,
    ensures
        hashed_bytes(ChecksumMode::Text, chunk_size, crate::text::join_sep(ls, seq![10u8]))
            == hashed_bytes(ChecksumMode::Text, other_chunk_size, crate::text::join_sep(ls, seq![13u8, 10u8])),
{
    crate::text::lemma_split_join_sep(ls, seq![10u8], 10u8, 13u8);
    crate::text::lemma_split_join_sep(ls, seq![13u8, 10u8], 10u8, 13u8);
}

/// A checksum computed from a file's contents verifies against those contents
/// when checked with its own algorithm and mode: its digest is hexadecimal and
/// stands for the digest that the contents give again.
pub proof fn lemma_checksum_verifies_own_contents(
    algorithm: ChecksumAlgorithm,
    mode: ChecksumMode,
    chunk_size: usize,
    other_chunk_size: usize,
    b: Seq<u8>,
)
    requires
        file_digest(algorithm, mode, Some(chunk_size), Ok(b)) is Ok,
        (chunk_size == 0) == (other_chunk_size == 0),
    ensures
        ({
            let d = file_digest(algorithm, mode, Some(chunk_size), Ok(b))->Ok_0;
            let recorded = resolved_algorithm(algorithm, b.len());
            &&& hex_decodable(hex_lower(d))
            &&& file_digest(recorded, mode, Some(other_chunk_size), Ok(b)) == Ok::<
                Seq<u8>,
                (IoErrorKind, Seq<char>),
            >(hex_bytes(hex_lower(d)))
        }),
{
    let d = file_digest(algorithm, mode, Some(chunk_size), Ok(b))->Ok_0;
    lemma_recompute_unchanged(algorithm, mode, chunk_size, other_chunk_size, b);
    lemma_hex_round_trip(d);
}


/// The chunk size does not change a digest, except that reading in chunks of
/// zero bytes reads nothing in binary mode; no chunk size means the default one.
pub proof fn lemma_chunk_size_irrelevant(
    algorithm: ChecksumAlgorithm,
    mode: ChecksumMode,
    chunk_size: Option<usize>,
    other_chunk_size: Option<usize>,
    content: Result<Seq<u8>, (IoErrorKind, Seq<char>)>,
)
    requires
        (chunk_size == Some(0usize)) == (other_chunk_size == Some(0usize)),
    ensures
        file_digest(algorithm, mode, chunk_size, content) == file_digest(
            algorithm,
            mode,
            other_chunk_size,
            content,
        ),
{
}

/// Each line followed by `\n` is the first line, `\n`, and the rest likewise.
proof fn lemma_lines_with_newlines_front(ls: Seq<Seq<u8>>)
    requires
        ls.len() > 0,
    ensures
        lines_with_newlines(ls) == ls[0].push(10u8) + lines_with_newlines(ls.drop_first()),
    decreases ls.len(),
{
    if ls.len() == 1 {
        assert(ls.drop_last() =~= Seq::<Seq<u8>>::empty());
        assert(ls.drop_first() =~= Seq::<Seq<u8>>::empty());
        assert(lines_with_newlines(ls) =~= ls[0].push(10u8) + lines_with_newlines(ls.drop_first()));
    } else {
        let init = ls.drop_last();
        lemma_lines_with_newlines_front(init);
        assert(init.drop_first() =~= ls.drop_first().drop_last());
        assert(ls.drop_first().last() == ls.last());
        assert(lines_with_newlines(ls) =~= ls[0].push(10u8) + lines_with_newlines(ls.drop_first()));
    }
}

/// The lines of lines each followed by `\n` are those lines, when none holds
/// `\n` or ends with `\r`.
proof fn lemma_split_lines_with_newlines(ls: Seq<Seq<u8>>)
    requires
        forall|i: int, k: int| 0 <= i < ls.len() && 0 <= k < ls[i].len() ==> (#[trigger] ls[i][k]) != 10u8,
        forall|i: int| 0 <= i < ls.len() ==> (#[trigger] ls[i]).len() == 0 || ls[i].last() != 13u8,
    ensures
        byte_lines(lines_with_newlines(ls)) == ls,
    decreases ls.len(),
{
    if ls.len() == 0 {
        assert(byte_lines(Seq::<u8>::empty()) =~= ls);
    } else {
        let rest = ls.drop_first();
        assert forall|i: int, k: int| 0 <= i < rest.len() && 0 <= k < rest[i].len() implies (
        #[trigger] rest[i][k]) != 10u8 by {
            assert(rest[i] == ls[i + 1]);
        }
        assert forall|i: int| 0 <= i < rest.len() implies (#[trigger] rest[i]).len() == 0
            || rest[i].last() != 13u8 by {
            assert(rest[i] == ls[i + 1]);
        }
        lemma_split_lines_with_newlines(rest);
        lemma_lines_with_newlines_front(ls);
        assert forall|k: int| 0 <= k < ls[0].len() implies ls[0][k] != 10u8 by {
            assert(ls[0][k] != 10u8);
        }
        assert(ls[0].len() == 0 || ls[0].last() != 13u8);
        assert(ls[0].push(10u8) + lines_with_newlines(rest) =~= ls[0] + seq![10u8] + lines_with_newlines(rest));
        crate::text::lemma_split_first(ls[0], seq![10u8], lines_with_newlines(rest), 10u8, 13u8);
        assert(byte_lines(lines_with_newlines(ls)) =~= ls);
    }
}

/// A text already in the form text mode gives (UTF-8 lines, each ended by `\n`
/// with no `\r` before it) is hashed the same in text and in binary mode.
pub proof fn lemma_normal_text_hashes_as_binary(ls: Seq<Seq<u8>>, chunk_size: Option<usize>, binary_chunk_size: Option<usize>)
    requires
        forall|i: int, k: int| 0 <= i < ls.len() && 0 <= k < ls[i].len() ==> (#[trigger] ls[i][k]) != 10u8,
        forall|i: int| 0 <= i < ls.len() ==> (#[trigger] ls[i]).len() == 0 || ls[i].last() != 13u8,
        forall|i: int| 0 <= i < ls.len() ==> vstd::utf8::valid_utf8(#[trigger] ls[i]),
        binary_chunk_size != Some(0usize),
    ensures
        hashed_bytes(ChecksumMode::Text, chunk_size, lines_with_newlines(ls)) == hashed_bytes(
            ChecksumMode::Binary,
            binary_chunk_size,
            lines_with_newlines(ls),
        ),
{
    lemma_split_lines_with_newlines(ls);
}

} // verus!
