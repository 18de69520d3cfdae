use artsum::checksum::{
    calculate_blake2b256, calculate_blake2b512, calculate_crc32, calculate_md5, calculate_sha1,
    calculate_sha256, calculate_sha512, calculate_xxh3, calculate_xxh32, calculate_xxh64,
    checksum_file, file_chunks, zero_chunk_text_failure, Checksum, ChecksumAlgorithm, ChecksumError,
    ChecksumMode, ChecksumOptions, IoErrorKind, IoFailure, DEFAULT_CHUNK_SIZE,
};

fn options(algorithm: ChecksumAlgorithm, mode: ChecksumMode, chunk_size: Option<usize>) -> ChecksumOptions {
    ChecksumOptions {
        filepath: String::from("file.bin"),
        algorithm,
        mode,
        chunk_size,
        progress_callback: None,
    }
}

fn digest_of(algorithm: ChecksumAlgorithm, content: &[u8]) -> String {
    Checksum::from_file(
        &options(algorithm, ChecksumMode::Binary, None),
        &Ok(content.to_vec()),
    )
    .unwrap()
    .digest
}

#[test]
fn test_checksum_algorithm_default_is_best() {
    assert_eq!(ChecksumAlgorithm::default(), ChecksumAlgorithm::Best);
}

#[test]
fn test_checksum_mode_default_is_binary() {
    assert_eq!(ChecksumMode::default(), ChecksumMode::Binary);
}

#[test]
fn test_select_best_small_file() {
    // "small content" is 13 bytes
    assert_eq!(ChecksumAlgorithm::select_best(13), ChecksumAlgorithm::CRC32);
}

#[test]
fn test_select_best_large_file() {
    assert_eq!(ChecksumAlgorithm::select_best(2048), ChecksumAlgorithm::XXH3);
}

#[test]
fn select_best_boundary() {
    assert_eq!(ChecksumAlgorithm::select_best(1023), ChecksumAlgorithm::CRC32);
    assert_eq!(ChecksumAlgorithm::select_best(1024), ChecksumAlgorithm::XXH3);
}

#[test]
fn test_checksum_best_algorithm_small_file() {
    let checksum = Checksum::from_file(
        &options(ChecksumAlgorithm::Best, ChecksumMode::Binary, None),
        &Ok(b"test content".to_vec()),
    )
    .unwrap();
    assert_eq!(checksum.algorithm, ChecksumAlgorithm::CRC32);
    assert!(!checksum.digest.is_empty());
}

#[test]
fn test_checksum_best_algorithm_large_file() {
    let checksum = Checksum::from_file(
        &options(ChecksumAlgorithm::Best, ChecksumMode::Binary, None),
        &Ok(vec![0u8; 2048]),
    )
    .unwrap();
    assert_eq!(checksum.algorithm, ChecksumAlgorithm::XXH3);
    assert!(!checksum.digest.is_empty());
}

#[test]
fn test_checksum_best_algorithm_text_mode() {
    let checksum = Checksum::from_file(
        &options(ChecksumAlgorithm::Best, ChecksumMode::Text, None),
        &Ok(b"test content\n".to_vec()),
    )
    .unwrap();
    assert_eq!(checksum.mode, ChecksumMode::Text);
    assert_eq!(checksum.algorithm, ChecksumAlgorithm::CRC32);
}

#[test]
fn digests_of_empty_input() {
    assert_eq!(digest_of(ChecksumAlgorithm::MD5, b""), "d41d8cd98f00b204e9800998ecf8427e");
    assert_eq!(
        digest_of(ChecksumAlgorithm::SHA1, b""),
        "da39a3ee5e6b4b0d3255bfef95601890afd80709"
    );
    assert_eq!(
        digest_of(ChecksumAlgorithm::SHA256, b""),
        "e3b0c44298fc1c149afbf4c8996fb92427ae41e4649b934ca495991b7852b855"
    );
    assert_eq!(
        digest_of(ChecksumAlgorithm::SHA512, b""),
        "cf83e1357eefb8bdf1542850d66d8007d620e4050b5715dc83f4a921d36ce9ce47d0d13c5d85f2b0ff8318d2877eec2f63b931bd47417a81a538327af927da3e"
    );
    assert_eq!(digest_of(ChecksumAlgorithm::XXH32, b""), "02cc5d05");
    assert_eq!(digest_of(ChecksumAlgorithm::XXH64, b""), "ef46db3751d8e999");
    assert_eq!(digest_of(ChecksumAlgorithm::XXH3, b""), "2d06800538d394c2");
    assert_eq!(
        digest_of(ChecksumAlgorithm::BLAKE2B256, b""),
        "0e5751c026e543b2e8ab2eb06099daa1d1e5df47778f7787faab45cdf12fe3a8"
    );
    assert_eq!(
        digest_of(ChecksumAlgorithm::BLAKE2B512, b""),
        "786a02f742015903c6c6fd852552d272912f4740e15847618a86e217f71f5419d25e1031afee585313896444934eb04b903a685b1448b755d56f701afe9be2ce"
    );
}

#[test]
fn crc32_is_big_endian() {
    assert_eq!(digest_of(ChecksumAlgorithm::CRC32, b"123456789"), "cbf43926");
}

#[test]
fn md5_of_abc() {
    assert_eq!(digest_of(ChecksumAlgorithm::MD5, b"abc"), "900150983cd24fb0d6963f7d28e17f72");
}

#[test]
fn text_mode_normalizes_line_endings() {
    let lf = Checksum::from_file(
        &options(ChecksumAlgorithm::SHA256, ChecksumMode::Text, None),
        &Ok(b"one\ntwo\n".to_vec()),
    )
    .unwrap();
    let crlf = Checksum::from_file(
        &options(ChecksumAlgorithm::SHA256, ChecksumMode::Text, None),
        &Ok(b"one\r\ntwo".to_vec()),
    )
    .unwrap();
    assert_eq!(lf, crlf);
    let binary = Checksum::from_file(
        &options(ChecksumAlgorithm::SHA256, ChecksumMode::Binary, None),
        &Ok(b"one\ntwo\n".to_vec()),
    )
    .unwrap();
    assert_eq!(binary.digest, lf.digest);
}

#[test]
fn text_mode_rejects_invalid_utf8() {
    let r = Checksum::from_file(
        &options(ChecksumAlgorithm::MD5, ChecksumMode::Text, None),
        &Ok(vec![0x66, 0xff, 0x0a]),
    );
    match r {
        Err(ChecksumError::IoError(f)) => assert_eq!(f.kind, IoErrorKind::InvalidData),
        other => panic!("unexpected {:?}", other),
    }
}

#[test]
fn read_failure_is_io_error() {
    let failure = IoFailure {
        kind: IoErrorKind::NotFound,
        message: String::from("No such file or directory"),
    };
    let r = Checksum::from_file(
        &options(ChecksumAlgorithm::MD5, ChecksumMode::Binary, None),
        &Err(failure.clone()),
    );
    assert_eq!(r, Err(ChecksumError::IoError(failure.clone())));
    assert_eq!(
        ChecksumError::IoError(failure).to_string(),
        "IO Error: No such file or directory"
    );
}

#[test]
fn zero_chunks_read_nothing_in_binary_mode() {
    let zero = checksum_file(
        &options(ChecksumAlgorithm::MD5, ChecksumMode::Binary, Some(0)),
        &Ok(b"abc".to_vec()),
    )
    .unwrap();
    assert_eq!(hex_of(&zero), "d41d8cd98f00b204e9800998ecf8427e");
    let default = checksum_file(
        &options(ChecksumAlgorithm::MD5, ChecksumMode::Binary, Some(DEFAULT_CHUNK_SIZE)),
        &Ok(b"abc".to_vec()),
    )
    .unwrap();
    assert_eq!(hex_of(&default), "900150983cd24fb0d6963f7d28e17f72");
}

fn hex_of(bytes: &[u8]) -> String {
    bytes.iter().map(|b| format!("{:02x}", b)).collect()
}

#[test]
fn zero_chunks_of_text_fail() {
    let o = options(ChecksumAlgorithm::MD5, ChecksumMode::Text, Some(0));
    assert!(zero_chunk_text_failure(&o, &b"abc".to_vec()));
    assert!(!zero_chunk_text_failure(&o, &Vec::new()));
    assert!(!zero_chunk_text_failure(&o, &vec![0xff, 0x0a]));
    let binary = options(ChecksumAlgorithm::MD5, ChecksumMode::Binary, Some(0));
    assert!(!zero_chunk_text_failure(&binary, &b"abc".to_vec()));
}

#[test]
fn checksum_from_str_binary() {
    let c = Checksum::from_str("xxh3;abc123").unwrap();
    assert_eq!(c.mode, ChecksumMode::Binary);
    assert_eq!(c.algorithm, ChecksumAlgorithm::XXH3);
    assert_eq!(c.digest, "abc123");
}

#[test]
fn checksum_from_str_text() {
    let c = Checksum::from_str("text;sha256;abc123").unwrap();
    assert_eq!(c.mode, ChecksumMode::Text);
    assert_eq!(c.algorithm, ChecksumAlgorithm::SHA256);
    assert_eq!(c.digest, "abc123");
}

#[test]
fn checksum_from_str_empty_mode_prefix() {
    let c = Checksum::from_str(";md5;abc").unwrap();
    assert_eq!(c.mode, ChecksumMode::Binary);
    assert_eq!(c.algorithm, ChecksumAlgorithm::MD5);
    assert_eq!(c.digest, "abc");
}

#[test]
fn checksum_from_str_text_digest_keeps_semicolons() {
    let c = Checksum::from_str("text;md5;a;b").unwrap();
    assert_eq!(c.digest, "a;b");
}

#[test]
fn checksum_from_str_errors() {
    assert_eq!(Checksum::from_str("md5"), Err(ChecksumError::InvalidChecksumFormat));
    assert_eq!(Checksum::from_str("text;md5"), Err(ChecksumError::InvalidChecksumFormat));
    assert_eq!(Checksum::from_str("md5;a;b"), Err(ChecksumError::InvalidChecksumFormat));
    assert_eq!(
        Checksum::from_str("MD5;abc"),
        Err(ChecksumError::UnsupportedAlgorithm(String::from("MD5")))
    );
    assert_eq!(
        Checksum::from_str("text;foo;abc"),
        Err(ChecksumError::UnsupportedAlgorithm(String::from("foo")))
    );
    assert_eq!(
        ChecksumError::UnsupportedAlgorithm(String::from("foo")).to_string(),
        "Unsupported checksum algorithm foo"
    );
    assert_eq!(
        ChecksumError::UnsupportedMode(String::from("bar")).to_string(),
        "Unsupported checksum mode bar"
    );
    assert_eq!(
        ChecksumError::InvalidChecksumFormat.to_string(),
        "Invalid checksum string format, expected '<algorithm>;<digest>' or '<mode>;<algorithm>;<digest>'"
    );
}

#[test]
fn checksum_to_string_round_trips() {
    for (mode, algorithm) in [
        (ChecksumMode::Binary, ChecksumAlgorithm::BLAKE2B512),
        (ChecksumMode::Text, ChecksumAlgorithm::XXH64),
        (ChecksumMode::Binary, ChecksumAlgorithm::Best),
    ] {
        let c = Checksum { mode, algorithm, digest: String::from("0123abcd") };
        assert_eq!(Checksum::from_str(&c.to_string()), Ok(c));
    }
    let text = Checksum {
        mode: ChecksumMode::Text,
        algorithm: ChecksumAlgorithm::SHA1,
        digest: String::from("a;b"),
    };
    assert_eq!(text.to_string(), "text;sha1;a;b");
    assert_eq!(Checksum::from_str(&text.to_string()), Ok(text));
}

#[test]
fn algorithm_names() {
    let names = [
        (ChecksumAlgorithm::MD5, "md5"),
        (ChecksumAlgorithm::SHA1, "sha1"),
        (ChecksumAlgorithm::SHA256, "sha256"),
        (ChecksumAlgorithm::SHA512, "sha512"),
        (ChecksumAlgorithm::CRC32, "crc32"),
        (ChecksumAlgorithm::XXH3, "xxh3"),
        (ChecksumAlgorithm::XXH32, "xxh32"),
        (ChecksumAlgorithm::XXH64, "xxh64"),
        (ChecksumAlgorithm::BLAKE2B256, "blake2b256"),
        (ChecksumAlgorithm::BLAKE2B512, "blake2b512"),
        (ChecksumAlgorithm::Best, "best"),
    ];
    for (a, n) in names {
        assert_eq!(a.to_string(), n);
        assert_eq!(ChecksumAlgorithm::from_name(n), Some(a));
    }
    assert_eq!(ChecksumAlgorithm::from_name("Sha1"), None);
    assert_eq!(ChecksumMode::from_name("text"), Some(ChecksumMode::Text));
    assert_eq!(ChecksumMode::from_name(""), Some(ChecksumMode::Binary));
    assert_eq!(ChecksumMode::Text.to_string(), "text");
}

#[test]
fn verify_file_matches_own_checksum() {
    let o = options(ChecksumAlgorithm::SHA256, ChecksumMode::Binary, None);
    let content = Ok(b"hello".to_vec());
    let c = Checksum::from_file(&o, &content).unwrap();
    assert_eq!(c.verify_file(&o, &content), Ok(true));
    assert_eq!(c.verify_file(&o, &Ok(b"hellO".to_vec())), Ok(false));
    let bad = Checksum {
        mode: ChecksumMode::Binary,
        algorithm: ChecksumAlgorithm::SHA256,
        digest: String::from("xyz"),
    };
    assert_eq!(bad.verify_file(&o, &content), Err(ChecksumError::InvalidChecksumFormat));
    let upper = Checksum { digest: c.digest.to_uppercase(), ..c.clone() };
    assert_eq!(upper.verify_file(&o, &content), Ok(true));
}

#[test]
fn algorithm_checksum_file_uses_the_options() {
    let o = options(ChecksumAlgorithm::MD5, ChecksumMode::Binary, None);
    let d = ChecksumAlgorithm::SHA1.checksum_file(&o, &Ok(Vec::new())).unwrap();
    assert_eq!(hex_of(&d), "d41d8cd98f00b204e9800998ecf8427e");
}

#[test]
fn processing_options_copy_the_options() {
    let o = options(ChecksumAlgorithm::MD5, ChecksumMode::Text, Some(7));
    let p = o.to_processing_options(5u8);
    assert_eq!(p.filepath, "file.bin");
    assert_eq!(p.mode, ChecksumMode::Text);
    assert_eq!(p.chunk_size, Some(7));
    assert_eq!(p.process_chunk, 5u8);
    assert_eq!(p.progress_callback, None);
    let reporting = ChecksumOptions {
        filepath: String::from("file.bin"),
        algorithm: ChecksumAlgorithm::MD5,
        mode: ChecksumMode::Binary,
        chunk_size: None,
        progress_callback: Some(report as fn(u64, u64)),
    };
    let q = reporting.to_processing_options(());
    assert!(q.progress_callback == Some(report as fn(u64, u64)));
    (q.progress_callback.unwrap())(1, 2);
}

#[test]
fn per_algorithm_digests_ignore_the_named_algorithm() {
    let o = options(ChecksumAlgorithm::Best, ChecksumMode::Binary, None);
    let abc: Result<Vec<u8>, IoFailure> = Ok(b"abc".to_vec());
    assert_eq!(hex_of(&calculate_md5(&o, &abc).unwrap()), "900150983cd24fb0d6963f7d28e17f72");
    assert_eq!(
        hex_of(&calculate_sha1(&o, &abc).unwrap()),
        "a9993e364706816aba3e25717850c26c9cd0d89d"
    );
    assert_eq!(
        hex_of(&calculate_sha256(&o, &abc).unwrap()),
        "ba7816bf8f01cfea414140de5dae2223b00361a396177a9cb410ff61f20015ad"
    );
    assert_eq!(
        hex_of(&calculate_sha512(&o, &abc).unwrap()),
        "ddaf35a193617abacc417349ae20413112e6fa4e89a97ea20a9eeee64b55d39a2192992a274fc1a836ba3c23a3feebbd454d4423643ce80e2a9ac94fa54ca49f"
    );
    assert_eq!(hex_of(&calculate_crc32(&o, &abc).unwrap()), "352441c2");
    assert_eq!(calculate_xxh3(&o, &abc).unwrap().len(), 8);
    assert_eq!(calculate_xxh32(&o, &Ok(Vec::new())).unwrap(), vec![0x02, 0xcc, 0x5d, 0x05]);
    assert_eq!(hex_of(&calculate_xxh64(&o, &Ok(Vec::new())).unwrap()), "ef46db3751d8e999");
    assert_eq!(
        hex_of(&calculate_blake2b256(&o, &Ok(Vec::new())).unwrap()),
        "0e5751c026e543b2e8ab2eb06099daa1d1e5df47778f7787faab45cdf12fe3a8"
    );
    assert_eq!(
        hex_of(&calculate_blake2b512(&o, &abc).unwrap()),
        "ba80a53f981c4d0d6a2797b69f12f6e94c212f14685ac4b74b12bb6fdbffa2d17d87c5392aab792dc252d5de4533cc9518d38aa8dbf1925ab92386edd4009923"
    );
    let text = options(ChecksumAlgorithm::SHA1, ChecksumMode::Text, None);
    assert_eq!(
        calculate_md5(&text, &Ok(b"abc".to_vec())).unwrap(),
        calculate_md5(&o, &Ok(b"abc\n".to_vec())).unwrap()
    );
}

fn report(_read: u64, _total: u64) {}

#[test]
fn chunks_of_a_pass() {
    let binary = file_chunks(ChecksumMode::Binary, 4, &b"abcdefghij".to_vec()).unwrap();
    assert_eq!(binary, vec![b"abcd".to_vec(), b"efgh".to_vec(), b"ij".to_vec()]);
    let text = file_chunks(ChecksumMode::Text, 8, &b"ab\r\ncd\nlong line here\nx".to_vec()).unwrap();
    assert_eq!(
        text,
        vec![
            b"ab\ncd\n".to_vec(),
            b"long lin".to_vec(),
            b"e here\n".to_vec(),
            b"x\n".to_vec(),
        ]
    );
    assert_eq!(text.concat(), b"ab\ncd\nlong line here\nx\n".to_vec());
    assert_eq!(file_chunks(ChecksumMode::Text, 8, &vec![0xff, 0x0a]), None);
    assert_eq!(file_chunks(ChecksumMode::Binary, 3, &Vec::new()), Some(Vec::new()));
}
