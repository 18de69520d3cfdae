use artsum::checksum::{Checksum, ChecksumAlgorithm, ChecksumError, ChecksumMode};
use artsum::manifest::{
    manifest_to_string, parse_manifest_str, standard_to_string, ArtifactMap, ArtsumParser,
    B2SUMParser, DirEntry, MD5SUMParser, Manifest, ManifestError, ManifestFormat, ManifestParser,
    ManifestSource, PathFacts, SHA1SUMParser, SHA256SUMParser, SHA512SUMParser,
};
use artsum::path::{file_name_of, join};

fn checksum(mode: ChecksumMode, algorithm: ChecksumAlgorithm, digest: &str) -> Checksum {
    Checksum { mode, algorithm, digest: String::from(digest) }
}

fn manifest_of(entries: Vec<(&str, Checksum)>) -> Manifest {
    let mut artifacts = ArtifactMap::new();
    for (path, c) in entries {
        artifacts.insert(String::from(path), c);
    }
    Manifest { version: None, artifacts }
}

#[test]
fn default_filename() {
    assert_eq!(ArtsumParser::default().default_filename(), "sfv.toml");
}

#[test]
fn algorithm() {
    assert_eq!(ArtsumParser::default().algorithm(), None);
}

#[test]
fn can_handle_filepath_default() {
    assert!(ArtsumParser::default().can_handle_filepath("sfv.toml"));
    assert!(ArtsumParser::default().can_handle_filepath(".artsum"));
}

#[test]
fn test_default_filename() {
    assert_eq!(MD5SUMParser::default().default_filename(), "artsum.md5");
}

#[test]
fn test_algorithm() {
    assert_eq!(MD5SUMParser::default().algorithm(), Some(ChecksumAlgorithm::MD5));
}

#[test]
fn test_can_handle_filepath_default() {
    assert!(MD5SUMParser::default().can_handle_filepath("artsum.md5"));
}

#[test]
fn test_can_handle_filepath_extension() {
    let parser = MD5SUMParser::default();
    assert!(parser.can_handle_filepath("archive.md5"));
    assert!(parser.can_handle_filepath("dir/archive.md5sum"));
    assert!(!parser.can_handle_filepath("archive.sha1"));
    assert!(!parser.can_handle_filepath("archive.md5/.."));
    assert!(!ArtsumParser::default().can_handle_filepath("x.artsum"));
}

#[test]
fn other_parsers() {
    assert_eq!(SHA1SUMParser::default().algorithm(), Some(ChecksumAlgorithm::SHA1));
    assert_eq!(SHA256SUMParser::default().algorithm(), Some(ChecksumAlgorithm::SHA256));
    assert_eq!(SHA512SUMParser::default().algorithm(), Some(ChecksumAlgorithm::SHA512));
    assert_eq!(B2SUMParser::default().algorithm(), Some(ChecksumAlgorithm::BLAKE2B512));
    assert_eq!(SHA256SUMParser::default().default_filename(), "sfv.sha256");
    assert!(SHA256SUMParser::default().can_handle_filepath("release.sha256"));
    assert!(!SHA256SUMParser::default().can_handle_filepath("release.sha256sum"));
    assert_eq!(SHA1SUMParser::default().default_filename(), "sfv.sha1");
    assert!(SHA1SUMParser::default().can_handle_filepath("sfv.sha1"));
    assert!(!SHA1SUMParser::default().can_handle_filepath("release.sha1"));
    assert!(B2SUMParser::default().can_handle_filepath("artsum.b2"));
    assert_eq!(ManifestFormat::default(), ManifestFormat::ARTSUM);
    assert_eq!(ManifestFormat::B2SUM.to_string(), "b2sum");
    assert_eq!(ArtsumParser::default().filename_patterns(), vec!["^sfv\\.toml$", "^\\.artsum$"]);
    assert_eq!(MD5SUMParser::default().build_manifest_filepath("/data"), "/data/artsum.md5");
    assert_eq!(MD5SUMParser::default().build_manifest_filepath("/data/"), "/data/artsum.md5");
}

#[test]
fn parse_read_format_binary() {
    let content = "xxh3;abc123 file1.txt\ncrc32;def456 file2.txt\n";
    let actual = ArtsumParser::default().parse_str(content).unwrap();
    assert_eq!(actual.artifacts.len(), 2);
    let c1 = actual.artifacts.get("file1.txt").unwrap();
    assert_eq!(c1.algorithm, ChecksumAlgorithm::XXH3);
    assert_eq!(c1.digest, "abc123");
    assert_eq!(c1.mode, ChecksumMode::Binary);
    let c2 = actual.artifacts.get("file2.txt").unwrap();
    assert_eq!(c2.algorithm, ChecksumAlgorithm::CRC32);
    assert_eq!(c2.digest, "def456");
    assert_eq!(c2.mode, ChecksumMode::Binary);
}

#[test]
fn parse_str_reads_format_binary() {
    let input = "xxh3;abc123 src/main.rs\nsha256;deadbeef lib.rs\n";
    let actual = ArtsumParser::default().parse_str(input).unwrap();
    assert_eq!(actual.artifacts.len(), 2);
    let c = actual.artifacts.get("src/main.rs").unwrap();
    assert_eq!(c.algorithm, ChecksumAlgorithm::XXH3);
    assert_eq!(c.digest, "abc123");
    assert_eq!(c.mode, ChecksumMode::Binary);
    let c2 = actual.artifacts.get("lib.rs").unwrap();
    assert_eq!(c2.algorithm, ChecksumAlgorithm::SHA256);
    assert_eq!(c2.digest, "deadbeef");
    assert_eq!(c2.mode, ChecksumMode::Binary);
}

#[test]
fn parse_str_reads_format_text() {
    let input = "text;sha256;abc123  README.md\n";
    let actual = ArtsumParser::default().parse_str(input).unwrap();
    assert_eq!(actual.artifacts.len(), 1);
    let c = actual.artifacts.get("README.md").unwrap();
    assert_eq!(c.algorithm, ChecksumAlgorithm::SHA256);
    assert_eq!(c.digest, "abc123");
    assert_eq!(c.mode, ChecksumMode::Text);
}

#[test]
fn to_string_produces_format_binary() {
    let manifest = manifest_of(vec![(
        "src/main.rs",
        checksum(ChecksumMode::Binary, ChecksumAlgorithm::XXH3, "abc123"),
    )]);
    let actual = ArtsumParser::default().to_string(&manifest).unwrap();
    assert_eq!(actual, "xxh3;abc123 src/main.rs");
}

#[test]
fn to_string_produces_format_text() {
    let manifest = manifest_of(vec![(
        "README.md",
        checksum(ChecksumMode::Text, ChecksumAlgorithm::SHA256, "abc123"),
    )]);
    let actual = ArtsumParser::default().to_string(&manifest).unwrap();
    assert_eq!(actual, "text;sha256;abc123  README.md");
}

#[test]
fn parse_str_ignores_comment_lines() {
    let input = "# this is a comment\nxxh3;abc123 file.txt\n# another comment\n";
    let actual = ArtsumParser::default().parse_str(input).unwrap();
    assert_eq!(actual.artifacts.len(), 1);
    assert!(actual.artifacts.contains_key("file.txt"));
}

#[test]
fn parse_str_ignores_blank_lines() {
    let input = "\nxxh3;abc123 file.txt\n\n\ncrc32;def456 other.txt\n";
    let actual = ArtsumParser::default().parse_str(input).unwrap();
    assert_eq!(actual.artifacts.len(), 2);
    assert!(actual.artifacts.contains_key("file.txt"));
    assert!(actual.artifacts.contains_key("other.txt"));
}

#[test]
fn parse_str_round_trips() {
    let manifest = manifest_of(vec![
        ("src/main.rs", checksum(ChecksumMode::Binary, ChecksumAlgorithm::XXH3, "abc123")),
        ("README.md", checksum(ChecksumMode::Text, ChecksumAlgorithm::SHA256, "deadbeef")),
    ]);
    let parser = ArtsumParser::default();
    let serialized = parser.to_string(&manifest).unwrap();
    let parsed = parser.parse_str(&serialized).unwrap();
    assert_eq!(parsed.artifacts, manifest.artifacts);
}

#[test]
fn parse_str_handles_multi_algorithm() {
    let input = "xxh3;aaa111 small.txt\ncrc32;bbb222 tiny.bin\nsha256;ccc333 big.dat\nblake2b512;ddd444 huge.iso\n";
    let actual = ArtsumParser::default().parse_str(input).unwrap();
    assert_eq!(actual.artifacts.len(), 4);
    assert_eq!(actual.artifacts.get("small.txt").unwrap().algorithm, ChecksumAlgorithm::XXH3);
    assert_eq!(actual.artifacts.get("tiny.bin").unwrap().algorithm, ChecksumAlgorithm::CRC32);
    assert_eq!(actual.artifacts.get("big.dat").unwrap().algorithm, ChecksumAlgorithm::SHA256);
    assert_eq!(
        actual.artifacts.get("huge.iso").unwrap().algorithm,
        ChecksumAlgorithm::BLAKE2B512
    );
}

#[test]
fn parse_str_reports_bad_checksums() {
    let actual = ArtsumParser::default().parse_str("xxh3;abc a.txt\nfoo;123 b.txt\nbar;1 c.txt\n");
    assert_eq!(
        actual.unwrap_err(),
        ManifestError::ChecksumError(ChecksumError::UnsupportedAlgorithm(String::from("foo")))
    );
    let invalid = ArtsumParser::default().parse_str("md5 a.txt\n");
    assert_eq!(
        invalid.unwrap_err(),
        ManifestError::ChecksumError(ChecksumError::InvalidChecksumFormat)
    );
}

#[test]
fn parse_str_later_lines_win_and_odd_lines_are_skipped() {
    let input = "md5;1 a.txt\nmd5;2 a.txt\nmd5;3 two words\nonly\n";
    let actual = ArtsumParser::default().parse_str(input).unwrap();
    assert_eq!(actual.artifacts.len(), 1);
    assert_eq!(actual.artifacts.get("a.txt").unwrap().digest, "2");
    assert_eq!(actual.version, None);
}

#[test]
fn test_parse_reads_standard_format_binary() {
    let parser = MD5SUMParser::default();
    let actual = parser.parse_str("d41d8cd98f00b204e9800998ecf8427e src/lib.rs").unwrap();
    let c = actual.artifacts.get("src/lib.rs").unwrap();
    assert_eq!(c.mode, ChecksumMode::Binary);
    assert_eq!(c.algorithm, ChecksumAlgorithm::MD5);
    assert_eq!(c.digest, "d41d8cd98f00b204e9800998ecf8427e");
    assert_eq!(actual.version, None);
}

#[test]
fn test_from_str_reads_standard_format_binary() {
    let parser = MD5SUMParser::default();
    let expected = manifest_of(vec![(
        "docs/guide.txt",
        checksum(ChecksumMode::Binary, ChecksumAlgorithm::MD5, "0cc175b9c0f1b6a831c399e269772661"),
    )]);
    let actual = parser
        .parse_str(&format!("{} {}", "0cc175b9c0f1b6a831c399e269772661", "docs/guide.txt"))
        .unwrap();
    assert_eq!(actual.version, expected.version);
    assert_eq!(actual.artifacts, expected.artifacts);
}

#[test]
fn test_from_str_reads_standard_format_text() {
    let parser = MD5SUMParser::default();
    let expected = manifest_of(vec![(
        "docs/guide.txt",
        checksum(ChecksumMode::Text, ChecksumAlgorithm::MD5, "0cc175b9c0f1b6a831c399e269772661"),
    )]);
    let actual = parser
        .parse_str(&format!("{}  {}", "0cc175b9c0f1b6a831c399e269772661", "docs/guide.txt"))
        .unwrap();
    assert_eq!(actual.version, expected.version);
    assert_eq!(actual.artifacts, expected.artifacts);
}

#[test]
fn standard_format_drops_binary_marker() {
    let actual = MD5SUMParser::default().parse_str("abc *image.iso\n").unwrap();
    assert!(actual.artifacts.contains_key("image.iso"));
}

#[test]
fn test_to_string_produces_standard_format_binary() {
    let parser = MD5SUMParser::default();
    let manifest = manifest_of(vec![(
        "docs/guide.txt",
        checksum(ChecksumMode::Binary, ChecksumAlgorithm::MD5, "0cc175b9c0f1b6a831c399e269772661"),
    )]);
    assert_eq!(
        parser.to_string(&manifest).unwrap(),
        format!("{} {}", "0cc175b9c0f1b6a831c399e269772661", "docs/guide.txt")
    );
}

#[test]
fn test_to_string_produces_standard_format_text() {
    let parser = MD5SUMParser::default();
    let manifest = manifest_of(vec![(
        "docs/guide.txt",
        checksum(ChecksumMode::Text, ChecksumAlgorithm::MD5, "0cc175b9c0f1b6a831c399e269772661"),
    )]);
    assert_eq!(
        parser.to_string(&manifest).unwrap(),
        format!("{}  {}", "0cc175b9c0f1b6a831c399e269772661", "docs/guide.txt")
    );
}

#[test]
fn standard_to_string_produces_expected_output_for_text_mode() {
    let manifest = manifest_of(vec![(
        "notes/todo.md",
        checksum(ChecksumMode::Text, ChecksumAlgorithm::SHA256, "feedface"),
    )]);
    assert_eq!(standard_to_string(&manifest), format!("{}  {}", "feedface", "notes/todo.md"));
}

#[test]
fn standard_round_trip() {
    let manifest = manifest_of(vec![
        ("a.bin", checksum(ChecksumMode::Binary, ChecksumAlgorithm::SHA1, "0a0b")),
        ("b.txt", checksum(ChecksumMode::Text, ChecksumAlgorithm::SHA1, "ffff")),
    ]);
    let text = manifest_to_string(ManifestFormat::SHA1SUM, &manifest.artifacts);
    assert_eq!(text, "0a0b a.bin\nffff  b.txt");
    let parsed = parse_manifest_str(ManifestFormat::SHA1SUM, &text).unwrap();
    assert_eq!(parsed.artifacts, manifest.artifacts);
}

#[test]
fn artifact_map_insert_keeps_places() {
    let mut m = ArtifactMap::new();
    assert!(m.is_empty());
    m.insert(String::from("a"), checksum(ChecksumMode::Binary, ChecksumAlgorithm::MD5, "1"));
    m.insert(String::from("b"), checksum(ChecksumMode::Binary, ChecksumAlgorithm::MD5, "2"));
    m.insert(String::from("a"), checksum(ChecksumMode::Binary, ChecksumAlgorithm::MD5, "3"));
    assert_eq!(m.len(), 2);
    assert_eq!(m.entry(0).0, "a");
    assert_eq!(m.entry(0).1.digest, "3");
    assert_eq!(m.entry(1).0, "b");
    assert_eq!(m.get("c"), None);
}

#[test]
fn file_names_of_paths() {
    assert_eq!(file_name_of("a/b.txt"), Some(String::from("b.txt")));
    assert_eq!(file_name_of("a/b/."), Some(String::from("b")));
    assert_eq!(file_name_of("a/b/"), Some(String::from("b")));
    assert_eq!(file_name_of(".artsum"), Some(String::from(".artsum")));
    assert_eq!(file_name_of("a/.."), None);
    assert_eq!(file_name_of("/"), None);
    assert_eq!(file_name_of(""), None);
    assert_eq!(file_name_of("."), None);
    assert_eq!(join("a", "b"), "a/b");
    assert_eq!(join("", "b"), "b");
    assert_eq!(join("a/", "b"), "a/b");
    assert_eq!(join("a", "/abs/b"), "/abs/b");
}

fn entry(name: &str, is_file: bool) -> DirEntry {
    DirEntry { name: String::from(name), is_file }
}

#[test]
fn manifest_source_from_directory() {
    let facts = PathFacts {
        path: String::from("."),
        canonical: Some(String::from("/work")),
        is_file: false,
        is_dir: true,
        entries: vec![entry("a.txt", true), entry("release.md5", true)],
    };
    let source: ManifestSource = ManifestSource::from_path(&facts).unwrap();
    assert_eq!(source.format, ManifestFormat::MD5SUM);
    assert_eq!(source.filepath, "/work/release.md5");

    let with_default = PathFacts {
        entries: vec![entry(".artsum", true), entry("release.md5", true)],
        ..facts.clone()
    };
    let source = ManifestSource::from_path(&with_default).unwrap();
    assert_eq!(source.format, ManifestFormat::ARTSUM);
    assert_eq!(source.filepath, "/work/.artsum");

    let none = PathFacts { entries: vec![entry("a.txt", true)], ..facts.clone() };
    assert!(ManifestSource::from_path(&none).is_none());
}

#[test]
fn manifest_source_from_file() {
    let facts = PathFacts {
        path: String::from("sums/artsum.sha256"),
        canonical: Some(String::from("/work/sums/artsum.sha256")),
        is_file: true,
        is_dir: false,
        entries: Vec::new(),
    };
    let source = ManifestSource::from_path(&facts).unwrap();
    assert_eq!(source.format, ManifestFormat::SHA256SUM);
    assert_eq!(source.filepath, "/work/sums/artsum.sha256");
    let unresolved = PathFacts { canonical: None, ..facts.clone() };
    assert!(ManifestSource::from_path(&unresolved).is_none());
    let unknown = PathFacts { path: String::from("notes.txt"), ..facts };
    assert!(ManifestSource::from_path(&unknown).is_none());
}

#[test]
fn format_parsers_dispatch() {
    assert_eq!(ManifestFormat::MD5SUM.parser().algorithm(), Some(ChecksumAlgorithm::MD5));
    assert_eq!(ManifestFormat::ARTSUM.parser().default_filename(), "sfv.toml");
    let source = ManifestSource { filepath: String::from("/x/artsum.b2"), format: ManifestFormat::B2SUM };
    assert_eq!(source.parser().format(), ManifestFormat::B2SUM);
    let parsed = source.parser().parse_str("00ff  notes.txt").unwrap();
    let c = parsed.artifacts.get("notes.txt").unwrap();
    assert_eq!(c.algorithm, ChecksumAlgorithm::BLAKE2B512);
    assert_eq!(c.mode, ChecksumMode::Text);
}
