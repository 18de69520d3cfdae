use artsum::checksum::{
    Checksum, ChecksumAlgorithm, ChecksumError, ChecksumMode, ChecksumOptions, IoErrorKind,
    IoFailure,
};
use artsum::cli::{Cli, CommandOptions, Commands};
use artsum::common::{
    manifest_source_or_failure, ManifestCommand,
    artifact_mtime_unchanged, changed_slots, display_buffer_size, permit_change, worker_rows,
    DisplayCounters, DisplayMessage, GlobalFlags, PermitChange, Segment, TextStyle,
    WorkerSlotRegistry,
};
use artsum::generate::{
    decide_path, generate_summary_line, manifest_filepath, generate_task, needs_final_flush, record_generate_result,
    resolve_settings, resume_state, GenerateDisplayContext, GenerateError, GenerateOptions,
    GenerateTaskCounters, GenerateTaskOptions, GenerateTaskResult, PathDecision, RecordOutcome,
};
use artsum::manifest::{
    manifest_to_string, parse_manifest_str, ArtifactMap, Manifest, ManifestFormat, ManifestSource,
};
use artsum::refresh::{
    apply_refresh_result, check_best_algorithm, refresh_exit_code, refresh_task, RefreshError,
    RefreshTaskCounters, RefreshTaskOptions, RefreshTaskStatus,
};
use artsum::verify::{
    verify_task, VerifyDisplayContext, VerifyTaskCounters, VerifyTaskError,
    VerifyTaskOptions, VerifyTaskResult, VerifyTaskStatus,
};

fn flags(verbosity: u8, debug: bool, no_color: bool, no_progress: bool, no_display: bool) -> GlobalFlags {
    GlobalFlags { verbosity, debug, no_color, no_progress, no_display }
}

fn text_of(line: &[Segment]) -> String {
    line.iter().map(|s| s.text.clone()).collect()
}

#[test]
fn test_global_flags_merge_verbosity() {
    let top_level = flags(2, false, false, false, false);
    let subcommand = flags(1, false, false, false, false);
    let merged = top_level.merge(&subcommand);
    assert_eq!(merged.verbosity, 2);
}

#[test]
fn test_global_flags_merge_debug() {
    let top_level = flags(0, true, false, false, false);
    let subcommand = flags(0, false, false, false, false);
    let merged = top_level.merge(&subcommand);
    assert!(merged.debug);
}

#[test]
fn test_global_flags_merge_subcommand_precedence() {
    let top_level = flags(0, false, false, false, false);
    let subcommand = flags(0, true, true, true, true);
    let merged = top_level.merge(&subcommand);
    assert!(merged.debug);
    assert!(merged.no_color);
    assert!(merged.no_progress);
    assert!(merged.no_display);
}

#[test]
fn merge_is_symmetric_on_examples() {
    let a = flags(3, false, true, false, false);
    let b = flags(1, true, false, false, true);
    assert_eq!(a.merge(&b), b.merge(&a));
    assert_eq!(a.merge(&a), a);
    assert_eq!(a.merge(&flags(0, false, false, false, false)), a);
    assert!(flags(0, true, false, false, false).display_disabled());
    assert!(flags(0, false, false, false, true).progress_disabled());
}

#[test]
fn worker_slots_acquire_and_release() {
    let mut r = WorkerSlotRegistry::new(2);
    let first = r.acquire();
    let second = r.acquire();
    assert_eq!((first, second), (0, 1));
    assert_eq!(r.acquire(), 0);
    r.set(first, Some(String::from("a.txt")));
    assert_eq!(r.snapshot(), vec![Some(String::from("a.txt")), Some(String::new())]);
    r.set(first, None);
    r.set(second, None);
    r.set(7, Some(String::from("ignored")));
    assert_eq!(r.snapshot(), vec![None, None]);
    assert_eq!(r.acquire(), 0);
}

#[test]
fn changed_slots_report_differences() {
    let before = vec![Some(String::from("a")), None];
    let after = vec![Some(String::from("a")), Some(String::from("b"))];
    assert_eq!(changed_slots(&before, &after), vec![(1, Some(String::from("b")))]);
    assert_eq!(
        changed_slots(&Vec::new(), &after),
        vec![(0, Some(String::from("a"))), (1, Some(String::from("b")))]
    );
    assert_eq!(changed_slots(&after, &before), vec![(1, None)]);
}

#[test]
fn mtime_checks() {
    assert!(artifact_mtime_unchanged(Some(5), 5));
    assert!(!artifact_mtime_unchanged(Some(6), 5));
    assert!(!artifact_mtime_unchanged(None, 5));
}

#[test]
fn display_sizes() {
    assert_eq!(display_buffer_size(4), 1024);
    assert_eq!(display_buffer_size(200), 200 * 8 + 196 * 4);
    assert_eq!(worker_rows(0, 3), (3, 0));
    assert_eq!(worker_rows(0, 12), (8, 4));
    assert_eq!(worker_rows(1, 12), (0, 0));
    assert_eq!(permit_change(4, 1), PermitChange::Add(3));
    assert_eq!(permit_change(1, 4), PermitChange::Forget(3));
    assert_eq!(permit_change(2, 2), PermitChange::Keep);
}

fn sha256_of(content: &[u8]) -> Checksum {
    Checksum::from_file(
        &ChecksumOptions::<artsum::checksum::NoProgress> {
            filepath: String::from("f"),
            algorithm: ChecksumAlgorithm::SHA256,
            mode: ChecksumMode::Binary,
            chunk_size: None,
            progress_callback: None,
        },
        &Ok(content.to_vec()),
    )
    .unwrap()
}

fn verify_options(expected: Checksum) -> VerifyTaskOptions {
    VerifyTaskOptions {
        dirpath: String::from("/data"),
        filename: String::from("a.txt"),
        expected,
        chunk_size: 8192,
    }
}

#[test]
fn verify_unchanged_file_is_valid() {
    let mut counters = VerifyTaskCounters::new(1);
    let expected = sha256_of(b"hello");
    let r = verify_task(&verify_options(expected.clone()), &Some(Ok(b"hello".to_vec())), &mut counters)
        .unwrap();
    assert_eq!(r.status, VerifyTaskStatus::Valid);
    assert_eq!(r.actual, Some(expected));
    assert_eq!(counters.valid, 1);
    assert_eq!(counters.current(), 1);
    assert_eq!(counters.total(), Some(1));
}

#[test]
fn verify_changed_file_is_invalid() {
    let mut counters = VerifyTaskCounters::new(1);
    let r = verify_task(&verify_options(sha256_of(b"hello")), &Some(Ok(b"hellO".to_vec())), &mut counters)
        .unwrap();
    assert_eq!(r.status, VerifyTaskStatus::Invalid);
    assert_eq!(counters.invalid, 1);
    assert_eq!(VerifyTaskStatus::Invalid.symbol(), "✗");
}

#[test]
fn verify_missing_file_is_counted_missing() {
    let mut counters = VerifyTaskCounters::new(1);
    let r = verify_task(&verify_options(sha256_of(b"x")), &None, &mut counters).unwrap();
    assert_eq!(r.status, VerifyTaskStatus::Missing);
    assert_eq!(r.actual, None);
    assert_eq!(counters, VerifyTaskCounters { missing: 1, ..VerifyTaskCounters::new(1) });
    assert_eq!(counters.current(), counters.total().unwrap());
    assert_eq!(verify_options(sha256_of(b"x")).filepath(), "/data/a.txt");
}

#[test]
fn verify_read_failure_is_an_error() {
    let mut counters = VerifyTaskCounters::new(1);
    let failure = IoFailure { kind: IoErrorKind::Other, message: String::from("denied") };
    let e = verify_task(&verify_options(sha256_of(b"x")), &Some(Err(failure.clone())), &mut counters)
        .unwrap_err();
    assert_eq!(e.filepath, "a.txt");
    assert_eq!(e.message, "Failed to calculate checksum");
    assert_eq!(e.error, Some(ChecksumError::IoError(failure)));
}

#[test]
fn verify_display() {
    let expected = Checksum {
        mode: ChecksumMode::Binary,
        algorithm: ChecksumAlgorithm::MD5,
        digest: String::from("aa"),
    };
    let actual = Checksum { digest: String::from("bb"), ..expected.clone() };
    let invalid = VerifyTaskResult {
        status: VerifyTaskStatus::Invalid,
        filename: String::from("a.txt"),
        actual: Some(actual),
        expected: expected.clone(),
    };
    let lines = artsum::verify::display_message_processor(DisplayMessage::Result(invalid), 0);
    assert_eq!(lines.len(), 1);
    assert_eq!(text_of(&lines[0]), "✗ a.txt (md5;bb != md5;aa)");
    assert_eq!(lines[0][0].style, TextStyle::BoldRed);
    let valid = VerifyTaskResult {
        status: VerifyTaskStatus::Valid,
        filename: String::from("a.txt"),
        actual: Some(expected.clone()),
        expected: expected.clone(),
    };
    let hidden = artsum::verify::display_message_processor(DisplayMessage::Result(valid), 1);
    assert!(hidden.is_empty());
    let progress: DisplayMessage<VerifyTaskResult, VerifyTaskError, VerifyTaskCounters, VerifyDisplayContext> =
        DisplayMessage::Progress {
            counters: VerifyTaskCounters { total: 5, valid: 3, invalid: 1, missing: 0 },
            current: 4,
            total: Some(5),
        };
    let lines = artsum::verify::display_message_processor(progress, 0);
    assert_eq!(text_of(&lines[0]), "3 valid 1 invalid [4/5]");
    let start: DisplayMessage<VerifyTaskResult, VerifyTaskError, VerifyTaskCounters, VerifyDisplayContext> =
        DisplayMessage::Start(
            ManifestSource { filepath: String::from("/d/.artsum"), format: ManifestFormat::ARTSUM },
            VerifyDisplayContext {},
        );
    let lines = artsum::verify::display_message_processor(start, 0);
    assert_eq!(text_of(&lines[0]), "Verifying /d/.artsum (artsum)");
}

fn refresh_options(checksum: Checksum) -> RefreshTaskOptions {
    RefreshTaskOptions {
        dirpath: String::from("/data"),
        filepath: String::from("a.txt"),
        checksum: checksum.clone(),
        checksum_algorithm: Some(checksum.algorithm),
        checksum_mode: Some(checksum.mode),
        chunk_size: 8192,
    }
}

#[test]
fn refresh_statuses() {
    let old = sha256_of(b"one");
    let mut counters = RefreshTaskCounters::new(3);
    let mut artifacts = ArtifactMap::new();

    let same = refresh_task(&refresh_options(old.clone()), &Some(Ok(b"one".to_vec())), &mut counters)
        .unwrap();
    assert!(matches!(same.status, RefreshTaskStatus::Unchanged { .. }));
    apply_refresh_result(&mut artifacts, &same);
    assert_eq!(artifacts.get("a.txt"), Some(&old));

    let changed = refresh_task(&refresh_options(old.clone()), &Some(Ok(b"two".to_vec())), &mut counters)
        .unwrap();
    match &changed.status {
        RefreshTaskStatus::Updated { old: o, new } => {
            assert_eq!(o, &old);
            assert_eq!(new, &sha256_of(b"two"));
        },
        other => panic!("unexpected {:?}", other),
    }
    apply_refresh_result(&mut artifacts, &changed);
    assert_eq!(artifacts.get("a.txt"), Some(&sha256_of(b"two")));

    let removed = refresh_task(&refresh_options(old.clone()), &None, &mut counters).unwrap();
    assert!(matches!(removed.status, RefreshTaskStatus::Removed));
    assert_eq!(RefreshTaskStatus::Removed.symbol(), "✗");
    assert_eq!((counters.unchanged, counters.updated, counters.removed), (1, 1, 1));
    assert_eq!(counters.current(), 3);
    assert_eq!(refresh_exit_code(&counters), 0);

    let failure = IoFailure { kind: IoErrorKind::Other, message: String::from("denied") };
    let e = refresh_task(&refresh_options(old), &Some(Err(failure)), &mut counters).unwrap_err();
    assert_eq!(e.filename, "a.txt");
    assert_eq!(counters.error, 1);
    assert_eq!(refresh_exit_code(&counters), 1);
}

#[test]
fn refresh_refuses_best_outside_artsum() {
    let mut artifacts = ArtifactMap::new();
    artifacts.insert(
        String::from("a"),
        Checksum { mode: ChecksumMode::Binary, algorithm: ChecksumAlgorithm::Best, digest: String::from("1") },
    );
    let manifest = Manifest { version: None, artifacts };
    assert_eq!(check_best_algorithm(ManifestFormat::ARTSUM, &manifest), Ok(()));
    assert_eq!(
        check_best_algorithm(ManifestFormat::MD5SUM, &manifest),
        Err(RefreshError::BestAlgorithmRequiresArtsumFormat(ManifestFormat::MD5SUM))
    );
}

fn generate_options() -> GenerateOptions {
    GenerateOptions {
        dirpath: String::from("/data"),
        output: None,
        algorithm: None,
        format: None,
        mode: None,
        glob: None,
        only: None,
        exclude: None,
        ignore_vcs: false,
        chunk_size: 8192,
        max_workers: 2,
        debug: false,
        no_display: false,
        no_progress: false,
        verbosity: 0,
        force: false,
        flush_batch_size: 2,
    }
}

#[test]
fn generate_settings_checks() {
    let s = resolve_settings(&generate_options()).unwrap();
    assert_eq!(s.format, ManifestFormat::ARTSUM);
    assert_eq!(s.algorithm, ChecksumAlgorithm::SHA256);
    assert_eq!(s.mode, ChecksumMode::Binary);
    assert_eq!(manifest_filepath(&generate_options(), &s, "/data"), "/data/sfv.toml");
    let out = GenerateOptions { output: Some(String::from("/tmp/m.md5")), ..generate_options() };
    assert_eq!(manifest_filepath(&out, &s, "/data"), "/tmp/m.md5");
    let best_artsum = GenerateOptions { algorithm: Some(ChecksumAlgorithm::Best), ..generate_options() };
    assert_eq!(resolve_settings(&best_artsum).unwrap().algorithm, ChecksumAlgorithm::Best);

    let md5 = GenerateOptions { format: Some(ManifestFormat::MD5SUM), ..generate_options() };
    assert_eq!(resolve_settings(&md5).unwrap().algorithm, ChecksumAlgorithm::MD5);

    let best = GenerateOptions {
        format: Some(ManifestFormat::MD5SUM),
        algorithm: Some(ChecksumAlgorithm::Best),
        ..generate_options()
    };
    assert_eq!(
        resolve_settings(&best),
        Err(GenerateError::BestAlgorithmRequiresArtsumFormat(ManifestFormat::MD5SUM))
    );

    let mismatch = GenerateOptions {
        format: Some(ManifestFormat::MD5SUM),
        algorithm: Some(ChecksumAlgorithm::SHA1),
        ..generate_options()
    };
    assert_eq!(
        resolve_settings(&mismatch),
        Err(GenerateError::UnsupportedManifestAlgorithm {
            algorithm: ChecksumAlgorithm::SHA1,
            format: ManifestFormat::MD5SUM,
            expected: ChecksumAlgorithm::MD5,
        })
    );

    let bad = GenerateOptions { exclude: Some(vec![String::from("(")]), ..generate_options() };
    assert_eq!(resolve_settings(&bad), Err(GenerateError::InvalidRegex(String::from("("))));
}

#[test]
fn generate_path_decisions() {
    let mut resumed = ArtifactMap::new();
    resumed.insert(
        String::from("old.txt"),
        Checksum { mode: ChecksumMode::Binary, algorithm: ChecksumAlgorithm::MD5, digest: String::from("1") },
    );
    let resume = resume_state(
        false,
        Some(Ok(Manifest { version: None, artifacts: resumed })),
        Some(100),
    );
    let only = vec![String::from("\\.txt$")];
    let exclude = vec![String::from("skip")];
    let d = |path: &str, mtime: Option<i128>| {
        decide_path(path, "/data/.artsum", "/data", &only, &exclude, &resume, mtime)
    };
    assert_eq!(d("/data/.artsum", None), PathDecision::SkipManifest);
    assert_eq!(d("/data/skip.txt", None), PathDecision::Excluded);
    assert_eq!(d("/data/a.bin", None), PathDecision::NotSelected);
    assert_eq!(d("/data/old.txt", Some(50)), PathDecision::Unchanged);
    assert_eq!(d("/data/old.txt", Some(150)), PathDecision::Process);
    assert_eq!(d("/data/new.txt", Some(50)), PathDecision::Process);

    let forced = resume_state(true, Some(Ok(Manifest { version: None, artifacts: ArtifactMap::new() })), Some(1));
    assert_eq!(forced.reference_mtime, None);
}

#[test]
fn generate_tasks_and_records() {
    let mut counters = GenerateTaskCounters::new();
    let options = GenerateTaskOptions {
        filepath: String::from("/data/a.txt"),
        algorithm: ChecksumAlgorithm::Best,
        mode: ChecksumMode::Binary,
        chunk_size: 8192,
    };
    let result = generate_task(&options, &Some(Ok(b"abc".to_vec())), &mut counters).unwrap();
    assert_eq!(result.checksum.algorithm, ChecksumAlgorithm::CRC32);
    assert_eq!(result.checksum.digest, "352441c2");
    assert_eq!(counters.success, 1);

    let missing = generate_task(&options, &None, &mut counters).unwrap_err();
    assert_eq!(missing.message, "File does not exist");
    assert_eq!(counters, GenerateTaskCounters { success: 1, error: 1 });

    let mut artifacts = ArtifactMap::new();
    let mut pending = 0usize;
    assert_eq!(
        record_generate_result(&mut artifacts, &result, "/data", &mut pending, 2),
        RecordOutcome::Recorded { flush: false }
    );
    assert_eq!(artifacts.get("a.txt").unwrap().digest, "352441c2");
    let other = GenerateTaskResult { filename: String::from("/data/b.txt"), checksum: result.checksum.clone() };
    assert_eq!(
        record_generate_result(&mut artifacts, &other, "/data", &mut pending, 2),
        RecordOutcome::Recorded { flush: true }
    );
    assert_eq!(pending, 0);
    assert!(!needs_final_flush(0, &artifacts));
    assert!(needs_final_flush(0, &ArtifactMap::new()));
}

#[test]
fn generate_display() {
    let start: DisplayMessage<GenerateTaskResult, artsum::generate::GenerateTaskError, GenerateTaskCounters, GenerateDisplayContext> =
        DisplayMessage::Start(
            ManifestSource { filepath: String::from("/data/.artsum"), format: ManifestFormat::ARTSUM },
            GenerateDisplayContext {
                manifest_filepath: String::from("/data/.artsum"),
                manifest_dirpath: String::from("/data"),
                checksum_algorithm: ChecksumAlgorithm::XXH3,
                checksum_mode: ChecksumMode::Text,
            },
        );
    let lines = artsum::generate::display_message_processor(start, 0);
    assert_eq!(text_of(&lines[0]), "Generating manifest for /data (.artsum)");
    assert_eq!(text_of(&lines[1]), "Using manifest format artsum with checksum algorithm xxh3 (text)");
    let summary = generate_summary_line(3, 0, 2, "/data/.artsum");
    assert_eq!(text_of(&summary), "✓ 3 added  ✗ 0 errors  2 skipped  → /data/.artsum");
    assert_eq!(summary[0].style, TextStyle::Green);
    assert_eq!(summary[2].style, TextStyle::Dimmed);
}

#[test]
fn cli_invocations() {
    let cli = Cli {
        command: Some(Commands::Verify {
            dirpath: String::from("/data"),
            manifest: None,
            chunk_size: 1024,
            max_workers: None,
            global_flags: flags(1, false, false, false, true),
        }),
        global_flags: flags(2, false, false, false, false),
    };
    let inv = cli.invocation(8, String::from("/cwd"));
    assert_eq!(inv.flags.verbosity, 2);
    match inv.options {
        CommandOptions::Verify(o) => {
            assert_eq!(o.dirpath, "/data");
            assert_eq!(o.max_workers, 8);
            assert!(o.no_display);
            assert!(o.no_progress);
            assert_eq!(o.verbosity, 2);
        },
        other => panic!("unexpected {:?}", other),
    }
    let bare = Cli { command: None, global_flags: flags(0, true, false, false, false) };
    match bare.invocation(4, String::from("/cwd")).options {
        CommandOptions::Verify(o) => {
            assert_eq!(o.dirpath, "/cwd");
            assert_eq!(o.chunk_size, 8192);
            assert!(o.no_display && o.no_progress && o.debug);
        },
        other => panic!("unexpected {:?}", other),
    }
}

#[test]
fn generated_manifest_verifies_unchanged_files() {
    let files: Vec<(&str, &[u8])> = vec![
        ("a.txt", b"alpha\n"),
        ("dir/b.bin", b"\x00\x01\x02"),
        ("c.txt", b"gamma\r\ndelta"),
    ];
    for (format, algorithm, mode) in [
        (ManifestFormat::ARTSUM, ChecksumAlgorithm::Best, ChecksumMode::Binary),
        (ManifestFormat::ARTSUM, ChecksumAlgorithm::XXH64, ChecksumMode::Text),
        (ManifestFormat::MD5SUM, ChecksumAlgorithm::MD5, ChecksumMode::Binary),
        (ManifestFormat::B2SUM, ChecksumAlgorithm::BLAKE2B512, ChecksumMode::Text),
    ] {
        let mut artifacts = ArtifactMap::new();
        let mut counters = GenerateTaskCounters::new();
        for (name, content) in &files {
            let r = generate_task(
                &GenerateTaskOptions {
                    filepath: name.to_string(),
                    algorithm,
                    mode,
                    chunk_size: 4096,
                },
                &Some(Ok(content.to_vec())),
                &mut counters,
            )
            .unwrap();
            artifacts.insert(r.filename, r.checksum);
        }
        let text = manifest_to_string(format, &artifacts);
        let read = parse_manifest_str(format, &text).unwrap();
        assert_eq!(read.artifacts.len(), files.len());
        let mut verified = VerifyTaskCounters::new(files.len());
        for (name, content) in &files {
            let expected = read.artifacts.get(name).unwrap().clone();
            let options = VerifyTaskOptions {
                dirpath: String::from("."),
                filename: name.to_string(),
                expected,
                chunk_size: 8192,
            };
            let r = verify_task(&options, &Some(Ok(content.to_vec())), &mut verified).unwrap();
            assert_eq!(r.status, VerifyTaskStatus::Valid);
        }
        assert_eq!(verified.valid, files.len());
    }
}

#[test]
fn refresh_reads_artifacts_inside_the_directory() {
    let options = refresh_options(sha256_of(b"x"));
    assert_eq!(options.artifact_path(), "/data/a.txt");
    let mut counters = RefreshTaskCounters::new(1);
    let r = refresh_task(&options, &Some(Ok(b"x".to_vec())), &mut counters).unwrap();
    assert_eq!(r.filename, "a.txt");
}

#[test]
fn digest_lengths_follow_the_algorithm() {
    for (algorithm, bytes) in [
        (ChecksumAlgorithm::MD5, 16),
        (ChecksumAlgorithm::SHA1, 20),
        (ChecksumAlgorithm::SHA256, 32),
        (ChecksumAlgorithm::SHA512, 64),
        (ChecksumAlgorithm::CRC32, 4),
        (ChecksumAlgorithm::XXH3, 8),
        (ChecksumAlgorithm::XXH32, 4),
        (ChecksumAlgorithm::XXH64, 8),
        (ChecksumAlgorithm::BLAKE2B256, 32),
        (ChecksumAlgorithm::BLAKE2B512, 64),
    ] {
        let options: ChecksumOptions = ChecksumOptions {
            filepath: String::from("f"),
            algorithm,
            mode: ChecksumMode::Binary,
            chunk_size: None,
            progress_callback: None,
        };
        let d = artsum::checksum::checksum_file(&options, &Ok(b"abc".to_vec())).unwrap();
        assert_eq!(d.len(), bytes);
        let c = Checksum::from_file(&options, &Ok(b"abc".to_vec())).unwrap();
        assert_eq!(c.digest.len(), 2 * bytes);
    }
}

#[test]
fn generate_missing_file_counts_as_error() {
    let mut counters = GenerateTaskCounters::new();
    let options = GenerateTaskOptions {
        filepath: String::from("/data/gone.txt"),
        algorithm: ChecksumAlgorithm::MD5,
        mode: ChecksumMode::Binary,
        chunk_size: 8192,
    };
    let e = generate_task(&options, &None, &mut counters).unwrap_err();
    assert_eq!(e.message, "File does not exist");
    assert_eq!(counters, GenerateTaskCounters { success: 0, error: 1 });
}

#[test]
fn missing_manifest_failures() {
    assert!(matches!(manifest_source_or_failure(ManifestCommand::Verify, None, true), Err((IoErrorKind::NotFound, "No manifest file found at"))));
    assert!(matches!(manifest_source_or_failure(ManifestCommand::Verify, None, false), Err((IoErrorKind::NotFound, "No manifest file found in directory"))));
    assert!(matches!(manifest_source_or_failure(ManifestCommand::Refresh, None, true), Err((IoErrorKind::InvalidData, "Invalid manifest file format found at"))));
    assert!(matches!(manifest_source_or_failure(ManifestCommand::Refresh, None, false), Err((IoErrorKind::NotFound, "No valid manifest file format found in directory"))));
    let found = ManifestSource { filepath: String::from("/d/sfv.toml"), format: ManifestFormat::ARTSUM };
    let r = manifest_source_or_failure(ManifestCommand::Refresh, Some(found), true).unwrap();
    assert_eq!(r.filepath, "/d/sfv.toml");
}
