//! The generate command: the checksums of the files of a directory are
//! computed and written to a manifest, resuming from an earlier manifest.

use vstd::prelude::*;
use vstd::string::*;

use crate::checksum::{
    algorithm_name, checksum_error_text, file_digest, mode_name, render_checksum,
    resolved_algorithm, zero_chunk_text_fails, Checksum, ChecksumAlgorithm, ChecksumError,
    ChecksumErrorView, ChecksumMode, ChecksumOptions, ChecksumView, IoErrorKind, IoFailure,
};
use crate::common::{
    add_count, sum_counts, wrapping_sum,
    artifact_mtime_unchanged, bump, concat, decimal_string, increment, join_segments,
    join_with_spaces, line_view, lines_view, push_line, push_segment, DisplayContext,
    DisplayCounters, DisplayError, DisplayMessage, DisplayResult, Segment, SegmentView,
    TaskCounters, TaskError, TaskOptions, TaskResult, TextStyle,
};
use crate::digest::hex_lower;
use crate::manifest::{
    format_algorithm, format_default_filename, format_name, ArtifactMap, Manifest, ManifestError, ManifestFormat,
    };
use crate::path::{
    join_path, diff_paths, file_name_of, path_file_name, regex_is_match, regex_match, relative_path_of,
};
use crate::text::decimal;

verus! {

/// What the generate command is asked to do.
#[derive(Debug, Clone)]
pub struct GenerateOptions {
    /// The directory whose files are checksummed.
    pub dirpath: String,
    /// The manifest file to write, when given; else the format's default file in the directory.
    pub output: Option<String>,
    /// The algorithm to use, when given.
    pub algorithm: Option<ChecksumAlgorithm>,
    /// The manifest format, when given; else artsum.
    pub format: Option<ManifestFormat>,
    /// The checksum mode, when given; else binary.
    pub mode: Option<ChecksumMode>,
    /// The glob pattern files are found with, when walking without ignore files.
    pub glob: Option<String>,
    /// Regular expressions of the paths to take; all paths when none.
    pub only: Option<Vec<String>>,
    /// Regular expressions of the paths to exclude (they win over the paths to take).
    pub exclude: Option<Vec<String>>,
    /// Also take the files that version control ignore files name.
    pub ignore_vcs: bool,
    /// The size of the chunks files are read in.
    pub chunk_size: usize,
    /// The number of workers.
    pub max_workers: usize,
    /// Log debug output (and show no display).
    pub debug: bool,
    /// Show no output.
    pub no_display: bool,
    /// Show no progress bars.
    pub no_progress: bool,
    /// How much detail to show.
    pub verbosity: u8,
    /// Ignore an existing manifest and checksum every file.
    pub force: bool,
    /// The number of completed artifacts between two writes of the manifest.
    pub flush_batch_size: usize,
}

/// The errors of the generate command that its own checks raise.
#[derive(Debug, Clone, PartialEq, Eq)]
pub enum GenerateError {
    /// A regular expression of the paths to take or to exclude does not compile.
    InvalidRegex(String),
    /// The algorithm asked for is not the one the format fixes.
    UnsupportedManifestAlgorithm {
        algorithm: ChecksumAlgorithm,
        format: ManifestFormat,
        expected: ChecksumAlgorithm,
    },
    /// The algorithm `best` was asked for with another format than artsum.
    BestAlgorithmRequiresArtsumFormat(ManifestFormat),
}

/// What a generate run writes: the format, and the algorithm and mode of its checksums.
#[derive(Debug, Clone, Copy, PartialEq, Eq, Structural)]
pub struct GenerateSettings {
    pub format: ManifestFormat,
    pub algorithm: ChecksumAlgorithm,
    pub mode: ChecksumMode,
}

/// Whether a regular expression compiles.
pub open spec fn pattern_compiles(p: Seq<char>) -> bool {
    regex_match(p, Seq::empty()) is Some
}

/// The first pattern that does not compile, if any.
pub open spec fn first_bad_pattern(ps: Seq<Seq<char>>) -> Option<Seq<char>>
    decreases ps.len(),
{
    if ps.len() == 0 {
        None
    } else if !pattern_compiles(ps[0]) {
        Some(ps[0])
    } else {
        first_bad_pattern(ps.drop_first())
    }
}

/// Strings as values.
pub open spec fn strings_view(v: Vec<String>) -> Seq<Seq<char>> {
    v@.map_values(|s: String| s@)
}

/// The patterns of an optional list, as values.
pub open spec fn patterns_view(p: Option<Vec<String>>) -> Seq<Seq<char>> {
    match p {
        Some(v) => strings_view(v),
        None => Seq::empty(),
    }
}

/// The mathematical value of a generate error.
pub enum GenerateErrorView {
    InvalidRegex(Seq<char>),
    UnsupportedManifestAlgorithm {
        algorithm: ChecksumAlgorithm,
        format: ManifestFormat,
        expected: ChecksumAlgorithm,
    },
    BestAlgorithmRequiresArtsumFormat(ManifestFormat),
}

impl View for GenerateError {
    type V = GenerateErrorView;

    open spec fn view(&self) -> GenerateErrorView {
        match self {
            GenerateError::InvalidRegex(p) => GenerateErrorView::InvalidRegex(p@),
            GenerateError::UnsupportedManifestAlgorithm { algorithm, format, expected } =>
                GenerateErrorView::UnsupportedManifestAlgorithm {
                algorithm: *algorithm,
                format: *format,
                expected: *expected,
            },
            GenerateError::BestAlgorithmRequiresArtsumFormat(f) =>
                GenerateErrorView::BestAlgorithmRequiresArtsumFormat(*f),
        }
    }
}

/// The format a run writes: the one asked for, else artsum.
pub open spec fn settings_format(o: GenerateOptions) -> ManifestFormat {
    match o.format {
        Some(f) => f,
        None => ManifestFormat::ARTSUM,
    }
}

/// The algorithm a run computes with: the format's own, else the one asked for, else SHA-256.
pub open spec fn settings_algorithm(o: GenerateOptions) -> ChecksumAlgorithm {
    match format_algorithm(settings_format(o)) {
        Some(a) => a,
        None => match o.algorithm {
            Some(a) => a,
            None => ChecksumAlgorithm::SHA256,
        },
    }
}

/// What the options of a run lead to: the first pattern of the paths to take,
/// then of those to exclude, that does not compile; then `best` asked for with another
/// format than artsum; then `best` resolved with another format; then an
/// algorithm asked for that is not the resolved one; else the settings.
pub open spec fn generate_settings(o: GenerateOptions) -> Result<GenerateSettings, GenerateErrorView> {
    let format = settings_format(o);
    let algorithm = settings_algorithm(o);
    match first_bad_pattern(patterns_view(o.only)) {
        Some(p) => Err(GenerateErrorView::InvalidRegex(p)),
        None => match first_bad_pattern(patterns_view(o.exclude)) {
            Some(p) => Err(GenerateErrorView::InvalidRegex(p)),
            None => if o.algorithm == Some(ChecksumAlgorithm::Best) && format
                != ManifestFormat::ARTSUM {
                Err(GenerateErrorView::BestAlgorithmRequiresArtsumFormat(format))
            } else if algorithm == ChecksumAlgorithm::Best && format != ManifestFormat::ARTSUM {
                Err(GenerateErrorView::BestAlgorithmRequiresArtsumFormat(format))
            } else if o.algorithm is Some && o.algorithm->0 != algorithm {
                Err(
                    GenerateErrorView::UnsupportedManifestAlgorithm {
                        algorithm: o.algorithm->0,
                        format,
                        expected: algorithm,
                    },
                )
            } else {
                Ok(
                    GenerateSettings {
                        format,
                        algorithm,
                        mode: match o.mode {
                            Some(m) => m,
                            None => ChecksumMode::Binary,
                        },
                    },
                )
            },
        },
    }
}

/// The first of `patterns` that does not compile, if any.
fn find_bad_pattern(patterns: &Option<Vec<String>>) -> (r: Option<String>)
    ensures
        match first_bad_pattern(patterns_view(*patterns)) {
            Some(p) => r matches Some(s) && s@ == p,
            None => r is None,
        },
{
    match patterns {
        None => None,
        Some(v) => {
            let ghost ps = strings_view(*v);
            let mut i: usize = 0;
            proof {
                assert(ps.skip(0) =~= ps);
            }
            while i < v.len()
                invariant
                    i <= v@.len(),
                    ps == strings_view(*v),
                    *patterns == Some(*v),
                    first_bad_pattern(ps) == first_bad_pattern(ps.skip(i as int)),
                decreases v@.len() - i,
            {
                proof {
                    assert(ps.skip(i as int)[0] == v@[i as int]@);
                    assert(ps.skip(i as int).drop_first() =~= ps.skip(i + 1));
                }
                if regex_is_match(v[i].as_str(), "").is_none() {
                    proof {
                        reveal_strlit("");
                        assert(""@ =~= Seq::<char>::empty());
                    }
                    return Some(v[i].clone());
                }
                proof {
                    reveal_strlit("");
                    assert(""@ =~= Seq::<char>::empty());
                }
                i = i + 1;
            }
            proof {
                assert(ps.skip(i as int) =~= Seq::<Seq<char>>::empty());
            }
            None
        },
    }
}

/// Checks the options of a run and resolves what it writes.
pub fn resolve_settings(options: &GenerateOptions) -> (r: Result<GenerateSettings, GenerateError>)
    ensures
        match generate_settings(*options) {
            Ok(s) => r == Ok::<GenerateSettings, GenerateError>(s),
            Err(e) => r matches Err(err) && err@ == e,
        },
        r is Ok && options.mode is Some ==> r->Ok_0.mode == options.mode->0,
        r is Ok && options.mode is None ==> r->Ok_0.mode == ChecksumMode::Binary,
        r is Ok && options.format is Some ==> r->Ok_0.format == options.format->0,
        r is Ok && options.algorithm is Some ==> r->Ok_0.algorithm == options.algorithm->0,
{
    match find_bad_pattern(&options.only) {
        Some(p) => {
            return Err(GenerateError::InvalidRegex(p));
        },
        None => {},
    }
    match find_bad_pattern(&options.exclude) {
        Some(p) => {
            return Err(GenerateError::InvalidRegex(p));
        },
        None => {},
    }
    let format = match options.format {
        Some(f) => f,
        None => ManifestFormat::ARTSUM,
    };
    if options.algorithm == Some(ChecksumAlgorithm::Best) && format != ManifestFormat::ARTSUM {
        return Err(GenerateError::BestAlgorithmRequiresArtsumFormat(format));
    }
    let algorithm = match format.algorithm() {
        Some(a) => a,
        None => match options.algorithm {
            Some(a) => a,
            None => ChecksumAlgorithm::SHA256,
        },
    };
    if algorithm == ChecksumAlgorithm::Best && format != ManifestFormat::ARTSUM {
        return Err(GenerateError::BestAlgorithmRequiresArtsumFormat(format));
    }
    match options.algorithm {
        Some(a) => {
            if a != algorithm {
                return Err(
                    GenerateError::UnsupportedManifestAlgorithm { algorithm: a, format, expected: algorithm },
                );
            }
        },
        None => {},
    }
    let mode = match options.mode {
        Some(m) => m,
        None => ChecksumMode::Binary,
    };
    Ok(GenerateSettings { format, algorithm, mode })
}


/// Whether some pattern matches `text`.
pub open spec fn any_matches(ps: Seq<Seq<char>>, text: Seq<char>) -> bool {
    exists|i: int| 0 <= i < ps.len() && regex_match(#[trigger] ps[i], text) == Some(true)
}

/// Whether some of `patterns` matches `text`.
fn matches_any(patterns: &Vec<String>, text: &str) -> (r: bool)
    ensures
        r == any_matches(strings_view(*patterns), text@),
{
    let ghost ps = strings_view(*patterns);
    let mut i: usize = 0;
    while i < patterns.len()
        invariant
            i <= patterns@.len(),
            ps == strings_view(*patterns),
            forall|k: int| 0 <= k < i ==> regex_match(#[trigger] ps[k], text@) != Some(true),
        decreases patterns@.len() - i,
    {
        proof {
            assert(ps[i as int] == patterns@[i as int]@);
        }
        if regex_is_match(patterns[i].as_str(), text) == Some(true) {
            return true;
        }
        i = i + 1;
    }
    false
}

/// What a run does with a path it finds.
#[derive(Debug, Clone, Copy, PartialEq, Eq, Structural)]
pub enum PathDecision {
    /// The path is the manifest being written.
    SkipManifest,
    /// An exclude pattern matches the path.
    Excluded,
    /// There are patterns of paths to take and none matches.
    NotSelected,
    /// The manifest already has the file, which has not changed since.
    Unchanged,
    /// The file is checksummed.
    Process,
}

/// What to resume from: the artifacts of the existing manifest and when it was written.
pub struct ResumeState {
    /// The artifacts of the existing manifest.
    pub artifacts: ArtifactMap,
    /// When the existing manifest was written (nanoseconds from the Unix epoch),
    /// when it was read.
    pub reference_mtime: Option<i128>,
}

/// What a run does with the file at `path` (canonical): the manifest itself is
/// skipped; then paths that an exclude pattern matches; then, when there are
/// patterns of paths to take, paths none matches; then files the resumed
/// manifest has, by their path relative to the directory, and that have not
/// changed since it was written; the rest is checksummed.
pub open spec fn path_decision(
    path: Seq<char>,
    manifest_filepath: Seq<char>,
    dirpath: Seq<char>,
    only: Seq<Seq<char>>,
    exclude: Seq<Seq<char>>,
    resumed: Map<Seq<char>, ChecksumView>,
    reference_mtime: Option<i128>,
    file_mtime: Option<i128>,
) -> PathDecision {
    if path == manifest_filepath {
        PathDecision::SkipManifest
    } else if exclude.len() > 0 && any_matches(exclude, path) {
        PathDecision::Excluded
    } else if !(only.len() == 0 || any_matches(only, path)) {
        PathDecision::NotSelected
    } else if reference_mtime matches Some(reference) && (relative_path_of(path, dirpath) matches Some(rel) && resumed.dom().contains(rel) && (file_mtime matches Some(t) && t <= reference)) {
        PathDecision::Unchanged
    } else {
        PathDecision::Process
    }
}

/// Decides what a run does with the file at `path`.
pub fn decide_path(
    path: &str,
    manifest_filepath: &str,
    dirpath: &str,
    settings_only: &Vec<String>,
    settings_exclude: &Vec<String>,
    resume: &ResumeState,
    file_mtime: Option<i128>,
) -> (r: PathDecision)
    ensures
        r == path_decision(
            path@,
            manifest_filepath@,
            dirpath@,
            strings_view(*settings_only),
            strings_view(*settings_exclude),
            resume.artifacts@,
            resume.reference_mtime,
            file_mtime,
        ),
{
    let p = String::from_str(path);
    let m = String::from_str(manifest_filepath);
    if p == m {
        return PathDecision::SkipManifest;
    }
    if settings_exclude.len() > 0 && matches_any(settings_exclude, path) {
        return PathDecision::Excluded;
    }
    if !(settings_only.len() == 0 || matches_any(settings_only, path)) {
        return PathDecision::NotSelected;
    }
    match resume.reference_mtime {
        Some(reference) => {
            match diff_paths(path, dirpath) {
                Some(rel) => {
                    if resume.artifacts.contains_key(rel.as_str()) && artifact_mtime_unchanged(
                        file_mtime,
                        reference,
                    ) {
                        return PathDecision::Unchanged;
                    }
                },
                None => {},
            }
        },
        None => {},
    }
    PathDecision::Process
}

/// The state a run resumes from: unless forced, the artifacts of the existing
/// manifest and its time, when it could be read; else nothing.
pub fn resume_state(force: bool, existing: Option<Result<Manifest, ManifestError>>, manifest_mtime: Option<i128>) -> (r: ResumeState)
    ensures
        !force ==> (existing matches Some(Ok(m)) ==> r.artifacts@ == m.artifacts@ && r.reference_mtime == manifest_mtime),
        (force || !(existing matches Some(Ok(_)))) ==> r.artifacts@ == Map::<Seq<char>, ChecksumView>::empty() && r.reference_mtime is None,
{
    if !force {
        match existing {
            Some(Ok(m)) => {
                return ResumeState { artifacts: m.artifacts, reference_mtime: manifest_mtime };
            },
            _ => {},
        }
    }
    ResumeState { artifacts: ArtifactMap::new(), reference_mtime: None }
}

/// A checksummed file.
#[derive(Debug, Clone)]
pub struct GenerateTaskResult {
    /// The file's path.
    pub filename: String,
    /// Its checksum.
    pub checksum: Checksum,
}

/// The failure to checksum a file.
#[derive(Debug, Clone)]
pub struct GenerateTaskError {
    /// The file's path.
    pub filename: String,
    /// What went wrong.
    pub message: String,
    /// The checksum error behind it, if any.
    pub error: Option<ChecksumError>,
}

/// The counts of a generate run.
#[derive(Debug, Clone, Copy, PartialEq, Eq, Structural)]
pub struct GenerateTaskCounters {
    /// The number of files checksummed.
    pub success: usize,
    /// The number of files that failed.
    pub error: usize,
}

impl TaskResult for GenerateTaskResult {}

impl DisplayResult for GenerateTaskResult {}

impl TaskError for GenerateTaskError {}

impl DisplayError for GenerateTaskError {}

impl TaskCounters for GenerateTaskCounters {}

impl DisplayCounters for GenerateTaskCounters {
    fn current(&self) -> (r: usize)
        ensures
            r == wrapping_sum(self.success, self.error),
            self.success + self.error <= usize::MAX ==> r == self.success + self.error,
    {
        sum_counts(self.success, self.error)
    }

    fn total(&self) -> (r: Option<usize>)
        ensures
            r is None,
    {
        None
    }
}

impl GenerateTaskCounters {
    /// Adds the counts of `other`.
    pub fn absorb(&mut self, other: &GenerateTaskCounters)
        ensures
            final(self).success == wrapping_sum(old(self).success, other.success),
            final(self).error == wrapping_sum(old(self).error, other.error),
    {
        add_count(&mut self.success, other.success);
        add_count(&mut self.error, other.error);
    }

    /// Counters at the start of a run.
    pub fn new() -> (r: GenerateTaskCounters)
        ensures
            r == (GenerateTaskCounters { success: 0, error: 0 }),
    {
        GenerateTaskCounters { success: 0, error: 0 }
    }
}

/// The options of one file's checksum.
pub struct GenerateTaskOptions {
    /// The file's path.
    pub filepath: String,
    /// The algorithm to use.
    pub algorithm: ChecksumAlgorithm,
    /// The mode to use.
    pub mode: ChecksumMode,
    /// The size of the chunks the file is read in.
    pub chunk_size: usize,
}

impl TaskOptions for GenerateTaskOptions {}

/// The message of a path that is not a file.
pub open spec fn missing_file_message() -> Seq<char> {
    "File does not exist"@
}

/// The message of a failed checksum.
pub open spec fn generate_failure_message() -> Seq<char> {
    "Failed to generate checksum"@
}

/// Whether an error reports the failure on `filename` with `message` for the reason `err`.
pub open spec fn generate_error_is(e: GenerateTaskError, filename: Seq<char>, message: Seq<char>, err: ChecksumErrorView) -> bool {
    &&& e.filename@ == filename
    &&& e.message@ == message
    &&& (e.error matches Some(ce) && ce@ == err)
}

/// Checksums one file. `file` is `None` when the path is not a file, and
/// otherwise what reading it gave; a checksum counts as a success, a missing
/// file or a failure to compute the checksum as an error.
pub fn generate_task(
    options: &GenerateTaskOptions,
    file: &Option<Result<Vec<u8>, IoFailure>>,
    counters: &mut GenerateTaskCounters,
) -> (r: Result<GenerateTaskResult, GenerateTaskError>)
    requires
        file matches Some(Ok(b)) ==> !zero_chunk_text_fails(options.mode, Some(options.chunk_size), b@),
    ensures
        match file {
            None => r matches Err(e) && generate_error_is(
                e,
                options.filepath@,
                missing_file_message(),
                ChecksumErrorView::Io(IoErrorKind::NotFound, missing_file_message()),
            ) && *final(counters) == (GenerateTaskCounters { error: bump(old(counters).error), ..*old(counters) }),
            Some(Err(f)) => r matches Err(e) && generate_error_is(
                e,
                options.filepath@,
                generate_failure_message(),
                ChecksumErrorView::Io(f.kind, f.message@),
            ) && *final(counters) == (GenerateTaskCounters { error: bump(old(counters).error), ..*old(counters) }),
            Some(Ok(b)) => match file_digest(options.algorithm, options.mode, Some(options.chunk_size), Ok(b@)) {
                Err(f) => r matches Err(e) && generate_error_is(
                    e,
                    options.filepath@,
                    generate_failure_message(),
                    ChecksumErrorView::Io(f.0, f.1),
                ) && *final(counters) == (GenerateTaskCounters { error: bump(old(counters).error), ..*old(counters) }),
                Ok(d) => r matches Ok(res) && res.filename@ == options.filepath@ && res.checksum@ == (ChecksumView {
                    mode: options.mode,
                    algorithm: resolved_algorithm(options.algorithm, b@.len()),
                    digest: hex_lower(d),
                }) && *final(counters) == (GenerateTaskCounters { success: bump(old(counters).success), ..*old(counters) }),
            },
        },
{
    let content = match file {
        None => {
            increment(&mut counters.error);
            return Err(
                GenerateTaskError {
                    filename: options.filepath.clone(),
                    message: String::from_str("File does not exist"),
                    error: Some(
                        ChecksumError::IoError(
                            IoFailure {
                                kind: IoErrorKind::NotFound,
                                message: String::from_str("File does not exist"),
                            },
                        ),
                    ),
                },
            );
        },
        Some(c) => c,
    };
    let checksum_options: ChecksumOptions = ChecksumOptions {
        filepath: options.filepath.clone(),
        algorithm: options.algorithm,
        mode: options.mode,
        chunk_size: Some(options.chunk_size),
        progress_callback: None,
    };
    match Checksum::from_file(&checksum_options, content) {
        Ok(checksum) => {
            increment(&mut counters.success);
            Ok(GenerateTaskResult { filename: options.filepath.clone(), checksum })
        },
        Err(error) => {
            increment(&mut counters.error);
            Err(
                GenerateTaskError {
                    filename: options.filepath.clone(),
                    message: String::from_str("Failed to generate checksum"),
                    error: Some(error),
                },
            )
        },
    }
}

/// What recording a checksummed file did: nothing, when its path has no form
/// relative to the directory; else the artifact was recorded, and whether the
/// manifest is due to be written.
#[derive(Debug, Clone, Copy, PartialEq, Eq, Structural)]
pub enum RecordOutcome {
    Ignored,
    Recorded { flush: bool },
}

/// Records a checksummed file under its path relative to the directory, and
/// counts it towards the next write of the manifest, which is due once
/// `batch_size` artifacts are pending (the count then starts again).
pub fn record_generate_result(
    artifacts: &mut ArtifactMap,
    result: &GenerateTaskResult,
    dirpath: &str,
    pending: &mut usize,
    batch_size: usize,
) -> (r: RecordOutcome)
    ensures
        match relative_path_of(result.filename@, dirpath@) {
            None => r == RecordOutcome::Ignored && final(artifacts)@ == old(artifacts)@ && *final(pending) == *old(pending),
            Some(rel) => final(artifacts)@ == old(artifacts)@.insert(rel, result.checksum@) && (
                if bump(*old(pending)) >= batch_size {
                    r == (RecordOutcome::Recorded { flush: true }) && *final(pending) == 0
                } else {
                    r == (RecordOutcome::Recorded { flush: false }) && *final(pending) == bump(*old(pending))
                }),
        },
{
    match diff_paths(result.filename.as_str(), dirpath) {
        None => RecordOutcome::Ignored,
        Some(rel) => {
            artifacts.insert(rel, result.checksum.duplicate());
            increment(pending);
            if *pending >= batch_size {
                *pending = 0;
                RecordOutcome::Recorded { flush: true }
            } else {
                RecordOutcome::Recorded { flush: false }
            }
        },
    }
}

/// Whether the manifest is written once more at the end of a run: when
/// artifacts are pending, or when there are none at all (so that an empty
/// manifest is written).
pub fn needs_final_flush(pending: usize, artifacts: &ArtifactMap) -> (r: bool)
    ensures
        r == (pending > 0 || artifacts@.dom().len() == 0),
{
    pending > 0 || artifacts.is_empty()
}


/// The context of a generate run's start.
pub struct GenerateDisplayContext {
    /// The manifest file written.
    pub manifest_filepath: String,
    /// The directory whose files are checksummed.
    pub manifest_dirpath: String,
    /// The algorithm used.
    pub checksum_algorithm: ChecksumAlgorithm,
    /// The mode used.
    pub checksum_mode: ChecksumMode,
}

impl DisplayContext for GenerateDisplayContext {}

/// The final component of a path, or nothing.
pub open spec fn file_name_or_empty(p: Seq<char>) -> Seq<char> {
    match path_file_name(p) {
        Some(n) => n,
        None => Seq::empty(),
    }
}

/// The line that shows an error.
pub open spec fn generate_error_line(e: GenerateTaskError) -> Seq<SegmentView> {
    let base = seq![(e.filename@, TextStyle::Dimmed), (": "@, TextStyle::Plain), (e.message@, TextStyle::Red)];
    match e.error {
        Some(ce) => base.push((" ("@ + checksum_error_text(ce@) + ")"@, TextStyle::Red)),
        None => base,
    }
}

/// The pieces of the progress of a generate run, before they are joined.
pub open spec fn generate_progress_parts(c: GenerateTaskCounters) -> Seq<SegmentView> {
    let a = seq![(decimal(c.success as nat) + " added"@, TextStyle::Green)];
    if c.error > 0 {
        a.push((decimal(c.error as nat) + " errors"@, TextStyle::Red))
    } else {
        a
    }
}

/// The lines a display message of a generate run shows: at the start, the
/// directory and manifest file, then the format, algorithm and mode; a
/// checksummed file from verbosity 1; every error; the counts.
pub open spec fn generate_display_lines(
    message: DisplayMessage<GenerateTaskResult, GenerateTaskError, GenerateTaskCounters, GenerateDisplayContext>,
    verbosity: u8,
) -> Seq<Seq<SegmentView>> {
    match message {
        DisplayMessage::Start(source, ctx) => seq![
            seq![
                (
                    "Generating manifest for "@ + ctx.manifest_dirpath@ + " ("@ + file_name_or_empty(
                        ctx.manifest_filepath@,
                    ) + ")"@,
                    TextStyle::Plain,
                ),
            ],
            seq![
                (
                    "Using manifest format "@ + format_name(source.format) + " with checksum algorithm "@
                        + algorithm_name(ctx.checksum_algorithm) + if ctx.checksum_mode
                        == ChecksumMode::Text {
                        " ("@ + mode_name(ChecksumMode::Text) + ")"@
                    } else {
                        Seq::empty()
                    },
                    TextStyle::Dimmed,
                ),
            ],
        ],
        DisplayMessage::Result(r) => if verbosity >= 1 {
            seq![seq![(render_checksum(r.checksum@) + " "@ + r.filename@, TextStyle::Dimmed)]]
        } else {
            seq![]
        },
        DisplayMessage::Error(e) => seq![generate_error_line(e)],
        DisplayMessage::Progress { counters, .. } => seq![join_with_spaces(generate_progress_parts(counters))],
        DisplayMessage::InProgress { .. } => seq![],
        DisplayMessage::Exit => seq![],
    }
}

fn generate_error_segments(e: &GenerateTaskError) -> (line: Vec<Segment>)
    ensures
        line_view(line) == generate_error_line(*e),
{
    let mut line: Vec<Segment> = Vec::new();
    push_segment(&mut line, e.filename.clone(), TextStyle::Dimmed);
    push_segment(&mut line, String::from_str(": "), TextStyle::Plain);
    push_segment(&mut line, e.message.clone(), TextStyle::Red);
    match &e.error {
        Some(ce) => {
            let mut t = String::from_str(" (");
            t.append(ce.to_string().as_str());
            t.append(")");
            push_segment(&mut line, t, TextStyle::Red);
        },
        None => {},
    }
    proof {
        assert(line_view(line) =~= generate_error_line(*e));
    }
    line
}

/// The lines a display message of a generate run shows at a verbosity.
pub fn display_message_processor(
    message: DisplayMessage<GenerateTaskResult, GenerateTaskError, GenerateTaskCounters, GenerateDisplayContext>,
    verbosity: u8,
) -> (r: Vec<Vec<Segment>>)
    ensures
        lines_view(r) == generate_display_lines(message, verbosity),
{
    let mut lines: Vec<Vec<Segment>> = Vec::new();
    proof {
        assert(lines_view(lines) =~= Seq::<Seq<SegmentView>>::empty());
    }
    match &message {
        DisplayMessage::Start(source, ctx) => {
            let mut t = concat("Generating manifest for ", ctx.manifest_dirpath.as_str());
            t.append(" (");
            match file_name_of(ctx.manifest_filepath.as_str()) {
                Some(n) => t.append(n.as_str()),
                None => {},
            }
            t.append(")");
            let mut first: Vec<Segment> = Vec::new();
            push_segment(&mut first, t, TextStyle::Plain);
            let mut u = concat("Using manifest format ", source.format.name());
            u.append(" with checksum algorithm ");
            u.append(ctx.checksum_algorithm.name());
            if ctx.checksum_mode == ChecksumMode::Text {
                u.append(" (");
                u.append(ChecksumMode::Text.name());
                u.append(")");
            }
            proof {
                assert(u@ =~= "Using manifest format "@ + format_name(source.format)
                    + " with checksum algorithm "@ + algorithm_name(ctx.checksum_algorithm) + if ctx.checksum_mode
                    == ChecksumMode::Text {
                    " ("@ + mode_name(ChecksumMode::Text) + ")"@
                } else {
                    Seq::empty()
                });
            }
            let mut second: Vec<Segment> = Vec::new();
            push_segment(&mut second, u, TextStyle::Dimmed);
            proof {
                assert(line_view(first) =~= seq![
                    (
                        "Generating manifest for "@ + ctx.manifest_dirpath@ + " ("@ + file_name_or_empty(
                            ctx.manifest_filepath@,
                        ) + ")"@,
                        TextStyle::Plain,
                    ),
                ]);
            }
            proof {
                assert(line_view(second) =~= seq![
                    (
                        "Using manifest format "@ + format_name(source.format) + " with checksum algorithm "@
                            + algorithm_name(ctx.checksum_algorithm) + if ctx.checksum_mode
                            == ChecksumMode::Text {
                            " ("@ + mode_name(ChecksumMode::Text) + ")"@
                        } else {
                            Seq::empty()
                        },
                        TextStyle::Dimmed,
                    ),
                ]);
            }
            push_line(&mut lines, first);
            push_line(&mut lines, second);
            proof {
                assert(lines_view(lines) =~= generate_display_lines(message, verbosity));
            }
        },
        DisplayMessage::Result(res) => {
            if verbosity >= 1 {
                let mut t = res.checksum.to_string();
                t.append(" ");
                t.append(res.filename.as_str());
                let mut line: Vec<Segment> = Vec::new();
                push_segment(&mut line, t, TextStyle::Dimmed);
                proof {
                    assert(line_view(line) =~= seq![(render_checksum(res.checksum@) + " "@ + res.filename@, TextStyle::Dimmed)]);
                }
                push_line(&mut lines, line);
            }
            proof {
                assert(lines_view(lines) =~= generate_display_lines(message, verbosity));
            }
        },
        DisplayMessage::Error(e) => {
            push_line(&mut lines, generate_error_segments(e));
            proof {
                assert(lines_view(lines) =~= generate_display_lines(message, verbosity));
            }
        },
        DisplayMessage::Progress { counters, .. } => {
            let mut parts: Vec<Segment> = Vec::new();
            push_segment(&mut parts, concat(decimal_string(counters.success).as_str(), " added"), TextStyle::Green);
            if counters.error > 0 {
                push_segment(&mut parts, concat(decimal_string(counters.error).as_str(), " errors"), TextStyle::Red);
            }
            proof {
                assert(line_view(parts) =~= generate_progress_parts(*counters));
            }
            push_line(&mut lines, join_segments(parts));
            proof {
                assert(lines_view(lines) =~= generate_display_lines(message, verbosity));
            }
        },
        DisplayMessage::InProgress { .. } => {},
        DisplayMessage::Exit => {},
    }
    lines
}

/// Pieces of output joined by two plain spaces.
pub open spec fn join_with_two_spaces(ps: Seq<SegmentView>) -> Seq<SegmentView>
    decreases ps.len(),
{
    if ps.len() <= 1 {
        ps
    } else {
        join_with_two_spaces(ps.drop_last()) + seq![("  "@, TextStyle::Plain), ps.last()]
    }
}

/// The summary of a generate run: the files added (green when any), the
/// errors (red when any), the files skipped when any, and the manifest file.
pub open spec fn generate_summary(success: usize, errors: usize, skipped: usize, manifest_filepath: Seq<char>) -> Seq<SegmentView> {
    let added = ("✓ "@ + decimal(success as nat) + " added"@, if success > 0 {
        TextStyle::Green
    } else {
        TextStyle::Dimmed
    });
    let failed = ("✗ "@ + decimal(errors as nat) + " errors"@, if errors > 0 {
        TextStyle::Red
    } else {
        TextStyle::Dimmed
    });
    let parts = if skipped > 0 {
        seq![added, failed, (decimal(skipped as nat) + " skipped"@, TextStyle::Dimmed)]
    } else {
        seq![added, failed]
    };
    join_with_two_spaces(parts) + seq![("  → "@ + manifest_filepath, TextStyle::Plain)]
}

/// The summary line of a generate run.
pub fn generate_summary_line(success: usize, errors: usize, skipped: usize, manifest_filepath: &str) -> (r: Vec<Segment>)
    ensures
        line_view(r) == generate_summary(success, errors, skipped, manifest_filepath@),
{
    let mut line: Vec<Segment> = Vec::new();
    let mut a = concat("✓ ", decimal_string(success).as_str());
    a.append(" added");
    push_segment(&mut line, a, if success > 0 { TextStyle::Green } else { TextStyle::Dimmed });
    push_segment(&mut line, String::from_str("  "), TextStyle::Plain);
    let mut b = concat("✗ ", decimal_string(errors).as_str());
    b.append(" errors");
    push_segment(&mut line, b, if errors > 0 { TextStyle::Red } else { TextStyle::Dimmed });
    if skipped > 0 {
        push_segment(&mut line, String::from_str("  "), TextStyle::Plain);
        push_segment(&mut line, concat(decimal_string(skipped).as_str(), " skipped"), TextStyle::Dimmed);
    }
    push_segment(&mut line, concat("  → ", manifest_filepath), TextStyle::Plain);
    proof {
        let added = ("✓ "@ + decimal(success as nat) + " added"@, if success > 0 {
            TextStyle::Green
        } else {
            TextStyle::Dimmed
        });
        let failed = ("✗ "@ + decimal(errors as nat) + " errors"@, if errors > 0 {
            TextStyle::Red
        } else {
            TextStyle::Dimmed
        });
        let two = seq![added, failed];
        assert(two.drop_last() =~= seq![added]);
        assert(join_with_two_spaces(seq![added]) == seq![added]);
        assert(join_with_two_spaces(two) =~= seq![added, ("  "@, TextStyle::Plain), failed]);
        if skipped > 0 {
            let third = (decimal(skipped as nat) + " skipped"@, TextStyle::Dimmed);
            let parts = seq![added, failed, third];
            assert(parts.drop_last() =~= two);
            assert(join_with_two_spaces(parts) =~= seq![added, ("  "@, TextStyle::Plain), failed, ("  "@, TextStyle::Plain), third]);
        }
        assert(line_view(line) =~= generate_summary(success, errors, skipped, manifest_filepath@));
    }
    line
}


/// The manifest file a run writes: the output asked for, else the default
/// file of the format inside the directory.
pub open spec fn manifest_output_path(
    output: Option<Seq<char>>,
    format: ManifestFormat,
    dirpath: Seq<char>,
) -> Seq<char> {
    match output {
        Some(o) => o,
        None => join_path(dirpath, format_default_filename(format)),
    }
}

/// The manifest file a run with these options and settings writes, for the
/// directory `dirpath`.
pub fn manifest_filepath(options: &GenerateOptions, settings: &GenerateSettings, dirpath: &str) -> (r: String)
    ensures
        r@ == manifest_output_path(
            match options.output {
                Some(o) => Some(o@),
                None => None,
            },
            settings.format,
            dirpath@,
        ),
{
    match &options.output {
        Some(o) => o.clone(),
        None => settings.format.build_manifest_filepath(dirpath),
    }
}

/// With no output and no format asked for, a run writes `sfv.toml` in the
/// directory, with SHA-256 checksums unless an algorithm is asked for.
pub proof fn lemma_default_manifest(o: GenerateOptions, dirpath: Seq<char>)
    requires
        o.output is None,
        o.format is None,
        generate_settings(o) is Ok,
    ensures
        manifest_output_path(None, generate_settings(o)->Ok_0.format, dirpath) == join_path(
            dirpath,
            "sfv.toml"@,
        ),
        o.algorithm is None ==> generate_settings(o)->Ok_0.algorithm == ChecksumAlgorithm::SHA256,
{
}

/// A run checksums in the mode asked for, and in binary mode when none is.
pub proof fn lemma_settings_keep_mode(o: GenerateOptions)
    ensures
        generate_settings(o) is Ok && o.mode is Some ==> generate_settings(o)->Ok_0.mode == o.mode->0,
        generate_settings(o) is Ok && o.mode is None ==> generate_settings(o)->Ok_0.mode
            == ChecksumMode::Binary,
{
}

/// The settings a run writes with fit its format: `best` only in artsum, the
/// format's own algorithm when it fixes one, and the algorithm asked for when
/// one was.
pub proof fn lemma_settings_fit_format(o: GenerateOptions)
    ensures
        generate_settings(o) matches Ok(s) ==> {
            &&& (s.algorithm == ChecksumAlgorithm::Best ==> s.format == ManifestFormat::ARTSUM)
            &&& (format_algorithm(s.format) matches Some(a) ==> s.algorithm == a)
            &&& (o.algorithm matches Some(a) ==> s.algorithm == a)
            &&& (o.format matches Some(f) ==> s.format == f)
        },
{
}

} // verus!
