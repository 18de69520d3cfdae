//! The verify command: each artifact of a manifest is checked against its
//! recorded checksum.

use vstd::prelude::*;
use vstd::string::*;

use crate::checksum::{
    ChecksumAlgorithm,
    checksum_error_text, render_checksum, resolved_algorithm, zero_chunk_text_fails, Checksum,
    ChecksumError, ChecksumErrorView, ChecksumOptions, ChecksumView, IoFailure, file_digest,
};
use crate::common::{
    add_count, sum_counts, wrapping_sum,
    bump, concat, decimal_string, increment, line_view, lines_view, push_line, push_segment,
    DisplayContext, DisplayCounters, DisplayError, DisplayMessage, DisplayResult, Segment,
    SegmentView, TaskCounters, TaskError, TaskOptions, TaskResult, TextStyle,
};
use crate::digest::hex_lower;
use crate::manifest::{
    entry_renderable, fold_entries, format_name, keys_unique, lemma_fold_value,
    lemma_manifest_round_trip, parse_manifest, render_manifest, EntryView, ManifestFormat,
};
use crate::path::{join, join_path};
use crate::text::decimal;

verus! {

/// What the verify command is asked to do.
#[derive(Debug, Clone)]
pub struct VerifyOptions {
    /// The directory holding the artifacts.
    pub dirpath: String,
    /// The manifest file, when given; else it is looked for in the directory.
    pub manifest: Option<String>,
    /// The size of the chunks files are read in.
    pub chunk_size: usize,
    /// The number of workers.
    pub max_workers: usize,
    /// Log debug output (and show no display).
    pub debug: bool,
    /// Show no output.
    pub no_display: bool,
    /// Show no progress bars.
    pub no_progress: bool,
    /// How much detail to show.
    pub verbosity: u8,
}

/// How an artifact compares with its recorded checksum.
#[derive(Debug, Clone, Copy, PartialEq, Eq, Structural)]
pub enum VerifyTaskStatus {
    /// The file's checksum is the recorded one.
    Valid,
    /// The file's checksum differs from the recorded one.
    Invalid,
    /// The file is not there.
    Missing,
}

/// The symbol a status is shown with.
pub open spec fn verify_symbol(s: VerifyTaskStatus) -> Seq<char> {
    match s {
        VerifyTaskStatus::Valid => "✓"@,
        VerifyTaskStatus::Invalid => "✗"@,
        VerifyTaskStatus::Missing => "?"@,
    }
}

impl VerifyTaskStatus {
    /// The symbol the status is shown with.
    pub fn symbol(&self) -> (r: &'static str)
        ensures
            r@ == verify_symbol(*self),
    {
        match self {
            VerifyTaskStatus::Valid => "✓",
            VerifyTaskStatus::Invalid => "✗",
            VerifyTaskStatus::Missing => "?",
        }
    }
}

/// The outcome of checking one artifact.
#[derive(Debug, Clone)]
pub struct VerifyTaskResult {
    /// How the artifact compares.
    pub status: VerifyTaskStatus,
    /// The artifact's path in the manifest.
    pub filename: String,
    /// The checksum the file has now, when it is there.
    pub actual: Option<Checksum>,
    /// The checksum the manifest records.
    pub expected: Checksum,
}

/// The failure to check one artifact.
#[derive(Debug, Clone)]
pub struct VerifyTaskError {
    /// The artifact's path in the manifest.
    pub filepath: String,
    /// What went wrong.
    pub message: String,
    /// The checksum error behind it, if any.
    pub error: Option<ChecksumError>,
}

/// The counts of a verify run.
#[derive(Debug, Clone, Copy, PartialEq, Eq, Structural)]
pub struct VerifyTaskCounters {
    /// The number of artifacts to check.
    pub total: usize,
    /// The number found valid.
    pub valid: usize,
    /// The number found invalid.
    pub invalid: usize,
    /// The number found missing.
    pub missing: usize,
}

impl TaskResult for VerifyTaskResult {}

impl DisplayResult for VerifyTaskResult {}

impl TaskError for VerifyTaskError {}

impl DisplayError for VerifyTaskError {}

impl TaskCounters for VerifyTaskCounters {}

/// The number of artifacts checked: those found valid or invalid, and those counted missing.
pub open spec fn verify_current(c: VerifyTaskCounters) -> int {
    c.valid + c.invalid + c.missing
}

impl DisplayCounters for VerifyTaskCounters {
    fn current(&self) -> (r: usize)
        ensures
            r == wrapping_sum(wrapping_sum(self.valid, self.invalid), self.missing),
            verify_current(*self) <= usize::MAX ==> r == verify_current(*self),
    {
        sum_counts(sum_counts(self.valid, self.invalid), self.missing)
    }

    fn total(&self) -> (r: Option<usize>)
        ensures
            r == Some(self.total),
    {
        Some(self.total)
    }
}

impl VerifyTaskCounters {
    /// Adds the counts of `other` (its total aside).
    pub fn absorb(&mut self, other: &VerifyTaskCounters)
        ensures
            final(self).total == old(self).total,
            final(self).valid == wrapping_sum(old(self).valid, other.valid),
            final(self).invalid == wrapping_sum(old(self).invalid, other.invalid),
            final(self).missing == wrapping_sum(old(self).missing, other.missing),
    {
        add_count(&mut self.valid, other.valid);
        add_count(&mut self.invalid, other.invalid);
        add_count(&mut self.missing, other.missing);
    }

    /// Counters for a run over `total` artifacts.
    pub fn new(total: usize) -> (r: VerifyTaskCounters)
        ensures
            r == (VerifyTaskCounters { total, valid: 0, invalid: 0, missing: 0 }),
    {
        VerifyTaskCounters { total, valid: 0, invalid: 0, missing: 0 }
    }
}

/// The context of a verify run's start.
pub struct VerifyDisplayContext {}

impl DisplayContext for VerifyDisplayContext {}

/// The options of one artifact's check.
pub struct VerifyTaskOptions {
    /// The directory holding the artifacts.
    pub dirpath: String,
    /// The artifact's path in the manifest, relative to the directory.
    pub filename: String,
    /// The checksum the manifest records.
    pub expected: Checksum,
    /// The size of the chunks the file is read in.
    pub chunk_size: usize,
}

impl TaskOptions for VerifyTaskOptions {}

impl VerifyTaskOptions {
    /// The path of the artifact's file.
    pub fn filepath(&self) -> (r: String)
        ensures
            r@ == join_path(self.dirpath@, self.filename@),
    {
        join(self.dirpath.as_str(), self.filename.as_str())
    }

    /// How the artifact's checksum is computed: with the recorded algorithm and mode.
    pub fn checksum_options(&self) -> (r: ChecksumOptions)
        ensures
            r.filepath@ == join_path(self.dirpath@, self.filename@),
            r.algorithm == self.expected.algorithm,
            r.mode == self.expected.mode,
            r.chunk_size == Some(self.chunk_size),
    {
        ChecksumOptions {
            filepath: self.filepath(),
            algorithm: self.expected.algorithm,
            mode: self.expected.mode,
            chunk_size: Some(self.chunk_size),
            progress_callback: None,
        }
    }
}

/// The message of a failed check.
pub open spec fn verify_failure_message() -> Seq<char> {
    "Failed to calculate checksum"@
}

/// Whether an error reports the failure to check `filename` for the reason `err`.
pub open spec fn verify_error_is(e: VerifyTaskError, filename: Seq<char>, err: ChecksumErrorView) -> bool {
    &&& e.filepath@ == filename
    &&& e.message@ == verify_failure_message()
    &&& (e.error matches Some(ce) && ce@ == err)
}

/// Checks one artifact. `file` is `None` when the path is not a file, and
/// otherwise what reading it gave. A missing file is reported and counted as
/// missing; otherwise the file's checksum is computed with the recorded
/// algorithm and mode and compared with the recorded one, counting the file
/// valid or invalid; a failure to compute it is an error.
pub fn verify_task(
    options: &VerifyTaskOptions,
    file: &Option<Result<Vec<u8>, IoFailure>>,
    counters: &mut VerifyTaskCounters,
) -> (r: Result<VerifyTaskResult, VerifyTaskError>)
    requires
        file matches Some(Ok(b)) ==> !zero_chunk_text_fails(
            options.expected.mode,
            Some(options.chunk_size),
            b@,
        ),
    ensures
        match file {
            None => r matches Ok(res) && res.status == VerifyTaskStatus::Missing && res.filename@
                == options.filename@ && res.actual is None && res.expected@ == options.expected@
                && *final(counters) == (VerifyTaskCounters { missing: bump(old(counters).missing), ..*old(counters) }),
            Some(Err(f)) => r matches Err(e) && verify_error_is(
                e,
                options.filename@,
                ChecksumErrorView::Io(f.kind, f.message@),
            ) && *final(counters) == *old(counters),
            Some(Ok(b)) => match file_digest(
                options.expected.algorithm,
                options.expected.mode,
                Some(options.chunk_size),
                Ok(b@),
            ) {
                Err(f) => r matches Err(e) && verify_error_is(
                    e,
                    options.filename@,
                    ChecksumErrorView::Io(f.0, f.1),
                ) && *final(counters) == *old(counters),
                Ok(d) => {
                    let actual = ChecksumView {
                        mode: options.expected.mode,
                        algorithm: resolved_algorithm(options.expected.algorithm, b@.len()),
                        digest: hex_lower(d),
                    };
                    r matches Ok(res) && res.filename@ == options.filename@ && res.expected@
                        == options.expected@ && (res.actual matches Some(a) && a@ == actual) && (
                    if actual == options.expected@ {
                        res.status == VerifyTaskStatus::Valid && *final(counters) == (
                        VerifyTaskCounters { valid: bump(old(counters).valid), ..*old(counters) })
                    } else {
                        res.status == VerifyTaskStatus::Invalid && *final(counters) == (
                        VerifyTaskCounters { invalid: bump(old(counters).invalid), ..*old(counters) })
                    })
                },
            },
        },
{
    let content = match file {
        None => {
            increment(&mut counters.missing);
            return Ok(
                VerifyTaskResult {
                    status: VerifyTaskStatus::Missing,
                    filename: options.filename.clone(),
                    actual: None,
                    expected: options.expected.duplicate(),
                },
            );
        },
        Some(c) => c,
    };
    let checksum_options = options.checksum_options();
    match Checksum::from_file(&checksum_options, content) {
        Ok(actual) => {
            let status = if actual.same_as(&options.expected) {
                increment(&mut counters.valid);
                VerifyTaskStatus::Valid
            } else {
                increment(&mut counters.invalid);
                VerifyTaskStatus::Invalid
            };
            Ok(
                VerifyTaskResult {
                    status,
                    filename: options.filename.clone(),
                    actual: Some(actual),
                    expected: options.expected.duplicate(),
                },
            )
        },
        Err(error) => Err(
            VerifyTaskError {
                filepath: options.filename.clone(),
                message: String::from_str("Failed to calculate checksum"),
                error: Some(error),
            },
        ),
    }
}

/// Whether a result is shown at a verbosity: invalid files always, missing
/// files from verbosity 1, valid files from verbosity 2.
pub open spec fn verify_result_shown(s: VerifyTaskStatus, verbosity: u8) -> bool {
    match s {
        VerifyTaskStatus::Invalid => true,
        VerifyTaskStatus::Missing => verbosity >= 1,
        VerifyTaskStatus::Valid => verbosity >= 2,
    }
}

/// The line that shows a result.
pub open spec fn verify_result_line(r: VerifyTaskResult) -> Seq<SegmentView> {
    let head = verify_symbol(r.status) + " "@ + r.filename@;
    match r.status {
        VerifyTaskStatus::Valid => seq![
            (head, TextStyle::Green),
            (" "@, TextStyle::Plain),
            ("("@ + render_checksum(r.expected@) + ")"@, TextStyle::Dimmed),
        ],
        VerifyTaskStatus::Invalid => seq![
            (head, TextStyle::BoldRed),
            (" "@, TextStyle::Plain),
            ("("@, TextStyle::Dimmed),
            (render_checksum(r.actual->0@), TextStyle::Red),
            (" != "@ + render_checksum(r.expected@) + ")"@, TextStyle::Dimmed),
        ],
        VerifyTaskStatus::Missing => seq![(head, TextStyle::Yellow)],
    }
}

/// The line that shows an error.
pub open spec fn verify_error_line(e: VerifyTaskError) -> Seq<SegmentView> {
    let base = seq![(e.filepath@, TextStyle::Dimmed), (": "@, TextStyle::Plain), (e.message@, TextStyle::Red)];
    match e.error {
        Some(ce) => base.push((" ("@ + checksum_error_text(ce@) + ")"@, TextStyle::Red)),
        None => base,
    }
}

/// The line that shows the progress of a verify run.
pub open spec fn verify_progress_line(c: VerifyTaskCounters, current: usize, total: Option<usize>) -> Seq<SegmentView> {
    let a = seq![(decimal(c.valid as nat) + " valid"@, TextStyle::Green)];
    let b = if c.invalid > 0 {
        a + seq![(" "@, TextStyle::Plain), (decimal(c.invalid as nat) + " invalid"@, TextStyle::BoldRed)]
    } else {
        a
    };
    let d = if c.missing > 0 {
        b + seq![(" "@, TextStyle::Plain), (decimal(c.missing as nat) + " missing"@, TextStyle::Yellow)]
    } else {
        b
    };
    match total {
        Some(t) => d + seq![
            (" "@, TextStyle::Plain),
            ("["@ + decimal(current as nat) + "/"@ + decimal(t as nat) + "]"@, TextStyle::Dimmed),
        ],
        None => d,
    }
}

/// The lines a display message of a verify run shows.
pub open spec fn verify_display_lines(
    message: DisplayMessage<VerifyTaskResult, VerifyTaskError, VerifyTaskCounters, VerifyDisplayContext>,
    verbosity: u8,
) -> Seq<Seq<SegmentView>> {
    match message {
        DisplayMessage::Start(source, _) => seq![
            seq![("Verifying "@ + source.filepath@ + " ("@ + format_name(source.format) + ")"@, TextStyle::Plain)],
        ],
        DisplayMessage::Result(r) => if verify_result_shown(r.status, verbosity) {
            seq![verify_result_line(r)]
        } else {
            seq![]
        },
        DisplayMessage::Error(e) => seq![verify_error_line(e)],
        DisplayMessage::Progress { counters, current, total } => seq![
            verify_progress_line(counters, current, total),
        ],
        DisplayMessage::InProgress { .. } => seq![],
        DisplayMessage::Exit => seq![],
    }
}

/// The lines showing one result.
fn verify_result_segments(r: &VerifyTaskResult) -> (line: Vec<Segment>)
    requires
        r.status == VerifyTaskStatus::Invalid ==> r.actual is Some,
    ensures
        line_view(line) == verify_result_line(*r),
{
    let mut head = concat(r.status.symbol(), " ");
    head.append(r.filename.as_str());
    let mut line: Vec<Segment> = Vec::new();
    proof {
        assert(line_view(line) =~= Seq::<SegmentView>::empty());
    }
    match r.status {
        VerifyTaskStatus::Valid => {
            push_segment(&mut line, head, TextStyle::Green);
            push_segment(&mut line, String::from_str(" "), TextStyle::Plain);
            let mut t = String::from_str("(");
            t.append(r.expected.to_string().as_str());
            t.append(")");
            push_segment(&mut line, t, TextStyle::Dimmed);
        },
        VerifyTaskStatus::Invalid => {
            push_segment(&mut line, head, TextStyle::BoldRed);
            push_segment(&mut line, String::from_str(" "), TextStyle::Plain);
            push_segment(&mut line, String::from_str("("), TextStyle::Dimmed);
            match &r.actual {
                Some(a) => push_segment(&mut line, a.to_string(), TextStyle::Red),
                None => {},
            }
            let mut t = String::from_str(" != ");
            t.append(r.expected.to_string().as_str());
            t.append(")");
            push_segment(&mut line, t, TextStyle::Dimmed);
        },
        VerifyTaskStatus::Missing => {
            push_segment(&mut line, head, TextStyle::Yellow);
        },
    }
    proof {
        assert(line_view(line) =~= verify_result_line(*r));
    }
    line
}

/// The line showing one error.
fn verify_error_segments(e: &VerifyTaskError) -> (line: Vec<Segment>)
    ensures
        line_view(line) == verify_error_line(*e),
{
    let mut line: Vec<Segment> = Vec::new();
    push_segment(&mut line, e.filepath.clone(), TextStyle::Dimmed);
    push_segment(&mut line, String::from_str(": "), TextStyle::Plain);
    push_segment(&mut line, e.message.clone(), TextStyle::Red);
    match &e.error {
        Some(ce) => {
            let mut t = String::from_str(" (");
            t.append(ce.to_string().as_str());
            t.append(")");
            push_segment(&mut line, t, TextStyle::Red);
        },
        None => {},
    }
    proof {
        assert(line_view(line) =~= verify_error_line(*e));
    }
    line
}

/// The line showing the progress.
fn verify_progress_segments(c: &VerifyTaskCounters, current: usize, total: Option<usize>) -> (line: Vec<Segment>)
    ensures
        line_view(line) == verify_progress_line(*c, current, total),
{
    let mut line: Vec<Segment> = Vec::new();
    push_segment(&mut line, concat(decimal_string(c.valid).as_str(), " valid"), TextStyle::Green);
    if c.invalid > 0 {
        push_segment(&mut line, String::from_str(" "), TextStyle::Plain);
        push_segment(&mut line, concat(decimal_string(c.invalid).as_str(), " invalid"), TextStyle::BoldRed);
    }
    if c.missing > 0 {
        push_segment(&mut line, String::from_str(" "), TextStyle::Plain);
        push_segment(&mut line, concat(decimal_string(c.missing).as_str(), " missing"), TextStyle::Yellow);
    }
    match total {
        Some(t) => {
            push_segment(&mut line, String::from_str(" "), TextStyle::Plain);
            let mut s = String::from_str("[");
            s.append(decimal_string(current).as_str());
            s.append("/");
            s.append(decimal_string(t).as_str());
            s.append("]");
            push_segment(&mut line, s, TextStyle::Dimmed);
        },
        None => {},
    }
    proof {
        assert(line_view(line) =~= verify_progress_line(*c, current, total));
    }
    line
}

/// The lines a display message of a verify run shows at a verbosity.
pub fn display_message_processor(
    message: DisplayMessage<VerifyTaskResult, VerifyTaskError, VerifyTaskCounters, VerifyDisplayContext>,
    verbosity: u8,
) -> (r: Vec<Vec<Segment>>)
    requires
        message matches DisplayMessage::Result(res) ==> (res.status == VerifyTaskStatus::Invalid
            ==> res.actual is Some),
    ensures
        lines_view(r) == verify_display_lines(message, verbosity),
{
    let mut lines: Vec<Vec<Segment>> = Vec::new();
    proof {
        assert(lines_view(lines) =~= Seq::<Seq<SegmentView>>::empty());
    }
    match &message {
        DisplayMessage::Start(source, _) => {
            let mut t = concat("Verifying ", source.filepath.as_str());
            t.append(" (");
            t.append(source.format.name());
            t.append(")");
            let mut line: Vec<Segment> = Vec::new();
            proof {
                assert(line_view(line) =~= Seq::<SegmentView>::empty());
            }
            push_segment(&mut line, t, TextStyle::Plain);
            push_line(&mut lines, line);
            proof {
                assert(lines_view(lines) =~= verify_display_lines(message, verbosity));
            }
        },
        DisplayMessage::Result(res) => {
            let shown = match res.status {
                VerifyTaskStatus::Invalid => true,
                VerifyTaskStatus::Missing => verbosity >= 1,
                VerifyTaskStatus::Valid => verbosity >= 2,
            };
            if shown {
                push_line(&mut lines, verify_result_segments(res));
            }
            proof {
                assert(lines_view(lines) =~= verify_display_lines(message, verbosity));
            }
        },
        DisplayMessage::Error(e) => {
            push_line(&mut lines, verify_error_segments(e));
            proof {
                assert(lines_view(lines) =~= verify_display_lines(message, verbosity));
            }
        },
        DisplayMessage::Progress { counters, current, total } => {
            push_line(&mut lines, verify_progress_segments(counters, *current, *total));
            proof {
                assert(lines_view(lines) =~= verify_display_lines(message, verbosity));
            }
        },
        DisplayMessage::InProgress { .. } => {},
        DisplayMessage::Exit => {},
    }
    proof {
        assert(lines_view(lines) =~= verify_display_lines(message, verbosity));
    }
    lines
}

/// An artifact whose file has not changed since its checksum was computed
/// verifies as valid: the checksum that verification computes, with the
/// recorded algorithm and mode, is the recorded checksum. (Chunk sizes may
/// differ, but not between zero and non-zero.)
pub proof fn lemma_unchanged_file_is_valid(
    algorithm: ChecksumAlgorithm,
    mode: crate::checksum::ChecksumMode,
    chunk_size: usize,
    verify_chunk_size: usize,
    b: Seq<u8>,
)
    requires
        file_digest(algorithm, mode, Some(chunk_size), Ok(b)) is Ok,
        (chunk_size == 0) == (verify_chunk_size == 0),
    ensures
        ({
            let expected = ChecksumView {
                mode,
                algorithm: resolved_algorithm(algorithm, b.len()),
                digest: hex_lower(file_digest(algorithm, mode, Some(chunk_size), Ok(b))->Ok_0),
            };
            file_digest(expected.algorithm, expected.mode, Some(verify_chunk_size), Ok(b)) matches Ok(
                d,
            ) && (ChecksumView {
                mode: expected.mode,
                algorithm: resolved_algorithm(expected.algorithm, b.len()),
                digest: hex_lower(d),
            }) == expected
        }),
{
    crate::checksum::lemma_recompute_unchanged(algorithm, mode, chunk_size, verify_chunk_size, b);
}


/// The checksum that verification computes for contents `b` against the
/// recorded checksum `c`: with the recorded algorithm and mode.
pub open spec fn recomputed(c: ChecksumView, chunk_size: usize, b: Seq<u8>) -> Option<ChecksumView> {
    match file_digest(c.algorithm, c.mode, Some(chunk_size), Ok(b)) {
        Ok(d) => Some(
            ChecksumView { mode: c.mode, algorithm: resolved_algorithm(c.algorithm, b.len()), digest: hex_lower(d) },
        ),
        Err(_) => None,
    }
}

/// A manifest written for files and read back verifies every file whose
/// contents have not changed as valid: reading the text gives each file's
/// recorded checksum, and computing the checksum again gives that checksum.
/// (Each artifact's line must read back, see `entry_renderable`; chunk sizes
/// may differ, but not between zero and non-zero.)
pub proof fn lemma_generated_manifest_verifies(
    f: ManifestFormat,
    es: Seq<EntryView>,
    contents: Seq<Seq<u8>>,
    algorithm: ChecksumAlgorithm,
    mode: crate::checksum::ChecksumMode,
    chunk_size: usize,
    verify_chunk_size: usize,
)
    requires
        es.len() == contents.len(),
        keys_unique(es),
        forall|i: int| 0 <= i < es.len() ==> entry_renderable(f, #[trigger] es[i]),
        forall|i: int|
            0 <= i < es.len() ==> file_digest(algorithm, mode, Some(chunk_size), Ok(#[trigger] contents[i])) is Ok,
        forall|i: int|
            0 <= i < es.len() ==> (#[trigger] es[i]).1 == (ChecksumView {
                mode,
                algorithm: resolved_algorithm(algorithm, contents[i].len()),
                digest: hex_lower(file_digest(algorithm, mode, Some(chunk_size), Ok(contents[i]))->Ok_0),
            }),
        (chunk_size == 0) == (verify_chunk_size == 0),
    ensures
        parse_manifest(f, render_manifest(f, es)) matches Ok(m) && forall|i: int|
            0 <= i < es.len() ==> m.dom().contains(#[trigger] es[i].0) && recomputed(
                m[es[i].0],
                verify_chunk_size,
                contents[i],
            ) == Some(m[es[i].0]),
{
    lemma_manifest_round_trip(f, es);
    let m = fold_entries(es);
    assert forall|i: int| 0 <= i < es.len() implies m.dom().contains(#[trigger] es[i].0) && recomputed(
        m[es[i].0],
        verify_chunk_size,
        contents[i],
    ) == Some(m[es[i].0]) by {
        lemma_fold_value(es, i);
        assert(file_digest(algorithm, mode, Some(chunk_size), Ok(contents[i])) is Ok);
        lemma_unchanged_file_is_valid(algorithm, mode, chunk_size, verify_chunk_size, contents[i]);
    }
}

} // verus!
