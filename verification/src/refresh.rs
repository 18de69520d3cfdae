//! The refresh command: the checksums of a manifest's artifacts are computed
//! anew and the manifest rewritten.

use vstd::prelude::*;
use vstd::string::*;

use crate::checksum::{
    checksum_error_text, file_digest, render_checksum, resolved_algorithm, zero_chunk_text_fails,
    Checksum, ChecksumAlgorithm, ChecksumError, ChecksumErrorView, ChecksumMode, ChecksumOptions,
    ChecksumView, IoFailure,
};
use crate::common::{
    add_count, sum_counts, wrapping_sum,
    bump, concat, decimal_string, increment, join_segments, join_with_spaces, line_view,
    lines_view, push_line, push_segment, DisplayContext, DisplayCounters, DisplayError,
    DisplayMessage, DisplayResult, Segment, SegmentView, TaskCounters, TaskError, TaskOptions,
    TaskResult, TextStyle,
};
use crate::digest::hex_lower;
use crate::manifest::{format_name, keys_unique, ArtifactMap, EntryView, fold_entries, Manifest, ManifestFormat};
use crate::path::{join, join_path};
use crate::text::decimal;

verus! {

/// What the refresh command is asked to do.
#[derive(Debug, Clone)]
pub struct RefreshOptions {
    /// The directory holding the artifacts.
    pub dirpath: String,
    /// The manifest file, when given; else it is looked for in the directory.
    pub manifest: Option<String>,
    /// The size of the chunks files are read in.
    pub chunk_size: usize,
    /// The number of workers.
    pub max_workers: usize,
    /// Log debug output (and show no display).
    pub debug: bool,
    /// Show no output.
    pub no_display: bool,
    /// Show no progress bars.
    pub no_progress: bool,
    /// How much detail to show.
    pub verbosity: u8,
}

/// The errors of the refresh command that its own checks raise.
#[derive(Debug, Clone, Copy, PartialEq, Eq, Structural)]
pub enum RefreshError {
    /// A manifest of another format than artsum holds a checksum with algorithm `best`.
    BestAlgorithmRequiresArtsumFormat(ManifestFormat),
}

/// What became of an artifact's checksum.
#[derive(Debug, Clone)]
pub enum RefreshTaskStatus {
    /// The checksum changed.
    Updated { old: Checksum, new: Checksum },
    /// The checksum is the same.
    Unchanged { checksum: Checksum },
    /// The file is gone.
    Removed,
}

/// The symbol a status is shown with.
pub open spec fn refresh_symbol(s: RefreshTaskStatus) -> Seq<char> {
    match s {
        RefreshTaskStatus::Updated { .. } => "✓"@,
        RefreshTaskStatus::Unchanged { .. } => "="@,
        RefreshTaskStatus::Removed => "✗"@,
    }
}

impl RefreshTaskStatus {
    /// The symbol the status is shown with.
    pub fn symbol(&self) -> (r: &'static str)
        ensures
            r@ == refresh_symbol(*self),
    {
        match self {
            RefreshTaskStatus::Updated { .. } => "✓",
            RefreshTaskStatus::Unchanged { .. } => "=",
            RefreshTaskStatus::Removed => "✗",
        }
    }
}

/// The outcome of refreshing one artifact.
#[derive(Debug, Clone)]
pub struct RefreshTaskResult {
    /// The artifact's path in the manifest.
    pub filename: String,
    /// What became of its checksum.
    pub status: RefreshTaskStatus,
}

/// The failure to refresh one artifact.
#[derive(Debug, Clone)]
pub struct RefreshTaskError {
    /// The artifact's path in the manifest.
    pub filename: String,
    /// Why it failed.
    pub error: ChecksumError,
}

/// The counts of a refresh run.
#[derive(Debug, Clone, Copy, PartialEq, Eq, Structural)]
pub struct RefreshTaskCounters {
    /// The number of artifacts to refresh.
    pub total: usize,
    /// The number whose checksum changed.
    pub updated: usize,
    /// The number whose checksum is the same.
    pub unchanged: usize,
    /// The number whose file is gone.
    pub removed: usize,
    /// The number that failed.
    pub error: usize,
}

impl TaskResult for RefreshTaskResult {}

impl DisplayResult for RefreshTaskResult {}

impl TaskError for RefreshTaskError {}

impl DisplayError for RefreshTaskError {}

impl TaskCounters for RefreshTaskCounters {}

/// The number of artifacts done.
pub open spec fn refresh_current(c: RefreshTaskCounters) -> int {
    c.updated + c.unchanged + c.removed + c.error
}

impl DisplayCounters for RefreshTaskCounters {
    fn current(&self) -> (r: usize)
        ensures
            r == wrapping_sum(
                wrapping_sum(wrapping_sum(self.updated, self.unchanged), self.removed),
                self.error,
            ),
            refresh_current(*self) <= usize::MAX ==> r == refresh_current(*self),
    {
        sum_counts(sum_counts(sum_counts(self.updated, self.unchanged), self.removed), self.error)
    }

    fn total(&self) -> (r: Option<usize>)
        ensures
            r == Some(self.total),
    {
        Some(self.total)
    }
}

impl RefreshTaskCounters {
    /// Adds the counts of `other` (its total aside).
    pub fn absorb(&mut self, other: &RefreshTaskCounters)
        ensures
            final(self).total == old(self).total,
            final(self).updated == wrapping_sum(old(self).updated, other.updated),
            final(self).unchanged == wrapping_sum(old(self).unchanged, other.unchanged),
            final(self).removed == wrapping_sum(old(self).removed, other.removed),
            final(self).error == wrapping_sum(old(self).error, other.error),
    {
        add_count(&mut self.updated, other.updated);
        add_count(&mut self.unchanged, other.unchanged);
        add_count(&mut self.removed, other.removed);
        add_count(&mut self.error, other.error);
    }

    /// Counters for a run over `total` artifacts.
    pub fn new(total: usize) -> (r: RefreshTaskCounters)
        ensures
            r == (RefreshTaskCounters { total, updated: 0, unchanged: 0, removed: 0, error: 0 }),
    {
        RefreshTaskCounters { total, updated: 0, unchanged: 0, removed: 0, error: 0 }
    }
}

/// The context of a refresh run's start.
pub struct RefreshDisplayContext {}

impl DisplayContext for RefreshDisplayContext {}

/// The options of one artifact's refresh.
pub struct RefreshTaskOptions {
    /// The directory holding the artifacts.
    pub dirpath: String,
    /// The artifact's path in the manifest, relative to the directory.
    pub filepath: String,
    /// Its recorded checksum.
    pub checksum: Checksum,
    /// The algorithm to use, when another than the recorded one.
    pub checksum_algorithm: Option<ChecksumAlgorithm>,
    /// The mode to use, when another than the recorded one.
    pub checksum_mode: Option<ChecksumMode>,
    /// The size of the chunks the file is read in.
    pub chunk_size: usize,
}

impl TaskOptions for RefreshTaskOptions {}

impl RefreshTaskOptions {
    /// The path of the artifact's file: its manifest path inside the directory.
    pub fn artifact_path(&self) -> (r: String)
        ensures
            r@ == join_path(self.dirpath@, self.filepath@),
    {
        join(self.dirpath.as_str(), self.filepath.as_str())
    }
}

/// The algorithm a refresh computes with.
pub open spec fn refresh_algorithm(o: RefreshTaskOptions) -> ChecksumAlgorithm {
    match o.checksum_algorithm {
        Some(a) => a,
        None => o.checksum.algorithm,
    }
}

/// The mode a refresh computes with.
pub open spec fn refresh_mode(o: RefreshTaskOptions) -> ChecksumMode {
    match o.checksum_mode {
        Some(m) => m,
        None => o.checksum.mode,
    }
}

/// The checksum a refreshed artifact keeps: the new one of an updated
/// artifact, the one of an unchanged artifact, none of a removed one.
pub open spec fn refreshed_checksum(s: RefreshTaskStatus) -> Option<ChecksumView> {
    match s {
        RefreshTaskStatus::Updated { new, .. } => Some(new@),
        RefreshTaskStatus::Unchanged { checksum } => Some(checksum@),
        RefreshTaskStatus::Removed => None,
    }
}

/// Refreshes one artifact. `file` is `None` when the path is not a file, and
/// otherwise what reading it gave. A missing file is counted removed; otherwise
/// the file's checksum is computed and counted unchanged when it is the recorded
/// one, updated when not; a failure to compute it is counted as an error.
pub fn refresh_task(
    options: &RefreshTaskOptions,
    file: &Option<Result<Vec<u8>, IoFailure>>,
    counters: &mut RefreshTaskCounters,
) -> (r: Result<RefreshTaskResult, RefreshTaskError>)
    requires
        file matches Some(Ok(b)) ==> !zero_chunk_text_fails(
            refresh_mode(*options),
            Some(options.chunk_size),
            b@,
        ),
    ensures
        match file {
            None => r matches Ok(res) && res.filename@ == options.filepath@ && res.status
                is Removed && *final(counters) == (RefreshTaskCounters {
                removed: bump(old(counters).removed),
                ..*old(counters)
            }),
            Some(Err(f)) => r matches Err(e) && e.filename@ == options.filepath@ && e.error@
                == ChecksumErrorView::Io(f.kind, f.message@) && *final(counters) == (
            RefreshTaskCounters { error: bump(old(counters).error), ..*old(counters) }),
            Some(Ok(b)) => match file_digest(
                refresh_algorithm(*options),
                refresh_mode(*options),
                Some(options.chunk_size),
                Ok(b@),
            ) {
                Err(f) => r matches Err(e) && e.filename@ == options.filepath@ && e.error@
                    == ChecksumErrorView::Io(f.0, f.1) && *final(counters) == (RefreshTaskCounters {
                    error: bump(old(counters).error),
                    ..*old(counters)
                }),
                Ok(d) => {
                    let fresh = ChecksumView {
                        mode: refresh_mode(*options),
                        algorithm: resolved_algorithm(refresh_algorithm(*options), b@.len()),
                        digest: hex_lower(d),
                    };
                    r matches Ok(res) && res.filename@ == options.filepath@ && if fresh
                        == options.checksum@ {
                        (res.status matches RefreshTaskStatus::Unchanged { checksum } && checksum@
                            == options.checksum@) && *final(counters) == (RefreshTaskCounters {
                            unchanged: bump(old(counters).unchanged),
                            ..*old(counters)
                        })
                    } else {
                        (res.status matches RefreshTaskStatus::Updated { old, new } && old@
                            == options.checksum@ && new@ == fresh) && *final(counters) == (
                        RefreshTaskCounters { updated: bump(old(counters).updated), ..*old(counters) })
                    }
                },
            },
        },
        options.checksum_algorithm is Some && file is Some && file->0 is Ok && r is Ok
            && refreshed_checksum(r->Ok_0.status) is Some ==> refreshed_checksum(r->Ok_0.status)->0.algorithm
            == resolved_algorithm(options.checksum_algorithm->0, file->0->Ok_0@.len()),
        options.checksum_mode is Some && file is Some && file->0 is Ok && r is Ok && refreshed_checksum(
            r->Ok_0.status,
        ) is Some ==> refreshed_checksum(r->Ok_0.status)->0.mode == options.checksum_mode->0,
{
    let algorithm = match options.checksum_algorithm {
        Some(a) => a,
        None => options.checksum.algorithm,
    };
    let mode = match options.checksum_mode {
        Some(m) => m,
        None => options.checksum.mode,
    };
    let content = match file {
        None => {
            increment(&mut counters.removed);
            return Ok(
                RefreshTaskResult {
                    filename: options.filepath.clone(),
                    status: RefreshTaskStatus::Removed,
                },
            );
        },
        Some(c) => c,
    };
    let checksum_options: ChecksumOptions = ChecksumOptions {
        filepath: options.artifact_path(),
        algorithm,
        mode,
        chunk_size: Some(options.chunk_size),
        progress_callback: None,
    };
    match Checksum::from_file(&checksum_options, content) {
        Ok(fresh) => {
            let status = if fresh.same_as(&options.checksum) {
                increment(&mut counters.unchanged);
                RefreshTaskStatus::Unchanged { checksum: options.checksum.duplicate() }
            } else {
                increment(&mut counters.updated);
                RefreshTaskStatus::Updated { old: options.checksum.duplicate(), new: fresh }
            };
            Ok(RefreshTaskResult { filename: options.filepath.clone(), status })
        },
        Err(error) => {
            increment(&mut counters.error);
            Err(RefreshTaskError { filename: options.filepath.clone(), error })
        },
    }
}

/// A refresh computes with the algorithm and mode it is asked for, and with
/// the recorded ones when none is asked for.
pub proof fn lemma_refresh_uses_requested(o: RefreshTaskOptions)
    ensures
        o.checksum_algorithm matches Some(a) ==> refresh_algorithm(o) == a,
        o.checksum_algorithm is None ==> refresh_algorithm(o) == o.checksum.algorithm,
        o.checksum_mode matches Some(m) ==> refresh_mode(o) == m,
        o.checksum_mode is None ==> refresh_mode(o) == o.checksum.mode,
{
}

/// What a refreshed manifest keeps of one result: the new checksum of an
/// updated artifact, the checksum of an unchanged one, nothing of a removed one.
pub open spec fn apply_status(
    m: Map<Seq<char>, ChecksumView>,
    filename: Seq<char>,
    status: RefreshTaskStatus,
) -> Map<Seq<char>, ChecksumView> {
    match status {
        RefreshTaskStatus::Updated { new, .. } => m.insert(filename, new@),
        RefreshTaskStatus::Unchanged { checksum } => m.insert(filename, checksum@),
        RefreshTaskStatus::Removed => m,
    }
}

/// Records a result in the artifacts of the refreshed manifest.
pub fn apply_refresh_result(artifacts: &mut ArtifactMap, result: &RefreshTaskResult)
    ensures
        final(artifacts)@ == apply_status(old(artifacts)@, result.filename@, result.status),
{
    match &result.status {
        RefreshTaskStatus::Removed => {},
        RefreshTaskStatus::Updated { new, .. } => {
            artifacts.insert(result.filename.clone(), new.duplicate());
        },
        RefreshTaskStatus::Unchanged { checksum } => {
            artifacts.insert(result.filename.clone(), checksum.duplicate());
        },
    }
}

/// The artifacts that applying results in order gives, starting from none.
pub open spec fn apply_all(results: Seq<(Seq<char>, RefreshTaskStatus)>) -> Map<Seq<char>, ChecksumView>
    decreases results.len(),
{
    if results.len() == 0 {
        Map::empty()
    } else {
        apply_status(apply_all(results.drop_last()), results.last().0, results.last().1)
    }
}

/// Refreshing a manifest whose files are all unchanged gives back its artifacts:
/// when each result, in the manifest's order, is its artifact unchanged.
pub proof fn lemma_refresh_unchanged_is_identity(
    es: Seq<EntryView>,
    results: Seq<(Seq<char>, RefreshTaskStatus)>,
)
    requires
        results.len() == es.len(),
        forall|i: int|
            0 <= i < es.len() ==> (#[trigger] results[i]).0 == es[i].0 && (results[i].1 matches RefreshTaskStatus::Unchanged { checksum } && checksum@ == es[i].1),
    ensures
        apply_all(results) == fold_entries(es),
    decreases es.len(),
{
    if es.len() > 0 {
        lemma_refresh_unchanged_is_identity(es.drop_last(), results.drop_last());
        assert(results.last() == results[results.len() - 1]);
    }
}

/// Whether a manifest of format `f` holds a checksum with algorithm `best`
/// though `f` is not artsum.
pub open spec fn best_misused(f: ManifestFormat, m: Map<Seq<char>, ChecksumView>) -> bool {
    f != ManifestFormat::ARTSUM && exists|p: Seq<char>| m.dom().contains(p) && (#[trigger] m[p]).algorithm == ChecksumAlgorithm::Best
}

/// Refuses a manifest of another format than artsum that holds a checksum
/// with algorithm `best`.
pub fn check_best_algorithm(format: ManifestFormat, manifest: &Manifest) -> (r: Result<(), RefreshError>)
    ensures
        r is Err <==> best_misused(format, manifest.artifacts@),
        r matches Err(e) ==> e == RefreshError::BestAlgorithmRequiresArtsumFormat(format),
{
    if format == ManifestFormat::ARTSUM {
        return Ok(());
    }
    manifest.artifacts.paths_are_unique();
    let n = manifest.artifacts.len();
    let mut i: usize = 0;
    while i < n
        invariant
            i <= n,
            n == manifest.artifacts.entries_view().len(),
            keys_unique(manifest.artifacts.entries_view()),
            format != ManifestFormat::ARTSUM,
            forall|k: int| 0 <= k < i ==> (#[trigger] manifest.artifacts.entries_view()[k]).1.algorithm != ChecksumAlgorithm::Best,
        decreases n - i,
    {
        let (path, checksum) = manifest.artifacts.entry(i);
        if checksum.algorithm == ChecksumAlgorithm::Best {
            proof {
                manifest.artifacts.lemma_view_entry(i as int);
            }
            return Err(RefreshError::BestAlgorithmRequiresArtsumFormat(format));
        }
        i = i + 1;
    }
    proof {
        if best_misused(format, manifest.artifacts@) {
            let p = choose|p: Seq<char>| manifest.artifacts@.dom().contains(p) && (#[trigger] manifest.artifacts@[p]).algorithm == ChecksumAlgorithm::Best;
            let k = manifest.artifacts.lemma_key_entry(p);
            assert(manifest.artifacts.entries_view()[k].1.algorithm != ChecksumAlgorithm::Best);
        }
    }
    Ok(())
}

/// Whether a result is shown at a verbosity: updated and removed artifacts
/// always, unchanged ones from verbosity 1.
pub open spec fn refresh_result_shown(s: RefreshTaskStatus, verbosity: u8) -> bool {
    match s {
        RefreshTaskStatus::Updated { .. } => true,
        RefreshTaskStatus::Removed => true,
        RefreshTaskStatus::Unchanged { .. } => verbosity >= 1,
    }
}

/// The line that shows a result.
pub open spec fn refresh_result_line(r: RefreshTaskResult) -> Seq<SegmentView> {
    let head = refresh_symbol(r.status) + " "@ + r.filename@;
    match r.status {
        RefreshTaskStatus::Updated { old, new } => seq![
            (head, TextStyle::Green),
            (" "@, TextStyle::Plain),
            ("("@ + render_checksum(old@) + " -> "@ + render_checksum(new@) + ")"@, TextStyle::Dimmed),
        ],
        RefreshTaskStatus::Unchanged { checksum } => seq![
            (head, TextStyle::Blue),
            (" "@, TextStyle::Plain),
            ("("@ + render_checksum(checksum@) + ")"@, TextStyle::Dimmed),
        ],
        RefreshTaskStatus::Removed => seq![(head, TextStyle::Yellow)],
    }
}

/// The pieces of the progress of a refresh run, before they are joined.
pub open spec fn refresh_progress_parts(c: RefreshTaskCounters, current: usize, total: Option<usize>) -> Seq<SegmentView> {
    let a = if c.updated > 0 {
        seq![(decimal(c.updated as nat) + " updated"@, TextStyle::Green)]
    } else {
        seq![]
    };
    let b = if c.unchanged > 0 {
        a.push((decimal(c.unchanged as nat) + " unchanged"@, TextStyle::Blue))
    } else {
        a
    };
    let d = if c.removed > 0 {
        b.push((decimal(c.removed as nat) + " removed"@, TextStyle::Yellow))
    } else {
        b
    };
    match total {
        Some(t) => d.push(("["@ + decimal(current as nat) + "/"@ + decimal(t as nat) + "]"@, TextStyle::Dimmed)),
        None => d,
    }
}

/// The lines a display message of a refresh run shows.
pub open spec fn refresh_display_lines(
    message: DisplayMessage<RefreshTaskResult, RefreshTaskError, RefreshTaskCounters, RefreshDisplayContext>,
    verbosity: u8,
) -> Seq<Seq<SegmentView>> {
    match message {
        DisplayMessage::Start(source, _) => seq![
            seq![("Refreshing "@ + source.filepath@ + " ("@ + format_name(source.format) + ")"@, TextStyle::Plain)],
        ],
        DisplayMessage::Result(r) => if refresh_result_shown(r.status, verbosity) {
            seq![refresh_result_line(r)]
        } else {
            seq![]
        },
        DisplayMessage::Error(e) => seq![
            seq![(e.filename@, TextStyle::Dimmed), (": "@ + checksum_error_text(e.error@), TextStyle::Plain)],
        ],
        DisplayMessage::Progress { counters, current, total } => seq![
            join_with_spaces(refresh_progress_parts(counters, current, total)),
        ],
        DisplayMessage::InProgress { .. } => seq![],
        DisplayMessage::Exit => seq![],
    }
}

fn refresh_result_segments(r: &RefreshTaskResult) -> (line: Vec<Segment>)
    ensures
        line_view(line) == refresh_result_line(*r),
{
    let mut head = concat(r.status.symbol(), " ");
    head.append(r.filename.as_str());
    let mut line: Vec<Segment> = Vec::new();
    proof {
        assert(line_view(line) =~= Seq::<SegmentView>::empty());
    }
    match &r.status {
        RefreshTaskStatus::Updated { old, new } => {
            push_segment(&mut line, head, TextStyle::Green);
            push_segment(&mut line, String::from_str(" "), TextStyle::Plain);
            let mut t = String::from_str("(");
            t.append(old.to_string().as_str());
            t.append(" -> ");
            t.append(new.to_string().as_str());
            t.append(")");
            push_segment(&mut line, t, TextStyle::Dimmed);
        },
        RefreshTaskStatus::Unchanged { checksum } => {
            push_segment(&mut line, head, TextStyle::Blue);
            push_segment(&mut line, String::from_str(" "), TextStyle::Plain);
            let mut t = String::from_str("(");
            t.append(checksum.to_string().as_str());
            t.append(")");
            push_segment(&mut line, t, TextStyle::Dimmed);
        },
        RefreshTaskStatus::Removed => {
            push_segment(&mut line, head, TextStyle::Yellow);
        },
    }
    proof {
        assert(line_view(line) =~= refresh_result_line(*r));
    }
    line
}

fn refresh_progress_segments(c: &RefreshTaskCounters, current: usize, total: Option<usize>) -> (line: Vec<Segment>)
    ensures
        line_view(line) == join_with_spaces(refresh_progress_parts(*c, current, total)),
{
    let mut parts: Vec<Segment> = Vec::new();
    proof {
        assert(line_view(parts) =~= Seq::<SegmentView>::empty());
    }
    if c.updated > 0 {
        push_segment(&mut parts, concat(decimal_string(c.updated).as_str(), " updated"), TextStyle::Green);
    }
    if c.unchanged > 0 {
        push_segment(&mut parts, concat(decimal_string(c.unchanged).as_str(), " unchanged"), TextStyle::Blue);
    }
    if c.removed > 0 {
        push_segment(&mut parts, concat(decimal_string(c.removed).as_str(), " removed"), TextStyle::Yellow);
    }
    match total {
        Some(t) => {
            let mut s = String::from_str("[");
            s.append(decimal_string(current).as_str());
            s.append("/");
            s.append(decimal_string(t).as_str());
            s.append("]");
            push_segment(&mut parts, s, TextStyle::Dimmed);
        },
        None => {},
    }
    proof {
        assert(line_view(parts) =~= refresh_progress_parts(*c, current, total));
    }
    join_segments(parts)
}

/// The lines a display message of a refresh run shows at a verbosity.
pub fn display_message_processor(
    message: DisplayMessage<RefreshTaskResult, RefreshTaskError, RefreshTaskCounters, RefreshDisplayContext>,
    verbosity: u8,
) -> (r: Vec<Vec<Segment>>)
    ensures
        lines_view(r) == refresh_display_lines(message, verbosity),
{
    let mut lines: Vec<Vec<Segment>> = Vec::new();
    proof {
        assert(lines_view(lines) =~= Seq::<Seq<SegmentView>>::empty());
    }
    match &message {
        DisplayMessage::Start(source, _) => {
            let mut t = concat("Refreshing ", source.filepath.as_str());
            t.append(" (");
            t.append(source.format.name());
            t.append(")");
            let mut line: Vec<Segment> = Vec::new();
            proof {
                assert(line_view(line) =~= Seq::<SegmentView>::empty());
            }
            push_segment(&mut line, t, TextStyle::Plain);
            push_line(&mut lines, line);
            proof {
                assert(lines_view(lines) =~= refresh_display_lines(message, verbosity));
            }
        },
        DisplayMessage::Result(res) => {
            let shown = match res.status {
                RefreshTaskStatus::Updated { .. } => true,
                RefreshTaskStatus::Removed => true,
                RefreshTaskStatus::Unchanged { .. } => verbosity >= 1,
            };
            if shown {
                push_line(&mut lines, refresh_result_segments(res));
            }
            proof {
                assert(lines_view(lines) =~= refresh_display_lines(message, verbosity));
            }
        },
        DisplayMessage::Error(e) => {
            let mut line: Vec<Segment> = Vec::new();
            proof {
                assert(line_view(line) =~= Seq::<SegmentView>::empty());
            }
            push_segment(&mut line, e.filename.clone(), TextStyle::Dimmed);
            push_segment(&mut line, concat(": ", e.error.to_string().as_str()), TextStyle::Plain);
            proof {
                assert(line_view(line) =~= seq![
                    (e.filename@, TextStyle::Dimmed),
                    (": "@ + checksum_error_text(e.error@), TextStyle::Plain),
                ]);
            }
            push_line(&mut lines, line);
            proof {
                assert(lines_view(lines) =~= refresh_display_lines(message, verbosity));
            }
        },
        DisplayMessage::Progress { counters, current, total } => {
            push_line(&mut lines, refresh_progress_segments(counters, *current, *total));
            proof {
                assert(lines_view(lines) =~= refresh_display_lines(message, verbosity));
            }
        },
        DisplayMessage::InProgress { .. } => {},
        DisplayMessage::Exit => {},
    }
    lines
}

/// The exit code of a refresh run: 1 when some artifact failed.
pub fn refresh_exit_code(counters: &RefreshTaskCounters) -> (r: i32)
    ensures
        r == (if counters.error > 0 {
            1i32
        } else {
            0i32
        }),
{
    if counters.error > 0 {
        1
    } else {
        0
    }
}

} // verus!
