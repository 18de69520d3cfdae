//! What the commands share: the global flags, the registry of busy workers,
//! the resume check on modification times, and the pieces of display output.

use vstd::prelude::*;

use crate::checksum::IoErrorKind;
use crate::manifest::ManifestSource;

verus! {

/// The number of completed artifacts between two writes of the manifest.
pub const DEFAULT_FLUSH_BATCH_SIZE: usize = 25;

/// The most worker rows shown at once.
pub const MAX_VISIBLE_WORKER_SPINNERS: usize = 8;

/// The flags that every command takes.
#[derive(Debug, Clone, Copy, PartialEq, Eq, Structural)]
pub struct GlobalFlags {
    /// How much detail to show.
    pub verbosity: u8,
    /// Log debug output.
    pub debug: bool,
    /// Show no colours.
    pub no_color: bool,
    /// Show no progress bars.
    pub no_progress: bool,
    /// Show no output.
    pub no_display: bool,
}

/// The flags of the top level merged with those of a subcommand: the larger
/// verbosity, and each switch on when either turns it on.
pub open spec fn merge_flags(a: GlobalFlags, b: GlobalFlags) -> GlobalFlags {
    GlobalFlags {
        verbosity: if a.verbosity >= b.verbosity {
            a.verbosity
        } else {
            b.verbosity
        },
        debug: a.debug || b.debug,
        no_color: a.no_color || b.no_color,
        no_progress: a.no_progress || b.no_progress,
        no_display: a.no_display || b.no_display,
    }
}

/// The flags when none is given.
pub open spec fn no_flags() -> GlobalFlags {
    GlobalFlags { verbosity: 0, debug: false, no_color: false, no_progress: false, no_display: false }
}

impl GlobalFlags {
    /// Merges these (top-level) flags with those of a subcommand.
    pub fn merge(&self, subcommand_flags: &GlobalFlags) -> (r: GlobalFlags)
        ensures
            r == merge_flags(*self, *subcommand_flags),
    {
        GlobalFlags {
            verbosity: if self.verbosity >= subcommand_flags.verbosity {
                self.verbosity
            } else {
                subcommand_flags.verbosity
            },
            debug: self.debug || subcommand_flags.debug,
            no_color: self.no_color || subcommand_flags.no_color,
            no_progress: self.no_progress || subcommand_flags.no_progress,
            no_display: self.no_display || subcommand_flags.no_display,
        }
    }

    /// Whether output is off: asked for, or implied by debug logging.
    pub fn display_disabled(&self) -> (r: bool)
        ensures
            r == (self.no_display || self.debug),
    {
        self.no_display || self.debug
    }

    /// Whether progress bars are off: asked for, or implied by no output or debug logging.
    pub fn progress_disabled(&self) -> (r: bool)
        ensures
            r == (self.no_progress || self.no_display || self.debug),
    {
        self.no_progress || self.no_display || self.debug
    }
}

/// Merging flags does not depend on which side a flag was given.
pub proof fn lemma_merge_commutative(a: GlobalFlags, b: GlobalFlags)
    ensures
        merge_flags(a, b) == merge_flags(b, a),
{
}

/// Merging flags in any grouping gives the same flags.
pub proof fn lemma_merge_associative(a: GlobalFlags, b: GlobalFlags, c: GlobalFlags)
    ensures
        merge_flags(merge_flags(a, b), c) == merge_flags(a, merge_flags(b, c)),
{
}

/// Merging flags with themselves changes nothing.
pub proof fn lemma_merge_idempotent(a: GlobalFlags)
    ensures
        merge_flags(a, a) == a,
{
}

/// Merging with no flags changes nothing.
pub proof fn lemma_merge_identity(a: GlobalFlags)
    ensures
        merge_flags(a, no_flags()) == a,
        merge_flags(no_flags(), a) == a,
{
}

/// A merge keeps everything either side asked for: at least each verbosity,
/// and every switch that either side turned on.
pub proof fn lemma_merge_keeps_requests(a: GlobalFlags, b: GlobalFlags)
    ensures
        merge_flags(a, b).verbosity >= a.verbosity,
        merge_flags(a, b).verbosity >= b.verbosity,
        merge_flags(a, b).verbosity == a.verbosity || merge_flags(a, b).verbosity == b.verbosity,
        a.debug || b.debug <==> merge_flags(a, b).debug,
        a.no_color || b.no_color <==> merge_flags(a, b).no_color,
        a.no_progress || b.no_progress <==> merge_flags(a, b).no_progress,
        a.no_display || b.no_display <==> merge_flags(a, b).no_display,
{
}

/// The busy state of worker slots: which file each slot is processing.
pub struct WorkerSlotRegistry {
    slots: Vec<Option<String>>,
}

/// A slot's state as a value.
pub open spec fn slot_view(s: Option<String>) -> Option<Seq<char>> {
    match s {
        Some(n) => Some(n@),
        None => None,
    }
}

/// The index of the first idle slot, if any.
pub open spec fn first_idle(slots: Seq<Option<Seq<char>>>) -> Option<int>
    decreases slots.len(),
{
    if slots.len() == 0 {
        None
    } else if slots[0] is None {
        Some(0)
    } else {
        match first_idle(slots.drop_first()) {
            Some(i) => Some(i + 1),
            None => None,
        }
    }
}

pub proof fn lemma_first_idle(slots: Seq<Option<Seq<char>>>)
    ensures
        match first_idle(slots) {
            Some(i) => 0 <= i < slots.len() && slots[i] is None && forall|j: int|
                0 <= j < i ==> (#[trigger] slots[j]) is Some,
            None => forall|j: int| 0 <= j < slots.len() ==> (#[trigger] slots[j]) is Some,
        },
    decreases slots.len(),
{
    if slots.len() > 0 && slots[0] is Some {
        let t = slots.drop_first();
        lemma_first_idle(t);
        assert forall|j: int| 0 < j < slots.len() implies slots[j] == t[j - 1] by {}
    }
}

pub proof fn lemma_first_idle_is(slots: Seq<Option<Seq<char>>>, i: int)
    requires
        0 <= i < slots.len(),
        slots[i] is None,
        forall|j: int| 0 <= j < i ==> (#[trigger] slots[j]) is Some,
    ensures
        first_idle(slots) == Some(i),
    decreases slots.len(),
{
    if i > 0 {
        let t = slots.drop_first();
        assert forall|j: int| 0 <= j < i - 1 implies (#[trigger] t[j]) is Some by {
            assert(t[j] == slots[j + 1]);
        }
        lemma_first_idle_is(t, i - 1);
    }
}

/// Acquiring a slot: the first idle slot becomes busy with no file yet, and its
/// index is returned; with no idle slot, slot 0 is returned and nothing changes.
pub open spec fn acquire_slot(slots: Seq<Option<Seq<char>>>) -> (int, Seq<Option<Seq<char>>>) {
    match first_idle(slots) {
        Some(i) => (i, slots.update(i, Some(Seq::empty()))),
        None => (0, slots),
    }
}

/// Setting a slot's file; an index past the slots changes nothing.
pub open spec fn set_slot(slots: Seq<Option<Seq<char>>>, index: int, name: Option<Seq<char>>) -> Seq<Option<Seq<char>>> {
    if 0 <= index < slots.len() {
        slots.update(index, name)
    } else {
        slots
    }
}

impl View for WorkerSlotRegistry {
    type V = Seq<Option<Seq<char>>>;

    closed spec fn view(&self) -> Seq<Option<Seq<char>>> {
        self.slots@.map_values(|s: Option<String>| slot_view(s))
    }
}

impl WorkerSlotRegistry {
    /// A registry of `capacity` idle slots.
    pub fn new(capacity: usize) -> (r: WorkerSlotRegistry)
        ensures
            r@ == Seq::new(capacity as nat, |i: int| None::<Seq<char>>),
    {
        let mut slots: Vec<Option<String>> = Vec::new();
        let mut i: usize = 0;
        while i < capacity
            invariant
                i <= capacity,
                slots@.len() == i,
                forall|k: int| 0 <= k < i ==> (#[trigger] slots@[k]) is None,
            decreases capacity - i,
        {
            slots.push(None);
            i = i + 1;
        }
        let r = WorkerSlotRegistry { slots };
        proof {
            assert(r@ =~= Seq::new(capacity as nat, |i: int| None::<Seq<char>>));
        }
        r
    }

    /// Marks the first idle slot busy and returns its index (slot 0 when none is idle).
    pub fn acquire(&mut self) -> (r: usize)
        ensures
            r == acquire_slot(old(self)@).0,
            final(self)@ == acquire_slot(old(self)@).1,
    {
        proof {
            lemma_first_idle(self@);
        }
        let mut i: usize = 0;
        while i < self.slots.len()
            invariant
                i <= self.slots@.len(),
                self@ == old(self)@,
                forall|j: int| 0 <= j < i ==> (#[trigger] self@[j]) is Some,
            decreases self.slots@.len() - i,
        {
            if self.slots[i].is_none() {
                proof {
                    assert(self@[i as int] is None);
                    lemma_first_idle_is(self@, i as int);
                }
                let ghost before = self@;
                self.slots.set(i, Some(String::new()));
                proof {
                    assert(self@ =~= before.update(i as int, Some(Seq::<char>::empty())));
                }
                return i;
            }
            proof {
                assert(self@[i as int] is Some);
            }
            i = i + 1;
        }
        proof {
            lemma_first_idle(self@);
        }
        0
    }

    /// Sets the file shown for a slot (`None` makes it idle); an index past the
    /// slots changes nothing.
    pub fn set(&mut self, index: usize, name: Option<String>)
        ensures
            final(self)@ == set_slot(old(self)@, index as int, slot_view(name)),
    {
        if index < self.slots.len() {
            let ghost nv = slot_view(name);
            self.slots.set(index, name);
            proof {
                assert(self@ =~= old(self)@.update(index as int, nv));
            }
        }
    }

    /// The state of every slot.
    pub fn snapshot(&self) -> (r: Vec<Option<String>>)
        ensures
            r@.map_values(|s: Option<String>| slot_view(s)) == self@,
    {
        let mut out: Vec<Option<String>> = Vec::new();
        let mut i: usize = 0;
        while i < self.slots.len()
            invariant
                i <= self.slots@.len(),
                out@.map_values(|s: Option<String>| slot_view(s)) == self@.take(i as int),
            decreases self.slots@.len() - i,
        {
            let s = match &self.slots[i] {
                Some(n) => Some(n.clone()),
                None => None,
            };
            proof {
                assert(slot_view(s) == self@[i as int]);
            }
            let ghost prev = out@;
            let ghost sv = slot_view(s);
            out.push(s);
            proof {
                assert(out@.map_values(|s: Option<String>| slot_view(s)) =~= prev.map_values(
                    |s: Option<String>| slot_view(s),
                ).push(sv));
                assert(out@.map_values(|s: Option<String>| slot_view(s)) =~= self@.take(i + 1));
            }
            i = i + 1;
        }
        proof {
            assert(self@.take(i as int) =~= self@);
        }
        out
    }
}

/// A slot that is acquired and then released leaves the registry as it was;
/// the acquired slot was idle, and every slot before it busy.
pub proof fn lemma_acquire_release(slots: Seq<Option<Seq<char>>>)
    requires
        exists|i: int| 0 <= i < slots.len() && (#[trigger] slots[i]) is None,
    ensures
        ({
            let (i, after) = acquire_slot(slots);
            &&& 0 <= i < slots.len()
            &&& slots[i] is None
            &&& after[i] is Some
            &&& forall|j: int| 0 <= j < i ==> (#[trigger] slots[j]) is Some
            &&& set_slot(after, i, None) == slots
        }),
{
    lemma_first_idle(slots);
    let i = choose|i: int| 0 <= i < slots.len() && (#[trigger] slots[i]) is None;
    assert(first_idle(slots) is Some);
    let (k, after) = acquire_slot(slots);
    assert(set_slot(after, k, None) =~= slots);
}

/// Two acquisitions in a row, with an idle slot for each, get different slots.
pub proof fn lemma_acquire_exclusive(slots: Seq<Option<Seq<char>>>)
    requires
        exists|i: int, j: int|
            0 <= i < j < slots.len() && (#[trigger] slots[i]) is None && (#[trigger] slots[j]) is None,
    ensures
        acquire_slot(slots).0 != acquire_slot(acquire_slot(slots).1).0,
{
    lemma_first_idle(slots);
    let (i, j) = choose|i: int, j: int|
        0 <= i < j < slots.len() && (#[trigger] slots[i]) is None && (#[trigger] slots[j]) is None;
    let (k, after) = acquire_slot(slots);
    lemma_first_idle(after);
    if k == i {
        assert(after[j] is None);
    } else {
        assert(after[i] is None);
    }
    assert(after[k] is Some);
}

/// Whether an artifact is unchanged since the manifest was written: its
/// modification time (nanoseconds from the Unix epoch) could be read and is not
/// after the reference time.
pub fn artifact_mtime_unchanged(file_mtime: Option<i128>, reference_mtime: i128) -> (r: bool)
    ensures
        r == (file_mtime matches Some(t) && t <= reference_mtime),
{
    match file_mtime {
        Some(t) => t <= reference_mtime,
        None => false,
    }
}

/// The size of the display message buffer for a number of workers: eight
/// slots per worker and four more per worker beyond four, at least 1024.
pub open spec fn buffer_size_for(max_workers: nat) -> nat {
    let n = max_workers * 8 + (if max_workers > 4 {
        (max_workers - 4) as nat
    } else {
        0
    }) * 4;
    if n >= 1024 {
        n
    } else {
        1024
    }
}

/// The size of the display message buffer.
pub fn display_buffer_size(max_workers: usize) -> (r: usize)
    requires
        max_workers * 8 + (if max_workers > 4 {
            max_workers - 4
        } else {
            0
        }) * 4 <= usize::MAX,
    ensures
        r == buffer_size_for(max_workers as nat),
{
    let n = max_workers * 8 + max_workers.saturating_sub(4) * 4;
    if n >= 1024 {
        n
    } else {
        1024
    }
}

/// The worker rows shown under the progress bar: one per worker up to eight,
/// and whether an overflow row counts the rest; none when output is verbose.
pub fn worker_rows(verbosity: u8, max_workers: usize) -> (r: (usize, usize))
    ensures
        verbosity == 0 ==> r.0 == (if max_workers < MAX_VISIBLE_WORKER_SPINNERS {
            max_workers
        } else {
            MAX_VISIBLE_WORKER_SPINNERS
        }) && r.1 == (if max_workers > MAX_VISIBLE_WORKER_SPINNERS {
            max_workers - MAX_VISIBLE_WORKER_SPINNERS
        } else {
            0
        }),
        verbosity != 0 ==> r == (0usize, 0usize),
{
    if verbosity == 0 {
        let visible = if max_workers < MAX_VISIBLE_WORKER_SPINNERS {
            max_workers
        } else {
            MAX_VISIBLE_WORKER_SPINNERS
        };
        (visible, max_workers.saturating_sub(MAX_VISIBLE_WORKER_SPINNERS))
    } else {
        (0, 0)
    }
}

/// The count after one more item, wrapping at the largest `usize`.
pub open spec fn bump(n: usize) -> usize {
    if n < usize::MAX {
        (n + 1) as usize
    } else {
        0
    }
}

/// The sum of two counts, wrapping past the largest `usize`.
pub open spec fn wrapping_sum(a: usize, b: usize) -> usize {
    if a + b <= usize::MAX {
        (a + b) as usize
    } else {
        (a + b - usize::MAX - 1) as usize
    }
}

/// Adds a count to another, wrapping past the largest `usize`.
pub fn add_count(n: &mut usize, m: usize)
    ensures
        *final(n) == wrapping_sum(*old(n), m),
{
    if m <= usize::MAX - *n {
        *n = *n + m;
    } else {
        *n = m - (usize::MAX - *n) - 1;
    }
}

/// The sum of two counts, wrapping past the largest `usize`.
pub fn sum_counts(a: usize, b: usize) -> (r: usize)
    ensures
        r == wrapping_sum(a, b),
{
    let mut n = a;
    add_count(&mut n, b);
    n
}

/// One more item counted.
pub fn increment(n: &mut usize)
    ensures
        *final(n) == bump(*old(n)),
{
    if *n < usize::MAX {
        *n = *n + 1;
    } else {
        *n = 0;
    }
}


/// Marks the error types of tasks.
pub trait TaskError {}

/// Marks the result types of tasks.
pub trait TaskResult {}

/// Marks the counter types of tasks.
pub trait TaskCounters {}

/// Marks the option types of tasks.
pub trait TaskOptions {}

/// Marks the error types that are displayed.
pub trait DisplayError {}

/// Marks the result types that are displayed.
pub trait DisplayResult {}

/// Marks the context types of a display's start.
pub trait DisplayContext {}

/// Counters of a run's progress.
pub trait DisplayCounters {
    /// The number of items done.
    fn current(&self) -> usize;

    /// The number of items to do, when known.
    fn total(&self) -> Option<usize>;
}

/// A message to the display.
pub enum DisplayMessage<R, E, C, X> {
    /// A run starts on a manifest, with the command's context.
    Start(ManifestSource, X),
    /// An item is done.
    Result(R),
    /// An item failed.
    Error(E),
    /// The progress so far.
    Progress {
        /// The counters at this point.
        counters: C,
        /// The number of items done.
        current: usize,
        /// The number of items to do, when known.
        total: Option<usize>,
    },
    /// The file a worker slot is on has changed.
    InProgress {
        /// The slot.
        slot: usize,
        /// Its file, or none when it went idle.
        filename: Option<String>,
    },
    /// The run is over.
    Exit,
}

/// How a piece of output text is shown.
#[derive(Debug, Clone, Copy, PartialEq, Eq, Structural)]
pub enum TextStyle {
    Plain,
    Dimmed,
    Green,
    Red,
    BoldRed,
    Blue,
    Yellow,
}

/// A piece of output text and how it is shown.
#[derive(Debug, Clone)]
pub struct Segment {
    pub text: String,
    pub style: TextStyle,
}

/// A piece of output as values.
pub type SegmentView = (Seq<char>, TextStyle);

/// A line of output as values.
pub open spec fn line_view(l: Vec<Segment>) -> Seq<SegmentView> {
    l@.map_values(|s: Segment| (s.text@, s.style))
}

/// Lines of output as values.
pub open spec fn lines_view(ls: Vec<Vec<Segment>>) -> Seq<Seq<SegmentView>> {
    ls@.map_values(|l: Vec<Segment>| line_view(l))
}

/// Appends a piece of text to a line of output.
pub fn push_segment(line: &mut Vec<Segment>, text: String, style: TextStyle)
    ensures
        line_view(*final(line)) == line_view(*old(line)).push((text@, style)),
{
    let ghost t = text@;
    line.push(Segment { text, style });
    proof {
        assert(line_view(*line) =~= line_view(*old(line)).push((t, style)));
    }
}

/// Appends a line to lines of output.
pub fn push_line(lines: &mut Vec<Vec<Segment>>, line: Vec<Segment>)
    ensures
        lines_view(*final(lines)) == lines_view(*old(lines)).push(line_view(line)),
{
    let ghost l = line_view(line);
    lines.push(line);
    proof {
        assert(lines_view(*lines) =~= lines_view(*old(lines)).push(l));
    }
}

/// The text of `a` followed by `b`.
pub fn concat(a: &str, b: &str) -> (r: String)
    ensures
        r@ == a@ + b@,
{
    let mut s = String::from_str(a);
    s.append(b);
    s
}

/// The decimal notation of `n`.
pub fn decimal_string(n: usize) -> (r: String)
    ensures
        r@ == crate::text::decimal(n as nat),
{
    let mut s = String::new();
    crate::text::push_decimal(&mut s, n);
    proof {
        assert(s@ =~= crate::text::decimal(n as nat));
    }
    s
}


/// Pieces of output joined by single plain spaces.
pub open spec fn join_with_spaces(ps: Seq<SegmentView>) -> Seq<SegmentView>
    decreases ps.len(),
{
    if ps.len() <= 1 {
        ps
    } else {
        join_with_spaces(ps.drop_last()) + seq![(" "@, TextStyle::Plain), ps.last()]
    }
}

/// Joins pieces of output with single plain spaces.
pub fn join_segments(parts: Vec<Segment>) -> (r: Vec<Segment>)
    ensures
        line_view(r) == join_with_spaces(line_view(parts)),
{
    let ghost ps = line_view(parts);
    let mut out: Vec<Segment> = Vec::new();
    let mut i: usize = 0;
    let n = parts.len();
    let rest = parts;
    proof {
        assert(line_view(out) =~= join_with_spaces(ps.take(0)));
    }
    while i < n
        invariant
            i <= n,
            n == ps.len(),
            rest@.len() == n,
            line_view(rest) == ps,
            line_view(out) == join_with_spaces(ps.take(i as int)),
        decreases n - i,
    {
        let text = rest[i].text.clone();
        let style = rest[i].style;
        proof {
            assert(ps[i as int] == (text@, style));
        }
        if i > 0 {
            push_segment(&mut out, String::from_str(" "), TextStyle::Plain);
        }
        push_segment(&mut out, text, style);
        proof {
            let t = ps.take(i + 1);
            assert(t.drop_last() =~= ps.take(i as int));
            if i == 0 {
                assert(line_view(out) =~= join_with_spaces(t));
            } else {
                assert(line_view(out) =~= join_with_spaces(t.drop_last()) + seq![(" "@, TextStyle::Plain), t.last()]);
            }
        }
        i = i + 1;
    }
    proof {
        assert(ps.take(n as int) =~= ps);
    }
    out
}


/// The slots whose state differs between a snapshot and the one before, in
/// order of slot, with their new state; an earlier snapshot of another length
/// counts as all idle.
pub open spec fn slot_changes(
    before: Seq<Option<Seq<char>>>,
    after: Seq<Option<Seq<char>>>,
) -> Seq<(int, Option<Seq<char>>)> {
    let base = if before.len() == after.len() {
        before
    } else {
        Seq::new(after.len(), |i: int| None::<Seq<char>>)
    };
    changes_upto(base, after, after.len() as int)
}

/// The changed slots among the first `n`.
pub open spec fn changes_upto(
    base: Seq<Option<Seq<char>>>,
    after: Seq<Option<Seq<char>>>,
    n: int,
) -> Seq<(int, Option<Seq<char>>)>
    decreases n,
{
    if n <= 0 {
        Seq::empty()
    } else if after[n - 1] != base[n - 1] {
        changes_upto(base, after, n - 1).push((n - 1, after[n - 1]))
    } else {
        changes_upto(base, after, n - 1)
    }
}

/// The slots whose file changed between two snapshots, as display messages
/// report them.
pub fn changed_slots(before: &Vec<Option<String>>, after: &Vec<Option<String>>) -> (r: Vec<(usize, Option<String>)>)
    ensures
        r@.map_values(|c: (usize, Option<String>)| (c.0 as int, slot_view(c.1))) == slot_changes(
            before@.map_values(|s: Option<String>| slot_view(s)),
            after@.map_values(|s: Option<String>| slot_view(s)),
        ),
{
    let ghost b = before@.map_values(|s: Option<String>| slot_view(s));
    let ghost a = after@.map_values(|s: Option<String>| slot_view(s));
    let ghost base = if b.len() == a.len() {
        b
    } else {
        Seq::new(a.len(), |i: int| None::<Seq<char>>)
    };
    let same_length = before.len() == after.len();
    let mut out: Vec<(usize, Option<String>)> = Vec::new();
    let mut i: usize = 0;
    while i < after.len()
        invariant
            i <= after@.len(),
            a == after@.map_values(|s: Option<String>| slot_view(s)),
            b == before@.map_values(|s: Option<String>| slot_view(s)),
            same_length == (before@.len() == after@.len()),
            base == (if b.len() == a.len() {
                b
            } else {
                Seq::new(a.len(), |i: int| None::<Seq<char>>)
            }),
            out@.map_values(|c: (usize, Option<String>)| (c.0 as int, slot_view(c.1))) == changes_upto(base, a, i as int),
        decreases after@.len() - i,
    {
        let now = match &after[i] {
            Some(n) => Some(n.clone()),
            None => None,
        };
        let differs = if same_length {
            match (&before[i], &after[i]) {
                (Some(x), Some(y)) => !(*x == *y),
                (None, None) => false,
                _ => true,
            }
        } else {
            after[i].is_some()
        };
        proof {
            assert(slot_view(now) == a[i as int]);
            assert(differs == (a[i as int] != base[i as int]));
        }
        if differs {
            let ghost prev = out@;
            out.push((i, now));
            proof {
                assert(out@.map_values(|c: (usize, Option<String>)| (c.0 as int, slot_view(c.1)))
                    =~= prev.map_values(|c: (usize, Option<String>)| (c.0 as int, slot_view(c.1))).push(
                    (i as int, a[i as int]),
                ));
            }
        }
        i = i + 1;
    }
    out
}

/// How the number of worker permits changes for a number of workers.
#[derive(Debug, Clone, Copy, PartialEq, Eq, Structural)]
pub enum PermitChange {
    /// Add this many permits.
    Add(usize),
    /// Forget this many permits.
    Forget(usize),
    /// Keep the permits as they are.
    Keep,
}

/// The change that brings `available` permits to `max_workers` (which must not be zero).
pub fn permit_change(max_workers: usize, available: usize) -> (r: PermitChange)
    requires
        max_workers > 0,
    ensures
        max_workers > available ==> r == PermitChange::Add((max_workers - available) as usize),
        max_workers < available ==> r == PermitChange::Forget((available - max_workers) as usize),
        max_workers == available ==> r == PermitChange::Keep,
{
    if max_workers > available {
        PermitChange::Add(max_workers - available)
    } else if max_workers < available {
        PermitChange::Forget(available - max_workers)
    } else {
        PermitChange::Keep
    }
}


/// The commands that read an existing manifest.
#[derive(Debug, Clone, Copy, PartialEq, Eq, Structural)]
pub enum ManifestCommand {
    Verify,
    Refresh,
}

/// The failure reported when no manifest is found: its kind and the text put
/// before the path, for a manifest path that was given or for a directory.
pub open spec fn lookup_failure(command: ManifestCommand, manifest_given: bool) -> (IoErrorKind, Seq<char>) {
    match (command, manifest_given) {
        (ManifestCommand::Verify, true) => (IoErrorKind::NotFound, "No manifest file found at"@),
        (ManifestCommand::Verify, false) => (IoErrorKind::NotFound, "No manifest file found in directory"@),
        (ManifestCommand::Refresh, true) => (IoErrorKind::InvalidData, "Invalid manifest file format found at"@),
        (ManifestCommand::Refresh, false) => (IoErrorKind::NotFound, "No valid manifest file format found in directory"@),
    }
}

/// The manifest a command reads, or the failure to report when none was found
/// (at the manifest path given, or in the directory).
pub fn manifest_source_or_failure(
    command: ManifestCommand,
    found: Option<ManifestSource>,
    manifest_given: bool,
) -> (r: Result<ManifestSource, (IoErrorKind, &'static str)>)
    ensures
        match found {
            Some(s) => r == Ok::<ManifestSource, (IoErrorKind, &'static str)>(s),
            None => r matches Err(e) && (e.0, e.1@) == lookup_failure(command, manifest_given),
        },
{
    match found {
        Some(s) => Ok(s),
        None => Err(
            match (command, manifest_given) {
                (ManifestCommand::Verify, true) => (IoErrorKind::NotFound, "No manifest file found at"),
                (ManifestCommand::Verify, false) => (IoErrorKind::NotFound, "No manifest file found in directory"),
                (ManifestCommand::Refresh, true) => (IoErrorKind::InvalidData, "Invalid manifest file format found at"),
                (ManifestCommand::Refresh, false) => (
                    IoErrorKind::NotFound,
                    "No valid manifest file format found in directory",
                ),
            },
        ),
    }
}

} // verus!
