//! Manifests: the formats they are written in, the map of artifacts they hold,
//! and the text each format reads and writes.

use vstd::prelude::*;
use vstd::string::*;

use crate::checksum::{
    algorithm_name, lemma_algorithm_name, lemma_checksum_round_trip, mode_name, parse_checksum,
    render_checksum, Checksum, ChecksumAlgorithm, ChecksumError, ChecksumErrorView, ChecksumMode,
    ChecksumView, IoFailure,
};
use crate::path::{file_name_of, join, join_path, path_file_name, regex_is_match, regex_match};
use crate::text::{
    chars_of, contains_double_space, has_double_space, is_ws, lemma_count_until_is,
    lemma_word_len_is, line_spans, spans_of, split_ws, string_of, text_lines,
    word_spans,
};

verus! {

/// The formats a manifest can be written in.
#[derive(Debug, Clone, Copy, PartialEq, Eq, Structural, Hash)]
pub enum ManifestFormat {
    /// The artsum format: each line names its own algorithm.
    ARTSUM,
    /// The md5sum format, with MD5 digests.
    MD5SUM,
    /// The sha1sum format, with SHA-1 digests.
    SHA1SUM,
    /// The sha256sum format, with SHA-256 digests.
    SHA256SUM,
    /// The sha512sum format, with SHA-512 digests.
    SHA512SUM,
    /// The b2sum format, with BLAKE2b-512 digests.
    B2SUM,
}

impl Default for ManifestFormat {
    /// The default format is artsum.
    fn default() -> (r: Self)
        ensures
            r == ManifestFormat::ARTSUM,
    {
        ManifestFormat::ARTSUM
    }
}

/// The lowercase name of a format.
pub open spec fn format_name(f: ManifestFormat) -> Seq<char> {
    match f {
        ManifestFormat::ARTSUM => "artsum"@,
        ManifestFormat::MD5SUM => "md5sum"@,
        ManifestFormat::SHA1SUM => "sha1sum"@,
        ManifestFormat::SHA256SUM => "sha256sum"@,
        ManifestFormat::SHA512SUM => "sha512sum"@,
        ManifestFormat::B2SUM => "b2sum"@,
    }
}

/// The algorithm every checksum of a format uses; artsum names it per line.
pub open spec fn format_algorithm(f: ManifestFormat) -> Option<ChecksumAlgorithm> {
    match f {
        ManifestFormat::ARTSUM => None,
        ManifestFormat::MD5SUM => Some(ChecksumAlgorithm::MD5),
        ManifestFormat::SHA1SUM => Some(ChecksumAlgorithm::SHA1),
        ManifestFormat::SHA256SUM => Some(ChecksumAlgorithm::SHA256),
        ManifestFormat::SHA512SUM => Some(ChecksumAlgorithm::SHA512),
        ManifestFormat::B2SUM => Some(ChecksumAlgorithm::BLAKE2B512),
    }
}

/// The file name a manifest of a format is written to by default.
pub open spec fn format_default_filename(f: ManifestFormat) -> Seq<char> {
    match f {
        ManifestFormat::ARTSUM => "sfv.toml"@,
        ManifestFormat::MD5SUM => "artsum.md5"@,
        ManifestFormat::SHA1SUM => "sfv.sha1"@,
        ManifestFormat::SHA256SUM => "sfv.sha256"@,
        ManifestFormat::SHA512SUM => "artsum.sha512"@,
        ManifestFormat::B2SUM => "artsum.b2"@,
    }
}

/// The regular expressions that the file names of a format's manifests match.
pub open spec fn format_patterns(f: ManifestFormat) -> Seq<Seq<char>> {
    match f {
        ManifestFormat::ARTSUM => seq!["^sfv\\.toml$"@, "^\\.artsum$"@],
        ManifestFormat::MD5SUM => seq!["^artsum\\.md5$"@, "^.*\\.md5$"@, "^.*\\.md5sum$"@],
        ManifestFormat::SHA1SUM => seq!["^sfv\\.sha1$"@],
        ManifestFormat::SHA256SUM => seq!["^sfv\\.sha256$"@, "^.*\\.sha256$"@],
        ManifestFormat::SHA512SUM => seq![
            "^artsum\\.sha512$"@,
            "^.*\\.sha512$"@,
            "^.*\\.sha512sum$"@,
        ],
        ManifestFormat::B2SUM => seq!["^artsum\\.b2$"@, "^.*\\.b2$"@, "^.*\\.b2sum$"@],
    }
}

/// The formats in the order they are tried when looking for a manifest.
pub open spec fn all_formats() -> Seq<ManifestFormat> {
    seq![
        ManifestFormat::ARTSUM,
        ManifestFormat::MD5SUM,
        ManifestFormat::SHA1SUM,
        ManifestFormat::SHA256SUM,
        ManifestFormat::SHA512SUM,
        ManifestFormat::B2SUM,
    ]
}

impl ManifestFormat {
    /// Every format, in the order they are tried when looking for a manifest.
    pub fn all() -> (r: Vec<ManifestFormat>)
        ensures
            r@ == all_formats(),
    {
        let v = vec![
            ManifestFormat::ARTSUM,
            ManifestFormat::MD5SUM,
            ManifestFormat::SHA1SUM,
            ManifestFormat::SHA256SUM,
            ManifestFormat::SHA512SUM,
            ManifestFormat::B2SUM,
        ];
        proof {
            assert(v@ =~= all_formats());
        }
        v
    }

    /// The lowercase name of the format.
    pub fn name(&self) -> (r: &'static str)
        ensures
            r@ == format_name(*self),
    {
        match self {
            ManifestFormat::ARTSUM => "artsum",
            ManifestFormat::MD5SUM => "md5sum",
            ManifestFormat::SHA1SUM => "sha1sum",
            ManifestFormat::SHA256SUM => "sha256sum",
            ManifestFormat::SHA512SUM => "sha512sum",
            ManifestFormat::B2SUM => "b2sum",
        }
    }

    /// The name of the format as an owned string.
    pub fn to_string(&self) -> (r: String)
        ensures
            r@ == format_name(*self),
    {
        String::from_str(self.name())
    }

    /// The algorithm every checksum of the format uses, if the format fixes one.
    pub fn algorithm(&self) -> (r: Option<ChecksumAlgorithm>)
        ensures
            r == format_algorithm(*self),
    {
        match self {
            ManifestFormat::ARTSUM => None,
            ManifestFormat::MD5SUM => Some(ChecksumAlgorithm::MD5),
            ManifestFormat::SHA1SUM => Some(ChecksumAlgorithm::SHA1),
            ManifestFormat::SHA256SUM => Some(ChecksumAlgorithm::SHA256),
            ManifestFormat::SHA512SUM => Some(ChecksumAlgorithm::SHA512),
            ManifestFormat::B2SUM => Some(ChecksumAlgorithm::BLAKE2B512),
        }
    }

    /// The file name a manifest of the format is written to by default.
    pub fn default_filename(&self) -> (r: &'static str)
        ensures
            r@ == format_default_filename(*self),
    {
        match self {
            ManifestFormat::ARTSUM => "sfv.toml",
            ManifestFormat::MD5SUM => "artsum.md5",
            ManifestFormat::SHA1SUM => "sfv.sha1",
            ManifestFormat::SHA256SUM => "sfv.sha256",
            ManifestFormat::SHA512SUM => "artsum.sha512",
            ManifestFormat::B2SUM => "artsum.b2",
        }
    }

    /// The regular expressions that the file names of the format's manifests match.
    pub fn filename_patterns(&self) -> (r: Vec<&'static str>)
        ensures
            r@.len() == format_patterns(*self).len(),
            forall|i: int| 0 <= i < r@.len() ==> (#[trigger] r@[i])@ == format_patterns(*self)[i],
    {
        match self {
            ManifestFormat::ARTSUM => vec!["^sfv\\.toml$", "^\\.artsum$"],
            ManifestFormat::MD5SUM => vec!["^artsum\\.md5$", "^.*\\.md5$", "^.*\\.md5sum$"],
            ManifestFormat::SHA1SUM => vec!["^sfv\\.sha1$"],
            ManifestFormat::SHA256SUM => vec!["^sfv\\.sha256$", "^.*\\.sha256$"],
            ManifestFormat::SHA512SUM => vec![
                "^artsum\\.sha512$",
                "^.*\\.sha512$",
                "^.*\\.sha512sum$",
            ],
            ManifestFormat::B2SUM => vec!["^artsum\\.b2$", "^.*\\.b2$", "^.*\\.b2sum$"],
        }
    }
}


/// A path and its checksum, as values.
pub type EntryView = (Seq<char>, ChecksumView);

/// The map that inserting `es` in order into an empty map gives: a later entry
/// for a path replaces an earlier one.
pub open spec fn fold_entries(es: Seq<EntryView>) -> Map<Seq<char>, ChecksumView>
    decreases es.len(),
{
    if es.len() == 0 {
        Map::empty()
    } else {
        fold_entries(es.drop_last()).insert(es.last().0, es.last().1)
    }
}

/// Whether no path occurs twice among `es`.
pub open spec fn keys_unique(es: Seq<EntryView>) -> bool {
    forall|i: int, j: int| 0 <= i < j < es.len() ==> (#[trigger] es[i]).0 != (#[trigger] es[j]).0
}

pub proof fn lemma_fold_dom(es: Seq<EntryView>, k: Seq<char>)
    ensures
        fold_entries(es).dom().contains(k) <==> exists|i: int| 0 <= i < es.len() && (#[trigger] es[i]).0 == k,
    decreases es.len(),
{
    if es.len() > 0 {
        let init = es.drop_last();
        lemma_fold_dom(init, k);
        if fold_entries(init).dom().contains(k) {
            let i = choose|i: int| 0 <= i < init.len() && (#[trigger] init[i]).0 == k;
            assert(es[i] == init[i]);
        }
        if exists|i: int| 0 <= i < es.len() && (#[trigger] es[i]).0 == k {
            let i = choose|i: int| 0 <= i < es.len() && (#[trigger] es[i]).0 == k;
            if i < es.len() - 1 {
                assert(init[i] == es[i]);
            }
        }
    }
}

pub proof fn lemma_fold_value(es: Seq<EntryView>, i: int)
    requires
        keys_unique(es),
        0 <= i < es.len(),
    ensures
        fold_entries(es).dom().contains(es[i].0),
        fold_entries(es)[es[i].0] == es[i].1,
    decreases es.len(),
{
    let init = es.drop_last();
    if i < es.len() - 1 {
        assert(init[i] == es[i]);
        assert(keys_unique(init)) by {
            assert forall|a: int, b: int| 0 <= a < b < init.len() implies (#[trigger] init[a]).0
                != (#[trigger] init[b]).0 by {
                assert(init[a] == es[a] && init[b] == es[b]);
            }
        }
        lemma_fold_value(init, i);
        assert(es[i].0 != es[es.len() - 1].0);
    }
}

pub proof fn lemma_fold_len(es: Seq<EntryView>)
    requires
        keys_unique(es),
    ensures
        fold_entries(es).dom().finite(),
        fold_entries(es).dom().len() == es.len(),
    decreases es.len(),
{
    if es.len() > 0 {
        let init = es.drop_last();
        assert(keys_unique(init)) by {
            assert forall|a: int, b: int| 0 <= a < b < init.len() implies (#[trigger] init[a]).0
                != (#[trigger] init[b]).0 by {
                assert(init[a] == es[a] && init[b] == es[b]);
            }
        }
        lemma_fold_len(init);
        lemma_fold_dom(init, es.last().0);
        if fold_entries(init).dom().contains(es.last().0) {
            let i = choose|i: int| 0 <= i < init.len() && (#[trigger] init[i]).0 == es.last().0;
            assert(es[i] == init[i]);
        }
        vstd::set::axiom_set_insert_len(fold_entries(init).dom(), es.last().0);
    }
}

pub proof fn lemma_fold_update(es: Seq<EntryView>, j: int, v: ChecksumView)
    requires
        keys_unique(es),
        0 <= j < es.len(),
    ensures
        keys_unique(es.update(j, (es[j].0, v))),
        fold_entries(es.update(j, (es[j].0, v))) == fold_entries(es).insert(es[j].0, v),
{
    let k = es[j].0;
    let es2 = es.update(j, (k, v));
    assert(keys_unique(es2)) by {
        assert forall|a: int, b: int| 0 <= a < b < es2.len() implies (#[trigger] es2[a]).0 != (
        #[trigger] es2[b]).0 by {
            assert(es2[a].0 == es[a].0 && es2[b].0 == es[b].0);
        }
    }
    let m1 = fold_entries(es2);
    let m2 = fold_entries(es).insert(k, v);
    assert forall|key: Seq<char>| m1.dom().contains(key) <==> m2.dom().contains(key) by {
        lemma_fold_dom(es2, key);
        lemma_fold_dom(es, key);
        if exists|i: int| 0 <= i < es.len() && (#[trigger] es[i]).0 == key {
            let i = choose|i: int| 0 <= i < es.len() && (#[trigger] es[i]).0 == key;
            assert(es2[i].0 == key);
        }
        if exists|i: int| 0 <= i < es2.len() && (#[trigger] es2[i]).0 == key {
            let i = choose|i: int| 0 <= i < es2.len() && (#[trigger] es2[i]).0 == key;
            assert(es[i].0 == key);
        }
    }
    assert forall|key: Seq<char>| m1.dom().contains(key) implies m1[key] == m2[key] by {
        lemma_fold_dom(es2, key);
        let i = choose|i: int| 0 <= i < es2.len() && (#[trigger] es2[i]).0 == key;
        lemma_fold_value(es2, i);
        if i != j {
            assert(es2[i] == es[i]);
            lemma_fold_value(es, i);
        }
    }
    assert(m1 =~= m2);
}

/// The artifacts of a manifest: each path once, with its checksum, in the
/// order the paths were first inserted.
#[derive(Debug, PartialEq, Eq)]
pub struct ArtifactMap {
    entries: Vec<(String, Checksum)>,
}

impl ArtifactMap {
    /// The entries as values, in order.
    pub closed spec fn entries_view(&self) -> Seq<EntryView> {
        self.entries@.map_values(|e: (String, Checksum)| (e.0@, e.1@))
    }

    #[verifier::type_invariant]
    closed spec fn paths_unique(&self) -> bool {
        keys_unique(self.entries_view())
    }

    /// The map holds the `i`-th entry's checksum for its path.
    pub proof fn lemma_view_entry(&self, i: int)
        requires
            0 <= i < self.entries_view().len(),
            keys_unique(self.entries_view()),
        ensures
            self@.dom().contains(self.entries_view()[i].0),
            self@[self.entries_view()[i].0] == self.entries_view()[i].1,
    {
        lemma_fold_value(self.entries_view(), i);
    }

    /// A path of the map is the path of some entry.
    pub proof fn lemma_key_entry(&self, p: Seq<char>) -> (i: int)
        requires
            self@.dom().contains(p),
            keys_unique(self.entries_view()),
        ensures
            0 <= i < self.entries_view().len(),
            self.entries_view()[i].0 == p,
            self@[p] == self.entries_view()[i].1,
    {
        lemma_fold_dom(self.entries_view(), p);
        let i = choose|i: int| 0 <= i < self.entries_view().len() && (#[trigger] self.entries_view()[i]).0 == p;
        lemma_fold_value(self.entries_view(), i);
        i
    }

    /// Every map's paths are unique among its entries.
    pub fn paths_are_unique(&self)
        ensures
            keys_unique(self.entries_view()),
    {
        proof {
            use_type_invariant(self);
        }
    }

    /// An empty map.
    pub fn new() -> (r: ArtifactMap)
        ensures
            r.entries_view() == Seq::<EntryView>::empty(),
            r@ == Map::<Seq<char>, ChecksumView>::empty(),
    {
        let r = ArtifactMap { entries: Vec::new() };
        proof {
            assert(r.entries_view() =~= Seq::<EntryView>::empty());
        }
        r
    }

    /// The number of artifacts.
    pub fn len(&self) -> (r: usize)
        ensures
            r == self@.dom().len(),
            r == self.entries_view().len(),
    {
        proof {
            use_type_invariant(self);
            lemma_fold_len(self.entries_view());
        }
        self.entries.len()
    }

    /// Whether there are no artifacts.
    pub fn is_empty(&self) -> (r: bool)
        ensures
            r == (self@.dom().len() == 0),
    {
        self.len() == 0
    }

    /// The path and checksum of the `i`-th entry.
    pub fn entry(&self, i: usize) -> (r: (&String, &Checksum))
        requires
            i < self.entries_view().len(),
        ensures
            (r.0@, r.1@) == self.entries_view()[i as int],
    {
        let e = &self.entries[i];
        (&e.0, &e.1)
    }

    /// The position of the entry for `path`, if there is one.
    fn position(&self, path: &str) -> (r: Option<usize>)
        ensures
            match r {
                Some(i) => i < self.entries_view().len() && self.entries_view()[i as int].0 == path@,
                None => !self@.dom().contains(path@),
            },
    {
        proof {
            use_type_invariant(self);
            lemma_fold_len(self.entries_view());
        }
        let key = String::from_str(path);
        let mut i: usize = 0;
        while i < self.entries.len()
            invariant
                i <= self.entries@.len(),
                key@ == path@,
                forall|k: int| 0 <= k < i ==> (#[trigger] self.entries_view()[k]).0 != path@,
            decreases self.entries@.len() - i,
        {
            if self.entries[i].0 == key {
                proof {
                    assert(self.entries_view()[i as int].0 == self.entries@[i as int].0@);
                }
                return Some(i);
            }
            proof {
                assert(self.entries_view()[i as int].0 == self.entries@[i as int].0@);
            }
            i = i + 1;
        }
        proof {
            lemma_fold_dom(self.entries_view(), path@);
        }
        None
    }

    /// Whether `path` has a checksum.
    pub fn contains_key(&self, path: &str) -> (r: bool)
        ensures
            r == self@.dom().contains(path@),
    {
        match self.position(path) {
            Some(i) => {
                proof {
                    use_type_invariant(self);
            lemma_fold_len(self.entries_view());
                    lemma_fold_value(self.entries_view(), i as int);
                }
                true
            },
            None => false,
        }
    }

    /// The checksum of `path`, if it has one.
    pub fn get(&self, path: &str) -> (r: Option<&Checksum>)
        ensures
            r is Some <==> self@.dom().contains(path@),
            r matches Some(c) ==> c@ == self@[path@],
    {
        match self.position(path) {
            Some(i) => {
                proof {
                    use_type_invariant(self);
            lemma_fold_len(self.entries_view());
                    lemma_fold_value(self.entries_view(), i as int);
                }
                Some(&self.entries[i].1)
            },
            None => None,
        }
    }

    /// Sets the checksum of `path`: an existing entry keeps its place, a new
    /// path goes last.
    pub fn insert(&mut self, path: String, checksum: Checksum)
        ensures
            final(self)@ == old(self)@.insert(path@, checksum@),
            !old(self)@.dom().contains(path@) ==> final(self).entries_view() == old(
                self,
            ).entries_view().push((path@, checksum@)),
            old(self)@.dom().contains(path@) ==> exists|j: int|
                0 <= j < old(self).entries_view().len() && (#[trigger] old(self).entries_view()[j]).0
                    == path@ && final(self).entries_view() == old(self).entries_view().update(
                    j,
                    (path@, checksum@),
                ),
    {
        proof {
            use_type_invariant(&*self);
            lemma_fold_len(self.entries_view());
        }
        let ghost old_es = self.entries_view();
        let pos = self.position(path.as_str());
        let mut es: Vec<(String, Checksum)> = Vec::new();
        std::mem::swap(&mut es, &mut self.entries);
        proof {
            assert(es@.map_values(|e: (String, Checksum)| (e.0@, e.1@)) == old_es);
        }
        match pos {
            Some(j) => {
                let ghost cv = checksum@;
                es.set(j, (path, checksum));
                proof {
                    assert(es@.map_values(|e: (String, Checksum)| (e.0@, e.1@)) =~= old_es.update(
                        j as int,
                        (old_es[j as int].0, cv),
                    ));
                    lemma_fold_update(old_es, j as int, cv);
                    lemma_fold_value(old_es, j as int);
                    assert(old_es[j as int].0 == path@);
                }
                self.entries = es;
            },
            None => {
                let ghost pv = path@;
                let ghost cv = checksum@;
                es.push((path, checksum));
                proof {
                    assert(es@.map_values(|e: (String, Checksum)| (e.0@, e.1@)) =~= old_es.push(
                        (pv, cv),
                    ));
                    lemma_fold_dom(old_es, pv);
                    let es2 = old_es.push((pv, cv));
                    assert(keys_unique(es2)) by {
                        assert forall|a: int, b: int| 0 <= a < b < es2.len() implies (
                        #[trigger] es2[a]).0 != (#[trigger] es2[b]).0 by {
                            if b == es2.len() - 1 {
                                assert(es2[a] == old_es[a]);
                            } else {
                                assert(es2[a] == old_es[a] && es2[b] == old_es[b]);
                            }
                        }
                    }
                    assert(es2.drop_last() =~= old_es);
                }
                self.entries = es;
            },
        }
    }
}

impl View for ArtifactMap {
    type V = Map<Seq<char>, ChecksumView>;

    open spec fn view(&self) -> Map<Seq<char>, ChecksumView> {
        fold_entries(self.entries_view())
    }
}


/// A manifest: an optional version and the artifacts with their checksums.
#[derive(Debug)]
pub struct Manifest {
    /// The version of the manifest file, when it gives one.
    pub version: Option<u8>,
    /// The paths of the artifacts and their checksums.
    pub artifacts: ArtifactMap,
}

/// The errors of manifest operations.
#[derive(Debug, Clone, PartialEq, Eq)]
pub enum ManifestError {
    /// Reading or writing the manifest failed.
    IoError(IoFailure),
    /// A checksum in the manifest could not be read.
    ChecksumError(ChecksumError),
}

/// What one line of a manifest contributes.
pub enum LineOutcome {
    /// Nothing: a blank line, a comment, or a line that is not two words.
    Skip,
    /// A path and its checksum.
    Entry(Seq<char>, ChecksumView),
    /// A checksum that cannot be read, which fails the whole manifest.
    Fail(ChecksumErrorView),
}

/// The mode a manifest line records: text when it holds two spaces in a row.
pub open spec fn line_mode(l: Seq<char>) -> ChecksumMode {
    if has_double_space(l) {
        ChecksumMode::Text
    } else {
        ChecksumMode::Binary
    }
}

/// `s` without its leading `*` characters.
pub open spec fn drop_leading_stars(s: Seq<char>) -> Seq<char>
    decreases s.len(),
{
    if s.len() > 0 && s[0] == '*' {
        drop_leading_stars(s.drop_first())
    } else {
        s
    }
}

/// What a line contributes to a manifest of format `f`: blank lines and lines
/// starting with `#` are skipped, as are lines that are not exactly two words.
/// In artsum the first word is a checksum and the second the path; in the
/// other formats the first word is the digest and the second the path, without
/// the `*` that marks binary files.
pub open spec fn line_outcome(f: ManifestFormat, l: Seq<char>) -> LineOutcome {
    if l.len() == 0 || l[0] == '#' {
        LineOutcome::Skip
    } else {
        let words = split_ws(l);
        if words.len() != 2 {
            LineOutcome::Skip
        } else {
            match format_algorithm(f) {
                None => match parse_checksum(words[0]) {
                    Ok(c) => LineOutcome::Entry(
                        words[1],
                        ChecksumView { mode: line_mode(l), algorithm: c.algorithm, digest: c.digest },
                    ),
                    Err(e) => LineOutcome::Fail(e),
                },
                Some(a) => LineOutcome::Entry(
                    drop_leading_stars(words[1]),
                    ChecksumView { mode: line_mode(l), algorithm: a, digest: words[0] },
                ),
            }
        }
    }
}

/// The artifacts that lines give, a later line for a path replacing an earlier
/// one, or the error of the first line that fails.
pub open spec fn parse_lines(f: ManifestFormat, ls: Seq<Seq<char>>) -> Result<
    Map<Seq<char>, ChecksumView>,
    ChecksumErrorView,
>
    decreases ls.len(),
{
    if ls.len() == 0 {
        Ok(Map::empty())
    } else {
        match parse_lines(f, ls.drop_last()) {
            Err(e) => Err(e),
            Ok(m) => match line_outcome(f, ls.last()) {
                LineOutcome::Skip => Ok(m),
                LineOutcome::Entry(p, c) => Ok(m.insert(p, c)),
                LineOutcome::Fail(e) => Err(e),
            },
        }
    }
}

/// The artifacts a manifest text of format `f` holds.
pub open spec fn parse_manifest(f: ManifestFormat, s: Seq<char>) -> Result<
    Map<Seq<char>, ChecksumView>,
    ChecksumErrorView,
> {
    parse_lines(f, text_lines(s))
}

/// What separates a line's checksum from its path: two spaces in text mode, one otherwise.
pub open spec fn separator(m: ChecksumMode) -> Seq<char> {
    if m == ChecksumMode::Text {
        seq![' ', ' ']
    } else {
        seq![' ']
    }
}

/// The line of a manifest of format `f` for one artifact.
pub open spec fn render_line(f: ManifestFormat, e: EntryView) -> Seq<char> {
    match format_algorithm(f) {
        None => render_checksum(e.1) + separator(e.1.mode) + e.0,
        Some(_) => e.1.digest + separator(e.1.mode) + e.0,
    }
}

/// Lines joined by `\n`, with none after the last.
pub open spec fn join_lines(ls: Seq<Seq<char>>) -> Seq<char>
    decreases ls.len(),
{
    if ls.len() == 0 {
        Seq::empty()
    } else if ls.len() == 1 {
        ls[0]
    } else {
        join_lines(ls.drop_last()) + seq!['\n'] + ls.last()
    }
}

/// The lines of the artifacts `es` in format `f`.
pub open spec fn render_lines(f: ManifestFormat, es: Seq<EntryView>) -> Seq<Seq<char>> {
    es.map_values(|e: EntryView| render_line(f, e))
}

/// The text of a manifest of format `f` holding the artifacts `es`, in order.
pub open spec fn render_manifest(f: ManifestFormat, es: Seq<EntryView>) -> Seq<char> {
    join_lines(render_lines(f, es))
}

pub proof fn lemma_parse_lines_error(f: ManifestFormat, ls: Seq<Seq<char>>, k: int)
    requires
        0 <= k <= ls.len(),
        parse_lines(f, ls.take(k)) is Err,
    ensures
        parse_lines(f, ls) == parse_lines(f, ls.take(k)),
    decreases ls.len() - k,
{
    if k == ls.len() {
        assert(ls.take(k) =~= ls);
    } else {
        assert(ls.take(k + 1).drop_last() =~= ls.take(k));
        lemma_parse_lines_error(f, ls, k + 1);
    }
}

/// The position after the `*` characters that start `cs[from..to]`.
fn skip_stars(cs: &Vec<char>, from: usize, to: usize) -> (r: usize)
    requires
        from <= to <= cs@.len(),
    ensures
        from <= r <= to,
        cs@.subrange(r as int, to as int) == drop_leading_stars(cs@.subrange(from as int, to as int)),
{
    let mut j: usize = from;
    while j < to && cs[j] == '*'
        invariant
            from <= j <= to <= cs@.len(),
            drop_leading_stars(cs@.subrange(from as int, to as int)) == drop_leading_stars(
                cs@.subrange(j as int, to as int),
            ),
        decreases to - j,
    {
        proof {
            assert(cs@.subrange(j as int, to as int).drop_first() =~= cs@.subrange(j + 1, to as int));
        }
        j = j + 1;
    }
    j
}

/// Reads a manifest of format `format` from its text.
#[verifier::rlimit(40)]
pub fn parse_manifest_str(format: ManifestFormat, data: &str) -> (r: Result<Manifest, ManifestError>)
    ensures
        match parse_manifest(format, data@) {
            Ok(m) => r matches Ok(man) && man.artifacts@ == m && man.version is None,
            Err(e) => r matches Err(ManifestError::ChecksumError(ce)) && ce@ == e,
        },
{
    let cs = chars_of(data);
    let spans = line_spans(&cs);
    let ghost lines = text_lines(cs@);
    let mut artifacts = ArtifactMap::new();
    let mut i: usize = 0;
    proof {
        assert(lines.take(0) =~= Seq::<Seq<char>>::empty());
    }
    while i < spans.len()
        invariant
            i <= spans@.len(),
            cs@ == data@,
            lines == text_lines(cs@),
            spans_of(cs@, spans@) == lines,
            crate::text::spans_within(spans@, cs@.len()),
            parse_lines(format, lines.take(i as int)) == Ok::<
                Map<Seq<char>, ChecksumView>,
                ChecksumErrorView,
            >(artifacts@),
        decreases spans@.len() - i,
    {
        let (a, b) = spans[i];
        let ghost l = cs@.subrange(a as int, b as int);
        proof {
            assert(lines[i as int] == l);
            assert(lines.take(i + 1).drop_last() =~= lines.take(i as int));
            assert(lines.take(i + 1).last() == l);
        }
        if a == b || cs[a] == '#' {
            i = i + 1;
            continue;
        }
        let words = word_spans(&cs, a, b);
        if words.len() != 2 {
            i = i + 1;
            continue;
        }
        let mode = if contains_double_space(&cs, a, b) {
            ChecksumMode::Text
        } else {
            ChecksumMode::Binary
        };
        let (w0a, w0b) = words[0];
        let (w1a, w1b) = words[1];
        proof {
            assert(split_ws(l)[0] == cs@.subrange(w0a as int, w0b as int));
            assert(split_ws(l)[1] == cs@.subrange(w1a as int, w1b as int));
        }
        match format.algorithm() {
            None => match Checksum::from_chars(&cs, w0a, w0b) {
                Err(e) => {
                    proof {
                        lemma_parse_lines_error(format, lines, i + 1);
                    }
                    return Err(ManifestError::ChecksumError(e));
                },
                Ok(c) => {
                    let path = string_of(&cs, w1a, w1b);
                    artifacts.insert(path, Checksum { mode, algorithm: c.algorithm, digest: c.digest });
                },
            },
            Some(algorithm) => {
                let start = skip_stars(&cs, w1a, w1b);
                let path = string_of(&cs, start, w1b);
                let digest = string_of(&cs, w0a, w0b);
                artifacts.insert(path, Checksum { mode, algorithm, digest });
            },
        }
        i = i + 1;
    }
    proof {
        assert(lines.take(i as int) =~= lines);
    }
    Ok(Manifest { version: None, artifacts })
}


/// Appends the line of one artifact in format `format` to `out`.
fn push_line(format: ManifestFormat, path: &String, checksum: &Checksum, out: &mut String)
    ensures
        final(out)@ == old(out)@ + render_line(format, (path@, checksum@)),
{
    match format.algorithm() {
        None => {
            let c = checksum.to_string();
            out.append(c.as_str());
        },
        Some(_) => {
            out.append(checksum.digest.as_str());
        },
    }
    if checksum.mode == ChecksumMode::Text {
        out.append("  ");
    } else {
        out.append(" ");
    }
    out.append(path.as_str());
    proof {
        reveal_strlit("  ");
        reveal_strlit(" ");
        assert(final(out)@ =~= old(out)@ + render_line(format, (path@, checksum@)));
    }
}

/// Writes the artifacts in format `format`: one line per artifact, in order,
/// joined by `\n`.
pub fn manifest_to_string(format: ManifestFormat, artifacts: &ArtifactMap) -> (r: String)
    ensures
        r@ == render_manifest(format, artifacts.entries_view()),
{
    let ghost es = artifacts.entries_view();
    let ghost ls = render_lines(format, es);
    let n = artifacts.len();
    let mut out = String::new();
    let mut i: usize = 0;
    while i < n
        invariant
            i <= n,
            n == es.len(),
            es == artifacts.entries_view(),
            ls == render_lines(format, es),
            out@ == join_lines(ls.take(i as int)),
        decreases n - i,
    {
        let (path, checksum) = artifacts.entry(i);
        let ghost before = out@;
        if i > 0 {
            out.append("\n");
            proof {
                reveal_strlit("\n");
            }
        }
        push_line(format, path, checksum, &mut out);
        proof {
            assert(ls[i as int] == render_line(format, es[i as int]));
            let t = ls.take(i + 1);
            assert(t.drop_last() =~= ls.take(i as int));
            if i == 0 {
                assert(before =~= Seq::<char>::empty());
                assert(out@ =~= t[0]);
            } else {
                assert(out@ =~= join_lines(t.drop_last()) + seq!['\n'] + t.last());
            }
        }
        i = i + 1;
    }
    proof {
        assert(ls.take(n as int) =~= ls);
    }
    out
}

/// Writes the artifacts in one of the digest-only formats: the digest, the
/// separator of the mode, and the path, one line per artifact.
pub fn standard_to_string(manifest: &Manifest) -> (r: String)
    ensures
        r@ == render_manifest(ManifestFormat::MD5SUM, manifest.artifacts.entries_view()),
{
    manifest_to_string(ManifestFormat::MD5SUM, &manifest.artifacts)
}


/// Whether no character of `s` is whitespace.
pub open spec fn no_ws(s: Seq<char>) -> bool {
    forall|k: int| 0 <= k < s.len() ==> !is_ws(#[trigger] s[k])
}

/// Whether an artifact's line reads back as that artifact: the path is one
/// non-empty word, the digest holds no whitespace, and
/// - in artsum, a binary-mode digest holds no `;`;
/// - in the other formats, the checksum uses the format's algorithm, the digest
///   is non-empty and does not start with `#`, and the path does not start with `*`.
pub open spec fn entry_renderable(f: ManifestFormat, e: EntryView) -> bool {
    &&& e.0.len() > 0
    &&& no_ws(e.0)
    &&& no_ws(e.1.digest)
    &&& match format_algorithm(f) {
        None => e.1.mode == ChecksumMode::Text || !e.1.digest.contains(';'),
        Some(a) => e.1.algorithm == a && e.1.digest.len() > 0 && e.1.digest[0] != '#' && e.0[0]
            != '*',
    }
}

proof fn lemma_split_append(a: Seq<char>, b: Seq<char>)
    requires
        a.len() > 0,
        a.last() != '\n',
        a.last() != '\r',
    ensures
        text_lines(a + seq!['\n'] + b) == text_lines(a) + text_lines(b),
    decreases a.len(),
{
    let s = a + seq!['\n'] + b;
    crate::text::lemma_count_until(a, '\n');
    let i = crate::text::count_until(a, '\n');
    if i == a.len() {
        lemma_count_until_is(s, '\n', a.len() as int);
        assert(s.take(a.len() as int) =~= a);
        assert(s.skip(a.len() as int + 1) =~= b);
        assert(text_lines(a) =~= seq![a]);
    } else {
        assert(i < a.len() - 1);
        lemma_count_until_is(s, '\n', i as int);
        assert(s.take(i as int) =~= a.take(i as int));
        let a2 = a.skip(i as int + 1);
        assert(s.skip(i as int + 1) =~= a2 + seq!['\n'] + b);
        assert(a2.last() == a.last());
        lemma_split_append(a2, b);
        assert(text_lines(a) == seq![if i > 0 && a.take(i as int).last() == '\r' {
            a.take(i as int).drop_last()
        } else {
            a.take(i as int)
        }] + text_lines(a2));
        assert(text_lines(s) =~= text_lines(a) + text_lines(b));
    }
}

proof fn lemma_join_last(ls: Seq<Seq<char>>)
    requires
        ls.len() > 0,
        forall|i: int| 0 <= i < ls.len() ==> (#[trigger] ls[i]).len() > 0,
    ensures
        join_lines(ls).len() > 0,
        join_lines(ls).last() == ls.last().last(),
    decreases ls.len(),
{
    if ls.len() > 1 {
        lemma_join_last(ls.drop_last());
    }
}

/// A line with no `\n` is a text of one line.
proof fn lemma_single_line(l: Seq<char>)
    requires
        l.len() > 0,
        forall|k: int| 0 <= k < l.len() ==> l[k] != '\n',
    ensures
        text_lines(l) == seq![l],
{
    lemma_count_until_is(l, '\n', l.len() as int);
}

/// Joining non-empty lines that hold no `\n` and do not end in `\r`, then
/// splitting the text into lines, gives the lines back.
pub proof fn lemma_join_split(ls: Seq<Seq<char>>)
    requires
        forall|i: int| 0 <= i < ls.len() ==> (#[trigger] ls[i]).len() > 0,
        forall|i: int, k: int| 0 <= i < ls.len() && 0 <= k < ls[i].len() ==> (#[trigger] ls[i][k]) != '\n',
        forall|i: int| 0 <= i < ls.len() ==> (#[trigger] ls[i]).last() != '\r',
    ensures
        text_lines(join_lines(ls)) == ls,
    decreases ls.len(),
{
    if ls.len() == 0 {
        assert(text_lines(Seq::<char>::empty()) =~= ls);
    } else if ls.len() == 1 {
        assert(ls[0].len() > 0);
        assert forall|k: int| 0 <= k < ls[0].len() implies ls[0][k] != '\n' by {
            assert(ls[0][k] != '\n');
        }
        lemma_single_line(ls[0]);
        assert(text_lines(join_lines(ls)) =~= ls);
    } else {
        let init = ls.drop_last();
        let last = ls.last();
        assert forall|i: int| 0 <= i < init.len() implies (#[trigger] init[i]).len() > 0 by {
            assert(init[i] == ls[i]);
        }
        assert forall|i: int, k: int| 0 <= i < init.len() && 0 <= k < init[i].len() implies (
        #[trigger] init[i][k]) != '\n' by {
            assert(init[i] == ls[i]);
        }
        assert forall|i: int| 0 <= i < init.len() implies (#[trigger] init[i]).last() != '\r' by {
            assert(init[i] == ls[i]);
        }
        lemma_join_split(init);
        lemma_join_last(init);
        let li = init.last();
        assert(li == ls[ls.len() - 2]);
        assert(li[li.len() - 1] != '\n');
        assert(last == ls[ls.len() - 1]);
        assert forall|k: int| 0 <= k < last.len() implies last[k] != '\n' by {
            assert(ls[ls.len() - 1][k] != '\n');
        }
        lemma_single_line(last);
        lemma_split_append(join_lines(init), last);
        assert(text_lines(join_lines(ls)) =~= ls);
    }
}

proof fn lemma_split_ws_skip(sp: Seq<char>, b: Seq<char>)
    requires
        forall|k: int| 0 <= k < sp.len() ==> is_ws(#[trigger] sp[k]),
    ensures
        split_ws(sp + b) == split_ws(b),
    decreases sp.len(),
{
    if sp.len() > 0 {
        assert((sp + b)[0] == sp[0]);
        assert((sp + b).drop_first() =~= sp.drop_first() + b);
        lemma_split_ws_skip(sp.drop_first(), b);
    } else {
        assert(sp + b =~= b);
    }
}

proof fn lemma_split_ws_word(b: Seq<char>)
    requires
        b.len() > 0,
        no_ws(b),
    ensures
        split_ws(b) == seq![b],
{
    assert(!is_ws(b[0]));
    lemma_word_len_is(b, b.len() as int);
    assert(b.take(b.len() as int) =~= b);
    assert(b.skip(b.len() as int) =~= Seq::<char>::empty());
    assert(split_ws(Seq::<char>::empty()) =~= Seq::<Seq<char>>::empty());
    assert(split_ws(b) =~= seq![b]);
}

/// Two words with whitespace between them split into those two words.
pub proof fn lemma_split_ws_two(a: Seq<char>, sp: Seq<char>, b: Seq<char>)
    requires
        a.len() > 0,
        b.len() > 0,
        no_ws(a),
        no_ws(b),
        forall|k: int| 0 <= k < sp.len() ==> is_ws(#[trigger] sp[k]),
        sp.len() > 0,
    ensures
        split_ws(a + sp + b) == seq![a, b],
{
    let s = a + sp + b;
    assert(s[0] == a[0]);
    assert forall|j: int| 0 <= j < a.len() implies !is_ws(s[j]) by {
        assert(s[j] == a[j]);
    }
    assert(s[a.len() as int] == sp[0]);
    lemma_word_len_is(s, a.len() as int);
    assert(s.take(a.len() as int) =~= a);
    assert(s.skip(a.len() as int) =~= sp + b);
    lemma_split_ws_skip(sp, b);
    lemma_split_ws_word(b);
    assert(split_ws(s) =~= seq![a, b]);
}

/// The line of an artifact that reads back reads back as that artifact, and is
/// a non-empty line with no `\n` that does not end in `\r`.
pub proof fn lemma_line_round_trip(f: ManifestFormat, e: EntryView)
    requires
        entry_renderable(f, e),
    ensures
        line_outcome(f, render_line(f, e)) == LineOutcome::Entry(e.0, e.1),
        render_line(f, e).len() > 0,
        forall|k: int| 0 <= k < render_line(f, e).len() ==> (#[trigger] render_line(f, e)[k]) != '\n',
        render_line(f, e).last() != '\r',
{
    let c = e.1;
    let p = e.0;
    let sp = separator(c.mode);
    let first = match format_algorithm(f) {
        None => render_checksum(c),
        Some(_) => c.digest,
    };
    let l = render_line(f, e);
    assert(l =~= first + sp + p);
    lemma_algorithm_name(c.algorithm);
    let name = algorithm_name(c.algorithm);
    if format_algorithm(f) is None {
        let t = mode_name(ChecksumMode::Text);
        assert(no_ws(first)) by {
            assert forall|k: int| 0 <= k < first.len() implies !is_ws(#[trigger] first[k]) by {
                if c.mode == ChecksumMode::Text {
                    let pre = t + seq![';'] + name + seq![';'];
                    assert(first =~= pre + c.digest);
                    if k >= pre.len() {
                        assert(first[k] == c.digest[k - pre.len()]);
                    } else if k > 4 && k < 5 + name.len() {
                        assert(first[k] == name[k - 5]);
                    }
                } else {
                    let pre = name + seq![';'];
                    assert(first =~= pre + c.digest);
                    if k >= pre.len() {
                        assert(first[k] == c.digest[k - pre.len()]);
                    } else if k < name.len() {
                        assert(first[k] == name[k]);
                    }
                }
            }
        }
        assert(first.len() > 0 && first[0] != '#') by {
            if c.mode != ChecksumMode::Text {
                assert(first[0] == name[0]);
            }
        }
        lemma_checksum_round_trip(c);
    }
    assert(l[0] == first[0]);
    assert(forall|k: int| 0 <= k < sp.len() ==> is_ws(#[trigger] sp[k]) && sp[k] == ' ');
    lemma_split_ws_two(first, sp, p);
    assert forall|k: int| 0 <= k < l.len() && !(first.len() <= k < first.len() + sp.len()) implies !is_ws(#[trigger] l[k]) by {
        if k < first.len() {
            assert(l[k] == first[k]);
        } else {
            assert(l[k] == p[k - first.len() - sp.len()]);
        }
    }
    assert(line_mode(l) == c.mode) by {
        if c.mode == ChecksumMode::Text {
            assert(l[first.len() as int] == ' ' && l[first.len() as int + 1] == ' ');
        } else {
            if has_double_space(l) {
                let i = choose|i: int| 0 <= i && i + 1 < l.len() && l[i] == ' ' && #[trigger] l[i + 1] == ' ';
                if i != first.len() {
                    assert(!is_ws(l[i]));
                } else {
                    assert(!is_ws(l[i + 1]));
                }
            }
        }
    }
    assert forall|k: int| 0 <= k < l.len() implies (#[trigger] l[k]) != '\n' by {
        if first.len() <= k < first.len() + sp.len() {
            assert(l[k] == ' ');
        } else {
            assert(!is_ws(l[k]));
        }
    }
    assert(l.last() == p.last());
    assert(!is_ws(p[p.len() - 1]));
    if format_algorithm(f) is Some {
        assert(drop_leading_stars(p) == p);
    }
}

/// Parsing the lines of artifacts that read back gives the map of those artifacts.
proof fn lemma_parse_rendered(f: ManifestFormat, es: Seq<EntryView>)
    requires
        forall|i: int| 0 <= i < es.len() ==> entry_renderable(f, #[trigger] es[i]),
    ensures
        parse_lines(f, render_lines(f, es)) == Ok::<Map<Seq<char>, ChecksumView>, ChecksumErrorView>(
            fold_entries(es),
        ),
    decreases es.len(),
{
    if es.len() > 0 {
        let init = es.drop_last();
        assert forall|i: int| 0 <= i < init.len() implies entry_renderable(f, #[trigger] init[i]) by {
            assert(init[i] == es[i]);
        }
        lemma_parse_rendered(f, init);
        assert(render_lines(f, es).drop_last() =~= render_lines(f, init));
        assert(entry_renderable(f, es[es.len() - 1]));
        lemma_line_round_trip(f, es.last());
    }
}

/// Reading back the text of a manifest gives its artifacts, whenever each
/// artifact's line reads back (see `entry_renderable`).
pub proof fn lemma_manifest_round_trip(f: ManifestFormat, es: Seq<EntryView>)
    requires
        forall|i: int| 0 <= i < es.len() ==> entry_renderable(f, #[trigger] es[i]),
    ensures
        parse_manifest(f, render_manifest(f, es)) == Ok::<
            Map<Seq<char>, ChecksumView>,
            ChecksumErrorView,
        >(fold_entries(es)),
{
    let ls = render_lines(f, es);
    assert forall|i: int| 0 <= i < ls.len() implies (#[trigger] ls[i]).len() > 0 && ls[i].last() != '\r' by {
        lemma_line_round_trip(f, es[i]);
    }
    assert forall|i: int, k: int| 0 <= i < ls.len() && 0 <= k < ls[i].len() implies (
    #[trigger] ls[i][k]) != '\n' by {
        lemma_line_round_trip(f, es[i]);
        assert(render_line(f, es[i])[k] != '\n');
    }
    lemma_join_split(ls);
    lemma_parse_rendered(f, es);
}

/// Writing a manifest's artifacts and reading the text back gives the same
/// artifacts, whenever each artifact's line reads back.
pub proof fn lemma_write_then_read(f: ManifestFormat, artifacts: &ArtifactMap)
    requires
        forall|i: int|
            0 <= i < artifacts.entries_view().len() ==> entry_renderable(
                f,
                #[trigger] artifacts.entries_view()[i],
            ),
    ensures
        parse_manifest(f, render_manifest(f, artifacts.entries_view())) == Ok::<
            Map<Seq<char>, ChecksumView>,
            ChecksumErrorView,
        >(artifacts@),
{
    lemma_manifest_round_trip(f, artifacts.entries_view());
}


/// A comment line (one that starts with `#`) contributes nothing: reading
/// lines with a comment line put anywhere among them gives what reading them
/// without it gives, in every format.
pub proof fn lemma_comment_line_ignored(
    f: ManifestFormat,
    before: Seq<Seq<char>>,
    l: Seq<char>,
    after: Seq<Seq<char>>,
)
    requires
        l.len() > 0,
        l[0] == '#',
    ensures
        parse_lines(f, before + seq![l] + after) == parse_lines(f, before + after),
    decreases after.len(),
{
    let with = before + seq![l] + after;
    let without = before + after;
    if after.len() == 0 {
        assert(with.drop_last() =~= before);
        assert(with.last() == l);
        assert(without =~= before);
    } else {
        lemma_comment_line_ignored(f, before, l, after.drop_last());
        assert(with.drop_last() =~= before + seq![l] + after.drop_last());
        assert(without.drop_last() =~= before + after.drop_last());
        assert(with.last() == after.last());
        assert(without.last() == after.last());
    }
}

/// Adding a comment line at the end of a manifest's text changes nothing read
/// from it, in every format (the text before it must not end a line already).
pub proof fn lemma_comment_line_in_text(f: ManifestFormat, t: Seq<char>, l: Seq<char>)
    requires
        t.len() > 0,
        t.last() != '\n',
        t.last() != '\r',
        l.len() > 0,
        l[0] == '#',
        forall|k: int| 0 <= k < l.len() ==> l[k] != '\n',
    ensures
        parse_manifest(f, t + seq!['\n'] + l) == parse_manifest(f, t),
{
    lemma_split_append(t, l);
    lemma_single_line(l);
    lemma_comment_line_ignored(f, text_lines(t), l, Seq::empty());
    assert(text_lines(t) + seq![l] + Seq::<Seq<char>>::empty() =~= text_lines(t) + text_lines(l));
    assert(text_lines(t) + Seq::<Seq<char>>::empty() =~= text_lines(t));
}

/// Whether a file name matches one of the patterns of format `f`.
pub open spec fn name_matches(f: ManifestFormat, name: Seq<char>) -> bool {
    exists|i: int|
        0 <= i < format_patterns(f).len() && regex_match(#[trigger] format_patterns(f)[i], name)
            == Some(true)
}

/// Whether format `f` reads the file at `path`: its final component matches one
/// of the format's patterns.
pub open spec fn handles_path(f: ManifestFormat, path: Seq<char>) -> bool {
    match path_file_name(path) {
        Some(n) => name_matches(f, n),
        None => false,
    }
}

/// An entry of a directory: its name and whether it is a file.
#[derive(Debug, Clone)]
pub struct DirEntry {
    pub name: String,
    pub is_file: bool,
}

/// A directory entry as values.
pub open spec fn dir_entry_view(e: DirEntry) -> (Seq<char>, bool) {
    (e.name@, e.is_file)
}

/// The first entry name among `es` that format `f` reads.
pub open spec fn first_handled(f: ManifestFormat, es: Seq<(Seq<char>, bool)>) -> Option<Seq<char>>
    decreases es.len(),
{
    if es.len() == 0 {
        None
    } else if handles_path(f, es[0].0) {
        Some(es[0].0)
    } else {
        first_handled(f, es.drop_first())
    }
}

/// The manifest file of format `f` in a directory with entries `es`: the
/// format's default file when it is there as a file, else the first entry
/// that the format reads.
pub open spec fn manifest_in_dir(f: ManifestFormat, es: Seq<(Seq<char>, bool)>) -> Option<Seq<char>> {
    if exists|i: int| 0 <= i < es.len() && #[trigger] es[i] == (format_default_filename(f), true) {
        Some(format_default_filename(f))
    } else {
        first_handled(f, es)
    }
}

/// Whether format `f` reads the directory with entries `es`: it holds a
/// manifest file of the format, which the format reads.
pub open spec fn handles_dir(f: ManifestFormat, es: Seq<(Seq<char>, bool)>) -> bool {
    match manifest_in_dir(f, es) {
        Some(n) => handles_path(f, n),
        None => false,
    }
}

/// What `first_handled` finds: the first entry the format reads, if any.
proof fn lemma_first_handled(f: ManifestFormat, es: Seq<(Seq<char>, bool)>)
    ensures
        match first_handled(f, es) {
            Some(n) => exists|j: int|
                0 <= j < es.len() && (#[trigger] es[j]).0 == n && handles_path(f, n) && forall|k: int|
                    0 <= k < j ==> !handles_path(f, (#[trigger] es[k]).0),
            None => forall|k: int| 0 <= k < es.len() ==> !handles_path(f, (#[trigger] es[k]).0),
        },
    decreases es.len(),
{
    if es.len() > 0 && !handles_path(f, es[0].0) {
        let rest = es.drop_first();
        lemma_first_handled(f, rest);
        match first_handled(f, rest) {
            Some(n) => {
                let j = choose|j: int|
                    0 <= j < rest.len() && (#[trigger] rest[j]).0 == n && handles_path(f, n)
                        && forall|k: int| 0 <= k < j ==> !handles_path(f, (#[trigger] rest[k]).0);
                assert(es[j + 1] == rest[j]);
                assert forall|k: int| 0 <= k < j + 1 implies !handles_path(f, (#[trigger] es[k]).0) by {
                    if k > 0 {
                        assert(es[k] == rest[k - 1]);
                    }
                }
            },
            None => {
                assert forall|k: int| 0 <= k < es.len() implies !handles_path(f, (#[trigger] es[k]).0) by {
                    if k > 0 {
                        assert(es[k] == rest[k - 1]);
                    }
                }
            },
        }
    } else if es.len() > 0 {
        assert(es[0].0 == es[0].0);
    }
}

/// When a directory holds the format's default manifest file, that file is
/// the manifest found in it, whatever else the directory holds.
pub proof fn lemma_default_manifest_preferred(f: ManifestFormat, es: Seq<(Seq<char>, bool)>, i: int)
    requires
        0 <= i < es.len(),
        es[i] == (format_default_filename(f), true),
    ensures
        manifest_in_dir(f, es) == Some(format_default_filename(f)),
{
}

/// Without the default manifest file, the manifest found in a directory is its
/// first entry (in the order given) that the format reads, and none when the
/// format reads no entry.
pub proof fn lemma_manifest_in_dir_first(f: ManifestFormat, es: Seq<(Seq<char>, bool)>)
    requires
        forall|i: int| 0 <= i < es.len() ==> #[trigger] es[i] != (format_default_filename(f), true),
    ensures
        match manifest_in_dir(f, es) {
            Some(n) => exists|j: int|
                0 <= j < es.len() && (#[trigger] es[j]).0 == n && handles_path(f, n) && forall|k: int|
                    0 <= k < j ==> !handles_path(f, (#[trigger] es[k]).0),
            None => forall|k: int| 0 <= k < es.len() ==> !handles_path(f, (#[trigger] es[k]).0),
        },
{
    lemma_first_handled(f, es);
}

impl ManifestFormat {
    /// Whether the format reads the file at `filepath`.
    pub fn can_handle_filepath(&self, filepath: &str) -> (r: bool)
        ensures
            r == handles_path(*self, filepath@),
    {
        match file_name_of(filepath) {
            None => false,
            Some(name) => {
                let patterns = self.filename_patterns();
                let mut i: usize = 0;
                while i < patterns.len()
                    invariant
                        i <= patterns@.len(),
                        path_file_name(filepath@) == Some(name@),
                        patterns@.len() == format_patterns(*self).len(),
                        forall|k: int| 0 <= k < patterns@.len() ==> (#[trigger] patterns@[k])@ == format_patterns(*self)[k],
                        forall|k: int| 0 <= k < i ==> regex_match(#[trigger] format_patterns(*self)[k], name@) != Some(true),
                    decreases patterns@.len() - i,
                {
                    if regex_is_match(patterns[i], name.as_str()) == Some(true) {
                        proof {
                            assert(regex_match(format_patterns(*self)[i as int], name@) == Some(true));
                        }
                        return true;
                    }
                    i = i + 1;
                }
                false
            },
        }
    }

    /// The name of the manifest file of the format among the entries of a directory.
    pub fn find_manifest_filename(&self, entries: &Vec<DirEntry>) -> (r: Option<String>)
        ensures
            match manifest_in_dir(*self, entries@.map_values(|e: DirEntry| dir_entry_view(e))) {
                Some(n) => r matches Some(s) && s@ == n,
                None => r is None,
            },
            (exists|i: int|
                0 <= i < entries@.len() && (#[trigger] entries@[i]).is_file && entries@[i].name@
                    == format_default_filename(*self)) ==> r is Some && r->0@ == format_default_filename(
                *self,
            ),
            r is Some ==> exists|i: int|
                0 <= i < entries@.len() && (#[trigger] entries@[i]).name@ == r->0@,
    {
        let ghost es = entries@.map_values(|e: DirEntry| dir_entry_view(e));
        let default = self.default_filename();
        let default_string = String::from_str(default);
        let mut i: usize = 0;
        while i < entries.len()
            invariant
                i <= entries@.len(),
                es == entries@.map_values(|e: DirEntry| dir_entry_view(e)),
                default_string@ == format_default_filename(*self),
                forall|k: int| 0 <= k < i ==> #[trigger] es[k] != (format_default_filename(*self), true),
            decreases entries@.len() - i,
        {
            if entries[i].is_file && entries[i].name == default_string {
                proof {
                    assert(es[i as int] == (format_default_filename(*self), true));
                }
                return Some(default_string);
            }
            i = i + 1;
        }
        let mut j: usize = 0;
        proof {
            assert(es.skip(0) =~= es);
            assert forall|k: int| 0 <= k < entries@.len() implies !((#[trigger] entries@[k]).is_file
                && entries@[k].name@ == format_default_filename(*self)) by {
                assert(es[k] == dir_entry_view(entries@[k]));
            }
        }
        while j < entries.len()
            invariant
                j <= entries@.len(),
                es == entries@.map_values(|e: DirEntry| dir_entry_view(e)),
                forall|k: int| 0 <= k < entries@.len() ==> !((#[trigger] entries@[k]).is_file
                    && entries@[k].name@ == format_default_filename(*self)),
                !(exists|k: int| 0 <= k < es.len() && #[trigger] es[k] == (format_default_filename(*self), true)),
                first_handled(*self, es) == first_handled(*self, es.skip(j as int)),
            decreases entries@.len() - j,
        {
            proof {
                assert(es.skip(j as int)[0] == es[j as int]);
                assert(es.skip(j as int).drop_first() =~= es.skip(j + 1));
            }
            if self.can_handle_filepath(entries[j].name.as_str()) {
                return Some(entries[j].name.clone());
            }
            j = j + 1;
        }
        proof {
            assert(es.skip(j as int) =~= Seq::<(Seq<char>, bool)>::empty());
        }
        None
    }

    /// Whether the format reads a directory with these entries.
    pub fn can_handle_dirpath(&self, entries: &Vec<DirEntry>) -> (r: bool)
        ensures
            r == handles_dir(*self, entries@.map_values(|e: DirEntry| dir_entry_view(e))),
    {
        match self.find_manifest_filename(entries) {
            Some(name) => self.can_handle_filepath(name.as_str()),
            None => false,
        }
    }

    /// The path of the format's default manifest file in `dirpath`.
    pub fn build_manifest_filepath(&self, dirpath: &str) -> (r: String)
        ensures
            r@ == join_path(dirpath@, format_default_filename(*self)),
    {
        join(dirpath, self.default_filename())
    }
}


/// Where a manifest is read from: its file and its format.
#[derive(Debug, Clone)]
pub struct ManifestSource {
    /// The path of the manifest file.
    pub filepath: String,
    /// The format of the manifest file.
    pub format: ManifestFormat,
}

/// What the file system says of a path that may be a manifest or a directory
/// holding one.
#[derive(Debug, Clone)]
pub struct PathFacts {
    /// The path as given.
    pub path: String,
    /// The canonical form of the path, when it could be resolved.
    pub canonical: Option<String>,
    /// Whether the path is a file.
    pub is_file: bool,
    /// Whether the path is a directory.
    pub is_dir: bool,
    /// The entries of the directory, in name order, when it is one.
    pub entries: Vec<DirEntry>,
}

/// The manifest the path stands for, trying the formats `fs` in order: a file
/// the format reads, or a directory holding a manifest the format reads.
pub open spec fn source_among(
    path: Seq<char>,
    canonical: Seq<char>,
    is_file: bool,
    is_dir: bool,
    es: Seq<(Seq<char>, bool)>,
    fs: Seq<ManifestFormat>,
) -> Option<(Seq<char>, ManifestFormat)>
    decreases fs.len(),
{
    if fs.len() == 0 {
        None
    } else {
        let f = fs[0];
        if is_file && handles_path(f, path) {
            Some((canonical, f))
        } else if is_dir && handles_dir(f, es) {
            Some((join_path(canonical, manifest_in_dir(f, es)->0), f))
        } else {
            source_among(path, canonical, is_file, is_dir, es, fs.drop_first())
        }
    }
}

/// The manifest a path stands for, if any.
pub open spec fn manifest_source_of(
    path: Seq<char>,
    canonical: Option<Seq<char>>,
    is_file: bool,
    is_dir: bool,
    es: Seq<(Seq<char>, bool)>,
) -> Option<(Seq<char>, ManifestFormat)> {
    match canonical {
        None => None,
        Some(c) => source_among(path, c, is_file, is_dir, es, all_formats()),
    }
}

impl ManifestSource {
    /// The manifest that a path stands for: the formats are tried in order, and
    /// the first that reads the file, or a manifest in the directory, is taken.
    pub fn from_path(facts: &PathFacts) -> (r: Option<ManifestSource>)
        ensures
            match manifest_source_of(
                facts.path@,
                match facts.canonical {
                    Some(c) => Some(c@),
                    None => None,
                },
                facts.is_file,
                facts.is_dir,
                facts.entries@.map_values(|e: DirEntry| dir_entry_view(e)),
            ) {
                Some((p, f)) => r matches Some(src) && src.filepath@ == p && src.format == f,
                None => r is None,
            },
    {
        let canonical = match &facts.canonical {
            None => {
                return None;
            },
            Some(c) => c,
        };
        let ghost es = facts.entries@.map_values(|e: DirEntry| dir_entry_view(e));
        let formats = ManifestFormat::all();
        let mut k: usize = 0;
        proof {
            assert(all_formats().skip(0) =~= all_formats());
        }
        while k < formats.len()
            invariant
                k <= formats@.len(),
                formats@ == all_formats(),
                es == facts.entries@.map_values(|e: DirEntry| dir_entry_view(e)),
                facts.canonical == Some(*canonical),
                source_among(facts.path@, canonical@, facts.is_file, facts.is_dir, es, all_formats())
                    == source_among(
                    facts.path@,
                    canonical@,
                    facts.is_file,
                    facts.is_dir,
                    es,
                    all_formats().skip(k as int),
                ),
            decreases formats@.len() - k,
        {
            let f = formats[k];
            proof {
                assert(all_formats().skip(k as int)[0] == f);
                assert(all_formats().skip(k as int).drop_first() =~= all_formats().skip(k + 1));
            }
            if facts.is_file && f.can_handle_filepath(facts.path.as_str()) {
                return Some(ManifestSource { filepath: canonical.clone(), format: f });
            } else if facts.is_dir && f.can_handle_dirpath(&facts.entries) {
                match f.find_manifest_filename(&facts.entries) {
                    Some(name) => {
                        return Some(
                            ManifestSource {
                                filepath: join(canonical.as_str(), name.as_str()),
                                format: f,
                            },
                        );
                    },
                    None => {},
                }
            }
            k = k + 1;
        }
        proof {
            assert(all_formats().skip(k as int) =~= Seq::<ManifestFormat>::empty());
        }
        None
    }
}


/// A reader and writer of one manifest format.
pub trait ManifestParser {
    /// The format the parser reads and writes.
    spec fn parser_format(&self) -> ManifestFormat;

    /// The format the parser reads and writes.
    fn format(&self) -> (r: ManifestFormat)
        ensures
            r == self.parser_format(),
    ;

    /// The regular expressions that the file names of the format's manifests match.
    fn filename_patterns(&self) -> (r: Vec<&'static str>)
        ensures
            r@.len() == format_patterns(self.parser_format()).len(),
            forall|i: int|
                0 <= i < r@.len() ==> (#[trigger] r@[i])@ == format_patterns(self.parser_format())[i],
    {
        self.format().filename_patterns()
    }

    /// The file name a manifest is written to by default.
    fn default_filename(&self) -> (r: &'static str)
        ensures
            r@ == format_default_filename(self.parser_format()),
    {
        self.format().default_filename()
    }

    /// The algorithm every checksum uses, if the format fixes one.
    fn algorithm(&self) -> (r: Option<ChecksumAlgorithm>)
        ensures
            r == format_algorithm(self.parser_format()),
    {
        self.format().algorithm()
    }

    /// The path of the default manifest file in `dirpath`.
    fn build_manifest_filepath(&self, dirpath: &str) -> (r: String)
        ensures
            r@ == join_path(dirpath@, format_default_filename(self.parser_format())),
    {
        self.format().build_manifest_filepath(dirpath)
    }

    /// The name of the manifest file among the entries of a directory.
    fn find_manifest_filepath(&self, entries: &Vec<DirEntry>) -> (r: Option<String>)
        ensures
            match manifest_in_dir(
                self.parser_format(),
                entries@.map_values(|e: DirEntry| dir_entry_view(e)),
            ) {
                Some(n) => r matches Some(s) && s@ == n,
                None => r is None,
            },
    {
        self.format().find_manifest_filename(entries)
    }

    /// Whether the parser reads the file at `filepath`.
    fn can_handle_filepath(&self, filepath: &str) -> (r: bool)
        ensures
            r == handles_path(self.parser_format(), filepath@),
    {
        self.format().can_handle_filepath(filepath)
    }

    /// Whether the parser reads a directory with these entries.
    fn can_handle_dirpath(&self, entries: &Vec<DirEntry>) -> (r: bool)
        ensures
            r == handles_dir(self.parser_format(), entries@.map_values(|e: DirEntry| dir_entry_view(e))),
    {
        self.format().can_handle_dirpath(entries)
    }

    /// Reads a manifest from its text.
    fn parse_str(&self, data: &str) -> (r: Result<Manifest, ManifestError>)
        ensures
            match parse_manifest(self.parser_format(), data@) {
                Ok(m) => r matches Ok(man) && man.artifacts@ == m && man.version is None,
                Err(e) => r matches Err(ManifestError::ChecksumError(ce)) && ce@ == e,
            },
    {
        parse_manifest_str(self.format(), data)
    }

    /// Writes a manifest as text.
    fn to_string(&self, manifest: &Manifest) -> (r: Result<String, ManifestError>)
        ensures
            r matches Ok(s) && s@ == render_manifest(
                self.parser_format(),
                manifest.artifacts.entries_view(),
            ),
    {
        Ok(manifest_to_string(self.format(), &manifest.artifacts))
    }
}

/// The parser of artsum manifests.
pub struct ArtsumParser;

/// The parser of md5sum manifests.
pub struct MD5SUMParser;

/// The parser of sha1sum manifests.
pub struct SHA1SUMParser;

/// The parser of sha256sum manifests.
pub struct SHA256SUMParser;

/// The parser of sha512sum manifests.
pub struct SHA512SUMParser;

/// The parser of b2sum manifests.
pub struct B2SUMParser;

impl Default for ArtsumParser {
    fn default() -> (r: Self)
        ensures
            r.parser_format() == ManifestFormat::ARTSUM,
    {
        ArtsumParser
    }
}

impl Default for MD5SUMParser {
    fn default() -> (r: Self)
        ensures
            r.parser_format() == ManifestFormat::MD5SUM,
    {
        MD5SUMParser
    }
}

impl Default for SHA1SUMParser {
    fn default() -> (r: Self)
        ensures
            r.parser_format() == ManifestFormat::SHA1SUM,
    {
        SHA1SUMParser
    }
}

impl Default for SHA256SUMParser {
    fn default() -> (r: Self)
        ensures
            r.parser_format() == ManifestFormat::SHA256SUM,
    {
        SHA256SUMParser
    }
}

impl Default for SHA512SUMParser {
    fn default() -> (r: Self)
        ensures
            r.parser_format() == ManifestFormat::SHA512SUM,
    {
        SHA512SUMParser
    }
}

impl Default for B2SUMParser {
    fn default() -> (r: Self)
        ensures
            r.parser_format() == ManifestFormat::B2SUM,
    {
        B2SUMParser
    }
}

impl ManifestParser for ArtsumParser {
    open spec fn parser_format(&self) -> ManifestFormat {
        ManifestFormat::ARTSUM
    }

    fn format(&self) -> (r: ManifestFormat) {
        ManifestFormat::ARTSUM
    }
}

impl ManifestParser for MD5SUMParser {
    open spec fn parser_format(&self) -> ManifestFormat {
        ManifestFormat::MD5SUM
    }

    fn format(&self) -> (r: ManifestFormat) {
        ManifestFormat::MD5SUM
    }
}

impl ManifestParser for SHA1SUMParser {
    open spec fn parser_format(&self) -> ManifestFormat {
        ManifestFormat::SHA1SUM
    }

    fn format(&self) -> (r: ManifestFormat) {
        ManifestFormat::SHA1SUM
    }
}

impl ManifestParser for SHA256SUMParser {
    open spec fn parser_format(&self) -> ManifestFormat {
        ManifestFormat::SHA256SUM
    }

    fn format(&self) -> (r: ManifestFormat) {
        ManifestFormat::SHA256SUM
    }
}

impl ManifestParser for SHA512SUMParser {
    open spec fn parser_format(&self) -> ManifestFormat {
        ManifestFormat::SHA512SUM
    }

    fn format(&self) -> (r: ManifestFormat) {
        ManifestFormat::SHA512SUM
    }
}

impl ManifestParser for B2SUMParser {
    open spec fn parser_format(&self) -> ManifestFormat {
        ManifestFormat::B2SUM
    }

    fn format(&self) -> (r: ManifestFormat) {
        ManifestFormat::B2SUM
    }
}


/// The parser of a format.
pub enum FormatParser {
    Artsum(ArtsumParser),
    MD5SUM(MD5SUMParser),
    SHA1SUM(SHA1SUMParser),
    SHA256SUM(SHA256SUMParser),
    SHA512SUM(SHA512SUMParser),
    B2SUM(B2SUMParser),
}

impl ManifestParser for FormatParser {
    open spec fn parser_format(&self) -> ManifestFormat {
        match self {
            FormatParser::Artsum(_) => ManifestFormat::ARTSUM,
            FormatParser::MD5SUM(_) => ManifestFormat::MD5SUM,
            FormatParser::SHA1SUM(_) => ManifestFormat::SHA1SUM,
            FormatParser::SHA256SUM(_) => ManifestFormat::SHA256SUM,
            FormatParser::SHA512SUM(_) => ManifestFormat::SHA512SUM,
            FormatParser::B2SUM(_) => ManifestFormat::B2SUM,
        }
    }

    fn format(&self) -> (r: ManifestFormat) {
        match self {
            FormatParser::Artsum(_) => ManifestFormat::ARTSUM,
            FormatParser::MD5SUM(_) => ManifestFormat::MD5SUM,
            FormatParser::SHA1SUM(_) => ManifestFormat::SHA1SUM,
            FormatParser::SHA256SUM(_) => ManifestFormat::SHA256SUM,
            FormatParser::SHA512SUM(_) => ManifestFormat::SHA512SUM,
            FormatParser::B2SUM(_) => ManifestFormat::B2SUM,
        }
    }
}

impl ManifestFormat {
    /// The parser of the format.
    pub fn parser(&self) -> (r: FormatParser)
        ensures
            r.parser_format() == *self,
    {
        match self {
            ManifestFormat::ARTSUM => FormatParser::Artsum(ArtsumParser),
            ManifestFormat::MD5SUM => FormatParser::MD5SUM(MD5SUMParser),
            ManifestFormat::SHA1SUM => FormatParser::SHA1SUM(SHA1SUMParser),
            ManifestFormat::SHA256SUM => FormatParser::SHA256SUM(SHA256SUMParser),
            ManifestFormat::SHA512SUM => FormatParser::SHA512SUM(SHA512SUMParser),
            ManifestFormat::B2SUM => FormatParser::B2SUM(B2SUMParser),
        }
    }
}

impl ManifestSource {
    /// The parser of the source's format.
    pub fn parser(&self) -> (r: FormatParser)
        ensures
            r.parser_format() == self.format,
    {
        self.format.parser()
    }
}

} // verus!
