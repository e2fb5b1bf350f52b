//! Selection of the files to sweep.
//!
//! The selector judges what a walk over the working tree found. Ignore
//! rules come first, then the exclude patterns, then the include patterns.
//! Patterns are matched against the path relative to the root, written
//! with forward slashes.

use crate::pattern::{pattern_accepts, pattern_valid, InvalidPattern, PathPattern};
use crate::text::{is_word4, spells4, to_chars};
use vstd::prelude::*;

verus! {

/// A path with every backslash replaced by a forward slash.
pub open spec fn normalized(path: Seq<char>) -> Seq<char> {
    path.map_values(
        |c: char|
            if c == '\\' {
                '/'
            } else {
                c
            },
    )
}

/// Whether some pattern of `patterns` matches `path`.
pub open spec fn matches_any(patterns: Seq<Seq<char>>, path: Seq<char>) -> bool {
    exists|i: int| 0 <= i < patterns.len() && pattern_accepts(#[trigger] patterns[i], path)
}

/// Where an entry of the walk lies, seen from the root.
#[derive(Debug)]
pub enum RelativePath {
    /// Not under the root.
    Outside,
    /// Under the root, but the path is not text.
    NotText,
    /// Under the root at this path. The empty path is the root itself.
    Text(String),
}

/// One entry of the walk over the working tree.
#[derive(Debug)]
pub struct WalkEntry<P> {
    /// The entry's full path.
    pub path: P,
    /// Whether the entry is a directory.
    pub is_dir: bool,
    /// Where the entry lies under the root.
    pub relative: RelativePath,
    /// Whether the ignore rules exclude the entry. They are asked only
    /// where `needs_ignore_lookup` says so.
    pub ignored: bool,
}

/// A file to sweep.
#[derive(Debug)]
pub struct CandidateFile<P> {
    /// The file's full path.
    pub path: P,
    /// Its path relative to the root, as the walk gave it.
    pub relative: String,
}

/// A file to sweep, with its relative path as a character sequence.
pub struct Candidate<P> {
    pub path: P,
    pub relative: Seq<char>,
}

impl<P> View for CandidateFile<P> {
    type V = Candidate<P>;

    open spec fn view(&self) -> Candidate<P> {
        Candidate { path: self.path, relative: self.relative@ }
    }
}

impl<P> WalkEntry<P> {
    /// Whether the entry is a file below the root, so that the ignore
    /// rules have a say about it.
    pub open spec fn is_file_below_root(self) -> bool {
        &&& !self.is_dir
        &&& match self.relative {
            RelativePath::Outside => false,
            RelativePath::NotText => true,
            RelativePath::Text(relative) => relative@.len() > 0,
        }
    }

    /// Whether the entry can become a candidate, whatever the patterns
    /// are: it is a file below the root, its path is text, and the ignore
    /// rules let it through.
    pub open spec fn eligible(self) -> bool {
        &&& self.is_file_below_root()
        &&& !self.ignored
        &&& self.relative is Text
    }

    /// An entry found by the walk, not ignored until told otherwise.
    pub fn new(path: P, is_dir: bool, relative: RelativePath) -> (entry: WalkEntry<P>)
        ensures
            entry == (WalkEntry { path, is_dir, relative, ignored: false }),
    {
        WalkEntry { path, is_dir, relative, ignored: false }
    }

    /// Tells whether the ignore rules must be asked about the entry.
    pub fn needs_ignore_lookup(&self) -> (r: bool)
        ensures
            r == self.is_file_below_root(),
    {
        !self.is_dir && match &self.relative {
            RelativePath::Outside => false,
            RelativePath::NotText => true,
            RelativePath::Text(relative) => !relative.as_str().is_empty(),
        }
    }

    /// Tells whether the entry can become a candidate, whatever the
    /// patterns are.
    pub fn is_eligible(&self) -> (r: bool)
        ensures
            r == self.eligible(),
    {
        !self.ignored && !self.is_dir && match &self.relative {
            RelativePath::Text(relative) => !relative.as_str().is_empty(),
            _ => false,
        }
    }
}

/// The patterns of a selector, as texts.
pub struct SelectorModel {
    pub includes: Seq<Seq<char>>,
    pub excludes: Seq<Seq<char>>,
}

/// Whether the patterns let a path through, given what they made of it:
/// no exclude pattern matched, and an include pattern did unless there is
/// none.
pub open spec fn passes(excluded: bool, include_count: nat, included: bool) -> bool {
    !excluded && (include_count == 0 || included)
}

impl SelectorModel {
    /// Whether the patterns let the relative path `relative` through.
    pub open spec fn admits_path(self, relative: Seq<char>) -> bool {
        passes(
            matches_any(self.excludes, normalized(relative)),
            self.includes.len(),
            matches_any(self.includes, normalized(relative)),
        )
    }

    /// Whether `entry` is selected.
    pub open spec fn admits<P>(self, entry: WalkEntry<P>) -> bool {
        &&& entry.eligible()
        &&& entry.relative matches RelativePath::Text(relative) && self.admits_path(relative@)
    }

    /// The candidate that `entry` becomes, if it is selected.
    pub open spec fn candidate<P>(self, entry: WalkEntry<P>) -> Option<Candidate<P>> {
        if self.admits(entry) {
            Some(Candidate { path: entry.path, relative: entry.relative->Text_0@ })
        } else {
            None
        }
    }

    /// The candidates among `entries`, in the order of the walk.
    pub open spec fn selection<P>(self, entries: Seq<WalkEntry<P>>) -> Seq<Candidate<P>> {
        entries.filter_map(|entry: WalkEntry<P>| self.candidate(entry))
    }
}

/// The texts of a list of strings.
pub open spec fn texts(strings: Seq<String>) -> Seq<Seq<char>> {
    strings.map_values(|s: String| s@)
}

/// The texts of a list of compiled patterns.
pub open spec fn pattern_texts(patterns: Seq<PathPattern>) -> Seq<Seq<char>> {
    patterns.map_values(|p: PathPattern| p@)
}

/// Whether `k` is the first index at which `all` holds a text that is no
/// well-formed pattern.
pub open spec fn first_invalid(all: Seq<Seq<char>>, k: int) -> bool {
    &&& 0 <= k < all.len()
    &&& !pattern_valid(all[k])
    &&& forall|j: int| 0 <= j < k ==> pattern_valid(#[trigger] all[j])
}

/// Selects files by include and exclude patterns.
#[derive(Debug)]
pub struct Selector {
    includes: Vec<PathPattern>,
    excludes: Vec<PathPattern>,
}

impl View for Selector {
    type V = SelectorModel;

    closed spec fn view(&self) -> SelectorModel {
        SelectorModel {
            includes: pattern_texts(self.includes@),
            excludes: pattern_texts(self.excludes@),
        }
    }
}

/// The include patterns of a run that names none: sources, markup and
/// style sheets by extension.
pub open spec fn default_include_texts() -> Seq<Seq<char>> {
    seq!["*.rs"@, "*.toml"@, "*.py"@, "*.jsx"@, "*.tsx"@, "*.html"@, "*.css"@]
}

/// Lists the include patterns of a run that names none.
pub fn default_includes() -> (patterns: Vec<String>)
    ensures
        texts(patterns@) == default_include_texts(),
{
    vec![
        "*.rs".to_owned(),
        "*.toml".to_owned(),
        "*.py".to_owned(),
        "*.jsx".to_owned(),
        "*.tsx".to_owned(),
        "*.html".to_owned(),
        "*.css".to_owned(),
    ]
}

/// Decides whether the patterns let a path through, from whether an
/// exclude pattern matched it, how many include patterns there are, and
/// whether one of them matched it.
pub fn patterns_pass(excluded: bool, include_count: usize, included: bool) -> (r: bool)
    ensures
        r == passes(excluded, include_count as nat, included),
{
    !excluded && (include_count == 0 || included)
}

/// Tells whether `file_name` names the directory that holds the
/// repository's own data, which the walk must not enter.
pub fn is_vcs_dir(file_name: &str) -> (r: bool)
    ensures
        r == spells4(file_name@, '.', 'g', 'i', 't'),
{
    let name = to_chars(file_name);
    is_word4(name.as_slice(), '.', 'g', 'i', 't')
}

/// Writes a path with forward slashes.
pub fn normalize_separators(path: &str) -> (r: String)
    ensures
        r@ == normalized(path@),
{
    let chars = to_chars(path);
    let mut out = String::new();
    let mut i: usize = 0;
    while i < chars.len()
        invariant
            i <= chars@.len(),
            chars@ == path@,
            out@ == normalized(path@.take(i as int)),
        decreases chars@.len() - i,
    {
        let c = chars[i];
        out.push(
            if c == '\\' {
                '/'
            } else {
                c
            },
        );
        i += 1;
    }
    out
}

/// Compiles every text of `sources`, or reports the first that is no
/// pattern.
fn compile_all(sources: &[String]) -> (r: Result<Vec<PathPattern>, InvalidPattern>)
    ensures
        match r {
            Ok(patterns) => {
                &&& pattern_texts(patterns@) == texts(sources@)
                &&& forall|j: int| 0 <= j < sources@.len() ==> pattern_valid(#[trigger] sources@[j]@)
            },
            Err(e) => exists|k: int|
                {
                    &&& first_invalid(texts(sources@), k)
                    &&& e.pattern@ == #[trigger] texts(sources@)[k]
                    &&& crate::pattern::glob_compile(e.pattern@) == Err::<
                        glob::Pattern,
                        glob::PatternError,
                    >(e.cause)
                },
        },
{
    let mut patterns: Vec<PathPattern> = Vec::new();
    let mut i: usize = 0;
    while i < sources.len()
        invariant
            i <= sources@.len(),
            patterns@.len() == i,
            pattern_texts(patterns@) == texts(sources@.take(i as int)),
            forall|j: int| 0 <= j < i ==> pattern_valid(#[trigger] sources@[j]@),
        decreases sources@.len() - i,
    {
        match PathPattern::new(sources[i].as_str()) {
            Ok(pattern) => {
                let ghost before = patterns@;
                patterns.push(pattern);
                assert forall|j: int| 0 <= j < i implies pattern_texts(patterns@)[j] == texts(
                    sources@.take(i + 1),
                )[j] by {
                    assert(pattern_texts(before)[j] == texts(sources@.take(i as int))[j]);
                }
            },
            Err(e) => {
                assert(e.pattern@ == texts(sources@)[i as int]);
                return Err(e);
            },
        }
        i += 1;
    }
    Ok(patterns)
}

/// Tells whether some pattern of `patterns` matches `path`.
fn any_matches(patterns: &Vec<PathPattern>, path: &str) -> (r: bool)
    ensures
        r == matches_any(pattern_texts(patterns@), path@),
{
    let mut i: usize = 0;
    while i < patterns.len()
        invariant
            i <= patterns@.len(),
            forall|j: int|
                0 <= j < i ==> !pattern_accepts(#[trigger] pattern_texts(patterns@)[j], path@),
        decreases patterns@.len() - i,
    {
        if patterns[i].matches(path) {
            assert(pattern_accepts(pattern_texts(patterns@)[i as int], path@));
            return true;
        }
        i += 1;
    }
    false
}

impl Selector {
    /// Compiles the patterns, the include patterns first. Fails on the
    /// first text that is no well-formed pattern and reports it.
    pub fn new(includes: &[String], excludes: &[String]) -> (r: Result<Selector, InvalidPattern>)
        ensures
            match r {
                Ok(selector) => {
                    &&& selector@.includes == texts(includes@)
                    &&& selector@.excludes == texts(excludes@)
                    &&& forall|j: int|
                        0 <= j < includes@.len() ==> pattern_valid(#[trigger] includes@[j]@)
                    &&& forall|j: int|
                        0 <= j < excludes@.len() ==> pattern_valid(#[trigger] excludes@[j]@)
                },
                Err(e) => exists|k: int|
                    {
                        &&& first_invalid(texts(includes@) + texts(excludes@), k)
                        &&& e.pattern@ == #[trigger] (texts(includes@) + texts(excludes@))[k]
                        &&& crate::pattern::glob_compile(e.pattern@) == Err::<
                            glob::Pattern,
                            glob::PatternError,
                        >(e.cause)
                    },
            },
    {
        let ghost all = texts(includes@) + texts(excludes@);
        let included = match compile_all(includes) {
            Ok(patterns) => patterns,
            Err(e) => {
                proof {
                    let k = choose|k: int|
                        first_invalid(texts(includes@), k) && e.pattern@ == #[trigger] texts(
                            includes@,
                        )[k];
                    assert(first_invalid(all, k));
                }
                return Err(e);
            },
        };
        let excluded = match compile_all(excludes) {
            Ok(patterns) => patterns,
            Err(e) => {
                proof {
                    let k = choose|k: int|
                        first_invalid(texts(excludes@), k) && e.pattern@ == #[trigger] texts(
                            excludes@,
                        )[k];
                    let m = includes@.len() + k;
                    assert(first_invalid(all, m));
                }
                return Err(e);
            },
        };
        Ok(Selector { includes: included, excludes: excluded })
    }

    /// Tells whether the patterns let a relative path through.
    pub fn admits_path(&self, relative: &str) -> (r: bool)
        ensures
            r == self@.admits_path(relative@),
    {
        let path = normalize_separators(relative);
        let excluded = any_matches(&self.excludes, path.as_str());
        let included = !excluded && self.includes.len() > 0 && any_matches(
            &self.includes,
            path.as_str(),
        );
        patterns_pass(excluded, self.includes.len(), included)
    }

    /// Judges one entry of the walk: it becomes a candidate if it is
    /// eligible and the patterns let its relative path through.
    pub fn consider<P>(&self, entry: WalkEntry<P>) -> (r: Option<CandidateFile<P>>)
        ensures
            match r {
                Some(file) => self@.candidate(entry) == Some(file@),
                None => self@.candidate(entry) is None,
            },
    {
        if !entry.is_eligible() {
            return None;
        }
        match entry.relative {
            RelativePath::Text(relative) => {
                if self.admits_path(relative.as_str()) {
                    Some(CandidateFile { path: entry.path, relative })
                } else {
                    None
                }
            },
            _ => None,
        }
    }

    /// Selects the candidates among the entries of a walk, keeping the
    /// order of the walk.
    pub fn select<P>(&self, entries: Vec<WalkEntry<P>>) -> (files: Vec<CandidateFile<P>>)
        ensures
            files@.map_values(|file: CandidateFile<P>| file@) == self@.selection(entries@),
    {
        let ghost model = self@;
        let ghost judge = |entry: WalkEntry<P>| model.candidate(entry);
        let ghost views = |file: CandidateFile<P>| file@;
        let mut files: Vec<CandidateFile<P>> = Vec::new();
        for entry in it: entries
            invariant
                model == self@,
                judge == |entry: WalkEntry<P>| model.candidate(entry),
                views == |file: CandidateFile<P>| file@,
                it.seq() == entries@,
                files@.map_values(views) == entries@.take(it.index() as int).filter_map(judge),
        {
            proof {
                entries@.lemma_filter_map_take_succ(judge, it.index() as int);
            }
            if let Some(file) = self.consider(entry) {
                files.push(file);
            }
        }
        assert(entries@.take(entries@.len() as int) =~= entries@);
        files
    }
}

/// Every candidate stems from an entry that is selected.
pub proof fn lemma_selection_sound<P>(model: SelectorModel, entries: Seq<WalkEntry<P>>, k: int)
    requires
        0 <= k < model.selection(entries).len(),
    ensures
        exists|i: int|
            0 <= i < entries.len() && model.candidate(#[trigger] entries[i]) == Some(
                model.selection(entries)[k],
            ),
{
    let pick = |entry: WalkEntry<P>| model.candidate(entry);
    let chosen = model.selection(entries)[k];
    entries.lemma_filter_map_contains(pick, chosen);
    let entry = choose|entry: WalkEntry<P>| #[trigger]
        entries.contains(entry) && pick(entry) == Some(chosen);
    let i = choose|i: int| 0 <= i < entries.len() && entries[i] == entry;
}

/// Every entry that is selected is among the candidates.
pub proof fn lemma_selection_complete<P>(model: SelectorModel, entries: Seq<WalkEntry<P>>, i: int)
    requires
        0 <= i < entries.len(),
        model.admits(entries[i]),
    ensures
        model.selection(entries).contains(model.candidate(entries[i])->0),
    decreases entries.len(),
{
    let pick = |entry: WalkEntry<P>| model.candidate(entry);
    let rest = entries.drop_last();
    let wanted = model.candidate(entries[i])->0;
    if i == entries.len() - 1 {
        let found = rest.filter_map(pick) + seq![wanted];
        assert(found[found.len() - 1] == wanted);
    } else {
        lemma_selection_complete(model, rest, i);
        let at = choose|at: int|
            0 <= at < model.selection(rest).len() && model.selection(rest)[at] == wanted;
        assert(model.selection(entries)[at] == wanted);
    }
}

/// Ignore rules come before every pattern: whatever the patterns are, no
/// candidate has a path that the ignore rules exclude.
pub proof fn lemma_ignored_never_selected<P>(
    model: SelectorModel,
    entries: Seq<WalkEntry<P>>,
    is_ignored: spec_fn(Seq<char>) -> bool,
)
    requires
        forall|i: int|
            0 <= i < entries.len() && (#[trigger] entries[i]).is_file_below_root()
                && entries[i].relative is Text ==> entries[i].ignored == is_ignored(
                entries[i].relative->Text_0@,
            ),
    ensures
        forall|k: int|
            0 <= k < model.selection(entries).len() ==> !is_ignored(
                (#[trigger] model.selection(entries)[k]).relative,
            ),
{
    assert forall|k: int| 0 <= k < model.selection(entries).len() implies !is_ignored(
        (#[trigger] model.selection(entries)[k]).relative,
    ) by {
        lemma_selection_sound(model, entries, k);
    }
}

/// Exclusion beats inclusion: no candidate matches an exclude pattern,
/// whatever include patterns it matches.
pub proof fn lemma_excluded_never_selected<P>(model: SelectorModel, entries: Seq<WalkEntry<P>>)
    ensures
        forall|k: int|
            0 <= k < model.selection(entries).len() ==> !matches_any(
                model.excludes,
                normalized((#[trigger] model.selection(entries)[k]).relative),
            ),
{
    assert forall|k: int| 0 <= k < model.selection(entries).len() implies !matches_any(
        model.excludes,
        normalized((#[trigger] model.selection(entries)[k]).relative),
    ) by {
        lemma_selection_sound(model, entries, k);
    }
}

/// Without include patterns, every file below the root that is neither
/// ignored nor excluded is a candidate.
pub proof fn lemma_no_includes_selects_all<P>(
    model: SelectorModel,
    entries: Seq<WalkEntry<P>>,
    i: int,
)
    requires
        model.includes.len() == 0,
        0 <= i < entries.len(),
        entries[i].is_file_below_root(),
        !entries[i].ignored,
        entries[i].relative matches RelativePath::Text(relative) && !matches_any(
            model.excludes,
            normalized(relative@),
        ),
    ensures
        model.selection(entries).contains(
            Candidate { path: entries[i].path, relative: entries[i].relative->Text_0@ },
        ),
{
    lemma_selection_complete(model, entries, i);
}

} // verus!
