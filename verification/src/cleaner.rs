//! Removal of marker-flagged comments, one line at a time.
//!
//! A comment is flagged when the marker token stands inside it. Each line
//! is judged by itself: a block comment is looked for on one line only, and
//! one that does not close there counts as running to the end of the line.

use crate::language::{CommentSyntax, Language, SyntaxModel};
use crate::lines::{join_lines, lemma_join_push, lines, next_line};
use crate::text::{
    blank_within, contains, find, find_within, is_blank, lemma_find_from, lemma_trimmed_len,
    push_chars, to_chars, trim_end_within, trimmed_len,
};
use vstd::prelude::*;
use vstd::slice::slice_subrange;

verus! {

/// The marker token: a double exclamation mark in emoji presentation.
pub open spec fn marker() -> Seq<char> {
    seq!['\u{203C}', '\u{FE0F}']
}

/// The comment opener that governs a line.
pub enum Opener {
    /// A line-comment token at this offset.
    Line(int),
    /// A block-comment opener at this offset.
    Block(int),
}

/// The opener that governs `line`: the first occurrence of the line token
/// or of the block opener, whichever comes earlier. The two cannot start at
/// the same offset unless one token begins with the other; the block opener
/// then wins.
pub open spec fn opener_of(line: Seq<char>, syntax: SyntaxModel) -> Option<Opener> {
    let line_at = match syntax.line {
        Some(token) => find(line, token),
        None => None,
    };
    let block_at = match syntax.block {
        Some((open, _)) => find(line, open),
        None => None,
    };
    match (line_at, block_at) {
        (Some(l), Some(b)) => if l < b {
            Some(Opener::Line(l))
        } else {
            Some(Opener::Block(b))
        },
        (Some(l), None) => Some(Opener::Line(l)),
        (None, Some(b)) => Some(Opener::Block(b)),
        (None, None) => None,
    }
}

/// Whether a comment opener of the language stands somewhere in `line`.
pub open spec fn has_opener(line: Seq<char>, syntax: SyntaxModel) -> bool {
    ||| syntax.line matches Some(token) && contains(line, token)
    ||| syntax.block matches Some((open, _)) && contains(line, open)
}

/// The span removed when `line` is cut off at `at`: from where the white
/// space before `at` begins to the end of the line.
pub open spec fn truncation(line: Seq<char>, at: int) -> (int, int) {
    (trimmed_len(line.subrange(0, at)), line.len() as int)
}

/// What is removed when the comment runs from `at` to the end of `line`.
pub open spec fn open_ended_span(line: Seq<char>, at: int) -> Option<(int, int)> {
    if contains(line.subrange(at, line.len() as int), marker()) {
        Some(truncation(line, at))
    } else {
        None
    }
}

/// The span `(start, end)` of `line` that cleaning removes, `None` if the
/// line stays as it is.
///
/// A block comment closes at the first closer found from the opener's own
/// offset on. When it is flagged, it alone is removed if anything but white
/// space follows it; otherwise the line is cut off at the opener.
pub open spec fn removed_span(line: Seq<char>, syntax: SyntaxModel) -> Option<(int, int)> {
    match opener_of(line, syntax) {
        None => None,
        Some(Opener::Line(at)) => open_ended_span(line, at),
        Some(Opener::Block(at)) => {
            let close = syntax.block_close();
            match find(line.subrange(at, line.len() as int), close) {
                None => open_ended_span(line, at),
                Some(offset) => {
                    let end = at + offset + close.len();
                    if !contains(line.subrange(at, end), marker()) {
                        None
                    } else if is_blank(line.subrange(end, line.len() as int)) {
                        Some(truncation(line, at))
                    } else {
                        Some((at, end))
                    }
                },
            }
        },
    }
}

/// `line` without the span `(start, end)`.
pub open spec fn without_span(line: Seq<char>, span: (int, int)) -> Seq<char> {
    line.subrange(0, span.0) + line.subrange(span.1, line.len() as int)
}

/// `line` after cleaning.
pub open spec fn cleaned_line(line: Seq<char>, syntax: SyntaxModel) -> Seq<char> {
    match removed_span(line, syntax) {
        Some(span) => without_span(line, span),
        None => line,
    }
}

/// The lines of `content`, each one cleaned.
pub open spec fn cleaned_lines(content: Seq<char>, syntax: SyntaxModel) -> Seq<Seq<char>> {
    lines(content).map_values(|line: Seq<char>| cleaned_line(line, syntax))
}

/// `content` after cleaning: its cleaned lines, joined by line feeds.
pub open spec fn cleaned_text(content: Seq<char>, syntax: SyntaxModel) -> Seq<char> {
    join_lines(cleaned_lines(content, syntax))
}

/// Whether cleaning changes some line of `content`.
pub open spec fn has_flagged_line(content: Seq<char>, syntax: SyntaxModel) -> bool {
    exists|i: int|
        0 <= i < lines(content).len() && removed_span(#[trigger] lines(content)[i], syntax) is Some
}

/// `content` after one run over it: its cleaned text if some line
/// changed, else `content` itself, line terminators and all.
pub open spec fn swept(content: Seq<char>, syntax: SyntaxModel) -> Seq<char> {
    if has_flagged_line(content, syntax) {
        cleaned_text(content, syntax)
    } else {
        content
    }
}

/// The outcome of cleaning one line.
#[derive(Debug)]
pub enum LineEdit {
    /// The line stays as it is.
    Unchanged,
    /// The line is replaced by this text.
    Rewritten(String),
}

/// What to do with a file after a run over its content.
#[derive(Debug)]
pub enum Rewrite {
    /// No line changed: the file is left alone.
    Keep,
    /// Some line changed: the file gets this content.
    Replace(String),
}

/// The outcome of cleaning a whole text.
#[derive(Debug)]
pub struct Cleaned {
    /// The cleaned lines, joined by line feeds.
    pub text: String,
    /// Whether some line was changed.
    pub modified: bool,
}

/// Cleans text of one language group. Its view is that group.
pub struct LineCleaner {
    language: Language,
    syntax: CommentSyntax,
    marker: Vec<char>,
}

impl View for LineCleaner {
    type V = Language;

    closed spec fn view(&self) -> Language {
        self.language
    }
}

impl LineCleaner {
    #[verifier::type_invariant]
    spec fn tokens_fit_language(self) -> bool {
        &&& self.syntax@ == self.language.syntax_model()
        &&& self.marker@ == marker()
    }

    /// A cleaner for `language`.
    pub fn new(language: Language) -> (cleaner: LineCleaner)
        ensures
            cleaner@ == language,
    {
        let marker: Vec<char> = vec!['\u{203C}', '\u{FE0F}'];
        LineCleaner { language, syntax: language.syntax(), marker }
    }

    /// A cleaner for files with this extension, given without its dot.
    pub fn for_extension(extension: &str) -> (cleaner: LineCleaner)
        ensures
            cleaner@ == Language::of_extension(extension@),
    {
        LineCleaner::new(Language::from_extension(extension))
    }

    /// The language group that the cleaner works for.
    pub fn language(&self) -> (language: Language)
        ensures
            language == self@,
    {
        self.language
    }

    /// What the comment that opens at `at` and runs to the end of `line`
    /// costs the line.
    fn open_ended(&self, line: &[char], at: usize) -> (r: Option<(usize, usize)>)
        requires
            at <= line@.len(),
        ensures
            match r {
                Some((start, end)) => open_ended_span(line@, at as int) == Some(
                    (start as int, end as int),
                ),
                None => open_ended_span(line@, at as int) is None,
            },
    {
        proof {
            use_type_invariant(self);
        }
        match find_within(line, at, line.len(), self.marker.as_slice()) {
            Some(_) => Some((trim_end_within(line, 0, at), line.len())),
            None => None,
        }
    }

    /// Finds the span of `line` to remove.
    pub fn span_in(&self, line: &[char]) -> (r: Option<(usize, usize)>)
        ensures
            match r {
                Some((start, end)) => removed_span(line@, self@.syntax_model()) == Some(
                    (start as int, end as int),
                ),
                None => removed_span(line@, self@.syntax_model()) is None,
            },
    {
        proof {
            use_type_invariant(self);
        }
        let n: usize = line.len();
        assert(line@.subrange(0, n as int) =~= line@);
        let line_at = match &self.syntax.line {
            Some(token) => find_within(line, 0, n, token.as_slice()),
            None => None,
        };
        let block_at = match &self.syntax.block {
            Some(delimiters) => find_within(line, 0, n, delimiters.open.as_slice()),
            None => None,
        };
        let block_wins = match (line_at, block_at) {
            (Some(l), Some(b)) => l >= b,
            (None, Some(_)) => true,
            _ => false,
        };
        if block_wins {
            let at: usize = block_at.unwrap();
            let close = &self.syntax.block.as_ref().unwrap().close;
            proof {
                lemma_find_from(line@, self@.syntax_model().block_open(), 0);
            }
            match find_within(line, at, n, close.as_slice()) {
                None => self.open_ended(line, at),
                Some(offset) => {
                    proof {
                        lemma_find_from(
                            line@.subrange(at as int, n as int),
                            close@,
                            0,
                        );
                    }
                    let end: usize = at + offset + close.len();
                    if find_within(line, at, end, self.marker.as_slice()).is_none() {
                        None
                    } else if blank_within(line, end, n) {
                        Some((trim_end_within(line, 0, at), n))
                    } else {
                        Some((at, end))
                    }
                },
            }
        } else {
            match line_at {
                Some(at) => {
                    proof {
                        lemma_find_from(line@, self@.syntax_model().line->0, 0);
                    }
                    self.open_ended(line, at)
                },
                None => None,
            }
        }
    }

    /// Cleans one line. `line` holds no line terminator.
    pub fn clean_line(&self, line: &str) -> (edit: LineEdit)
        ensures
            !has_opener(line@, self@.syntax_model()) ==> edit is Unchanged,
            match edit {
                LineEdit::Unchanged => removed_span(line@, self@.syntax_model()) is None,
                LineEdit::Rewritten(text) => {
                    &&& removed_span(line@, self@.syntax_model()) is Some
                    &&& text@ == cleaned_line(line@, self@.syntax_model())
                },
            },
    {
        let chars = to_chars(line);
        match self.span_in(chars.as_slice()) {
            None => LineEdit::Unchanged,
            Some((start, end)) => {
                proof {
                    self@.lemma_syntax_well_formed();
                    lemma_span_bounds(line@, self@.syntax_model());
                }
                let mut text = String::new();
                push_chars(&mut text, chars.as_slice(), 0, start);
                push_chars(&mut text, chars.as_slice(), end, chars.len());
                LineEdit::Rewritten(text)
            },
        }
    }

    /// Appends the cleaned `line` to `out` and tells whether cleaning
    /// changed it.
    fn push_cleaned(&self, out: &mut String, line: &[char]) -> (changed: bool)
        ensures
            final(out)@ == old(out)@ + cleaned_line(line@, self@.syntax_model()),
            changed == removed_span(line@, self@.syntax_model()) is Some,
    {
        proof {
            self@.lemma_syntax_well_formed();
            lemma_span_bounds(line@, self@.syntax_model());
        }
        match self.span_in(line) {
            None => {
                push_chars(out, line, 0, line.len());
                false
            },
            Some((start, end)) => {
                push_chars(out, line, 0, start);
                push_chars(out, line, end, line.len());
                true
            },
        }
    }

    /// Cleans every line of `content` and joins the results with line
    /// feeds.
    pub fn clean(&self, content: &str) -> (cleaned: Cleaned)
        ensures
            cleaned.text@ == cleaned_text(content@, self@.syntax_model()),
            cleaned.modified == has_flagged_line(content@, self@.syntax_model()),
    {
        let ghost syntax = self@.syntax_model();
        let ghost clean = |line: Seq<char>| cleaned_line(line, syntax);
        let chars = to_chars(content);
        let n: usize = chars.len();
        let mut text = String::new();
        let mut modified = false;
        let mut first = true;
        let mut pos: usize = 0;
        let ghost mut seen: Seq<Seq<char>> = Seq::empty();
        assert(chars@.subrange(0, n as int) =~= chars@);
        while pos < n
            invariant
                pos <= n,
                n == chars@.len(),
                chars@ == content@,
                syntax == self@.syntax_model(),
                clean == |line: Seq<char>| cleaned_line(line, syntax),
                first == (seen.len() == 0),
                lines(content@) == seen + lines(chars@.subrange(pos as int, n as int)),
                text@ == join_lines(seen.map_values(clean)),
                modified == exists|i: int|
                    0 <= i < seen.len() && removed_span(#[trigger] seen[i], syntax) is Some,
            decreases n - pos,
        {
            let (end, next) = next_line(chars.as_slice(), pos);
            let line = slice_subrange(chars.as_slice(), pos, end);
            proof {
                assert(seen.push(line@).map_values(clean) =~= seen.map_values(clean).push(
                    cleaned_line(line@, syntax),
                ));
                lemma_join_push(seen.map_values(clean), cleaned_line(line@, syntax));
            }
            if !first {
                text.push('\n');
            }
            let changed = self.push_cleaned(&mut text, line);
            proof {
                let grown = seen.push(line@);
                assert(grown[seen.len() as int] == line@);
                assert forall|i: int| 0 <= i < seen.len() implies grown[i] == seen[i] by {}
                seen = grown;
            }
            modified = modified || changed;
            first = false;
            pos = next;
        }
        Cleaned { text, modified }
    }

    /// Runs over `content` and decides whether the file is rewritten: it
    /// is, with the cleaned text, exactly when some line changed.
    pub fn sweep(&self, content: &str) -> (rewrite: Rewrite)
        ensures
            match rewrite {
                Rewrite::Keep => !has_flagged_line(content@, self@.syntax_model()),
                Rewrite::Replace(text) => {
                    &&& has_flagged_line(content@, self@.syntax_model())
                    &&& text@ == cleaned_text(content@, self@.syntax_model())
                    &&& text@ == swept(content@, self@.syntax_model())
                },
            },
    {
        let cleaned = self.clean(content);
        if cleaned.modified {
            Rewrite::Replace(cleaned.text)
        } else {
            Rewrite::Keep
        }
    }
}

/// A line without a comment opener stays as it is.
pub proof fn lemma_without_opener_unchanged(line: Seq<char>, syntax: SyntaxModel)
    requires
        !has_opener(line, syntax),
    ensures
        removed_span(line, syntax) is None,
        cleaned_line(line, syntax) == line,
{
}

/// A removed span lies inside its line and is not empty.
pub proof fn lemma_span_bounds(line: Seq<char>, syntax: SyntaxModel)
    requires
        syntax.well_formed(),
    ensures
        removed_span(line, syntax) matches Some((start, end)) ==> 0 <= start < end <= line.len(),
{
    let n = line.len() as int;
    match opener_of(line, syntax) {
        None => {},
        Some(Opener::Line(at)) => {
            lemma_find_from(line, syntax.line->0, 0);
            lemma_trimmed_len(line.subrange(0, at));
        },
        Some(Opener::Block(at)) => {
            lemma_find_from(line, syntax.block_open(), 0);
            lemma_trimmed_len(line.subrange(0, at));
            lemma_find_from(line.subrange(at, n), syntax.block_close(), 0);
        },
    }
}

} // verus!
