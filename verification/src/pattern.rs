//! Glob patterns over forward-slash paths, compiled by the `glob` crate.

use vstd::prelude::*;

verus! {

/// `glob::Pattern`, a compiled pattern. Nothing is known of what is inside.
#[verifier::external_type_specification]
#[verifier::external_body]
pub struct ExPattern(glob::Pattern);

/// `glob::PatternError`, the position and the message of a syntax error.
/// Nothing is known of what is inside.
#[verifier::external_type_specification]
#[verifier::external_body]
pub struct ExPatternError(glob::PatternError);

/// What `glob::Pattern::new` returns for a pattern text. The syntax takes
/// the platform's path separators for separators, so this is fixed for a
/// platform, not across platforms.
pub uninterp spec fn glob_compile(text: Seq<char>) -> Result<glob::Pattern, glob::PatternError>;

/// What `glob::Pattern::matches` returns for a compiled pattern and a path.
pub uninterp spec fn glob_matches(pattern: glob::Pattern, path: Seq<char>) -> bool;

/// `glob::Pattern::new` parses its argument and reads nothing else: the
/// outcome, the compiled pattern or the syntax error, is determined by the
/// text. Nothing is said here of which texts are patterns.
pub assume_specification[ glob::Pattern::new ](pattern: &str) -> (r: Result<
    glob::Pattern,
    glob::PatternError,
>)
    ensures
        r == glob_compile(pattern@),
;

/// `glob::Pattern::matches` walks the compiled tokens over the characters
/// of the path, with the match options that `MatchOptions::new` gives: the
/// answer is determined by the pattern and the path. Nothing is said here
/// of which paths a pattern matches.
pub assume_specification[ glob::Pattern::matches ](pattern: &glob::Pattern, str: &str) -> (b: bool)
    ensures
        b == glob_matches(*pattern, str@),
;

/// Whether `text` is a well-formed glob pattern.
pub open spec fn pattern_valid(text: Seq<char>) -> bool {
    glob_compile(text) is Ok
}

/// Whether the glob pattern `text` is well formed and matches `path`.
pub open spec fn pattern_accepts(text: Seq<char>, path: Seq<char>) -> bool {
    glob_compile(text) matches Ok(compiled) && glob_matches(compiled, path)
}

/// A glob pattern that failed to compile.
#[derive(Debug)]
pub struct InvalidPattern {
    /// The pattern text as it was given.
    pub pattern: String,
    /// Where and why the text is not a pattern.
    pub cause: glob::PatternError,
}

/// A compiled glob pattern. Its view is the text it was compiled from.
#[derive(Debug)]
pub struct PathPattern {
    text: String,
    compiled: glob::Pattern,
}

impl View for PathPattern {
    type V = Seq<char>;

    closed spec fn view(&self) -> Seq<char> {
        self.text@
    }
}

impl PathPattern {
    #[verifier::type_invariant]
    spec fn compiled_from_text(self) -> bool {
        glob_compile(self.text@) == Ok::<glob::Pattern, glob::PatternError>(self.compiled)
    }

    /// Compiles `text`. Fails exactly when `text` is not a well-formed
    /// pattern, and then reports the text and the compiler's finding.
    pub fn new(text: &str) -> (r: Result<PathPattern, InvalidPattern>)
        ensures
            match r {
                Ok(p) => pattern_valid(text@) && p@ == text@,
                Err(e) => {
                    &&& !pattern_valid(text@)
                    &&& e.pattern@ == text@
                    &&& glob_compile(text@) == Err::<glob::Pattern, glob::PatternError>(e.cause)
                },
            },
    {
        match glob::Pattern::new(text) {
            Ok(compiled) => Ok(PathPattern { text: text.to_owned(), compiled }),
            Err(cause) => Err(InvalidPattern { pattern: text.to_owned(), cause }),
        }
    }

    /// Whether the pattern matches `path`.
    pub fn matches(&self, path: &str) -> (b: bool)
        ensures
            b == pattern_accepts(self@, path@),
    {
        proof {
            use_type_invariant(self);
        }
        self.compiled.matches(path)
    }

    /// The text the pattern was compiled from.
    pub fn as_str(&self) -> (s: &str)
        ensures
            s@ == self@,
    {
        self.text.as_str()
    }
}

} // verus!
