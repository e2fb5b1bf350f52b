//! Comment syntax by language group, looked up from a file extension.

use crate::text::{is_word2, is_word3, is_word4, spells2, spells3, spells4, to_chars};
use vstd::prelude::*;

verus! {

/// The language groups that differ in how a comment opens.
#[derive(Clone, Copy, Debug, PartialEq, Eq, Structural)]
pub enum Language {
    /// `#` to end of line. Every extension without a group of its own.
    Hash,
    /// `//` to end of line.
    Slash,
    /// `<!--` to `-->`.
    Markup,
    /// `/*` to `*/`.
    Stylesheet,
    /// Component templates: `//` to end of line and `{/*` to `*/}`, both at once.
    Component,
}

/// The tokens that open and close comments, as character sequences.
#[verifier::ext_equal]
pub struct SyntaxModel {
    /// Opens a comment that runs to the end of the line.
    pub line: Option<Seq<char>>,
    /// Opens and closes a block comment.
    pub block: Option<(Seq<char>, Seq<char>)>,
}

/// Whether `token` can stand inside a line: it is not empty and holds no
/// line terminator.
pub open spec fn is_token(token: Seq<char>) -> bool {
    &&& token.len() > 0
    &&& forall|i: int| 0 <= i < token.len() ==> token[i] != '\n' && token[i] != '\r'
}

impl SyntaxModel {
    /// The token that opens a block comment; empty if there is none.
    pub open spec fn block_open(self) -> Seq<char> {
        match self.block {
            Some((open, _)) => open,
            None => Seq::empty(),
        }
    }

    /// The token that closes a block comment; empty if there is none.
    pub open spec fn block_close(self) -> Seq<char> {
        match self.block {
            Some((_, close)) => close,
            None => Seq::empty(),
        }
    }

    /// Every token is one that can stand inside a line.
    pub open spec fn well_formed(self) -> bool {
        &&& self.line matches Some(token) ==> is_token(token)
        &&& self.block matches Some((open, close)) ==> is_token(open) && is_token(close)
    }
}

/// The two tokens of a block comment.
pub struct BlockDelimiters {
    pub open: Vec<char>,
    pub close: Vec<char>,
}

/// The comment syntax of one language group.
pub struct CommentSyntax {
    pub line: Option<Vec<char>>,
    pub block: Option<BlockDelimiters>,
}

impl View for CommentSyntax {
    type V = SyntaxModel;

    open spec fn view(&self) -> SyntaxModel {
        SyntaxModel {
            line: match self.line {
                Some(token) => Some(token@),
                None => None,
            },
            block: match self.block {
                Some(delimiters) => Some((delimiters.open@, delimiters.close@)),
                None => None,
            },
        }
    }
}

impl Language {
    /// The group that a file extension belongs to.
    pub open spec fn of_extension(extension: Seq<char>) -> Language {
        if spells4(extension, 'h', 't', 'm', 'l') {
            Language::Markup
        } else if spells3(extension, 'c', 's', 's') {
            Language::Stylesheet
        } else if spells3(extension, 'j', 's', 'x') || spells3(extension, 't', 's', 'x') {
            Language::Component
        } else if spells2(extension, 'r', 's') || spells2(extension, 'j', 's') || spells2(
            extension,
            't',
            's',
        ) {
            Language::Slash
        } else {
            Language::Hash
        }
    }

    /// The comment tokens of the group.
    pub open spec fn syntax_model(self) -> SyntaxModel {
        match self {
            Language::Hash => SyntaxModel { line: Some(seq!['#']), block: None },
            Language::Slash => SyntaxModel { line: Some(seq!['/', '/']), block: None },
            Language::Markup => SyntaxModel {
                line: None,
                block: Some((seq!['<', '!', '-', '-'], seq!['-', '-', '>'])),
            },
            Language::Stylesheet => SyntaxModel {
                line: None,
                block: Some((seq!['/', '*'], seq!['*', '/'])),
            },
            Language::Component => SyntaxModel {
                line: Some(seq!['/', '/']),
                block: Some((seq!['{', '/', '*'], seq!['*', '/', '}'])),
            },
        }
    }

    /// Every group's syntax is well formed.
    pub proof fn lemma_syntax_well_formed(self)
        ensures
            self.syntax_model().well_formed(),
    {
    }

    /// Looks up the group of a file extension, given without its dot.
    pub fn from_extension(extension: &str) -> (language: Language)
        ensures
            language == Language::of_extension(extension@),
    {
        let chars = to_chars(extension);
        let tag = chars.as_slice();
        if is_word4(tag, 'h', 't', 'm', 'l') {
            Language::Markup
        } else if is_word3(tag, 'c', 's', 's') {
            Language::Stylesheet
        } else if is_word3(tag, 'j', 's', 'x') || is_word3(tag, 't', 's', 'x') {
            Language::Component
        } else if is_word2(tag, 'r', 's') || is_word2(tag, 'j', 's') || is_word2(tag, 't', 's') {
            Language::Slash
        } else {
            Language::Hash
        }
    }

    /// Builds the comment tokens of the group.
    pub fn syntax(&self) -> (syntax: CommentSyntax)
        ensures
            syntax@ == self.syntax_model(),
    {
        match self {
            Language::Hash => CommentSyntax { line: Some(vec!['#']), block: None },
            Language::Slash => CommentSyntax { line: Some(vec!['/', '/']), block: None },
            Language::Markup => CommentSyntax {
                line: None,
                block: Some(
                    BlockDelimiters { open: vec!['<', '!', '-', '-'], close: vec!['-', '-', '>'] },
                ),
            },
            Language::Stylesheet => CommentSyntax {
                line: None,
                block: Some(BlockDelimiters { open: vec!['/', '*'], close: vec!['*', '/'] }),
            },
            Language::Component => CommentSyntax {
                line: Some(vec!['/', '/']),
                block: Some(
                    BlockDelimiters { open: vec!['{', '/', '*'], close: vec!['*', '/', '}'] },
                ),
            },
        }
    }
}

} // verus!
