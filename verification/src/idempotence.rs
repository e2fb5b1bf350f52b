//! Cleaning again what has been cleaned.
//!
//! A line that was cut off at its opener holds no opener any more, so
//! cleaning leaves it alone from then on. A line from whose middle a comment
//! was taken may hold a second flagged comment behind the first, or form a
//! new one where the two ends meet: such a line is cleaned once per run.

use crate::cleaner::{
    cleaned_line, cleaned_lines, has_flagged_line, lemma_span_bounds, marker, opener_of,
    removed_span, swept, Opener,
};
use crate::language::SyntaxModel;
use crate::lines::{
    feed_free, join_lines, lemma_lines_feed_free, lemma_lines_of_join, lines, strip_cr,
};
use crate::text::{
    find, lemma_find_from, lemma_find_ignores_tail, lemma_occurs_in_subrange, lemma_trimmed_len,
};
use vstd::prelude::*;

verus! {

/// Whether cleaning takes a comment out of `line` and keeps what follows it.
pub open spec fn splices(line: Seq<char>, syntax: SyntaxModel) -> bool {
    removed_span(line, syntax) matches Some((_, end)) && end < line.len()
}

/// Whether cleaning leaves `line` as it is.
pub open spec fn settled(line: Seq<char>, syntax: SyntaxModel) -> bool {
    removed_span(line, syntax) is None
}

/// Whether `line` is settled after one cleaning. Only a line that is
/// spliced can fail to be.
pub open spec fn settles(line: Seq<char>, syntax: SyntaxModel) -> bool {
    splices(line, syntax) ==> settled(cleaned_line(line, syntax), syntax)
}

/// Whether every line of `content` settles.
pub open spec fn all_settle(content: Seq<char>, syntax: SyntaxModel) -> bool {
    forall|i: int|
        0 <= i < lines(content).len() ==> settles(#[trigger] lines(content)[i], syntax)
}

/// A prefix that ends at or before the first occurrence of `needle` holds
/// no occurrence of it.
pub proof fn lemma_none_before_first(hay: Seq<char>, needle: Seq<char>, cut: int)
    requires
        needle.len() > 0,
        0 <= cut <= hay.len(),
        find(hay, needle) matches Some(at) ==> cut <= at,
    ensures
        find(hay.subrange(0, cut), needle) is None,
{
    let prefix = hay.subrange(0, cut);
    lemma_find_from(hay, needle, 0);
    lemma_find_from(prefix, needle, 0);
    if let Some(p) = find(prefix, needle) {
        lemma_occurs_in_subrange(hay, 0, cut, needle, p);
    }
}

/// A line that was cut off at its opener is settled.
pub proof fn lemma_cut_off_is_settled(line: Seq<char>, syntax: SyntaxModel)
    requires
        syntax.well_formed(),
        removed_span(line, syntax) is Some,
        !splices(line, syntax),
    ensures
        settled(cleaned_line(line, syntax), syntax),
{
    let (start, _) = removed_span(line, syntax)->0;
    lemma_span_bounds(line, syntax);
    let at = match opener_of(line, syntax)->0 {
        Opener::Line(at) => at,
        Opener::Block(at) => at,
    };
    if let Some(token) = syntax.line {
        lemma_find_from(line, token, 0);
    }
    if let Some((open, _)) = syntax.block {
        lemma_find_from(line, open, 0);
    }
    lemma_trimmed_len(line.subrange(0, at));
    if let Some(token) = syntax.line {
        lemma_none_before_first(line, token, start);
    }
    if let Some((open, _)) = syntax.block {
        lemma_none_before_first(line, open, start);
    }
}

/// Cleaning a line twice gives what cleaning it once gives, exactly when
/// the line settles.
pub proof fn lemma_clean_line_twice(line: Seq<char>, syntax: SyntaxModel)
    requires
        syntax.well_formed(),
    ensures
        settles(line, syntax) <==> cleaned_line(cleaned_line(line, syntax), syntax)
            == cleaned_line(line, syntax),
{
    let once = cleaned_line(line, syntax);
    lemma_span_bounds(line, syntax);
    lemma_span_bounds(once, syntax);
    if removed_span(line, syntax) is Some && !splices(line, syntax) {
        lemma_cut_off_is_settled(line, syntax);
    }
}

/// A carriage return at the end of a line makes no difference to whether
/// the line is settled.
pub proof fn lemma_carriage_return_is_inert(line: Seq<char>, syntax: SyntaxModel)
    requires
        syntax.well_formed(),
    ensures
        settled(line.push('\r'), syntax) == settled(line, syntax),
{
    let longer = line.push('\r');
    let n = line.len() as int;
    if let Some(token) = syntax.line {
        lemma_find_ignores_tail(line, '\r', token);
        lemma_find_from(line, token, 0);
    }
    if let Some((open, _)) = syntax.block {
        lemma_find_ignores_tail(line, '\r', open);
        lemma_find_from(line, open, 0);
    }
    if let Some(opener) = opener_of(line, syntax) {
        let at = match opener {
            Opener::Line(at) => at,
            Opener::Block(at) => at,
        };
        let rest = line.subrange(at, n);
        assert(longer.subrange(at, n + 1) =~= rest.push('\r'));
        lemma_find_ignores_tail(rest, '\r', marker());
        if opener is Block {
            let close = syntax.block_close();
            lemma_find_ignores_tail(rest, '\r', close);
            lemma_find_from(rest, close, 0);
            if let Some(offset) = find(rest, close) {
                let end = at + offset + close.len();
                assert(longer.subrange(at, end) =~= line.subrange(at, end));
            }
        }
    }
}

/// Dropping a trailing carriage return makes no difference to whether a
/// line is settled.
pub proof fn lemma_strip_cr_is_inert(line: Seq<char>, syntax: SyntaxModel)
    requires
        syntax.well_formed(),
    ensures
        settled(strip_cr(line), syntax) == settled(line, syntax),
{
    if line.len() > 0 && line.last() == '\r' {
        assert(line.drop_last().push('\r') =~= line);
        lemma_carriage_return_is_inert(line.drop_last(), syntax);
    }
}

/// A cleaned line holds no line feed if the line held none.
pub proof fn lemma_cleaned_line_feed_free(line: Seq<char>, syntax: SyntaxModel)
    requires
        syntax.well_formed(),
        feed_free(line),
    ensures
        feed_free(cleaned_line(line, syntax)),
{
    lemma_span_bounds(line, syntax);
}

/// A second run finds something to change exactly when some line of the
/// first run's input does not settle.
pub proof fn lemma_second_run(content: Seq<char>, syntax: SyntaxModel)
    requires
        syntax.well_formed(),
    ensures
        has_flagged_line(swept(content, syntax), syntax) <==> !all_settle(content, syntax),
{
    let before = lines(content);
    if has_flagged_line(content, syntax) {
        let once = cleaned_lines(content, syntax);
        let after = lines(join_lines(once));
        lemma_lines_feed_free(content);
        assert forall|i: int| 0 <= i < once.len() implies feed_free(#[trigger] once[i]) by {
            lemma_cleaned_line_feed_free(before[i], syntax);
        }
        lemma_lines_of_join(once);
        assert forall|k: int| 0 <= k < after.len() implies settled(#[trigger] after[k], syntax)
            == settled(once[k], syntax) by {
            lemma_strip_cr_is_inert(once[k], syntax);
        }
        if !all_settle(content, syntax) {
            let i = choose|i: int| 0 <= i < before.len() && !settles(#[trigger] before[i], syntax);
            assert(once[i].len() > 0) by {
                if once[i].len() == 0 {
                    if let Some(token) = syntax.line {
                        lemma_find_from(once[i], token, 0);
                    }
                    if let Some((open, _)) = syntax.block {
                        lemma_find_from(once[i], open, 0);
                    }
                }
            }
            assert(removed_span(lines(swept(content, syntax))[i], syntax) is Some);
        }
        if has_flagged_line(swept(content, syntax), syntax) {
            let k = choose|k: int|
                0 <= k < after.len() && removed_span(#[trigger] after[k], syntax) is Some;
            if removed_span(before[k], syntax) is Some && !splices(before[k], syntax) {
                lemma_cut_off_is_settled(before[k], syntax);
            }
        }
    }
}

/// Running twice over a text gives what running once gives, if every
/// line settles.
pub proof fn lemma_sweep_twice(content: Seq<char>, syntax: SyntaxModel)
    requires
        syntax.well_formed(),
        all_settle(content, syntax),
    ensures
        swept(swept(content, syntax), syntax) == swept(content, syntax),
{
    lemma_second_run(content, syntax);
}

} // verus!
