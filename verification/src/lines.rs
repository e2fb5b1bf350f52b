//! Splitting a text into lines and joining lines into a text.

use vstd::prelude::*;

verus! {

/// Number of characters of `s` before its first line feed; all of them
/// if it has none.
pub open spec fn line_len(s: Seq<char>) -> nat
    decreases s.len(),
{
    if s.len() == 0 || s[0] == '\n' {
        0
    } else {
        1 + line_len(s.drop_first())
    }
}

/// `s` without one trailing carriage return.
pub open spec fn strip_cr(s: Seq<char>) -> Seq<char> {
    if s.len() > 0 && s.last() == '\r' {
        s.drop_last()
    } else {
        s
    }
}

/// The lines of `s`. A line ends at a line feed, or at a carriage return
/// followed by one; the terminator is not part of the line. The last line
/// needs no terminator, so a text that ends in one has no empty last line.
pub open spec fn lines(s: Seq<char>) -> Seq<Seq<char>>
    decreases s.len(),
{
    if s.len() == 0 {
        Seq::empty()
    } else {
        let k = line_len(s);
        if k < s.len() {
            seq![strip_cr(s.subrange(0, k as int))] + lines(s.subrange(k as int + 1, s.len() as int))
        } else {
            seq![s]
        }
    }
}

/// The lines joined, with one line feed between neighbours.
pub open spec fn join_lines(ls: Seq<Seq<char>>) -> Seq<char>
    decreases ls.len(),
{
    if ls.len() == 0 {
        Seq::empty()
    } else if ls.len() == 1 {
        ls[0]
    } else {
        ls[0] + seq!['\n'] + join_lines(ls.drop_first())
    }
}

/// Whether `s` holds no line feed.
pub open spec fn feed_free(s: Seq<char>) -> bool {
    forall|i: int| 0 <= i < s.len() ==> s[i] != '\n'
}

/// `line_len` stops at the first line feed.
pub proof fn lemma_line_len(s: Seq<char>)
    ensures
        line_len(s) <= s.len(),
        line_len(s) < s.len() ==> s[line_len(s) as int] == '\n',
        forall|i: int| 0 <= i < line_len(s) ==> s[i] != '\n',
    decreases s.len(),
{
    if s.len() == 0 || s[0] == '\n' {
    } else {
        lemma_line_len(s.drop_first());
        assert forall|i: int| 0 <= i < line_len(s) implies s[i] != '\n' by {
            if i > 0 {
                assert(s.drop_first()[i - 1] == s[i]);
            }
        }
    }
}

/// A text whose first line feed stands at `k`, or that has `k` characters
/// and no line feed, has `line_len` `k`.
pub proof fn lemma_line_len_is(s: Seq<char>, k: int)
    requires
        0 <= k <= s.len(),
        forall|i: int| 0 <= i < k ==> s[i] != '\n',
        k < s.len() ==> s[k] == '\n',
    ensures
        line_len(s) == k,
    decreases s.len(),
{
    if s.len() == 0 || s[0] == '\n' {
    } else {
        lemma_line_len_is(s.drop_first(), k - 1);
    }
}

/// No line holds a line feed.
pub proof fn lemma_lines_feed_free(s: Seq<char>)
    ensures
        forall|i: int| 0 <= i < lines(s).len() ==> feed_free(#[trigger] lines(s)[i]),
    decreases s.len(),
{
    if s.len() > 0 {
        lemma_line_len(s);
        let k = line_len(s) as int;
        if k < s.len() {
            let rest = s.subrange(k + 1, s.len() as int);
            lemma_lines_feed_free(rest);
            assert forall|i: int| 0 <= i < lines(s).len() implies feed_free(
                #[trigger] lines(s)[i],
            ) by {
                if i > 0 {
                    assert(lines(s)[i] == lines(rest)[i - 1]);
                }
            }
        }
    }
}

/// Joining one more line appends it, after a line feed unless it is the
/// first.
pub proof fn lemma_join_push(ls: Seq<Seq<char>>, l: Seq<char>)
    ensures
        join_lines(ls.push(l)) == if ls.len() == 0 {
            l
        } else {
            join_lines(ls) + seq!['\n'] + l
        },
    decreases ls.len(),
{
    if ls.len() == 0 {
    } else {
        assert(ls.push(l).drop_first() =~= ls.drop_first().push(l));
        lemma_join_push(ls.drop_first(), l);
    }
}

/// What splitting gives back after joining. Every line but the last
/// loses one trailing carriage return, for it now stands before a line
/// feed, and an empty last line is not there any more.
pub proof fn lemma_lines_of_join(ls: Seq<Seq<char>>)
    requires
        forall|i: int| 0 <= i < ls.len() ==> feed_free(#[trigger] ls[i]),
    ensures
        lines(join_lines(ls)).len() == if ls.len() > 0 && ls.last().len() == 0 {
            ls.len() - 1
        } else {
            ls.len() as int
        },
        forall|k: int|
            0 <= k < lines(join_lines(ls)).len() ==> #[trigger] lines(join_lines(ls))[k] == if k
                < ls.len() - 1 {
                strip_cr(ls[k])
            } else {
                ls[k]
            },
    decreases ls.len(),
{
    if ls.len() == 0 {
    } else if ls.len() == 1 {
        let only = ls[0];
        if only.len() > 0 {
            lemma_line_len_is(only, only.len() as int);
        }
    } else {
        let head = ls[0];
        let tail = ls.drop_first();
        let joined = join_lines(ls);
        let k = head.len() as int;
        lemma_lines_of_join(tail);
        lemma_line_len_is(joined, k);
        assert(joined.subrange(0, k) =~= head);
        assert(joined.subrange(k + 1, joined.len() as int) =~= join_lines(tail));
    }
}

/// Finds the end of the line that starts at `from`: the offset of the
/// next line feed, or the end of `text`.
pub fn line_end(text: &[char], from: usize) -> (r: usize)
    requires
        from <= text@.len(),
    ensures
        from <= r <= text@.len(),
        r - from == line_len(text@.subrange(from as int, text@.len() as int)),
{
    let n: usize = text.len();
    let mut e: usize = from;
    while e < n && text[e] != '\n'
        invariant
            from <= e <= n,
            n == text@.len(),
            line_len(text@.subrange(from as int, n as int)) == (e - from) + line_len(
                text@.subrange(e as int, n as int),
            ),
        decreases n - e,
    {
        assert(text@.subrange(e as int, n as int).drop_first() =~= text@.subrange(
            e + 1,
            n as int,
        ));
        e += 1;
    }
    e
}

/// Takes the line that starts at `from`: it is `text[from..end]`, and
/// the lines after it start at `next`.
pub fn next_line(text: &[char], from: usize) -> (r: (usize, usize))
    requires
        from < text@.len(),
    ensures
        from <= r.0 <= r.1 <= text@.len(),
        from < r.1,
        ({
            let rest = text@.subrange(from as int, text@.len() as int);
            let k = line_len(rest) as int;
            if k < rest.len() {
                r.0 == from + strip_cr(rest.subrange(0, k)).len() && r.1 == from + k + 1
            } else {
                r.0 == text@.len() && r.1 == text@.len()
            }
        }),
        lines(text@.subrange(from as int, text@.len() as int)) == seq![
            text@.subrange(from as int, r.0 as int),
        ] + lines(text@.subrange(r.1 as int, text@.len() as int)),
{
    let n: usize = text.len();
    let ghost rest = text@.subrange(from as int, n as int);
    let stop: usize = line_end(text, from);
    proof {
        lemma_line_len(rest);
        assert(rest.subrange(0, line_len(rest) as int) =~= text@.subrange(
            from as int,
            stop as int,
        ));
    }
    if stop < n {
        let end: usize = if stop > from && text[stop - 1] == '\r' {
            stop - 1
        } else {
            stop
        };
        proof {
            assert(rest.subrange(line_len(rest) as int + 1, rest.len() as int) =~= text@.subrange(
                stop + 1,
                n as int,
            ));
            assert(strip_cr(text@.subrange(from as int, stop as int)) =~= text@.subrange(
                from as int,
                end as int,
            ));
        }
        (end, stop + 1)
    } else {
        proof {
        }
        (stop, n)
    }
}

} // verus!
