//! Character sequences: searching and trimming.
//!
//! Text is modelled as `Seq<char>`. Offsets count characters; they grow
//! with byte offsets, so "earlier" means the same in both.

use vstd::prelude::*;

verus! {

/// Whether `c` is white space as Unicode defines it (`White_Space`).
pub open spec fn is_space(c: char) -> bool {
    let u = c as u32;
    ||| 0x09 <= u <= 0x0D
    ||| u == 0x20
    ||| u == 0x85
    ||| u == 0xA0
    ||| u == 0x1680
    ||| 0x2000 <= u <= 0x200A
    ||| u == 0x2028
    ||| u == 0x2029
    ||| u == 0x202F
    ||| u == 0x205F
    ||| u == 0x3000
}

/// Whether every character of `s` is white space.
pub open spec fn is_blank(s: Seq<char>) -> bool {
    forall|i: int| 0 <= i < s.len() ==> is_space(#[trigger] s[i])
}

/// Length of `s` once its trailing white space is removed.
pub open spec fn trimmed_len(s: Seq<char>) -> int
    decreases s.len(),
{
    if s.len() > 0 && is_space(s.last()) {
        trimmed_len(s.drop_last())
    } else {
        s.len() as int
    }
}

/// Whether `s` is the two characters `a`, `b`.
pub open spec fn spells2(s: Seq<char>, a: char, b: char) -> bool {
    s.len() == 2 && s[0] == a && s[1] == b
}

/// Whether `s` is the three characters `a`, `b`, `c`.
pub open spec fn spells3(s: Seq<char>, a: char, b: char, c: char) -> bool {
    s.len() == 3 && s[0] == a && s[1] == b && s[2] == c
}

/// Whether `s` is the four characters `a`, `b`, `c`, `d`.
pub open spec fn spells4(s: Seq<char>, a: char, b: char, c: char, d: char) -> bool {
    s.len() == 4 && s[0] == a && s[1] == b && s[2] == c && s[3] == d
}

/// Whether `needle` stands in `hay` at offset `at`.
pub open spec fn occurs_at(hay: Seq<char>, needle: Seq<char>, at: int) -> bool {
    &&& 0 <= at
    &&& at + needle.len() <= hay.len()
    &&& hay.subrange(at, at + needle.len()) == needle
}

/// Offset of the first occurrence of `needle` in `hay` at or after `from`.
pub open spec fn find_from(hay: Seq<char>, needle: Seq<char>, from: int) -> Option<int>
    decreases hay.len() + 1 - from,
{
    if from < 0 || from + needle.len() > hay.len() {
        None
    } else if occurs_at(hay, needle, from) {
        Some(from)
    } else {
        find_from(hay, needle, from + 1)
    }
}

/// Offset of the first occurrence of `needle` in `hay`.
pub open spec fn find(hay: Seq<char>, needle: Seq<char>) -> Option<int> {
    find_from(hay, needle, 0)
}

/// Whether `needle` occurs somewhere in `hay`.
pub open spec fn contains(hay: Seq<char>, needle: Seq<char>) -> bool {
    find(hay, needle) is Some
}

/// `find_from` returns the least offset at or after `from` where `needle`
/// stands, and `None` exactly when there is no such offset.
pub proof fn lemma_find_from(hay: Seq<char>, needle: Seq<char>, from: int)
    requires
        0 <= from,
    ensures
        match find_from(hay, needle, from) {
            Some(at) => {
                &&& from <= at
                &&& occurs_at(hay, needle, at)
                &&& forall|j: int| from <= j < at ==> !occurs_at(hay, needle, j)
            },
            None => forall|j: int| from <= j ==> !occurs_at(hay, needle, j),
        },
    decreases hay.len() + 1 - from,
{
    if from + needle.len() > hay.len() {
    } else if occurs_at(hay, needle, from) {
    } else {
        lemma_find_from(hay, needle, from + 1);
    }
}

/// An occurrence at `at` with none before it, from `from` on, is what
/// `find_from` returns.
pub proof fn lemma_find_from_is(hay: Seq<char>, needle: Seq<char>, from: int, at: int)
    requires
        0 <= from <= at,
        occurs_at(hay, needle, at),
        forall|j: int| from <= j < at ==> !occurs_at(hay, needle, j),
    ensures
        find_from(hay, needle, from) == Some(at),
{
    lemma_find_from(hay, needle, from);
}

/// Two texts in which `needle` stands at the same offsets give the same
/// first occurrence.
pub proof fn lemma_find_same(a: Seq<char>, b: Seq<char>, needle: Seq<char>)
    requires
        forall|at: int| occurs_at(a, needle, at) == occurs_at(b, needle, at),
    ensures
        find(a, needle) == find(b, needle),
{
    lemma_find_from(a, needle, 0);
    lemma_find_from(b, needle, 0);
}

/// One more character at the end, other than the needle's last, adds no
/// occurrence and takes none away.
pub proof fn lemma_find_ignores_tail(hay: Seq<char>, last: char, needle: Seq<char>)
    requires
        needle.len() > 0,
        needle.last() != last,
    ensures
        find(hay.push(last), needle) == find(hay, needle),
{
    let longer = hay.push(last);
    assert forall|at: int| occurs_at(longer, needle, at) == occurs_at(hay, needle, at) by {
        if 0 <= at && at + needle.len() <= hay.len() {
            assert(longer.subrange(at, at + needle.len()) =~= hay.subrange(
                at,
                at + needle.len(),
            ));
        }
    }
    lemma_find_same(longer, hay, needle);
}

/// Inside a slice of `hay`, an occurrence is an occurrence in `hay`,
/// shifted by where the slice starts.
pub proof fn lemma_occurs_in_subrange(
    hay: Seq<char>,
    from: int,
    to: int,
    needle: Seq<char>,
    at: int,
)
    requires
        0 <= from <= to <= hay.len(),
        0 <= at,
        at + needle.len() <= to - from,
    ensures
        occurs_at(hay.subrange(from, to), needle, at) == occurs_at(hay, needle, from + at),
{
    assert(hay.subrange(from, to).subrange(at, at + needle.len()) =~= hay.subrange(
        from + at,
        from + at + needle.len(),
    ));
}

/// The trimmed length marks where the trailing white space begins.
pub proof fn lemma_trimmed_len(s: Seq<char>)
    ensures
        0 <= trimmed_len(s) <= s.len(),
        is_blank(s.subrange(trimmed_len(s), s.len() as int)),
        trimmed_len(s) > 0 ==> !is_space(s[trimmed_len(s) - 1]),
    decreases s.len(),
{
    if s.len() > 0 && is_space(s.last()) {
        lemma_trimmed_len(s.drop_last());
        let t = trimmed_len(s);
        assert forall|i: int| 0 <= i < s.len() - t implies is_space(
            #[trigger] s.subrange(t, s.len() as int)[i],
        ) by {
            if i < s.len() - 1 - t {
                assert(s.drop_last().subrange(t, s.len() - 1)[i] == s[t + i]);
            }
        }
    }
}

/// Tells white space from other characters.
pub fn is_whitespace(c: char) -> (r: bool)
    ensures
        r == is_space(c),
{
    let u: u32 = c as u32;
    (0x09 <= u && u <= 0x0D) || u == 0x20 || u == 0x85 || u == 0xA0 || u == 0x1680 || (0x2000 <= u
        && u <= 0x200A) || u == 0x2028 || u == 0x2029 || u == 0x202F || u == 0x205F || u == 0x3000
}

/// Collects the characters of `s`.
pub fn to_chars(s: &str) -> (v: Vec<char>)
    ensures
        v@ == s@,
{
    let mut v: Vec<char> = Vec::new();
    for c in it: s.chars()
        invariant
            it.seq() == s@,
            v@ == s@.take(it.index() as int),
    {
        v.push(c);
    }
    v
}

/// `String::push` appends one character to the end of the string.
pub assume_specification[ String::push ](s: &mut String, ch: char)
    ensures
        final(s)@ == old(s)@.push(ch),
;

/// Appends the characters `text[from..to]` to `out`.
pub fn push_chars(out: &mut String, text: &[char], from: usize, to: usize)
    requires
        from <= to <= text@.len(),
    ensures
        final(out)@ == old(out)@ + text@.subrange(from as int, to as int),
{
    let mut i: usize = from;
    while i < to
        invariant
            from <= i <= to <= text@.len(),
            out@ == old(out)@ + text@.subrange(from as int, i as int),
        decreases to - i,
    {
        out.push(text[i]);
        i += 1;
    }
}

/// Tells whether `s` is the two characters `a`, `b`.
pub fn is_word2(s: &[char], a: char, b: char) -> (r: bool)
    ensures
        r == spells2(s@, a, b),
{
    s.len() == 2 && s[0] == a && s[1] == b
}

/// Tells whether `s` is the three characters `a`, `b`, `c`.
pub fn is_word3(s: &[char], a: char, b: char, c: char) -> (r: bool)
    ensures
        r == spells3(s@, a, b, c),
{
    s.len() == 3 && s[0] == a && s[1] == b && s[2] == c
}

/// Tells whether `s` is the four characters `a`, `b`, `c`, `d`.
pub fn is_word4(s: &[char], a: char, b: char, c: char, d: char) -> (r: bool)
    ensures
        r == spells4(s@, a, b, c, d),
{
    s.len() == 4 && s[0] == a && s[1] == b && s[2] == c && s[3] == d
}

/// Tells whether `needle` stands in `hay` at offset `at`.
pub fn matches_at(hay: &[char], needle: &[char], at: usize) -> (r: bool)
    ensures
        r == occurs_at(hay@, needle@, at as int),
{
    let n: usize = needle.len();
    if n > hay.len() || at > hay.len() - n {
        return false;
    }
    let mut k: usize = 0;
    while k < n
        invariant
            n == needle@.len(),
            at + n <= hay@.len() <= usize::MAX,
            k <= n,
            forall|j: int| 0 <= j < k ==> hay@[at + j] == needle@[j],
        decreases n - k,
    {
        if hay[at + k] != needle[k] {
            return false;
        }
        k += 1;
    }
    assert(hay@.subrange(at as int, at + n) =~= needle@);
    true
}

/// Searches `hay[from..to]` for `needle`; the offset returned counts from
/// `from`.
pub fn find_within(hay: &[char], from: usize, to: usize, needle: &[char]) -> (r: Option<usize>)
    requires
        from <= to <= hay@.len(),
    ensures
        match r {
            Some(at) => find(hay@.subrange(from as int, to as int), needle@) == Some(at as int),
            None => find(hay@.subrange(from as int, to as int), needle@) is None,
        },
{
    let ghost sub = hay@.subrange(from as int, to as int);
    let n: usize = needle.len();
    if n > to - from {
        proof {
            lemma_find_from(sub, needle@, 0);
        }
        return None;
    }
    let last: usize = to - from - n;
    let mut i: usize = 0;
    loop
        invariant
            from <= to <= hay@.len(),
            n == needle@.len(),
            last == to - from - n,
            i <= last,
            sub == hay@.subrange(from as int, to as int),
            forall|j: int| 0 <= j < i ==> !occurs_at(sub, needle@, j),
        decreases last - i,
    {
        proof {
            lemma_occurs_in_subrange(hay@, from as int, to as int, needle@, i as int);
        }
        if matches_at(hay, needle, from + i) {
            proof {
                lemma_find_from_is(sub, needle@, 0, i as int);
            }
            return Some(i);
        }
        if i == last {
            proof {
                lemma_find_from(sub, needle@, 0);
            }
            return None;
        }
        i += 1;
    }
}

/// Finds where the trailing white space of `hay[from..to]` begins.
pub fn trim_end_within(hay: &[char], from: usize, to: usize) -> (r: usize)
    requires
        from <= to <= hay@.len(),
    ensures
        from <= r <= to,
        r - from == trimmed_len(hay@.subrange(from as int, to as int)),
{
    let mut e: usize = to;
    while e > from && is_whitespace(hay[e - 1])
        invariant
            from <= e <= to <= hay@.len(),
            trimmed_len(hay@.subrange(from as int, to as int)) == trimmed_len(
                hay@.subrange(from as int, e as int),
            ),
        decreases e - from,
    {
        assert(hay@.subrange(from as int, e as int).drop_last() =~= hay@.subrange(
            from as int,
            e - 1,
        ));
        e -= 1;
    }
    e
}

/// Tells whether `hay[from..to]` is all white space.
pub fn blank_within(hay: &[char], from: usize, to: usize) -> (r: bool)
    requires
        from <= to <= hay@.len(),
    ensures
        r == is_blank(hay@.subrange(from as int, to as int)),
{
    let mut i: usize = from;
    while i < to
        invariant
            from <= i <= to <= hay@.len(),
            forall|j: int| from <= j < i ==> is_space(#[trigger] hay@[j]),
        decreases to - i,
    {
        if !is_whitespace(hay[i]) {
            assert(!is_space(hay@.subrange(from as int, to as int)[i - from]));
            return false;
        }
        i += 1;
    }
    true
}

} // verus!
