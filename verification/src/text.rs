//! Character-level text utilities: the whitespace class used for trimming,
//! searching for a character, trimming a line, and splitting decoded text
//! into lines.
use vstd::prelude::*;

verus! {

/// True of the characters with the Unicode `White_Space` property, the set
/// that `str::trim` removes at either end of a string.
pub open spec fn is_space(c: char) -> bool {
    c == ' ' || c == '\t' || c == '\n' || c == '\r' || c == '\u{000B}' || c == '\u{000C}'
        || c == '\u{0085}' || c == '\u{00A0}' || c == '\u{1680}' || c == '\u{2000}'
        || c == '\u{2001}' || c == '\u{2002}' || c == '\u{2003}' || c == '\u{2004}'
        || c == '\u{2005}' || c == '\u{2006}' || c == '\u{2007}' || c == '\u{2008}'
        || c == '\u{2009}' || c == '\u{200A}' || c == '\u{2028}' || c == '\u{2029}'
        || c == '\u{202F}' || c == '\u{205F}' || c == '\u{3000}'
}

/// Runtime test for [`is_space`].
pub fn check_space(c: char) -> (r: bool)
    ensures
        r == is_space(c),
{
    c == ' ' || c == '\t' || c == '\n' || c == '\r' || c == '\u{000B}' || c == '\u{000C}'
        || c == '\u{0085}' || c == '\u{00A0}' || c == '\u{1680}' || c == '\u{2000}'
        || c == '\u{2001}' || c == '\u{2002}' || c == '\u{2003}' || c == '\u{2004}'
        || c == '\u{2005}' || c == '\u{2006}' || c == '\u{2007}' || c == '\u{2008}'
        || c == '\u{2009}' || c == '\u{200A}' || c == '\u{2028}' || c == '\u{2029}'
        || c == '\u{202F}' || c == '\u{205F}' || c == '\u{3000}'
}

/// Index of the first occurrence of `c` in `s` at or after `from`, or
/// `s.len()` if there is none.
pub open spec fn find_char(s: Seq<char>, c: char, from: int) -> int
    decreases s.len() - from,
{
    if from < 0 || from >= s.len() {
        s.len() as int
    } else if s[from] == c {
        from
    } else {
        find_char(s, c, from + 1)
    }
}

pub proof fn lemma_find_char_props(s: Seq<char>, c: char, from: int)
    requires
        0 <= from <= s.len(),
    ensures
        from <= find_char(s, c, from) <= s.len(),
        find_char(s, c, from) < s.len() ==> s[find_char(s, c, from)] == c,
        forall|k: int| from <= k < find_char(s, c, from) ==> s[k] != c,
    decreases s.len() - from,
{
    if from < s.len() && s[from] != c {
        lemma_find_char_props(s, c, from + 1);
    }
}

/// If no occurrence lies in `[from, i)` and `i` is an occurrence or the end,
/// then `i` is the first occurrence at or after `from`.
pub proof fn lemma_find_char_at(s: Seq<char>, c: char, from: int, i: int)
    requires
        0 <= from <= i <= s.len(),
        forall|k: int| from <= k < i ==> s[k] != c,
        i == s.len() || s[i] == c,
    ensures
        find_char(s, c, from) == i,
    decreases i - from,
{
    if from < i {
        lemma_find_char_at(s, c, from + 1, i);
    }
}

/// First occurrence of `c` in `s` at or after `from`, or `s.len()` if none.
pub fn find_char_in(s: &Vec<char>, c: char, from: usize) -> (r: usize)
    requires
        from <= s@.len(),
    ensures
        r == find_char(s@, c, from as int),
        from <= r <= s@.len(),
        r < s@.len() ==> s@[r as int] == c,
        forall|k: int| from <= k < r ==> s@[k] != c,
{
    let mut i: usize = from;
    while i < s.len()
        invariant
            from <= i <= s@.len(),
            forall|k: int| from <= k < i ==> s@[k] != c,
        decreases s@.len() - i,
    {
        if s[i] == c {
            proof {
                lemma_find_char_at(s@, c, from as int, i as int);
            }
            return i;
        }
        i += 1;
    }
    proof {
        lemma_find_char_at(s@, c, from as int, i as int);
    }
    i
}

/// `s` with its leading whitespace removed.
pub open spec fn trim_front(s: Seq<char>) -> Seq<char>
    decreases s.len(),
{
    if s.len() > 0 && is_space(s[0]) {
        trim_front(s.drop_first())
    } else {
        s
    }
}

/// `s` with its trailing whitespace removed.
pub open spec fn trim_back(s: Seq<char>) -> Seq<char>
    decreases s.len(),
{
    if s.len() > 0 && is_space(s.last()) {
        trim_back(s.drop_last())
    } else {
        s
    }
}

/// `s` with whitespace removed at both ends: the meaning of `str::trim`.
pub open spec fn trim(s: Seq<char>) -> Seq<char> {
    trim_back(trim_front(s))
}

proof fn lemma_trim_front_at(s: Seq<char>, a: int)
    requires
        0 <= a <= s.len(),
        forall|k: int| 0 <= k < a ==> is_space(s[k]),
        a == s.len() || !is_space(s[a]),
    ensures
        trim_front(s) == s.subrange(a, s.len() as int),
    decreases a,
{
    if a > 0 {
        lemma_trim_front_at(s.drop_first(), a - 1);
        assert(s.drop_first().subrange(a - 1, s.drop_first().len() as int) =~= s.subrange(
            a,
            s.len() as int,
        ));
    } else {
        assert(s.subrange(0, s.len() as int) =~= s);
    }
}

proof fn lemma_trim_back_at(s: Seq<char>, b: int)
    requires
        0 <= b <= s.len(),
        forall|k: int| b <= k < s.len() ==> is_space(s[k]),
        b == 0 || !is_space(s[b - 1]),
    ensures
        trim_back(s) == s.subrange(0, b),
    decreases s.len() - b,
{
    if b < s.len() {
        lemma_trim_back_at(s.drop_last(), b);
        assert(s.drop_last().subrange(0, b) =~= s.subrange(0, b));
    } else {
        assert(s.subrange(0, s.len() as int) =~= s);
    }
}

/// Copy of `s` with whitespace removed at both ends.
pub fn trim_chars(s: &Vec<char>) -> (r: Vec<char>)
    ensures
        r@ == trim(s@),
{
    let mut a: usize = 0;
    while a < s.len() && check_space(s[a])
        invariant
            a <= s@.len(),
            forall|k: int| 0 <= k < a ==> is_space(s@[k]),
        decreases s@.len() - a,
    {
        a += 1;
    }
    proof {
        lemma_trim_front_at(s@, a as int);
    }
    if a == s.len() {
        let r: Vec<char> = Vec::new();
        proof {
            assert(trim_front(s@) =~= Seq::<char>::empty());
            assert(trim(s@) =~= Seq::<char>::empty());
        }
        return r;
    }
    let mut b: usize = s.len();
    while b > a + 1 && check_space(s[b - 1])
        invariant
            a < b <= s@.len(),
            forall|k: int| b <= k < s@.len() ==> is_space(s@[k]),
        decreases b,
    {
        b -= 1;
    }
    // b > a and s[b - 1] is not whitespace: either the scan stopped on a
    // non-space character, or it reached a + 1 and s[a] is not a space.
    proof {
        let tf = trim_front(s@);
        assert(tf == s@.subrange(a as int, s@.len() as int));
        assert(forall|k: int| b - a <= k < tf.len() ==> is_space(tf[k]));
        assert(!is_space(s@[b - 1]));
        assert(tf[b - a - 1] == s@[b - 1]);
        lemma_trim_back_at(tf, b - a);
        assert(trim(s@) =~= s@.subrange(a as int, b as int));
    }
    let mut r: Vec<char> = Vec::new();
    let mut i: usize = a;
    while i < b
        invariant
            a <= i <= b <= s@.len(),
            r@ == s@.subrange(a as int, i as int),
        decreases b - i,
    {
        r.push(s[i]);
        proof {
            assert(s@.subrange(a as int, i + 1) =~= s@.subrange(a as int, i as int).push(
                s@[i as int],
            ));
        }
        i += 1;
    }
    r
}

/// Copy of the characters of `s` in positions `[a, b)`.
pub fn copy_range(s: &Vec<char>, a: usize, b: usize) -> (r: Vec<char>)
    requires
        a <= b <= s@.len(),
    ensures
        r@ == s@.subrange(a as int, b as int),
{
    let mut r: Vec<char> = Vec::new();
    let mut i: usize = a;
    while i < b
        invariant
            a <= i <= b <= s@.len(),
            r@ == s@.subrange(a as int, i as int),
        decreases b - i,
    {
        r.push(s[i]);
        proof {
            assert(s@.subrange(a as int, i + 1) =~= s@.subrange(a as int, i as int).push(
                s@[i as int],
            ));
        }
        i += 1;
    }
    r
}

/// A line with one trailing carriage return removed, as `str::lines` does for
/// lines that end in `\r\n`.
pub open spec fn strip_cr(s: Seq<char>) -> Seq<char> {
    if s.len() > 0 && s.last() == '\r' {
        s.drop_last()
    } else {
        s
    }
}

/// The line records of `text`, split at `\n` with a trailing `\r` removed
/// from each line; a final line without terminator is kept as it stands.
/// This is the meaning of `str::lines`.
pub open spec fn spec_lines(text: Seq<char>) -> Seq<Seq<char>>
    decreases text.len(), via spec_lines_decreases
{
    if text.len() == 0 {
        Seq::empty()
    } else {
        let i = find_char(text, '\n', 0);
        if i >= text.len() {
            seq![text]
        } else {
            seq![strip_cr(text.subrange(0, i))] + spec_lines(text.skip(i + 1))
        }
    }
}

#[via_fn]
proof fn spec_lines_decreases(text: Seq<char>) {
    lemma_find_char_props(text, '\n', 0);
}

/// Split `text` into its line records.
pub fn split_lines(text: &Vec<char>) -> (r: Vec<Vec<char>>)
    ensures
        r.deep_view() == spec_lines(text@),
{
    let mut r: Vec<Vec<char>> = Vec::new();
    let mut cur: Vec<char> = Vec::new();
    let mut start: usize = 0;
    let mut i: usize = 0;
    proof {
        assert(text@.skip(0) =~= text@);
        assert(r.deep_view() + spec_lines(text@) =~~= spec_lines(text@));
        assert(cur@ =~= text@.subrange(0, 0));
    }
    while i < text.len()
        invariant
            start <= i <= text@.len(),
            cur@ == text@.subrange(start as int, i as int),
            forall|k: int| start <= k < i ==> text@[k] != '\n',
            spec_lines(text@) == r.deep_view() + spec_lines(text@.skip(start as int)),
        decreases text@.len() - i,
    {
        let c = text[i];
        if c == '\n' {
            proof {
                let rest = text@.skip(start as int);
                assert(forall|k: int| 0 <= k < i - start ==> rest[k] != '\n');
                lemma_find_char_at(rest, '\n', 0, i - start);
                assert(rest.subrange(0, i - start) =~= cur@);
                assert(rest.skip(i - start + 1) =~= text@.skip(i + 1));
                assert(spec_lines(rest) == seq![strip_cr(cur@)] + spec_lines(text@.skip(i + 1)));
            }
            if cur.len() > 0 && cur[cur.len() - 1] == '\r' {
                cur.pop();
            }
            proof {
                assert(cur@ == strip_cr(text@.subrange(start as int, i as int)));
            }
            let ghost old_r = r.deep_view();
            r.push(cur);
            proof {
                assert(r.deep_view() =~~= old_r.push(cur@));
                assert(old_r + (seq![cur@] + spec_lines(text@.skip(i + 1))) =~~= old_r.push(cur@)
                    + spec_lines(text@.skip(i + 1)));
            }
            cur = Vec::new();
            start = i + 1;
            proof {
                assert(cur@ =~= text@.subrange(start as int, start as int));
            }
        } else {
            cur.push(c);
            proof {
                assert(text@.subrange(start as int, i + 1) =~= text@.subrange(
                    start as int,
                    i as int,
                ).push(text@[i as int]));
            }
        }
        i += 1;
    }
    if cur.len() > 0 {
        proof {
            let rest = text@.skip(start as int);
            lemma_find_char_at(rest, '\n', 0, rest.len() as int);
            assert(rest =~= cur@);
            assert(spec_lines(rest) == seq![cur@]);
        }
        let ghost old_r = r.deep_view();
        r.push(cur);
        proof {
            assert(r.deep_view() =~~= old_r.push(cur@));
            assert(old_r + seq![cur@] =~~= old_r.push(cur@));
        }
    } else {
        proof {
            assert(start == i);
            assert(text@.skip(start as int).len() == 0);
            assert(r.deep_view() + spec_lines(text@.skip(start as int)) =~~= r.deep_view());
        }
    }
    r
}

} // verus!
