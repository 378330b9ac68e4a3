//! Extraction of the optional title and author from the leading lines of the
//! decoded text. A title is the first non-empty bracketed span `《…》` on one
//! of the first twelve lines, skipping lines that carry a chapter or round
//! glyph; an author is what follows the first `作者：` marker on one of the
//! first twelve lines. Either capture is trimmed and accepted only when it
//! has between one and forty characters.
use crate::text::{copy_range, find_char, find_char_in, lemma_find_char_props, trim, trim_chars};
use vstd::prelude::*;

verus! {

/// How many leading lines are searched for metadata.
pub open spec fn metadata_window() -> int {
    12
}

/// The first bracketed capture of `l` at or after `from`, as the leftmost
/// match of `《([^》]+)》` finds it: the capture runs from the first viable
/// opening bracket to the first closing bracket after it, and an opening
/// bracket immediately followed by a closing one is passed over.
pub open spec fn bracket_capture(l: Seq<char>, from: int) -> Option<Seq<char>>
    decreases l.len() - from, via bracket_capture_decreases
{
    if from < 0 || from >= l.len() {
        None
    } else {
        let i = find_char(l, '\u{300A}', from);
        if i >= l.len() {
            None
        } else {
            let j = find_char(l, '\u{300B}', i + 1);
            if j >= l.len() {
                None
            } else if j > i + 1 {
                Some(l.subrange(i + 1, j))
            } else {
                bracket_capture(l, i + 1)
            }
        }
    }
}

#[via_fn]
proof fn bracket_capture_decreases(l: Seq<char>, from: int) {
    if 0 <= from < l.len() {
        lemma_find_char_props(l, '\u{300A}', from);
    }
}

/// The accepted title of a single line, if any.
pub open spec fn line_title(line: Seq<char>) -> Option<Seq<char>> {
    let t = trim(line);
    if t.contains('\u{7AE0}') || t.contains('\u{56DE}') {
        None
    } else {
        match bracket_capture(t, 0) {
            Option::Some(cap) => {
                let tt = trim(cap);
                if 1 <= tt.len() <= 40 {
                    Option::Some(tt)
                } else {
                    Option::None
                }
            },
            Option::None => Option::None,
        }
    }
}

/// A `作者：` marker standing at position `i` of `l`.
pub open spec fn marker_at(l: Seq<char>, i: int) -> bool {
    0 <= i && i + 3 <= l.len() && l[i] == '\u{4F5C}' && l[i + 1] == '\u{8005}' && l[i + 2]
        == '\u{FF1A}'
}

/// Position of the first author marker in `l` at or after `from`, or
/// `l.len()` if there is none.
pub open spec fn find_marker(l: Seq<char>, from: int) -> int
    decreases l.len() - from,
{
    if from < 0 || from >= l.len() {
        l.len() as int
    } else if marker_at(l, from) {
        from
    } else {
        find_marker(l, from + 1)
    }
}

proof fn lemma_find_marker_at(l: Seq<char>, from: int, i: int)
    requires
        0 <= from <= i <= l.len(),
        forall|k: int| from <= k < i ==> !marker_at(l, k),
        i == l.len() || marker_at(l, i),
    ensures
        find_marker(l, from) == i,
    decreases i - from,
{
    if from < i {
        lemma_find_marker_at(l, from + 1, i);
    }
}

/// The accepted author of a single line, if any: what follows the first
/// author marker, trimmed, when it has between one and forty characters.
pub open spec fn line_author(line: Seq<char>) -> Option<Seq<char>> {
    let t = trim(line);
    let i = find_marker(t, 0);
    if i + 3 < t.len() {
        let tt = trim(t.subrange(i + 3, t.len() as int));
        if 1 <= tt.len() <= 40 {
            Option::Some(tt)
        } else {
            Option::None
        }
    } else {
        None
    }
}

/// The first line of `lines` on which `f` accepts a value decides the scan.
pub open spec fn scan_lines(
    lines: Seq<Seq<char>>,
    f: spec_fn(Seq<char>) -> Option<Seq<char>>,
) -> Option<Seq<char>>
    decreases lines.len(),
{
    if lines.len() == 0 {
        None
    } else if f(lines[0]) is Some {
        f(lines[0])
    } else {
        scan_lines(lines.drop_first(), f)
    }
}

proof fn lemma_scan_lines_skip(
    lines: Seq<Seq<char>>,
    f: spec_fn(Seq<char>) -> Option<Seq<char>>,
    i: int,
)
    requires
        0 <= i <= lines.len(),
        forall|k: int| 0 <= k < i ==> f(#[trigger] lines[k]) is None,
    ensures
        scan_lines(lines, f) == scan_lines(lines.skip(i), f),
    decreases i,
{
    if i > 0 {
        lemma_scan_lines_skip(lines.drop_first(), f, i - 1);
        assert(lines.drop_first().skip(i - 1) =~~= lines.skip(i));
        assert(lines.skip(0) =~~= lines);
    } else {
        assert(lines.skip(0) =~~= lines);
    }
}

/// The number of leading lines searched: all of them, up to twelve.
pub open spec fn window_len(lines: Seq<Seq<char>>) -> int {
    if lines.len() < metadata_window() {
        lines.len() as int
    } else {
        metadata_window()
    }
}

/// The detected title of the document, if any.
pub open spec fn spec_title(lines: Seq<Seq<char>>) -> Option<Seq<char>> {
    scan_lines(lines.take(window_len(lines)), |l: Seq<char>| line_title(l))
}

/// The detected author of the document, if any.
pub open spec fn spec_author(lines: Seq<Seq<char>>) -> Option<Seq<char>> {
    scan_lines(lines.take(window_len(lines)), |l: Seq<char>| line_author(l))
}

fn contains_char(s: &Vec<char>, c: char) -> (r: bool)
    ensures
        r == s@.contains(c),
{
    let mut i: usize = 0;
    while i < s.len()
        invariant
            i <= s@.len(),
            forall|k: int| 0 <= k < i ==> s@[k] != c,
        decreases s@.len() - i,
    {
        if s[i] == c {
            return true;
        }
        i += 1;
    }
    false
}

fn bracket_capture_in(t: &Vec<char>) -> (r: Option<Vec<char>>)
    ensures
        r.deep_view() == bracket_capture(t@, 0),
{
    let mut from: usize = 0;
    while from < t.len()
        invariant
            from <= t@.len(),
            bracket_capture(t@, 0) == bracket_capture(t@, from as int),
        decreases t@.len() - from,
    {
        let i = find_char_in(t, '\u{300A}', from);
        if i == t.len() {
            return None;
        }
        let j = find_char_in(t, '\u{300B}', i + 1);
        if j == t.len() {
            return None;
        }
        if j > i + 1 {
            let cap = copy_range(t, i + 1, j);
            proof {
                assert(cap.deep_view() =~= cap@);
            }
            return Some(cap);
        }
        from = i + 1;
    }
    None
}

fn line_title_in(line: &Vec<char>) -> (r: Option<Vec<char>>)
    ensures
        r.deep_view() == line_title(line@),
{
    let t = trim_chars(line);
    if contains_char(&t, '\u{7AE0}') || contains_char(&t, '\u{56DE}') {
        return None;
    }
    match bracket_capture_in(&t) {
        Option::Some(cap) => {
            let tt = trim_chars(&cap);
            proof {
                assert(cap.deep_view() =~= cap@);
                assert(tt.deep_view() =~= tt@);
            }
            if tt.len() >= 1 && tt.len() <= 40 {
                Some(tt)
            } else {
                None
            }
        },
        Option::None => None,
    }
}

fn find_marker_in(t: &Vec<char>) -> (r: usize)
    ensures
        r == find_marker(t@, 0),
        r <= t@.len(),
{
    let mut i: usize = 0;
    while i < t.len()
        invariant
            i <= t@.len(),
            forall|k: int| 0 <= k < i ==> !marker_at(t@, k),
        decreases t@.len() - i,
    {
        if t.len() > 2 && i < t.len() - 2 && t[i] == '\u{4F5C}' && t[i + 1] == '\u{8005}' && t[i
            + 2] == '\u{FF1A}' {
            proof {
                lemma_find_marker_at(t@, 0, i as int);
            }
            return i;
        }
        proof {
            assert(!marker_at(t@, i as int));
        }
        i += 1;
    }
    proof {
        lemma_find_marker_at(t@, 0, i as int);
    }
    i
}

fn line_author_in(line: &Vec<char>) -> (r: Option<Vec<char>>)
    ensures
        r.deep_view() == line_author(line@),
{
    let t = trim_chars(line);
    let i = find_marker_in(&t);
    if t.len() > 3 && i < t.len() - 3 {
        let cap = copy_range(&t, i + 3, t.len());
        let tt = trim_chars(&cap);
        proof {
            assert(tt.deep_view() =~= tt@);
        }
        if tt.len() >= 1 && tt.len() <= 40 {
            Some(tt)
        } else {
            None
        }
    } else {
        None
    }
}

/// Scan the first twelve lines for a title.
pub fn detect_title(lines: &Vec<Vec<char>>) -> (r: Option<Vec<char>>)
    ensures
        r.deep_view() == spec_title(lines.deep_view()),
{
    let n: usize = if lines.len() < 12 {
        lines.len()
    } else {
        12
    };
    let ghost pref = lines.deep_view().take(window_len(lines.deep_view()));
    let ghost f = |l: Seq<char>| line_title(l);
    let mut i: usize = 0;
    while i < n
        invariant
            i <= n,
            n as int == window_len(lines.deep_view()),
            n <= lines@.len(),
            pref == lines.deep_view().take(n as int),
            forall|k: int| 0 <= k < i ==> f(#[trigger] pref[k]) is None,
            f == (|l: Seq<char>| line_title(l)),
        decreases n - i,
    {
        let lt = line_title_in(&lines[i]);
        proof {
            assert(pref[i as int] =~= lines@[i as int]@);
        }
        if lt.is_some() {
            proof {
                lemma_scan_lines_skip(pref, f, i as int);
                assert(pref.skip(i as int)[0] == pref[i as int]);
            }
            return lt;
        }
        i += 1;
    }
    proof {
        lemma_scan_lines_skip(pref, f, n as int);
        assert(pref.skip(n as int).len() == 0);
    }
    None
}

/// Scan the first twelve lines for an author.
pub fn detect_author(lines: &Vec<Vec<char>>) -> (r: Option<Vec<char>>)
    ensures
        r.deep_view() == spec_author(lines.deep_view()),
{
    let n: usize = if lines.len() < 12 {
        lines.len()
    } else {
        12
    };
    let ghost pref = lines.deep_view().take(window_len(lines.deep_view()));
    let ghost f = |l: Seq<char>| line_author(l);
    let mut i: usize = 0;
    while i < n
        invariant
            i <= n,
            n as int == window_len(lines.deep_view()),
            n <= lines@.len(),
            pref == lines.deep_view().take(n as int),
            forall|k: int| 0 <= k < i ==> f(#[trigger] pref[k]) is None,
            f == (|l: Seq<char>| line_author(l)),
        decreases n - i,
    {
        let la = line_author_in(&lines[i]);
        proof {
            assert(pref[i as int] =~= lines@[i as int]@);
        }
        if la.is_some() {
            proof {
                lemma_scan_lines_skip(pref, f, i as int);
                assert(pref.skip(i as int)[0] == pref[i as int]);
            }
            return la;
        }
        i += 1;
    }
    proof {
        lemma_scan_lines_skip(pref, f, n as int);
        assert(pref.skip(n as int).len() == 0);
    }
    None
}

} // verus!
