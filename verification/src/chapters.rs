//! Partitioning of the decoded lines into chapters. A single left-to-right
//! pass keeps the open heading and the body lines gathered so far: a heading
//! line closes the open chapter and opens a new one, any other line is
//! appended untrimmed to the body, and text before the first heading is
//! discarded. A chapter's content is its body lines joined by line breaks,
//! with leading and trailing blank lines dropped; whitespace inside the
//! first and last kept lines stays.
use crate::decode::chars_to_string;
use crate::headings::{check_heading, is_heading};
use crate::novel::{Chapter, ChapterView};
use crate::text::{copy_range, trim, trim_chars};
use vstd::prelude::*;

verus! {

/// A line that holds nothing but whitespace, if anything.
pub open spec fn is_blank(l: Seq<char>) -> bool {
    trim(l).len() == 0
}

/// Runtime test for [`is_blank`].
pub fn check_blank(l: &Vec<char>) -> (r: bool)
    ensures
        r == is_blank(l@),
{
    let t = trim_chars(l);
    t.len() == 0
}

/// The body lines with their leading blank lines removed.
pub open spec fn drop_blank_front(ls: Seq<Seq<char>>) -> Seq<Seq<char>>
    decreases ls.len(),
{
    if ls.len() > 0 && is_blank(ls[0]) {
        drop_blank_front(ls.drop_first())
    } else {
        ls
    }
}

/// The body lines with their trailing blank lines removed.
pub open spec fn drop_blank_back(ls: Seq<Seq<char>>) -> Seq<Seq<char>>
    decreases ls.len(),
{
    if ls.len() > 0 && is_blank(ls.last()) {
        drop_blank_back(ls.drop_last())
    } else {
        ls
    }
}

/// The lines joined by single line breaks, with no break after the last.
pub open spec fn join_lines(ls: Seq<Seq<char>>) -> Seq<char>
    decreases ls.len(),
{
    if ls.len() == 0 {
        Seq::empty()
    } else if ls.len() == 1 {
        ls[0]
    } else {
        ls[0] + seq!['\n'] + join_lines(ls.drop_first())
    }
}

/// The content of a chapter: its body lines, stripped of leading and
/// trailing blank lines only, joined by line breaks. Whitespace at the
/// edges of the first and last kept lines is preserved.
pub open spec fn chapter_content(body: Seq<Seq<char>>) -> Seq<char> {
    join_lines(drop_blank_back(drop_blank_front(body)))
}

proof fn lemma_drop_blank_front_at(ls: Seq<Seq<char>>, a: int)
    requires
        0 <= a <= ls.len(),
        forall|k: int| 0 <= k < a ==> is_blank(#[trigger] ls[k]),
        a == ls.len() || !is_blank(ls[a]),
    ensures
        drop_blank_front(ls) == ls.subrange(a, ls.len() as int),
    decreases a,
{
    if a > 0 {
        lemma_drop_blank_front_at(ls.drop_first(), a - 1);
        assert(ls.drop_first().subrange(a - 1, ls.drop_first().len() as int) =~~= ls.subrange(
            a,
            ls.len() as int,
        ));
    } else {
        assert(ls.subrange(0, ls.len() as int) =~~= ls);
    }
}

proof fn lemma_drop_blank_back_at(ls: Seq<Seq<char>>, b: int)
    requires
        0 <= b <= ls.len(),
        forall|k: int| b <= k < ls.len() ==> is_blank(#[trigger] ls[k]),
        b == 0 || !is_blank(ls[b - 1]),
    ensures
        drop_blank_back(ls) == ls.subrange(0, b),
    decreases ls.len() - b,
{
    if b < ls.len() {
        lemma_drop_blank_back_at(ls.drop_last(), b);
        assert(ls.drop_last().subrange(0, b) =~~= ls.subrange(0, b));
    } else {
        assert(ls.subrange(0, ls.len() as int) =~~= ls);
    }
}

proof fn lemma_join_push(s: Seq<Seq<char>>, x: Seq<char>)
    ensures
        s.len() == 0 ==> join_lines(s.push(x)) == x,
        s.len() > 0 ==> join_lines(s.push(x)) == join_lines(s) + seq!['\n'] + x,
    decreases s.len(),
{
    if s.len() == 0 {
        assert(s.push(x)[0] == x);
    } else {
        lemma_join_push(s.drop_first(), x);
        assert(s.push(x).drop_first() =~~= s.drop_first().push(x));
        assert(s.push(x)[0] == s[0]);
        if s.len() > 1 {
            assert(s[0] + seq!['\n'] + (join_lines(s.drop_first()) + seq!['\n'] + x) =~= (s[0]
                + seq!['\n'] + join_lines(s.drop_first())) + seq!['\n'] + x);
        }
    }
}

/// The content of the gathered body lines, built at runtime.
fn content_of(buf: &Vec<Vec<char>>) -> (r: Vec<char>)
    ensures
        r@ == chapter_content(buf.deep_view()),
{
    let ghost ls = buf.deep_view();
    proof {
        assert forall|k: int| 0 <= k < ls.len() implies #[trigger] ls[k] == buf@[k]@ by {
            assert(ls[k] =~= buf@[k]@);
        }
    }
    let mut a: usize = 0;
    while a < buf.len() && check_blank(&buf[a])
        invariant
            a <= ls.len(),
            ls == buf.deep_view(),
            forall|k: int| 0 <= k < ls.len() ==> #[trigger] ls[k] == buf@[k]@,
            forall|k: int| 0 <= k < a ==> is_blank(#[trigger] ls[k]),
        decreases ls.len() - a,
    {
        a += 1;
    }
    proof {
        lemma_drop_blank_front_at(ls, a as int);
    }
    if a == buf.len() {
        let r: Vec<char> = Vec::new();
        proof {
            assert(drop_blank_front(ls) =~~= Seq::<Seq<char>>::empty());
            assert(r@ =~= chapter_content(ls));
        }
        return r;
    }
    let mut b: usize = buf.len();
    while b > a + 1 && check_blank(&buf[b - 1])
        invariant
            a < b <= ls.len(),
            ls == buf.deep_view(),
            forall|k: int| 0 <= k < ls.len() ==> #[trigger] ls[k] == buf@[k]@,
            forall|k: int| b <= k < ls.len() ==> is_blank(#[trigger] ls[k]),
        decreases b,
    {
        b -= 1;
    }
    // b > a and ls[b - 1] is not blank: either the scan stopped on a
    // non-blank line, or it reached a + 1 and ls[a] is not blank.
    proof {
        let front = drop_blank_front(ls);
        assert(front == ls.subrange(a as int, ls.len() as int));
        assert(forall|k: int| b - a <= k < front.len() ==> is_blank(#[trigger] front[k]));
        assert(!is_blank(ls[b - 1]));
        assert(front[b - a - 1] == ls[b - 1]);
        lemma_drop_blank_back_at(front, b - a);
        assert(drop_blank_back(front) =~~= ls.subrange(a as int, b as int));
    }
    let mut r: Vec<char> = Vec::new();
    let mut i: usize = a;
    proof {
        assert(ls.subrange(a as int, a as int) =~~= Seq::<Seq<char>>::empty());
        assert(r@ =~= join_lines(ls.subrange(a as int, a as int)));
    }
    while i < b
        invariant
            a <= i <= b <= ls.len(),
            ls == buf.deep_view(),
            forall|k: int| 0 <= k < ls.len() ==> #[trigger] ls[k] == buf@[k]@,
            r@ == join_lines(ls.subrange(a as int, i as int)),
        decreases b - i,
    {
        let ghost joined = join_lines(ls.subrange(a as int, i as int));
        if i > a {
            r.push('\n');
        }
        let line = &buf[i];
        let ghost r0 = r@;
        let mut k: usize = 0;
        proof {
            assert(r@ =~= r0 + line@.subrange(0, 0));
        }
        while k < line.len()
            invariant
                k <= line@.len(),
                r@ == r0 + line@.subrange(0, k as int),
            decreases line@.len() - k,
        {
            r.push(line[k]);
            proof {
                assert(r0 + line@.subrange(0, k + 1) =~= (r0 + line@.subrange(0, k as int)).push(
                    line@[k as int],
                ));
            }
            k += 1;
        }
        proof {
            assert(line@.subrange(0, line@.len() as int) =~= line@);
            assert(line@ == ls[i as int]);
            lemma_join_push(ls.subrange(a as int, i as int), ls[i as int]);
            assert(ls.subrange(a as int, i + 1) =~~= ls.subrange(a as int, i as int).push(
                ls[i as int],
            ));
            if i > a {
                assert(r@ =~= joined + seq!['\n'] + ls[i as int]);
            } else {
                assert(r@ =~= ls[i as int]);
            }
            assert(r@ == join_lines(ls.subrange(a as int, i + 1)));
        }
        i += 1;
    }
    proof {
        assert(r@ == chapter_content(ls));
    }
    r
}

/// The chapters that the remaining `lines` produce, given the heading that
/// is open (if any) and the untrimmed body lines gathered so far.
pub open spec fn segment(
    lines: Seq<Seq<char>>,
    cur: Option<Seq<char>>,
    body: Seq<Seq<char>>,
) -> Seq<ChapterView>
    decreases lines.len(),
{
    if lines.len() == 0 {
        match cur {
            Option::Some(t) => seq![ChapterView { title: t, content: chapter_content(body) }],
            Option::None => Seq::empty(),
        }
    } else {
        let t = trim(lines[0]);
        if is_heading(t) {
            match cur {
                Option::Some(ct) => seq![ChapterView { title: ct, content: chapter_content(body) }]
                    + segment(lines.drop_first(), Some(t), Seq::empty()),
                Option::None => segment(lines.drop_first(), Some(t), Seq::empty()),
            }
        } else {
            segment(lines.drop_first(), cur, body.push(lines[0]))
        }
    }
}

/// The chapters of a whole document.
pub open spec fn spec_chapters(lines: Seq<Seq<char>>) -> Seq<ChapterView> {
    segment(lines, None, Seq::empty())
}

/// Partition `lines` into chapters.
pub fn parse_chapters(lines: &Vec<Vec<char>>) -> (r: Vec<Chapter>)
    ensures
        r.deep_view() == spec_chapters(lines.deep_view()),
{
    let ghost all = lines.deep_view();
    let mut chapters: Vec<Chapter> = Vec::new();
    let mut cur: Option<Vec<char>> = None;
    let mut buf: Vec<Vec<char>> = Vec::new();
    let mut i: usize = 0;
    proof {
        assert(all.skip(0) =~~= all);
        assert(buf.deep_view() =~~= Seq::<Seq<char>>::empty());
        assert(chapters.deep_view() + segment(all, None, Seq::empty()) =~~= segment(
            all,
            None,
            Seq::empty(),
        ));
    }
    while i < lines.len()
        invariant
            i <= lines@.len(),
            all == lines.deep_view(),
            spec_chapters(all) == chapters.deep_view() + segment(
                all.skip(i as int),
                cur.deep_view(),
                buf.deep_view(),
            ),
        decreases lines@.len() - i,
    {
        let t = trim_chars(&lines[i]);
        proof {
            assert(all.skip(i as int)[0] =~= all[i as int]);
            assert(all[i as int] =~= lines@[i as int]@);
            assert(all.skip(i as int).drop_first() =~~= all.skip(i + 1));
        }
        if check_heading(&t) {
            let ghost cur0 = cur.deep_view();
            let ghost buf0 = buf.deep_view();
            let prev = cur;
            if let Some(ct) = prev {
                let title_s = chars_to_string(&ct);
                let content = content_of(&buf);
                let content_s = chars_to_string(&content);
                let ghost oldc = chapters.deep_view();
                let ghost emitted = ChapterView { title: ct@, content: chapter_content(buf0) };
                proof {
                    assert(ct.deep_view() =~= ct@);
                    assert(cur0 == Some(ct@));
                    assert(segment(all.skip(i as int), cur0, buf0) == seq![emitted] + segment(
                        all.skip(i + 1),
                        Some(t@),
                        Seq::<Seq<char>>::empty(),
                    ));
                }
                chapters.push(Chapter { title: title_s, content: content_s });
                proof {
                    assert(chapters.deep_view() =~~= oldc.push(emitted));
                    assert(oldc + (seq![emitted] + segment(
                        all.skip(i + 1),
                        Some(t@),
                        Seq::<Seq<char>>::empty(),
                    )) =~~= chapters.deep_view() + segment(
                        all.skip(i + 1),
                        Some(t@),
                        Seq::<Seq<char>>::empty(),
                    ));
                }
            } else {
                proof {
                    assert(cur0 is None);
                    assert(segment(all.skip(i as int), cur0, buf0) == segment(
                        all.skip(i + 1),
                        Some(t@),
                        Seq::<Seq<char>>::empty(),
                    ));
                }
            }
            proof {
                assert(t.deep_view() =~= t@);
            }
            let ghost tdeep = t.deep_view();
            cur = Some(t);
            buf = Vec::new();
            proof {
                assert(buf.deep_view() =~~= Seq::<Seq<char>>::empty());
                assert(cur.deep_view() == Some(tdeep));
            }
        } else {
            let line = &lines[i];
            let copy = copy_range(line, 0, line.len());
            let ghost buf0 = buf.deep_view();
            buf.push(copy);
            proof {
                assert(copy@ =~= all[i as int]);
                assert(buf.deep_view() =~~= buf0.push(all[i as int]));
            }
        }
        i += 1;
    }
    proof {
        assert(all.skip(i as int).len() == 0);
    }
    if let Some(ct) = cur {
        let title_s = chars_to_string(&ct);
        let content = content_of(&buf);
        let content_s = chars_to_string(&content);
        let ghost oldc = chapters.deep_view();
        let ghost emitted = ChapterView { title: ct@, content: chapter_content(buf.deep_view()) };
        proof {
            assert(ct.deep_view() =~= ct@);
        }
        chapters.push(Chapter { title: title_s, content: content_s });
        proof {
            assert(chapters.deep_view() =~~= oldc.push(emitted));
            assert(oldc + seq![emitted] =~~= chapters.deep_view());
        }
        chapters
    } else {
        proof {
            assert(chapters.deep_view() + Seq::<ChapterView>::empty() =~~= chapters.deep_view());
        }
        chapters
    }
}

/// Two chapter sequences that agree throughout, except that where the first
/// carries the title `ta` the second may carry `tb` instead.
pub open spec fn titles_swapped(
    r1: Seq<ChapterView>,
    r2: Seq<ChapterView>,
    ta: Seq<char>,
    tb: Seq<char>,
) -> bool {
    r1.len() == r2.len() && forall|j: int|
        0 <= j < r1.len() ==> ((#[trigger] r1[j]).content == r2[j].content && (r1[j].title
            == r2[j].title || (r1[j].title == ta && r2[j].title == tb)))
}

proof fn lemma_segment_title_only(
    lines: Seq<Seq<char>>,
    a: Seq<char>,
    b: Seq<char>,
    body: Seq<Seq<char>>,
)
    ensures
        ({
            let r1 = segment(lines, Some(a), body);
            let r2 = segment(lines, Some(b), body);
            r1.len() == r2.len() && r1.len() >= 1 && r1[0].content == r2[0].content && r1[0].title
                == a && r2[0].title == b && (forall|j: int| 1 <= j < r1.len() ==> r1[j] == r2[j])
        }),
    decreases lines.len(),
{
    if lines.len() > 0 {
        let t = trim(lines[0]);
        if is_heading(t) {
            lemma_segment_title_only(lines.drop_first(), t, t, Seq::empty());
        } else {
            lemma_segment_title_only(lines.drop_first(), a, b, body.push(lines[0]));
        }
    }
}

proof fn lemma_segment_swap(
    lines1: Seq<Seq<char>>,
    lines2: Seq<Seq<char>>,
    h: int,
    cur: Option<Seq<char>>,
    body: Seq<Seq<char>>,
)
    requires
        lines1.len() == lines2.len(),
        0 <= h < lines1.len(),
        forall|k: int| 0 <= k < lines1.len() && k != h ==> lines1[k] == #[trigger] lines2[k],
        is_heading(trim(lines1[h])),
        is_heading(trim(lines2[h])),
    ensures
        titles_swapped(
            segment(lines1, cur, body),
            segment(lines2, cur, body),
            trim(lines1[h]),
            trim(lines2[h]),
        ),
    decreases lines1.len(),
{
    let ta = trim(lines1[h]);
    let tb = trim(lines2[h]);
    if h == 0 {
        assert(lines1.drop_first() =~~= lines2.drop_first());
        lemma_segment_title_only(lines1.drop_first(), ta, tb, Seq::empty());
    } else {
        assert(lines1[0] == lines2[0]);
        assert(lines1.drop_first().len() == lines2.drop_first().len());
        assert forall|k: int|
            0 <= k < lines1.drop_first().len() && k != h - 1 implies lines1.drop_first()[k]
            == #[trigger] lines2.drop_first()[k] by {
            assert(lines1.drop_first()[k] == lines1[k + 1]);
            assert(lines2.drop_first()[k] == lines2[k + 1]);
        }
        assert(lines1.drop_first()[h - 1] == lines1[h]);
        assert(lines2.drop_first()[h - 1] == lines2[h]);
        let t = trim(lines1[0]);
        if is_heading(t) {
            lemma_segment_swap(
                lines1.drop_first(),
                lines2.drop_first(),
                h - 1,
                Some(t),
                Seq::empty(),
            );
        } else {
            lemma_segment_swap(
                lines1.drop_first(),
                lines2.drop_first(),
                h - 1,
                cur,
                body.push(lines1[0]),
            );
        }
    }
}

/// A heading line opens its own chapter whatever its form: replacing one
/// heading line of a document by any other heading line leaves the chapter
/// sequence unchanged — same number of chapters, same contents — except
/// that the chapter the line opens carries the new heading as its title.
pub proof fn lemma_heading_swap(lines1: Seq<Seq<char>>, lines2: Seq<Seq<char>>, h: int)
    requires
        lines1.len() == lines2.len(),
        0 <= h < lines1.len(),
        forall|k: int| 0 <= k < lines1.len() && k != h ==> lines1[k] == #[trigger] lines2[k],
        is_heading(trim(lines1[h])),
        is_heading(trim(lines2[h])),
    ensures
        titles_swapped(
            spec_chapters(lines1),
            spec_chapters(lines2),
            trim(lines1[h]),
            trim(lines2[h]),
        ),
{
    lemma_segment_swap(lines1, lines2, h, None, Seq::empty());
}

proof fn lemma_segment_no_heading(lines: Seq<Seq<char>>, body: Seq<Seq<char>>)
    requires
        forall|k: int| 0 <= k < lines.len() ==> !is_heading(trim(#[trigger] lines[k])),
    ensures
        segment(lines, None, body) == Seq::<ChapterView>::empty(),
    decreases lines.len(),
{
    if lines.len() > 0 {
        assert forall|k: int|
            0 <= k < lines.drop_first().len() implies !is_heading(
            trim(#[trigger] lines.drop_first()[k]),
        ) by {
            assert(lines.drop_first()[k] == lines[k + 1]);
        }
        lemma_segment_no_heading(lines.drop_first(), body.push(lines[0]));
    }
}

/// A document in which no line, trimmed, is a recognised heading yields no
/// chapters, however much body text it holds.
pub proof fn lemma_no_heading_no_chapters(lines: Seq<Seq<char>>)
    requires
        forall|k: int| 0 <= k < lines.len() ==> !is_heading(trim(#[trigger] lines[k])),
    ensures
        spec_chapters(lines) == Seq::<ChapterView>::empty(),
{
    lemma_segment_no_heading(lines, Seq::empty());
}

} // verus!
