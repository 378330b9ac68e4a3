//! Recovery of a structured novel from a raw manuscript byte stream: the
//! bytes are decoded with a detected character encoding, the leading lines
//! are scanned for a bracketed title and an author marker, and the whole
//! text is partitioned into chapters at recognised heading lines.
use vstd::prelude::*;

pub mod catalog;
pub mod chapters;
pub mod decode;
pub mod headings;
pub mod metadata;
pub mod novel;
pub mod text;

pub use chapters::parse_chapters;
pub use metadata::{detect_author, detect_title};
pub use novel::{Chapter, Novel};

use chapters::spec_chapters;
use decode::{chars_to_string, decode_chars, decoded_of};
use metadata::{spec_author, spec_title};
use novel::NovelView;
use text::{spec_lines, split_lines};

verus! {

/// The novel that a byte buffer parses to: the decoded text is split into
/// lines, the leading lines give the metadata, and the heading lines give
/// the chapters. The description is never filled in.
pub open spec fn spec_parse(bytes: Seq<u8>) -> NovelView {
    let lines = spec_lines(decoded_of(bytes));
    NovelView {
        title: spec_title(lines),
        author: spec_author(lines),
        description: None,
        chapters: spec_chapters(lines),
    }
}

/// Parse a raw manuscript into a structured novel.
///
/// The parse is total: every byte input, however malformed, yields a novel,
/// and the result is a function of the bytes alone, so equal inputs yield
/// structurally equal novels. Empty input yields the novel with no title,
/// no author and no chapters.
pub fn parse_txt(bytes: &[u8]) -> (r: Novel)
    ensures
        r@ == spec_parse(bytes@),
        bytes@.len() == 0 ==> r@.title is None && r@.author is None && r@.chapters.len() == 0,
{
    let text = decode_chars(bytes);
    let lines = split_lines(&text);
    let title = detect_title(&lines);
    let author = detect_author(&lines);
    let chapters = parse_chapters(&lines);
    let ghost linesv = lines.deep_view();
    let title_s: Option<String> = match title {
        Some(v) => {
            let s = chars_to_string(&v);
            proof {
                assert(v.deep_view() =~= v@);
            }
            Some(s)
        },
        None => None,
    };
    let author_s: Option<String> = match author {
        Some(v) => {
            let s = chars_to_string(&v);
            proof {
                assert(v.deep_view() =~= v@);
            }
            Some(s)
        },
        None => None,
    };
    let r = Novel { title: title_s, author: author_s, description: None, chapters };
    proof {
        assert(r@ =~~= spec_parse(bytes@));
        if bytes@.len() == 0 {
            assert(text@ =~= Seq::<char>::empty());
            assert(linesv =~~= Seq::<Seq<char>>::empty());
            assert(linesv.take(metadata::window_len(linesv)) =~~= Seq::<Seq<char>>::empty());
        }
    }
    r
}

} // verus!
