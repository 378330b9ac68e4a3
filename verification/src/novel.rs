//! The structured result of a parse: an optional title and author, an always
//! absent description, and the ordered chapters.
use vstd::prelude::*;

verus! {

/// Mathematical model of a chapter: its heading line and its body text.
#[verifier::ext_equal]
pub ghost struct ChapterView {
    pub title: Seq<char>,
    pub content: Seq<char>,
}

/// One chapter: the trimmed heading line, marker and trailing text kept
/// verbatim, and the body lines between this heading and the next.
#[derive(Debug, Clone)]
pub struct Chapter {
    pub title: String,
    pub content: String,
}

impl View for Chapter {
    type V = ChapterView;

    open spec fn view(&self) -> ChapterView {
        ChapterView { title: self.title@, content: self.content@ }
    }
}

impl DeepView for Chapter {
    type V = ChapterView;

    open spec fn deep_view(&self) -> ChapterView {
        self@
    }
}

/// Mathematical model of a parsed novel.
#[verifier::ext_equal]
pub ghost struct NovelView {
    pub title: Option<Seq<char>>,
    pub author: Option<Seq<char>>,
    pub description: Option<Seq<char>>,
    pub chapters: Seq<ChapterView>,
}

/// A parsed novel. The description is never filled in by the parser.
#[derive(Debug, Clone)]
pub struct Novel {
    pub title: Option<String>,
    pub author: Option<String>,
    pub description: Option<String>,
    pub chapters: Vec<Chapter>,
}

impl View for Novel {
    type V = NovelView;

    open spec fn view(&self) -> NovelView {
        NovelView {
            title: self.title.deep_view(),
            author: self.author.deep_view(),
            description: self.description.deep_view(),
            chapters: self.chapters.deep_view(),
        }
    }
}

impl Default for Novel {
    /// The novel with every field absent or empty.
    fn default() -> (r: Novel)
        ensures
            r@.title is None,
            r@.author is None,
            r@.description is None,
            r@.chapters.len() == 0,
    {
        Novel { title: None, author: None, description: None, chapters: Vec::new() }
    }
}

} // verus!
