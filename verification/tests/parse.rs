//! End-to-end tests of the parser: metadata extraction, chapter
//! segmentation, and the decoding of raw bytes.
use txt_novel_parser::parse_txt;

#[test]
fn empty_input_yields_empty_novel() {
    let novel = parse_txt(b"");
    assert!(novel.title.is_none());
    assert!(novel.author.is_none());
    assert!(novel.description.is_none());
    assert!(novel.chapters.is_empty());
}

#[test]
fn bracketed_title_in_leading_lines() {
    let doc = "《三体》\n一部科幻小说\n";
    let novel = parse_txt(doc.as_bytes());
    assert_eq!(novel.title.as_deref(), Some("三体"));
}

#[test]
fn overlong_title_is_rejected() {
    let name = "甲".repeat(41);
    let doc = format!("《{}》\n", name);
    let novel = parse_txt(doc.as_bytes());
    assert!(novel.title.is_none());
}

#[test]
fn title_length_counts_characters() {
    let name = "甲".repeat(40);
    let doc = format!("《{}》\n", name);
    let novel = parse_txt(doc.as_bytes());
    assert_eq!(novel.title.as_deref(), Some(name.as_str()));
}

#[test]
fn heading_line_is_not_a_title() {
    let doc = "第一章《觉醒》\n";
    let novel = parse_txt(doc.as_bytes());
    assert!(novel.title.is_none());
    assert_eq!(novel.chapters.len(), 1);
    assert_eq!(novel.chapters[0].title, "第一章《觉醒》");
    assert_eq!(novel.chapters[0].content, "");
}

#[test]
fn round_glyph_excludes_title_line() {
    let doc = "第三回《大梦初醒》\n";
    let novel = parse_txt(doc.as_bytes());
    assert!(novel.title.is_none());
}

#[test]
fn author_marker_yields_author() {
    let doc = "《三体》\n作者：刘慈欣\n";
    let novel = parse_txt(doc.as_bytes());
    assert_eq!(novel.author.as_deref(), Some("刘慈欣"));
}

#[test]
fn author_needs_fullwidth_colon_marker() {
    let doc = "《三体》\n刘慈欣 著\n";
    let novel = parse_txt(doc.as_bytes());
    assert!(novel.author.is_none());
}

#[test]
fn metadata_outside_first_twelve_lines_is_ignored() {
    let mut doc = String::new();
    for _ in 0..12 {
        doc.push_str("前言文字\n");
    }
    doc.push_str("《三体》\n作者：刘慈欣\n");
    let novel = parse_txt(doc.as_bytes());
    assert!(novel.title.is_none());
    assert!(novel.author.is_none());
}

#[test]
fn chapters_partition_document() {
    let doc = "第一章 开端\nA\nB\n第二章 发展\nC\n";
    let novel = parse_txt(doc.as_bytes());
    assert_eq!(novel.chapters.len(), 2);
    assert_eq!(novel.chapters[0].title, "第一章 开端");
    assert_eq!(novel.chapters[0].content, "A\nB");
    assert_eq!(novel.chapters[1].title, "第二章 发展");
    assert_eq!(novel.chapters[1].content, "C");
}

#[test]
fn no_heading_yields_no_chapters() {
    let doc = "这是一段没有任何标记的文本\n只有普通的行\n还有更多普通的行\n";
    let novel = parse_txt(doc.as_bytes());
    assert!(novel.chapters.is_empty());
}

#[test]
fn latin_heading_opens_its_own_chapter() {
    let doc = "Chapter 12: The Return\nBody one\n第二章 归来\nBody two\n";
    let novel = parse_txt(doc.as_bytes());
    assert_eq!(novel.chapters.len(), 2);
    assert_eq!(novel.chapters[0].title, "Chapter 12: The Return");
    assert_eq!(novel.chapters[0].content, "Body one");
    assert_eq!(novel.chapters[1].title, "第二章 归来");
    assert_eq!(novel.chapters[1].content, "Body two");
}

#[test]
fn text_before_first_heading_is_discarded() {
    let doc = "简介文字\n第一章 开端\n正文\n";
    let novel = parse_txt(doc.as_bytes());
    assert_eq!(novel.chapters.len(), 1);
    assert_eq!(novel.chapters[0].content, "正文");
}

#[test]
fn consecutive_headings_give_empty_content() {
    let doc = "第一章 上\n第二章 下\n结尾文字\n";
    let novel = parse_txt(doc.as_bytes());
    assert_eq!(novel.chapters.len(), 2);
    assert_eq!(novel.chapters[0].content, "");
    assert_eq!(novel.chapters[1].content, "结尾文字");
}

#[test]
fn content_keeps_edge_whitespace_of_body_lines() {
    let doc = "第一章 开端\n\n  A\nB  \n\n第二章 发展\nC\n";
    let novel = parse_txt(doc.as_bytes());
    assert_eq!(novel.chapters.len(), 2);
    // the blank lines around the body go, the spaces inside its first and
    // last lines stay
    assert_eq!(novel.chapters[0].content, "  A\nB  ");
    assert_eq!(novel.chapters[1].content, "C");
}

#[test]
fn content_keeps_fullwidth_indentation() {
    let doc = "第一章 一\n\u{3000}\u{3000}正文第一段\n第二章 二\nX\n";
    let novel = parse_txt(doc.as_bytes());
    assert_eq!(novel.chapters.len(), 2);
    assert_eq!(novel.chapters[0].content, "\u{3000}\u{3000}正文第一段");
}

#[test]
fn whitespace_only_body_gives_empty_content() {
    let doc = "第一章 空\n   \n\u{3000}\n";
    let novel = parse_txt(doc.as_bytes());
    assert_eq!(novel.chapters.len(), 1);
    assert_eq!(novel.chapters[0].content, "");
}

#[test]
fn cjk_numerals_and_units_are_recognised() {
    let doc = "第十二章 远方\n甲\n第一百零三节 近处\n乙\n第3卷 启程\n丙\n";
    let novel = parse_txt(doc.as_bytes());
    assert_eq!(novel.chapters.len(), 3);
    assert_eq!(novel.chapters[0].title, "第十二章 远方");
    assert_eq!(novel.chapters[1].title, "第一百零三节 近处");
    assert_eq!(novel.chapters[2].title, "第3卷 启程");
}

#[test]
fn ascii_document_parses() {
    let doc = "Chapter 1 Start\nhello\nChapter 2 End\nworld\n";
    let novel = parse_txt(doc.as_bytes());
    assert!(novel.title.is_none());
    assert!(novel.author.is_none());
    assert_eq!(novel.chapters.len(), 2);
    assert_eq!(novel.chapters[0].content, "hello");
    assert_eq!(novel.chapters[1].content, "world");
}

#[test]
fn parsing_is_deterministic() {
    let doc = "《三体》\n作者：刘慈欣\n第一章 开端\n正文若干\n";
    let a = parse_txt(doc.as_bytes());
    let b = parse_txt(doc.as_bytes());
    assert_eq!(a.title, b.title);
    assert_eq!(a.author, b.author);
    assert_eq!(a.chapters.len(), b.chapters.len());
    for (x, y) in a.chapters.iter().zip(b.chapters.iter()) {
        assert_eq!(x.title, y.title);
        assert_eq!(x.content, y.content);
    }
}

#[test]
fn gbk_bytes_are_decoded() {
    // "第一章 夜" followed by a body line, in the GBK legacy encoding.
    let bytes: &[u8] = &[
        0xB5, 0xDA, 0xD2, 0xBB, 0xD5, 0xC2, 0x20, 0xD2, 0xB9, 0x0A, 0xC4, 0xE3, 0xBA, 0xC3, 0x0A,
    ];
    let novel = parse_txt(bytes);
    assert_eq!(novel.chapters.len(), 1);
    assert_eq!(novel.chapters[0].title, "第一章 夜");
    assert_eq!(novel.chapters[0].content, "你好");
}
