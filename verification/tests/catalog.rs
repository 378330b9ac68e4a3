//! Tests of the catalogue merge and the configuration keys.
use txt_novel_parser::catalog::{ConfigKey, Novel, NovelListItem};

fn item(
    title: &str,
    md5: Option<&str>,
    cover: Option<&str>,
    author: &str,
    source_link: &str,
) -> NovelListItem {
    NovelListItem {
        title: Some(title.to_string()),
        md5: md5.map(|s| s.to_string()),
        cover: cover.map(|s| s.to_string()),
        author: Some(author.to_string()),
        source_link: Some(source_link.to_string()),
    }
}

#[test]
fn local_list_starts_empty() {
    assert!(Novel::get_local_novel_list().is_empty());
}

#[test]
fn merge_appends_unknown_records() {
    let local = vec![item("a", Some("h1"), None, "x", "p1")];
    let scanned = vec![item("b", Some("h2"), None, "y", "p2")];
    let merged = Novel::merge_novel_list(local, scanned);
    assert_eq!(merged.len(), 2);
    assert_eq!(merged[0].title.as_deref(), Some("a"));
    assert_eq!(merged[1].title.as_deref(), Some("b"));
}

#[test]
fn merge_refreshes_matching_hash() {
    let local = vec![
        item("old", Some("h1"), Some("cover"), "old author", "old path"),
        item("other", Some("h2"), None, "z", "p"),
    ];
    let scanned = vec![item("new", Some("h1"), None, "new author", "new path")];
    let merged = Novel::merge_novel_list(local, scanned);
    assert_eq!(merged.len(), 2);
    assert_eq!(merged[0].title.as_deref(), Some("new"));
    assert_eq!(merged[0].author.as_deref(), Some("new author"));
    assert_eq!(merged[0].source_link.as_deref(), Some("new path"));
    // the hash and the cover of the existing record are kept
    assert_eq!(merged[0].md5.as_deref(), Some("h1"));
    assert_eq!(merged[0].cover.as_deref(), Some("cover"));
    assert_eq!(merged[1].title.as_deref(), Some("other"));
}

#[test]
fn merge_appends_record_without_hash() {
    let local = vec![item("a", Some("h1"), None, "x", "p1")];
    let scanned = vec![item("b", None, None, "y", "p2")];
    let merged = Novel::merge_novel_list(local, scanned);
    assert_eq!(merged.len(), 2);
    assert!(merged[1].md5.is_none());
}

#[test]
fn merge_keeps_scan_order() {
    let local = Vec::new();
    let scanned = vec![
        item("a", Some("h1"), None, "x", "p1"),
        item("b", None, None, "y", "p2"),
        item("c", Some("h1"), None, "z", "p3"),
    ];
    let merged = Novel::merge_novel_list(local, scanned);
    // the third record shares the first one's hash and refreshes it in place
    assert_eq!(merged.len(), 2);
    assert_eq!(merged[0].title.as_deref(), Some("c"));
    assert_eq!(merged[0].md5.as_deref(), Some("h1"));
    assert_eq!(merged[1].title.as_deref(), Some("b"));
}

#[test]
fn record_carries_parsed_metadata_and_hash() {
    let doc = "《三体》\n作者：刘慈欣\n";
    let rec = Novel::make_novel_record(doc.as_bytes(), "books/santi.txt".to_string());
    assert_eq!(rec.title.as_deref(), Some("三体"));
    assert_eq!(rec.author.as_deref(), Some("刘慈欣"));
    assert_eq!(rec.source_link.as_deref(), Some("books/santi.txt"));
    assert!(rec.cover.is_none());
    assert_eq!(rec.md5.as_deref().map(str::len), Some(32));
}

#[test]
fn record_hash_is_the_md5_of_the_bytes() {
    let rec = Novel::make_novel_record(b"abc", "p".to_string());
    assert_eq!(rec.md5.as_deref(), Some("900150983cd24fb0d6963f7d28e17f72"));
}

#[test]
fn stored_directory_wins_over_fallback() {
    let dir = Novel::choose_ebooks_dir(Some("stored".to_string()), Some("fallback".to_string()));
    assert_eq!(dir, "stored");
    let dir = Novel::choose_ebooks_dir(None, Some("fallback".to_string()));
    assert_eq!(dir, "fallback");
    let dir = Novel::choose_ebooks_dir(None, None);
    assert_eq!(dir, "");
}

#[test]
fn exit_without_code_is_prevented() {
    assert!(txt_novel_parser::catalog::should_prevent_exit(None));
    assert!(!txt_novel_parser::catalog::should_prevent_exit(Some(0)));
    assert!(!txt_novel_parser::catalog::should_prevent_exit(Some(1)));
}

#[test]
fn config_key_names_its_entry() {
    assert_eq!(ConfigKey::EbookDir.as_str(), "ebook_dir");
}

#[test]
fn default_novel_is_empty() {
    let novel = txt_novel_parser::Novel::default();
    assert!(novel.title.is_none());
    assert!(novel.author.is_none());
    assert!(novel.description.is_none());
    assert!(novel.chapters.is_empty());
}
