//! The local novel catalogue: records of parsed files keyed by a content
//! hash, the merge of freshly scanned records into the persisted list, and
//! the small decision rules of the surrounding shell.
use crate::novel::Novel as ParsedNovel;
use crate::{parse_txt, spec_parse};
use vstd::prelude::*;

verus! {

/// The lowercase hexadecimal rendering of the MD5 digest of `b`: a function
/// of the bytes alone.
pub uninterp spec fn md5_hex_of(b: Seq<u8>) -> Seq<char>;

/// Relies on `md5::compute` and the `LowerHex` rendering of its digest: the
/// digest depends on the bytes alone, and its sixteen bytes render as
/// thirty-two zero-padded hexadecimal characters.
#[verifier::external_body]
fn md5_hex(b: &[u8]) -> (r: String)
    ensures
        r@ == md5_hex_of(b@),
        r@.len() == 32,
{
    format!("{:x}", md5::compute(b))
}

/// Mathematical model of a catalogue record.
#[verifier::ext_equal]
pub ghost struct NovelListItemView {
    pub title: Option<Seq<char>>,
    pub md5: Option<Seq<char>>,
    pub cover: Option<Seq<char>>,
    pub author: Option<Seq<char>>,
    pub source_link: Option<Seq<char>>,
}

/// One record of the catalogue: the metadata of one scanned file, keyed by
/// the hash of its bytes.
#[derive(Debug)]
pub struct NovelListItem {
    pub title: Option<String>,
    pub md5: Option<String>,
    pub cover: Option<String>,
    pub author: Option<String>,
    pub source_link: Option<String>,
}

impl View for NovelListItem {
    type V = NovelListItemView;

    open spec fn view(&self) -> NovelListItemView {
        NovelListItemView {
            title: self.title.deep_view(),
            md5: self.md5.deep_view(),
            cover: self.cover.deep_view(),
            author: self.author.deep_view(),
            source_link: self.source_link.deep_view(),
        }
    }
}

impl DeepView for NovelListItem {
    type V = NovelListItemView;

    open spec fn deep_view(&self) -> NovelListItemView {
        self@
    }
}

/// Position of the first record at or after `from` whose hash is `m`, or
/// `list.len()` if there is none.
pub open spec fn find_md5(list: Seq<NovelListItemView>, m: Seq<char>, from: int) -> int
    decreases list.len() - from,
{
    if from < 0 || from >= list.len() {
        list.len() as int
    } else if list[from].md5 == Some(m) {
        from
    } else {
        find_md5(list, m, from + 1)
    }
}

proof fn lemma_find_md5_at(list: Seq<NovelListItemView>, m: Seq<char>, from: int, i: int)
    requires
        0 <= from <= i <= list.len(),
        forall|k: int| from <= k < i ==> #[trigger] list[k].md5 != Some(m),
        i == list.len() || list[i].md5 == Some(m),
    ensures
        find_md5(list, m, from) == i,
    decreases i - from,
{
    if from < i {
        lemma_find_md5_at(list, m, from + 1, i);
    }
}

/// One scanned record merged into the catalogue: a record with a known hash
/// refreshes the title, author and source of the first record carrying the
/// same hash, and any other record is appended.
pub open spec fn merge_one(
    list: Seq<NovelListItemView>,
    item: NovelListItemView,
) -> Seq<NovelListItemView> {
    match item.md5 {
        Option::Some(m) => {
            let i = find_md5(list, m, 0);
            if i < list.len() {
                list.update(
                    i,
                    NovelListItemView {
                        title: item.title,
                        md5: list[i].md5,
                        cover: list[i].cover,
                        author: item.author,
                        source_link: item.source_link,
                    },
                )
            } else {
                list.push(item)
            }
        },
        Option::None => list.push(item),
    }
}

/// The catalogue after every scanned record is merged, in scan order.
pub open spec fn spec_merge(
    local: Seq<NovelListItemView>,
    scanned: Seq<NovelListItemView>,
) -> Seq<NovelListItemView>
    decreases scanned.len(),
{
    if scanned.len() == 0 {
        local
    } else {
        spec_merge(merge_one(local, scanned[0]), scanned.drop_first())
    }
}

fn position_md5(list: &Vec<NovelListItem>, m: &String) -> (r: usize)
    ensures
        r == find_md5(list.deep_view(), m@, 0),
        r <= list@.len(),
{
    let mut j: usize = 0;
    while j < list.len()
        invariant
            j <= list@.len(),
            forall|k: int| 0 <= k < j ==> #[trigger] list.deep_view()[k].md5 != Some(m@),
        decreases list@.len() - j,
    {
        let hit = match &list[j].md5 {
            Some(x) => x.eq(m),
            None => false,
        };
        if hit {
            proof {
                assert(list.deep_view()[j as int].md5 == Some(m@));
                lemma_find_md5_at(list.deep_view(), m@, 0, j as int);
            }
            return j;
        }
        proof {
            assert(list.deep_view()[j as int].md5 != Some(m@));
        }
        j += 1;
    }
    proof {
        lemma_find_md5_at(list.deep_view(), m@, 0, j as int);
    }
    j
}

/// The catalogue operations over locally scanned novels.
pub struct Novel {}

impl Novel {
    /// The persisted catalogue; storage is not wired in here, so the list
    /// starts empty.
    pub fn get_local_novel_list() -> (r: Vec<NovelListItem>)
        ensures
            r.deep_view() == Seq::<NovelListItemView>::empty(),
    {
        let r: Vec<NovelListItem> = Vec::new();
        proof {
            assert(r.deep_view() =~~= Seq::<NovelListItemView>::empty());
        }
        r
    }

    /// Accept the refreshed catalogue; persisting it belongs to the caller.
    pub fn update_local_novel_list(_list: Vec<NovelListItem>) {
    }

    /// Build the catalogue record of one manuscript: the parsed title and
    /// author, keyed by the hash of the bytes, with the given source path
    /// and no cover.
    pub fn make_novel_record(bytes: &[u8], source_link: String) -> (r: NovelListItem)
        ensures
            r@.title == spec_parse(bytes@).title,
            r@.author == spec_parse(bytes@).author,
            r@.md5 == Some(md5_hex_of(bytes@)),
            r@.cover is None,
            r@.source_link == Some(source_link@),
    {
        let hash = md5_hex(bytes);
        let novel: ParsedNovel = parse_txt(bytes);
        NovelListItem {
            title: novel.title,
            md5: Some(hash),
            cover: None,
            author: novel.author,
            source_link: Some(source_link),
        }
    }

    /// The directory scanned for manuscripts: the stored configuration
    /// value when there is one, else the resolved resource directory when
    /// there is one, else nothing.
    pub fn choose_ebooks_dir(stored: Option<String>, fallback: Option<String>) -> (r: String)
        ensures
            stored matches Some(s) ==> r@ == s@,
            stored is None ==> (fallback matches Some(f) ==> r@ == f@),
            stored is None && fallback is None ==> r@ == Seq::<char>::empty(),
    {
        match stored {
            Some(s) => s,
            None => match fallback {
                Some(f) => f,
                None => String::new(),
            },
        }
    }

    /// Merge freshly scanned records into the catalogue: a scanned record
    /// whose hash is already present refreshes that record's title, author
    /// and source, and any other scanned record is appended.
    pub fn merge_novel_list(local: Vec<NovelListItem>, scanned: Vec<NovelListItem>) -> (r: Vec<
        NovelListItem,
    >)
        ensures
            r.deep_view() == spec_merge(local.deep_view(), scanned.deep_view()),
    {
        let ghost l0 = local.deep_view();
        let ghost s0 = scanned.deep_view();
        let mut list = local;
        let mut rest = scanned;
        while rest.len() > 0
            invariant
                spec_merge(list.deep_view(), rest.deep_view()) == spec_merge(l0, s0),
            decreases rest@.len(),
        {
            let ghost listv = list.deep_view();
            let ghost restv = rest.deep_view();
            let item = rest.remove(0);
            proof {
                assert(item.deep_view() == restv[0]);
                assert(rest.deep_view() =~~= restv.drop_first());
            }
            let pos: Option<usize> = match &item.md5 {
                Some(m) => {
                    let p = position_md5(&list, m);
                    if p < list.len() {
                        Some(p)
                    } else {
                        None
                    }
                },
                None => None,
            };
            match pos {
                Some(p) => {
                    let old_item = list.remove(p);
                    let updated = NovelListItem {
                        title: item.title,
                        md5: old_item.md5,
                        cover: old_item.cover,
                        author: item.author,
                        source_link: item.source_link,
                    };
                    list.insert(p, updated);
                    proof {
                        assert(list.deep_view() =~~= merge_one(listv, restv[0]));
                    }
                },
                None => {
                    list.push(item);
                    proof {
                        assert(list.deep_view() =~~= merge_one(listv, restv[0]));
                    }
                },
            }
        }
        proof {
            assert(rest.deep_view().len() == 0);
        }
        list
    }
}

/// The shell's exit rule: an exit request carrying no exit code is held
/// back, one carrying a code goes through.
pub fn should_prevent_exit(code: Option<i32>) -> (r: bool)
    ensures
        r == (code is None),
{
    code.is_none()
}

/// Typed keys of the persisted configuration store.
#[derive(Debug)]
pub enum ConfigKey {
    EbookDir,
}

impl ConfigKey {
    /// The string key under which the value is stored.
    pub fn as_str(&self) -> (r: &str)
        ensures
            r@ == "ebook_dir"@,
    {
        match self {
            ConfigKey::EbookDir => "ebook_dir",
        }
    }
}

} // verus!
