//! CManga: the sections of the home page, the search query, and the
//! addresses of a title's details, chapter pages and images.
use vstd::prelude::*;

use crate::model::{FilterValue, HomeKind};
use crate::text::{
    i64_decimal, int_decimal, join, join_strings, lowercase, pairs_view, push_pair, push_str,
    string_of, string_views, to_lowercase,
};

verus! {

/// The site.
pub const BASE_URL: &'static str = "https://cmangax12.com";

/// Entries per search page.
pub const SEARCH_LIMIT: i32 = 20;

/// Chapters per page of a chapter list.
pub const CHAPTER_LIMIT: usize = 100;

/// A section of the home page: its title, the API path of its entries and
/// how it shows them.
#[derive(Debug, Clone, Copy)]
pub struct HomeSection {
    pub title: &'static str,
    pub path: &'static str,
    pub kind: HomeKind,
}

/// The sections the home page announces before it loads any of them.
pub open spec fn layout_plan() -> Seq<(&'static str, HomeKind)> {
    seq![
        ("Truyện Nổi Bật", HomeKind::BigScroller),
        ("VIP", HomeKind::MangaChapterList { page_size: None }),
        ("TMới Cập Nhật", HomeKind::Scroller),
        ("Đề Cử", HomeKind::Scroller),
    ]
}

/// The sections of the home page, in the order they are loaded: the VIP
/// list shows three titles a page.
pub open spec fn home_plan() -> Seq<HomeSection> {
    seq![
        HomeSection {
            title: "Truyện Nổi Bật",
            path: "/api/home_album_list?file=image&sort=update&tag=&type=hot&limit=30&page=1",
            kind: HomeKind::BigScroller,
        },
        HomeSection {
            title: "VIP",
            path: "/api/home_album_list?file=image&type=vip&sort=update&tag=&limit=20&page=1",
            kind: HomeKind::MangaChapterList { page_size: Some(3) },
        },
        HomeSection {
            title: "Mới Cập Nhật",
            path: "/api/home_album_list?file=image&type=unique&sort=update&tag=&limit=20&page=1",
            kind: HomeKind::Scroller,
        },
        HomeSection {
            title: "Đề Cử",
            path: "/api/home_album_list?file=image&type=hot&sort=update&tag=&limit=30&page=1",
            kind: HomeKind::Scroller,
        },
        HomeSection {
            title: "Khoá",
            path: "/api/home_album_list?file=image&type=new&sort=update&tag=&limit=20&page=1",
            kind: HomeKind::Scroller,
        },
        HomeSection {
            title: "Độc Quyền",
            path: "/api/home_album_list?file=image&type=done&sort=update&tag=&limit=20&page=1",
            kind: HomeKind::Scroller,
        },
        HomeSection {
            title: "Hot",
            path: "/api/home_album_top?file=image&type=fire&limit=5",
            kind: HomeKind::Scroller,
        },
        HomeSection {
            title: "Mới",
            path: "/api/home_album_top?file=image&type=coin&limit=5",
            kind: HomeKind::Scroller,
        },
        HomeSection {
            title: "Hoàn Thành",
            path: "/api/home_album_list?file=image&sort=update&limit=14&page=1",
            kind: HomeKind::Scroller,
        },
    ]
}

/// The sections the home page announces first.
pub fn home_layout() -> (r: Vec<(&'static str, HomeKind)>)
    ensures
        r@ == layout_plan(),
{
    let r = vec![
        ("Truyện Nổi Bật", HomeKind::BigScroller),
        ("VIP", HomeKind::MangaChapterList { page_size: None }),
        ("TMới Cập Nhật", HomeKind::Scroller),
        ("Đề Cử", HomeKind::Scroller),
    ];
    assert(r@ =~= layout_plan());
    r
}

/// The sections of the home page (`CManga::get_home`), in the order they
/// are loaded and sent.
pub fn home_sections() -> (r: Vec<HomeSection>)
    ensures
        r@ == home_plan(),
{
    let r = vec![
        HomeSection {
            title: "Truyện Nổi Bật",
            path: "/api/home_album_list?file=image&sort=update&tag=&type=hot&limit=30&page=1",
            kind: HomeKind::BigScroller,
        },
        HomeSection {
            title: "VIP",
            path: "/api/home_album_list?file=image&type=vip&sort=update&tag=&limit=20&page=1",
            kind: HomeKind::MangaChapterList { page_size: Some(3) },
        },
        HomeSection {
            title: "Mới Cập Nhật",
            path: "/api/home_album_list?file=image&type=unique&sort=update&tag=&limit=20&page=1",
            kind: HomeKind::Scroller,
        },
        HomeSection {
            title: "Đề Cử",
            path: "/api/home_album_list?file=image&type=hot&sort=update&tag=&limit=30&page=1",
            kind: HomeKind::Scroller,
        },
        HomeSection {
            title: "Khoá",
            path: "/api/home_album_list?file=image&type=new&sort=update&tag=&limit=20&page=1",
            kind: HomeKind::Scroller,
        },
        HomeSection {
            title: "Độc Quyền",
            path: "/api/home_album_list?file=image&type=done&sort=update&tag=&limit=20&page=1",
            kind: HomeKind::Scroller,
        },
        HomeSection {
            title: "Hot",
            path: "/api/home_album_top?file=image&type=fire&limit=5",
            kind: HomeKind::Scroller,
        },
        HomeSection {
            title: "Mới",
            path: "/api/home_album_top?file=image&type=coin&limit=5",
            kind: HomeKind::Scroller,
        },
        HomeSection {
            title: "Hoàn Thành",
            path: "/api/home_album_list?file=image&sort=update&limit=14&page=1",
            kind: HomeKind::Scroller,
        },
    ];
    assert(r@ =~= home_plan());
    r
}

impl HomeSection {
    /// The address the section's entries are read from.
    pub fn url(&self) -> (r: String)
        ensures
            r@ == BASE_URL@ + self.path@,
    {
        let mut acc: Vec<char> = Vec::new();
        push_str(&mut acc, BASE_URL);
        push_str(&mut acc, self.path);
        string_of(&acc)
    }
}

/// The parameters one filter adds to a search: a multi-select its included
/// options, joined by commas and in lower case, as `id`; a select its
/// value under its own id; any other filter nothing.
pub open spec fn filter_params(f: FilterValue) -> Seq<(Seq<char>, Seq<char>)> {
    match f {
        FilterValue::MultiSelect { included, .. } => seq![("id"@, lowercase(join(string_views(included@), ","@)))],
        FilterValue::Select { id, value } => seq![(id@, value@)],
        _ => seq![],
    }
}

/// The parameters that the filters add, in their order.
pub open spec fn filters_params(fs: Seq<FilterValue>) -> Seq<(Seq<char>, Seq<char>)>
    decreases fs.len(),
{
    if fs.len() == 0 {
        seq![]
    } else {
        filters_params(fs.drop_last()) + filter_params(fs.last())
    }
}

/// The parameters of a search page: image albums, the page, 20 a page, any
/// team; the query as `string` when there is one; then the filters'.
pub open spec fn search_params_spec(query: Option<Seq<char>>, page: i32, fs: Seq<FilterValue>) -> Seq<(Seq<char>, Seq<char>)> {
    seq![("type"@, "image"@), ("page"@, int_decimal(page as int)), ("limit"@, "20"@), ("team"@, "0"@)]
        + match query {
            Some(q) => seq![("string"@, q)],
            None => seq![],
        }
        + filters_params(fs)
}

fn push_filter(ps: &mut Vec<(String, String)>, f: &FilterValue)
    ensures
        pairs_view(final(ps)@) == pairs_view(old(ps)@) + filter_params(*f),
{
    let ghost before = pairs_view(ps@);
    match f {
        FilterValue::MultiSelect { included, .. } => {
            let joined = join_strings(included, ",");
            let lower = to_lowercase(joined.as_str());
            push_pair(ps, "id", lower.as_str());
        },
        FilterValue::Select { id, value } => {
            push_pair(ps, id.as_str(), value.as_str());
        },
        _ => {
            assert(pairs_view(ps@) =~= before + filter_params(*f));
        },
    }
}

/// The query parameters of a search page (`CManga::get_search_manga_list`),
/// which `text::query_string` writes percent-encoded.
pub fn search_params(query: Option<&str>, page: i32, filters: &[FilterValue]) -> (r: Vec<(String, String)>)
    ensures
        pairs_view(r@) == search_params_spec(
            match query {
                Some(q) => Some(q@),
                None => None,
            },
            page,
            filters@,
        ),
{
    let mut ps: Vec<(String, String)> = Vec::new();
    push_pair(&mut ps, "type", "image");
    let p = string_of(&i64_decimal(page as i64));
    push_pair(&mut ps, "page", p.as_str());
    push_pair(&mut ps, "limit", "20");
    push_pair(&mut ps, "team", "0");
    if let Some(q) = query {
        push_pair(&mut ps, "string", q);
    }
    let ghost head = pairs_view(ps@);
    let mut i: usize = 0;
    while i < filters.len()
        invariant
            i <= filters@.len(),
            pairs_view(ps@) == head + filters_params(filters@.take(i as int)),
        decreases filters@.len() - i,
    {
        assert(filters@.take(i + 1).drop_last() =~= filters@.take(i as int));
        push_filter(&mut ps, &filters[i]);
        i = i + 1;
        assert(head + filters_params(filters@.take(i as int)) =~= head + filters_params(filters@.take(i - 1)) + filter_params(filters@[i - 1]));
    }
    assert(filters@.take(filters@.len() as int) =~= filters@);
    assert(pairs_view(ps@) =~= search_params_spec(
        match query {
            Some(q) => Some(q@),
            None => None,
        },
        page,
        filters@,
    ));
    ps
}

/// Whether a search has a page after `page`: the result count exceeds the
/// entries of the pages up to it.
pub fn has_next_page(total: i64, page: i32) -> (r: bool)
    requires
        i32::MIN <= page * 20 <= i32::MAX,
    ensures
        r == (total > page * 20),
{
    total > (page * SEARCH_LIMIT) as i64
}

/// The address of a title's details.
pub fn details_url(key: &str) -> (r: String)
    ensures
        r@ == BASE_URL@ + "/api/get_data_by_id?id="@ + key@ + "&table=album&data=info"@,
{
    let mut acc: Vec<char> = Vec::new();
    push_str(&mut acc, BASE_URL);
    push_str(&mut acc, "/api/get_data_by_id?id=");
    push_str(&mut acc, key);
    push_str(&mut acc, "&table=album&data=info");
    string_of(&acc)
}

/// The address of one page of a title's chapter list, 100 chapters a page.
pub fn chapter_list_url(key: &str, page: i32) -> (r: String)
    ensures
        r@ == BASE_URL@ + "/api/chapter_list?album="@ + key@ + "&page="@ + int_decimal(page as int)
            + "&limit=100&v=1v16"@,
{
    let mut acc: Vec<char> = Vec::new();
    push_str(&mut acc, BASE_URL);
    push_str(&mut acc, "/api/chapter_list?album=");
    push_str(&mut acc, key);
    push_str(&mut acc, "&page=");
    let p = i64_decimal(page as i64);
    let ps = string_of(&p);
    push_str(&mut acc, ps.as_str());
    push_str(&mut acc, "&limit=100&v=1v16");
    string_of(&acc)
}

/// The chapter-list page to read after one that held `count` chapters:
/// none once a page is not full.
pub fn next_chapter_page(page: i32, count: usize) -> (r: Option<i32>)
    requires
        count >= CHAPTER_LIMIT ==> page < i32::MAX,
    ensures
        r == (if count < CHAPTER_LIMIT { None } else { Some((page + 1) as i32) }),
{
    if count < CHAPTER_LIMIT {
        None
    } else {
        Some(page + 1)
    }
}

/// The address of a chapter on the site, under the title's address.
pub fn chapter_url(manga_url: &str, id: &str, num: &str) -> (r: String)
    ensures
        r@ == manga_url@ + "/chapter-"@ + id@ + "-"@ + num@,
{
    let mut acc: Vec<char> = Vec::new();
    push_str(&mut acc, manga_url);
    push_str(&mut acc, "/chapter-");
    push_str(&mut acc, id);
    push_str(&mut acc, "-");
    push_str(&mut acc, num);
    string_of(&acc)
}

/// The address of a chapter's images.
pub fn chapter_images_url(chapter_key: &str) -> (r: String)
    ensures
        r@ == BASE_URL@ + "/api/chapter_image?chapter="@ + chapter_key@ + "&v=0"@,
{
    let mut acc: Vec<char> = Vec::new();
    push_str(&mut acc, BASE_URL);
    push_str(&mut acc, "/api/chapter_image?chapter=");
    push_str(&mut acc, chapter_key);
    push_str(&mut acc, "&v=0");
    string_of(&acc)
}

} // verus!
