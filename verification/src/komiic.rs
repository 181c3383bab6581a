//! Komiic: how searches, filters and listings choose a query, how comic
//! entries are read and de-duplicated, and which chapter list is shown.
use vstd::prelude::*;

use crate::model::{opt_link_view, ContentRating, DeepLink, DeepLinkView, FilterValue, MangaStatus, Viewer};
use crate::text::{
    chars_of, chars_eq, find_first_index, lemma_find_first_index, lemma_find_first_none, push_str,
    split_two, split_two_chars, str_eq, string_of, trim, trim_chars, opt_view, opt_str_view, string_views, int_decimal, i64_decimal,
};

verus! {

/// The site.
pub const BASE_URL: &'static str = "https://komiic.com";

/// Where page images are served.
pub const IMAGE_URL: &'static str = "https://komiic.com/api/image";

/// Entries per page of the ranked and recent lists.
pub const PAGE_SIZE: i32 = 20;

/// Entries per page of a category.
pub const CATEGORY_PAGE_SIZE: i32 = 30;

/// Entries asked for in personal recommendations.
pub const RECOMMENDATION_PAGE_SIZE: i32 = 25;

/// The orders of the sort filter, by option index.
pub open spec fn sort_order_ids() -> Seq<&'static str> {
    seq!["DATE_UPDATED", "VIEWS", "FAVORITE_COUNT"]
}

/// The category names the site knows, each with its category id; most
/// categories have a traditional and a simplified name.
pub open spec fn category_names() -> Seq<(&'static str, &'static str)> {
    seq![
        ("全部", "0"), ("愛情", "1"), ("爱情", "1"), ("神鬼", "3"), ("校園", "4"), ("校园", "4"),
        ("搞笑", "5"), ("生活", "6"), ("懸疑", "7"), ("悬疑", "7"), ("冒險", "8"), ("冒险", "8"),
        ("職場", "10"), ("职场", "10"), ("魔幻", "11"), ("後宮", "2"), ("后宫", "2"), ("魔法", "12"),
        ("格鬥", "13"), ("格斗", "13"), ("宅男", "14"), ("勵志", "15"), ("励志", "15"), ("耽美", "16"),
        ("科幻", "17"), ("百合", "18"), ("治癒", "19"), ("治愈", "19"), ("萌系", "20"), ("熱血", "21"),
        ("热血", "21"), ("競技", "22"), ("竞技", "22"), ("推理", "23"), ("雜誌", "24"), ("杂志", "24"),
        ("偵探", "25"), ("侦探", "25"), ("偽娘", "26"), ("伪娘", "26"), ("美食", "27"), ("恐怖", "9"),
        ("四格", "28"), ("社會", "31"), ("社会", "31"), ("歷史", "32"), ("历史", "32"), ("戰爭", "33"),
        ("战争", "33"), ("舞蹈", "34"), ("武俠", "35"), ("武侠", "35"), ("機戰", "36"), ("机战", "36"),
        ("音樂", "37"), ("音乐", "37"), ("體育", "40"), ("体育", "40"), ("黑道", "42"),
    ]
}

/// The category ids, which a category filter may also give directly.
pub open spec fn category_ids() -> Seq<&'static str> {
    seq![
        "0", "1", "2", "3", "4", "5", "6", "7", "8", "9", "10", "11", "12", "13", "14", "15", "16",
        "17", "18", "19", "20", "21", "22", "23", "24", "25", "26", "27", "28", "31", "32", "33",
        "34", "35", "36", "37", "40", "42",
    ]
}

fn sort_order_table() -> (r: Vec<&'static str>)
    ensures
        r@ == sort_order_ids(),
{
    let r = vec!["DATE_UPDATED", "VIEWS", "FAVORITE_COUNT"];
    assert(r@ =~= sort_order_ids());
    r
}

fn category_name_table() -> (r: Vec<(&'static str, &'static str)>)
    ensures
        r@ == category_names(),
{
    let r = vec![
        ("全部", "0"), ("愛情", "1"), ("爱情", "1"), ("神鬼", "3"), ("校園", "4"), ("校园", "4"),
        ("搞笑", "5"), ("生活", "6"), ("懸疑", "7"), ("悬疑", "7"), ("冒險", "8"), ("冒险", "8"),
        ("職場", "10"), ("职场", "10"), ("魔幻", "11"), ("後宮", "2"), ("后宫", "2"), ("魔法", "12"),
        ("格鬥", "13"), ("格斗", "13"), ("宅男", "14"), ("勵志", "15"), ("励志", "15"), ("耽美", "16"),
        ("科幻", "17"), ("百合", "18"), ("治癒", "19"), ("治愈", "19"), ("萌系", "20"), ("熱血", "21"),
        ("热血", "21"), ("競技", "22"), ("竞技", "22"), ("推理", "23"), ("雜誌", "24"), ("杂志", "24"),
        ("偵探", "25"), ("侦探", "25"), ("偽娘", "26"), ("伪娘", "26"), ("美食", "27"), ("恐怖", "9"),
        ("四格", "28"), ("社會", "31"), ("社会", "31"), ("歷史", "32"), ("历史", "32"), ("戰爭", "33"),
        ("战争", "33"), ("舞蹈", "34"), ("武俠", "35"), ("武侠", "35"), ("機戰", "36"), ("机战", "36"),
        ("音樂", "37"), ("音乐", "37"), ("體育", "40"), ("体育", "40"), ("黑道", "42"),
    ];
    assert(r@ =~= category_names());
    r
}

fn category_id_table() -> (r: Vec<&'static str>)
    ensures
        r@ == category_ids(),
{
    let r = vec![
        "0", "1", "2", "3", "4", "5", "6", "7", "8", "9", "10", "11", "12", "13", "14", "15", "16",
        "17", "18", "19", "20", "21", "22", "23", "24", "25", "26", "27", "28", "31", "32", "33",
        "34", "35", "36", "37", "40", "42",
    ];
    assert(r@ =~= category_ids());
    r
}

/// The category id of a category name, compared without surrounding white
/// space.
pub open spec fn category_lookup(name: Seq<char>) -> Option<Seq<char>> {
    let k = find_first_index(
        category_names().map_values(|p: (&'static str, &'static str)| p.0@ == trim(name)),
    );
    if k >= 0 {
        Some(category_names()[k].1@)
    } else {
        None
    }
}

/// What a category filter value selects: a category id as given, or the id
/// of a category name; both compared without surrounding white space.
pub open spec fn category_filter_spec(value: Seq<char>) -> Option<Seq<char>> {
    let v = trim(value);
    if category_ids().map_values(|s: &'static str| s@).contains(v) {
        Some(v)
    } else {
        category_lookup(v)
    }
}

/// The category id of a category name (`category_id`).
pub fn category_id(name: &str) -> (r: Option<&'static str>)
    ensures
        match r {
            Some(id) => category_lookup(name@) == Some(id@),
            None => category_lookup(name@) is None,
        },
{
    let t = trim_chars(&chars_of(name));
    let table = category_name_table();
    let ghost flags = category_names().map_values(
        |p: (&'static str, &'static str)| p.0@ == trim(name@),
    );
    let mut j: usize = 0;
    while j < table.len()
        invariant
            j <= table@.len(),
            table@ == category_names(),
            t@ == trim(name@),
            flags == category_names().map_values(
                |p: (&'static str, &'static str)| p.0@ == trim(name@),
            ),
            forall|k: int| 0 <= k < j ==> !flags[k],
        decreases table@.len() - j,
    {
        let (n, id) = table[j];
        if chars_eq(&chars_of(n), &t) {
            proof {
                lemma_find_first_index(flags, j as int);
            }
            return Some(id);
        }
        j = j + 1;
    }
    proof {
        lemma_find_first_none(flags);
    }
    None
}

/// The category that a category filter value selects
/// (`category_filter_value`).
pub fn category_filter_value(value: &str) -> (r: Option<String>)
    ensures
        match r {
            Some(s) => category_filter_spec(value@) == Some(s@),
            None => category_filter_spec(value@) is None,
        },
{
    let v = trim_chars(&chars_of(value));
    let ids = category_id_table();
    let ghost views = category_ids().map_values(|s: &'static str| s@);
    let mut j: usize = 0;
    while j < ids.len()
        invariant
            j <= ids@.len(),
            ids@ == category_ids(),
            v@ == trim(value@),
            views == category_ids().map_values(|s: &'static str| s@),
            forall|k: int| 0 <= k < j ==> views[k] != v@,
        decreases ids@.len() - j,
    {
        if chars_eq(&chars_of(ids[j]), &v) {
            assert(views[j as int] == v@);
            return Some(string_of(&v));
        }
        j = j + 1;
    }
    assert(!views.contains(v@));
    let s = string_of(&v);
    match category_id(s.as_str()) {
        Some(id) => Some(string_of(&chars_of(id))),
        None => None,
    }
}

/// The order of sort option `index` (`sort_order`).
pub fn sort_order(index: i32) -> (r: Option<&'static str>)
    ensures
        match r {
            Some(o) => 0 <= index < 3 && o == sort_order_ids()[index as int],
            None => !(0 <= index < 3),
        },
{
    if index < 0 || index >= 3 {
        return None;
    }
    let t = sort_order_table();
    Some(t[index as usize])
}

/// The status a comic's `status` field gives.
pub open spec fn status_spec(status: Option<Seq<char>>) -> MangaStatus {
    match status {
        Some(s) => if s == "ONGOING"@ {
            MangaStatus::Ongoing
        } else if s == "END"@ {
            MangaStatus::Completed
        } else {
            MangaStatus::Unknown
        },
        None => MangaStatus::Unknown,
    }
}

/// The status a comic's `status` field gives (`manga_status`).
pub fn manga_status(status: Option<&str>) -> (r: MangaStatus)
    ensures
        r == status_spec(
            match status {
                Some(s) => Some(s@),
                None => None,
            },
        ),
{
    match status {
        Some(s) => if str_eq(s, "ONGOING") {
            MangaStatus::Ongoing
        } else if str_eq(s, "END") {
            MangaStatus::Completed
        } else {
            MangaStatus::Unknown
        },
        None => MangaStatus::Unknown,
    }
}

/// The offset of page `page` with `limit` entries a page; the first page,
/// and any page number below it, starts at 0.
pub fn offset(page: i32, limit: i32) -> (r: i32)
    requires
        page <= 1 || i32::MIN <= (page - 1) * limit <= i32::MAX,
    ensures
        r == (if page <= 1 { 0 } else { (page - 1) * limit }),
{
    if page <= 1 {
        0
    } else {
        (page - 1) * limit
    }
}


/// The search parameters: order, status, category id, keyword, author.
pub type SearchSpec = (Seq<char>, Seq<char>, Seq<char>, Option<Seq<char>>, Option<Seq<char>>);

/// The search parameters before any filter: newest updates, any status,
/// every category, the query without surrounding white space as keyword
/// unless it is blank, no author.
pub open spec fn search_start(query: Option<Seq<char>>) -> SearchSpec {
    let keyword = match query {
        Some(q) => if trim(q).len() > 0 {
            Some(trim(q))
        } else {
            None
        },
        None => None,
    };
    ("DATE_UPDATED"@, Seq::empty(), "0"@, keyword, None)
}

/// What a text or select filter with `id` and `value` does: a blank value
/// nothing; otherwise it sets the author, the status, or the category; an
/// unknown genre becomes the keyword.
pub open spec fn search_text_step(st: SearchSpec, id: Seq<char>, value: Seq<char>) -> SearchSpec {
    let v = trim(value);
    if v.len() == 0 {
        st
    } else if id == "author"@ {
        (st.0, st.1, st.2, st.3, Some(v))
    } else if id == "status"@ {
        (st.0, v, st.2, st.3, st.4)
    } else if id == "category"@ {
        match category_filter_spec(v) {
            Some(c) => (st.0, st.1, c, st.3, st.4),
            None => st,
        }
    } else if id == "genre"@ {
        match category_filter_spec(v) {
            Some(c) => (st.0, st.1, c, st.3, st.4),
            None => (st.0, st.1, st.2, Some(v), st.4),
        }
    } else {
        st
    }
}

/// What one filter does to the search parameters.
pub open spec fn search_step(st: SearchSpec, f: FilterValue) -> SearchSpec {
    match f {
        FilterValue::Sort { id, index, ascending } => if id@ == "sort"@ && 0 <= index < 3 {
            (sort_order_ids()[index as int]@, st.1, st.2, st.3, st.4)
        } else {
            st
        },
        FilterValue::Text { id, value } => search_text_step(st, id@, value@),
        FilterValue::Select { id, value } => search_text_step(st, id@, value@),
        _ => st,
    }
}

/// The search parameters after the filters, applied in order.
pub open spec fn search_fold(query: Option<Seq<char>>, fs: Seq<FilterValue>) -> SearchSpec
    decreases fs.len(),
{
    if fs.len() == 0 {
        search_start(query)
    } else {
        search_step(search_fold(query, fs.drop_last()), fs.last())
    }
}

/// The characters of the search parameters.
pub open spec fn search_view(r: (String, String, String, Option<String>, Option<String>)) -> SearchSpec {
    (r.0@, r.1@, r.2@, opt_view(r.3), opt_view(r.4))
}

fn text_filter_step(
    id: &str,
    value: &str,
    status: &mut String,
    category: &mut String,
    keyword: &mut Option<String>,
    author: &mut Option<String>,
    order_by: &String,
)
    ensures
        (order_by@, final(status)@, final(category)@, opt_view(*final(keyword)), opt_view(
            *final(author),
        )) == search_text_step(
            (order_by@, old(status)@, old(category)@, opt_view(*old(keyword)), opt_view(
                *old(author),
            )),
            id@,
            value@,
        ),
{
    let v = trim_chars(&chars_of(value));
    if v.len() == 0 {
        return;
    }
    let vs = string_of(&v);
    if str_eq(id, "author") {
        *author = Some(vs);
    } else if str_eq(id, "status") {
        *status = vs;
    } else if str_eq(id, "category") {
        if let Some(c) = category_filter_value(vs.as_str()) {
            *category = c;
        }
    } else if str_eq(id, "genre") {
        if let Some(c) = category_filter_value(vs.as_str()) {
            *category = c;
        } else {
            *keyword = Some(vs);
        }
    }
}

/// The search parameters that a query and the filters give
/// (`parse_search_filters`): order, status, category id, keyword, author.
pub fn parse_search_filters(query: Option<&str>, filters: &[FilterValue]) -> (r: (
    String,
    String,
    String,
    Option<String>,
    Option<String>,
))
    ensures
        search_view(r) == search_fold(opt_str_view(query), filters@),
{
    let mut order_by = string_of(&chars_of("DATE_UPDATED"));
    let mut status = String::new();
    let mut category = string_of(&chars_of("0"));
    let mut keyword: Option<String> = match query {
        Some(q) => {
            let t = trim_chars(&chars_of(q));
            if t.len() > 0 {
                Some(string_of(&t))
            } else {
                None
            }
        },
        None => None,
    };
    let mut author: Option<String> = None;
    let mut i: usize = 0;
    assert(filters@.take(0) =~= Seq::<FilterValue>::empty());
    while i < filters.len()
        invariant
            i <= filters@.len(),
            (order_by@, status@, category@, opt_view(keyword), opt_view(author)) == search_fold(
                opt_str_view(query),
                filters@.take(i as int),
            ),
        decreases filters@.len() - i,
    {
        assert(filters@.take(i + 1).drop_last() =~= filters@.take(i as int));
        match &filters[i] {
            FilterValue::Sort { id, index, ascending } => {
                if str_eq(id.as_str(), "sort") {
                    if let Some(order) = sort_order(*index) {
                        order_by = string_of(&chars_of(order));
                    }
                }
            },
            FilterValue::Text { id, value } => {
                text_filter_step(
                    id.as_str(),
                    value.as_str(),
                    &mut status,
                    &mut category,
                    &mut keyword,
                    &mut author,
                    &order_by,
                );
            },
            FilterValue::Select { id, value } => {
                text_filter_step(
                    id.as_str(),
                    value.as_str(),
                    &mut status,
                    &mut category,
                    &mut keyword,
                    &mut author,
                    &order_by,
                );
            },
            _ => {},
        }
        i = i + 1;
    }
    assert(filters@.take(filters@.len() as int) =~= filters@);
    (order_by, status, category, keyword, author)
}


/// What a search asks the site for.
pub enum SearchRequest {
    /// The works of the authors of this name.
    Author { author: String },
    /// A page of a category.
    Category { category_id: String, order_by: String, status: String },
    /// A keyword search.
    Keyword { keyword: String },
}

/// What a `SearchRequest` denotes.
pub enum SearchRequestView {
    Author { author: Seq<char> },
    Category { category_id: Seq<char>, order_by: Seq<char>, status: Seq<char> },
    Keyword { keyword: Seq<char> },
}

impl View for SearchRequest {
    type V = SearchRequestView;

    open spec fn view(&self) -> SearchRequestView {
        match self {
            SearchRequest::Author { author } => SearchRequestView::Author { author: author@ },
            SearchRequest::Category { category_id, order_by, status } =>
                SearchRequestView::Category {
                category_id: category_id@,
                order_by: order_by@,
                status: status@,
            },
            SearchRequest::Keyword { keyword } => SearchRequestView::Keyword { keyword: keyword@ },
        }
    }
}

/// The request a search makes: an author searches by author; else a keyword
/// that names a category opens that category, and another keyword searches;
/// else the chosen category opens.
pub open spec fn search_request_spec(p: SearchSpec) -> SearchRequestView {
    match p.4 {
        Some(a) => SearchRequestView::Author { author: a },
        None => match p.3 {
            Some(k) => match category_filter_spec(k) {
                Some(c) => SearchRequestView::Category { category_id: c, order_by: p.0, status: p.1 },
                None => SearchRequestView::Keyword { keyword: k },
            },
            None => SearchRequestView::Category { category_id: p.2, order_by: p.0, status: p.1 },
        },
    }
}

/// The request that a search query and filters make
/// (`get_search_manga_list`).
pub fn search_request(query: Option<&str>, filters: &[FilterValue]) -> (r: SearchRequest)
    ensures
        r@ == search_request_spec(search_fold(opt_str_view(query), filters@)),
{
    let (order_by, status, category, keyword, author) = parse_search_filters(query, filters);
    if let Some(author) = author {
        SearchRequest::Author { author }
    } else if let Some(keyword) = keyword {
        if let Some(category_id) = category_filter_value(keyword.as_str()) {
            SearchRequest::Category { category_id, order_by, status }
        } else {
            SearchRequest::Keyword { keyword }
        }
    } else {
        SearchRequest::Category { category_id: category, order_by, status }
    }
}

/// What a listing asks the site for.
pub enum ListingRequest {
    /// A ranked or recent list, by GraphQL operation and order.
    ComicList { operation: String, order_by: String },
    /// The signed-in user's recommendations.
    Recommendations,
    /// A category in an order.
    Category { category_id: String, order_by: String },
    /// Nothing: an unknown listing is empty.
    Empty,
}

/// What a `ListingRequest` denotes.
pub enum ListingRequestView {
    ComicList { operation: Seq<char>, order_by: Seq<char> },
    Recommendations,
    Category { category_id: Seq<char>, order_by: Seq<char> },
    Empty,
}

impl View for ListingRequest {
    type V = ListingRequestView;

    open spec fn view(&self) -> ListingRequestView {
        match self {
            ListingRequest::ComicList { operation, order_by } => ListingRequestView::ComicList {
                operation: operation@,
                order_by: order_by@,
            },
            ListingRequest::Recommendations => ListingRequestView::Recommendations,
            ListingRequest::Category { category_id, order_by } => ListingRequestView::Category {
                category_id: category_id@,
                order_by: order_by@,
            },
            ListingRequest::Empty => ListingRequestView::Empty,
        }
    }
}

/// A category listing id `category:<id>[:<order>]`: the category and the
/// order, newest updates when none is given.
pub open spec fn category_listing_spec(id: Seq<char>) -> Option<(Seq<char>, Seq<char>)> {
    let p = split_two(id, ':', ':');
    if p.len() >= 2 && p[0] == "category"@ {
        Some((p[1], if p.len() >= 3 { p[2] } else { "DATE_UPDATED"@ }))
    } else {
        None
    }
}

/// The category and order of a category listing id (`category_listing`).
pub fn category_listing(listing_id: &str) -> (r: Option<(String, String)>)
    ensures
        match r {
            Some((c, o)) => category_listing_spec(listing_id@) == Some((c@, o@)),
            None => category_listing_spec(listing_id@) is None,
        },
{
    let parts = split_two_chars(&chars_of(listing_id), ':', ':');
    let ghost p = split_two(listing_id@, ':', ':');
    assert(parts@.len() == p.len());
    if parts.len() >= 2 && chars_eq(&parts[0], &chars_of("category")) {
        assert(parts@[0]@ == p[0]);
        assert(parts@[1]@ == p[1]);
        let category = string_of(&parts[1]);
        let order = if parts.len() >= 3 {
            assert(parts@[2]@ == p[2]);
            string_of(&parts[2])
        } else {
            string_of(&chars_of("DATE_UPDATED"))
        };
        Some((category, order))
    } else {
        if parts.len() >= 2 {
            assert(parts@[0]@ == p[0]);
        }
        None
    }
}

/// The request a listing makes.
pub open spec fn listing_request_spec(id: Seq<char>) -> ListingRequestView {
    if id == "recent_update"@ {
        ListingRequestView::ComicList { operation: "recentUpdate"@, order_by: "DATE_UPDATED"@ }
    } else if id == "recommendations"@ {
        ListingRequestView::Recommendations
    } else if id == "month_views"@ {
        ListingRequestView::ComicList { operation: "hotComics"@, order_by: "MONTH_VIEWS"@ }
    } else if id == "views"@ {
        ListingRequestView::ComicList { operation: "hotComics"@, order_by: "VIEWS"@ }
    } else {
        match category_listing_spec(id) {
            Some((c, o)) => ListingRequestView::Category { category_id: c, order_by: o },
            None => ListingRequestView::Empty,
        }
    }
}

fn owned(s: &str) -> (r: String)
    ensures
        r@ == s@,
{
    string_of(&chars_of(s))
}

/// The request that a listing id makes (`get_manga_list`).
pub fn listing_request(id: &str) -> (r: ListingRequest)
    ensures
        r@ == listing_request_spec(id@),
{
    if str_eq(id, "recent_update") {
        ListingRequest::ComicList { operation: owned("recentUpdate"), order_by: owned("DATE_UPDATED") }
    } else if str_eq(id, "recommendations") {
        ListingRequest::Recommendations
    } else if str_eq(id, "month_views") {
        ListingRequest::ComicList { operation: owned("hotComics"), order_by: owned("MONTH_VIEWS") }
    } else if str_eq(id, "views") {
        ListingRequest::ComicList { operation: owned("hotComics"), order_by: owned("VIEWS") }
    } else {
        match category_listing(id) {
            Some((category_id, order_by)) => ListingRequest::Category { category_id, order_by },
            None => ListingRequest::Empty,
        }
    }
}

/// The link that a site address opens: `/comic/<key>` a title,
/// `/comic/<key>/chapter/<chapter>/...` a chapter of it.
pub open spec fn deep_link_spec(url: Seq<char>) -> Option<DeepLinkView> {
    let p = split_two(url, '/', '/');
    if p.len() >= 5 && p[3] == "comic"@ {
        if p.len() == 5 {
            Some(DeepLinkView::Manga { key: p[4] })
        } else if p.len() >= 7 && p[5] == "chapter"@ {
            Some(DeepLinkView::Chapter { manga_key: p[4], key: p[6] })
        } else {
            None
        }
    } else {
        None
    }
}

/// The title or chapter that a site address opens (`handle_deep_link`).
pub fn handle_deep_link(url: &str) -> (r: Option<DeepLink>)
    ensures
        opt_link_view(r) == deep_link_spec(url@),
{
    let parts = split_two_chars(&chars_of(url), '/', '/');
    let ghost p = split_two(url@, '/', '/');
    assert(parts@.len() == p.len());
    if parts.len() < 5 {
        return None;
    }
    assert(parts@[3]@ == p[3]);
    assert(parts@[4]@ == p[4]);
    if !chars_eq(&parts[3], &chars_of("comic")) {
        return None;
    }
    if parts.len() == 5 {
        return Some(DeepLink::Manga { key: string_of(&parts[4]) });
    }
    if parts.len() >= 7 {
        assert(parts@[5]@ == p[5]);
        assert(parts@[6]@ == p[6]);
        if chars_eq(&parts[5], &chars_of("chapter")) {
            return Some(
                DeepLink::Chapter { manga_key: string_of(&parts[4]), key: string_of(&parts[6]) },
            );
        }
    }
    None
}


/// A comic as the source hands it to the app.
pub struct KomiicManga {
    pub key: String,
    pub title: String,
    pub cover: Option<String>,
    pub url: String,
    pub status: MangaStatus,
    pub content_rating: ContentRating,
    pub viewer: Viewer,
    pub authors: Option<Vec<String>>,
    pub description: Option<String>,
    pub tags: Option<Vec<String>>,
}

/// The fields of a comic entry in a response, as far as they are present:
/// an absent name list is `None`, a present one holds the names found in it.
pub struct ComicFields {
    pub id: Option<String>,
    pub title: Option<String>,
    pub image_url: Option<String>,
    pub status: Option<String>,
    pub description: Option<String>,
    pub author_names: Option<Vec<String>>,
    pub category_names: Option<Vec<String>>,
}

/// A name list that holds at least one name; otherwise none.
pub open spec fn names_spec(names: Option<Vec<String>>) -> Option<Vec<String>> {
    match names {
        Some(v) => if v@.len() > 0 {
            Some(v)
        } else {
            None
        },
        None => None,
    }
}

/// The address of a comic.
pub open spec fn comic_url_spec(key: Seq<char>) -> Seq<char> {
    BASE_URL@ + "/comic/"@ + key
}

/// A description that is not blank; otherwise none.
pub open spec fn description_spec(d: Option<String>) -> Option<Seq<char>> {
    match d {
        Some(s) => if trim(s@).len() > 0 {
            Some(s@)
        } else {
            None
        },
        None => None,
    }
}

/// What `parse_manga` makes of the fields: the id (empty when absent) is the
/// key, the title falls back to the key, the address is under `/comic/`, the
/// rating safe, the reading right to left; authors, description and tags
/// only for a full entry.
pub open spec fn parse_manga_spec(f: ComicFields, minimal: bool, m: KomiicManga) -> bool {
    let key = match f.id {
        Some(s) => s@,
        None => Seq::<char>::empty(),
    };
    &&& m.key@ == key
    &&& m.title@ == (match f.title {
        Some(t) => t@,
        None => key,
    })
    &&& opt_view(m.cover) == opt_view(f.image_url)
    &&& m.url@ == comic_url_spec(key)
    &&& m.status == status_spec(opt_view(f.status))
    &&& m.content_rating == ContentRating::Safe
    &&& m.viewer == Viewer::RightToLeft
    &&& if minimal {
        m.authors is None && m.description is None && m.tags is None
    } else {
        &&& m.authors == names_spec(f.author_names)
        &&& opt_view(m.description) == description_spec(f.description)
        &&& m.tags == names_spec(f.category_names)
    }
}

fn names(v: Option<Vec<String>>) -> (r: Option<Vec<String>>)
    ensures
        r == names_spec(v),
{
    match v {
        Some(v) => if v.len() > 0 {
            Some(v)
        } else {
            None
        },
        None => None,
    }
}

/// The address of a comic (`format!("{BASE_URL}/comic/{key}")`).
pub fn comic_url(key: &str) -> (r: String)
    ensures
        r@ == comic_url_spec(key@),
{
    let mut a: Vec<char> = Vec::new();
    push_str(&mut a, BASE_URL);
    push_str(&mut a, "/comic/");
    push_str(&mut a, key);
    string_of(&a)
}

/// A comic from the fields of its entry (`parse_manga`).
pub fn parse_manga(f: ComicFields, minimal: bool) -> (r: KomiicManga)
    ensures
        parse_manga_spec(f, minimal, r),
{
    let ghost g = f;
    let ComicFields { id, title, image_url, status, description, author_names, category_names } = f;
    let key = match id {
        Some(s) => s,
        None => String::new(),
    };
    let title = match title {
        Some(t) => t,
        None => key.clone(),
    };
    let url = comic_url(key.as_str());
    let status = manga_status(
        match &status {
            Some(s) => Some(s.as_str()),
            None => None,
        },
    );
    if minimal {
        KomiicManga {
            key,
            title,
            cover: image_url,
            url,
            status,
            content_rating: ContentRating::Safe,
            viewer: Viewer::RightToLeft,
            authors: None,
            description: None,
            tags: None,
        }
    } else {
        let description = match description {
            Some(d) => if trim_chars(&chars_of(d.as_str())).len() > 0 {
                Some(d)
            } else {
                None
            },
            None => None,
        };
        KomiicManga {
            key,
            title,
            cover: image_url,
            url,
            status,
            content_rating: ContentRating::Safe,
            viewer: Viewer::RightToLeft,
            authors: names(author_names),
            description,
            tags: names(category_names),
        }
    }
}

/// Some entry of `s` has key `key`.
pub open spec fn has_key(s: Seq<KomiicManga>, key: Seq<char>) -> bool {
    exists|i: int| 0 <= i < s.len() && #[trigger] s[i].key@ == key
}

/// The entries without those whose key an earlier entry has.
pub open spec fn dedup_spec(s: Seq<KomiicManga>) -> Seq<KomiicManga>
    decreases s.len(),
{
    if s.len() == 0 {
        Seq::empty()
    } else {
        let prev = dedup_spec(s.drop_last());
        if has_key(prev, s.last().key@) {
            prev
        } else {
            prev.push(s.last())
        }
    }
}

/// Keeps the first entry of each key, in order (`deduplicate_manga`).
pub fn deduplicate_manga(entries: Vec<KomiicManga>) -> (r: Vec<KomiicManga>)
    ensures
        r@ == dedup_spec(entries@),
{
    let ghost orig = entries@;
    let n = entries.len();
    let mut rest = entries;
    let mut kept: Vec<KomiicManga> = Vec::new();
    let mut i: usize = 0;
    while rest.len() > 0
        invariant
            i + rest@.len() == orig.len(),
            orig.len() == n,
            rest@ == orig.skip(i as int),
            kept@ == dedup_spec(orig.take(i as int)),
        decreases rest@.len(),
    {
        let entry = rest.remove(0);
        assert(entry == orig[i as int]);
        assert(orig.take(i + 1).drop_last() =~= orig.take(i as int));
        assert(orig.take(i + 1).last() == entry);
        let mut seen = false;
        let mut j: usize = 0;
        while j < kept.len()
            invariant
                j <= kept@.len(),
                seen == exists|k: int| 0 <= k < j && #[trigger] kept@[k].key@ == entry.key@,
            decreases kept@.len() - j,
        {
            if kept[j].key == entry.key {
                seen = true;
            }
            j = j + 1;
        }
        if !seen {
            kept.push(entry);
        }
        i = i + 1;
        assert(rest@ =~= orig.skip(i as int));
    }
    assert(orig.take(i as int) =~= orig);
    kept
}

proof fn lemma_dedup_subset(s: Seq<KomiicManga>, j: int)
    requires
        0 <= j < dedup_spec(s).len(),
    ensures
        exists|i: int| 0 <= i < s.len() && s[i] == #[trigger] dedup_spec(s)[j],
    decreases s.len(),
{
    if s.len() > 0 {
        let prev = dedup_spec(s.drop_last());
        if j < prev.len() {
            lemma_dedup_subset(s.drop_last(), j);
            let i = choose|i: int| 0 <= i < s.drop_last().len() && s.drop_last()[i] == prev[j];
            assert(s[i] == dedup_spec(s)[j]);
        } else {
            assert(s[s.len() - 1] == dedup_spec(s)[j]);
        }
    }
}

/// After de-duplication no two entries share a key.
pub proof fn law_dedup_keys_distinct(s: Seq<KomiicManga>)
    ensures
        forall|i: int, j: int|
            0 <= i < j < dedup_spec(s).len() ==> #[trigger] dedup_spec(s)[i].key@
                != #[trigger] dedup_spec(s)[j].key@,
    decreases s.len(),
{
    if s.len() > 0 {
        law_dedup_keys_distinct(s.drop_last());
    }
}

/// De-duplication keeps every key of the input, and only entries of the
/// input.
pub proof fn law_dedup_keeps_keys(s: Seq<KomiicManga>)
    ensures
        forall|i: int| 0 <= i < s.len() ==> has_key(dedup_spec(s), #[trigger] s[i].key@),
        forall|j: int|
            0 <= j < dedup_spec(s).len() ==> exists|i: int|
                0 <= i < s.len() && s[i] == #[trigger] dedup_spec(s)[j],
    decreases s.len(),
{
    if s.len() > 0 {
        law_dedup_keeps_keys(s.drop_last());
        let prev = dedup_spec(s.drop_last());
        assert forall|i: int| 0 <= i < s.len() implies has_key(dedup_spec(s), #[trigger] s[i].key@) by {
            if i < s.len() - 1 {
                assert(s.drop_last()[i] == s[i]);
                assert(has_key(prev, s[i].key@));
                let k = choose|k: int| 0 <= k < prev.len() && #[trigger] prev[k].key@ == s[i].key@;
                assert(dedup_spec(s)[k] == prev[k]);
            } else if !has_key(prev, s.last().key@) {
                assert(dedup_spec(s)[prev.len() as int] == s.last());
            }
        }
        assert forall|j: int| 0 <= j < dedup_spec(s).len() implies exists|i: int|
            0 <= i < s.len() && s[i] == #[trigger] dedup_spec(s)[j] by {
            lemma_dedup_subset(s, j);
        }
    }
}

/// Entry `i` is the first of `s` with its key.
pub open spec fn first_of_key(s: Seq<KomiicManga>, i: int) -> bool {
    forall|k: int| 0 <= k < i ==> #[trigger] s[k].key@ != s[i].key@
}

/// The entries of `s` that are the first with their key, in order.
pub open spec fn first_occurrences(s: Seq<KomiicManga>) -> Seq<KomiicManga>
    decreases s.len(),
{
    if s.len() == 0 {
        Seq::empty()
    } else if first_of_key(s, s.len() - 1) {
        first_occurrences(s.drop_last()).push(s.last())
    } else {
        first_occurrences(s.drop_last())
    }
}

/// De-duplication keeps exactly the first entry of each key, in the order
/// of the input.
pub proof fn law_dedup_keeps_first_occurrences(s: Seq<KomiicManga>)
    ensures
        dedup_spec(s) == first_occurrences(s),
    decreases s.len(),
{
    if s.len() > 0 {
        let init = s.drop_last();
        law_dedup_keeps_first_occurrences(init);
        law_dedup_keeps_keys(init);
        let prev = dedup_spec(init);
        let key = s.last().key@;
        if has_key(prev, key) {
            let j = choose|j: int| 0 <= j < prev.len() && #[trigger] prev[j].key@ == key;
            let i = choose|i: int| 0 <= i < init.len() && init[i] == #[trigger] prev[j];
            assert(s[i].key@ == s[s.len() - 1].key@);
            assert(!first_of_key(s, s.len() - 1));
        } else {
            assert forall|k: int| 0 <= k < s.len() - 1 implies #[trigger] s[k].key@ != s[s.len() - 1].key@ by {
                assert(init[k] == s[k]);
                if s[k].key@ == key {
                    assert(has_key(prev, init[k].key@));
                }
            }
            assert(first_of_key(s, s.len() - 1));
        }
    }
}

/// De-duplicating twice is de-duplicating once.
pub proof fn law_dedup_idempotent(s: Seq<KomiicManga>)
    ensures
        dedup_spec(dedup_spec(s)) == dedup_spec(s),
{
    law_dedup_keys_distinct(s);
    lemma_dedup_of_distinct(dedup_spec(s));
}

proof fn lemma_dedup_of_distinct(t: Seq<KomiicManga>)
    requires
        forall|i: int, j: int| 0 <= i < j < t.len() ==> #[trigger] t[i].key@ != #[trigger] t[j].key@,
    ensures
        dedup_spec(t) == t,
    decreases t.len(),
{
    if t.len() > 0 {
        let u = t.drop_last();
        assert forall|i: int, j: int| 0 <= i < j < u.len() implies #[trigger] u[i].key@ != #[trigger] u[j].key@ by {
            assert(u[i] == t[i] && u[j] == t[j]);
        }
        lemma_dedup_of_distinct(u);
        if has_key(u, t.last().key@) {
            let k = choose|k: int| 0 <= k < u.len() && #[trigger] u[k].key@ == t.last().key@;
            assert(t[k] == u[k]);
            assert(false);
        }
        assert(u.push(t.last()) =~= t);
    }
}


/// The first entry of `s` with key `key`, or -1.
pub open spec fn first_with_key(s: Seq<KomiicManga>, key: Seq<char>) -> int {
    find_first_index(s.map_values(|m: KomiicManga| m.key@ == key))
}

/// Takes, for each id in turn, the first remaining entry with that key: the
/// entries taken, in the order of the ids, and the entries left.
pub open spec fn order_fold(ids: Seq<Seq<char>>, entries: Seq<KomiicManga>) -> (
    Seq<KomiicManga>,
    Seq<KomiicManga>,
)
    decreases ids.len(),
{
    if ids.len() == 0 {
        (Seq::empty(), entries)
    } else {
        let (taken, rest) = order_fold(ids.drop_last(), entries);
        let k = first_with_key(rest, ids.last());
        if k >= 0 {
            (taken.push(rest[k]), rest.remove(k))
        } else {
            (taken, rest)
        }
    }
}

fn position_of_key(rest: &Vec<KomiicManga>, key: &String) -> (r: Option<usize>)
    ensures
        match r {
            Some(k) => k == first_with_key(rest@, key@) && k < rest@.len(),
            None => first_with_key(rest@, key@) == -1,
        },
{
    let ghost flags = rest@.map_values(|m: KomiicManga| m.key@ == key@);
    let mut j: usize = 0;
    while j < rest.len()
        invariant
            j <= rest@.len(),
            flags == rest@.map_values(|m: KomiicManga| m.key@ == key@),
            forall|k: int| 0 <= k < j ==> !flags[k],
        decreases rest@.len() - j,
    {
        if rest[j].key == *key {
            proof {
                lemma_find_first_index(flags, j as int);
            }
            return Some(j);
        }
        j = j + 1;
    }
    proof {
        lemma_find_first_none(flags);
    }
    None
}

/// The entries in the order of the ids asked for; an id that no entry has is
/// skipped, and entries no id asks for are dropped (`comics_by_ids`).
pub fn order_by_ids(ids: &Vec<String>, entries: Vec<KomiicManga>) -> (r: Vec<KomiicManga>)
    ensures
        r@ == order_fold(string_views(ids@), entries@).0,
{
    let ghost orig = entries@;
    let mut rest = entries;
    let mut ordered: Vec<KomiicManga> = Vec::new();
    let mut i: usize = 0;
    assert(string_views(ids@).take(0) =~= Seq::<Seq<char>>::empty());
    while i < ids.len()
        invariant
            i <= ids@.len(),
            (ordered@, rest@) == order_fold(string_views(ids@).take(i as int), orig),
        decreases ids@.len() - i,
    {
        let ghost prefix = string_views(ids@).take(i as int);
        assert(string_views(ids@).take(i + 1).drop_last() =~= prefix);
        assert(string_views(ids@).take(i + 1).last() == ids@[i as int]@);
        let found = position_of_key(&rest, &ids[i]);
        match found {
            Some(k) => {
                let e = rest.remove(k);
                ordered.push(e);
            },
            None => {},
        }
        i = i + 1;
    }
    assert(string_views(ids@).take(ids@.len() as int) =~= string_views(ids@));
    ordered
}

/// `id` appended unless the list has it already.
pub open spec fn push_new(ids: Seq<Seq<char>>, id: Seq<char>) -> Seq<Seq<char>> {
    if ids.contains(id) {
        ids
    } else {
        ids.push(id)
    }
}

fn push_new_string(ids: &mut Vec<String>, id: String)
    ensures
        string_views(final(ids)@) == push_new(string_views(old(ids)@), id@),
{
    let ghost views = string_views(ids@);
    let mut j: usize = 0;
    while j < ids.len()
        invariant
            j <= ids@.len(),
            views == string_views(ids@),
            forall|k: int| 0 <= k < j ==> views[k] != id@,
        decreases ids@.len() - j,
    {
        if ids[j] == id {
            assert(views[j as int] == id@);
            return;
        }
        j = j + 1;
    }
    assert(!views.contains(id@));
    ids.push(id);
    assert(string_views(ids@) =~= views.push(id@));
}

/// The present ids, each once, in order of first appearance.
pub open spec fn unique_ids_spec(ids: Seq<Option<String>>) -> Seq<Seq<char>>
    decreases ids.len(),
{
    if ids.len() == 0 {
        Seq::empty()
    } else {
        let p = unique_ids_spec(ids.drop_last());
        match ids.last() {
            Some(id) => push_new(p, id@),
            None => p,
        }
    }
}

/// The present ids, each once, in order of first appearance (the comic ids
/// of personal recommendations).
pub fn unique_ids(ids: Vec<Option<String>>) -> (r: Vec<String>)
    ensures
        string_views(r@) == unique_ids_spec(ids@),
{
    let ghost orig = ids@;
    let n = ids.len();
    let mut rest = ids;
    let mut out: Vec<String> = Vec::new();
    let mut i: usize = 0;
    while rest.len() > 0
        invariant
            i + rest@.len() == orig.len(),
            orig.len() == n,
            rest@ == orig.skip(i as int),
            string_views(out@) == unique_ids_spec(orig.take(i as int)),
        decreases rest@.len(),
    {
        let id = rest.remove(0);
        assert(orig.take(i + 1).drop_last() =~= orig.take(i as int));
        assert(orig.take(i + 1).last() == id);
        if let Some(id) = id {
            push_new_string(&mut out, id);
        }
        i = i + 1;
        assert(rest@ =~= orig.skip(i as int));
    }
    assert(orig.take(i as int) =~= orig);
    out
}

/// An author entry of a search response.
pub struct AuthorRef {
    pub id: Option<String>,
    pub name: Option<String>,
    pub ch_name: Option<String>,
    pub en_name: Option<String>,
}

/// A name that is not blank and, without surrounding white space, is the
/// keyword.
pub open spec fn name_matches(name: Option<String>, keyword: Seq<char>) -> bool {
    match name {
        Some(n) => trim(n@).len() > 0 && trim(n@) == keyword,
        None => false,
    }
}

/// One of the author's names is the keyword.
pub open spec fn author_matches_spec(a: AuthorRef, keyword: Seq<char>) -> bool {
    name_matches(a.name, keyword) || name_matches(a.ch_name, keyword) || name_matches(
        a.en_name,
        keyword,
    )
}

fn name_matches_exec(name: &Option<String>, keyword: &[char]) -> (r: bool)
    ensures
        r == name_matches(*name, keyword@),
{
    match name {
        Some(n) => {
            let t = trim_chars(&chars_of(n.as_str()));
            t.len() > 0 && chars_eq(&t, keyword)
        },
        None => false,
    }
}

/// One of the author's names is the keyword (`author_matches`).
pub fn author_matches(a: &AuthorRef, keyword: &str) -> (r: bool)
    ensures
        r == author_matches_spec(*a, keyword@),
{
    let k = chars_of(keyword);
    name_matches_exec(&a.name, &k) || name_matches_exec(&a.ch_name, &k) || name_matches_exec(
        &a.en_name,
        &k,
    )
}

/// The keyword an author search uses: without surrounding white space, and
/// none when blank (no request is made then).
pub fn author_keyword(keyword: &str) -> (r: Option<String>)
    ensures
        match r {
            Some(k) => trim(keyword@).len() > 0 && k@ == trim(keyword@),
            None => trim(keyword@).len() == 0,
        },
{
    let t = trim_chars(&chars_of(keyword));
    if t.len() == 0 {
        None
    } else {
        Some(string_of(&t))
    }
}

/// The ids of the matching authors, each once, in order.
pub open spec fn author_ids_spec(authors: Seq<AuthorRef>, keyword: Seq<char>) -> Seq<Seq<char>>
    decreases authors.len(),
{
    if authors.len() == 0 {
        Seq::empty()
    } else {
        let p = author_ids_spec(authors.drop_last(), keyword);
        let a = authors.last();
        if author_matches_spec(a, keyword) && a.id is Some {
            push_new(p, a.id->0@)
        } else {
            p
        }
    }
}

/// The ids of the authors whose name is the keyword, each once, in order
/// (`search_author_ids`).
pub fn matching_author_ids(authors: &Vec<AuthorRef>, keyword: &str) -> (r: Vec<String>)
    ensures
        string_views(r@) == author_ids_spec(authors@, keyword@),
{
    let mut out: Vec<String> = Vec::new();
    let mut i: usize = 0;
    assert(authors@.take(0) =~= Seq::<AuthorRef>::empty());
    while i < authors.len()
        invariant
            i <= authors@.len(),
            string_views(out@) == author_ids_spec(authors@.take(i as int), keyword@),
        decreases authors@.len() - i,
    {
        assert(authors@.take(i + 1).drop_last() =~= authors@.take(i as int));
        assert(authors@.take(i + 1).last() == authors@[i as int]);
        let a = &authors[i];
        if author_matches(a, keyword) {
            if let Some(id) = &a.id {
                push_new_string(&mut out, id.clone());
            }
        }
        i = i + 1;
    }
    assert(authors@.take(authors@.len() as int) =~= authors@);
    out
}

/// The chapter list shown: volumes when they are preferred and there are
/// some; else web chapters when there are some; else volumes
/// (`select_chapter_version`).
pub fn select_chapter_version<T>(books: Vec<T>, web_chapters: Vec<T>, prefer_books: bool) -> (r: Vec<T>)
    ensures
        r@ == (if prefer_books && books@.len() > 0 {
            books@
        } else if web_chapters@.len() > 0 {
            web_chapters@
        } else {
            books@
        }),
{
    if prefer_books && books.len() > 0 {
        books
    } else if web_chapters.len() > 0 {
        web_chapters
    } else {
        books
    }
}

/// The title of a chapter with serial `serial`: none for an absent, blank
/// or numeric serial (the number is shown instead); a volume's title is
/// prefixed with 卷.
pub open spec fn chapter_title_spec(serial: Option<Seq<char>>, serial_is_number: bool, is_book: bool) -> Option<Seq<char>> {
    match serial {
        Some(s) => {
            let t = trim(s);
            if t.len() == 0 || serial_is_number {
                None
            } else if is_book {
                Some("卷"@ + t)
            } else {
                Some(t)
            }
        },
        None => None,
    }
}

/// The title of a chapter (`chapter_title`). `serial_is_number` says whether
/// the serial, without surrounding white space, reads as a floating-point
/// number.
pub fn chapter_title(serial: Option<&str>, serial_is_number: bool, is_book: bool) -> (r: Option<String>)
    ensures
        opt_view(r) == chapter_title_spec(opt_str_view(serial), serial_is_number, is_book),
{
    match serial {
        Some(s) => {
            let t = trim_chars(&chars_of(s));
            if t.len() == 0 || serial_is_number {
                None
            } else if is_book {
                let mut a: Vec<char> = Vec::new();
                push_str(&mut a, "卷");
                let mut b = a;
                crate::text::append_chars(&mut b, &t);
                Some(string_of(&b))
            } else {
                Some(string_of(&t))
            }
        },
        None => None,
    }
}

/// The address of a chapter's images page, which page requests carry as
/// referer.
pub open spec fn chapter_url_spec(manga_key: Seq<char>, key: Seq<char>) -> Seq<char> {
    BASE_URL@ + "/comic/"@ + manga_key + "/chapter/"@ + key + "/images/all"@
}

/// The address of a chapter's images page.
pub fn chapter_url(manga_key: &str, key: &str) -> (r: String)
    ensures
        r@ == chapter_url_spec(manga_key@, key@),
{
    let mut a: Vec<char> = Vec::new();
    push_str(&mut a, BASE_URL);
    push_str(&mut a, "/comic/");
    push_str(&mut a, manga_key);
    push_str(&mut a, "/chapter/");
    push_str(&mut a, key);
    push_str(&mut a, "/images/all");
    string_of(&a)
}

/// The address of a page image.
pub fn image_url(kid: &str) -> (r: String)
    ensures
        r@ == IMAGE_URL@ + "/"@ + kid@,
{
    let mut a: Vec<char> = Vec::new();
    push_str(&mut a, IMAGE_URL);
    push_str(&mut a, "/");
    push_str(&mut a, kid);
    string_of(&a)
}

/// The error a response gives: any status but 200 fails; a response that
/// has an `errors` list fails with the message of its first error, or a
/// generic one.
pub open spec fn response_error_spec(status: i32, errors: Option<Option<Seq<char>>>) -> Option<Seq<char>> {
    if status != 200 {
        Some("Komiic HTTP "@ + int_decimal(status as int))
    } else {
        match errors {
            Some(m) => Some("Komiic "@ + match m {
                Some(t) => t,
                None => "GraphQL error"@,
            }),
            None => None,
        }
    }
}

/// The error a response gives (`post_json`): `errors` is the message of the
/// first error when the response has an `errors` list (`Some(None)` when
/// that error has none), `None` when it has no such list.
pub fn response_error(status: i32, errors: Option<Option<String>>) -> (r: Option<String>)
    ensures
        opt_view(r) == response_error_spec(
            status,
            match errors {
                Some(m) => Some(opt_view(m)),
                None => None,
            },
        ),
{
    let mut a: Vec<char> = Vec::new();
    if status != 200 {
        push_str(&mut a, "Komiic HTTP ");
        let d = i64_decimal(status as i64);
        crate::text::append_chars(&mut a, &d);
        return Some(string_of(&a));
    }
    match errors {
        Some(m) => {
            push_str(&mut a, "Komiic ");
            match m {
                Some(t) => push_str(&mut a, t.as_str()),
                None => push_str(&mut a, "GraphQL error"),
            }
            Some(string_of(&a))
        },
        None => None,
    }
}

/// The positions of the chapters that are books (type `book`) and of the
/// others, each in order (`chapters`, before a version is chosen).
pub open spec fn split_by_type_spec(types: Seq<Option<Seq<char>>>) -> (Seq<int>, Seq<int>)
    decreases types.len(),
{
    if types.len() == 0 {
        (Seq::empty(), Seq::empty())
    } else {
        let (b, w) = split_by_type_spec(types.drop_last());
        let n = types.len() - 1;
        if types[n] == Some("book"@) {
            (b.push(n), w)
        } else {
            (b, w.push(n))
        }
    }
}

/// Splits a comic's chapters by their type: books, and web chapters.
pub fn split_by_type(types: &Vec<Option<String>>) -> (r: (Vec<usize>, Vec<usize>))
    ensures
        (r.0@.map_values(|i: usize| i as int), r.1@.map_values(|i: usize| i as int)) == split_by_type_spec(
            types@.map_values(|t: Option<String>| crate::text::opt_view(t)),
        ),
{
    let ghost tv = types@.map_values(|t: Option<String>| crate::text::opt_view(t));
    let mut books: Vec<usize> = Vec::new();
    let mut web: Vec<usize> = Vec::new();
    let mut i: usize = 0;
    assert(tv.take(0) =~= Seq::<Option<Seq<char>>>::empty());
    while i < types.len()
        invariant
            i <= types@.len(),
            tv == types@.map_values(|t: Option<String>| crate::text::opt_view(t)),
            (books@.map_values(|i: usize| i as int), web@.map_values(|i: usize| i as int)) == split_by_type_spec(tv.take(i as int)),
        decreases types@.len() - i,
    {
        assert(tv.take(i + 1).drop_last() =~= tv.take(i as int));
        assert(tv.take(i + 1)[i as int] == crate::text::opt_view(types@[i as int]));
        let is_book = match &types[i] {
            Some(t) => crate::text::str_eq(t.as_str(), "book"),
            None => false,
        };
        proof {
            reveal_strlit("book");
        }
        let ghost pb = books@;
        let ghost pw = web@;
        if is_book {
            books.push(i);
            assert(books@.map_values(|i: usize| i as int) =~= pb.map_values(|i: usize| i as int).push(i as int));
        } else {
            web.push(i);
            assert(web@.map_values(|i: usize| i as int) =~= pw.map_values(|i: usize| i as int).push(i as int));
        }
        i = i + 1;
    }
    assert(tv.take(tv.len() as int) =~= tv);
    (books, web)
}

} // verus!
