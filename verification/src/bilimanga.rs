//! BiliManga: the page addresses the source requests, and how a search query
//! or a set of filters chooses one of them.
use vstd::prelude::*;

use crate::model::FilterValue;
use crate::text::{
    find_first_index, lemma_find_first_index, lemma_find_first_none,
    append_chars, chars_of, encode_uri, encode_uri_spec, push_str, decimal, int_decimal, i64_decimal, join, join_strings, str_eq,
    string_of, string_views, u64_decimal,
};

verus! {

/// A page of the site. Text that goes into a query (`Search::query`,
/// `Author::author`) is held percent-encoded as a URI.
pub enum Url {
    /// The filtered catalogue.
    Filter {
        order: String,
        tagid: String,
        isfull: String,
        anime: String,
        rgroupid: String,
        sortid: String,
        update: String,
        quality: String,
        page: i32,
    },
    /// A title search.
    Search { query: String, page: i32 },
    /// The works of an author.
    Author { author: String },
    /// A title's detail page.
    Manga { id: String },
    /// A title's table of contents.
    ChapterList { id: String },
    /// A chapter.
    Chapter { manga_id: String, chapter_id: String },
}

/// The genre options of the genre filter, in the order of their tag ids
/// (the first is tag 1).
pub open spec fn genre_options() -> Seq<&'static str> {
    seq![
        "奇幻", "冒險", "異世界", "龍傲天", "魔法", "仙俠", "戰爭", "熱血", "戰鬥", "競技",
        "懸疑", "驚悚", "獵奇", "神鬼", "偵探", "校園", "日常", "JK", "JC", "青梅竹馬",
        "妹妹", "大小姐", "女兒", "戀愛", "耽美", "百合", "NTR", "後宮", "職場", "經營",
        "犯罪", "旅行", "群像", "女性視角", "歷史", "武俠", "東方", "勵志", "宅系", "科幻",
        "機戰", "遊戲", "異能", "腦洞", "病嬌", "人外", "復仇", "鬥智", "惡役", "間諜",
        "治癒", "歡樂", "萌系", "末日", "大逃殺", "音樂", "美食", "性轉", "偽娘", "穿越",
        "童話", "轉生", "黑暗", "溫馨", "超自然",
    ]
}

/// The sort orders of the sort filter, by option index.
pub open spec fn sort_orders() -> Seq<&'static str> {
    seq![
        "lastupdate", "postdate", "weekvisit", "monthvisit", "weekvote", "monthvote",
        "weekflower", "monthflower", "words", "goodnum",
    ]
}

fn genre_table() -> (r: Vec<&'static str>)
    ensures
        r@ == genre_options(),
{
    let r = vec![
        "奇幻", "冒險", "異世界", "龍傲天", "魔法", "仙俠", "戰爭", "熱血", "戰鬥", "競技",
        "懸疑", "驚悚", "獵奇", "神鬼", "偵探", "校園", "日常", "JK", "JC", "青梅竹馬",
        "妹妹", "大小姐", "女兒", "戀愛", "耽美", "百合", "NTR", "後宮", "職場", "經營",
        "犯罪", "旅行", "群像", "女性視角", "歷史", "武俠", "東方", "勵志", "宅系", "科幻",
        "機戰", "遊戲", "異能", "腦洞", "病嬌", "人外", "復仇", "鬥智", "惡役", "間諜",
        "治癒", "歡樂", "萌系", "末日", "大逃殺", "音樂", "美食", "性轉", "偽娘", "穿越",
        "童話", "轉生", "黑暗", "溫馨", "超自然",
    ];
    assert(r@ =~= genre_options());
    r
}

fn sort_table() -> (r: Vec<&'static str>)
    ensures
        r@ == sort_orders(),
{
    let r = vec![
        "lastupdate", "postdate", "weekvisit", "monthvisit", "weekvote", "monthvote",
        "weekflower", "monthflower", "words", "goodnum",
    ];
    assert(r@ =~= sort_orders());
    r
}


/// What a `Url` denotes: its variant and the characters of its fields.
pub enum UrlView {
    Filter { params: FilterView, page: i32 },
    Search { query: Seq<char>, page: i32 },
    Author { author: Seq<char> },
    Manga { id: Seq<char> },
    ChapterList { id: Seq<char> },
    Chapter { manga_id: Seq<char>, chapter_id: Seq<char> },
}

/// The catalogue parameters that the filters set.
pub struct FilterView {
    pub order: Seq<char>,
    pub tagid: Seq<char>,
    pub isfull: Seq<char>,
    pub anime: Seq<char>,
    pub rgroupid: Seq<char>,
    pub sortid: Seq<char>,
    pub update: Seq<char>,
    pub quality: Seq<char>,
}

impl View for Url {
    type V = UrlView;

    open spec fn view(&self) -> UrlView {
        match self {
            Url::Filter { order, tagid, isfull, anime, rgroupid, sortid, update, quality, page } =>
                UrlView::Filter {
                params: FilterView {
                    order: order@,
                    tagid: tagid@,
                    isfull: isfull@,
                    anime: anime@,
                    rgroupid: rgroupid@,
                    sortid: sortid@,
                    update: update@,
                    quality: quality@,
                },
                page: *page,
            },
            Url::Search { query, page } => UrlView::Search { query: query@, page: *page },
            Url::Author { author } => UrlView::Author { author: author@ },
            Url::Manga { id } => UrlView::Manga { id: id@ },
            Url::ChapterList { id } => UrlView::ChapterList { id: id@ },
            Url::Chapter { manga_id, chapter_id } => UrlView::Chapter {
                manga_id: manga_id@,
                chapter_id: chapter_id@,
            },
        }
    }
}

/// The catalogue parameters before any filter: newest updates first, every
/// other parameter `0`.
pub open spec fn initial_filter() -> FilterView {
    FilterView {
        order: "lastupdate"@,
        tagid: "0"@,
        isfull: "0"@,
        anime: "0"@,
        rgroupid: "0"@,
        sortid: "0"@,
        update: "0"@,
        quality: "0"@,
    }
}

/// The index of `value` among the genre options, or -1.
pub open spec fn genre_index(value: Seq<char>) -> int {
    find_first_index(genre_options().map_values(|o: &'static str| o@ == value))
}

/// What one filter does to the catalogue parameters.
pub open spec fn filter_step(st: FilterView, f: FilterValue) -> FilterView {
    match f {
        FilterValue::Select { id, value } => {
            if id@ == "连载状态"@ {
                FilterView { isfull: value@, ..st }
            } else if id@ == "是否动画"@ {
                FilterView { anime: value@, ..st }
            } else if id@ == "是否轻改"@ {
                FilterView { quality: value@, ..st }
            } else if id@ == "文库地区"@ {
                FilterView { rgroupid: value@, ..st }
            } else if id@ == "更新时间"@ {
                FilterView { update: value@, ..st }
            } else if id@ == "作品分类"@ {
                FilterView { sortid: value@, ..st }
            } else if id@ == "genre"@ && genre_index(value@) >= 0 {
                FilterView { tagid: decimal((genre_index(value@) + 1) as nat), ..st }
            } else {
                st
            }
        },
        FilterValue::MultiSelect { id, included, excluded } => {
            if id@ == "作品主题"@ && included@.len() > 0 {
                FilterView { tagid: join(string_views(included@), "-"@), ..st }
            } else {
                st
            }
        },
        FilterValue::Sort { id, index, ascending } => {
            if id@ == "排序"@ && 0 <= index < 10 {
                FilterView { order: sort_orders()[index as int]@, ..st }
            } else {
                st
            }
        },
        _ => st,
    }
}

/// The catalogue parameters after the filters, applied in order.
pub open spec fn filter_fold(fs: Seq<FilterValue>) -> FilterView
    decreases fs.len(),
{
    if fs.len() == 0 {
        initial_filter()
    } else {
        filter_step(filter_fold(fs.drop_last()), fs.last())
    }
}

/// Where each filter is a text filter.
pub open spec fn text_flags(fs: Seq<FilterValue>) -> Seq<bool> {
    fs.map_values(|f: FilterValue| f is Text)
}

/// The page that a query or the filters choose: a query searches; else the
/// first text filter searches by author (id `author`) or by title; else the
/// filters select the catalogue. Searched text is percent-encoded as a URI.
pub open spec fn choose_url(query: Option<Seq<char>>, page: i32, fs: Seq<FilterValue>) -> UrlView {
    match query {
        Some(q) => UrlView::Search { query: encode_uri_spec(q), page },
        None => {
            let k = find_first_index(text_flags(fs));
            if k >= 0 {
                match fs[k] {
                    FilterValue::Text { id, value } => if id@ == "author"@ {
                        UrlView::Author { author: encode_uri_spec(value@) }
                    } else {
                        UrlView::Search { query: encode_uri_spec(value@), page }
                    },
                    _ => UrlView::Filter { params: filter_fold(fs), page },
                }
            } else {
                UrlView::Filter { params: filter_fold(fs), page }
            }
        },
    }
}

fn genre_position(value: &str) -> (r: Option<usize>)
    ensures
        match r {
            Some(i) => i == genre_index(value@) && i < genre_options().len(),
            None => genre_index(value@) == -1,
        },
{
    let table = genre_table();
    let ghost flags = genre_options().map_values(|o: &'static str| o@ == value@);
    let mut j: usize = 0;
    while j < table.len()
        invariant
            j <= table@.len(),
            table@ == genre_options(),
            flags == genre_options().map_values(|o: &'static str| o@ == value@),
            forall|k: int| 0 <= k < j ==> !flags[k],
        decreases table@.len() - j,
    {
        if str_eq(table[j], value) {
            proof {
                lemma_find_first_index(flags, j as int);
            }
            return Some(j);
        }
        j = j + 1;
    }
    proof {
        lemma_find_first_none(flags);
    }
    None
}

fn copy_string(s: &String) -> (r: String)
    ensures
        r@ == s@,
{
    s.clone()
}

impl Url {
    /// The page that a search query, or else the filters, choose
    /// (`from_query_or_filters`).
    pub fn from_query_or_filters(query: Option<&str>, page: i32, filters: &[FilterValue]) -> (r: Url)
        ensures
            r@ == choose_url(
                match query {
                    Some(q) => Some(q@),
                    None => None,
                },
                page,
                filters@,
            ),
    {
        if let Some(q) = query {
            return Url::Search { query: encode_uri(q), page };
        }
        let mut order = string_of(&chars_of("lastupdate"));
        let mut tagid = string_of(&chars_of("0"));
        let mut isfull = string_of(&chars_of("0"));
        let mut anime = string_of(&chars_of("0"));
        let mut rgroupid = string_of(&chars_of("0"));
        let mut sortid = string_of(&chars_of("0"));
        let mut update = string_of(&chars_of("0"));
        let mut quality = string_of(&chars_of("0"));
        let ghost flags = text_flags(filters@);
        let mut i: usize = 0;
        assert(filters@.take(0) =~= Seq::<FilterValue>::empty());
        while i < filters.len()
            invariant
                i <= filters@.len(),
                query is None,
                flags == text_flags(filters@),
                forall|k: int| 0 <= k < i ==> !flags[k],
                (FilterView {
                    order: order@,
                    tagid: tagid@,
                    isfull: isfull@,
                    anime: anime@,
                    rgroupid: rgroupid@,
                    sortid: sortid@,
                    update: update@,
                    quality: quality@,
                }) == filter_fold(filters@.take(i as int)),
            decreases filters@.len() - i,
        {
            let ghost before = filters@.take(i as int);
            assert(filters@.take(i + 1).drop_last() =~= before);
            match &filters[i] {
                FilterValue::Text { id, value } => {
                    proof {
                        lemma_find_first_index(flags, i as int);
                    }
                    if str_eq(id.as_str(), "author") {
                        return Url::Author { author: encode_uri(value.as_str()) };
                    } else {
                        return Url::Search { query: encode_uri(value.as_str()), page };
                    }
                },
                FilterValue::Select { id, value } => {
                    let id = id.as_str();
                    if str_eq(id, "连载状态") {
                        isfull = copy_string(value);
                    } else if str_eq(id, "是否动画") {
                        anime = copy_string(value);
                    } else if str_eq(id, "是否轻改") {
                        quality = copy_string(value);
                    } else if str_eq(id, "文库地区") {
                        rgroupid = copy_string(value);
                    } else if str_eq(id, "更新时间") {
                        update = copy_string(value);
                    } else if str_eq(id, "作品分类") {
                        sortid = copy_string(value);
                    } else if str_eq(id, "genre") {
                        if let Some(index) = genre_position(value.as_str()) {
                            tagid = string_of(&u64_decimal((index + 1) as u64));
                        }
                    }
                },
                FilterValue::MultiSelect { id, included, excluded } => {
                    if str_eq(id.as_str(), "作品主题") && included.len() > 0 {
                        tagid = join_strings(included, "-");
                    }
                },
                FilterValue::Sort { id, index, ascending } => {
                    if str_eq(id.as_str(), "排序") && *index >= 0 && *index < 10 {
                        let orders = sort_table();
                        order = string_of(&chars_of(orders[*index as usize]));
                    }
                },
                _ => {},
            }
            i = i + 1;
        }
        assert(filters@.take(filters@.len() as int) =~= filters@);
        proof {
            lemma_find_first_none(flags);
        }
        Url::Filter { order, tagid, isfull, anime, rgroupid, sortid, update, quality, page }
    }

    /// A title's detail page.
    pub fn manga(id: String) -> (r: Url)
        ensures
            r@ == (UrlView::Manga { id: id@ }),
    {
        Url::Manga { id }
    }

    /// A title's table of contents.
    pub fn chapter_list(id: String) -> (r: Url)
        ensures
            r@ == (UrlView::ChapterList { id: id@ }),
    {
        Url::ChapterList { id }
    }

    /// A chapter of a title.
    pub fn chapter(manga_id: String, chapter_id: String) -> (r: Url)
        ensures
            r@ == (UrlView::Chapter { manga_id: manga_id@, chapter_id: chapter_id@ }),
    {
        Url::Chapter { manga_id, chapter_id }
    }
}


/// The address of a page on the site at `base`.
pub open spec fn url_text(u: UrlView, base: Seq<char>) -> Seq<char> {
    match u {
        UrlView::Filter { params, page } => base + "/filter/"@ + params.order + "_"@ + params.tagid
            + "_"@ + params.isfull + "_"@ + params.anime + "_"@ + params.rgroupid + "_"@
            + params.sortid + "_"@ + params.update + "_"@ + params.quality + "_"@ + int_decimal(
            page as int,
        ) + "_0.html"@,
        UrlView::Search { query, page } => if page == 1 {
            base + "/search.html?searchkey="@ + query
        } else {
            base + "/search/"@ + query + "_"@ + int_decimal(page as int) + ".html"@
        },
        UrlView::Author { author } => base + "/author/"@ + author + ".html"@,
        UrlView::Manga { id } => base + "/detail/"@ + id + ".html"@,
        UrlView::ChapterList { id } => base + "/read/"@ + id + "/catalog"@,
        UrlView::Chapter { manga_id, chapter_id } => base + "/read/"@ + manga_id + "/"@
            + chapter_id + ".html"@,
    }
}

impl Url {
    /// The address of this page on the site at `base` (`to_string`).
    pub fn to_url(&self, base: &str) -> (r: String)
        ensures
            r@ == url_text(self@, base@),
    {
        let mut a: Vec<char> = Vec::new();
        push_str(&mut a, base);
        match self {
            Url::Filter { order, tagid, isfull, anime, rgroupid, sortid, update, quality, page } => {
                push_str(&mut a, "/filter/");
                push_str(&mut a, order.as_str());
                push_str(&mut a, "_");
                push_str(&mut a, tagid.as_str());
                push_str(&mut a, "_");
                push_str(&mut a, isfull.as_str());
                push_str(&mut a, "_");
                push_str(&mut a, anime.as_str());
                push_str(&mut a, "_");
                push_str(&mut a, rgroupid.as_str());
                push_str(&mut a, "_");
                push_str(&mut a, sortid.as_str());
                push_str(&mut a, "_");
                push_str(&mut a, update.as_str());
                push_str(&mut a, "_");
                push_str(&mut a, quality.as_str());
                push_str(&mut a, "_");
                let n = i64_decimal(*page as i64);
                append_chars(&mut a, &n);
                push_str(&mut a, "_0.html");
            },
            Url::Search { query, page } => {
                if *page == 1 {
                    push_str(&mut a, "/search.html?searchkey=");
                    push_str(&mut a, query.as_str());
                } else {
                    push_str(&mut a, "/search/");
                    push_str(&mut a, query.as_str());
                    push_str(&mut a, "_");
                    let n = i64_decimal(*page as i64);
                    append_chars(&mut a, &n);
                    push_str(&mut a, ".html");
                }
            },
            Url::Author { author } => {
                push_str(&mut a, "/author/");
                push_str(&mut a, author.as_str());
                push_str(&mut a, ".html");
            },
            Url::Manga { id } => {
                push_str(&mut a, "/detail/");
                push_str(&mut a, id.as_str());
                push_str(&mut a, ".html");
            },
            Url::ChapterList { id } => {
                push_str(&mut a, "/read/");
                push_str(&mut a, id.as_str());
                push_str(&mut a, "/catalog");
            },
            Url::Chapter { manga_id, chapter_id } => {
                push_str(&mut a, "/read/");
                push_str(&mut a, manga_id.as_str());
                push_str(&mut a, "/");
                push_str(&mut a, chapter_id.as_str());
                push_str(&mut a, ".html");
            },
        }
        string_of(&a)
    }

    /// The referer that a search request carries: the first results page of
    /// its query. Requests for other kinds of page carry none.
    pub fn search_referer(&self, base: &str) -> (r: Option<String>)
        ensures
            match self@ {
                UrlView::Search { query, page } => r is Some && r->0@ == base@
                    + "/search.html?searchkey="@ + query,
                _ => r is None,
            },
    {
        match self {
            Url::Search { query, page } => {
                let mut a: Vec<char> = Vec::new();
                push_str(&mut a, base);
                push_str(&mut a, "/search.html?searchkey=");
                push_str(&mut a, query.as_str());
                Some(string_of(&a))
            },
            _ => None,
        }
    }
}


/// A character with full-width digits and dot made ASCII.
pub open spec fn narrow(c: char) -> char {
    if '０' <= c <= '９' {
        ((c as u32 - '０' as u32) + '0' as u32) as char
    } else if c == '．' {
        '.'
    } else {
        c
    }
}

fn narrow_exec(c: char) -> (r: char)
    ensures
        r == narrow(c),
{
    if c == '０' { '0' }
    else if c == '１' { '1' }
    else if c == '２' { '2' }
    else if c == '３' { '3' }
    else if c == '４' { '4' }
    else if c == '５' { '5' }
    else if c == '６' { '6' }
    else if c == '７' { '7' }
    else if c == '８' { '8' }
    else if c == '９' { '9' }
    else if c == '．' { '.' }
    else { c }
}

/// A title with full-width digits and dots made ASCII, in lower case.
pub open spec fn normalized(title: Seq<char>) -> Seq<char> {
    crate::text::lowercase(title.map_values(|c: char| narrow(c)))
}

/// The patterns tried in turn for a chapter number: a 第N or N话-style
/// number, then a trailing number.
pub open spec fn number_patterns() -> Seq<Seq<char>> {
    seq![
        "(?:第\\s*)(\\d+(?:\\.\\d+)?)|(\\d+(?:\\.\\d+)?)\\s*(?:话|話|章|回|卷|册|冊)"@,
        "(?:\\s|\\.)+(\\d+(?:\\.\\d+)?)\\s*$"@,
    ]
}

/// The texts of a title that may give its chapter number, in the order they
/// are tried; the app takes the first that reads as a number
/// (`extract_chapter_number`).
pub fn chapter_number_candidates(title: &str) -> (r: Vec<String>)
    ensures
        string_views(r@) == crate::primitives::present_texts(seq![
            crate::primitives::first_or_second(number_patterns()[0], normalized(title@)),
            crate::primitives::capture_spec(number_patterns()[1], normalized(title@), 1),
        ]),
{
    let v = chars_of(title);
    let mut w: Vec<char> = Vec::new();
    let mut i: usize = 0;
    while i < v.len()
        invariant
            i <= v@.len(),
            w@ == v@.take(i as int).map_values(|c: char| narrow(c)),
        decreases v@.len() - i,
    {
        w.push(narrow_exec(v[i]));
        assert(v@.take(i + 1).map_values(|c: char| narrow(c)) =~= v@.take(i as int).map_values(|c: char| narrow(c)).push(narrow(v@[i as int])));
        i = i + 1;
    }
    assert(v@.take(v@.len() as int) =~= v@);
    let n = string_of(&w);
    let s = crate::text::to_lowercase(n.as_str());
    let a = crate::primitives::first_or_second_group("(?:第\\s*)(\\d+(?:\\.\\d+)?)|(\\d+(?:\\.\\d+)?)\\s*(?:话|話|章|回|卷|册|冊)", s.as_str());
    let b = crate::primitives::capture_group("(?:\\s|\\.)+(\\d+(?:\\.\\d+)?)\\s*$", s.as_str(), 1);
    let ghost opts = seq![crate::text::opt_view(a), crate::text::opt_view(b)];
    let mut out: Vec<String> = Vec::new();
    crate::baozimanhua::push_some(&mut out, a);
    crate::baozimanhua::push_some(&mut out, b);
    assert(opts.drop_last().drop_last() =~= Seq::<Option<Seq<char>>>::empty());
    proof {
        reveal_with_fuel(crate::primitives::present_texts, 3);
    }
    out
}

/// The key of a chapter from its link: the last non-empty path piece,
/// without `.html`.
pub open spec fn chapter_key_spec(href: Seq<char>) -> Seq<char> {
    let ps = crate::text::nonempty_pieces(crate::text::split_two(href, '/', '/'));
    crate::text::replace_all(if ps.len() > 0 { ps.last() } else { Seq::empty() }, ".html"@, Seq::empty())
}

/// The key of a chapter from its link (`extract_key`).
pub fn extract_key(href: &str) -> (r: String)
    ensures
        r@ == chapter_key_spec(href@),
{
    let ps = crate::text::nonempty_split(&chars_of(href), '/');
    let ghost pv = ps@.map_values(|x: Vec<char>| x@);
    let last: Vec<char> = if ps.len() > 0 {
        let n = ps.len();
        assert(pv[n - 1] == ps@[n - 1]@);
        let l = crate::text::slice_chars(&ps[n - 1], 0, ps[n - 1].len());
        assert(l@ =~= pv.last());
        l
    } else {
        Vec::new()
    };
    assert(last@ == (if pv.len() > 0 { pv.last() } else { Seq::<char>::empty() }));
    let p = chars_of(".html");
    proof {
        reveal_strlit(".html");
    }
    let none: Vec<char> = Vec::new();
    string_of(&crate::text::replace_all_chars(&last, &p, &none))
}

} // verus!
