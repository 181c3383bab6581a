//! Bakamh: search, author and catalogue addresses, links to titles and
//! chapters, statuses, and relative upload dates.
use vstd::prelude::*;

use crate::model::{FilterValue, MangaStatus};
use crate::text::{
    append_chars, chars_of, contains_seq, find_chars, find_first_index, i64_decimal, int_decimal,
    lemma_find_first_index, lemma_find_first_none, lowercase, opt_str_view, parse_i64,
    parse_i64_spec, push_str, replace_char, replace_char_chars, str_eq, string_of, to_lowercase,
    trim, trim_chars, trim_start_seq, trim_start_seq_chars, words, words_of, replace_all,
    replace_all_chars, find, encode_uri, encode_uri_spec,
};

verus! {

/// The site.
pub const BASE_URL: &'static str = "https://bakamh.com";

/// A page of the site. A search query is held percent-encoded as a URI.
pub enum Url {
    /// A search.
    Search { query: String, page: i32 },
    /// The works of an author, by the author's slug.
    Author { name: String, page: i32 },
    /// The catalogue, by category path or by genre tag.
    Filter { path: String, genre: String, page: i32 },
}

/// What a `Url` denotes.
pub enum UrlView {
    Search { query: Seq<char>, page: i32 },
    Author { name: Seq<char>, page: i32 },
    Filter { path: Seq<char>, genre: Seq<char>, page: i32 },
}

impl View for Url {
    type V = UrlView;

    open spec fn view(&self) -> UrlView {
        match self {
            Url::Search { query, page } => UrlView::Search { query: query@, page: *page },
            Url::Author { name, page } => UrlView::Author { name: name@, page: *page },
            Url::Filter { path, genre, page } => UrlView::Filter {
                path: path@,
                genre: genre@,
                page: *page,
            },
        }
    }
}

/// A filter that searches by author: a text filter `author` with a value.
pub open spec fn is_author_filter(f: FilterValue) -> bool {
    match f {
        FilterValue::Text { id, value } => id@ == "author"@ && value@.len() > 0,
        _ => false,
    }
}

/// The slug of an author's name: lower case, spaces as `-`.
pub open spec fn author_slug(name: Seq<char>) -> Seq<char> {
    replace_char(lowercase(name), ' ', "-"@)
}

/// The tag of a genre: lower case, `/` as `-`.
pub open spec fn genre_slug(genre: Seq<char>) -> Seq<char> {
    replace_char(lowercase(genre), '/', "-"@)
}

/// What one filter does to the category path and the genre tag.
pub open spec fn filter_step(st: (Seq<char>, Seq<char>), f: FilterValue) -> (Seq<char>, Seq<char>) {
    match f {
        FilterValue::Select { id, value } => if id@ == "分类"@ {
            (value@, st.1)
        } else if id@ == "genre"@ {
            (st.0, genre_slug(value@))
        } else {
            st
        },
        _ => st,
    }
}

/// The category path and genre tag after the filters, applied in order.
pub open spec fn filter_fold(fs: Seq<FilterValue>) -> (Seq<char>, Seq<char>)
    decreases fs.len(),
{
    if fs.len() == 0 {
        (Seq::empty(), Seq::empty())
    } else {
        filter_step(filter_fold(fs.drop_last()), fs.last())
    }
}

/// The page a query or the filters choose: a query searches, percent-encoded
/// as a URI; else the first
/// author filter opens the author's works; else the catalogue.
pub open spec fn choose_url(query: Option<Seq<char>>, page: i32, fs: Seq<FilterValue>) -> UrlView {
    match query {
        Some(q) => UrlView::Search { query: encode_uri_spec(q), page },
        None => {
            let k = find_first_index(fs.map_values(|f: FilterValue| is_author_filter(f)));
            if k >= 0 {
                match fs[k] {
                    FilterValue::Text { id, value } => UrlView::Author { name: author_slug(value@), page },
                    _ => UrlView::Filter { path: filter_fold(fs).0, genre: filter_fold(fs).1, page },
                }
            } else {
                UrlView::Filter { path: filter_fold(fs).0, genre: filter_fold(fs).1, page }
            }
        },
    }
}

fn slug(s: &str, c: char) -> (r: String)
    ensures
        r@ == replace_char(lowercase(s@), c, "-"@),
{
    let lower = to_lowercase(s);
    string_of(&replace_char_chars(&chars_of(lower.as_str()), c, "-"))
}

impl Url {
    /// The page that a search query, or else the filters, choose
    /// (`from_query_or_filters`).
    pub fn from_query_or_filters(query: Option<&str>, page: i32, filters: &[FilterValue]) -> (r: Url)
        ensures
            r@ == choose_url(opt_str_view(query), page, filters@),
    {
        if let Some(q) = query {
            return Url::Search { query: encode_uri(q), page };
        }
        let ghost flags = filters@.map_values(|f: FilterValue| is_author_filter(f));
        let mut path = String::new();
        let mut genre = String::new();
        let mut i: usize = 0;
        assert(filters@.take(0) =~= Seq::<FilterValue>::empty());
        while i < filters.len()
            invariant
                i <= filters@.len(),
                query is None,
                flags == filters@.map_values(|f: FilterValue| is_author_filter(f)),
                forall|k: int| 0 <= k < i ==> !flags[k],
                (path@, genre@) == filter_fold(filters@.take(i as int)),
            decreases filters@.len() - i,
        {
            assert(filters@.take(i + 1).drop_last() =~= filters@.take(i as int));
            match &filters[i] {
                FilterValue::Text { id, value } => {
                    if str_eq(id.as_str(), "author") && !value.as_str().is_empty() {
                        assert(flags[i as int]);
                        proof {
                            lemma_find_first_index(flags, i as int);
                        }
                        return Url::Author { name: slug(value.as_str(), ' '), page };
                    }
                },
                FilterValue::Select { id, value } => {
                    if str_eq(id.as_str(), "分类") {
                        path = value.clone();
                    } else if str_eq(id.as_str(), "genre") {
                        genre = slug(value.as_str(), '/');
                    }
                },
                _ => {},
            }
            i = i + 1;
        }
        assert(filters@.take(filters@.len() as int) =~= filters@);
        proof {
            lemma_find_first_none(flags);
        }
        Url::Filter { path, genre, page }
    }
}

/// The address of a page of the site.
pub open spec fn url_text(u: UrlView) -> Seq<char> {
    match u {
        UrlView::Search { query, page } => BASE_URL@ + "/page/"@ + int_decimal(page as int) + "/?s="@
            + query + "&post_type=wp-manga"@,
        UrlView::Author { name, page } => BASE_URL@ + "/manga-author/"@ + name + "/page/"@
            + int_decimal(page as int) + "/"@,
        UrlView::Filter { path, genre, page } => if genre.len() > 0 {
            BASE_URL@ + "/manga-tag/"@ + genre + "/page/"@ + int_decimal(page as int) + "/"@
        } else if path.len() > 0 {
            BASE_URL@ + "/"@ + path + "/page/"@ + int_decimal(page as int) + "/"@
        } else {
            BASE_URL@ + "/page/"@ + int_decimal(page as int) + "/"@
        },
    }
}

impl Url {
    /// The address of this page (`to_string`).
    pub fn to_url(&self) -> (r: String)
        ensures
            r@ == url_text(self@),
    {
        let mut a: Vec<char> = Vec::new();
        push_str(&mut a, BASE_URL);
        match self {
            Url::Search { query, page } => {
                push_str(&mut a, "/page/");
                let n = i64_decimal(*page as i64);
                append_chars(&mut a, &n);
                push_str(&mut a, "/?s=");
                push_str(&mut a, query.as_str());
                push_str(&mut a, "&post_type=wp-manga");
            },
            Url::Author { name, page } => {
                push_str(&mut a, "/manga-author/");
                push_str(&mut a, name.as_str());
                push_str(&mut a, "/page/");
                let n = i64_decimal(*page as i64);
                append_chars(&mut a, &n);
                push_str(&mut a, "/");
            },
            Url::Filter { path, genre, page } => {
                if !genre.as_str().is_empty() {
                    push_str(&mut a, "/manga-tag/");
                    push_str(&mut a, genre.as_str());
                } else if !path.as_str().is_empty() {
                    push_str(&mut a, "/");
                    push_str(&mut a, path.as_str());
                }
                push_str(&mut a, "/page/");
                let n = i64_decimal(*page as i64);
                append_chars(&mut a, &n);
                push_str(&mut a, "/");
            },
        }
        string_of(&a)
    }
}

/// The address of a title's page.
pub fn manga_url(key: &str) -> (r: String)
    ensures
        r@ == BASE_URL@ + "/manga/"@ + key@ + "/"@,
{
    let mut a: Vec<char> = Vec::new();
    push_str(&mut a, BASE_URL);
    push_str(&mut a, "/manga/");
    push_str(&mut a, key);
    push_str(&mut a, "/");
    string_of(&a)
}


/// The status a detail page's status text gives, compared without
/// surrounding white space.
pub open spec fn status_spec(text: Seq<char>) -> MangaStatus {
    let t = trim(text);
    if t == "OnGoing"@ || t == "Ongoing"@ || t == "连载中"@ {
        MangaStatus::Ongoing
    } else if t == "Completed"@ || t == "End"@ || t == "完结"@ {
        MangaStatus::Completed
    } else {
        MangaStatus::Unknown
    }
}

/// The status a detail page's status text gives.
pub fn status_from_text(text: &str) -> (r: MangaStatus)
    ensures
        r == status_spec(text@),
{
    let t = string_of(&trim_chars(&chars_of(text)));
    let t = t.as_str();
    if str_eq(t, "OnGoing") || str_eq(t, "Ongoing") || str_eq(t, "连载中") {
        MangaStatus::Ongoing
    } else if str_eq(t, "Completed") || str_eq(t, "End") || str_eq(t, "完结") {
        MangaStatus::Completed
    } else {
        MangaStatus::Unknown
    }
}

/// The key of a chapter: the path of its address, after the scheme and the
/// host; the whole address when it has no path.
pub open spec fn chapter_key_spec(url: Seq<char>) -> Seq<char> {
    let rest = trim_start_seq(trim_start_seq(url, "https://"@), "http://"@);
    let k = find(rest, seq!['/']);
    if k >= 0 {
        "/"@ + rest.skip(k + 1)
    } else {
        url
    }
}

/// The key of a chapter from its address.
pub fn chapter_key(url: &str) -> (r: String)
    ensures
        r@ == chapter_key_spec(url@),
{
    let a = trim_start_seq_chars(&chars_of(url), &chars_of("https://"));
    let rest = trim_start_seq_chars(&a, &chars_of("http://"));
    let mut slash: Vec<char> = Vec::new();
    slash.push('/');
    assert(slash@ =~= seq!['/']);
    match find_chars(&rest, &slash) {
        Some(k) => {
            let n = rest.len();
            let tail = crate::text::slice_chars(&rest, k + 1, n);
            assert(tail@ =~= rest@.skip(k + 1));
            let mut out: Vec<char> = Vec::new();
            push_str(&mut out, "/");
            append_chars(&mut out, &tail);
            string_of(&out)
        },
        None => string_of(&chars_of(url)),
    }
}

/// A cover address without the size suffix of list thumbnails.
pub open spec fn full_cover_spec(src: Seq<char>, suffix: Seq<char>) -> Seq<char> {
    replace_all(src, suffix, Seq::empty())
}

/// A cover address without the size suffix of thumbnails (`-193x278` in
/// search results, `-175x238` in the catalogue).
pub fn full_cover(src: &str, is_search: bool) -> (r: String)
    ensures
        r@ == full_cover_spec(src@, if is_search { "-193x278"@ } else { "-175x238"@ }),
{
    let suffix = if is_search { chars_of("-193x278") } else { chars_of("-175x238") };
    proof {
        reveal_strlit("-193x278");
        reveal_strlit("-175x238");
    }
    let none: Vec<char> = Vec::new();
    string_of(&replace_all_chars(&chars_of(src), &suffix, &none))
}

/// Seconds in a minute, hour, day, week, month and year, as the relative
/// dates count them.
pub const MINUTE: i64 = 60;
pub const HOUR: i64 = 3600;
pub const DAY: i64 = 86400;
pub const WEEK: i64 = 604800;
pub const MONTH: i64 = 2592000;
pub const YEAR: i64 = 31536000;

/// The first word that reads as a whole number, or 0.
pub open spec fn first_number(ws: Seq<Seq<char>>) -> int
    decreases ws.len(),
{
    if ws.len() == 0 {
        0
    } else {
        match parse_i64_spec(ws[0]) {
            Some(n) => n,
            None => first_number(ws.drop_first()),
        }
    }
}

/// The length of the time unit a relative date names, or 0 when it names
/// none.
pub open spec fn unit_spec(s: Seq<char>) -> int {
    if contains_seq(s, "年"@) {
        YEAR as int
    } else if contains_seq(s, "月"@) {
        MONTH as int
    } else if contains_seq(s, "周"@) || contains_seq(s, "週"@) {
        WEEK as int
    } else if contains_seq(s, "天"@) || contains_seq(s, "日"@) {
        DAY as int
    } else if contains_seq(s, "小时"@) || contains_seq(s, "小時"@) {
        HOUR as int
    } else if contains_seq(s, "分"@) {
        MINUTE as int
    } else {
        0
    }
}

fn contains(v: &[char], p: &str) -> (r: bool)
    ensures
        r == contains_seq(v@, p@),
{
    find_chars(v, &chars_of(p)).is_some()
}

fn first_number_exec(ws: &Vec<Vec<char>>) -> (r: i64)
    ensures
        r as int == first_number(ws@.map_values(|x: Vec<char>| x@)),
{
    let ghost all = ws@.map_values(|x: Vec<char>| x@);
    let mut i: usize = 0;
    assert(all.skip(0) =~= all);
    while i < ws.len()
        invariant
            i <= ws@.len(),
            all == ws@.map_values(|x: Vec<char>| x@),
            first_number(all) == first_number(all.skip(i as int)),
        decreases ws@.len() - i,
    {
        assert(all.skip(i as int)[0] == ws@[i as int]@);
        assert(all.skip(i as int).drop_first() =~= all.skip(i + 1));
        if let Some(n) = parse_i64(&ws[i]) {
            return n;
        }
        i = i + 1;
    }
    0
}

/// The date a relative upload time such as `3 天前` gives: `now` less the
/// number times the unit named. None when no unit is named, and none where
/// the result does not fit in an `i64`.
pub open spec fn relative_date_spec(s: Seq<char>, now: i64) -> Option<int> {
    let unit = unit_spec(s);
    let v = now - first_number(words(s)) * unit;
    if unit == 0 || !(i64::MIN <= first_number(words(s)) * unit <= i64::MAX) || !(i64::MIN <= v
        <= i64::MAX) {
        None
    } else {
        Some(v)
    }
}

/// The unit words of relative dates and their lengths in seconds: years,
/// months, weeks, days, hours and minutes, in simplified and traditional
/// writing.
pub open spec fn unit_words() -> Seq<(Seq<char>, int)> {
    seq![
        ("年"@, 31536000int),
        ("月"@, 2592000int),
        ("周"@, 604800int),
        ("週"@, 604800int),
        ("天"@, 86400int),
        ("日"@, 86400int),
        ("小时"@, 3600int),
        ("小時"@, 3600int),
        ("分"@, 60int),
    ]
}

/// A relative date that names one unit (unit word `k` of `unit_words`, and
/// no word of another length) goes back from `now` by the first number of
/// the text times that unit, when that fits in an `i64`.
pub proof fn law_relative_units(s: Seq<char>, now: i64, k: int)
    requires
        0 <= k < unit_words().len(),
        contains_seq(s, unit_words()[k].0),
        forall|j: int| 0 <= j < unit_words().len() && unit_words()[j].1 != unit_words()[k].1
            ==> !contains_seq(s, #[trigger] unit_words()[j].0),
    ensures
        ({
            let offset = first_number(words(s)) * unit_words()[k].1;
            relative_date_spec(s, now) == if i64::MIN <= offset <= i64::MAX && i64::MIN <= now - offset
                <= i64::MAX {
                Some(now - offset)
            } else {
                None
            }
        }),
{
    let w = unit_words();
    assert(w[0].1 == 31536000 && w[1].1 == 2592000 && w[2].1 == 604800 && w[3].1 == 604800);
    assert(w[4].1 == 86400 && w[5].1 == 86400 && w[6].1 == 3600 && w[7].1 == 3600 && w[8].1 == 60);
    if w[k].1 != w[0].1 {
        assert(!contains_seq(s, w[0].0));
    }
    if w[k].1 != w[1].1 {
        assert(!contains_seq(s, w[1].0));
    }
    if w[k].1 != w[2].1 {
        assert(!contains_seq(s, w[2].0));
        assert(!contains_seq(s, w[3].0));
    }
    if w[k].1 != w[4].1 {
        assert(!contains_seq(s, w[4].0));
        assert(!contains_seq(s, w[5].0));
    }
    if w[k].1 != w[6].1 {
        assert(!contains_seq(s, w[6].0));
        assert(!contains_seq(s, w[7].0));
    }
    assert(unit_spec(s) == w[k].1);
}

/// The date a relative upload time gives, from the current time `now` in
/// seconds.
pub fn relative_date(s: &str, now: i64) -> (r: Option<i64>)
    ensures
        match r {
            Some(v) => relative_date_spec(s@, now) == Some(v as int),
            None => relative_date_spec(s@, now) is None,
        },
{
    let c = chars_of(s);
    let unit: i64 = if contains(&c, "年") {
        YEAR
    } else if contains(&c, "月") {
        MONTH
    } else if contains(&c, "周") || contains(&c, "週") {
        WEEK
    } else if contains(&c, "天") || contains(&c, "日") {
        DAY
    } else if contains(&c, "小时") || contains(&c, "小時") {
        HOUR
    } else if contains(&c, "分") {
        MINUTE
    } else {
        return None;
    };
    let number = first_number_exec(&words_of(&c));
    match number.checked_mul(unit) {
        None => None,
        Some(offset) => now.checked_sub(offset),
    }
}

/// The upload date of a chapter: the absolute date when the text is one
/// (`absolute`: the text read as a date in the form `yyyy 年 M 月 d 日`,
/// which the caller does), else the
/// relative date (`parse_chapter_date`).
pub fn parse_chapter_date(s: &str, absolute: Option<i64>, now: i64) -> (r: Option<i64>)
    ensures
        match absolute {
            Some(t) => r == Some(t),
            None => match r {
                Some(v) => relative_date_spec(s@, now) == Some(v as int),
                None => relative_date_spec(s@, now) is None,
            },
        },
{
    match absolute {
        Some(t) => Some(t),
        None => relative_date(s, now),
    }
}

} // verus!
