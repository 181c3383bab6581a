//! The Vietnamese sites built on the WP-Comics theme (TruyenQQ, NetTruyen,
//! ZetTruyen, Truyen3Q): ids from addresses, page addresses, and search
//! queries.
use vstd::prelude::*;

use crate::model::{FilterValue, HomeKind};
use crate::text::{
    after_last, after_last_char, after_last_char_chars, after_last_chars, append_chars,
    before_char, before_char_chars, chars_of, i64_decimal, int_decimal, join, join_strings,
    opt_str_view, opt_view, piece_after, piece_after_chars, push_str, replace_all, replace_all_chars, str_eq,
    string_of, string_views, trim_end_char, trim_end_char_chars, trim_end_seq, trim_end_seq_chars,
};

verus! {

/// TruyenQQ.
pub const TRUYENQQ_URL: &'static str = "https://truyenqqno.com";

/// NetTruyen.
pub const NETTRUYEN_URL: &'static str = "https://nettruyenviet2.com";

/// ZetTruyen.
pub const ZETTRUYEN_URL: &'static str = "https://www.zettruyen.space";

// ---------------------------------------------------------------------------
// Ids
// ---------------------------------------------------------------------------

/// The id of a title: the path segment after `truyen-tranh/`, or empty.
pub open spec fn title_segment(url: Seq<char>) -> Seq<char> {
    match piece_after(url, "truyen-tranh/"@) {
        Some(p) => before_char(p, '/'),
        None => Seq::empty(),
    }
}

fn title_segment_chars(url: &str) -> (r: Vec<char>)
    ensures
        r@ == title_segment(url@),
{
    match piece_after_chars(&chars_of(url), &chars_of("truyen-tranh/")) {
        Some(p) => before_char_chars(&p, '/'),
        None => Vec::new(),
    }
}

/// The id of a title on TruyenQQ and NetTruyen (`manga_parse_id`).
pub fn truyenqq_manga_id(url: &str) -> (r: String)
    ensures
        r@ == title_segment(url@),
{
    string_of(&title_segment_chars(url))
}

/// The id of a title on ZetTruyen: the segment after `truyen-tranh/`,
/// without trailing `.html`.
pub fn zettruyen_manga_id(url: &str) -> (r: String)
    ensures
        r@ == trim_end_seq(title_segment(url@), ".html"@),
{
    string_of(&trim_end_seq_chars(&title_segment_chars(url), &chars_of(".html")))
}

/// The id of a chapter on TruyenQQ: what follows the last `-chap-`, without
/// trailing `.html`; empty when there is none.
pub open spec fn truyenqq_chapter_spec(url: Seq<char>) -> Seq<char> {
    match after_last(url, "-chap-"@) {
        Some(t) => trim_end_seq(t, ".html"@),
        None => Seq::empty(),
    }
}

/// The id of a chapter on TruyenQQ (`chapter_parse_id`).
pub fn truyenqq_chapter_id(url: &str) -> (r: String)
    ensures
        r@ == truyenqq_chapter_spec(url@),
{
    match after_last_chars(&chars_of(url), &chars_of("-chap-")) {
        Some(t) => string_of(&trim_end_seq_chars(&t, &chars_of(".html"))),
        None => String::new(),
    }
}

/// The id of a chapter on NetTruyen and ZetTruyen: the last path segment,
/// after trailing `/`s are dropped.
pub fn last_path_segment(url: &str) -> (r: String)
    ensures
        r@ == after_last_char(trim_end_char(url@, '/'), '/'),
{
    let t = trim_end_char_chars(&chars_of(url), '/');
    string_of(&after_last_char_chars(&t, '/'))
}

/// The id of a title or chapter on Truyen3Q: the last piece of the address
/// split at `/`.
pub fn truyen3q_id(url: &str) -> (r: String)
    ensures
        r@ == after_last_char(url@, '/'),
{
    string_of(&after_last_char_chars(&chars_of(url), '/'))
}

// ---------------------------------------------------------------------------
// Pages
// ---------------------------------------------------------------------------

/// The cookie TruyenQQ's reader needs: the saved visit id without trailing
/// `/`.
pub fn truyenqq_cookie(visit_read_id: Option<&str>) -> (r: String)
    ensures
        r@ == "visit-read="@ + match visit_read_id {
            Some(v) => trim_end_char(v@, '/'),
            None => Seq::<char>::empty(),
        },
{
    let mut a: Vec<char> = Vec::new();
    push_str(&mut a, "visit-read=");
    match visit_read_id {
        Some(v) => {
            let t = trim_end_char_chars(&chars_of(v), '/');
            append_chars(&mut a, &t);
        },
        None => {
            assert(a@ + Seq::<char>::empty() =~= a@);
        },
    }
    string_of(&a)
}

/// The address of a title's page: `<base>/truyen-tranh/<key>`.
pub fn manga_page(base: &str, key: &str) -> (r: String)
    ensures
        r@ == base@ + "/truyen-tranh/"@ + key@,
{
    let mut a: Vec<char> = Vec::new();
    push_str(&mut a, base);
    push_str(&mut a, "/truyen-tranh/");
    push_str(&mut a, key);
    string_of(&a)
}

/// The reader address of a TruyenQQ chapter.
pub fn truyenqq_chapter_page(manga_key: &str, chapter_key: &str) -> (r: String)
    ensures
        r@ == TRUYENQQ_URL@ + "/truyen-tranh/"@ + manga_key@ + "-chap-"@ + chapter_key@,
{
    let mut a: Vec<char> = Vec::new();
    push_str(&mut a, TRUYENQQ_URL);
    push_str(&mut a, "/truyen-tranh/");
    push_str(&mut a, manga_key);
    push_str(&mut a, "-chap-");
    push_str(&mut a, chapter_key);
    string_of(&a)
}

proof fn lemma_rfind_at(s: Seq<char>, p: Seq<char>, l: int, j: int)
    requires
        0 <= l <= j,
        crate::text::occurs_at(s, p, l),
        forall|k: int| l < k <= j ==> !crate::text::occurs_at(s, p, k),
    ensures
        crate::text::rfind_from(s, p, j) == l,
    decreases j - l,
{
    if j > l {
        lemma_rfind_at(s, p, l, j - 1);
    }
}

/// A TruyenQQ chapter's reader address, read back as a chapter id, gives
/// the chapter key, for keys that do not end in `.html` and after whose
/// `-chap-` no other `-chap-` can be read.
pub proof fn law_truyenqq_chapter_round_trip(manga_key: Seq<char>, chapter_key: Seq<char>)
    requires
        !crate::text::ends_with(chapter_key, ".html"@),
        !crate::text::contains_seq(("-chap-"@ + chapter_key + ".html"@).drop_first(), "-chap-"@),
    ensures
        truyenqq_chapter_spec(
            TRUYENQQ_URL@ + "/truyen-tranh/"@ + manga_key + "-chap-"@ + chapter_key + ".html"@,
        ) == chapter_key,
{
    reveal_strlit("-chap-");
    reveal_strlit(".html");
    let pre = TRUYENQQ_URL@ + "/truyen-tranh/"@ + manga_key;
    let t = "-chap-"@ + chapter_key + ".html"@;
    let s = pre + t;
    assert(TRUYENQQ_URL@ + "/truyen-tranh/"@ + manga_key + "-chap-"@ + chapter_key + ".html"@ =~= s);
    let l = pre.len() as int;
    let p = "-chap-"@;
    assert(s.subrange(l, l + 6) =~= p);
    crate::text::lemma_find_from_spec(t.drop_first(), p, 0);
    assert forall|k: int| l < k <= s.len() - 6 implies !crate::text::occurs_at(s, p, k) by {
        if crate::text::occurs_at(s, p, k) {
            assert(t.drop_first().subrange(k - l - 1, k - l - 1 + 6) =~= s.subrange(k, k + 6));
            assert(crate::text::occurs_at(t.drop_first(), p, k - l - 1));
        }
    }
    lemma_rfind_at(s, p, l, s.len() - 6);
    assert(s.skip(l + 6) =~= chapter_key + ".html"@);
    let u = chapter_key + ".html"@;
    assert(crate::text::ends_with(u, ".html"@)) by {
        assert(u.subrange(u.len() - 5, u.len() as int) =~= ".html"@);
    }
    assert(u.take(u.len() - 5) =~= chapter_key);
    assert(trim_end_seq(chapter_key, ".html"@) == chapter_key);
    assert(trim_end_seq(u, ".html"@) == trim_end_seq(chapter_key, ".html"@));
    assert(crate::text::rfind_seq(s, p) == l);
    assert(after_last(s, p) == Some(u));
}

/// A title's TruyenQQ page, read back as a title id, gives the title key,
/// for keys without `/` and without `truyen-tranh/`.
pub proof fn law_truyenqq_title_round_trip(manga_key: Seq<char>)
    requires
        crate::text::find(manga_key, seq!['/']) < 0,
        crate::text::find(manga_key, "truyen-tranh/"@) < 0,
    ensures
        title_segment(TRUYENQQ_URL@ + "/truyen-tranh/"@ + manga_key) == manga_key,
{
    reveal_strlit("truyen-tranh/");
    reveal_strlit("/truyen-tranh/");
    reveal_strlit("https://truyenqqno.com");
    let p = "truyen-tranh/"@;
    let s = TRUYENQQ_URL@ + "/truyen-tranh/"@ + manga_key;
    assert(s.subrange(23, 36) =~= p);
    assert forall|j: int| 0 <= j < 23 implies !crate::text::occurs_at(s, p, j) by {
        if crate::text::occurs_at(s, p, j) {
            assert(s.subrange(j, j + 13)[6] == p[6]);
            assert(s[j + 6] == '-');
        }
    }
    assert(crate::text::occurs_at(s, p, 23));
    crate::text::lemma_find_from_spec(s, p, 0);
    assert(crate::text::find(s, p) == 23);
    assert(s.skip(36) =~= manga_key);
}

/// The reader address of a NetTruyen chapter.
pub fn nettruyen_chapter_page(manga_key: &str, chapter_key: &str) -> (r: String)
    ensures
        r@ == NETTRUYEN_URL@ + "/truyen-tranh/"@ + manga_key@ + "/"@ + chapter_key@,
{
    let mut a: Vec<char> = Vec::new();
    push_str(&mut a, NETTRUYEN_URL);
    push_str(&mut a, "/truyen-tranh/");
    push_str(&mut a, manga_key);
    push_str(&mut a, "/");
    push_str(&mut a, chapter_key);
    string_of(&a)
}

/// The reader address of a ZetTruyen chapter, whose reader names chapters
/// `chuong-` where the key says `chapter-`.
pub fn zettruyen_chapter_page(manga_key: &str, chapter_key: &str) -> (r: String)
    ensures
        r@ == ZETTRUYEN_URL@ + "/truyen-tranh/"@ + manga_key@ + "/"@ + replace_all(chapter_key@, "chapter-"@, "chuong-"@),
{
    let mut a: Vec<char> = Vec::new();
    push_str(&mut a, ZETTRUYEN_URL);
    push_str(&mut a, "/truyen-tranh/");
    push_str(&mut a, manga_key);
    push_str(&mut a, "/");
    let from = chars_of("chapter-");
    proof {
        reveal_strlit("chapter-");
    }
    let k = replace_all_chars(&chars_of(chapter_key), &from, &chars_of("chuong-"));
    append_chars(&mut a, &k);
    string_of(&a)
}

// ---------------------------------------------------------------------------
// Search
// ---------------------------------------------------------------------------

/// A search: the path below the site and the query parameters, which
/// `to_url` writes percent-encoded.
pub struct SearchUrl {
    pub path: String,
    pub params: Vec<(String, Option<String>)>,
}

impl SearchUrl {
    /// The address of the search below `base`: the path, then `?` and the
    /// parameters percent-encoded as URI components, when there are any.
    pub fn to_url(&self, base: &str) -> (r: String)
        ensures
            r@ == base@ + self.path@ + (if self.params@.len() == 0 {
                Seq::empty()
            } else {
                "?"@ + crate::text::query_string_opt_spec(crate::text::opt_pairs_view(self.params@))
            }),
    {
        let mut a: Vec<char> = Vec::new();
        push_str(&mut a, base);
        push_str(&mut a, self.path.as_str());
        if self.params.len() > 0 {
            push_str(&mut a, "?");
            push_str(&mut a, crate::text::query_string_opt(&self.params).as_str());
        } else {
            assert(a@ + Seq::<char>::empty() =~= a@);
        }
        string_of(&a)
    }
}

/// What a query parameter holds.
pub open spec fn param_view(p: (String, Option<String>)) -> (Seq<char>, Option<Seq<char>>) {
    (p.0@, opt_view(p.1))
}

/// What query parameters hold.
pub open spec fn params_view(ps: Seq<(String, Option<String>)>) -> Seq<(Seq<char>, Option<Seq<char>>)> {
    ps.map_values(|p: (String, Option<String>)| param_view(p))
}

fn push_param(ps: &mut Vec<(String, Option<String>)>, key: &str, value: Option<String>)
    ensures
        params_view(final(ps)@) == params_view(old(ps)@).push((key@, opt_view(value))),
{
    let ghost before = ps@;
    let ghost v = opt_view(value);
    ps.push((string_of(&chars_of(key)), value));
    assert(params_view(ps@) =~= params_view(before).push((key@, v)));
}

/// The parameters that the filters add on the advanced search of
/// TruyenQQ and Truyen3Q: a multi-select its included and excluded
/// categories, a select its value, a sort its index.
pub open spec fn category_step(
    ps: Seq<(Seq<char>, Option<Seq<char>>)>,
    f: FilterValue,
) -> Seq<(Seq<char>, Option<Seq<char>>)> {
    match f {
        FilterValue::MultiSelect { id, included, excluded } => ps.push(
            ("category"@, Some(join(string_views(included@), ","@))),
        ).push(("notcategory"@, Some(join(string_views(excluded@), ","@)))),
        FilterValue::Select { id, value } => ps.push((id@, Some(value@))),
        FilterValue::Sort { id, index, ascending } => ps.push((id@, Some(int_decimal(index as int)))),
        _ => ps,
    }
}

/// The parameters after the filters, in order.
pub open spec fn category_fold(start: Seq<(Seq<char>, Option<Seq<char>>)>, fs: Seq<FilterValue>) -> Seq<(Seq<char>, Option<Seq<char>>)>
    decreases fs.len(),
{
    if fs.len() == 0 {
        start
    } else {
        category_step(category_fold(start, fs.drop_last()), fs.last())
    }
}

fn apply_category_filter(ps: &mut Vec<(String, Option<String>)>, f: &FilterValue)
    ensures
        params_view(final(ps)@) == category_step(params_view(old(ps)@), *f),
{
    match f {
        FilterValue::MultiSelect { id, included, excluded } => {
            push_param(ps, "category", Some(join_strings(included, ",")));
            push_param(ps, "notcategory", Some(join_strings(excluded, ",")));
        },
        FilterValue::Select { id, value } => {
            push_param(ps, id.as_str(), Some(value.clone()));
        },
        FilterValue::Sort { id, index, ascending } => {
            push_param(ps, id.as_str(), Some(string_of(&i64_decimal(*index as i64))));
        },
        _ => {},
    }
}

/// The index of the first text filter with a value, or -1.
pub open spec fn first_title_filter(fs: Seq<FilterValue>) -> int {
    crate::text::find_first_index(fs.map_values(|f: FilterValue| f matches FilterValue::Text { value, .. } && value@.len() > 0))
}

/// The search TruyenQQ makes: with no filter, the plain search page; else
/// the first text filter with a value searches its title; else the advanced
/// search.
pub open spec fn truyenqq_search_spec(q: Option<Seq<char>>, page: i32, fs: Seq<FilterValue>) -> (Seq<char>, Seq<(Seq<char>, Option<Seq<char>>)>) {
    let start = seq![("q"@, q), ("post_type"@, Some("wp-manga"@))];
    if fs.len() == 0 {
        ("/tim-kiem/trang-"@ + int_decimal(page as int) + ".html"@, start)
    } else {
        let k = first_title_filter(fs);
        if k >= 0 {
            match fs[k] {
                FilterValue::Text { id, value } => ("/tim-kiem/trang-"@ + int_decimal(page as int) + ".html"@, seq![("q"@, Some(value@))]),
                _ => ("/tim-kiem-nang-cao/trang-"@ + int_decimal(page as int) + ".html"@, category_fold(start, fs)),
            }
        } else {
            ("/tim-kiem-nang-cao/trang-"@ + int_decimal(page as int) + ".html"@, category_fold(start, fs))
        }
    }
}

fn page_path(prefix: &str, page: i32) -> (r: String)
    ensures
        r@ == prefix@ + int_decimal(page as int) + ".html"@,
{
    let mut a: Vec<char> = Vec::new();
    push_str(&mut a, prefix);
    let n = i64_decimal(page as i64);
    append_chars(&mut a, &n);
    push_str(&mut a, ".html");
    string_of(&a)
}

/// The search TruyenQQ makes for a query, page and filters
/// (`get_search_url`).
pub fn truyenqq_search(q: Option<&str>, page: i32, filters: &[FilterValue]) -> (r: SearchUrl)
    ensures
        (r.path@, params_view(r.params@)) == truyenqq_search_spec(crate::text::opt_str_view(q), page, filters@),
{
    let mut params: Vec<(String, Option<String>)> = Vec::new();
    push_param(&mut params, "q", match q {
        Some(s) => Some(string_of(&chars_of(s))),
        None => None,
    });
    push_param(&mut params, "post_type", Some(string_of(&chars_of("wp-manga"))));
    let ghost start = params_view(params@);
    if filters.len() == 0 {
        return SearchUrl { path: page_path("/tim-kiem/trang-", page), params };
    }
    let ghost flags = filters@.map_values(|f: FilterValue| f matches FilterValue::Text { value, .. } && value@.len() > 0);
    let mut i: usize = 0;
    assert(filters@.take(0) =~= Seq::<FilterValue>::empty());
    while i < filters.len()
        invariant
            i <= filters@.len(),
            filters@.len() > 0,
            flags == filters@.map_values(|f: FilterValue| f matches FilterValue::Text { value, .. } && value@.len() > 0),
            forall|k: int| 0 <= k < i ==> !flags[k],
            start == seq![("q"@, crate::text::opt_str_view(q)), ("post_type"@, Some("wp-manga"@))],
            params_view(params@) == category_fold(start, filters@.take(i as int)),
        decreases filters@.len() - i,
    {
        assert(filters@.take(i + 1).drop_last() =~= filters@.take(i as int));
        assert(filters@.take(i + 1).last() == filters@[i as int]);
        if let FilterValue::Text { id, value } = &filters[i] {
            if !value.as_str().is_empty() {
                assert(flags[i as int]);
                proof {
                    crate::text::lemma_find_first_index(flags, i as int);
                }
                let mut ps: Vec<(String, Option<String>)> = Vec::new();
                push_param(&mut ps, "q", Some(value.clone()));
                assert(params_view(ps@) =~= seq![("q"@, Some(value@))]);
                return SearchUrl { path: page_path("/tim-kiem/trang-", page), params: ps };
            }
        }
        apply_category_filter(&mut params, &filters[i]);
        i = i + 1;
    }
    assert(filters@.take(filters@.len() as int) =~= filters@);
    proof {
        crate::text::lemma_find_first_none(flags);
    }
    SearchUrl { path: page_path("/tim-kiem-nang-cao/trang-", page), params }
}

/// The search Truyen3Q makes: the advanced search with the keyword, page
/// and type, then the parameters of the filters.
pub fn truyen3q_search(q: Option<&str>, page: i32, filters: &[FilterValue]) -> (r: SearchUrl)
    ensures
        r.path@ == "/tim-kiem-nang-cao/"@,
        params_view(r.params@) == category_fold(
            seq![
                ("keyword"@, crate::text::opt_str_view(q)),
                ("page"@, Some(int_decimal(page as int))),
                ("post_type"@, Some("wp-manga"@)),
            ],
            filters@,
        ),
{
    let mut params: Vec<(String, Option<String>)> = Vec::new();
    push_param(&mut params, "keyword", match q {
        Some(s) => Some(string_of(&chars_of(s))),
        None => None,
    });
    push_param(&mut params, "page", Some(string_of(&i64_decimal(page as i64))));
    push_param(&mut params, "post_type", Some(string_of(&chars_of("wp-manga"))));
    let ghost start = params_view(params@);
    let mut i: usize = 0;
    assert(filters@.take(0) =~= Seq::<FilterValue>::empty());
    while i < filters.len()
        invariant
            i <= filters@.len(),
            start == seq![
                ("keyword"@, crate::text::opt_str_view(q)),
                ("page"@, Some(int_decimal(page as int))),
                ("post_type"@, Some("wp-manga"@)),
            ],
            params_view(params@) == category_fold(start, filters@.take(i as int)),
        decreases filters@.len() - i,
    {
        assert(filters@.take(i + 1).drop_last() =~= filters@.take(i as int));
        assert(filters@.take(i + 1).last() == filters@[i as int]);
        apply_category_filter(&mut params, &filters[i]);
        i = i + 1;
    }
    assert(filters@.take(filters@.len() as int) =~= filters@);
    SearchUrl { path: string_of(&chars_of("/tim-kiem-nang-cao/")), params }
}

/// What one filter does on NetTruyen: the `tag` select chooses the path,
/// other selects and sorts add parameters.
pub open spec fn nettruyen_step(
    st: (Option<Seq<char>>, Seq<(Seq<char>, Option<Seq<char>>)>),
    f: FilterValue,
) -> (Option<Seq<char>>, Seq<(Seq<char>, Option<Seq<char>>)>) {
    match f {
        FilterValue::Select { id, value } => if id@ == "tag"@ {
            (Some(value@), st.1)
        } else {
            (st.0, st.1.push((id@, Some(value@))))
        },
        FilterValue::Sort { id, index, ascending } => (st.0, st.1.push((id@, Some(int_decimal(index as int))))),
        _ => st,
    }
}

/// The tag and parameters after NetTruyen's filters, in order.
pub open spec fn nettruyen_fold(
    start: Seq<(Seq<char>, Option<Seq<char>>)>,
    fs: Seq<FilterValue>,
) -> (Option<Seq<char>>, Seq<(Seq<char>, Option<Seq<char>>)>)
    decreases fs.len(),
{
    if fs.len() == 0 {
        (None, start)
    } else {
        nettruyen_step(nettruyen_fold(start, fs.drop_last()), fs.last())
    }
}

/// The search NetTruyen makes: `/tim-truyen` with the keyword, type and page
/// when there is no filter; else `/tim-truyen/<tag>` with the parameters of
/// the filters.
pub fn nettruyen_search(q: Option<&str>, page: i32, filters: &[FilterValue]) -> (r: SearchUrl)
    ensures
        ({
            let start = seq![
                ("keyword"@, Some(match q { Some(s) => s@, None => Seq::<char>::empty() })),
                ("post_type"@, Some("wp-manga"@)),
                ("page"@, Some(int_decimal(page as int))),
            ];
            if filters@.len() == 0 {
                r.path@ == "/tim-truyen"@ && params_view(r.params@) == start
            } else {
                let (tag, ps) = nettruyen_fold(start, filters@);
                r.path@ == "/tim-truyen/"@ + match tag { Some(t) => t, None => Seq::<char>::empty() }
                    && params_view(r.params@) == ps
            }
        }),
{
    let mut params: Vec<(String, Option<String>)> = Vec::new();
    push_param(&mut params, "keyword", Some(match q {
        Some(s) => string_of(&chars_of(s)),
        None => String::new(),
    }));
    push_param(&mut params, "post_type", Some(string_of(&chars_of("wp-manga"))));
    push_param(&mut params, "page", Some(string_of(&i64_decimal(page as i64))));
    let ghost start = params_view(params@);
    if filters.len() == 0 {
        return SearchUrl { path: string_of(&chars_of("/tim-truyen")), params };
    }
    let mut tag: Option<String> = None;
    let mut i: usize = 0;
    assert(filters@.take(0) =~= Seq::<FilterValue>::empty());
    while i < filters.len()
        invariant
            i <= filters@.len(),
            filters@.len() > 0,
            start == seq![
                ("keyword"@, Some(match q { Some(s) => s@, None => Seq::<char>::empty() })),
                ("post_type"@, Some("wp-manga"@)),
                ("page"@, Some(int_decimal(page as int))),
            ],
            (opt_view(tag), params_view(params@)) == nettruyen_fold(start, filters@.take(i as int)),
        decreases filters@.len() - i,
    {
        assert(filters@.take(i + 1).drop_last() =~= filters@.take(i as int));
        assert(filters@.take(i + 1).last() == filters@[i as int]);
        match &filters[i] {
            FilterValue::Select { id, value } => {
                if str_eq(id.as_str(), "tag") {
                    tag = Some(value.clone());
                } else {
                    push_param(&mut params, id.as_str(), Some(value.clone()));
                }
            },
            FilterValue::Sort { id, index, ascending } => {
                push_param(&mut params, id.as_str(), Some(string_of(&i64_decimal(*index as i64))));
            },
            _ => {},
        }
        i = i + 1;
    }
    assert(filters@.take(filters@.len() as int) =~= filters@);
    let mut a: Vec<char> = Vec::new();
    push_str(&mut a, "/tim-truyen/");
    match &tag {
        Some(t) => push_str(&mut a, t.as_str()),
        None => {
            assert(a@ + Seq::<char>::empty() =~= a@);
        },
    }
    SearchUrl { path: string_of(&a), params }
}

/// What one filter does on ZetTruyen: a multi-select adds its included
/// categories, a select its value, a sort its index.
pub open spec fn zettruyen_step(ps: Seq<(Seq<char>, Option<Seq<char>>)>, f: FilterValue) -> Seq<(Seq<char>, Option<Seq<char>>)> {
    match f {
        FilterValue::MultiSelect { id, included, excluded } => ps.push(("category"@, Some(join(string_views(included@), ","@)))),
        FilterValue::Select { id, value } => ps.push((id@, Some(value@))),
        FilterValue::Sort { id, index, ascending } => ps.push((id@, Some(int_decimal(index as int)))),
        _ => ps,
    }
}

/// ZetTruyen's parameters after the filters, in order.
pub open spec fn zettruyen_fold(start: Seq<(Seq<char>, Option<Seq<char>>)>, fs: Seq<FilterValue>) -> Seq<(Seq<char>, Option<Seq<char>>)>
    decreases fs.len(),
{
    if fs.len() == 0 {
        start
    } else {
        zettruyen_step(zettruyen_fold(start, fs.drop_last()), fs.last())
    }
}

/// The search ZetTruyen makes: the advanced search with the name and page,
/// then the parameters of the filters.
pub fn zettruyen_search(q: Option<&str>, page: i32, filters: &[FilterValue]) -> (r: SearchUrl)
    ensures
        r.path@ == "/tim-kiem-nang-cao"@,
        params_view(r.params@) == zettruyen_fold(
            seq![("name"@, crate::text::opt_str_view(q)), ("page"@, Some(int_decimal(page as int)))],
            filters@,
        ),
{
    let mut params: Vec<(String, Option<String>)> = Vec::new();
    push_param(&mut params, "name", match q {
        Some(s) => Some(string_of(&chars_of(s))),
        None => None,
    });
    push_param(&mut params, "page", Some(string_of(&i64_decimal(page as i64))));
    let ghost start = params_view(params@);
    let mut i: usize = 0;
    assert(filters@.take(0) =~= Seq::<FilterValue>::empty());
    while i < filters.len()
        invariant
            i <= filters@.len(),
            start == seq![("name"@, crate::text::opt_str_view(q)), ("page"@, Some(int_decimal(page as int)))],
            params_view(params@) == zettruyen_fold(start, filters@.take(i as int)),
        decreases filters@.len() - i,
    {
        assert(filters@.take(i + 1).drop_last() =~= filters@.take(i as int));
        assert(filters@.take(i + 1).last() == filters@[i as int]);
        match &filters[i] {
            FilterValue::MultiSelect { id, included, excluded } => {
                push_param(&mut params, "category", Some(join_strings(included, ",")));
            },
            FilterValue::Select { id, value } => {
                push_param(&mut params, id.as_str(), Some(value.clone()));
            },
            FilterValue::Sort { id, index, ascending } => {
                push_param(&mut params, id.as_str(), Some(string_of(&i64_decimal(*index as i64))));
            },
            _ => {},
        }
        i = i + 1;
    }
    assert(filters@.take(filters@.len() as int) =~= filters@);
    SearchUrl { path: string_of(&chars_of("/tim-kiem-nang-cao")), params }
}

// ---------------------------------------------------------------------------
// ZetTruyen's home page and chapter lists
// ---------------------------------------------------------------------------

/// The sections ZetTruyen's home page announces before it loads any: the
/// untitled carousel, the four rankings, and the latest updates.
pub open spec fn zettruyen_layout_plan() -> Seq<(Option<&'static str>, HomeKind)> {
    seq![
        (None, HomeKind::BigScroller),
        (Some("Top"), HomeKind::Scroller),
        (Some("Top ngày"), HomeKind::Scroller),
        (Some("Top tháng"), HomeKind::Scroller),
        (Some("Top tuần"), HomeKind::Scroller),
        (Some("Mới cập nhật"), HomeKind::MangaChapterList { page_size: None }),
    ]
}

/// The sections ZetTruyen's home page announces first.
pub fn zettruyen_home_layout() -> (r: Vec<(Option<&'static str>, HomeKind)>)
    ensures
        r@ == zettruyen_layout_plan(),
{
    let r = vec![
        (None, HomeKind::BigScroller),
        (Some("Top"), HomeKind::Scroller),
        (Some("Top ngày"), HomeKind::Scroller),
        (Some("Top tháng"), HomeKind::Scroller),
        (Some("Top tuần"), HomeKind::Scroller),
        (Some("Mới cập nhật"), HomeKind::MangaChapterList { page_size: None }),
    ];
    assert(r@ =~= zettruyen_layout_plan());
    r
}

/// A ranking of ZetTruyen's `top` answer.
#[derive(Debug, Clone, Copy, PartialEq, Eq, Structural)]
pub enum TopPeriod {
    All,
    Day,
    Month,
    Week,
}

/// The ranking sections, in the order they are sent, with their titles.
pub open spec fn zettruyen_top_plan() -> Seq<(&'static str, TopPeriod)> {
    seq![
        ("Top", TopPeriod::All),
        ("Top ngày", TopPeriod::Day),
        ("Top tháng", TopPeriod::Month),
        ("Top tuần", TopPeriod::Week),
    ]
}

/// The ranking sections of ZetTruyen's home page, each a row of covers.
pub fn zettruyen_top_sections() -> (r: Vec<(&'static str, TopPeriod)>)
    ensures
        r@ == zettruyen_top_plan(),
{
    let r = vec![
        ("Top", TopPeriod::All),
        ("Top ngày", TopPeriod::Day),
        ("Top tháng", TopPeriod::Month),
        ("Top tuần", TopPeriod::Week),
    ];
    assert(r@ =~= zettruyen_top_plan());
    r
}

/// A section of ZetTruyen's home page as it is sent.
#[derive(Debug, Clone, Copy, PartialEq, Eq, Structural)]
pub enum ZetSection {
    /// The carousel of the home page's slider at this position.
    Slider(usize),
    /// A ranking.
    Top(TopPeriod),
    /// The latest updates.
    Latest,
}

/// How a section shows its entries: a slider as a carousel, a ranking as a
/// row of covers, the latest updates as titles with chapters, four a page.
pub open spec fn zet_kind(s: ZetSection) -> HomeKind {
    match s {
        ZetSection::Slider(_) => HomeKind::BigScroller,
        ZetSection::Top(_) => HomeKind::Scroller,
        ZetSection::Latest => HomeKind::MangaChapterList { page_size: Some(4) },
    }
}

/// How a section shows its entries.
pub fn zettruyen_kind(s: ZetSection) -> (r: HomeKind)
    ensures
        r == zet_kind(s),
{
    match s {
        ZetSection::Slider(_) => HomeKind::BigScroller,
        ZetSection::Top(_) => HomeKind::Scroller,
        ZetSection::Latest => HomeKind::MangaChapterList { page_size: Some(4) },
    }
}

/// One carousel for each slider that yields a title, in order.
pub open spec fn slider_plan(sizes: Seq<usize>) -> Seq<ZetSection>
    decreases sizes.len(),
{
    if sizes.len() == 0 {
        Seq::empty()
    } else {
        slider_plan(sizes.drop_last()) + if sizes.last() > 0 {
            seq![ZetSection::Slider((sizes.len() - 1) as usize)]
        } else {
            Seq::empty()
        }
    }
}

/// The sections of ZetTruyen's home page as they are sent, given how many
/// titles each slider yields: a carousel per non-empty slider, the four
/// rankings, then the latest updates.
pub open spec fn zet_sections_plan(sizes: Seq<usize>) -> Seq<ZetSection> {
    slider_plan(sizes) + seq![
        ZetSection::Top(TopPeriod::All),
        ZetSection::Top(TopPeriod::Day),
        ZetSection::Top(TopPeriod::Month),
        ZetSection::Top(TopPeriod::Week),
        ZetSection::Latest,
    ]
}

/// The sections of ZetTruyen's home page as they are sent (`get_home`).
pub fn zettruyen_sections(slider_sizes: &Vec<usize>) -> (r: Vec<ZetSection>)
    ensures
        r@ == zet_sections_plan(slider_sizes@),
{
    let ghost sz = slider_sizes@;
    let mut out: Vec<ZetSection> = Vec::new();
    let mut i: usize = 0;
    assert(sz.take(0) =~= Seq::<usize>::empty());
    while i < slider_sizes.len()
        invariant
            i <= sz.len(),
            sz == slider_sizes@,
            out@ == slider_plan(sz.take(i as int)),
        decreases sz.len() - i,
    {
        assert(sz.take(i + 1).drop_last() =~= sz.take(i as int));
        assert(sz.take(i + 1).last() == sz[i as int]);
        let ghost prev = out@;
        if slider_sizes[i] > 0 {
            out.push(ZetSection::Slider(i));
            assert(out@ =~= prev + seq![ZetSection::Slider(i)]);
        } else {
            assert(out@ =~= prev + Seq::<ZetSection>::empty());
        }
        i = i + 1;
    }
    assert(sz.take(sz.len() as int) =~= sz);
    let ghost sliders = out@;
    out.push(ZetSection::Top(TopPeriod::All));
    out.push(ZetSection::Top(TopPeriod::Day));
    out.push(ZetSection::Top(TopPeriod::Month));
    out.push(ZetSection::Top(TopPeriod::Week));
    out.push(ZetSection::Latest);
    assert(out@ =~= zet_sections_plan(sz));
    out
}

/// Where ZetTruyen's rankings are read.
pub fn zettruyen_top_url() -> (r: String)
    ensures
        r@ == ZETTRUYEN_URL@ + "/api/comics/top"@,
{
    let mut a: Vec<char> = Vec::new();
    push_str(&mut a, ZETTRUYEN_URL);
    push_str(&mut a, "/api/comics/top");
    string_of(&a)
}

/// Where ZetTruyen's latest updates are read, ten of them.
pub fn zettruyen_related_url() -> (r: String)
    ensures
        r@ == ZETTRUYEN_URL@ + "/api/comics/related?limit=10"@,
{
    let mut a: Vec<char> = Vec::new();
    push_str(&mut a, ZETTRUYEN_URL);
    push_str(&mut a, "/api/comics/related?limit=10");
    string_of(&a)
}

/// One page of a ZetTruyen chapter list, newest first, 100 a page.
pub fn zettruyen_chapters_url(key: &str, page: i32) -> (r: String)
    ensures
        r@ == ZETTRUYEN_URL@ + "/api/comics/"@ + key@ + "/chapters?page="@ + int_decimal(page as int)
            + "&per_page=100&order=desc"@,
{
    let mut a: Vec<char> = Vec::new();
    push_str(&mut a, ZETTRUYEN_URL);
    push_str(&mut a, "/api/comics/");
    push_str(&mut a, key);
    push_str(&mut a, "/chapters?page=");
    let p = string_of(&i64_decimal(page as i64));
    push_str(&mut a, p.as_str());
    push_str(&mut a, "&per_page=100&order=desc");
    string_of(&a)
}

/// The reader slug of a chapter: `chuong-` and its number where it has one,
/// else its slug with `chapter-` read as `chuong-`.
pub open spec fn zettruyen_slug_spec(number: Option<Seq<char>>, slug: Seq<char>) -> Seq<char> {
    match number {
        Some(n) => "chuong-"@ + n,
        None => replace_all(slug, "chapter-"@, "chuong-"@),
    }
}

/// The reader slug of a ZetTruyen chapter; `number` is the chapter number
/// as the site's answer writes it.
pub fn zettruyen_chapter_slug(number: Option<&str>, slug: &str) -> (r: String)
    ensures
        r@ == zettruyen_slug_spec(opt_str_view(number), slug@),
{
    match number {
        Some(n) => {
            let mut a: Vec<char> = Vec::new();
            push_str(&mut a, "chuong-");
            push_str(&mut a, n);
            string_of(&a)
        },
        None => {
            let from = chars_of("chapter-");
            proof {
                reveal_strlit("chapter-");
            }
            string_of(&replace_all_chars(&chars_of(slug), &from, &chars_of("chuong-")))
        },
    }
}

/// The address of a ZetTruyen chapter from its reader slug.
pub fn zettruyen_chapter_url(key: &str, slug: &str) -> (r: String)
    ensures
        r@ == ZETTRUYEN_URL@ + "/truyen-tranh/"@ + key@ + "/"@ + slug@,
{
    let mut a: Vec<char> = Vec::new();
    push_str(&mut a, ZETTRUYEN_URL);
    push_str(&mut a, "/truyen-tranh/");
    push_str(&mut a, key);
    push_str(&mut a, "/");
    push_str(&mut a, slug);
    string_of(&a)
}

/// Whether a ZetTruyen chapter list goes on after a page: not once the
/// answer says its page is the last, nor after a page of 25 chapters.
pub fn zettruyen_more_chapters(current_page: i64, last_page: i64, size: usize) -> (r: bool)
    ensures
        r == !(current_page >= last_page || size == 25),
{
    !(current_page >= last_page || size == 25)
}

} // verus!
