//! DM5: catalogue and search addresses, links into the site, and how a
//! chapter's reader script and its image script are read.
use vstd::prelude::*;

use crate::model::{opt_link_view, DeepLink, DeepLinkView, FilterValue, MangaStatus};
use crate::text::{
    append_chars, before_char, encode_uri, encode_uri_spec, before_char_chars, chars_of, find_chars, find_first_index,
    i64_decimal, int_decimal, join, join_strings, lemma_find_first_index, lemma_find_first_none,
    nonempty_pieces, nonempty_split, opt_str_view, opt_view, parse_usize, parse_usize_spec,
    piece_after, piece_after_chars, push_str, split_two, split_two_chars, starts_with, str_eq,
    string_of, string_views, trim, trim_char, trim_char_chars, trim_chars, trim_end_char,
    trim_end_char_chars, trim_start_seq, trim_start_seq_chars, u64_decimal, decimal, has_prefix,
    contains_seq,
};

verus! {

/// The site.
pub const BASE_URL: &'static str = "https://www.dm5.com";

/// The browser the source presents itself as.
pub const USER_AGENT: &'static str = "Mozilla/5.0 (Windows NT 10.0; Win64; x64) AppleWebKit/537.36 (KHTML, like Gecko) Chrome/139.0.0.0 Safari/537.36";

/// The sort segments, by sort option index.
pub open spec fn sorts() -> Seq<&'static str> {
    seq!["s10", "s2", "s18"]
}

/// The options of the genre filter.
pub open spec fn genre_options() -> Seq<&'static str> {
    seq![
        "热血", "恋爱", "校园", "冒险", "后宫", "科幻", "战争", "悬疑", "推理", "搞笑", "奇幻", "魔法",
        "神鬼", "历史", "同人", "运动", "绅士", "机甲",
    ]
}

/// The tag segment of each genre option.
pub open spec fn genre_ids() -> Seq<&'static str> {
    seq![
        "tag31", "tag26", "tag1", "tag2", "tag8", "tag25", "tag12", "tag17", "tag33", "tag37",
        "tag14", "tag15", "tag20", "tag4", "tag30", "tag34", "tag36", "tag40",
    ]
}

fn sort_table() -> (r: Vec<&'static str>)
    ensures
        r@ == sorts(),
{
    let r = vec!["s10", "s2", "s18"];
    assert(r@ =~= sorts());
    r
}

fn genre_option_table() -> (r: Vec<&'static str>)
    ensures
        r@ == genre_options(),
{
    let r = vec![
        "热血", "恋爱", "校园", "冒险", "后宫", "科幻", "战争", "悬疑", "推理", "搞笑", "奇幻", "魔法",
        "神鬼", "历史", "同人", "运动", "绅士", "机甲",
    ];
    assert(r@ =~= genre_options());
    r
}

fn genre_id_table() -> (r: Vec<&'static str>)
    ensures
        r@ == genre_ids(),
{
    let r = vec![
        "tag31", "tag26", "tag1", "tag2", "tag8", "tag25", "tag12", "tag17", "tag33", "tag37",
        "tag14", "tag15", "tag20", "tag4", "tag30", "tag34", "tag36", "tag40",
    ];
    assert(r@ =~= genre_ids());
    r
}

/// A page of the site. A search query is held percent-encoded as a URI.
pub enum Url {
    /// A title's page.
    Manga { id: String },
    /// A title search.
    Search { query: String, page: i32 },
    /// The catalogue, narrowed by its `-`-joined segments.
    Filter { segments: String, page: i32 },
}

/// What a `Url` denotes.
pub enum UrlView {
    Manga { id: Seq<char> },
    Search { query: Seq<char>, page: i32 },
    Filter { segments: Seq<char>, page: i32 },
}

impl View for Url {
    type V = UrlView;

    open spec fn view(&self) -> UrlView {
        match self {
            Url::Manga { id } => UrlView::Manga { id: id@ },
            Url::Search { query, page } => UrlView::Search { query: query@, page: *page },
            Url::Filter { segments, page } => UrlView::Filter { segments: segments@, page: *page },
        }
    }
}

/// The catalogue segments the filters set: sort, genre, area, status,
/// audience, payment.
pub type SegmentSpec = (
    Option<Seq<char>>,
    Option<Seq<char>>,
    Option<Seq<char>>,
    Option<Seq<char>>,
    Option<Seq<char>>,
    Option<Seq<char>>,
);

/// The index of a genre option, or -1.
pub open spec fn genre_index(value: Seq<char>) -> int {
    find_first_index(genre_options().map_values(|o: &'static str| o@ == value))
}

/// What one filter does to the segments: the sort filter sets the sort
/// segment (none for an index out of range); select filters set their
/// segment; a known genre sets the genre segment to its tag.
pub open spec fn segment_step(st: SegmentSpec, f: FilterValue) -> SegmentSpec {
    match f {
        FilterValue::Sort { id, index, ascending } => if id@ == "排序"@ {
            (if 0 <= index < 3 { Some(sorts()[index as int]@) } else { None }, st.1, st.2, st.3, st.4, st.5)
        } else {
            st
        },
        FilterValue::Select { id, value } => if id@ == "题材"@ {
            (st.0, Some(value@), st.2, st.3, st.4, st.5)
        } else if id@ == "地区"@ {
            (st.0, st.1, Some(value@), st.3, st.4, st.5)
        } else if id@ == "进度"@ {
            (st.0, st.1, st.2, Some(value@), st.4, st.5)
        } else if id@ == "受众"@ {
            (st.0, st.1, st.2, st.3, Some(value@), st.5)
        } else if id@ == "收费"@ {
            (st.0, st.1, st.2, st.3, st.4, Some(value@))
        } else if id@ == "genre"@ && genre_index(value@) >= 0 {
            (st.0, Some(genre_ids()[genre_index(value@)]@), st.2, st.3, st.4, st.5)
        } else {
            st
        },
        _ => st,
    }
}

/// The segments after the filters, applied in order.
pub open spec fn segment_fold(fs: Seq<FilterValue>) -> SegmentSpec
    decreases fs.len(),
{
    if fs.len() == 0 {
        (None, None, None, None, None, None)
    } else {
        segment_step(segment_fold(fs.drop_last()), fs.last())
    }
}

/// The values that are present, in order.
pub open spec fn present(s: Seq<Option<Seq<char>>>) -> Seq<Seq<char>>
    decreases s.len(),
{
    if s.len() == 0 {
        Seq::empty()
    } else {
        let p = present(s.drop_last());
        match s.last() {
            Some(x) => p.push(x),
            None => p,
        }
    }
}

/// The catalogue path: area, genre, audience, status, payment and sort, as
/// far as set, joined with `-`.
pub open spec fn segments_text(st: SegmentSpec) -> Seq<char> {
    join(present(seq![st.2, st.1, st.4, st.3, st.5, st.0]), "-"@)
}

/// The page a query or the filters choose: a query searches, percent-encoded
/// as a URI; else the catalogue narrowed by the filters.
pub open spec fn choose_url(query: Option<Seq<char>>, page: i32, fs: Seq<FilterValue>) -> UrlView {
    match query {
        Some(q) => UrlView::Search { query: encode_uri_spec(q), page },
        None => UrlView::Filter { segments: segments_text(segment_fold(fs)), page },
    }
}

fn owned(s: &str) -> (r: String)
    ensures
        r@ == s@,
{
    string_of(&chars_of(s))
}

fn genre_position(value: &str) -> (r: Option<usize>)
    ensures
        match r {
            Some(i) => i == genre_index(value@) && i < genre_options().len(),
            None => genre_index(value@) == -1,
        },
{
    let table = genre_option_table();
    let ghost flags = genre_options().map_values(|o: &'static str| o@ == value@);
    let mut j: usize = 0;
    while j < table.len()
        invariant
            j <= table@.len(),
            table@ == genre_options(),
            flags == genre_options().map_values(|o: &'static str| o@ == value@),
            forall|k: int| 0 <= k < j ==> !flags[k],
        decreases table@.len() - j,
    {
        if str_eq(table[j], value) {
            proof {
                lemma_find_first_index(flags, j as int);
            }
            return Some(j);
        }
        j = j + 1;
    }
    proof {
        lemma_find_first_none(flags);
    }
    None
}

fn push_present(out: &mut Vec<String>, o: &Option<String>)
    ensures
        string_views(final(out)@) == (match opt_view(*o) {
            Some(x) => string_views(old(out)@).push(x),
            None => string_views(old(out)@),
        }),
{
    if let Some(s) = o {
        let ghost before = out@;
        out.push(s.clone());
        assert(string_views(out@) =~= string_views(before).push(s@));
    }
}

impl Url {
    /// A title's page.
    pub fn manga(id: String) -> (r: Url)
        ensures
            r@ == (UrlView::Manga { id: id@ }),
    {
        Url::Manga { id }
    }

    /// The page that a search query, or else the filters, choose
    /// (`from_query_or_filters`).
    pub fn from_query_or_filters(query: Option<&str>, page: i32, filters: &[FilterValue]) -> (r: Url)
        ensures
            r@ == choose_url(opt_str_view(query), page, filters@),
    {
        if let Some(q) = query {
            return Url::Search { query: encode_uri(q), page };
        }
        let mut sort: Option<String> = None;
        let mut genre: Option<String> = None;
        let mut area: Option<String> = None;
        let mut status: Option<String> = None;
        let mut audience: Option<String> = None;
        let mut pay: Option<String> = None;
        let mut i: usize = 0;
        assert(filters@.take(0) =~= Seq::<FilterValue>::empty());
        while i < filters.len()
            invariant
                i <= filters@.len(),
                (opt_view(sort), opt_view(genre), opt_view(area), opt_view(status), opt_view(
                    audience,
                ), opt_view(pay)) == segment_fold(filters@.take(i as int)),
            decreases filters@.len() - i,
        {
            assert(filters@.take(i + 1).drop_last() =~= filters@.take(i as int));
            match &filters[i] {
                FilterValue::Sort { id, index, ascending } => {
                    if str_eq(id.as_str(), "排序") {
                        sort = if *index >= 0 && *index < 3 {
                            let t = sort_table();
                            Some(owned(t[*index as usize]))
                        } else {
                            None
                        };
                    }
                },
                FilterValue::Select { id, value } => {
                    let id = id.as_str();
                    if str_eq(id, "题材") {
                        genre = Some(value.clone());
                    } else if str_eq(id, "地区") {
                        area = Some(value.clone());
                    } else if str_eq(id, "进度") {
                        status = Some(value.clone());
                    } else if str_eq(id, "受众") {
                        audience = Some(value.clone());
                    } else if str_eq(id, "收费") {
                        pay = Some(value.clone());
                    } else if str_eq(id, "genre") {
                        if let Some(idx) = genre_position(value.as_str()) {
                            let ids = genre_id_table();
                            genre = Some(owned(ids[idx]));
                        }
                    }
                },
                _ => {},
            }
            i = i + 1;
        }
        assert(filters@.take(filters@.len() as int) =~= filters@);
        let mut parts: Vec<String> = Vec::new();
        push_present(&mut parts, &area);
        push_present(&mut parts, &genre);
        push_present(&mut parts, &audience);
        push_present(&mut parts, &status);
        push_present(&mut parts, &pay);
        push_present(&mut parts, &sort);
        let ghost opts = seq![opt_view(area), opt_view(genre), opt_view(audience), opt_view(status), opt_view(pay), opt_view(sort)];
        assert(opts.drop_last().drop_last().drop_last().drop_last().drop_last().drop_last() =~= Seq::<Option<Seq<char>>>::empty());
        proof {
            reveal_with_fuel(present, 7);
        }
        assert(present(opts) == string_views(parts@));
        let segments = join_strings(&parts, "-");
        Url::Filter { segments, page }
    }
}

/// The address of a page of the site.
pub open spec fn url_text(u: UrlView) -> Seq<char> {
    match u {
        UrlView::Manga { id } => BASE_URL@ + "/"@ + id,
        UrlView::Search { query, page } => BASE_URL@ + "/search?title="@ + query
            + "&language=1&page="@ + int_decimal(page as int),
        UrlView::Filter { segments, page } => if segments.len() == 0 {
            BASE_URL@ + "/manhua-list-p"@ + int_decimal(page as int) + "/"@
        } else {
            BASE_URL@ + "/manhua-list-"@ + segments + "-p"@ + int_decimal(page as int) + "/"@
        },
    }
}

impl Url {
    /// The address of this page (`to_string`).
    pub fn to_url(&self) -> (r: String)
        ensures
            r@ == url_text(self@),
    {
        let mut a: Vec<char> = Vec::new();
        push_str(&mut a, BASE_URL);
        match self {
            Url::Manga { id } => {
                push_str(&mut a, "/");
                push_str(&mut a, id.as_str());
            },
            Url::Search { query, page } => {
                push_str(&mut a, "/search?title=");
                push_str(&mut a, query.as_str());
                push_str(&mut a, "&language=1&page=");
                let n = i64_decimal(*page as i64);
                append_chars(&mut a, &n);
            },
            Url::Filter { segments, page } => {
                if segments.as_str().is_empty() {
                    push_str(&mut a, "/manhua-list-p");
                } else {
                    push_str(&mut a, "/manhua-list-");
                    push_str(&mut a, segments.as_str());
                    push_str(&mut a, "-p");
                }
                let n = i64_decimal(*page as i64);
                append_chars(&mut a, &n);
                push_str(&mut a, "/");
            },
        }
        string_of(&a)
    }
}


/// The referer of an image request: the reader page of the chapter id that
/// follows `cid=` in the image address (up to the next `&`), or the site.
pub open spec fn image_referer_spec(url: Seq<char>) -> Seq<char> {
    match piece_after(url, "cid="@) {
        Some(p) => BASE_URL@ + "/m"@ + before_char(p, '&'),
        None => BASE_URL@,
    }
}

/// The referer of an image request (`get_image_request`).
pub fn image_referer(url: &str) -> (r: String)
    ensures
        r@ == image_referer_spec(url@),
{
    let mut a: Vec<char> = Vec::new();
    push_str(&mut a, BASE_URL);
    match piece_after_chars(&chars_of(url), &chars_of("cid=")) {
        Some(p) => {
            push_str(&mut a, "/m");
            let cid = before_char_chars(&p, '&');
            append_chars(&mut a, &cid);
        },
        None => {},
    }
    string_of(&a)
}

/// The link a site address opens: its first path segment names a title when
/// it starts with `m`; a second segment names a chapter of it.
pub open spec fn deep_link_spec(url: Seq<char>) -> Option<DeepLinkView> {
    let ps = nonempty_pieces(split_two(trim_start_seq(url, BASE_URL@), '/', '/'));
    if ps.len() >= 1 && starts_with(ps[0], seq!['m']) {
        if ps.len() == 1 {
            Some(DeepLinkView::Manga { key: ps[0] })
        } else {
            Some(DeepLinkView::Chapter { manga_key: ps[0], key: ps[1] })
        }
    } else {
        None
    }
}

/// The title or chapter that a site address opens (`handle_deep_link`).
pub fn handle_deep_link(url: &str) -> (r: Option<DeepLink>)
    ensures
        opt_link_view(r) == deep_link_spec(url@),
{
    let path = trim_start_seq_chars(&chars_of(url), &chars_of(BASE_URL));
    let ps = nonempty_split(&path, '/');
    let ghost v = ps@.map_values(|x: Vec<char>| x@);
    if ps.len() == 0 {
        return None;
    }
    assert(v[0] == ps@[0]@);
    let mut m: Vec<char> = Vec::new();
    m.push('m');
    assert(m@ =~= seq!['m']);
    if !has_prefix(&ps[0], &m) {
        return None;
    }
    if ps.len() == 1 {
        Some(DeepLink::Manga { key: string_of(&ps[0]) })
    } else {
        assert(v[1] == ps@[1]@);
        Some(DeepLink::Chapter { manga_key: string_of(&ps[0]), key: string_of(&ps[1]) })
    }
}

/// The status a detail page's status text gives.
pub open spec fn status_spec(text: Seq<char>) -> MangaStatus {
    if text == "连载中"@ {
        MangaStatus::Ongoing
    } else if text == "已完结"@ {
        MangaStatus::Completed
    } else {
        MangaStatus::Unknown
    }
}

/// The status a detail page's status text gives.
pub fn status_from_text(text: &str) -> (r: MangaStatus)
    ensures
        r == status_spec(text@),
{
    if str_eq(text, "连载中") {
        MangaStatus::Ongoing
    } else if str_eq(text, "已完结") {
        MangaStatus::Completed
    } else {
        MangaStatus::Unknown
    }
}

/// The last non-empty path segment of a link, which is a title's id.
pub open spec fn last_segment_spec(href: Seq<char>) -> Option<Seq<char>> {
    let ps = nonempty_pieces(split_two(href, '/', '/'));
    if ps.len() > 0 {
        Some(ps.last())
    } else {
        None
    }
}

/// The last non-empty path segment of a link (`split('/').rfind(..)`).
pub fn last_segment(href: &str) -> (r: Option<String>)
    ensures
        opt_view(r) == last_segment_spec(href@),
{
    let ps = nonempty_split(&chars_of(href), '/');
    let ghost v = ps@.map_values(|x: Vec<char>| x@);
    if ps.len() == 0 {
        None
    } else {
        let n = ps.len();
        assert(v[n - 1] == ps@[n - 1]@);
        Some(string_of(&ps[n - 1]))
    }
}

/// The cover address inside a `style` attribute: what follows `url(` up to
/// the next `)`.
pub open spec fn cover_from_style_spec(style: Seq<char>) -> Option<Seq<char>> {
    match piece_after(style, "url("@) {
        Some(p) => Some(before_char(p, ')')),
        None => None,
    }
}

/// The cover address inside a `style` attribute.
pub fn cover_from_style(style: &str) -> (r: Option<String>)
    ensures
        opt_view(r) == cover_from_style_spec(style@),
{
    match piece_after_chars(&chars_of(style), &chars_of("url(")) {
        Some(p) => Some(string_of(&before_char_chars(&p, ')'))),
        None => None,
    }
}

/// The value a reader script assigns to `var` (`var <name>=<value>;`),
/// without surrounding white space and quotes.
pub open spec fn extract_var_spec(script: Seq<char>, var: Seq<char>) -> Option<Seq<char>> {
    match piece_after(script, "var "@ + var + "="@) {
        Some(p) => Some(trim_char(trim(before_char(p, ';')), '"')),
        None => None,
    }
}

/// The value a reader script assigns to a variable (`extract_var`).
pub fn extract_var(script: &str, var: &str) -> (r: Option<String>)
    ensures
        opt_view(r) == extract_var_spec(script@, var@),
{
    let mut pat: Vec<char> = Vec::new();
    push_str(&mut pat, "var ");
    push_str(&mut pat, var);
    push_str(&mut pat, "=");
    match piece_after_chars(&chars_of(script), &pat) {
        Some(p) => {
            let v = before_char_chars(&p, ';');
            let t = trim_chars(&v);
            Some(string_of(&trim_char_chars(&t, '"')))
        },
        None => None,
    }
}

/// What a chapter's reader script gives for fetching its images.
pub struct ChapterScript {
    pub cid: String,
    pub mid: String,
    pub dt: String,
    pub sign: String,
    pub image_count: usize,
}

/// Why a chapter's images cannot be fetched.
#[derive(Debug, PartialEq, Eq, Structural)]
pub enum ScriptError {
    /// The chapter is not readable (paid or withdrawn): the script has no
    /// signature.
    NotAvailable,
    CidNotFound,
    MidNotFound,
    DtNotFound,
    SignNotFound,
    ImageCountNotFound,
}

/// What reading a reader script gives: no signature date, the chapter is not
/// available; then each variable in turn must be present, and the image
/// count must be a number.
pub open spec fn read_script_spec(script: Seq<char>) -> Result<(Seq<char>, Seq<char>, Seq<char>, Seq<char>, nat), ScriptError> {
    if !contains_seq(script, "DM5_VIEWSIGN_DT"@) {
        Err(ScriptError::NotAvailable)
    } else {
        match extract_var_spec(script, "DM5_CID"@) {
            None => Err(ScriptError::CidNotFound),
            Some(cid) => match extract_var_spec(script, "DM5_MID"@) {
                None => Err(ScriptError::MidNotFound),
                Some(mid) => match extract_var_spec(script, "DM5_VIEWSIGN_DT"@) {
                    None => Err(ScriptError::DtNotFound),
                    Some(dt) => match extract_var_spec(script, "DM5_VIEWSIGN"@) {
                        None => Err(ScriptError::SignNotFound),
                        Some(sign) => match extract_var_spec(script, "DM5_IMAGE_COUNT"@) {
                            Some(c) => match parse_usize_spec(c) {
                                Some(n) => Ok((cid, mid, dt, sign, n)),
                                None => Err(ScriptError::ImageCountNotFound),
                            },
                            None => Err(ScriptError::ImageCountNotFound),
                        },
                    },
                },
            },
        }
    }
}

/// Reads a chapter's reader script (`get_page_list`).
pub fn read_chapter_script(script: &str) -> (r: Result<ChapterScript, ScriptError>)
    ensures
        match r {
            Ok(c) => read_script_spec(script@) == Ok::<(Seq<char>, Seq<char>, Seq<char>, Seq<char>, nat), ScriptError>((c.cid@, c.mid@, c.dt@, c.sign@, c.image_count as nat)),
            Err(e) => read_script_spec(script@) == Err::<(Seq<char>, Seq<char>, Seq<char>, Seq<char>, nat), ScriptError>(e),
        },
{
    if find_chars(&chars_of(script), &chars_of("DM5_VIEWSIGN_DT")).is_none() {
        return Err(ScriptError::NotAvailable);
    }
    let cid = match extract_var(script, "DM5_CID") {
        Some(x) => x,
        None => return Err(ScriptError::CidNotFound),
    };
    let mid = match extract_var(script, "DM5_MID") {
        Some(x) => x,
        None => return Err(ScriptError::MidNotFound),
    };
    let dt = match extract_var(script, "DM5_VIEWSIGN_DT") {
        Some(x) => x,
        None => return Err(ScriptError::DtNotFound),
    };
    let sign = match extract_var(script, "DM5_VIEWSIGN") {
        Some(x) => x,
        None => return Err(ScriptError::SignNotFound),
    };
    let count = match extract_var(script, "DM5_IMAGE_COUNT") {
        Some(x) => x,
        None => return Err(ScriptError::ImageCountNotFound),
    };
    match parse_usize(&chars_of(count.as_str())) {
        Some(image_count) => Ok(ChapterScript { cid, mid, dt, sign, image_count }),
        None => Err(ScriptError::ImageCountNotFound),
    }
}

/// The reader page of a chapter without its query: what comes before the
/// first `?` of the chapter's address.
pub open spec fn reader_base_spec(chapter_key: Seq<char>) -> Seq<char> {
    before_char(BASE_URL@ + chapter_key, '?')
}

/// The reader page of a chapter without its query.
pub fn reader_base(chapter_key: &str) -> (r: String)
    ensures
        r@ == reader_base_spec(chapter_key@),
{
    let mut a: Vec<char> = Vec::new();
    push_str(&mut a, BASE_URL);
    push_str(&mut a, chapter_key);
    string_of(&before_char_chars(&a, '?'))
}

/// The address of the image script for images `page_num` and the next.
pub open spec fn image_script_url_spec(base: Seq<char>, c: (Seq<char>, Seq<char>, Seq<char>, Seq<char>), page_num: nat) -> Seq<char> {
    base + "/chapterfun.ashx?cid="@ + c.0 + "&page="@ + decimal(page_num)
        + "&key=&language=1&gtk=6&_cid="@ + c.0 + "&_mid="@ + c.1 + "&_dt="@ + c.2 + "&_sign="@
        + c.3
}

/// The address of the image script for images `page_num` and the next.
pub fn image_script_url(base: &str, script: &ChapterScript, page_num: u64) -> (r: String)
    ensures
        r@ == image_script_url_spec(base@, (script.cid@, script.mid@, script.dt@, script.sign@), page_num as nat),
{
    let mut a: Vec<char> = Vec::new();
    push_str(&mut a, base);
    push_str(&mut a, "/chapterfun.ashx?cid=");
    push_str(&mut a, script.cid.as_str());
    push_str(&mut a, "&page=");
    let n = u64_decimal(page_num);
    append_chars(&mut a, &n);
    push_str(&mut a, "&key=&language=1&gtk=6&_cid=");
    push_str(&mut a, script.cid.as_str());
    push_str(&mut a, "&_mid=");
    push_str(&mut a, script.mid.as_str());
    push_str(&mut a, "&_dt=");
    push_str(&mut a, script.dt.as_str());
    push_str(&mut a, "&_sign=");
    push_str(&mut a, script.sign.as_str());
    string_of(&a)
}

/// The entries of the array that an image script evaluates to, as text.
pub open spec fn script_entries(result: Seq<char>) -> Seq<Seq<char>> {
    split_two(trim_end_char(trim_start_seq(trim(result), seq!['[']), ']'), ',', ',')
}

/// An entry without white space and quotes.
pub open spec fn entry_url(entry: Seq<char>) -> Seq<char> {
    trim_char(trim(entry), '"')
}

/// The image addresses after the entries: each entry that is an `http`
/// address is added while fewer than `count` are known.
pub open spec fn collect_spec(pages: Seq<Seq<char>>, count: nat, entries: Seq<Seq<char>>) -> Seq<Seq<char>>
    decreases entries.len(),
{
    if entries.len() == 0 {
        pages
    } else {
        let p = collect_spec(pages, count, entries.drop_last());
        let u = entry_url(entries.last());
        if p.len() < count && starts_with(u, "http"@) {
            p.push(u)
        } else {
            p
        }
    }
}

/// Adds the image addresses that an image script evaluated to, up to
/// `image_count` in all.
pub fn collect_page_urls(pages: &mut Vec<String>, image_count: usize, result: &str)
    ensures
        string_views(final(pages)@) == collect_spec(
            string_views(old(pages)@),
            image_count as nat,
            script_entries(result@),
        ),
{
    let mut open_bracket: Vec<char> = Vec::new();
    open_bracket.push('[');
    assert(open_bracket@ =~= seq!['[']);
    let t = trim_chars(&chars_of(result));
    let t = trim_start_seq_chars(&t, &open_bracket);
    let t = trim_end_char_chars(&t, ']');
    let entries = split_two_chars(&t, ',', ',');
    let ghost es = entries@.map_values(|x: Vec<char>| x@);
    let ghost start = string_views(pages@);
    let http = chars_of("http");
    let mut i: usize = 0;
    assert(es.take(0) =~= Seq::<Seq<char>>::empty());
    while i < entries.len()
        invariant
            i <= entries@.len(),
            es == entries@.map_values(|x: Vec<char>| x@),
            es == script_entries(result@),
            http@ == "http"@,
            string_views(pages@) == collect_spec(start, image_count as nat, es.take(i as int)),
        decreases entries@.len() - i,
    {
        assert(es.take(i + 1).drop_last() =~= es.take(i as int));
        assert(es.take(i + 1).last() == entries@[i as int]@);
        let u = trim_char_chars(&trim_chars(&entries[i]), '"');
        if pages.len() < image_count && has_prefix(&u, &http) {
            let ghost before = pages@;
            pages.push(string_of(&u));
            assert(string_views(pages@) =~= string_views(before).push(u@));
        }
        i = i + 1;
    }
    assert(es.take(es.len() as int) =~= es);
}


/// Collecting image addresses only appends, and never goes past the image
/// count once it is reached.
pub proof fn law_collect_bounded(pages: Seq<Seq<char>>, count: nat, entries: Seq<Seq<char>>)
    ensures
        collect_spec(pages, count, entries).len() <= if pages.len() <= count { count } else { pages.len() },
        collect_spec(pages, count, entries).take(pages.len() as int) == pages,
        pages.len() <= collect_spec(pages, count, entries).len(),
    decreases entries.len(),
{
    if entries.len() > 0 {
        law_collect_bounded(pages, count, entries.drop_last());
        let p = collect_spec(pages, count, entries.drop_last());
        assert(p.push(entry_url(entries.last())).take(pages.len() as int) =~= p.take(pages.len() as int));
    }
}


/// The pattern that finds a chapter number.
pub open spec fn number_pattern() -> Seq<char> {
    "(?:第\\s*)(\\d+(?:\\.\\d+)?)|(\\d+(?:\\.\\d+)?)\\s*(?:话|話|章|回|卷|册|冊)"@
}

/// The text of a chapter title that may give its number; the app reads it
/// as a number (`extract_chapter_number`).
pub fn chapter_number_text(title: &str) -> (r: Option<String>)
    ensures
        opt_view(r) == crate::primitives::first_or_second(number_pattern(), title@),
{
    crate::primitives::first_or_second_group("(?:第\\s*)(\\d+(?:\\.\\d+)?)|(\\d+(?:\\.\\d+)?)\\s*(?:话|話|章|回|卷|册|冊)", title)
}

} // verus!
