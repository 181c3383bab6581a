//! MyReadingManga: paged listing URLs, title cleanup, language classes and
//! WordPress thumbnail names.
use vstd::prelude::*;

use crate::model::{ContentRating, FilterValue, MangaStatus, Viewer};
use crate::text::{
    append_chars, chars_eq, chars_of, encode_component_spec, encode_uri_component, find, find_chars, i64_decimal, int_decimal, lowercase,
    opt_view, rfind_char, rfind_char_chars, slice_chars, str_eq, string_of, string_views,
    to_lowercase, trim, trim_chars, trim_end_char, trim_end_char_chars,
};

verus! {

// ---------------------------------------------------------------------------
// Listing pages
// ---------------------------------------------------------------------------

/// The URL of page `page` of a listing at `base`: WordPress puts the page
/// before the query string.
pub open spec fn page_url_spec(base: Seq<char>, page: int) -> Seq<char> {
    if page <= 1 {
        base
    } else {
        let q = find(base, seq!['?']);
        if q >= 0 {
            trim_end_char(base.take(q), '/') + "/page/"@ + int_decimal(page) + "/?"@ + base.skip(q + 1)
        } else {
            trim_end_char(base, '/') + "/page/"@ + int_decimal(page) + "/"@
        }
    }
}

/// The URL of page `page` of the listing at `base`.
pub fn page_url(base: &str, page: i32) -> (r: String)
    ensures
        r@ == page_url_spec(base@, page as int),
{
    if page <= 1 {
        return string_of(&chars_of(base));
    }
    let b = chars_of(base);
    let qm = chars_of("?");
    assert(qm@ == seq!['?']) by {
        reveal_strlit("?");
    }
    let num = i64_decimal(page as i64);
    match find_chars(&b, &qm) {
        Some(q) => {
            let blen = b.len();
            assert(q + 1 <= blen);
            let path = slice_chars(&b, 0, q);
            let mut out = trim_end_char_chars(&path, '/');
            append_chars(&mut out, &chars_of("/page/"));
            append_chars(&mut out, &num);
            append_chars(&mut out, &chars_of("/?"));
            append_chars(&mut out, &slice_chars(&b, q + 1, b.len()));
            assert(b@.skip(q + 1) == b@.subrange(q + 1, b@.len() as int));
            string_of(&out)
        },
        None => {
            let mut out = trim_end_char_chars(&b, '/');
            append_chars(&mut out, &chars_of("/page/"));
            append_chars(&mut out, &num);
            append_chars(&mut out, &chars_of("/"));
            string_of(&out)
        },
    }
}

// ---------------------------------------------------------------------------
// Titles
// ---------------------------------------------------------------------------

/// A title without the bracketed tags that follow ` [`, trimmed.
pub open spec fn clean_title_spec(raw: Seq<char>) -> Seq<char> {
    let i = find(raw, " ["@);
    if i >= 0 {
        trim(raw.take(i))
    } else {
        trim(raw)
    }
}

/// Cleaning a title twice is cleaning it once: a cleaned title is trimmed
/// and holds no ` [`.
pub proof fn law_clean_title_idempotent(raw: Seq<char>)
    ensures
        clean_title_spec(clean_title_spec(raw)) == clean_title_spec(raw),
        trim(clean_title_spec(raw)) == clean_title_spec(raw),
        find(clean_title_spec(raw), " ["@) < 0,
{
    reveal_strlit(" [");
    let i = find(raw, " ["@);
    crate::text::lemma_find_from_spec(raw, " ["@, 0);
    let x = if i >= 0 { raw.take(i) } else { raw };
    let c = clean_title_spec(raw);
    assert(c == trim(x));
    crate::text::lemma_trim_shape(x);
    let (a, b) = choose|a: int, b: int| 0 <= a <= b <= x.len() && trim(x) == x.subrange(a, b);
    crate::text::lemma_find_from_spec(c, " ["@, 0);
    let k = find(c, " ["@);
    if k >= 0 {
        assert(crate::text::occurs_at(c, " ["@, k));
        assert(x.len() <= raw.len());
        assert forall|j: int| 0 <= j < x.len() implies x[j] == raw[j] by {}
        assert(c[k] == raw[a + k] && c[k + 1] == raw[a + k + 1]);
        assert(c.subrange(k, k + 2) =~= raw.subrange(a + k, a + k + 2));
        assert(crate::text::occurs_at(raw, " ["@, a + k));
        assert(false);
    }
}

/// Cuts a post title at the first ` [` and trims it.
pub fn clean_title(raw: &str) -> (r: String)
    ensures
        r@ == clean_title_spec(raw@),
{
    let v = chars_of(raw);
    match find_chars(&v, &chars_of(" [")) {
        Some(i) => string_of(&trim_chars(&slice_chars(&v, 0, i))),
        None => string_of(&trim_chars(&v)),
    }
}

// ---------------------------------------------------------------------------
// Languages
// ---------------------------------------------------------------------------

/// The site's CSS class for a (lower-cased, trimmed) language code.
pub open spec fn lang_class(t: Seq<char>) -> Option<Seq<char>> {
    if t == "en"@ {
        Some("english"@)
    } else if t == "ja"@ || t == "jp"@ {
        Some("jp"@)
    } else if t == "zh"@ || t == "cn"@ {
        Some("chinese"@)
    } else if t == "ko"@ || t == "kr"@ {
        Some("korean"@)
    } else if t == "es"@ {
        Some("spanish"@)
    } else if t == "fr"@ {
        Some("french"@)
    } else if t == "de"@ {
        Some("german"@)
    } else if t == "it"@ {
        Some("italian"@)
    } else if t == "pt"@ {
        Some("portuguese"@)
    } else {
        None
    }
}

/// The class for a user's language setting, if the site has one.
pub fn map_lang_to_class(lang: &str) -> (r: Option<&'static str>)
    ensures
        match r {
            Some(s) => lang_class(trim(lowercase(lang@))) == Some(s@),
            None => lang_class(trim(lowercase(lang@))) is None,
        },
{
    let lower = to_lowercase(lang);
    let t = trim_chars(&chars_of(lower.as_str()));
    if chars_eq(&t, &chars_of("en")) {
        Some("english")
    } else if chars_eq(&t, &chars_of("ja")) || chars_eq(&t, &chars_of("jp")) {
        Some("jp")
    } else if chars_eq(&t, &chars_of("zh")) || chars_eq(&t, &chars_of("cn")) {
        Some("chinese")
    } else if chars_eq(&t, &chars_of("ko")) || chars_eq(&t, &chars_of("kr")) {
        Some("korean")
    } else if chars_eq(&t, &chars_of("es")) {
        Some("spanish")
    } else if chars_eq(&t, &chars_of("fr")) {
        Some("french")
    } else if chars_eq(&t, &chars_of("de")) {
        Some("german")
    } else if chars_eq(&t, &chars_of("it")) {
        Some("italian")
    } else if chars_eq(&t, &chars_of("pt")) {
        Some("portuguese")
    } else {
        None
    }
}

/// The classes of the first `n` language settings, each once, in the order
/// in which they first appear.
pub open spec fn user_classes(langs: Seq<Seq<char>>, n: nat) -> Seq<Seq<char>>
    decreases n,
{
    if n == 0 {
        Seq::empty()
    } else {
        let prev = user_classes(langs, (n - 1) as nat);
        match lang_class(trim(lowercase(langs[n - 1]))) {
            Some(c) => if prev.contains(c) {
                prev
            } else {
                prev.push(c)
            },
            None => prev,
        }
    }
}

/// The views of a list of strings.
pub open spec fn views(v: Seq<String>) -> Seq<Seq<char>> {
    v.map_values(|s: String| s@)
}

fn contains_string(v: &Vec<String>, s: &str) -> (r: bool)
    ensures
        r == views(v@).contains(s@),
{
    let t = chars_of(s);
    let mut i: usize = 0;
    while i < v.len()
        invariant
            i <= v@.len(),
            t@ == s@,
            forall|k: int| 0 <= k < i ==> v@[k]@ != s@,
        decreases v@.len() - i,
    {
        if chars_eq(&chars_of(v[i].as_str()), &t) {
            assert(views(v@)[i as int] == s@);
            return true;
        }
        i = i + 1;
    }
    assert(!views(v@).contains(s@)) by {
        if views(v@).contains(s@) {
            let k = choose|k: int| 0 <= k < views(v@).len() && views(v@)[k] == s@;
            assert(v@[k]@ == s@);
        }
    }
    false
}

/// The site classes for the user's language settings, without repeats
/// (what `get_user_languages` computes from the stored setting).
pub fn user_language_classes(langs: &Vec<String>) -> (r: Vec<String>)
    ensures
        views(r@) == user_classes(views(langs@), langs@.len()),
{
    let mut slugs: Vec<String> = Vec::new();
    let mut i: usize = 0;
    while i < langs.len()
        invariant
            i <= langs@.len(),
            views(slugs@) == user_classes(views(langs@), i as nat),
        decreases langs@.len() - i,
    {
        assert(views(langs@)[i as int] == langs@[i as int]@);
        if let Some(slug) = map_lang_to_class(langs[i].as_str()) {
            if !contains_string(&slugs, slug) {
                let s = string_of(&chars_of(slug));
                let ghost before = slugs@;
                slugs.push(s);
                assert(views(slugs@) == views(before).push(s@));
            }
        }
        i = i + 1;
    }
    slugs
}

/// The language code for a language name shown on a post, or the name as it
/// is.
pub open spec fn lang_code_spec(name: Seq<char>) -> Seq<char> {
    let t = trim(lowercase(name));
    if t == "english"@ {
        "en"@
    } else if t == "japanese"@ {
        "ja"@
    } else if t == "chinese"@ {
        "zh"@
    } else if t == "korean"@ {
        "ko"@
    } else if t == "spanish"@ {
        "es"@
    } else if t == "french"@ {
        "fr"@
    } else if t == "german"@ {
        "de"@
    } else if t == "italian"@ {
        "it"@
    } else if t == "portuguese"@ {
        "pt"@
    } else {
        name
    }
}

/// Maps a language name to its code; unknown names pass through.
pub fn lang_display_to_code<'a>(name: &'a str) -> (r: &'a str)
    ensures
        r@ == lang_code_spec(name@),
{
    let lower = to_lowercase(name);
    let t = trim_chars(&chars_of(lower.as_str()));
    if chars_eq(&t, &chars_of("english")) {
        "en"
    } else if chars_eq(&t, &chars_of("japanese")) {
        "ja"
    } else if chars_eq(&t, &chars_of("chinese")) {
        "zh"
    } else if chars_eq(&t, &chars_of("korean")) {
        "ko"
    } else if chars_eq(&t, &chars_of("spanish")) {
        "es"
    } else if chars_eq(&t, &chars_of("french")) {
        "fr"
    } else if chars_eq(&t, &chars_of("german")) {
        "de"
    } else if chars_eq(&t, &chars_of("italian")) {
        "it"
    } else if chars_eq(&t, &chars_of("portuguese")) {
        "pt"
    } else {
        name
    }
}

// ---------------------------------------------------------------------------
// Thumbnails
// ---------------------------------------------------------------------------

/// `c` may stand in a `WIDTHxHEIGHT` size.
pub open spec fn is_dim_char(c: char) -> bool {
    ('0' <= c <= '9') || c == 'x'
}

/// A WordPress image name without its `-WIDTHxHEIGHT` size suffix.
pub open spec fn strip_thumbnail_spec(src: Seq<char>) -> Seq<char> {
    let d = rfind_char(src, '-');
    if d < 0 {
        src
    } else {
        let suffix = src.skip(d + 1);
        let dot = find(suffix, seq!['.']);
        if dot < 0 {
            src
        } else {
            let dims = suffix.take(dot);
            let ext = suffix.skip(dot + 1);
            if dims.contains('x') && (forall|i: int| 0 <= i < dims.len() ==> is_dim_char(#[trigger] dims[i])) {
                src.take(d) + seq!['.'] + ext
            } else {
                src
            }
        }
    }
}

/// Removes a thumbnail size suffix such as `-300x200` before the extension.
pub fn strip_thumbnail_size(src: String) -> (r: String)
    ensures
        r@ == strip_thumbnail_spec(src@),
{
    let v = chars_of(src.as_str());
    let d = match rfind_char_chars(&v, '-') {
        Some(d) => d,
        None => return src,
    };
    let vlen = v.len();
    assert(d < vlen);
    let suffix = slice_chars(&v, d + 1, v.len());
    assert(suffix@ == v@.skip(d + 1));
    let dotp = chars_of(".");
    assert(dotp@ == seq!['.']) by {
        reveal_strlit(".");
    }
    let dot = match find_chars(&suffix, &dotp) {
        Some(i) => i,
        None => return src,
    };
    let dims = slice_chars(&suffix, 0, dot);
    let mut has_x = false;
    let mut ok = true;
    let mut i: usize = 0;
    while i < dims.len()
        invariant
            i <= dims@.len(),
            has_x == (exists|k: int| 0 <= k < i && dims@[k] == 'x'),
            ok == (forall|k: int| 0 <= k < i ==> is_dim_char(#[trigger] dims@[k])),
        decreases dims@.len() - i,
    {
        let c = dims[i];
        if c == 'x' {
            has_x = true;
        }
        if !(('0' <= c && c <= '9') || c == 'x') {
            ok = false;
        }
        i = i + 1;
    }
    assert(has_x == dims@.contains('x'));
    assert(dims@ == suffix@.take(dot as int));
    if has_x && ok {
        let mut out = slice_chars(&v, 0, d);
        out.push('.');
        let ext = slice_chars(&suffix, dot + 1, suffix.len());
        assert(ext@ == suffix@.skip(dot + 1));
        append_chars(&mut out, &ext);
        string_of(&out)
    } else {
        src
    }
}

// ---------------------------------------------------------------------------
// Site, search and listings
// ---------------------------------------------------------------------------

/// The site.
pub const BASE_URL: &'static str = "https://myreadingmanga.info";

/// The site over plain HTTP, as some links still name it.
pub const HTTP_URL: &'static str = "http://myreadingmanga.info";

/// A query parameter: key, value, and whether the value is percent-encoded
/// as a URI component when it is written (others go in as they are).
pub open spec fn query_view(ps: Seq<(String, String, bool)>) -> Seq<(Seq<char>, Seq<char>, bool)> {
    ps.map_values(|p: (String, String, bool)| (p.0@, p.1@, p.2))
}

fn push_query(ps: &mut Vec<(String, String, bool)>, key: &str, value: &str, encode: bool)
    ensures
        query_view(final(ps)@) == query_view(old(ps)@).push((key@, value@, encode)),
{
    let ghost before = ps@;
    ps.push((string_of(&chars_of(key)), string_of(&chars_of(value)), encode));
    assert(query_view(ps@) =~= query_view(before).push((key@, value@, encode)));
}

/// The sort a sort option asks for: by date (ascending or not), relevance
/// or at random; by date otherwise.
pub open spec fn sort_spec(index: i32, ascending: bool) -> Seq<char> {
    if index == 0 {
        if ascending { "date_asc"@ } else { "date"@ }
    } else if index == 1 {
        "relevance"@
    } else if index == 2 {
        "rand"@
    } else {
        "date"@
    }
}

fn sort_str(index: i32, ascending: bool) -> (r: &'static str)
    ensures
        r@ == sort_spec(index, ascending),
{
    if index == 0 {
        if ascending { "date_asc" } else { "date" }
    } else if index == 1 {
        "relevance"
    } else if index == 2 {
        "rand"
    } else {
        "date"
    }
}

/// The search parameter a select filter sets.
pub open spec fn select_param(id: Seq<char>) -> Option<Seq<char>> {
    if id == "status"@ {
        Some("ep_filter_status"@)
    } else if id == "genre"@ {
        Some("ep_filter_genre"@)
    } else if id == "category"@ {
        Some("ep_filter_category"@)
    } else if id == "tag"@ {
        Some("ep_filter_post_tag"@)
    } else if id == "artist"@ {
        Some("ep_filter_artist"@)
    } else if id == "pairing"@ {
        Some("ep_filter_pairing"@)
    } else {
        None
    }
}

fn select_param_exec(id: &str) -> (r: Option<&'static str>)
    ensures
        match r {
            Some(s) => select_param(id@) == Some(s@),
            None => select_param(id@) is None,
        },
{
    if str_eq(id, "status") {
        Some("ep_filter_status")
    } else if str_eq(id, "genre") {
        Some("ep_filter_genre")
    } else if str_eq(id, "category") {
        Some("ep_filter_category")
    } else if str_eq(id, "tag") {
        Some("ep_filter_post_tag")
    } else if str_eq(id, "artist") {
        Some("ep_filter_artist")
    } else if str_eq(id, "pairing") {
        Some("ep_filter_pairing")
    } else {
        None
    }
}

/// The slug of a typed tag: trimmed, in lower case, spaces as `-`.
pub open spec fn tag_slug(value: Seq<char>) -> Seq<char> {
    crate::text::replace_char(lowercase(trim(value)), ' ', "-"@)
}

/// Where a search stands after some filters: its parameters and its sort.
pub open spec fn search_step(st: (Seq<(Seq<char>, Seq<char>, bool)>, Seq<char>), f: FilterValue) -> (Seq<(Seq<char>, Seq<char>, bool)>, Seq<char>) {
    let (ps, sort) = st;
    match f {
        FilterValue::Sort { index, ascending, .. } => (ps, sort_spec(index, ascending)),
        FilterValue::Select { id, value } => if value@.len() > 0 && select_param(id@) is Some {
            (ps.push((select_param(id@)->0, value@, false)), sort)
        } else {
            st
        },
        FilterValue::Text { id, value } => if id@ == "tag"@ && value@.len() > 0 {
            (ps.push(("ep_filter_post_tag"@, tag_slug(value@), true)), sort)
        } else {
            st
        },
        _ => st,
    }
}

/// The search after all filters, from a start.
pub open spec fn search_fold(st: (Seq<(Seq<char>, Seq<char>, bool)>, Seq<char>), fs: Seq<FilterValue>) -> (Seq<(Seq<char>, Seq<char>, bool)>, Seq<char>)
    decreases fs.len(),
{
    if fs.len() == 0 {
        st
    } else {
        search_step(search_fold(st, fs.drop_last()), fs.last())
    }
}

/// The query of a search: `s` (the query, encoded), the filters'
/// parameters, and the sort last.
pub open spec fn search_query_spec(query: Option<Seq<char>>, fs: Seq<FilterValue>) -> Seq<(Seq<char>, Seq<char>, bool)> {
    let q = match query {
        Some(q) => q,
        None => Seq::empty(),
    };
    let (ps, sort) = search_fold((seq![("s"@, q, true)], "date"@), fs);
    ps.push(("ep_sort"@, sort, false))
}

/// The query parameters of a search (`get_search_manga_list`), which
/// `search_url` writes.
pub fn search_query(query: Option<&str>, filters: &[FilterValue]) -> (r: Vec<(String, String, bool)>)
    ensures
        query_view(r@) == search_query_spec(crate::text::opt_str_view(query), filters@),
{
    proof {
        reveal_strlit("");
    }
    let mut ps: Vec<(String, String, bool)> = Vec::new();
    push_query(&mut ps, "s", match query {
        Some(q) => q,
        None => "",
    }, true);
    let ghost start = query_view(ps@);
    assert(""@ =~= Seq::<char>::empty());
    assert(start =~= seq![("s"@, match crate::text::opt_str_view(query) {
        Some(q) => q,
        None => Seq::<char>::empty(),
    }, true)]);
    let mut sort: &'static str = "date";
    let mut i: usize = 0;
    assert(filters@.take(0) =~= Seq::<FilterValue>::empty());
    while i < filters.len()
        invariant
            i <= filters@.len(),
            (query_view(ps@), sort@) == search_fold((start, "date"@), filters@.take(i as int)),
        decreases filters@.len() - i,
    {
        assert(filters@.take(i + 1).drop_last() =~= filters@.take(i as int));
        assert(filters@.take(i + 1).last() == filters@[i as int]);
        match &filters[i] {
            FilterValue::Sort { index, ascending, .. } => {
                sort = sort_str(*index, *ascending);
            },
            FilterValue::Select { id, value } => {
                if !value.as_str().is_empty() {
                    if let Some(p) = select_param_exec(id.as_str()) {
                        push_query(&mut ps, p, value.as_str(), false);
                    }
                }
            },
            FilterValue::Text { id, value } => {
                if str_eq(id.as_str(), "tag") && !value.as_str().is_empty() {
                    let t = string_of(&trim_chars(&chars_of(value.as_str())));
                    let l = to_lowercase(t.as_str());
                    let slug = string_of(&crate::text::replace_char_chars(&chars_of(l.as_str()), ' ', "-"));
                    push_query(&mut ps, "ep_filter_post_tag", slug.as_str(), true);
                }
            },
            _ => {},
        }
        i = i + 1;
    }
    assert(filters@.take(filters@.len() as int) =~= filters@);
    push_query(&mut ps, "ep_sort", sort, false);
    ps
}

/// Query parameters written after `?` and joined by `&`, each value marked
/// so percent-encoded as a URI component.
pub open spec fn query_text(ps: Seq<(Seq<char>, Seq<char>, bool)>) -> Seq<char>
    decreases ps.len(),
{
    if ps.len() == 0 {
        Seq::empty()
    } else {
        let p = ps.last();
        query_text(ps.drop_last()) + (if ps.len() == 1 { "?"@ } else { "&"@ }) + p.0 + "="@ + (if p.2 {
            encode_component_spec(p.1)
        } else {
            p.1
        })
    }
}

fn write_query(ps: &Vec<(String, String, bool)>) -> (r: Vec<char>)
    ensures
        r@ == query_text(query_view(ps@)),
{
    let ghost qv = query_view(ps@);
    let mut out: Vec<char> = Vec::new();
    let mut i: usize = 0;
    assert(qv.take(0) =~= Seq::<(Seq<char>, Seq<char>, bool)>::empty());
    while i < ps.len()
        invariant
            i <= ps@.len(),
            qv == query_view(ps@),
            out@ == query_text(qv.take(i as int)),
        decreases ps@.len() - i,
    {
        assert(qv.take(i + 1).drop_last() =~= qv.take(i as int));
        assert(qv.take(i + 1).last() == qv[i as int]);
        let ghost prev = out@;
        let sep = if i == 0 { "?" } else { "&" };
        append_chars(&mut out, &chars_of(sep));
        append_chars(&mut out, &chars_of(ps[i].0.as_str()));
        append_chars(&mut out, &chars_of("="));
        let v = if ps[i].2 {
            encode_uri_component(ps[i].1.as_str())
        } else {
            string_of(&chars_of(ps[i].1.as_str()))
        };
        append_chars(&mut out, &chars_of(v.as_str()));
        proof {
            reveal_strlit("?");
            reveal_strlit("&");
        }
        assert(out@ =~= prev + (if i + 1 == 1 { "?"@ } else { "&"@ }) + qv[i as int].0 + "="@ + (if qv[i as int].2 {
            encode_component_spec(qv[i as int].1)
        } else {
            qv[i as int].1
        }));
        i = i + 1;
    }
    assert(qv.take(qv.len() as int) =~= qv);
    out
}

/// The address of a search page: the site, the search's query parameters,
/// paged with `page_url`.
pub fn search_url(query: Option<&str>, filters: &[FilterValue], page: i32) -> (r: String)
    ensures
        r@ == page_url_spec(BASE_URL@ + query_text(search_query_spec(crate::text::opt_str_view(query), filters@)), page as int),
{
    let ps = search_query(query, filters);
    let mut base = chars_of(BASE_URL);
    append_chars(&mut base, &write_query(&ps));
    let b = string_of(&base);
    page_url(b.as_str(), page)
}

/// The address a listing pages from, by its name: Popular, Manga, Bara,
/// Random; any other lists the site's front page.
pub open spec fn listing_base_spec(name: Seq<char>) -> Seq<char> {
    if name == "Popular"@ {
        BASE_URL@ + "/popular"@
    } else if name == "Manga"@ {
        BASE_URL@ + "/yaoi-manga"@
    } else if name == "Bara"@ {
        BASE_URL@ + "/genre/bara"@
    } else if name == "Random"@ {
        BASE_URL@ + "/?ep_sort=rand&s="@
    } else {
        BASE_URL@
    }
}

/// The address a listing pages from (`get_manga_list`).
pub fn listing_base(name: &str) -> (r: String)
    ensures
        r@ == listing_base_spec(name@),
{
    let mut a: Vec<char> = Vec::new();
    crate::text::push_str(&mut a, BASE_URL);
    if str_eq(name, "Popular") {
        crate::text::push_str(&mut a, "/popular");
    } else if str_eq(name, "Manga") {
        crate::text::push_str(&mut a, "/yaoi-manga");
    } else if str_eq(name, "Bara") {
        crate::text::push_str(&mut a, "/genre/bara");
    } else if str_eq(name, "Random") {
        crate::text::push_str(&mut a, "/?ep_sort=rand&s=");
    }
    string_of(&a)
}

/// The key a link names: without the site (over HTTPS or HTTP, each as
/// often as it repeats) and without trailing slashes.
pub open spec fn link_key(href: Seq<char>) -> Seq<char> {
    trim_end_char(crate::text::trim_start_seq(crate::text::trim_start_seq(href, BASE_URL@), HTTP_URL@), '/')
}

/// The key a link names (a listing entry's or a chapter page's).
pub fn entry_key(href: &str) -> (r: String)
    ensures
        r@ == link_key(href@),
{
    let a = crate::text::trim_start_seq_chars(&chars_of(href), &chars_of(BASE_URL));
    let b = crate::text::trim_start_seq_chars(&a, &chars_of(HTTP_URL));
    string_of(&trim_end_char_chars(&b, '/'))
}

/// The title a link to the site opens: the link without the site and
/// without trailing slashes.
pub fn handle_deep_link(url: &str) -> (r: String)
    ensures
        r@ == trim_end_char(crate::text::trim_start_seq(url@, BASE_URL@), '/'),
{
    let a = crate::text::trim_start_seq_chars(&chars_of(url), &chars_of(BASE_URL));
    string_of(&trim_end_char_chars(&a, '/'))
}

/// The address of a title or chapter page.
pub fn entry_url(key: &str) -> (r: String)
    ensures
        r@ == BASE_URL@ + "/"@ + key@ + "/"@,
{
    let mut a: Vec<char> = Vec::new();
    crate::text::push_str(&mut a, BASE_URL);
    crate::text::push_str(&mut a, "/");
    crate::text::push_str(&mut a, key);
    crate::text::push_str(&mut a, "/");
    string_of(&a)
}

// ---------------------------------------------------------------------------
// Reading pages
// ---------------------------------------------------------------------------

/// What the listing reads of an article: its class, its title link's
/// address and text (no address when it has no title link).
pub struct ArticleInfo {
    pub class: Option<String>,
    pub href: Option<String>,
    pub text: String,
}

/// The class names some chosen language (`lang-...`).
pub open spec fn any_lang(class: Seq<char>, langs: Seq<Seq<char>>) -> bool
    decreases langs.len(),
{
    langs.len() > 0 && (any_lang(class, langs.drop_last()) || crate::text::contains_seq(class, "lang-"@ + langs.last()))
}

/// An article is listed unless its class marks a video, or names none of
/// the chosen languages when some are chosen.
pub open spec fn article_visible(class: Option<Seq<char>>, langs: Seq<Seq<char>>) -> bool {
    match class {
        None => true,
        Some(c) => !crate::text::contains_seq(c, "category-video"@) && (langs.len() == 0 || any_lang(c, langs)),
    }
}

/// The keys of listed entries.
pub open spec fn entry_keys(es: Seq<(Seq<char>, Seq<char>, int)>) -> Seq<Seq<char>> {
    es.map_values(|e: (Seq<char>, Seq<char>, int)| e.0)
}

/// The entries of a listing, in order: each visible article with a title
/// link to a non-empty key not listed before, as its key, cleaned title
/// and position (whose cover the app reads).
pub open spec fn listing_spec(arts: Seq<ArticleInfo>, langs: Seq<Seq<char>>) -> Seq<(Seq<char>, Seq<char>, int)>
    decreases arts.len(),
{
    if arts.len() == 0 {
        seq![]
    } else {
        let prev = listing_spec(arts.drop_last(), langs);
        let a = arts.last();
        if !article_visible(opt_view(a.class), langs) {
            prev
        } else {
            match a.href {
                None => prev,
                Some(h) => {
                    let key = link_key(h@);
                    if h@.len() == 0 || key.len() == 0 || entry_keys(prev).contains(key) {
                        prev
                    } else {
                        prev.push((key, clean_title_spec(a.text@), arts.len() - 1))
                    }
                },
            }
        }
    }
}

/// A listing page lists each title once, and only titles of articles it
/// shows: no key comes twice, and each entry comes from a visible article
/// at its position.
pub proof fn law_listing_keys_distinct(arts: Seq<ArticleInfo>, langs: Seq<Seq<char>>)
    ensures
        forall|i: int, j: int|
            0 <= i < j < listing_spec(arts, langs).len() ==> listing_spec(arts, langs)[i].0
                != listing_spec(arts, langs)[j].0,
        forall|i: int|
            0 <= i < listing_spec(arts, langs).len() ==> {
                let p = #[trigger] listing_spec(arts, langs)[i].2;
                0 <= p < arts.len() && article_visible(opt_view(arts[p].class), langs)
            },
    decreases arts.len(),
{
    if arts.len() > 0 {
        let init = arts.drop_last();
        law_listing_keys_distinct(init, langs);
        let prev = listing_spec(init, langs);
        let cur = listing_spec(arts, langs);
        assert forall|i: int| 0 <= i < prev.len() implies {
            let p = #[trigger] prev[i].2;
            0 <= p < arts.len() && article_visible(opt_view(arts[p].class), langs)
        } by {
            let p = prev[i].2;
            assert(arts[p] == init[p]);
        }
        if cur.len() > prev.len() {
            let key = cur[cur.len() - 1].0;
            assert(!entry_keys(prev).contains(key));
            assert forall|i: int| 0 <= i < prev.len() implies prev[i].0 != key by {
                assert(entry_keys(prev)[i] == prev[i].0);
            }
        }
    }
}

/// What listing entries hold.
pub open spec fn entries_view(es: Seq<(String, String, usize)>) -> Seq<(Seq<char>, Seq<char>, int)> {
    es.map_values(|e: (String, String, usize)| (e.0@, e.1@, e.2 as int))
}

fn any_lang_exec(class: &str, langs: &Vec<String>) -> (r: bool)
    ensures
        r == any_lang(class@, string_views(langs@)),
{
    let c = chars_of(class);
    let ghost ls = string_views(langs@);
    let mut found = false;
    let mut i: usize = 0;
    while i < langs.len()
        invariant
            i <= langs@.len(),
            ls == string_views(langs@),
            c@ == class@,
            found == any_lang(class@, ls.take(i as int)),
        decreases langs@.len() - i,
    {
        assert(ls.take(i + 1).drop_last() =~= ls.take(i as int));
        assert(ls.take(i + 1).last() == langs@[i as int]@);
        let mut p: Vec<char> = Vec::new();
        crate::text::push_str(&mut p, "lang-");
        crate::text::push_str(&mut p, langs[i].as_str());
        let hit = find_chars(&c, &p).is_some();
        found = found || hit;
        i = i + 1;
    }
    assert(ls.take(ls.len() as int) =~= ls);
    found
}

fn contains_key(es: &Vec<(String, String, usize)>, key: &Vec<char>) -> (r: bool)
    ensures
        r == entry_keys(entries_view(es@)).contains(key@),
{
    let ghost ks = entry_keys(entries_view(es@));
    let mut i: usize = 0;
    while i < es.len()
        invariant
            i <= es@.len(),
            ks == entry_keys(entries_view(es@)),
            forall|k: int| 0 <= k < i ==> ks[k] != key@,
        decreases es@.len() - i,
    {
        assert(ks[i as int] == es@[i as int].0@);
        if chars_eq(&chars_of(es[i].0.as_str()), key) {
            assert(ks[i as int] == key@);
            return true;
        }
        i = i + 1;
    }
    false
}

/// The entries of a listing page (`parse_listing`), given what each
/// article shows and the chosen language classes.
pub fn listing_entries(arts: &Vec<ArticleInfo>, langs: &Vec<String>) -> (r: Vec<(String, String, usize)>)
    ensures
        entries_view(r@) == listing_spec(arts@, string_views(langs@)),
{
    let ghost xs = arts@;
    let mut out: Vec<(String, String, usize)> = Vec::new();
    let mut i: usize = 0;
    assert(xs.take(0) =~= Seq::<ArticleInfo>::empty());
    while i < arts.len()
        invariant
            xs == arts@,
            i <= xs.len(),
            entries_view(out@) == listing_spec(xs.take(i as int), string_views(langs@)),
        decreases xs.len() - i,
    {
        assert(xs.take(i + 1).drop_last() =~= xs.take(i as int));
        assert(xs.take(i + 1).last() == xs[i as int]);
        let a = &arts[i];
        let visible = match &a.class {
            None => true,
            Some(c) => find_chars(&chars_of(c.as_str()), &chars_of("category-video")).is_none() && (langs.len() == 0
                || any_lang_exec(c.as_str(), langs)),
        };
        if visible {
            if let Some(h) = &a.href {
                let key = entry_key(h.as_str());
                let kc = chars_of(key.as_str());
                if !h.as_str().is_empty() && !key.as_str().is_empty() && !contains_key(&out, &kc) {
                    let ghost before = out@;
                    out.push((key, clean_title(a.text.as_str()), i));
                    assert(entries_view(out@) =~= entries_view(before).push((link_key(h@), clean_title_spec(a.text@), i as int)));
                }
            }
        }
        i = i + 1;
    }
    assert(xs.take(xs.len() as int) =~= xs);
    out
}

/// The cover a title page's schema names: the text after
/// `"thumbnailUrl":"` up to the next `"`, with `\/` read as `/`.
pub open spec fn schema_thumbnail_spec(json: Seq<char>) -> Option<Seq<char>> {
    let key = "\"thumbnailUrl\":\""@;
    let i = find(json, key);
    if i < 0 {
        None
    } else {
        let rest = json.skip(i + key.len());
        let j = find(rest, seq!['"']);
        if j < 0 {
            None
        } else {
            Some(crate::text::replace_all(rest.take(j), "\\/"@, "/"@))
        }
    }
}

/// The cover a title page's schema names, if any.
pub fn schema_thumbnail(json: &str) -> (r: Option<String>)
    ensures
        opt_view(r) == schema_thumbnail_spec(json@),
{
    let v = chars_of(json);
    let key = chars_of("\"thumbnailUrl\":\"");
    let i = match find_chars(&v, &key) {
        Some(i) => i,
        None => return None,
    };
    let n = v.len();
    assert(i + key@.len() <= n);
    let rest = slice_chars(&v, i + key.len(), n);
    assert(rest@ =~= json@.skip(i + key@.len()));
    let quote = vec!['"'];
    assert(quote@ =~= seq!['"']);
    let j = match find_chars(&rest, &quote) {
        Some(j) => j,
        None => return None,
    };
    let piece = slice_chars(&rest, 0, j);
    assert(piece@ =~= rest@.take(j as int));
    let from = chars_of("\\/");
    proof {
        reveal_strlit("\\/");
    }
    Some(string_of(&crate::text::replace_all_chars(&piece, &from, &chars_of("/"))))
}

/// The non-empty texts of a meta span's links, trimmed.
pub open spec fn link_texts(texts: Seq<Seq<char>>) -> Seq<Seq<char>>
    decreases texts.len(),
{
    if texts.len() == 0 {
        seq![]
    } else {
        link_texts(texts.drop_last()) + if trim(texts.last()).len() > 0 { seq![trim(texts.last())] } else { seq![] }
    }
}

/// `ts` with each of `more` not yet among them added, in order.
pub open spec fn add_new(ts: Seq<Seq<char>>, more: Seq<Seq<char>>) -> Seq<Seq<char>>
    decreases more.len(),
{
    if more.len() == 0 {
        ts
    } else {
        let t = add_new(ts, more.drop_last());
        if t.contains(more.last()) { t } else { t.push(more.last()) }
    }
}

/// What a title page's meta spans give, span by span: the first creator
/// span its authors; the first language span nothing; a genre span, or a
/// span of tags or categories, its tags, each once.
pub open spec fn meta_step(
    st: (Seq<Seq<char>>, Seq<Seq<char>>, bool, bool),
    label: Seq<char>,
    class: Seq<char>,
    links: Seq<Seq<char>>,
) -> (Seq<Seq<char>>, Seq<Seq<char>>, bool, bool) {
    let (authors, tags, seen_creator, seen_lang) = st;
    if crate::text::contains_seq(label, "Creator"@) && !seen_creator {
        (authors + links, tags, true, seen_lang)
    } else if crate::text::contains_seq(label, "Lang"@) && !seen_lang {
        (authors, tags, seen_creator, true)
    } else if crate::text::contains_seq(label, "Genre"@) || crate::text::contains_seq(class, "entry-tags"@)
        || crate::text::contains_seq(class, "entry-categories"@) {
        (authors, add_new(tags, links), seen_creator, seen_lang)
    } else {
        st
    }
}

/// A meta span: its label, its class and the texts of its links.
pub struct MetaSpan {
    pub label: String,
    pub class: String,
    pub links: Vec<String>,
}

/// The authors and tags after the spans.
pub open spec fn meta_fold(spans: Seq<MetaSpan>) -> (Seq<Seq<char>>, Seq<Seq<char>>, bool, bool)
    decreases spans.len(),
{
    if spans.len() == 0 {
        (seq![], seq![], false, false)
    } else {
        let s = spans.last();
        meta_step(meta_fold(spans.drop_last()), s.label@, s.class@, link_texts(string_views(s.links@)))
    }
}

fn link_texts_exec(texts: &Vec<String>) -> (r: Vec<String>)
    ensures
        string_views(r@) == link_texts(string_views(texts@)),
{
    let ghost tv = string_views(texts@);
    let mut out: Vec<String> = Vec::new();
    let mut i: usize = 0;
    assert(tv.take(0) =~= Seq::<Seq<char>>::empty());
    while i < texts.len()
        invariant
            i <= texts@.len(),
            tv == string_views(texts@),
            string_views(out@) == link_texts(tv.take(i as int)),
        decreases texts@.len() - i,
    {
        assert(tv.take(i + 1).drop_last() =~= tv.take(i as int));
        assert(tv.take(i + 1).last() == texts@[i as int]@);
        let t = trim_chars(&chars_of(texts[i].as_str()));
        let ghost before = string_views(out@);
        if t.len() > 0 {
            out.push(string_of(&t));
            assert(string_views(out@) =~= before + seq![trim(tv[i as int])]);
        } else {
            assert(string_views(out@) =~= before + Seq::<Seq<char>>::empty());
        }
        i = i + 1;
    }
    assert(tv.take(tv.len() as int) =~= tv);
    out
}

fn has_string(v: &Vec<String>, x: &str) -> (r: bool)
    ensures
        r == string_views(v@).contains(x@),
{
    let mut i: usize = 0;
    while i < v.len()
        invariant
            i <= v@.len(),
            forall|k: int| 0 <= k < i ==> v@[k]@ != x@,
        decreases v@.len() - i,
    {
        if str_eq(v[i].as_str(), x) {
            assert(string_views(v@)[i as int] == x@);
            return true;
        }
        i = i + 1;
    }
    assert forall|k: int| 0 <= k < string_views(v@).len() implies string_views(v@)[k] != x@ by {
        assert(string_views(v@)[k] == v@[k]@);
    }
    false
}

/// The authors and the tags of a title page (`parse_manga`).
pub fn meta_authors_tags(spans: &Vec<MetaSpan>) -> (r: (Vec<String>, Vec<String>))
    ensures
        (string_views(r.0@), string_views(r.1@)) == ({
            let (a, t, _, _) = meta_fold(spans@);
            (a, t)
        }),
{
    let ghost ss = spans@;
    let mut authors: Vec<String> = Vec::new();
    let mut tags: Vec<String> = Vec::new();
    let mut seen_creator = false;
    let mut seen_lang = false;
    let mut i: usize = 0;
    assert(ss.take(0) =~= Seq::<MetaSpan>::empty());
    assert(string_views(authors@) =~= Seq::<Seq<char>>::empty());
    assert(string_views(tags@) =~= Seq::<Seq<char>>::empty());
    while i < spans.len()
        invariant
            ss == spans@,
            i <= ss.len(),
            (string_views(authors@), string_views(tags@), seen_creator, seen_lang) == meta_fold(ss.take(i as int)),
        decreases ss.len() - i,
    {
        assert(ss.take(i + 1).drop_last() =~= ss.take(i as int));
        assert(ss.take(i + 1).last() == ss[i as int]);
        let sp = &spans[i];
        let links = link_texts_exec(&sp.links);
        let label = chars_of(sp.label.as_str());
        let class = chars_of(sp.class.as_str());
        if find_chars(&label, &chars_of("Creator")).is_some() && !seen_creator {
            let ghost before = string_views(authors@);
            let mut j: usize = 0;
            while j < links.len()
                invariant
                    j <= links@.len(),
                    string_views(authors@) == before + string_views(links@).take(j as int),
                decreases links@.len() - j,
            {
                let ghost b2 = authors@;
                authors.push(string_of(&chars_of(links[j].as_str())));
                assert(string_views(authors@) =~= string_views(b2).push(links@[j as int]@));
                assert(string_views(links@).take(j + 1) =~= string_views(links@).take(j as int).push(links@[j as int]@));
                j = j + 1;
            }
            assert(string_views(links@).take(links@.len() as int) =~= string_views(links@));
            seen_creator = true;
        } else if find_chars(&label, &chars_of("Lang")).is_some() && !seen_lang {
            seen_lang = true;
        } else if find_chars(&label, &chars_of("Genre")).is_some() || find_chars(&class, &chars_of("entry-tags")).is_some()
            || find_chars(&class, &chars_of("entry-categories")).is_some() {
            let ghost before = string_views(tags@);
            let ghost lv = string_views(links@);
            let mut j: usize = 0;
            assert(lv.take(0) =~= Seq::<Seq<char>>::empty());
            while j < links.len()
                invariant
                    j <= links@.len(),
                    lv == string_views(links@),
                    string_views(tags@) == add_new(before, lv.take(j as int)),
                decreases links@.len() - j,
            {
                assert(lv.take(j + 1).drop_last() =~= lv.take(j as int));
                assert(lv.take(j + 1).last() == links@[j as int]@);
                if !has_string(&tags, links[j].as_str()) {
                    let ghost b2 = tags@;
                    tags.push(string_of(&chars_of(links[j].as_str())));
                    assert(string_views(tags@) =~= string_views(b2).push(links@[j as int]@));
                }
                j = j + 1;
            }
            assert(lv.take(lv.len() as int) =~= lv);
        }
        i = i + 1;
    }
    assert(ss.take(ss.len() as int) =~= ss);
    (authors, tags)
}

/// The filter a sidebar widget makes, by its title in lower case.
pub open spec fn filter_id_spec(title: Seq<char>) -> Option<Seq<char>> {
    let t = lowercase(title);
    if t == "genre"@ {
        Some("genre"@)
    } else if t == "category"@ {
        Some("category"@)
    } else if t == "tag"@ {
        Some("tag"@)
    } else if t == "circle/ artist"@ {
        Some("artist"@)
    } else if t == "pairing"@ {
        Some("pairing"@)
    } else if t == "status"@ {
        Some("status"@)
    } else {
        None
    }
}

/// The filter a sidebar widget makes (`get_dynamic_filters`).
pub fn filter_id(title: &str) -> (r: Option<&'static str>)
    ensures
        match r {
            Some(s) => filter_id_spec(title@) == Some(s@),
            None => filter_id_spec(title@) is None,
        },
{
    let l = to_lowercase(title);
    let t = l.as_str();
    if str_eq(t, "genre") {
        Some("genre")
    } else if str_eq(t, "category") {
        Some("category")
    } else if str_eq(t, "tag") {
        Some("tag")
    } else if str_eq(t, "circle/ artist") {
        Some("artist")
    } else if str_eq(t, "pairing") {
        Some("pairing")
    } else if str_eq(t, "status") {
        Some("status")
    } else {
        None
    }
}

/// The options of a sidebar filter: `Any` (no value), then each term with a
/// name and a slug.
pub open spec fn filter_options_spec(terms: Seq<(Seq<char>, Seq<char>)>) -> Seq<(Seq<char>, Seq<char>)>
    decreases terms.len(),
{
    if terms.len() == 0 {
        seq![("Any"@, Seq::empty())]
    } else {
        let t = terms.last();
        filter_options_spec(terms.drop_last()) + if t.0.len() > 0 && t.1.len() > 0 { seq![t] } else { seq![] }
    }
}

/// The options (name, value) of a sidebar filter from its terms (name,
/// slug); the filter is offered only with more than `Any`.
pub fn filter_options(terms: &Vec<(String, String)>) -> (r: Vec<(String, String)>)
    ensures
        crate::text::pairs_view(r@) == filter_options_spec(crate::text::pairs_view(terms@)),
{
    let ghost tv = crate::text::pairs_view(terms@);
    let mut out: Vec<(String, String)> = Vec::new();
    proof {
        reveal_strlit("");
    }
    crate::text::push_pair(&mut out, "Any", "");
    assert(""@ =~= Seq::<char>::empty());
    assert(crate::text::pairs_view(out@) =~= seq![("Any"@, Seq::<char>::empty())]);
    let mut i: usize = 0;
    assert(tv.take(0) =~= Seq::<(Seq<char>, Seq<char>)>::empty());
    while i < terms.len()
        invariant
            i <= terms@.len(),
            tv == crate::text::pairs_view(terms@),
            crate::text::pairs_view(out@) == filter_options_spec(tv.take(i as int)),
        decreases terms@.len() - i,
    {
        assert(tv.take(i + 1).drop_last() =~= tv.take(i as int));
        assert(tv.take(i + 1).last() == tv[i as int]);
        let ghost before = crate::text::pairs_view(out@);
        if !terms[i].0.as_str().is_empty() && !terms[i].1.as_str().is_empty() {
            crate::text::push_pair(&mut out, terms[i].0.as_str(), terms[i].1.as_str());
            assert(crate::text::pairs_view(out@) =~= before + seq![tv[i as int]]);
        } else {
            assert(crate::text::pairs_view(out@) =~= before + Seq::<(Seq<char>, Seq<char>)>::empty());
        }
        i = i + 1;
    }
    assert(tv.take(tv.len() as int) =~= tv);
    out
}

// ---------------------------------------------------------------------------
// Title pages
// ---------------------------------------------------------------------------

/// What a title page sets on a title (`parse_manga`): a new title and a new
/// cover where it gives them, authors, artists and tags, and the fields
/// every title here has.
pub struct MangaDetails {
    pub title: Option<String>,
    pub cover: Option<String>,
    pub authors: Option<Vec<String>>,
    pub artists: Option<Vec<String>>,
    pub tags: Option<Vec<String>>,
    pub status: MangaStatus,
    pub content_rating: ContentRating,
    pub viewer: Viewer,
    pub url: String,
}

/// A list, unless it is empty.
pub open spec fn non_empty_list(l: Seq<Seq<char>>) -> Option<Seq<Seq<char>>> {
    if l.len() == 0 {
        None
    } else {
        Some(l)
    }
}

/// An optional list of strings.
pub open spec fn opt_strings(o: Option<Vec<String>>) -> Option<Seq<Seq<char>>> {
    match o {
        Some(v) => Some(string_views(v@)),
        None => None,
    }
}

/// The new title: the heading cleaned, when that leaves text.
pub open spec fn details_title(heading: Option<Seq<char>>) -> Option<Seq<char>> {
    match heading {
        Some(h) if clean_title_spec(h).len() > 0 => Some(clean_title_spec(h)),
        _ => None,
    }
}

/// The new cover, only for a title without one: the schema's thumbnail,
/// else the page's image, when that is not empty.
pub open spec fn details_cover(has_cover: bool, schema: Option<Seq<char>>, image: Option<Seq<char>>) -> Option<Seq<char>> {
    if has_cover {
        None
    } else {
        let thumb = match schema {
            Some(j) => schema_thumbnail_spec(j),
            None => None,
        };
        let c = if thumb is Some { thumb } else { image };
        match c {
            Some(t) if t.len() > 0 => Some(t),
            _ => None,
        }
    }
}

fn copy_strings(v: &Vec<String>) -> (r: Vec<String>)
    ensures
        string_views(r@) == string_views(v@),
{
    let mut out: Vec<String> = Vec::new();
    let mut i: usize = 0;
    while i < v.len()
        invariant
            i <= v@.len(),
            string_views(out@) == string_views(v@).take(i as int),
        decreases v@.len() - i,
    {
        let ghost prev = out@;
        let c = string_of(&chars_of(v[i].as_str()));
        out.push(c);
        assert(string_views(out@) =~= string_views(prev).push(c@));
        assert(string_views(v@).take(i + 1) =~= string_views(v@).take(i as int).push(v@[i as int]@));
        i = i + 1;
    }
    assert(string_views(v@).take(v@.len() as int) =~= string_views(v@));
    out
}

fn non_empty_strings(v: Vec<String>) -> (r: Option<Vec<String>>)
    ensures
        opt_strings(r) == non_empty_list(string_views(v@)),
{
    if v.len() == 0 {
        None
    } else {
        Some(v)
    }
}

/// What a title page sets on the title `key`: the heading's cleaned text,
/// a cover for a title without one (from the page's schema, else its
/// image), the authors (also its artists) and the tags of its meta spans,
/// and for every title here status Completed, rating NSFW, right-to-left
/// reading and its page address.
pub fn manga_details(
    key: &str,
    heading: Option<&str>,
    has_cover: bool,
    schema: Option<&str>,
    image: Option<&str>,
    spans: &Vec<MetaSpan>,
) -> (r: MangaDetails)
    ensures
        opt_view(r.title) == details_title(crate::text::opt_str_view(heading)),
        opt_view(r.cover) == details_cover(has_cover, crate::text::opt_str_view(schema), crate::text::opt_str_view(image)),
        opt_strings(r.authors) == non_empty_list(meta_fold(spans@).0),
        opt_strings(r.artists) == non_empty_list(meta_fold(spans@).0),
        opt_strings(r.tags) == non_empty_list(meta_fold(spans@).1),
        r.status == MangaStatus::Completed,
        r.content_rating == ContentRating::NSFW,
        r.viewer == Viewer::RightToLeft,
        r.url@ == BASE_URL@ + "/"@ + key@ + "/"@,
{
    let title = match heading {
        Some(h) => {
            let t = clean_title(h);
            if chars_of(t.as_str()).len() > 0 {
                Some(t)
            } else {
                None
            }
        },
        None => None,
    };
    let cover = if has_cover {
        None
    } else {
        let thumb = match schema {
            Some(j) => schema_thumbnail(j),
            None => None,
        };
        let c = match thumb {
            Some(t) => Some(t),
            None => match image {
                Some(i) => Some(string_of(&chars_of(i))),
                None => None,
            },
        };
        match c {
            Some(t) => {
                if chars_of(t.as_str()).len() > 0 {
                    Some(t)
                } else {
                    None
                }
            },
            None => None,
        }
    };
    let (authors, tags) = meta_authors_tags(spans);
    let artists = non_empty_strings(copy_strings(&authors));
    MangaDetails {
        title,
        cover,
        authors: non_empty_strings(authors),
        artists,
        tags: non_empty_strings(tags),
        status: MangaStatus::Completed,
        content_rating: ContentRating::NSFW,
        viewer: Viewer::RightToLeft,
        url: entry_url(key),
    }
}

} // verus!
