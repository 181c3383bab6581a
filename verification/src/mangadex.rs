//! MangaDex: search queries from filters, listings, links into the site,
//! page and cover addresses, and the choices the home page makes.
use vstd::prelude::*;

use crate::model::{FilterValue, HomeKind};
use crate::primitives::{group_views, regex_captures, regex_captures_of, utc_iso_seconds, utc_iso_text};
use crate::text::{
    chars_of, contains_seq, find, find_chars, has_prefix, opt_view, parse_usize, parse_usize_spec,
    push_str, slice_chars, split_two, split_two_chars, pairs_view, push_pair, starts_with, str_eq,
    string_of, string_views,
};

verus! {

/// The API.
pub const API_URL: &'static str = "https://api.mangadex.org";

/// Where covers are served.
pub const COVER_URL: &'static str = "https://uploads.mangadex.org";

/// Entries per search page.
pub const PAGE_SIZE: i32 = 20;

/// The prefix of custom list listings.
pub const CUSTOM_LIST_PREFIX: &'static str = "list-";

// ---------------------------------------------------------------------------
// Search
// ---------------------------------------------------------------------------

/// The sort fields, by sort option index.
pub open spec fn sort_fields() -> Seq<&'static str> {
    seq!["latestUploadedChapter", "relevance", "followedCount", "createdAt", "updatedAt", "title"]
}

fn sort_table() -> (r: Vec<&'static str>)
    ensures
        r@ == sort_fields(),
{
    let r = vec!["latestUploadedChapter", "relevance", "followedCount", "createdAt", "updatedAt", "title"];
    assert(r@ =~= sort_fields());
    r
}

/// Why a search cannot be made.
#[derive(Debug, PartialEq, Eq, Structural)]
pub enum SearchError {
    /// A text filter other than author or artist.
    InvalidTextFilter,
    /// A sort option that does not exist.
    InvalidSortIndex,
    /// A setting that the search needs could not be read.
    MissingSetting,
}

/// The parameters so far, whether the default content ratings still apply,
/// and whether only titles with chapters are asked for.
pub type SearchState = (Seq<(Seq<char>, Seq<char>)>, bool, bool);

/// The parameters of the included (or excluded) options of a multi-select:
/// one per option, under `key`.
pub open spec fn option_params(key: Seq<char>, options: Seq<Seq<char>>) -> Seq<(Seq<char>, Seq<char>)> {
    options.map_values(|o: Seq<char>| (key, o))
}

/// The languages of the language options: each option may hold several,
/// separated by `,`.
pub open spec fn language_params(key: Seq<char>, options: Seq<Seq<char>>) -> Seq<(Seq<char>, Seq<char>)>
    decreases options.len(),
{
    if options.len() == 0 {
        Seq::empty()
    } else {
        language_params(key, options.drop_last()) + option_params(key, split_two(options.last(), ',', ','))
    }
}

/// What one filter does; `author_id` is the first id the author search found
/// for it, if it is an author filter.
pub open spec fn search_step(st: SearchState, f: FilterValue, author_id: Option<Seq<char>>) -> Result<SearchState, SearchError> {
    match f {
        FilterValue::Text { id, value } => if id@ == "author"@ || id@ == "artist"@ {
            match author_id {
                Some(a) => Ok((st.0.push(("authorOrArtist"@, a)), st.1, st.2)),
                None => Ok(st),
            }
        } else {
            Err(SearchError::InvalidTextFilter)
        },
        FilterValue::Sort { id, index, ascending } => if 0 <= index < 6 {
            Ok((st.0.push(("order["@ + sort_fields()[index as int]@ + "]"@, if ascending { "asc"@ } else { "desc"@ })), st.1, st.2))
        } else {
            Err(SearchError::InvalidSortIndex)
        },
        FilterValue::MultiSelect { id, included, excluded } => {
            let inc = string_views(included@);
            let exc = string_views(excluded@);
            if id@ == "lang"@ {
                Ok((st.0 + language_params("originalLanguage[]"@, inc) + language_params("excludedOriginalLanguage[]"@, exc), st.1, st.2))
            } else if id@ == "rating"@ {
                Ok((st.0 + option_params("contentRating[]"@, inc), false, st.2))
            } else if id@ == "status"@ {
                Ok((st.0 + option_params("status[]"@, inc), st.1, st.2))
            } else if id@ == "demographic"@ {
                Ok((st.0 + option_params("publicationDemographic[]"@, inc), st.1, st.2))
            } else {
                Ok((st.0 + option_params("includedTags[]"@, inc) + option_params("excludedTags[]"@, exc), st.1, st.2))
            }
        },
        FilterValue::Check { id, value } => if value == 0 {
            Ok((st.0, st.1, false))
        } else {
            Ok(st)
        },
        FilterValue::Select { id, value } => Ok((st.0.push((id@, value@)), st.1, st.2)),
        _ => Ok(st),
    }
}

/// The state after the filters, in order; the first error stops.
pub open spec fn search_fold(fs: Seq<FilterValue>, ids: Seq<Option<Seq<char>>>) -> Result<SearchState, SearchError>
    decreases fs.len(),
{
    if fs.len() == 0 {
        Ok((Seq::empty(), true, true))
    } else {
        match search_fold(fs.drop_last(), ids) {
            Err(e) => Err(e),
            Ok(st) => search_step(st, fs.last(), ids[fs.len() - 1]),
        }
    }
}

/// The parameters of a search: those of the filters; the title; the default
/// content ratings unless a rating filter was given; and, unless switched
/// off, only titles with chapters in the chosen languages.
pub open spec fn search_spec(
    query: Option<Seq<char>>,
    fs: Seq<FilterValue>,
    ids: Seq<Option<Seq<char>>>,
    ratings: Option<Seq<Seq<char>>>,
    languages: Option<Seq<Seq<char>>>,
) -> Result<Seq<(Seq<char>, Seq<char>)>, SearchError> {
    match search_fold(fs, ids) {
        Err(e) => Err(e),
        Ok((ps, use_default, has_chapters)) => {
            let with_title = match query {
                Some(q) => ps.push(("title"@, q)),
                None => ps,
            };
            if use_default && ratings is None {
                Err(SearchError::MissingSetting)
            } else {
                let with_ratings = if use_default { with_title + option_params("contentRating[]"@, ratings->0) } else { with_title };
                if has_chapters {
                    match languages {
                        None => Err(SearchError::MissingSetting),
                        Some(ls) => Ok(with_ratings.push(("hasAvailableChapters"@, "true"@)) + option_params("availableTranslatedLanguage[]"@, ls)),
                    }
                } else {
                    Ok(with_ratings)
                }
            }
        },
    }
}

fn push_options(ps: &mut Vec<(String, String)>, key: &str, options: &Vec<String>)
    ensures
        pairs_view(final(ps)@) == pairs_view(old(ps)@) + option_params(key@, string_views(options@)),
{
    let ghost start = pairs_view(ps@);
    let ghost vs = string_views(options@);
    let mut i: usize = 0;
    while i < options.len()
        invariant
            i <= options@.len(),
            vs == string_views(options@),
            pairs_view(ps@) == start + option_params(key@, vs.take(i as int)),
        decreases options@.len() - i,
    {
        push_pair(ps, key, options[i].as_str());
        assert(option_params(key@, vs.take(i + 1)) =~= option_params(key@, vs.take(i as int)).push((key@, vs[i as int])));
        i = i + 1;
    }
    assert(vs.take(vs.len() as int) =~= vs);
}

fn push_languages(ps: &mut Vec<(String, String)>, key: &str, options: &Vec<String>)
    ensures
        pairs_view(final(ps)@) == pairs_view(old(ps)@) + language_params(key@, string_views(options@)),
{
    let ghost start = pairs_view(ps@);
    let ghost vs = string_views(options@);
    let mut i: usize = 0;
    assert(vs.take(0) =~= Seq::<Seq<char>>::empty());
    assert(start + Seq::<(Seq<char>, Seq<char>)>::empty() =~= start);
    while i < options.len()
        invariant
            i <= options@.len(),
            vs == string_views(options@),
            pairs_view(ps@) == start + language_params(key@, vs.take(i as int)),
        decreases options@.len() - i,
    {
        assert(vs.take(i + 1).drop_last() =~= vs.take(i as int));
        assert(vs.take(i + 1).last() == options@[i as int]@);
        let parts = split_two_chars(&chars_of(options[i].as_str()), ',', ',');
        let ghost pv = parts@.map_values(|x: Vec<char>| x@);
        let ghost mid = pairs_view(ps@);
        let mut j: usize = 0;
        while j < parts.len()
            invariant
                j <= parts@.len(),
                pv == parts@.map_values(|x: Vec<char>| x@),
                pairs_view(ps@) == mid + option_params(key@, pv.take(j as int)),
            decreases parts@.len() - j,
        {
            let s = string_of(&parts[j]);
            push_pair(ps, key, s.as_str());
            assert(option_params(key@, pv.take(j + 1)) =~= option_params(key@, pv.take(j as int)).push((key@, pv[j as int])));
            j = j + 1;
        }
        assert(pv.take(pv.len() as int) =~= pv);
        assert(start + language_params(key@, vs.take(i + 1)) =~= mid + option_params(key@, pv));
        i = i + 1;
    }
    assert(vs.take(vs.len() as int) =~= vs);
}

proof fn lemma_search_err_stays(fs: Seq<FilterValue>, ids: Seq<Option<Seq<char>>>, i: int)
    requires
        0 <= i <= fs.len(),
        search_fold(fs.take(i), ids) is Err,
    ensures
        search_fold(fs, ids) == search_fold(fs.take(i), ids),
    decreases fs.len() - i,
{
    if i < fs.len() {
        assert(fs.take(i + 1).drop_last() =~= fs.take(i));
        lemma_search_err_stays(fs, ids, i + 1);
    } else {
        assert(fs.take(i) =~= fs);
    }
}

/// The search parameters that a query and the filters give
/// (`get_search_manga_list`). `author_ids[i]` is the first id that the
/// author search found for filter `i` when it is an author or artist filter;
/// `ratings` and `languages` are the settings, `None` when they could not be
/// read.
pub fn search_params(
    query: Option<&str>,
    filters: &[FilterValue],
    author_ids: &Vec<Option<String>>,
    ratings: Option<&Vec<String>>,
    languages: Option<&Vec<String>>,
) -> (r: Result<Vec<(String, String)>, SearchError>)
    requires
        author_ids@.len() == filters@.len(),
    ensures
        match r {
            Ok(ps) => search_spec(
                crate::text::opt_str_view(query),
                filters@,
                author_ids@.map_values(|a: Option<String>| opt_view(a)),
                match ratings { Some(v) => Some(string_views(v@)), None => None },
                match languages { Some(v) => Some(string_views(v@)), None => None },
            ) == Ok::<Seq<(Seq<char>, Seq<char>)>, SearchError>(pairs_view(ps@)),
            Err(e) => search_spec(
                crate::text::opt_str_view(query),
                filters@,
                author_ids@.map_values(|a: Option<String>| opt_view(a)),
                match ratings { Some(v) => Some(string_views(v@)), None => None },
                match languages { Some(v) => Some(string_views(v@)), None => None },
            ) == Err::<Seq<(Seq<char>, Seq<char>)>, SearchError>(e),
        },
{
    let ghost ids = author_ids@.map_values(|a: Option<String>| opt_view(a));
    let mut params: Vec<(String, String)> = Vec::new();
    let mut use_default = true;
    let mut has_chapters = true;
    let mut i: usize = 0;
    assert(filters@.take(0) =~= Seq::<FilterValue>::empty());
    assert(pairs_view(params@) =~= Seq::<(Seq<char>, Seq<char>)>::empty());
    while i < filters.len()
        invariant
            i <= filters@.len(),
            author_ids@.len() == filters@.len(),
            ids == author_ids@.map_values(|a: Option<String>| opt_view(a)),
            search_fold(filters@.take(i as int), ids) == Ok::<SearchState, SearchError>((pairs_view(params@), use_default, has_chapters)),
        decreases filters@.len() - i,
    {
        assert(filters@.take(i + 1).drop_last() =~= filters@.take(i as int));
        assert(filters@.take(i + 1).last() == filters@[i as int]);
        assert(filters@.take(i + 1).len() - 1 == i);
        match &filters[i] {
            FilterValue::Text { id, value } => {
                if str_eq(id.as_str(), "author") || str_eq(id.as_str(), "artist") {
                    if let Some(a) = &author_ids[i] {
                        push_pair(&mut params, "authorOrArtist", a.as_str());
                    }
                } else {
                    proof {
                        lemma_search_err_stays(filters@, ids, i + 1);
                    }
                    return Err(SearchError::InvalidTextFilter);
                }
            },
            FilterValue::Sort { id, index, ascending } => {
                if *index >= 0 && *index < 6 {
                    let t = sort_table();
                    let mut k: Vec<char> = Vec::new();
                    push_str(&mut k, "order[");
                    push_str(&mut k, t[*index as usize]);
                    push_str(&mut k, "]");
                    let key = string_of(&k);
                    push_pair(&mut params, key.as_str(), if *ascending { "asc" } else { "desc" });
                } else {
                    proof {
                        lemma_search_err_stays(filters@, ids, i + 1);
                    }
                    return Err(SearchError::InvalidSortIndex);
                }
            },
            FilterValue::MultiSelect { id, included, excluded } => {
                let id = id.as_str();
                if str_eq(id, "lang") {
                    push_languages(&mut params, "originalLanguage[]", included);
                    push_languages(&mut params, "excludedOriginalLanguage[]", excluded);
                } else if str_eq(id, "rating") {
                    use_default = false;
                    push_options(&mut params, "contentRating[]", included);
                } else if str_eq(id, "status") {
                    push_options(&mut params, "status[]", included);
                } else if str_eq(id, "demographic") {
                    push_options(&mut params, "publicationDemographic[]", included);
                } else {
                    push_options(&mut params, "includedTags[]", included);
                    push_options(&mut params, "excludedTags[]", excluded);
                }
            },
            FilterValue::Check { id, value } => {
                if *value == 0 {
                    has_chapters = false;
                }
            },
            FilterValue::Select { id, value } => {
                push_pair(&mut params, id.as_str(), value.as_str());
            },
            _ => {},
        }
        i = i + 1;
    }
    assert(filters@.take(filters@.len() as int) =~= filters@);
    if let Some(q) = query {
        push_pair(&mut params, "title", q);
    }
    if use_default {
        match ratings {
            None => return Err(SearchError::MissingSetting),
            Some(rs) => push_options(&mut params, "contentRating[]", rs),
        }
    }
    if has_chapters {
        match languages {
            None => return Err(SearchError::MissingSetting),
            Some(ls) => {
                push_pair(&mut params, "hasAvailableChapters", "true");
                push_options(&mut params, "availableTranslatedLanguage[]", ls);
            },
        }
    }
    Ok(params)
}

/// The offset of search page `page`.
pub fn search_offset(page: i32) -> (r: i32)
    requires
        i32::MIN <= (page - 1) * 20 <= i32::MAX,
    ensures
        r == (page - 1) * 20,
{
    (page - 1) * PAGE_SIZE
}

/// More results follow: the total is known and beyond this page.
pub fn has_next_page(offset: i32, total: Option<i32>) -> (r: bool)
    ensures
        r == (match total {
            Some(t) => offset + 20 < t,
            None => false,
        }),
{
    match total {
        Some(t) => (offset as i64) + 20 < (t as i64),
        None => false,
    }
}

// ---------------------------------------------------------------------------
// Listings and links
// ---------------------------------------------------------------------------

/// What a listing asks for.
pub enum ListingRequest {
    /// A search sorted by the sort option, newest first.
    Sorted { index: i32 },
    /// The titles of the latest chapters.
    Latest,
    /// The signed-in user's library.
    Library,
    /// A custom list, by list id.
    CustomList { id: String },
    /// A listing the source does not have.
    Unimplemented,
}

/// The request a listing makes (`get_manga_list`): recently added and popular
/// are searches sorted by creation and follows.
pub fn listing_request(id: &str) -> (r: ListingRequest)
    ensures
        if id@ == "recent"@ {
            r == (ListingRequest::Sorted { index: 3 })
        } else if id@ == "popular"@ {
            r == (ListingRequest::Sorted { index: 2 })
        } else if id@ == "latest"@ {
            r is Latest
        } else if id@ == "library"@ {
            r is Library
        } else if starts_with(id@, CUSTOM_LIST_PREFIX@) {
            r matches ListingRequest::CustomList { id: l } && l@ == id@.skip(CUSTOM_LIST_PREFIX@.len() as int)
        } else {
            r is Unimplemented
        },
{
    if str_eq(id, "recent") {
        ListingRequest::Sorted { index: 3 }
    } else if str_eq(id, "popular") {
        ListingRequest::Sorted { index: 2 }
    } else if str_eq(id, "latest") {
        ListingRequest::Latest
    } else if str_eq(id, "library") {
        ListingRequest::Library
    } else {
        let v = chars_of(id);
        let p = chars_of(CUSTOM_LIST_PREFIX);
        if has_prefix(&v, &p) {
            let n = v.len();
            let m = p.len();
            let rest = slice_chars(&v, m, n);
            assert(rest@ =~= id@.skip(CUSTOM_LIST_PREFIX@.len() as int));
            ListingRequest::CustomList { id: string_of(&rest) }
        } else {
            ListingRequest::Unimplemented
        }
    }
}

/// What a link into the site opens: a title, or a chapter whose title the
/// API is asked for.
pub enum DexLink {
    Manga { key: String },
    Chapter { key: String },
}

/// The text up to the first `/`.
pub open spec fn first_segment(s: Seq<char>) -> Seq<char> {
    let k = find(s, seq!['/']);
    if k < 0 {
        s
    } else {
        s.take(k)
    }
}

fn first_segment_chars(v: &[char]) -> (r: Vec<char>)
    ensures
        r@ == first_segment(v@),
{
    let mut slash: Vec<char> = Vec::new();
    slash.push('/');
    assert(slash@ =~= seq!['/']);
    let n = v.len();
    match find_chars(v, &slash) {
        None => slice_chars(v, 0, n),
        Some(k) => slice_chars(v, 0, k),
    }
}

/// What a site address opens: `title/<id>/...` a title, `chapter/<id>/...`
/// a chapter.
pub open spec fn deep_link_spec(url: Seq<char>) -> Option<(bool, Seq<char>)> {
    let base = "https://mangadex.org/"@;
    if !starts_with(url, base) {
        None
    } else {
        let path = url.skip(base.len() as int);
        if starts_with(path, "title/"@) {
            Some((true, first_segment(path.skip(6))))
        } else if starts_with(path, "chapter/"@) {
            Some((false, first_segment(path.skip(8))))
        } else {
            None
        }
    }
}

/// What a site address opens (`handle_deep_link`); for a chapter, the caller
/// asks the API for its title.
pub fn handle_deep_link(url: &str) -> (r: Option<DexLink>)
    ensures
        match r {
            Some(DexLink::Manga { key }) => deep_link_spec(url@) == Some((true, key@)),
            Some(DexLink::Chapter { key }) => deep_link_spec(url@) == Some((false, key@)),
            None => deep_link_spec(url@) is None,
        },
{
    let v = chars_of(url);
    let base = chars_of("https://mangadex.org/");
    if !has_prefix(&v, &base) {
        return None;
    }
    let n = v.len();
    let b = base.len();
    let path = slice_chars(&v, b, n);
    assert(path@ =~= url@.skip("https://mangadex.org/"@.len() as int));
    let pl = path.len();
    let title = chars_of("title/");
    let chapter = chars_of("chapter/");
    proof {
        reveal_strlit("title/");
        reveal_strlit("chapter/");
    }
    if has_prefix(&path, &title) {
        let rest = slice_chars(&path, 6, pl);
        assert(rest@ =~= path@.skip(6));
        Some(DexLink::Manga { key: string_of(&first_segment_chars(&rest)) })
    } else if has_prefix(&path, &chapter) {
        let rest = slice_chars(&path, 8, pl);
        assert(rest@ =~= path@.skip(8));
        Some(DexLink::Chapter { key: string_of(&first_segment_chars(&rest)) })
    } else {
        None
    }
}

/// The listings shown beside the fixed ones: the library when signed in.
pub fn dynamic_listings(logged_in: bool) -> (r: Vec<(String, String)>)
    ensures
        pairs_view(r@) == (if logged_in { seq![("library"@, "Library"@)] } else { Seq::empty() }),
{
    let mut v: Vec<(String, String)> = Vec::new();
    if logged_in {
        push_pair(&mut v, "library", "Library");
    }
    proof {
        if !logged_in {
            assert(pairs_view(v@) =~= Seq::<(Seq<char>, Seq<char>)>::empty());
        }
    }
    v
}

// ---------------------------------------------------------------------------
// Pages and covers
// ---------------------------------------------------------------------------

/// Why a chapter's pages cannot be listed.
#[derive(Debug, PartialEq, Eq, Structural)]
pub enum PagesError {
    /// The server sent no file list of the chosen quality.
    MissingChapterData,
}

/// The page addresses of a chapter from its image server's answer: the
/// server, `data-saver` or `data`, the chapter's hash, and each file of the
/// chosen quality.
pub fn page_urls(
    base_url: &str,
    hash: &str,
    data: Option<Vec<String>>,
    data_saver: Option<Vec<String>>,
    use_saver: bool,
) -> (r: Result<Vec<String>, PagesError>)
    ensures
        ({
            let files = if use_saver { data_saver } else { data };
            let prefix = base_url@ + "/"@ + (if use_saver { "data-saver"@ } else { "data"@ }) + "/"@ + hash@;
            match files {
                Some(f) => r matches Ok(v) && string_views(v@) == string_views(f@).map_values(|n: Seq<char>| prefix + "/"@ + n),
                None => r == Err::<Vec<String>, PagesError>(PagesError::MissingChapterData),
            }
        }),
{
    let files = if use_saver { data_saver } else { data };
    let mut prefix: Vec<char> = Vec::new();
    push_str(&mut prefix, base_url);
    push_str(&mut prefix, "/");
    push_str(&mut prefix, if use_saver { "data-saver" } else { "data" });
    push_str(&mut prefix, "/");
    push_str(&mut prefix, hash);
    match files {
        None => Err(PagesError::MissingChapterData),
        Some(f) => {
            let ghost fv = string_views(f@);
            let mut out: Vec<String> = Vec::new();
            let mut i: usize = 0;
            while i < f.len()
                invariant
                    i <= f@.len(),
                    fv == string_views(f@),
                    string_views(out@) == fv.take(i as int).map_values(|n: Seq<char>| prefix@ + "/"@ + n),
                decreases f@.len() - i,
            {
                let mut u = prefix.clone();
                assert(u@ == prefix@);
                push_str(&mut u, "/");
                push_str(&mut u, f[i].as_str());
                let ghost before = out@;
                let s = string_of(&u);
                out.push(s);
                assert(string_views(out@) =~= string_views(before).push(s@));
                assert(fv.take(i + 1) =~= fv.take(i as int).push(fv[i as int]));
                assert(fv.take(i + 1).map_values(|n: Seq<char>| prefix@ + "/"@ + n) =~= fv.take(i as int).map_values(|n: Seq<char>| prefix@ + "/"@ + n).push(prefix@ + "/"@ + fv[i as int]));
                i = i + 1;
            }
            assert(fv.take(fv.len() as int) =~= fv);
            Ok(out)
        },
    }
}

/// The locales a cover request adds: Japanese covers are always asked for.
pub fn cover_locales(locales: &str) -> (r: String)
    ensures
        r@ == locales@ + (if contains_seq(locales@, "locales[]=ja"@) { Seq::empty() } else { "&locales[]=ja"@ }),
{
    let v = chars_of(locales);
    let mut out = chars_of(locales);
    if find_chars(&v, &chars_of("locales[]=ja")).is_none() {
        push_str(&mut out, "&locales[]=ja");
    } else {
        assert(out@ + Seq::<char>::empty() =~= out@);
    }
    string_of(&out)
}

/// The address of a cover file, with the chosen quality suffix.
pub fn cover_url(manga_key: &str, file_name: &str, quality: &str) -> (r: String)
    ensures
        r@ == COVER_URL@ + "/covers/"@ + manga_key@ + "/"@ + file_name@ + quality@,
{
    let mut a: Vec<char> = Vec::new();
    push_str(&mut a, COVER_URL);
    push_str(&mut a, "/covers/");
    push_str(&mut a, manga_key);
    push_str(&mut a, "/");
    push_str(&mut a, file_name);
    push_str(&mut a, quality);
    string_of(&a)
}

/// The offsets of the further pages of a paged list: `step`, `2 * step`, ...,
/// while below the total.
pub open spec fn offsets_spec(total: int, step: int, k: nat) -> Seq<int>
    decreases k,
{
    if k == 0 {
        Seq::empty()
    } else {
        offsets_spec(total, step, (k - 1) as nat).push(step * k)
    }
}

/// The offsets of the further pages of a paged list (the chapter feed and
/// the covers are fetched in pages).
pub fn page_offsets(total: i32, step: i32) -> (r: Vec<i64>)
    requires
        step > 0,
    ensures
        forall|i: int| 0 <= i < r@.len() ==> #[trigger] r@[i] == step * (i + 1) && r@[i] < total,
        step * (r@.len() + 1) >= total,
{
    let mut out: Vec<i64> = Vec::new();
    let mut offset: i64 = step as i64;
    assert(offset == step * (out@.len() + 1)) by (nonlinear_arith)
        requires offset == step, out@.len() == 0;
    while offset < total as i64
        invariant
            step > 0,
            offset == step * (out@.len() + 1),
            offset <= i32::MAX as i64 + i32::MAX as i64,
            forall|i: int| 0 <= i < out@.len() ==> #[trigger] out@[i] == step * (i + 1) && out@[i] < total,
        decreases i32::MAX as i64 + i32::MAX as i64 - offset,
    {
        let ghost n = out@.len();
        out.push(offset);
        assert(out@[n as int] == step * (n + 1));
        let next = offset + step as i64;
        assert(next == step * (out@.len() + 1)) by (nonlinear_arith)
            requires next == offset + step, offset == step * (n + 1), out@.len() == n + 1;
        offset = next;
    }
    out
}

/// The positions of the chapters kept for the latest updates: each chapter
/// whose title is new among those kept, up to `limit`.
pub open spec fn first_per_title(ids: Seq<Option<Seq<char>>>, limit: nat) -> Seq<int>
    decreases ids.len(),
{
    if ids.len() == 0 {
        Seq::empty()
    } else {
        let p = first_per_title(ids.drop_last(), limit);
        let last = ids.len() - 1;
        match ids[last] {
            Some(id) => if p.len() < limit && !(exists|j: int| 0 <= j < p.len() && ids[p[j]] == Some(id)) {
                p.push(last)
            } else {
                p
            },
            None => p,
        }
    }
}

/// The chapters kept for the latest updates (one per title, at most
/// `limit`), by position.
pub fn first_chapter_per_title(ids: &Vec<Option<String>>, limit: usize) -> (r: Vec<usize>)
    ensures
        r@.map_values(|i: usize| i as int) == first_per_title(ids@.map_values(|a: Option<String>| opt_view(a)), limit as nat),
{
    let ghost all = ids@.map_values(|a: Option<String>| opt_view(a));
    let mut kept: Vec<usize> = Vec::new();
    let mut i: usize = 0;
    assert(all.take(0) =~= Seq::<Option<Seq<char>>>::empty());
    while i < ids.len()
        invariant
            i <= ids@.len(),
            all == ids@.map_values(|a: Option<String>| opt_view(a)),
            kept@.map_values(|k: usize| k as int) == first_per_title(all.take(i as int), limit as nat),
            forall|j: int| 0 <= j < kept@.len() ==> #[trigger] kept@[j] < i,
        decreases ids@.len() - i,
    {
        let ghost t = all.take(i + 1);
        assert(t.drop_last() =~= all.take(i as int));
        assert(t.len() - 1 == i);
        assert(t[i as int] == all[i as int]);
        let ghost kv = kept@.map_values(|k: usize| k as int);
        if let Some(id) = &ids[i] {
            if kept.len() < limit {
                let mut seen = false;
                let mut j: usize = 0;
                while j < kept.len()
                    invariant
                        j <= kept@.len(),
                        kv == kept@.map_values(|k: usize| k as int),
                        forall|q: int| 0 <= q < kept@.len() ==> #[trigger] kept@[q] < i,
                        all == ids@.map_values(|a: Option<String>| opt_view(a)),
                        i < ids@.len(),
                        all[i as int] == Some(id@),
                        seen == exists|q: int| 0 <= q < j && all[kv[q]] == Some(id@),
                    decreases kept@.len() - j,
                {
                    let k = kept[j];
                    assert(kv[j as int] == k as int);
                    let same = match &ids[k] {
                        Some(other) => *other == *id,
                        None => false,
                    };
                    assert(same == (all[k as int] == Some(id@)));
                    if same {
                        seen = true;
                    }
                    j = j + 1;
                }
                assert(forall|q: int| 0 <= q < kv.len() ==> all.take(i as int + 1)[kv[q]] == all[kv[q]]);
                if !seen {
                    kept.push(i);
                    assert(kept@.map_values(|k: usize| k as int) =~= kv.push(i as int));
                }
            }
        }
        i = i + 1;
    }
    assert(all.take(all.len() as int) =~= all);
    kept
}

/// The `ids[]` parameters of a list of titles.
pub open spec fn ids_params_spec(ids: Seq<Seq<char>>) -> Seq<char>
    decreases ids.len(),
{
    if ids.len() == 0 {
        Seq::empty()
    } else {
        ids_params_spec(ids.drop_last()) + "&ids[]="@ + ids.last()
    }
}

/// The `ids[]` parameters of a list of titles.
pub fn ids_params(ids: &Vec<String>) -> (r: String)
    ensures
        r@ == ids_params_spec(string_views(ids@)),
{
    let mut a: Vec<char> = Vec::new();
    let mut i: usize = 0;
    assert(string_views(ids@).take(0) =~= Seq::<Seq<char>>::empty());
    while i < ids.len()
        invariant
            i <= ids@.len(),
            a@ == ids_params_spec(string_views(ids@).take(i as int)),
        decreases ids@.len() - i,
    {
        assert(string_views(ids@).take(i + 1).drop_last() =~= string_views(ids@).take(i as int));
        assert(string_views(ids@).take(i + 1).last() == ids@[i as int]@);
        push_str(&mut a, "&ids[]=");
        push_str(&mut a, ids[i].as_str());
        i = i + 1;
    }
    assert(string_views(ids@).take(ids@.len() as int) =~= string_views(ids@));
    string_of(&a)
}

/// The pattern of the seasonal lists' names.
pub open spec fn seasonal_pattern() -> Seq<char> {
    "^Seasonal:\\s*(?P<season>Winter|Spring|Summer|Fall)\\s*(?P<year>\\d{4})$"@
}

/// The rank of a season within its year.
pub open spec fn season_rank(season: Seq<char>) -> u8 {
    let l = crate::text::lowercase(season);
    if l == "winter"@ {
        1
    } else if l == "spring"@ {
        2
    } else if l == "summer"@ {
        3
    } else if l == "fall"@ {
        4
    } else {
        0
    }
}

/// The year (if it reads as a `u16`) and season rank of a seasonal list's
/// name; none for another name.
pub open spec fn seasonal_key_spec(name: Seq<char>) -> Option<(Option<nat>, u8)> {
    match regex_captures_of(seasonal_pattern(), name) {
        Some(gs) => if gs.len() > 2 && gs[1] is Some && gs[2] is Some {
            let year = match parse_usize_spec(gs[2]->0) {
                Some(y) => if y <= u16::MAX { Some(y) } else { None },
                None => None,
            };
            Some((year, season_rank(gs[1]->0)))
        } else {
            None
        },
        None => None,
    }
}

/// The year and season rank of a seasonal list's name.
pub fn seasonal_key(name: &str) -> (r: Option<(Option<u16>, u8)>)
    ensures
        match r {
            Some((y, s)) => seasonal_key_spec(name@) == Some((match y { Some(v) => Some(v as nat), None => None }, s)),
            None => seasonal_key_spec(name@) is None,
        },
{
    let caps = regex_captures("^Seasonal:\\s*(?P<season>Winter|Spring|Summer|Fall)\\s*(?P<year>\\d{4})$", name);
    match caps {
        None => None,
        Some(gs) => {
            let ghost g = group_views(gs@);
            if gs.len() > 2 {
                assert(g[1] == opt_view(gs@[1]));
                assert(g[2] == opt_view(gs@[2]));
                match (&gs[1], &gs[2]) {
                    (Some(season), Some(year)) => {
                        let y = match parse_usize(&chars_of(year.as_str())) {
                            Some(v) => if v <= 65535 { Some(v as u16) } else { None },
                            None => None,
                        };
                        let l = crate::text::to_lowercase(season.as_str());
                        let l = l.as_str();
                        let rank: u8 = if str_eq(l, "winter") {
                            1
                        } else if str_eq(l, "spring") {
                            2
                        } else if str_eq(l, "summer") {
                            3
                        } else if str_eq(l, "fall") {
                            4
                        } else {
                            0
                        };
                        Some((y, rank))
                    },
                    _ => None,
                }
            } else {
                None
            }
        },
    }
}

/// `a` orders no higher than `b`: by year (an unreadable year lowest), then
/// by season.
pub open spec fn key_le(a: (Option<nat>, u8), b: (Option<nat>, u8)) -> bool {
    match (a.0, b.0) {
        (None, Some(_)) => true,
        (Some(_), None) => false,
        (Some(x), Some(y)) => x < y || (x == y && a.1 <= b.1),
        (None, None) => a.1 <= b.1,
    }
}

/// The seasonal list shown: the last of the lists with the greatest key
/// (`max_by` keeps the last of equal maxima).
pub open spec fn pick_spec(keys: Seq<Option<(Option<nat>, u8)>>) -> int
    decreases keys.len(),
{
    if keys.len() == 0 {
        -1
    } else {
        let p = pick_spec(keys.drop_last());
        match keys.last() {
            Some(k) => if p < 0 || key_le(keys[p]->0, k) {
                keys.len() - 1
            } else {
                p
            },
            None => p,
        }
    }
}

proof fn lemma_pick_range(keys: Seq<Option<(Option<nat>, u8)>>)
    ensures
        pick_spec(keys) == -1 || (0 <= pick_spec(keys) < keys.len() && keys[pick_spec(keys)] is Some),
    decreases keys.len(),
{
    if keys.len() > 0 {
        lemma_pick_range(keys.drop_last());
    }
}

fn le_keys(a: (Option<u16>, u8), b: (Option<u16>, u8)) -> (r: bool)
    ensures
        r == key_le((match a.0 { Some(v) => Some(v as nat), None => None }, a.1), (match b.0 { Some(v) => Some(v as nat), None => None }, b.1)),
{
    match (a.0, b.0) {
        (None, Some(_)) => true,
        (Some(_), None) => false,
        (Some(x), Some(y)) => x < y || (x == y && a.1 <= b.1),
        (None, None) => a.1 <= b.1,
    }
}

/// The keys of the lists' names.
pub open spec fn keys_of(names: Seq<String>) -> Seq<Option<(Option<nat>, u8)>> {
    names.map_values(|n: String| seasonal_key_spec(n@))
}

/// The position of the seasonal list to show among the lists' names, if any
/// is seasonal.
pub fn pick_seasonal(names: &Vec<String>) -> (r: Option<usize>)
    ensures
        match r {
            Some(i) => pick_spec(keys_of(names@)) == i as int,
            None => pick_spec(keys_of(names@)) == -1,
        },
{
    let ghost keys = keys_of(names@);
    let mut best: Option<(usize, (Option<u16>, u8))> = None;
    let mut i: usize = 0;
    assert(keys.take(0) =~= Seq::<Option<(Option<nat>, u8)>>::empty());
    while i < names.len()
        invariant
            i <= names@.len(),
            keys == keys_of(names@),
            match best {
                Some((b, k)) => pick_spec(keys.take(i as int)) == b as int && b < i
                    && keys[b as int] == Some((match k.0 { Some(v) => Some(v as nat), None => None }, k.1)),
                None => pick_spec(keys.take(i as int)) == -1,
            },
        decreases names@.len() - i,
    {
        let ghost t = keys.take(i + 1);
        assert(t.drop_last() =~= keys.take(i as int));
        assert(t.last() == keys[i as int]);
        proof {
            lemma_pick_range(keys.take(i as int));
        }
        match seasonal_key(names[i].as_str()) {
            Some(k) => {
                let take = match best {
                    None => true,
                    Some((b, bk)) => {
                        assert(t[b as int] == keys[b as int]);
                        le_keys(bk, k)
                    },
                };
                if take {
                    best = Some((i, k));
                }
            },
            None => {},
        }
        i = i + 1;
    }
    assert(keys.take(keys.len() as int) =~= keys);
    match best {
        Some((b, _)) => Some(b),
        None => None,
    }
}

/// The time a month before `now`, as the popular titles' `createdAtSince`
/// wants it: `now` less 2,630,000 seconds, in UTC.
pub fn created_at_since(now: i64) -> (r: Option<String>)
    requires
        now >= i64::MIN + 2630000,
    ensures
        opt_view(r) == utc_iso_text(now - 2630000),
{
    utc_iso_seconds(now - 2630000)
}

// ---------------------------------------------------------------------------
// The home page
// ---------------------------------------------------------------------------

/// The curated lists the home page shows: Self-Published, Staff Picks and
/// Featured by Supporters.
pub open spec fn custom_lists() -> Seq<&'static str> {
    seq![
        "f66ebc10-ef89-46d1-be96-bb704559e04a",
        "805ba886-dd99-4aa4-b460-4bd7c7b71352",
        "5c5e6e39-0b4b-413e-be59-27b1ba03d1b9",
    ]
}

/// The ids of the curated lists the home page shows.
pub fn custom_list_ids() -> (r: Vec<&'static str>)
    ensures
        r@ == custom_lists(),
{
    let r = vec![
        "f66ebc10-ef89-46d1-be96-bb704559e04a",
        "805ba886-dd99-4aa4-b460-4bd7c7b71352",
        "5c5e6e39-0b4b-413e-be59-27b1ba03d1b9",
    ];
    assert(r@ =~= custom_lists());
    r
}

/// The user whose lists hold the seasonal lists.
pub const SEASONAL_OWNER: &'static str = "d2ae45e0-b5e2-4e7f-a688-17925c2d7d6b";

/// Where a list is read.
pub fn list_url(id: &str) -> (r: String)
    ensures
        r@ == API_URL@ + "/list/"@ + id@,
{
    let mut a: Vec<char> = Vec::new();
    push_str(&mut a, API_URL);
    push_str(&mut a, "/list/");
    push_str(&mut a, id);
    string_of(&a)
}

/// Where the seasonal lists' owner's lists are read.
pub fn seasonal_lists_url() -> (r: String)
    ensures
        r@ == API_URL@ + "/user/"@ + SEASONAL_OWNER@ + "/list"@,
{
    let mut a: Vec<char> = Vec::new();
    push_str(&mut a, API_URL);
    push_str(&mut a, "/user/");
    push_str(&mut a, SEASONAL_OWNER);
    push_str(&mut a, "/list");
    string_of(&a)
}

/// The titles a list names: the ids of its relationships of type `manga`,
/// in order.
pub open spec fn list_manga_ids(rels: Seq<(Seq<char>, Seq<char>)>) -> Seq<Seq<char>>
    decreases rels.len(),
{
    if rels.len() == 0 {
        seq![]
    } else {
        list_manga_ids(rels.drop_last()) + if rels.last().0 == "manga"@ {
            seq![rels.last().1]
        } else {
            seq![]
        }
    }
}

/// The titles a list names; relationships are given as (type, id).
pub fn list_titles(rels: &Vec<(String, String)>) -> (r: Vec<String>)
    ensures
        string_views(r@) == list_manga_ids(pairs_view(rels@)),
{
    let ghost rv = pairs_view(rels@);
    let mut out: Vec<String> = Vec::new();
    let mut i: usize = 0;
    assert(rv.take(0) =~= Seq::<(Seq<char>, Seq<char>)>::empty());
    while i < rels.len()
        invariant
            i <= rels@.len(),
            rv == pairs_view(rels@),
            string_views(out@) == list_manga_ids(rv.take(i as int)),
        decreases rels@.len() - i,
    {
        assert(rv.take(i + 1).drop_last() =~= rv.take(i as int));
        assert(rv.take(i + 1).last() == rv[i as int]);
        let ghost before = string_views(out@);
        if str_eq(rels[i].0.as_str(), "manga") {
            out.push(string_of(&chars_of(rels[i].1.as_str())));
            assert(string_views(out@) =~= before + seq![rv[i as int].1]);
        } else {
            assert(string_views(out@) =~= before + Seq::<Seq<char>>::empty());
        }
        i = i + 1;
    }
    assert(rv.take(rv.len() as int) =~= rv);
    out
}

/// The sections the home page announces: popular new titles, latest
/// updates, each list by its name, and recently added titles.
pub open spec fn home_layout_spec(list_names: Seq<Seq<char>>) -> Seq<(Seq<char>, HomeKind)> {
    seq![("Popular New Titles"@, HomeKind::BigScroller), ("Latest Updates"@, HomeKind::MangaChapterList { page_size: None })]
        + list_names.map_values(|n: Seq<char>| (n, HomeKind::Scroller))
        + seq![("Recently Added"@, HomeKind::Scroller)]
}

/// The sections the home page announces first.
pub fn home_layout(list_names: &Vec<String>) -> (r: Vec<(String, HomeKind)>)
    ensures
        r@.map_values(|p: (String, HomeKind)| (p.0@, p.1)) == home_layout_spec(string_views(list_names@)),
{
    let mut out: Vec<(String, HomeKind)> = Vec::new();
    out.push((string_of(&chars_of("Popular New Titles")), HomeKind::BigScroller));
    out.push((string_of(&chars_of("Latest Updates")), HomeKind::MangaChapterList { page_size: None }));
    let ghost head = out@.map_values(|p: (String, HomeKind)| (p.0@, p.1));
    let ghost names = string_views(list_names@);
    let mut i: usize = 0;
    while i < list_names.len()
        invariant
            i <= list_names@.len(),
            names == string_views(list_names@),
            out@.map_values(|p: (String, HomeKind)| (p.0@, p.1)) == head + names.take(i as int).map_values(
                |n: Seq<char>| (n, HomeKind::Scroller),
            ),
        decreases list_names@.len() - i,
    {
        let ghost before = out@;
        out.push((string_of(&chars_of(list_names[i].as_str())), HomeKind::Scroller));
        assert(out@.map_values(|p: (String, HomeKind)| (p.0@, p.1)) =~= before.map_values(
            |p: (String, HomeKind)| (p.0@, p.1),
        ).push((names[i as int], HomeKind::Scroller)));
        assert(names.take(i + 1).map_values(|n: Seq<char>| (n, HomeKind::Scroller)) =~= names.take(i as int).map_values(
            |n: Seq<char>| (n, HomeKind::Scroller),
        ).push((names[i as int], HomeKind::Scroller)));
        i = i + 1;
    }
    assert(names.take(names.len() as int) =~= names);
    let ghost mid = out@;
    out.push((string_of(&chars_of("Recently Added")), HomeKind::Scroller));
    assert(out@.map_values(|p: (String, HomeKind)| (p.0@, p.1)) =~= mid.map_values(|p: (String, HomeKind)| (p.0@, p.1)).push(
        ("Recently Added"@, HomeKind::Scroller),
    ));
    assert(out@.map_values(|p: (String, HomeKind)| (p.0@, p.1)) =~= home_layout_spec(names));
    out
}

/// Where the popular new titles are read: most followed first, with
/// chapters, created since `since`, in the chosen ratings.
pub fn popular_url(since: &str, content_ratings: &str) -> (r: String)
    ensures
        r@ == API_URL@ + "/manga?includes[]=cover_art&includes[]=artist&includes[]=author&order[followedCount]=desc&hasAvailableChapters=true&createdAtSince="@
            + since@ + content_ratings@,
{
    let mut a: Vec<char> = Vec::new();
    push_str(&mut a, API_URL);
    push_str(&mut a, "/manga?includes[]=cover_art&includes[]=artist&includes[]=author&order[followedCount]=desc&hasAvailableChapters=true&createdAtSince=");
    push_str(&mut a, since);
    push_str(&mut a, content_ratings);
    string_of(&a)
}

/// Where the recently added titles are read: 15, newest first.
pub fn recent_url(content_ratings: &str) -> (r: String)
    ensures
        r@ == API_URL@ + "/manga?limit=15&order[createdAt]=desc&includes[]=cover_art"@ + content_ratings@,
{
    let mut a: Vec<char> = Vec::new();
    push_str(&mut a, API_URL);
    push_str(&mut a, "/manga?limit=15&order[createdAt]=desc&includes[]=cover_art");
    push_str(&mut a, content_ratings);
    string_of(&a)
}

/// Where the latest chapters are read: 15, most recently readable first,
/// in the chosen languages and ratings.
pub fn latest_chapters_url(languages: &str, content_ratings: &str) -> (r: String)
    ensures
        r@ == API_URL@ + "/chapter?includes[]=scanlation_group&limit=15&order[readableAt]=desc"@ + languages@
            + content_ratings@,
{
    let mut a: Vec<char> = Vec::new();
    push_str(&mut a, API_URL);
    push_str(&mut a, "/chapter?includes[]=scanlation_group&limit=15&order[readableAt]=desc");
    push_str(&mut a, languages);
    push_str(&mut a, content_ratings);
    string_of(&a)
}

/// Where the titles of the latest chapters are read, by id.
pub fn latest_titles_url(content_ratings: &str, ids: &str) -> (r: String)
    ensures
        r@ == API_URL@ + "/manga?includes[]=cover_art"@ + content_ratings@ + ids@,
{
    let mut a: Vec<char> = Vec::new();
    push_str(&mut a, API_URL);
    push_str(&mut a, "/manga?includes[]=cover_art");
    push_str(&mut a, content_ratings);
    push_str(&mut a, ids);
    string_of(&a)
}

/// Where a list's titles are read: up to 100, by id.
pub fn list_titles_url(content_ratings: &str, entries: &Vec<String>) -> (r: String)
    ensures
        r@ == API_URL@ + "/manga?limit=100&includes[]=cover_art"@ + content_ratings@ + "&ids[]="@
            + crate::text::join(string_views(entries@), "&ids[]="@),
{
    let mut a: Vec<char> = Vec::new();
    push_str(&mut a, API_URL);
    push_str(&mut a, "/manga?limit=100&includes[]=cover_art");
    push_str(&mut a, content_ratings);
    push_str(&mut a, "&ids[]=");
    let j = crate::text::join_strings(entries, "&ids[]=");
    push_str(&mut a, j.as_str());
    string_of(&a)
}

/// The listing a list's section opens.
pub fn list_listing_id(id: &str) -> (r: String)
    ensures
        r@ == CUSTOM_LIST_PREFIX@ + id@,
{
    let mut a: Vec<char> = Vec::new();
    push_str(&mut a, CUSTOM_LIST_PREFIX);
    push_str(&mut a, id);
    string_of(&a)
}

/// The first title with a key, among those read for the latest chapters.
pub fn find_title(keys: &Vec<String>, key: &str) -> (r: Option<usize>)
    ensures
        match r {
            Some(i) => i < keys@.len() && keys@[i as int]@ == key@ && forall|k: int| 0 <= k < i ==> #[trigger] keys@[k]@ != key@,
            None => forall|k: int| 0 <= k < keys@.len() ==> #[trigger] keys@[k]@ != key@,
        },
{
    let mut i: usize = 0;
    while i < keys.len()
        invariant
            i <= keys@.len(),
            forall|k: int| 0 <= k < i ==> #[trigger] keys@[k]@ != key@,
        decreases keys@.len() - i,
    {
        if str_eq(keys[i].as_str(), key) {
            return Some(i);
        }
        i = i + 1;
    }
    None
}

} // verus!
