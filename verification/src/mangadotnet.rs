//! MangaDot: search and listing queries, the home sections, links into the
//! site, how a title and its chapters read, and which of several uploads of
//! a chapter is kept.
use vstd::prelude::*;
use vstd::string::StringSliceAdditionalSpecFns;
use vstd::utf8::*;

use crate::model::{ContentRating, FilterValue, MangaStatus, Viewer};
use crate::text::{
    append_chars, chars_of, i64_decimal, int_decimal, lowercase, opt_str_view, opt_view, pairs_view, push_pair,
    push_str, split_two, split_two_chars, str_eq, string_of, string_views, strip_prefix,
    strip_prefix_str, to_lowercase,
};

verus! {

/// The site.
pub const BASE_URL: &'static str = "https://mangadot.net";

// ---------------------------------------------------------------------------
// Search
// ---------------------------------------------------------------------------

/// Why a search cannot be asked.
#[derive(Debug, Clone, Copy, PartialEq, Eq, Structural)]
pub enum SearchError {
    /// A sort option the site does not have ("Invalid sort index").
    InvalidSort,
    /// A kind of filter the source does not offer ("Invalid filter").
    InvalidFilter,
}

/// The `sortBy` value of sort option `index`.
pub open spec fn sort_value(index: i32) -> Option<Seq<char>> {
    if index == 0 {
        Some("relevance"@)
    } else if index == 1 {
        Some("latest"@)
    } else if index == 2 {
        Some("alphabetical"@)
    } else if index == 3 {
        Some("chapters"@)
    } else if index == 4 {
        Some("views"@)
    } else if index == 5 {
        Some("tracked"@)
    } else if index == 6 {
        Some("rating"@)
    } else {
        None
    }
}

fn sort_value_exec(index: i32) -> (r: Option<&'static str>)
    ensures
        match r {
            Some(s) => sort_value(index) == Some(s@),
            None => sort_value(index) is None,
        },
{
    if index == 0 {
        Some("relevance")
    } else if index == 1 {
        Some("latest")
    } else if index == 2 {
        Some("alphabetical")
    } else if index == 3 {
        Some("chapters")
    } else if index == 4 {
        Some("views")
    } else if index == 5 {
        Some("tracked")
    } else if index == 6 {
        Some("rating")
    } else {
        None
    }
}

/// The parameters of a multi-select: each included option under the
/// filter's id; each excluded one as `-option` both as key and as value.
pub open spec fn multi_params(id: Seq<char>, included: Seq<Seq<char>>, excluded: Seq<Seq<char>>) -> Seq<(Seq<char>, Seq<char>)> {
    included.map_values(|s: Seq<char>| (id, s)) + excluded.map_values(|s: Seq<char>| ("-"@ + s, "-"@ + s))
}

/// The parameters one filter adds, or why it cannot be asked.
pub open spec fn filter_params(f: FilterValue) -> Result<Seq<(Seq<char>, Seq<char>)>, SearchError> {
    match f {
        FilterValue::Text { id, value } => Ok(seq![(id@, value@)]),
        FilterValue::Sort { index, ascending, .. } => match sort_value(index) {
            Some(v) => Ok(seq![("sortBy"@, v), ("sortOrder"@, if ascending { "asc"@ } else { "desc"@ })]),
            None => Err(SearchError::InvalidSort),
        },
        FilterValue::Select { id, value } => Ok(seq![(id@, value@)]),
        FilterValue::MultiSelect { id, included, excluded } => Ok(
            multi_params(id@, string_views(included@), string_views(excluded@)),
        ),
        _ => Err(SearchError::InvalidFilter),
    }
}

/// The parameters the filters add, in order, or the first filter's error.
pub open spec fn filters_params(fs: Seq<FilterValue>) -> Result<Seq<(Seq<char>, Seq<char>)>, SearchError>
    decreases fs.len(),
{
    if fs.len() == 0 {
        Ok(seq![])
    } else {
        match filters_params(fs.drop_last()) {
            Err(e) => Err(e),
            Ok(p) => match filter_params(fs.last()) {
                Err(e) => Err(e),
                Ok(q) => Ok(p + q),
            },
        }
    }
}

/// The parameters of a search: the query as `search` when there is one, the
/// page, the filters', `adult=both` unless adult titles are hidden, and the
/// route of the search page.
pub open spec fn search_params_spec(
    query: Option<Seq<char>>,
    page: i32,
    fs: Seq<FilterValue>,
    hide_nsfw: bool,
) -> Result<Seq<(Seq<char>, Seq<char>)>, SearchError> {
    match filters_params(fs) {
        Err(e) => Err(e),
        Ok(p) => Ok(
            (match query {
                Some(q) => seq![("search"@, q)],
                None => seq![],
            }) + seq![("page"@, int_decimal(page as int))] + p + (if hide_nsfw {
                seq![]
            } else {
                seq![("adult"@, "both"@)]
            }) + seq![("_routes"@, "pages/SearchPage"@)],
        ),
    }
}

fn push_multi(ps: &mut Vec<(String, String)>, id: &str, included: &Vec<String>, excluded: &Vec<String>)
    ensures
        pairs_view(final(ps)@) == pairs_view(old(ps)@) + multi_params(id@, string_views(included@), string_views(excluded@)),
{
    let ghost start = pairs_view(ps@);
    let ghost inc = string_views(included@);
    let ghost exc = string_views(excluded@);
    let mut i: usize = 0;
    while i < included.len()
        invariant
            i <= included@.len(),
            inc == string_views(included@),
            pairs_view(ps@) == start + inc.take(i as int).map_values(|s: Seq<char>| (id@, s)),
        decreases included@.len() - i,
    {
        push_pair(ps, id, included[i].as_str());
        assert(inc.take(i + 1).map_values(|s: Seq<char>| (id@, s)) =~= inc.take(i as int).map_values(|s: Seq<char>| (id@, s)).push((id@, inc[i as int])));
        i = i + 1;
    }
    assert(inc.take(inc.len() as int) =~= inc);
    let ghost mid = pairs_view(ps@);
    let mut j: usize = 0;
    while j < excluded.len()
        invariant
            j <= excluded@.len(),
            exc == string_views(excluded@),
            pairs_view(ps@) == mid + exc.take(j as int).map_values(|s: Seq<char>| ("-"@ + s, "-"@ + s)),
        decreases excluded@.len() - j,
    {
        let mut k: Vec<char> = Vec::new();
        push_str(&mut k, "-");
        push_str(&mut k, excluded[j].as_str());
        let key = string_of(&k);
        push_pair(ps, key.as_str(), key.as_str());
        assert(exc.take(j + 1).map_values(|s: Seq<char>| ("-"@ + s, "-"@ + s)) =~= exc.take(j as int).map_values(
            |s: Seq<char>| ("-"@ + s, "-"@ + s),
        ).push(("-"@ + exc[j as int], "-"@ + exc[j as int])));
        j = j + 1;
    }
    assert(exc.take(exc.len() as int) =~= exc);
    assert(pairs_view(ps@) =~= start + multi_params(id@, inc, exc));
}

proof fn lemma_filters_err_prefix(fs: Seq<FilterValue>, i: int)
    requires
        0 <= i <= fs.len(),
        filters_params(fs.take(i)) is Err,
    ensures
        filters_params(fs) == filters_params(fs.take(i)),
    decreases fs.len() - i,
{
    if i < fs.len() {
        assert(fs.take(i + 1).drop_last() =~= fs.take(i));
        lemma_filters_err_prefix(fs, i + 1);
    } else {
        assert(fs.take(i) =~= fs);
    }
}

/// The query parameters of a search page (`get_search_manga_list`), which
/// `text::query_string` writes percent-encoded.
pub fn search_params(query: Option<&str>, page: i32, filters: &[FilterValue], hide_nsfw: bool) -> (r: Result<Vec<(String, String)>, SearchError>)
    ensures
        match r {
            Ok(ps) => search_params_spec(opt_str_view(query), page, filters@, hide_nsfw) == Ok::<Seq<(Seq<char>, Seq<char>)>, SearchError>(pairs_view(ps@)),
            Err(e) => search_params_spec(opt_str_view(query), page, filters@, hide_nsfw) == Err::<Seq<(Seq<char>, Seq<char>)>, SearchError>(e),
        },
{
    let mut ps: Vec<(String, String)> = Vec::new();
    if let Some(q) = query {
        push_pair(&mut ps, "search", q);
    }
    let p = string_of(&i64_decimal(page as i64));
    push_pair(&mut ps, "page", p.as_str());
    let ghost head = pairs_view(ps@);
    let mut i: usize = 0;
    assert(filters@.take(0) =~= Seq::<FilterValue>::empty());
    assert(pairs_view(ps@).skip(head.len() as int) =~= Seq::<(Seq<char>, Seq<char>)>::empty());
    assert(pairs_view(ps@).take(head.len() as int) =~= head);
    while i < filters.len()
        invariant
            i <= filters@.len(),
            filters_params(filters@.take(i as int)) == Ok::<Seq<(Seq<char>, Seq<char>)>, SearchError>(
                pairs_view(ps@).skip(head.len() as int),
            ),
            pairs_view(ps@).take(head.len() as int) == head,
            head.len() <= pairs_view(ps@).len(),
            head == (match opt_str_view(query) {
                Some(q) => seq![("search"@, q)],
                None => Seq::<(Seq<char>, Seq<char>)>::empty(),
            }) + seq![("page"@, int_decimal(page as int))],
        decreases filters@.len() - i,
    {
        assert(filters@.take(i + 1).drop_last() =~= filters@.take(i as int));
        assert(filters@.take(i + 1).last() == filters@[i as int]);
        let ghost before = pairs_view(ps@);
        let ghost mut added: Seq<(Seq<char>, Seq<char>)> = Seq::empty();
        match &filters[i] {
            FilterValue::Text { id, value } => {
                push_pair(&mut ps, id.as_str(), value.as_str());
                proof {
                    added = seq![(id@, value@)];
                }
            },
            FilterValue::Sort { index, ascending, .. } => {
                match sort_value_exec(*index) {
                    Some(v) => {
                        push_pair(&mut ps, "sortBy", v);
                        let o = if *ascending { "asc" } else { "desc" };
                        push_pair(&mut ps, "sortOrder", o);
                        proof {
                            added = seq![("sortBy"@, v@), ("sortOrder"@, o@)];
                        }
                    },
                    None => {
                        proof {
                            lemma_filters_err_prefix(filters@, i + 1);
                        }
                        return Err(SearchError::InvalidSort);
                    },
                }
            },
            FilterValue::Select { id, value } => {
                push_pair(&mut ps, id.as_str(), value.as_str());
                proof {
                    added = seq![(id@, value@)];
                }
            },
            FilterValue::MultiSelect { id, included, excluded } => {
                push_multi(&mut ps, id.as_str(), included, excluded);
                proof {
                    added = multi_params(id@, string_views(included@), string_views(excluded@));
                }
            },
            _ => {
                proof {
                    lemma_filters_err_prefix(filters@, i + 1);
                }
                return Err(SearchError::InvalidFilter);
            },
        }
        proof {
            assert(pairs_view(ps@) =~= before + added);
            assert(filter_params(filters@[i as int]) == Ok::<Seq<(Seq<char>, Seq<char>)>, SearchError>(added));
            assert(pairs_view(ps@).skip(head.len() as int) =~= before.skip(head.len() as int) + added);
            assert(pairs_view(ps@).take(head.len() as int) =~= before.take(head.len() as int));
        }
        i = i + 1;
    }
    assert(filters@.take(filters@.len() as int) =~= filters@);
    let ghost fp = pairs_view(ps@).skip(head.len() as int);
    if !hide_nsfw {
        push_pair(&mut ps, "adult", "both");
    }
    push_pair(&mut ps, "_routes", "pages/SearchPage");
    assert(pairs_view(ps@) =~= head + fp + (if hide_nsfw {
        Seq::<(Seq<char>, Seq<char>)>::empty()
    } else {
        seq![("adult"@, "both"@)]
    }) + seq![("_routes"@, "pages/SearchPage"@)]);
    Ok(ps)
}

/// A search or listing has a next page when its page is before the last.
pub fn has_next_page(pagination: Option<(i32, i32)>) -> (r: bool)
    ensures
        r == match pagination {
            Some((current, total)) => current < total,
            None => false,
        },
{
    match pagination {
        Some((current, total)) => current < total,
        None => false,
    }
}

// ---------------------------------------------------------------------------
// Listings and the home page
// ---------------------------------------------------------------------------

/// The listings of the site.
#[derive(Debug, Clone, Copy, PartialEq, Eq, Structural)]
pub enum DotListing {
    LatestUpdates,
    RecentlyAdded,
    MostTracked,
    TopRated,
}

/// The listing with an id (`latest_updates`, `recently_added`,
/// `most_tracked`, `top_rated`); any other id is invalid.
pub open spec fn listing_spec(id: Seq<char>) -> Option<DotListing> {
    if id == "latest_updates"@ {
        Some(DotListing::LatestUpdates)
    } else if id == "recently_added"@ {
        Some(DotListing::RecentlyAdded)
    } else if id == "most_tracked"@ {
        Some(DotListing::MostTracked)
    } else if id == "top_rated"@ {
        Some(DotListing::TopRated)
    } else {
        None
    }
}

/// The listing with an id, if the site has it ("Invalid listing id").
pub fn listing_of(id: &str) -> (r: Option<DotListing>)
    ensures
        r == listing_spec(id@),
{
    if str_eq(id, "latest_updates") {
        Some(DotListing::LatestUpdates)
    } else if str_eq(id, "recently_added") {
        Some(DotListing::RecentlyAdded)
    } else if str_eq(id, "most_tracked") {
        Some(DotListing::MostTracked)
    } else if str_eq(id, "top_rated") {
        Some(DotListing::TopRated)
    } else {
        None
    }
}

impl DotListing {
    /// The id of the listing.
    pub open spec fn id_spec(self) -> Seq<char> {
        match self {
            DotListing::LatestUpdates => "latest_updates"@,
            DotListing::RecentlyAdded => "recently_added"@,
            DotListing::MostTracked => "most_tracked"@,
            DotListing::TopRated => "top_rated"@,
        }
    }

    /// The id of the listing, as the section API and listing links name it.
    pub fn id(self) -> (r: &'static str)
        ensures
            r@ == self.id_spec(),
    {
        match self {
            DotListing::LatestUpdates => "latest_updates",
            DotListing::RecentlyAdded => "recently_added",
            DotListing::MostTracked => "most_tracked",
            DotListing::TopRated => "top_rated",
        }
    }

    /// The path segment of the listing's "view all" page.
    pub open spec fn path_spec(self) -> Seq<char> {
        match self {
            DotListing::LatestUpdates => "latest-updates"@,
            DotListing::RecentlyAdded => "recently-added"@,
            DotListing::MostTracked => "most-tracked"@,
            DotListing::TopRated => "top-rated"@,
        }
    }

    /// The path segment of the listing's "view all" page.
    pub fn path(self) -> (r: &'static str)
        ensures
            r@ == self.path_spec(),
    {
        match self {
            DotListing::LatestUpdates => "latest-updates",
            DotListing::RecentlyAdded => "recently-added",
            DotListing::MostTracked => "most-tracked",
            DotListing::TopRated => "top-rated",
        }
    }

    /// The title of the listing's home section and of its listing.
    pub open spec fn title_spec(self) -> Seq<char> {
        match self {
            DotListing::LatestUpdates => "Latest Updates"@,
            DotListing::RecentlyAdded => "Recently Added"@,
            DotListing::MostTracked => "Most Tracked"@,
            DotListing::TopRated => "Top Rated"@,
        }
    }

    /// The title of the listing's home section and of its listing.
    pub fn title(self) -> (r: &'static str)
        ensures
            r@ == self.title_spec(),
    {
        match self {
            DotListing::LatestUpdates => "Latest Updates",
            DotListing::RecentlyAdded => "Recently Added",
            DotListing::MostTracked => "Most Tracked",
            DotListing::TopRated => "Top Rated",
        }
    }

    /// The subtitle of the listing's home section.
    pub open spec fn subtitle_spec(self) -> Seq<char> {
        match self {
            DotListing::LatestUpdates => "New Chapters"@,
            DotListing::RecentlyAdded => "New Titles"@,
            DotListing::MostTracked => "Reader Favorites"@,
            DotListing::TopRated => "Highest Scores"@,
        }
    }

    /// The subtitle of the listing's home section.
    pub fn subtitle(self) -> (r: &'static str)
        ensures
            r@ == self.subtitle_spec(),
    {
        match self {
            DotListing::LatestUpdates => "New Chapters",
            DotListing::RecentlyAdded => "New Titles",
            DotListing::MostTracked => "Reader Favorites",
            DotListing::TopRated => "Highest Scores",
        }
    }
}

/// The home sections, in order; each shows its listing as a row of covers.
pub open spec fn home_plan() -> Seq<DotListing> {
    seq![DotListing::LatestUpdates, DotListing::RecentlyAdded, DotListing::MostTracked, DotListing::TopRated]
}

/// The home sections (`get_home`), in order.
pub fn home_sections() -> (r: Vec<DotListing>)
    ensures
        r@ == home_plan(),
{
    let r = vec![DotListing::LatestUpdates, DotListing::RecentlyAdded, DotListing::MostTracked, DotListing::TopRated];
    assert(r@ =~= home_plan());
    r
}

/// The parameters of a home section's request: its id, `adult=both` or
/// `adult=0` as adult titles are shown or hidden, the default content types
/// as `origin` where set, and 21 titles.
pub open spec fn section_params_spec(l: DotListing, hide_nsfw: bool, content_types: Option<Seq<char>>) -> Seq<(Seq<char>, Seq<char>)> {
    seq![("id"@, l.id_spec()), ("adult"@, if hide_nsfw { "0"@ } else { "both"@ })]
        + (match content_types {
            Some(t) => seq![("origin"@, t)],
            None => seq![],
        })
        + seq![("limit"@, "21"@)]
}

/// The parameters of a home section's request.
pub fn section_params(l: DotListing, hide_nsfw: bool, content_types: Option<&str>) -> (r: Vec<(String, String)>)
    ensures
        pairs_view(r@) == section_params_spec(l, hide_nsfw, opt_str_view(content_types)),
{
    let mut ps: Vec<(String, String)> = Vec::new();
    push_pair(&mut ps, "id", l.id());
    push_pair(&mut ps, "adult", if hide_nsfw { "0" } else { "both" });
    if let Some(t) = content_types {
        push_pair(&mut ps, "origin", t);
    }
    push_pair(&mut ps, "limit", "21");
    assert(pairs_view(ps@) =~= section_params_spec(l, hide_nsfw, opt_str_view(content_types)));
    ps
}

/// The parameters of a listing page: `adult=both` unless adult titles are
/// hidden, the page after the first, each default content type as
/// `origin`, and the route of the page.
pub open spec fn listing_params_spec(hide_nsfw: bool, page: i32, content_types: Option<Seq<char>>) -> Seq<(Seq<char>, Seq<char>)> {
    (if hide_nsfw { seq![] } else { seq![("adult"@, "both"@)] })
        + (if page > 1 { seq![("page"@, int_decimal(page as int))] } else { seq![] })
        + (match content_types {
            Some(t) => split_two(t, ',', ',').map_values(|c: Seq<char>| ("origin"@, c)),
            None => seq![],
        })
        + seq![("_routes"@, "pages/ViewAllPage"@)]
}

/// The parameters of a listing page (`get_manga_list`).
pub fn listing_params(hide_nsfw: bool, page: i32, content_types: Option<&str>) -> (r: Vec<(String, String)>)
    ensures
        pairs_view(r@) == listing_params_spec(hide_nsfw, page, opt_str_view(content_types)),
{
    let mut ps: Vec<(String, String)> = Vec::new();
    if !hide_nsfw {
        push_pair(&mut ps, "adult", "both");
    }
    if page > 1 {
        let p = string_of(&i64_decimal(page as i64));
        push_pair(&mut ps, "page", p.as_str());
    }
    let ghost head = pairs_view(ps@);
    if let Some(t) = content_types {
        let parts = split_two_chars(&chars_of(t), ',', ',');
        let ghost pv = parts@.map_values(|x: Vec<char>| x@);
        assert(pv =~= split_two(t@, ',', ','));
        let mut i: usize = 0;
        while i < parts.len()
            invariant
                i <= parts@.len(),
                pv == parts@.map_values(|x: Vec<char>| x@),
                pairs_view(ps@) == head + pv.take(i as int).map_values(|c: Seq<char>| ("origin"@, c)),
            decreases parts@.len() - i,
        {
            let c = string_of(&parts[i]);
            push_pair(&mut ps, "origin", c.as_str());
            assert(pv.take(i + 1).map_values(|c: Seq<char>| ("origin"@, c)) =~= pv.take(i as int).map_values(
                |c: Seq<char>| ("origin"@, c),
            ).push(("origin"@, pv[i as int])));
            i = i + 1;
        }
        assert(pv.take(pv.len() as int) =~= pv);
    } else {
        assert(pairs_view(ps@) =~= head + Seq::<(Seq<char>, Seq<char>)>::empty());
    }
    push_pair(&mut ps, "_routes", "pages/ViewAllPage");
    assert(pairs_view(ps@) =~= listing_params_spec(hide_nsfw, page, opt_str_view(content_types)));
    ps
}

/// The path of a listing's page, below the site.
pub fn listing_path(l: DotListing) -> (r: String)
    ensures
        r@ == "/view-all/"@ + l.path_spec() + ".data"@,
{
    let mut a: Vec<char> = Vec::new();
    push_str(&mut a, "/view-all/");
    push_str(&mut a, l.path());
    push_str(&mut a, ".data");
    string_of(&a)
}

// ---------------------------------------------------------------------------
// Links, addresses and what a title reads as
// ---------------------------------------------------------------------------

/// What a link to the site opens.
pub enum DotLink {
    /// A title, by id.
    Manga(String),
    /// A chapter a user uploaded, by id; its title is looked up.
    UserChapter(String),
    /// A chapter, by id; its title is looked up.
    Chapter(String),
}

/// The characters of a `DotLink`.
pub enum DotLinkView {
    Manga(Seq<char>),
    UserChapter(Seq<char>),
    Chapter(Seq<char>),
}

/// What a `DotLink` holds.
pub open spec fn link_view(l: Option<DotLink>) -> Option<DotLinkView> {
    match l {
        Some(DotLink::Manga(s)) => Some(DotLinkView::Manga(s@)),
        Some(DotLink::UserChapter(s)) => Some(DotLinkView::UserChapter(s@)),
        Some(DotLink::Chapter(s)) => Some(DotLinkView::Chapter(s@)),
        None => None,
    }
}

/// The characters before the first `c`, if `s` has one.
pub open spec fn before_first(s: Seq<char>, c: char) -> Option<Seq<char>> {
    let i = crate::text::find(s, seq![c]);
    if i >= 0 {
        Some(s.take(i))
    } else {
        None
    }
}

/// What a link opens: below the site, after any leading `/`, the first two
/// segments as kind and id; `manga` opens the title; `chapter` opens a
/// user's upload when the id holds `source=user` (the id is what precedes
/// `?`), else the chapter whose id precedes `#`.
pub open spec fn deep_link_spec(url: Seq<char>) -> Option<DotLinkView> {
    match strip_prefix(url, BASE_URL@) {
        None => None,
        Some(path) => {
            let segs = split_two(crate::text::trim_start_char(path, '/'), '/', '/');
            if segs.len() < 2 {
                None
            } else if segs[0] == "manga"@ {
                Some(DotLinkView::Manga(segs[1]))
            } else if segs[0] == "chapter"@ {
                if crate::text::contains_seq(segs[1], "source=user"@) {
                    match before_first(segs[1], '?') {
                        Some(id) => Some(DotLinkView::UserChapter(id)),
                        None => None,
                    }
                } else {
                    match before_first(segs[1], '#') {
                        Some(id) => Some(DotLinkView::Chapter(id)),
                        None => None,
                    }
                }
            } else {
                None
            }
        },
    }
}

fn before_first_chars(v: &Vec<char>, c: char) -> (r: Option<String>)
    ensures
        opt_view(r) == before_first(v@, c),
{
    let p = vec![c];
    assert(p@ =~= seq![c]);
    match crate::text::find_chars(v, &p) {
        Some(i) => Some(string_of(&crate::text::slice_chars(v, 0, i))),
        None => None,
    }
}

/// What a link to the site opens, if anything (`handle_deep_link`; the
/// app then looks up the title of a chapter).
pub fn handle_deep_link(url: &str) -> (r: Option<DotLink>)
    ensures
        link_view(r) == deep_link_spec(url@),
{
    let path = match strip_prefix_str(url, BASE_URL) {
        Some(p) => p,
        None => return None,
    };
    let trimmed = crate::text::trim_start_char_chars(&chars_of(path.as_str()), '/');
    let segs = split_two_chars(&trimmed, '/', '/');
    proof {
        crate::text::lemma_split_two_len(crate::text::trim_start_char(path@, '/'), '/', '/');
    }
    assert(segs@.map_values(|x: Vec<char>| x@) =~= split_two(crate::text::trim_start_char(path@, '/'), '/', '/'));
    if segs.len() < 2 {
        return None;
    }
    let ghost sv = split_two(crate::text::trim_start_char(path@, '/'), '/', '/');
    assert(segs[0]@ == sv[0] && segs[1]@ == sv[1]);
    if crate::text::chars_eq(&segs[0], &chars_of("manga")) {
        Some(DotLink::Manga(string_of(&segs[1])))
    } else if crate::text::chars_eq(&segs[0], &chars_of("chapter")) {
        let id = &segs[1];
        if crate::text::find_chars(id, &chars_of("source=user")).is_some() {
            match before_first_chars(id, '?') {
                Some(c) => Some(DotLink::UserChapter(c)),
                None => None,
            }
        } else {
            match before_first_chars(id, '#') {
                Some(c) => Some(DotLink::Chapter(c)),
                None => None,
            }
        }
    } else {
        None
    }
}

/// Where a chapter's images are listed: a user's upload (its address says
/// `?source=user`) under `uploads`, any other under `chapters`.
pub open spec fn images_url_spec(chapter_key: Seq<char>, chapter_url: Option<Seq<char>>) -> Seq<char> {
    let user = match chapter_url {
        Some(u) => crate::text::contains_seq(u, "?source=user"@),
        None => false,
    };
    BASE_URL@ + (if user { "/api/uploads/"@ } else { "/api/chapters/"@ }) + chapter_key + "/images"@
}

/// Where a chapter's images are listed.
pub fn images_url(chapter_key: &str, chapter_url: Option<&str>) -> (r: String)
    ensures
        r@ == images_url_spec(chapter_key@, opt_str_view(chapter_url)),
{
    let user = match chapter_url {
        Some(u) => crate::text::find_chars(&chars_of(u), &chars_of("?source=user")).is_some(),
        None => false,
    };
    let mut a: Vec<char> = Vec::new();
    push_str(&mut a, BASE_URL);
    push_str(&mut a, if user { "/api/uploads/" } else { "/api/chapters/" });
    push_str(&mut a, chapter_key);
    push_str(&mut a, "/images");
    string_of(&a)
}

/// The address of a page image: below the site, without the image path's
/// leading slashes.
pub fn page_image_url(path: &str) -> (r: String)
    ensures
        r@ == BASE_URL@ + "/"@ + crate::text::trim_start_char(path@, '/'),
{
    let mut a: Vec<char> = Vec::new();
    push_str(&mut a, BASE_URL);
    push_str(&mut a, "/");
    let t = crate::text::trim_start_char_chars(&chars_of(path), '/');
    crate::text::append_chars(&mut a, &t);
    string_of(&a)
}

/// The address of a chapter: a user's upload (its source is `user`, or it
/// names an uploader) is marked `?source=user`.
pub fn chapter_url(id: i32, source: Option<&str>, has_uploader: bool) -> (r: String)
    ensures
        r@ == BASE_URL@ + "/chapter/"@ + int_decimal(id as int) + (if opt_str_view(source) == Some("user"@) || has_uploader {
            "?source=user"@
        } else {
            Seq::empty()
        }),
{
    let mut a: Vec<char> = Vec::new();
    push_str(&mut a, BASE_URL);
    push_str(&mut a, "/chapter/");
    crate::text::append_chars(&mut a, &i64_decimal(id as i64));
    let user = match source {
        Some(s) => str_eq(s, "user"),
        None => false,
    } || has_uploader;
    if user {
        push_str(&mut a, "?source=user");
    }
    string_of(&a)
}

/// The address of a volume: a user's upload (it names an uploader) is
/// marked `source=user`; every volume is read in volume mode.
pub fn volume_url(id: i32, has_uploader: bool) -> (r: String)
    ensures
        r@ == BASE_URL@ + "/chapter/"@ + int_decimal(id as int) + (if has_uploader {
            "?source=user&mode=volume"@
        } else {
            "?mode=volume"@
        }),
{
    let mut a: Vec<char> = Vec::new();
    push_str(&mut a, BASE_URL);
    push_str(&mut a, "/chapter/");
    crate::text::append_chars(&mut a, &i64_decimal(id as i64));
    push_str(&mut a, if has_uploader { "?source=user&mode=volume" } else { "?mode=volume" });
    string_of(&a)
}

/// The title a chapter shows: none where the site's title only repeats
/// "chapter..." (in any case).
pub open spec fn chapter_title_spec(title: Option<Seq<char>>) -> Option<Seq<char>> {
    match title {
        Some(t) => if crate::text::starts_with(lowercase(t), "chapter"@) {
            None
        } else {
            Some(t)
        },
        None => None,
    }
}

/// The title a chapter shows.
pub fn chapter_title(title: Option<&str>) -> (r: Option<String>)
    ensures
        opt_view(r) == chapter_title_spec(opt_str_view(title)),
{
    match title {
        Some(t) => {
            let l = to_lowercase(t);
            if crate::text::has_prefix(&chars_of(l.as_str()), &chars_of("chapter")) {
                None
            } else {
                Some(string_of(&chars_of(t)))
            }
        },
        None => None,
    }
}

/// The address of a title.
pub fn manga_url(id: i32) -> (r: String)
    ensures
        r@ == BASE_URL@ + "/manga/"@ + int_decimal(id as int),
{
    let mut a: Vec<char> = Vec::new();
    push_str(&mut a, BASE_URL);
    push_str(&mut a, "/manga/");
    crate::text::append_chars(&mut a, &i64_decimal(id as i64));
    string_of(&a)
}

/// A title's cover: its photo path below the site, if the path starts with
/// `/`.
pub fn cover_url(photo: Option<&str>) -> (r: Option<String>)
    ensures
        opt_view(r) == match opt_str_view(photo) {
            Some(p) => match strip_prefix(p, "/"@) {
                Some(rest) => Some(BASE_URL@ + "/"@ + rest),
                None => None,
            },
            None => None,
        },
{
    match photo {
        Some(p) => match strip_prefix_str(p, "/") {
            Some(rest) => {
                let mut a: Vec<char> = Vec::new();
                push_str(&mut a, BASE_URL);
                push_str(&mut a, "/");
                push_str(&mut a, rest.as_str());
                Some(string_of(&a))
            },
            None => None,
        },
        None => None,
    }
}

/// A title's status: `Ongoing` (or on hiatus), `Completed`, else unknown.
pub fn manga_status(status: &str, hiatus: bool) -> (r: MangaStatus)
    ensures
        r == if status@ == "Ongoing"@ {
            if hiatus { MangaStatus::Hiatus } else { MangaStatus::Ongoing }
        } else if status@ == "Completed"@ {
            MangaStatus::Completed
        } else {
            MangaStatus::Unknown
        },
{
    if str_eq(status, "Ongoing") {
        if hiatus { MangaStatus::Hiatus } else { MangaStatus::Ongoing }
    } else if str_eq(status, "Completed") {
        MangaStatus::Completed
    } else {
        MangaStatus::Unknown
    }
}

/// A title's rating: adult or blurred titles are NSFW; else the site's
/// rating, `erotica` read as suggestive.
pub open spec fn content_rating_spec(blurworthy: bool, adult: bool, rating: Option<Seq<char>>) -> ContentRating {
    if blurworthy || adult {
        ContentRating::NSFW
    } else {
        match rating {
            Some(r) => if r == "safe"@ {
                ContentRating::Safe
            } else if r == "suggestive"@ || r == "erotica"@ {
                ContentRating::Suggestive
            } else {
                ContentRating::Unknown
            },
            None => ContentRating::Unknown,
        }
    }
}

/// A title's rating.
pub fn content_rating(blurworthy: bool, adult: bool, rating: Option<&str>) -> (r: ContentRating)
    ensures
        r == content_rating_spec(blurworthy, adult, opt_str_view(rating)),
{
    if blurworthy || adult {
        ContentRating::NSFW
    } else {
        match rating {
            Some(r) => if str_eq(r, "safe") {
                ContentRating::Safe
            } else if str_eq(r, "suggestive") || str_eq(r, "erotica") {
                ContentRating::Suggestive
            } else {
                ContentRating::Unknown
            },
            None => ContentRating::Unknown,
        }
    }
}

/// How a title reads, by its country: Japanese right to left, Korean and
/// Chinese as webtoons.
pub fn viewer_of(country: Option<&str>) -> (r: Viewer)
    ensures
        r == match opt_str_view(country) {
            Some(c) => if c == "JP"@ {
                Viewer::RightToLeft
            } else if c == "KR"@ || c == "CN"@ {
                Viewer::Webtoon
            } else {
                Viewer::Unknown
            },
            None => Viewer::Unknown,
        },
{
    match country {
        Some(c) => if str_eq(c, "JP") {
            Viewer::RightToLeft
        } else if str_eq(c, "KR") || str_eq(c, "CN") {
            Viewer::Webtoon
        } else {
            Viewer::Unknown
        },
        None => Viewer::Unknown,
    }
}

/// A flag the site writes as text: `true`, `1`, `yes` and `false`, `0`,
/// `no`, in any ASCII case; other text is not a flag.
pub open spec fn flag_text(v: Seq<char>) -> Option<bool> {
    if crate::text::eq_ignore_ascii_case(v, "true"@) || crate::text::eq_ignore_ascii_case(v, "1"@)
        || crate::text::eq_ignore_ascii_case(v, "yes"@) {
        Some(true)
    } else if crate::text::eq_ignore_ascii_case(v, "false"@) || crate::text::eq_ignore_ascii_case(v, "0"@)
        || crate::text::eq_ignore_ascii_case(v, "no"@) {
        Some(false)
    } else {
        None
    }
}

/// A flag written as text (the text case of `bool_from_any`).
pub fn parse_flag(v: &str) -> (r: Option<bool>)
    ensures
        r == flag_text(v@),
{
    let c = chars_of(v);
    if crate::text::chars_eq_ignore_ascii_case(&c, &chars_of("true"))
        || crate::text::chars_eq_ignore_ascii_case(&c, &chars_of("1"))
        || crate::text::chars_eq_ignore_ascii_case(&c, &chars_of("yes")) {
        Some(true)
    } else if crate::text::chars_eq_ignore_ascii_case(&c, &chars_of("false"))
        || crate::text::chars_eq_ignore_ascii_case(&c, &chars_of("0"))
        || crate::text::chars_eq_ignore_ascii_case(&c, &chars_of("no")) {
        Some(false)
    } else {
        None
    }
}

/// The raw bytes of a page image the web view hands back as a data URL:
/// the base64 after the first comma; none without a comma or when the
/// base64 does not decode.
pub open spec fn data_url_bytes(s: Seq<char>) -> Option<Seq<u8>> {
    let i = crate::text::find(s, seq![',']);
    if i < 0 {
        None
    } else {
        crate::primitives::base64_standard_decode(encode_utf8(s.skip(i + 1)))
    }
}

/// The raw bytes of a page image from the web view's data URL.
pub fn image_data(data_url: &str) -> (r: Option<Vec<u8>>)
    ensures
        match r {
            Some(v) => data_url_bytes(data_url@) == Some(v@),
            None => data_url_bytes(data_url@) is None,
        },
{
    let c = chars_of(data_url);
    let comma = vec![','];
    assert(comma@ =~= seq![',']);
    match crate::text::find_chars(&c, &comma) {
        Some(i) => {
            let n = c.len();
            assert(i + 1 <= n);
            let rest = string_of(&crate::text::slice_chars(&c, i + 1, n));
            assert(rest@ =~= data_url@.skip(i + 1));
            let bytes = rest.as_str().as_bytes();
            crate::primitives::base64_decode(bytes)
        },
        None => None,
    }
}

// ---------------------------------------------------------------------------
// One upload per chapter
// ---------------------------------------------------------------------------

/// What decides between uploads of a chapter: its number as text (the key
/// uploads share), its group, its scanlator's name, and when it was added
/// (seconds, where the date reads).
pub struct ChapterCandidate {
    pub number_key: String,
    pub group_id: Option<i32>,
    pub scanlator_name: Option<String>,
    pub created_at: Option<i64>,
}

/// The groups that publish official releases: Official, MANGA Plus, VIZ,
/// LINE Webtoon, Tapas and Comikey.
pub open spec fn official_group(g: i32) -> bool {
    g == 17423 || g == 10712 || g == 16861 || g == 10110 || g == 16168 || g == 3521
}

/// A scanlator's name that marks an official release, in any case.
pub open spec fn official_name(n: Seq<char>) -> bool {
    lowercase(n) == lowercase("Official"@) || lowercase(n) == lowercase("Official?"@)
        || lowercase(n) == lowercase("MangaPlus"@) || lowercase(n) == lowercase("Comikey"@)
}

/// An upload looks official: by its group or by its scanlator's name.
pub open spec fn official_like(c: ChapterCandidate) -> bool {
    (c.group_id matches Some(g) && official_group(g))
        || (c.scanlator_name matches Some(n) && official_name(n@))
}

/// `a` is later than `b`; a missing date is earlier than any date.
pub open spec fn later(a: Option<i64>, b: Option<i64>) -> bool {
    match (a, b) {
        (Some(x), Some(y)) => x > y,
        (Some(_), None) => true,
        _ => false,
    }
}

/// Upload `a` is better than `b`: official over unofficial, else the later.
#[verifier::opaque]
pub open spec fn better(a: ChapterCandidate, b: ChapterCandidate) -> bool {
    (official_like(a) && !official_like(b)) || (official_like(a) == official_like(b) && later(
        a.created_at,
        b.created_at,
    ))
}

/// Whether an upload looks official (`is_official_like`).
pub fn is_official_like(c: &ChapterCandidate) -> (r: bool)
    ensures
        r == official_like(*c),
{
    let by_group = match c.group_id {
        Some(g) => g == 17423 || g == 10712 || g == 16861 || g == 10110 || g == 16168 || g == 3521,
        None => false,
    };
    let by_name = match &c.scanlator_name {
        Some(n) => {
            let l = to_lowercase(n.as_str());
            str_eq(l.as_str(), to_lowercase("Official").as_str()) || str_eq(l.as_str(), to_lowercase("Official?").as_str())
                || str_eq(l.as_str(), to_lowercase("MangaPlus").as_str()) || str_eq(
                l.as_str(),
                to_lowercase("Comikey").as_str(),
            )
        },
        None => false,
    };
    by_group || by_name
}

/// Whether upload `new` is better than `current` (`is_better`).
pub fn is_better(new: &ChapterCandidate, current: &ChapterCandidate) -> (r: bool)
    ensures
        r == better(*new, *current),
{
    reveal(better);
    let official_new = is_official_like(new);
    let official_cur = is_official_like(current);
    if official_new && !official_cur {
        return true;
    }
    if !official_new && official_cur {
        return false;
    }
    match (new.created_at, current.created_at) {
        (Some(x), Some(y)) => x > y,
        (Some(_), None) => true,
        _ => false,
    }
}

/// The position, among the chosen uploads, of the one whose number is
/// `key`, or -1.
pub open spec fn key_index(cs: Seq<ChapterCandidate>, chosen: Seq<int>, key: Seq<char>) -> int {
    crate::text::find_first_index(key_flags(cs, chosen, key))
}

/// Which chosen uploads have the number `key`.
pub open spec fn key_flags(cs: Seq<ChapterCandidate>, chosen: Seq<int>, key: Seq<char>) -> Seq<bool> {
    chosen.map_values(|p: int| cs[p].number_key@ == key)
}

/// The uploads kept after the first `n` (`dedup_insert` on each in turn):
/// a new number is added, and an upload better than the one kept for its
/// number takes its place.
pub open spec fn dedup_upto(cs: Seq<ChapterCandidate>, n: nat) -> Seq<int>
    decreases n,
{
    if n == 0 {
        seq![]
    } else {
        let prev = dedup_upto(cs, (n - 1) as nat);
        let c = cs[n - 1];
        let j = key_index(cs, prev, c.number_key@);
        if j < 0 {
            prev.push(n - 1)
        } else if better(c, cs[prev[j]]) {
            prev.update(j, n - 1)
        } else {
            prev
        }
    }
}

proof fn lemma_key_index(cs: Seq<ChapterCandidate>, chosen: Seq<int>, key: Seq<char>)
    ensures
        ({
            let j = key_index(cs, chosen, key);
            &&& j == -1 || (0 <= j < chosen.len() && cs[chosen[j]].number_key@ == key)
            &&& forall|k: int| 0 <= k < chosen.len() && (j == -1 || k < j) ==> cs[#[trigger] chosen[k]].number_key@ != key
        }),
{
    let bs = key_flags(cs, chosen, key);
    crate::text::lemma_find_first_spec(bs);
    assert forall|k: int| 0 <= k < chosen.len() && (key_index(cs, chosen, key) == -1 || k < key_index(cs, chosen, key)) implies cs[#[trigger] chosen[k]].number_key@ != key by {
        assert(!bs[k]);
        assert(bs[k] == (cs[chosen[k]].number_key@ == key));
    }
    let j = key_index(cs, chosen, key);
    if j != -1 {
        assert(bs[j] == (cs[chosen[j]].number_key@ == key));
    }
}

/// The kept uploads lie among the first `n`, and no two share a number.
proof fn lemma_dedup_shape(cs: Seq<ChapterCandidate>, n: nat)
    requires
        n <= cs.len(),
    ensures
        forall|k: int| 0 <= k < dedup_upto(cs, n).len() ==> 0 <= #[trigger] dedup_upto(cs, n)[k] < n,
        forall|a: int, b: int| 0 <= a < b < dedup_upto(cs, n).len() ==>
            cs[#[trigger] dedup_upto(cs, n)[a]].number_key@ != cs[#[trigger] dedup_upto(cs, n)[b]].number_key@,
    decreases n,
{
    if n > 0 {
        lemma_dedup_shape(cs, (n - 1) as nat);
        let prev = dedup_upto(cs, (n - 1) as nat);
        let c = cs[n - 1];
        lemma_key_index(cs, prev, c.number_key@);
        let cur = dedup_upto(cs, n);
        let j = key_index(cs, prev, c.number_key@);
        if j < 0 {
            assert forall|a: int, b: int| 0 <= a < b < cur.len() implies cs[#[trigger] cur[a]].number_key@ != cs[#[trigger] cur[b]].number_key@ by {
                if b == prev.len() {
                    assert(cur[a] == prev[a]);
                } else {
                    assert(cur[a] == prev[a] && cur[b] == prev[b]);
                }
            }
        } else if better(c, cs[prev[j]]) {
            assert forall|a: int, b: int| 0 <= a < b < cur.len() implies cs[#[trigger] cur[a]].number_key@ != cs[#[trigger] cur[b]].number_key@ by {
                if a == j {
                    assert(cs[cur[a]].number_key@ == cs[prev[j]].number_key@);
                    assert(cur[b] == prev[b]);
                } else if b == j {
                    assert(cs[cur[b]].number_key@ == cs[prev[j]].number_key@);
                    assert(cur[a] == prev[a]);
                } else {
                    assert(cur[a] == prev[a] && cur[b] == prev[b]);
                }
            }
        }
    }
}

/// The upload kept for number `key` among the chosen ones, if any.
pub open spec fn kept_for(cs: Seq<ChapterCandidate>, chosen: Seq<int>, key: Seq<char>) -> Option<int> {
    let j = key_index(cs, chosen, key);
    if j < 0 {
        None
    } else {
        Some(chosen[j])
    }
}

proof fn lemma_kept_for(cs: Seq<ChapterCandidate>, chosen: Seq<int>, key: Seq<char>, i: int)
    requires
        forall|a: int, b: int| 0 <= a < b < chosen.len() ==>
            cs[#[trigger] chosen[a]].number_key@ != cs[#[trigger] chosen[b]].number_key@,
        0 <= i < chosen.len(),
        cs[chosen[i]].number_key@ == key,
    ensures
        kept_for(cs, chosen, key) == Some(chosen[i]),
{
    lemma_key_index(cs, chosen, key);
    let j = key_index(cs, chosen, key);
    if j == -1 {
        assert(cs[chosen[i]].number_key@ != key);
    } else if j < i {
        assert(cs[chosen[j]].number_key@ != cs[chosen[i]].number_key@);
    } else if j > i {
        assert(cs[chosen[i]].number_key@ != key);
    }
}

proof fn lemma_kept_for_none(cs: Seq<ChapterCandidate>, chosen: Seq<int>, key: Seq<char>)
    requires
        forall|i: int| 0 <= i < chosen.len() ==> cs[#[trigger] chosen[i]].number_key@ != key,
    ensures
        kept_for(cs, chosen, key) is None,
{
    lemma_key_index(cs, chosen, key);
}

/// What inserting one upload does (`dedup_insert`): for its own number, it
/// is kept when none was kept yet or when it is better than the one kept;
/// for every other number nothing changes.
pub proof fn law_dedup_insert(cs: Seq<ChapterCandidate>, n: nat, key: Seq<char>)
    requires
        0 < n <= cs.len(),
    ensures
        kept_for(cs, dedup_upto(cs, n), key) == if key == cs[n - 1].number_key@ {
            match kept_for(cs, dedup_upto(cs, (n - 1) as nat), key) {
                None => Some((n - 1) as int),
                Some(p) => if better(cs[n - 1], cs[p]) {
                    Some((n - 1) as int)
                } else {
                    Some(p)
                },
            }
        } else {
            kept_for(cs, dedup_upto(cs, (n - 1) as nat), key)
        },
{
    let prev = dedup_upto(cs, (n - 1) as nat);
    let cur = dedup_upto(cs, n);
    let c = cs[n - 1];
    lemma_dedup_shape(cs, (n - 1) as nat);
    lemma_dedup_shape(cs, n);
    lemma_key_index(cs, prev, c.number_key@);
    lemma_key_index(cs, prev, key);
    let j = key_index(cs, prev, c.number_key@);
    if j < 0 {
        assert(cur == prev.push(n - 1));
        if key == c.number_key@ {
            lemma_kept_for_none(cs, prev, key);
            lemma_kept_for(cs, cur, key, prev.len() as int);
        } else {
            let jk = key_index(cs, prev, key);
            if jk < 0 {
                assert forall|i: int| 0 <= i < cur.len() implies cs[#[trigger] cur[i]].number_key@ != key by {
                    if i < prev.len() {
                        assert(cur[i] == prev[i]);
                    }
                }
                lemma_kept_for_none(cs, cur, key);
            } else {
                assert(cur[jk] == prev[jk]);
                lemma_kept_for(cs, cur, key, jk);
            }
        }
    } else if better(c, cs[prev[j]]) {
        assert(cur == prev.update(j, n - 1));
        if key == c.number_key@ {
            lemma_kept_for(cs, prev, key, j);
            lemma_kept_for(cs, cur, key, j);
        } else {
            let jk = key_index(cs, prev, key);
            if jk < 0 {
                assert forall|i: int| 0 <= i < cur.len() implies cs[#[trigger] cur[i]].number_key@ != key by {
                    if i != j {
                        assert(cur[i] == prev[i]);
                    }
                }
                lemma_kept_for_none(cs, cur, key);
            } else {
                assert(jk != j);
                assert(cur[jk] == prev[jk]);
                lemma_kept_for(cs, cur, key, jk);
            }
        }
    } else {
        assert(cur == prev);
        if key == c.number_key@ {
            lemma_kept_for(cs, prev, key, j);
        }
    }
}

/// No upload is better than itself.
proof fn lemma_better_irreflexive(a: ChapterCandidate)
    ensures
        !better(a, a),
{
    reveal(better);
}

/// `better` is transitive.
proof fn lemma_better_transitive(a: ChapterCandidate, b: ChapterCandidate, c: ChapterCandidate)
    requires
        better(a, b),
        better(b, c),
    ensures
        better(a, c),
{
    reveal(better);
}

/// Keeping one upload per chapter number (`dedup_insert` over all uploads):
/// no two kept uploads share a number; every number has a kept upload; and
/// no upload of a number is better than the one kept for it.
pub proof fn law_dedup_keeps_best(cs: Seq<ChapterCandidate>)
    ensures
        forall|a: int, b: int| 0 <= a < b < dedup_upto(cs, cs.len()).len() ==>
            cs[#[trigger] dedup_upto(cs, cs.len())[a]].number_key@ != cs[#[trigger] dedup_upto(cs, cs.len())[b]].number_key@,
        forall|i: int| 0 <= i < cs.len() ==> exists|k: int| 0 <= k < dedup_upto(cs, cs.len()).len()
            && cs[#[trigger] dedup_upto(cs, cs.len())[k]].number_key@ == #[trigger] cs[i].number_key@,
        forall|i: int, k: int| 0 <= i < cs.len() && 0 <= k < dedup_upto(cs, cs.len()).len()
            && cs[i].number_key@ == cs[dedup_upto(cs, cs.len())[k]].number_key@ ==> !better(
            #[trigger] cs[i],
            #[trigger] cs[dedup_upto(cs, cs.len())[k]],
        ),
{
    lemma_dedup_shape(cs, cs.len());
    lemma_dedup_best(cs, cs.len());
}

#[verifier::rlimit(60)]
proof fn lemma_dedup_best(cs: Seq<ChapterCandidate>, n: nat)
    requires
        n <= cs.len(),
    ensures
        forall|i: int| 0 <= i < n ==> exists|k: int| 0 <= k < dedup_upto(cs, n).len()
            && cs[#[trigger] dedup_upto(cs, n)[k]].number_key@ == #[trigger] cs[i].number_key@,
        forall|i: int, k: int| 0 <= i < n && 0 <= k < dedup_upto(cs, n).len()
            && cs[i].number_key@ == cs[dedup_upto(cs, n)[k]].number_key@ ==> !better(
            #[trigger] cs[i],
            #[trigger] cs[dedup_upto(cs, n)[k]],
        ),
    decreases n,
{
    if n > 0 {
        lemma_dedup_best(cs, (n - 1) as nat);
        lemma_dedup_shape(cs, (n - 1) as nat);
        let prev = dedup_upto(cs, (n - 1) as nat);
        let c = cs[n - 1];
        lemma_key_index(cs, prev, c.number_key@);
        let cur = dedup_upto(cs, n);
        let j = key_index(cs, prev, c.number_key@);
        if j < 0 {
            assert(cur[prev.len() as int] == n - 1);
            assert forall|i: int| 0 <= i < n implies exists|k: int| 0 <= k < cur.len()
                && cs[#[trigger] cur[k]].number_key@ == #[trigger] cs[i].number_key@ by {
                if i == n - 1 {
                    assert(cs[cur[prev.len() as int]].number_key@ == cs[i].number_key@);
                } else {
                    let k = choose|k: int| 0 <= k < prev.len() && cs[#[trigger] prev[k]].number_key@ == #[trigger] cs[i].number_key@;
                    assert(cur[k] == prev[k]);
                }
            }
            assert forall|i: int, k: int| 0 <= i < n && 0 <= k < cur.len()
                && cs[i].number_key@ == cs[cur[k]].number_key@ implies !better(#[trigger] cs[i], #[trigger] cs[cur[k]]) by {
                if k == prev.len() {
                    if i < n - 1 {
                        let m = choose|m: int| 0 <= m < prev.len() && cs[#[trigger] prev[m]].number_key@ == #[trigger] cs[i].number_key@;
                        assert(cs[prev[m]].number_key@ == c.number_key@);
                    } else {
                        assert(cur[k] == n - 1);
                        lemma_better_irreflexive(c);
                    }
                } else {
                    assert(cur[k] == prev[k]);
                    if i == n - 1 {
                        assert(cs[prev[k]].number_key@ != c.number_key@);
                    }
                }
            }
        } else if better(c, cs[prev[j]]) {
            assert forall|i: int| 0 <= i < n implies exists|k: int| 0 <= k < cur.len()
                && cs[#[trigger] cur[k]].number_key@ == #[trigger] cs[i].number_key@ by {
                if i == n - 1 {
                    assert(cs[cur[j]].number_key@ == cs[i].number_key@);
                } else {
                    let k = choose|k: int| 0 <= k < prev.len() && cs[#[trigger] prev[k]].number_key@ == #[trigger] cs[i].number_key@;
                    if k == j {
                        assert(cs[cur[j]].number_key@ == cs[i].number_key@);
                    } else {
                        assert(cur[k] == prev[k]);
                    }
                }
            }
            assert forall|i: int, k: int| 0 <= i < n && 0 <= k < cur.len()
                && cs[i].number_key@ == cs[cur[k]].number_key@ implies !better(#[trigger] cs[i], #[trigger] cs[cur[k]]) by {
                if k == j {
                    assert(cur[k] == n - 1);
                    if i == n - 1 {
                        lemma_better_irreflexive(c);
                    }
                    if i < n - 1 {
                        assert(cs[i].number_key@ == cs[prev[j]].number_key@);
                        assert(!better(cs[i], cs[prev[j]]));
                        if better(cs[i], c) {
                            lemma_better_transitive(cs[i], c, cs[prev[j]]);
                        }
                    }
                } else {
                    assert(cur[k] == prev[k]);
                    if i == n - 1 {
                        assert(cs[prev[k]].number_key@ != cs[prev[j]].number_key@);
                    }
                }
            }
        } else {
            assert forall|i: int| 0 <= i < n implies exists|k: int| 0 <= k < cur.len()
                && cs[#[trigger] cur[k]].number_key@ == #[trigger] cs[i].number_key@ by {
                if i == n - 1 {
                    assert(cs[cur[j]].number_key@ == cs[i].number_key@);
                } else {
                    let k = choose|k: int| 0 <= k < prev.len() && cs[#[trigger] prev[k]].number_key@ == #[trigger] cs[i].number_key@;
                    assert(cur[k] == prev[k]);
                }
            }
            assert forall|i: int, k: int| 0 <= i < n && 0 <= k < cur.len()
                && cs[i].number_key@ == cs[cur[k]].number_key@ implies !better(#[trigger] cs[i], #[trigger] cs[cur[k]]) by {
                assert(cur[k] == prev[k]);
                if i == n - 1 && k != j {
                    assert(cs[prev[k]].number_key@ != cs[prev[j]].number_key@);
                } else if i == n - 1 {
                    assert(cs[i] == c);
                }
            }
        }
    }
}

fn find_kept(cs: &Vec<ChapterCandidate>, chosen: &Vec<usize>, key: &str) -> (r: Option<usize>)
    requires
        forall|k: int| 0 <= k < chosen@.len() ==> #[trigger] chosen@[k] < cs@.len(),
    ensures
        match r {
            Some(j) => j as int == key_index(cs@, chosen@.map_values(|p: usize| p as int), key@),
            None => key_index(cs@, chosen@.map_values(|p: usize| p as int), key@) == -1,
        },
{
    let ghost ps = chosen@.map_values(|p: usize| p as int);
    let ghost bs = key_flags(cs@, ps, key@);
    let mut j: usize = 0;
    while j < chosen.len()
        invariant
            j <= chosen@.len(),
            ps == chosen@.map_values(|p: usize| p as int),
            bs == key_flags(cs@, ps, key@),
            forall|k: int| 0 <= k < chosen@.len() ==> #[trigger] chosen@[k] < cs@.len(),
            forall|k: int| 0 <= k < j ==> !bs[k],
        decreases chosen@.len() - j,
    {
        assert(bs[j as int] == (cs@[ps[j as int]].number_key@ == key@));
        if str_eq(cs[chosen[j]].number_key.as_str(), key) {
            assert(bs[j as int]);
            proof {
                crate::text::lemma_find_first_index(bs, j as int);
            }
            return Some(j);
        }
        j = j + 1;
    }
    proof {
        crate::text::lemma_find_first_none(bs);
    }
    None
}

/// The uploads kept, one per chapter number, by position (`dedup_insert`
/// on each upload in turn; the app then orders them by number).
pub fn dedup_chapters(cs: &Vec<ChapterCandidate>) -> (r: Vec<usize>)
    ensures
        r@.map_values(|p: usize| p as int) == dedup_upto(cs@, cs@.len()),
{
    let mut chosen: Vec<usize> = Vec::new();
    let mut i: usize = 0;
    while i < cs.len()
        invariant
            i <= cs@.len(),
            chosen@.map_values(|p: usize| p as int) == dedup_upto(cs@, i as nat),
        decreases cs@.len() - i,
    {
        proof {
            lemma_dedup_shape(cs@, i as nat);
        }
        assert forall|k: int| 0 <= k < chosen@.len() implies #[trigger] chosen@[k] < cs@.len() by {
            assert(chosen@.map_values(|p: usize| p as int)[k] == chosen@[k] as int);
        }
        let ghost prev = chosen@.map_values(|p: usize| p as int);
        let c = &cs[i];
        match find_kept(cs, &chosen, c.number_key.as_str()) {
            None => {
                chosen.push(i);
                assert(chosen@.map_values(|p: usize| p as int) =~= prev.push(i as int));
            },
            Some(j) => {
                proof {
                    lemma_key_index(cs@, prev, c.number_key@);
                }
                let cur = chosen[j];
                assert(prev[j as int] == cur as int);
                if is_better(c, &cs[cur]) {
                    chosen.set(j, i);
                    assert(chosen@.map_values(|p: usize| p as int) =~= prev.update(j as int, i as int));
                }
            },
        }
        i = i + 1;
    }
    chosen
}

// ---------------------------------------------------------------------------
// Names given as one text or several
// ---------------------------------------------------------------------------

/// What `serde_json::from_str::<Vec<String>>` reads from a text: the
/// strings of a JSON array of strings, or nothing when the text is not one.
pub uninterp spec fn json_string_array(text: Seq<char>) -> Option<Seq<Seq<char>>>;

/// `serde_json::from_str::<Vec<String>>`: the strings of a JSON array of
/// strings; `None` on any text that does not parse as one. What parses is
/// serde_json's grammar, named by `json_string_array` and not written out.
#[verifier::external_body]
fn parse_string_array(text: &str) -> (r: Option<Vec<String>>)
    ensures
        match r {
            Some(v) => json_string_array(text@) == Some(string_views(v@)),
            None => json_string_array(text@) is None,
        },
{
    serde_json::from_str::<Vec<String>>(text).ok()
}

/// Names as the site gives them: one text, which may itself hold a JSON
/// array of names, or several.
pub enum StringOrVec {
    Single(String),
    Multiple(Vec<String>),
}

/// The names a `StringOrVec` holds: a single text that reads as a JSON
/// array gives its strings, any other single text itself.
pub open spec fn names_spec(v: StringOrVec) -> Seq<Seq<char>> {
    match v {
        StringOrVec::Single(s) => match json_string_array(s@) {
            Some(names) => names,
            None => seq![s@],
        },
        StringOrVec::Multiple(v) => string_views(v@),
    }
}

impl StringOrVec {
    /// The names (`StringOrVec::into_vec`).
    pub fn into_vec(self) -> (r: Vec<String>)
        ensures
            string_views(r@) == names_spec(self),
    {
        match self {
            StringOrVec::Single(s) => match parse_string_array(s.as_str()) {
                Some(v) => v,
                None => {
                    let r = vec![s];
                    assert(string_views(r@) =~= seq![r@[0]@]);
                    r
                },
            },
            StringOrVec::Multiple(v) => v,
        }
    }
}

// ---------------------------------------------------------------------------
// Responses
// ---------------------------------------------------------------------------

/// What the source tells the user when the site answers with its bot check.
pub const CF_CHALLENGE_ERROR_MESSAGE: &'static str = "Response returned CF challenge page instead of JSON data. If problem persist, please clear the source cache and restart the application to resolve this issue.";

/// Why a response is not read.
#[derive(Debug, Clone, Copy, PartialEq, Eq, Structural)]
pub enum FetchError {
    /// The site answered with its bot check (403 with `cf-mitigated:
    /// challenge`).
    Challenge,
    /// Any other status from 400 on.
    Status(i32),
}

/// Decides whether a response is read: a 403 that carries the bot check
/// header is the challenge; any other status from 400 on is an error.
pub fn check_response(status: i32, cf_mitigated: Option<&str>) -> (r: Result<(), FetchError>)
    ensures
        r == (if status == 403 && opt_str_view(cf_mitigated) == Some("challenge"@) {
            Err::<(), FetchError>(FetchError::Challenge)
        } else if status >= 400 {
            Err::<(), FetchError>(FetchError::Status(status))
        } else {
            Ok::<(), FetchError>(())
        }),
{
    let challenge = match cf_mitigated {
        Some(v) => str_eq(v, "challenge"),
        None => false,
    };
    if status == 403 && challenge {
        Err(FetchError::Challenge)
    } else if status >= 400 {
        Err(FetchError::Status(status))
    } else {
        Ok(())
    }
}

/// The message of a refused response.
pub fn fetch_error_message(e: FetchError) -> (r: String)
    ensures
        match e {
            FetchError::Challenge => r@ == CF_CHALLENGE_ERROR_MESSAGE@,
            FetchError::Status(s) => r@ == "Response Error: "@ + int_decimal(s as int),
        },
{
    match e {
        FetchError::Challenge => string_of(&chars_of(CF_CHALLENGE_ERROR_MESSAGE)),
        FetchError::Status(s) => {
            let mut out = chars_of("Response Error: ");
            append_chars(&mut out, &i64_decimal(s as i64));
            string_of(&out)
        },
    }
}

} // verus!
