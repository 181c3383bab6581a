//! CopyManga: how a search or the filters become a catalogue or search
//! query, how the site's pages are read, and how the chapter groups of a
//! title are merged by upload date.
use vstd::prelude::*;

use crate::model::{FilterValue, MangaStatus};
use crate::primitives::{capture_spec, regex_captures, regex_captures_of};
use crate::text::{
    chars_of, find, find_chars, find_first_index, i64_decimal, int_decimal, lemma_find_first_index,
    lemma_find_first_none, opt_str_view, opt_view, piece_after, piece_after_chars, push_str,
    replace_all, replace_all_chars, rfind_char, rfind_char_chars, slice_chars, str_eq, string_of,
    string_views, trim, trim_chars,
};

verus! {

/// The offset of page `page` with `limit` entries a page: pages before the
/// first count as the first; the product saturates at the bounds of `i32`.
pub open spec fn offset_spec(page: i32, limit: i32) -> int {
    let index: int = if page - 1 >= 0 { page - 1 } else { 0 };
    let p = index * limit;
    if p > i32::MAX {
        i32::MAX as int
    } else if p < i32::MIN {
        i32::MIN as int
    } else {
        p
    }
}

/// The offset of a page (`Offset::new`).
pub fn offset(page: i32, limit: i32) -> (r: i32)
    ensures
        r == offset_spec(page, limit),
{
    let index: i64 = if page >= 1 { (page - 1) as i64 } else { 0 };
    proof {
        assert(-2147483648 * 2147483648 <= index * limit <= 2147483647 * 2147483648) by (nonlinear_arith)
            requires 0 <= index <= 2147483647, -2147483648 <= limit <= 2147483647;
    }
    let p: i64 = index * (limit as i64);
    if p > i32::MAX as i64 {
        i32::MAX
    } else if p < i32::MIN as i64 {
        i32::MIN
    } else {
        p as i32
    }
}

/// The catalogue order of sort option `index`, if there is one.
pub open spec fn sort_spec(index: i32) -> Option<Seq<char>> {
    if index == 0 {
        Some("datetime_updated"@)
    } else if index == 1 {
        Some("popular"@)
    } else {
        None
    }
}

/// The catalogue order of a sort option (`Sort::from_repr`).
pub fn sort_name(index: i32) -> (r: Option<&'static str>)
    ensures
        match r {
            Some(s) => sort_spec(index) == Some(s@),
            None => sort_spec(index) is None,
        },
{
    if index == 0 {
        Some("datetime_updated")
    } else if index == 1 {
        Some("popular")
    } else {
        None
    }
}

/// A query parameter. `encode` says that its name and value are written
/// percent-encoded as URI components (`query_text`); others go into the
/// query as they are.
pub struct QueryParam {
    pub key: String,
    pub value: String,
    pub encode: bool,
}

/// What a `QueryParam` holds.
pub open spec fn param_view(p: QueryParam) -> (Seq<char>, Seq<char>, bool) {
    (p.key@, p.value@, p.encode)
}

/// The views of a list of parameters.
pub open spec fn params_view(ps: Seq<QueryParam>) -> Seq<(Seq<char>, Seq<char>, bool)> {
    ps.map_values(|p: QueryParam| param_view(p))
}

fn param(key: &str, value: &str, encode: bool) -> (r: QueryParam)
    ensures
        param_view(r) == (key@, value@, encode),
{
    QueryParam { key: string_of(&chars_of(key)), value: string_of(&chars_of(value)), encode }
}

fn push_param(ps: &mut Vec<QueryParam>, key: &str, value: &str, encode: bool)
    ensures
        params_view(final(ps)@) == params_view(old(ps)@).push((key@, value@, encode)),
{
    let ghost before = ps@;
    ps.push(param(key, value, encode));
    assert(params_view(ps@) =~= params_view(before).push((key@, value@, encode)));
}

/// The query of a catalogue page: theme, status and region as far as set,
/// then the ordering (`-` first for descending), offset and limit 50.
pub open spec fn filters_query_spec(
    genre: Seq<char>,
    status: Seq<char>,
    region: Seq<char>,
    is_asc: bool,
    sort: Seq<char>,
    page: i32,
) -> Seq<(Seq<char>, Seq<char>, bool)> {
    let a: Seq<(Seq<char>, Seq<char>, bool)> = if genre.len() > 0 { seq![("theme"@, genre, false)] } else { seq![] };
    let b: Seq<(Seq<char>, Seq<char>, bool)> = if status.len() > 0 { seq![("status"@, status, false)] } else { seq![] };
    let c: Seq<(Seq<char>, Seq<char>, bool)> = if region.len() > 0 { seq![("region"@, region, false)] } else { seq![] };
    a + b + c + seq![
        ("ordering"@, (if is_asc { Seq::<char>::empty() } else { "-"@ }) + sort, false),
        ("offset"@, int_decimal(offset_spec(page, 50)), false),
        ("limit"@, "50"@, false),
    ]
}

/// The query of a catalogue page (`FiltersQuery::new`).
pub fn filters_query(genre: &str, status: &str, region: &str, is_asc: bool, sort: &str, page: i32) -> (r: Vec<QueryParam>)
    ensures
        params_view(r@) == filters_query_spec(genre@, status@, region@, is_asc, sort@, page),
{
    let mut ps: Vec<QueryParam> = Vec::new();
    if !genre.is_empty() {
        push_param(&mut ps, "theme", genre, false);
    }
    if !status.is_empty() {
        push_param(&mut ps, "status", status, false);
    }
    if !region.is_empty() {
        push_param(&mut ps, "region", region, false);
    }
    let mut order: Vec<char> = Vec::new();
    if !is_asc {
        push_str(&mut order, "-");
    }
    push_str(&mut order, sort);
    let order = string_of(&order);
    push_param(&mut ps, "ordering", order.as_str(), false);
    let off = string_of(&i64_decimal(offset(page, 50) as i64));
    push_param(&mut ps, "offset", off.as_str(), false);
    push_param(&mut ps, "limit", "50", false);
    proof {
        if is_asc {
            assert(Seq::<char>::empty() + sort@ =~= sort@);
        }
    }
    assert(params_view(ps@) =~= filters_query_spec(genre@, status@, region@, is_asc, sort@, page));
    ps
}

/// Query parameters as written: `name=value` pairs joined by `&`, those
/// marked so percent-encoded as URI components.
pub open spec fn query_text_spec(ps: Seq<(Seq<char>, Seq<char>, bool)>) -> Seq<char>
    decreases ps.len(),
{
    if ps.len() == 0 {
        Seq::empty()
    } else {
        let p = ps.last();
        query_text_spec(ps.drop_last()) + (if ps.len() > 1 { "&"@ } else { Seq::empty() }) + (if p.2 {
            crate::text::encode_component_spec(p.0) + "="@ + crate::text::encode_component_spec(p.1)
        } else {
            p.0 + "="@ + p.1
        })
    }
}

/// Writes query parameters (`QueryParameters` as text).
pub fn query_text(ps: &Vec<QueryParam>) -> (r: String)
    ensures
        r@ == query_text_spec(params_view(ps@)),
{
    let ghost pv = params_view(ps@);
    let mut out: Vec<char> = Vec::new();
    let mut i: usize = 0;
    assert(pv.take(0) =~= Seq::<(Seq<char>, Seq<char>, bool)>::empty());
    while i < ps.len()
        invariant
            i <= ps@.len(),
            pv == params_view(ps@),
            out@ == query_text_spec(pv.take(i as int)),
        decreases ps@.len() - i,
    {
        assert(pv.take(i + 1).drop_last() =~= pv.take(i as int));
        assert(pv.take(i + 1).last() == pv[i as int]);
        let ghost prev = out@;
        if i > 0 {
            push_str(&mut out, "&");
        }
        let ghost mid = out@;
        let p = &ps[i];
        if p.encode {
            push_str(&mut out, crate::text::encode_uri_component(p.key.as_str()).as_str());
            push_str(&mut out, "=");
            push_str(&mut out, crate::text::encode_uri_component(p.value.as_str()).as_str());
        } else {
            push_str(&mut out, p.key.as_str());
            push_str(&mut out, "=");
            push_str(&mut out, p.value.as_str());
        }
        proof {
            reveal_strlit("&");
        }
        assert(mid =~= prev + (if i + 1 > 1 { "&"@ } else { Seq::<char>::empty() }));
        i = i + 1;
    }
    assert(pv.take(pv.len() as int) =~= pv);
    string_of(&out)
}

/// What a search looks for: everything, or authors.
#[derive(Clone, Copy, PartialEq, Eq, Structural)]
pub enum SearchType {
    All,
    Author,
}

/// The value of the `q_type` parameter of a search type.
pub open spec fn search_type_text(t: SearchType) -> Seq<char> {
    match t {
        SearchType::All => Seq::empty(),
        SearchType::Author => "author"@,
    }
}

/// The query of a search: offset and platform, limit 12, the keyword (to be
/// percent-encoded) and the search type.
pub open spec fn search_query_spec(page: i32, keyword: Seq<char>, t: SearchType) -> Seq<(Seq<char>, Seq<char>, bool)> {
    seq![
        ("offset"@, int_decimal(offset_spec(page, 12)), false),
        ("platform"@, "2"@, false),
        ("limit"@, "12"@, false),
        ("q"@, keyword, true),
        ("q_type"@, search_type_text(t), false),
    ]
}

/// The query of a search (`SearchQuery::new`).
pub fn search_query(page: i32, keyword: &str, t: SearchType) -> (r: Vec<QueryParam>)
    ensures
        params_view(r@) == search_query_spec(page, keyword@, t),
{
    let mut ps: Vec<QueryParam> = Vec::new();
    let off = string_of(&i64_decimal(offset(page, 12) as i64));
    push_param(&mut ps, "offset", off.as_str(), false);
    push_param(&mut ps, "platform", "2", false);
    push_param(&mut ps, "limit", "12", false);
    push_param(&mut ps, "q", keyword, true);
    let ghost before = ps@;
    match t {
        SearchType::All => {
            ps.push(QueryParam { key: string_of(&chars_of("q_type")), value: String::new(), encode: false });
            assert(params_view(ps@) =~= params_view(before).push(("q_type"@, Seq::<char>::empty(), false)));
        },
        SearchType::Author => {
            push_param(&mut ps, "q_type", "author", false);
        },
    }
    assert(params_view(ps@) =~= search_query_spec(page, keyword@, t));
    ps
}

/// The genre filter as the genre page lists it: the option names and the
/// theme id of each.
pub struct GenreList {
    pub options: Vec<String>,
    pub ids: Option<Vec<String>>,
}

/// The request that a search or the filters make.
pub enum Plan {
    /// A search through the site's search API, with this query.
    Search { query: Vec<QueryParam> },
    /// A catalogue page with this query.
    Filters { query: Vec<QueryParam> },
}

/// Why the filters cannot be turned into a request.
#[derive(Debug, PartialEq, Eq, Structural)]
pub enum FilterError {
    /// A text filter other than the author.
    InvalidTextFilter,
    /// A sort filter other than the order.
    InvalidSortFilter,
    /// A sort option that does not exist.
    InvalidSortIndex,
    /// A select filter the site does not have.
    InvalidSelectFilter,
    /// A genre that the genre list does not have.
    GenreNotFound,
    /// A filter of a kind the site does not have.
    InvalidFilter,
}

/// What a `Plan` denotes.
pub enum PlanView {
    Search { query: Seq<(Seq<char>, Seq<char>, bool)> },
    Filters { query: Seq<(Seq<char>, Seq<char>, bool)> },
}

/// What a plan denotes.
pub open spec fn plan_view(p: Plan) -> PlanView {
    match p {
        Plan::Search { query } => PlanView::Search { query: params_view(query@) },
        Plan::Filters { query } => PlanView::Filters { query: params_view(query@) },
    }
}

/// The catalogue parameters while the filters are read: genre, status,
/// region, ascending, order.
pub type FilterState = (Seq<char>, Seq<char>, Seq<char>, bool, Seq<char>);

/// Where reading the filters stands: still reading, or decided.
pub enum Reading {
    Going(FilterState),
    Done(Result<PlanView, FilterError>),
}

/// The theme id of a genre option, if the list has the option and an id for
/// it.
pub open spec fn genre_id_spec(genres: GenreList, value: Seq<char>) -> Option<Seq<char>> {
    let k = find_first_index(string_views(genres.options@).map_values(|o: Seq<char>| o == value));
    if k < 0 {
        None
    } else {
        match genres.ids {
            Some(ids) => if k < ids@.len() {
                Some(ids@[k]@)
            } else {
                None
            },
            None => None,
        }
    }
}

/// What one filter does: the author searches by author; the order and the
/// selects set parameters; anything else is an error.
pub open spec fn read_step(r: Reading, f: FilterValue, page: i32, genres: GenreList) -> Reading {
    match r {
        Reading::Done(x) => Reading::Done(x),
        Reading::Going(st) => match f {
            FilterValue::Text { id, value } => if id@ == "author"@ {
                Reading::Done(Ok(PlanView::Search { query: search_query_spec(page, value@, SearchType::Author) }))
            } else {
                Reading::Done(Err(FilterError::InvalidTextFilter))
            },
            FilterValue::Sort { id, index, ascending } => if id@ == "排序"@ {
                match sort_spec(index) {
                    Some(s) => Reading::Going((st.0, st.1, st.2, ascending, s)),
                    None => Reading::Done(Err(FilterError::InvalidSortIndex)),
                }
            } else {
                Reading::Done(Err(FilterError::InvalidSortFilter))
            },
            FilterValue::Select { id, value } => if id@ == "地區"@ {
                Reading::Going((st.0, st.1, value@, st.3, st.4))
            } else if id@ == "狀態"@ {
                Reading::Going((st.0, value@, st.2, st.3, st.4))
            } else if id@ == "題材"@ {
                Reading::Going((value@, st.1, st.2, st.3, st.4))
            } else if id@ == "genre"@ {
                match genre_id_spec(genres, value@) {
                    Some(g) => Reading::Going((g, st.1, st.2, st.3, st.4)),
                    None => Reading::Done(Err(FilterError::GenreNotFound)),
                }
            } else {
                Reading::Done(Err(FilterError::InvalidSelectFilter))
            },
            _ => Reading::Done(Err(FilterError::InvalidFilter)),
        },
    }
}

/// Where reading the filters stands after them, in order.
pub open spec fn read_fold(fs: Seq<FilterValue>, page: i32, genres: GenreList) -> Reading
    decreases fs.len(),
{
    if fs.len() == 0 {
        Reading::Going((Seq::empty(), Seq::empty(), Seq::empty(), false, "datetime_updated"@))
    } else {
        read_step(read_fold(fs.drop_last(), page, genres), fs.last(), page, genres)
    }
}

/// The request a query or the filters make: a query searches everything;
/// else the filters, read in order, decide.
pub open spec fn plan_spec(query: Option<Seq<char>>, page: i32, fs: Seq<FilterValue>, genres: GenreList) -> Result<PlanView, FilterError> {
    match query {
        Some(q) => Ok(PlanView::Search { query: search_query_spec(page, q, SearchType::All) }),
        None => match read_fold(fs, page, genres) {
            Reading::Done(x) => x,
            Reading::Going(st) => Ok(PlanView::Filters { query: filters_query_spec(st.0, st.1, st.2, st.3, st.4, page) }),
        },
    }
}

proof fn lemma_done_stays(fs: Seq<FilterValue>, page: i32, genres: GenreList, i: int)
    requires
        0 <= i <= fs.len(),
        read_fold(fs.take(i), page, genres) is Done,
    ensures
        read_fold(fs, page, genres) == read_fold(fs.take(i), page, genres),
    decreases fs.len() - i,
{
    if i < fs.len() {
        assert(fs.take(i + 1).drop_last() =~= fs.take(i));
        lemma_done_stays(fs, page, genres, i + 1);
    } else {
        assert(fs.take(i) =~= fs);
    }
}

fn genre_id(genres: &GenreList, value: &str) -> (r: Option<String>)
    ensures
        opt_view(r) == genre_id_spec(*genres, value@),
{
    let ghost flags = string_views(genres.options@).map_values(|o: Seq<char>| o == value@);
    let mut j: usize = 0;
    while j < genres.options.len()
        invariant
            j <= genres.options@.len(),
            flags == string_views(genres.options@).map_values(|o: Seq<char>| o == value@),
            forall|k: int| 0 <= k < j ==> !flags[k],
        decreases genres.options@.len() - j,
    {
        if str_eq(genres.options[j].as_str(), value) {
            proof {
                lemma_find_first_index(flags, j as int);
            }
            return match &genres.ids {
                Some(ids) => if j < ids.len() {
                    Some(ids[j].clone())
                } else {
                    None
                },
                None => None,
            };
        }
        j = j + 1;
    }
    proof {
        lemma_find_first_none(flags);
    }
    None
}

/// The request a search query or the filters make (`from_query_or_filters`).
/// `genres` is the genre list of the site's genre page; it is read only for
/// a `genre` filter.
pub fn from_query_or_filters(query: Option<&str>, page: i32, filters: &[FilterValue], genres: &GenreList) -> (r: Result<Plan, FilterError>)
    ensures
        match r {
            Ok(p) => plan_spec(opt_str_view(query), page, filters@, *genres) == Ok::<PlanView, FilterError>(plan_view(p)),
            Err(e) => plan_spec(opt_str_view(query), page, filters@, *genres) == Err::<PlanView, FilterError>(e),
        },
{
    if let Some(q) = query {
        return Ok(Plan::Search { query: search_query(page, q, SearchType::All) });
    }
    let mut genre = String::new();
    let mut status = String::new();
    let mut region = String::new();
    let mut is_asc = false;
    let mut sort: &'static str = "datetime_updated";
    let mut i: usize = 0;
    assert(filters@.take(0) =~= Seq::<FilterValue>::empty());
    while i < filters.len()
        invariant
            i <= filters@.len(),
            query is None,
            read_fold(filters@.take(i as int), page, *genres) == Reading::Going((genre@, status@, region@, is_asc, sort@)),
        decreases filters@.len() - i,
    {
        let ghost prev = filters@.take(i as int);
        assert(filters@.take(i + 1).drop_last() =~= prev);
        match &filters[i] {
            FilterValue::Text { id, value } => {
                if str_eq(id.as_str(), "author") {
                    let q = search_query(page, value.as_str(), SearchType::Author);
                    proof {
                        lemma_done_stays(filters@, page, *genres, i + 1);
                    }
                    return Ok(Plan::Search { query: q });
                }
                proof {
                    lemma_done_stays(filters@, page, *genres, i + 1);
                }
                return Err(FilterError::InvalidTextFilter);
            },
            FilterValue::Sort { id, index, ascending } => {
                if !str_eq(id.as_str(), "排序") {
                    proof {
                        lemma_done_stays(filters@, page, *genres, i + 1);
                    }
                    return Err(FilterError::InvalidSortFilter);
                }
                match sort_name(*index) {
                    Some(s) => {
                        is_asc = *ascending;
                        sort = s;
                    },
                    None => {
                        proof {
                            lemma_done_stays(filters@, page, *genres, i + 1);
                        }
                        return Err(FilterError::InvalidSortIndex);
                    },
                }
            },
            FilterValue::Select { id, value } => {
                let id = id.as_str();
                if str_eq(id, "地區") {
                    region = value.clone();
                } else if str_eq(id, "狀態") {
                    status = value.clone();
                } else if str_eq(id, "題材") {
                    genre = value.clone();
                } else if str_eq(id, "genre") {
                    match genre_id(genres, value.as_str()) {
                        Some(g) => {
                            genre = g;
                        },
                        None => {
                            proof {
                                lemma_done_stays(filters@, page, *genres, i + 1);
                            }
                            return Err(FilterError::GenreNotFound);
                        },
                    }
                } else {
                    proof {
                        lemma_done_stays(filters@, page, *genres, i + 1);
                    }
                    return Err(FilterError::InvalidSelectFilter);
                }
            },
            _ => {
                proof {
                    lemma_done_stays(filters@, page, *genres, i + 1);
                }
                return Err(FilterError::InvalidFilter);
            },
        }
        i = i + 1;
    }
    assert(filters@.take(filters@.len() as int) =~= filters@);
    Ok(Plan::Filters { query: filters_query(genre.as_str(), status.as_str(), region.as_str(), is_asc, sort, page) })
}


// ---------------------------------------------------------------------------
// Merging chapter groups
// ---------------------------------------------------------------------------

/// `grp` merged into `chs` from position `idx` on: the group's chapters are
/// taken last first; each goes before the first chapter, from the position
/// reached, whose date is earlier than its own.
pub open spec fn merge_in<T>(chs: Seq<(i64, T)>, idx: int, grp: Seq<(i64, T)>) -> Seq<(i64, T)>
    decreases grp.len(), chs.len() - idx,
{
    if grp.len() == 0 {
        chs
    } else if 0 <= idx < chs.len() && chs[idx].0 >= grp.last().0 {
        merge_in(chs, idx + 1, grp)
    } else if 0 <= idx <= chs.len() {
        merge_in(chs.insert(idx, grp.last()), idx + 1, grp.drop_last())
    } else {
        chs
    }
}

/// The chapters of the first `k` groups merged: the first group reversed,
/// then each further group merged into it.
pub open spec fn merge_prefix<T>(groups: Seq<Seq<(i64, T)>>, k: nat) -> Seq<(i64, T)>
    decreases k,
{
    if k <= 1 {
        groups[0].reverse()
    } else {
        merge_in(merge_prefix(groups, (k - 1) as nat), 0, groups[k - 1])
    }
}

/// The chapters of all groups merged by upload date, or none when there is
/// no group.
pub open spec fn merge_spec<T>(groups: Seq<Seq<(i64, T)>>) -> Option<Seq<(i64, T)>> {
    if groups.len() == 0 {
        None
    } else {
        Some(merge_prefix(groups, groups.len()))
    }
}

/// The chapters of each group.
pub open spec fn group_views<T>(groups: Seq<Vec<(i64, T)>>) -> Seq<Seq<(i64, T)>> {
    groups.map_values(|g: Vec<(i64, T)>| g@)
}

fn reversed<T>(v: Vec<(i64, T)>) -> (r: Vec<(i64, T)>)
    ensures
        r@ == v@.reverse(),
{
    let ghost orig = v@;
    let mut v = v;
    let mut out: Vec<(i64, T)> = Vec::new();
    while v.len() > 0
        invariant
            v@.len() <= orig.len(),
            v@ == orig.take(v@.len() as int),
            out@ == orig.reverse().take(orig.len() - v@.len()),
        decreases v@.len(),
    {
        let ghost n = v@.len();
        let x = v.pop().unwrap();
        assert(x == orig[n - 1]);
        assert(orig.take(n - 1) =~= orig.take(n as int).drop_last());
        assert(orig.reverse().take(orig.len() - (n - 1)) =~= orig.reverse().take(orig.len() - n).push(x));
        out.push(x);
    }
    assert(orig.reverse().take(orig.len() as int) =~= orig.reverse());
    out
}

fn merge_group<T>(chapters: &mut Vec<(i64, T)>, group: Vec<(i64, T)>)
    ensures
        final(chapters)@ == merge_in(old(chapters)@, 0, group@),
{
    let ghost target = merge_in(chapters@, 0, group@);
    let mut group = group;
    let mut index: usize = 0;
    while group.len() > 0
        invariant
            index <= chapters@.len(),
            merge_in(chapters@, index as int, group@) == target,
        decreases group@.len(),
    {
        let ghost g = group@;
        let ch = group.pop().unwrap();
        assert(g.last() == ch && g.drop_last() == group@);
        while index < chapters.len() && chapters[index].0 >= ch.0
            invariant
                index <= chapters@.len(),
                g.len() > 0,
                g.last() == ch,
                g.drop_last() == group@,
                merge_in(chapters@, index as int, g) == target,
            decreases chapters@.len() - index,
        {
            index = index + 1;
        }
        chapters.insert(index, ch);
        let l = chapters.len();
        assert(index < l);
        index = index + 1;
    }
    assert(merge_in(chapters@, index as int, group@) == chapters@);
}

/// The chapters of all groups merged by upload date (`From<Results>`): each
/// chapter carries its upload date (0 when unknown). `groups` come in the
/// order the response's map gives them.
pub fn merge_groups<T>(groups: Vec<Vec<(i64, T)>>) -> (r: Option<Vec<(i64, T)>>)
    ensures
        match r {
            Some(v) => merge_spec(group_views(groups@)) == Some(v@),
            None => merge_spec(group_views(groups@)) is None,
        },
{
    let ghost orig = group_views(groups@);
    let ghost vs = groups@;
    let n = groups.len();
    if n == 0 {
        return None;
    }
    let mut rest = groups;
    let first = rest.remove(0);
    assert(first@ == orig[0]);
    let mut chapters = reversed(first);
    assert(rest@ =~= vs.skip(1));
    let mut k: usize = 1;
    while rest.len() > 0
        invariant
            1 <= k <= n,
            orig.len() == n,
            orig == group_views(vs),
            k + rest@.len() == n,
            rest@ == vs.skip(k as int),
            chapters@ == merge_prefix(orig, k as nat),
        decreases rest@.len(),
    {
        let g = rest.remove(0);
        assert(g@ == orig[k as int]);
        merge_group(&mut chapters, g);
        k = k + 1;
        assert(rest@ =~= vs.skip(k as int));
    }
    Some(chapters)
}

/// Chapters from latest to earliest upload.
pub open spec fn is_descending<T>(s: Seq<(i64, T)>) -> bool {
    forall|i: int, j: int| 0 <= i < j < s.len() ==> #[trigger] s[i].0 >= #[trigger] s[j].0
}

/// Chapters from earliest to latest upload.
pub open spec fn is_ascending<T>(s: Seq<(i64, T)>) -> bool {
    forall|i: int, j: int| 0 <= i < j < s.len() ==> #[trigger] s[i].0 <= #[trigger] s[j].0
}

proof fn lemma_merge_in_sorted<T>(chs: Seq<(i64, T)>, idx: int, grp: Seq<(i64, T)>)
    requires
        is_descending(chs),
        is_ascending(grp),
        0 <= idx <= chs.len(),
        grp.len() > 0 ==> forall|j: int| 0 <= j < idx ==> #[trigger] chs[j].0 >= grp.last().0,
    ensures
        is_descending(merge_in(chs, idx, grp)),
    decreases grp.len(), chs.len() - idx,
{
    if grp.len() == 0 {
    } else if idx < chs.len() && chs[idx].0 >= grp.last().0 {
        lemma_merge_in_sorted(chs, idx + 1, grp);
    } else {
        let x = grp.last();
        let n = chs.insert(idx, x);
        let g2 = grp.drop_last();
        assert forall|i: int, j: int| 0 <= i < j < n.len() implies #[trigger] n[i].0 >= #[trigger] n[j].0 by {
            if j < idx {
                assert(n[i] == chs[i] && n[j] == chs[j]);
            } else if j == idx {
                assert(n[i] == chs[i]);
            } else if i < idx {
                assert(n[i] == chs[i] && n[j] == chs[j - 1]);
            } else if i == idx {
                assert(n[j] == chs[j - 1]);
                assert(chs[idx].0 >= chs[j - 1].0 || idx == j - 1);
            } else {
                assert(n[i] == chs[i - 1] && n[j] == chs[j - 1]);
            }
        }
        assert forall|i: int, j: int| 0 <= i < j < g2.len() implies #[trigger] g2[i].0 <= #[trigger] g2[j].0 by {
            assert(g2[i] == grp[i] && g2[j] == grp[j]);
        }
        if g2.len() > 0 {
            assert(g2.last() == grp[grp.len() - 2]);
            assert(grp[grp.len() - 2].0 <= grp[grp.len() - 1].0);
            assert forall|j: int| 0 <= j < idx + 1 implies #[trigger] n[j].0 >= g2.last().0 by {
                if j < idx {
                    assert(n[j] == chs[j]);
                }
            }
        }
        lemma_merge_in_sorted(n, idx + 1, g2);
    }
}

proof fn lemma_merge_in_multiset<T>(chs: Seq<(i64, T)>, idx: int, grp: Seq<(i64, T)>)
    requires
        0 <= idx <= chs.len(),
    ensures
        merge_in(chs, idx, grp).to_multiset() == chs.to_multiset().add(grp.to_multiset()),
    decreases grp.len(), chs.len() - idx,
{
    broadcast use vstd::multiset::group_multiset_axioms;
    if grp.len() == 0 {
        vstd::seq_lib::to_multiset_len(grp);
        vstd::multiset::lemma_multiset_empty_len(grp.to_multiset());
        assert(chs.to_multiset().add(grp.to_multiset()) =~= chs.to_multiset());
    } else if idx < chs.len() && chs[idx].0 >= grp.last().0 {
        lemma_merge_in_multiset(chs, idx + 1, grp);
    } else {
        let x = grp.last();
        let g2 = grp.drop_last();
        lemma_merge_in_multiset(chs.insert(idx, x), idx + 1, g2);
        vstd::seq_lib::to_multiset_insert(chs, idx, x);
        assert(g2.push(x) =~= grp);
        vstd::seq_lib::to_multiset_build(g2, x);
        assert(chs.to_multiset().insert(x).add(g2.to_multiset()) =~= chs.to_multiset().add(g2.to_multiset().insert(x)));
    }
}

/// The chapters of all groups together.
pub open spec fn all_chapters<T>(groups: Seq<Seq<(i64, T)>>) -> Seq<(i64, T)>
    decreases groups.len(),
{
    if groups.len() == 0 {
        Seq::empty()
    } else {
        all_chapters(groups.drop_last()) + groups.last()
    }
}

proof fn lemma_prefix_laws<T>(groups: Seq<Seq<(i64, T)>>, k: nat)
    requires
        1 <= k <= groups.len(),
    ensures
        merge_prefix(groups, k).to_multiset() == all_chapters(groups.take(k as int)).to_multiset(),
        (forall|g: int| 0 <= g < groups.len() ==> is_ascending(#[trigger] groups[g])) ==> is_descending(merge_prefix(groups, k)),
    decreases k,
{
    broadcast use vstd::multiset::group_multiset_axioms;
    broadcast use vstd::seq_lib::lemma_multiset_commutative;
    if k == 1 {
        groups[0].lemma_reverse_to_multiset();
        assert(groups.take(1).drop_last() =~= Seq::<Seq<(i64, T)>>::empty());
        assert(groups.take(1).last() == groups[0]);
        assert(groups.take(1).len() == 1);
        assert(all_chapters(groups.take(1).drop_last()) == Seq::<(i64, T)>::empty());
        assert(all_chapters(groups.take(1)) == all_chapters(groups.take(1).drop_last()) + groups[0]);
        assert(Seq::<(i64, T)>::empty() + groups[0] =~= groups[0]);
        if forall|g: int| 0 <= g < groups.len() ==> is_ascending(#[trigger] groups[g]) {
            let r = groups[0].reverse();
            assert(is_ascending(groups[0]));
            assert forall|i: int, j: int| 0 <= i < j < r.len() implies #[trigger] r[i].0 >= #[trigger] r[j].0 by {
                assert(r[i] == groups[0][groups[0].len() - 1 - i]);
                assert(r[j] == groups[0][groups[0].len() - 1 - j]);
            }
        }
    } else {
        lemma_prefix_laws(groups, (k - 1) as nat);
        let prev = merge_prefix(groups, (k - 1) as nat);
        lemma_merge_in_multiset(prev, 0, groups[k - 1]);
        assert(groups.take(k as int).drop_last() =~= groups.take(k - 1));
        if forall|g: int| 0 <= g < groups.len() ==> is_ascending(#[trigger] groups[g]) {
            assert(is_ascending(groups[k - 1]));
            lemma_merge_in_sorted(prev, 0, groups[k - 1]);
        }
    }
}

/// Merging loses and adds no chapter: the merged list holds exactly the
/// chapters of all groups.
pub proof fn law_merge_keeps_chapters<T>(groups: Seq<Seq<(i64, T)>>)
    requires
        groups.len() > 0,
    ensures
        merge_spec(groups) is Some,
        merge_spec(groups)->0.to_multiset() == all_chapters(groups).to_multiset(),
        merge_spec(groups)->0.len() == all_chapters(groups).len(),
{
    lemma_prefix_laws(groups, groups.len());
    assert(groups.take(groups.len() as int) =~= groups);
    vstd::seq_lib::to_multiset_len(merge_spec(groups)->0);
    vstd::seq_lib::to_multiset_len(all_chapters(groups));
}

/// When every group lists its chapters from earliest to latest upload, the
/// merged list runs from latest to earliest.
pub proof fn law_merge_sorted<T>(groups: Seq<Seq<(i64, T)>>)
    requires
        groups.len() > 0,
        forall|g: int| 0 <= g < groups.len() ==> is_ascending(#[trigger] groups[g]),
    ensures
        is_descending(merge_spec(groups)->0),
{
    lemma_prefix_laws(groups, groups.len());
}


// ---------------------------------------------------------------------------
// Reading the site's pages
// ---------------------------------------------------------------------------

/// The text after the last `=` of a link, which is a theme id.
pub open spec fn after_last_eq(href: Seq<char>) -> Option<Seq<char>> {
    let k = rfind_char(href, '=');
    if k < 0 {
        None
    } else {
        Some(href.skip(k + 1))
    }
}

/// An entry of the genre page: its own text and its link.
pub struct GenreLink {
    pub text: Option<String>,
    pub href: Option<String>,
}

/// The options and ids of the entries that have a text and a link with `=`.
pub open spec fn genre_pairs(entries: Seq<GenreLink>) -> Seq<(Seq<char>, Seq<char>)>
    decreases entries.len(),
{
    if entries.len() == 0 {
        Seq::empty()
    } else {
        let p = genre_pairs(entries.drop_last());
        let e = entries.last();
        match (e.text, e.href) {
            (Some(t), Some(h)) => match after_last_eq(h@) {
                Some(id) => p.push((t@, id)),
                None => p,
            },
            _ => p,
        }
    }
}

/// The genre filter of the genre page (`GenresPage::filter`): 全部 with the
/// empty id first, then each entry that has a text and a theme id.
pub fn genre_filter(entries: &Vec<GenreLink>) -> (r: GenreList)
    ensures
        string_views(r.options@) == seq!["全部"@] + genre_pairs(entries@).map_values(|p: (Seq<char>, Seq<char>)| p.0),
        r.ids is Some,
        string_views(r.ids->0@) == seq![Seq::<char>::empty()] + genre_pairs(entries@).map_values(|p: (Seq<char>, Seq<char>)| p.1),
{
    let mut options: Vec<String> = Vec::new();
    let mut ids: Vec<String> = Vec::new();
    options.push(string_of(&chars_of("全部")));
    ids.push(String::new());
    let mut i: usize = 0;
    assert(entries@.take(0) =~= Seq::<GenreLink>::empty());
    assert(string_views(options@) =~= seq!["全部"@]);
    assert(string_views(ids@) =~= seq![Seq::<char>::empty()]);
    while i < entries.len()
        invariant
            i <= entries@.len(),
            string_views(options@) == seq!["全部"@] + genre_pairs(entries@.take(i as int)).map_values(|p: (Seq<char>, Seq<char>)| p.0),
            string_views(ids@) == seq![Seq::<char>::empty()] + genre_pairs(entries@.take(i as int)).map_values(|p: (Seq<char>, Seq<char>)| p.1),
        decreases entries@.len() - i,
    {
        assert(entries@.take(i + 1).drop_last() =~= entries@.take(i as int));
        assert(entries@.take(i + 1).last() == entries@[i as int]);
        let ghost prev = genre_pairs(entries@.take(i as int));
        let e = &entries[i];
        if let (Some(t), Some(h)) = (&e.text, &e.href) {
            let hc = chars_of(h.as_str());
            if let Some(k) = rfind_char_chars(&hc, '=') {
                let n = hc.len();
                let id = slice_chars(&hc, k + 1, n);
                assert(id@ =~= h@.skip(k + 1));
                let ghost o_before = options@;
                let ghost i_before = ids@;
                options.push(t.clone());
                ids.push(string_of(&id));
                assert(string_views(options@) =~= string_views(o_before).push(t@));
                assert(string_views(ids@) =~= string_views(i_before).push(id@));
                assert(genre_pairs(entries@.take(i + 1)) == prev.push((t@, id@)));
                assert(prev.push((t@, id@)).map_values(|p: (Seq<char>, Seq<char>)| p.0) =~= prev.map_values(|p: (Seq<char>, Seq<char>)| p.0).push(t@));
                assert(prev.push((t@, id@)).map_values(|p: (Seq<char>, Seq<char>)| p.1) =~= prev.map_values(|p: (Seq<char>, Seq<char>)| p.1).push(id@));
            }
        }
        i = i + 1;
    }
    assert(entries@.take(entries@.len() as int) =~= entries@);
    GenreList { options, ids: Some(ids) }
}

/// The search API address that the search page names: what follows
/// `const countApi = "` up to the next `"`.
pub open spec fn search_api_spec(page: Seq<char>) -> Option<Seq<char>> {
    let marker = "const countApi = \""@;
    let k = find(page, marker);
    if k < 0 {
        None
    } else {
        let rest = page.skip(k + marker.len());
        let e = find(rest, seq!['"']);
        if e < 0 {
            None
        } else {
            Some(rest.take(e))
        }
    }
}

/// The search API address that the search page names (`Url::search`).
pub fn search_api(page: &str) -> (r: Option<String>)
    ensures
        opt_view(r) == search_api_spec(page@),
{
    let v = chars_of(page);
    let marker = chars_of("const countApi = \"");
    match find_chars(&v, &marker) {
        None => None,
        Some(k) => {
            let n = v.len();
            let m = marker.len();
            assert(k + m <= n);
            let rest = slice_chars(&v, k + m, n);
            assert(rest@ =~= v@.skip(k + m));
            let mut q: Vec<char> = Vec::new();
            q.push('"');
            assert(q@ =~= seq!['"']);
            match find_chars(&rest, &q) {
                None => None,
                Some(e) => {
                    let api = slice_chars(&rest, 0, e);
                    assert(api@ =~= rest@.take(e as int));
                    Some(string_of(&api))
                },
            }
        },
    }
}

/// More search results follow: the results shown so far, offset plus limit,
/// are fewer than the total (and their count fits in a `u16`).
pub fn search_has_next(offset: u16, limit: u16, total: u16) -> (r: bool)
    ensures
        r == (offset + limit <= u16::MAX && offset + limit < total),
{
    match offset.checked_add(limit) {
        Some(shown) => shown < total,
        None => false,
    }
}

/// The key of a chapter page: the first quoted text (between the first two
/// `'`) of the script.
pub open spec fn script_key_spec(script: Seq<char>) -> Option<Seq<char>> {
    piece_after(script, seq!['\''])
}

/// The key of a chapter page (`KeyPage::key`), from its script.
pub fn script_key(script: &str) -> (r: Option<String>)
    ensures
        opt_view(r) == script_key_spec(script@),
{
    let mut q: Vec<char> = Vec::new();
    q.push('\'');
    assert(q@ =~= seq!['\'']);
    match piece_after_chars(&chars_of(script), &q) {
        Some(k) => Some(string_of(&k)),
        None => None,
    }
}

/// The encrypted page list of a chapter page: what the script assigns to
/// `contentKey`, between `var contentKey = '` and the next `';`.
pub open spec fn content_key_spec(script: Seq<char>) -> Option<Seq<char>> {
    let marker = "var contentKey = '"@;
    let k = find(script, marker);
    if k < 0 {
        None
    } else {
        let rest = script.skip(k + marker.len());
        let e = find(rest, "';"@);
        if e < 0 {
            None
        } else {
            Some(rest.take(e))
        }
    }
}

/// The encrypted page list of a chapter page (`ChapterPage::pages`).
pub fn content_key(script: &str) -> (r: Option<String>)
    ensures
        opt_view(r) == content_key_spec(script@),
{
    let v = chars_of(script);
    let marker = chars_of("var contentKey = '");
    match find_chars(&v, &marker) {
        None => None,
        Some(k) => {
            let n = v.len();
            let m = marker.len();
            assert(k + m <= n);
            let rest = slice_chars(&v, k + m, n);
            assert(rest@ =~= v@.skip(k + m));
            match find_chars(&rest, &chars_of("';")) {
                None => None,
                Some(e) => {
                    let c = slice_chars(&rest, 0, e);
                    assert(c@ =~= rest@.take(e as int));
                    Some(string_of(&c))
                },
            }
        },
    }
}

/// The status a detail page's status text gives.
pub open spec fn status_spec(text: Option<Seq<char>>) -> MangaStatus {
    match text {
        Some(t) => if t == "連載中"@ {
            MangaStatus::Ongoing
        } else if t == "已完結"@ || t == "短篇"@ {
            MangaStatus::Completed
        } else {
            MangaStatus::Unknown
        },
        None => MangaStatus::Unknown,
    }
}

/// The status a detail page's status text gives.
pub fn status_from_text(text: Option<&str>) -> (r: MangaStatus)
    ensures
        r == status_spec(opt_str_view(text)),
{
    match text {
        Some(t) => if str_eq(t, "連載中") {
            MangaStatus::Ongoing
        } else if str_eq(t, "已完結") || str_eq(t, "短篇") {
            MangaStatus::Completed
        } else {
            MangaStatus::Unknown
        },
        None => MangaStatus::Unknown,
    }
}

/// The full-size cover of a resized one: without `.328x422.jpg`.
pub fn full_cover(resized: &str) -> (r: String)
    ensures
        r@ == replace_all(resized@, ".328x422.jpg"@, Seq::empty()),
{
    let suffix = chars_of(".328x422.jpg");
    proof {
        reveal_strlit(".328x422.jpg");
    }
    let none: Vec<char> = Vec::new();
    string_of(&replace_all_chars(&chars_of(resized), &suffix, &none))
}

/// A tag without its leading `#`; none when it has none.
pub fn tag_text(text: &str) -> (r: Option<String>)
    ensures
        match r {
            Some(t) => text@.len() > 0 && text@[0] == '#' && t@ == text@.drop_first(),
            None => !(text@.len() > 0 && text@[0] == '#'),
        },
{
    let v = chars_of(text);
    if v.len() > 0 && v[0] == '#' {
        let n = v.len();
        let t = slice_chars(&v, 1, n);
        assert(t@ =~= text@.drop_first());
        Some(string_of(&t))
    } else {
        None
    }
}

/// A page of the site, below the configured base address. Query texts are
/// the query parameters as `query_text` writes them.
pub enum Url {
    /// The genre list.
    GenresPage,
    /// A catalogue page.
    Filters { query: String },
    /// The search page, which names the search API.
    SearchPage,
    /// A search through the search API.
    Search { api: String, query: String },
    /// A title.
    Manga { key: String },
    /// A title's chapter list.
    ChapterList { manga_key: String },
    /// A chapter.
    Chapter { manga_key: String, key: String },
}

/// The address of a page below the base address `base`.
pub open spec fn url_text(p: Url, base: Seq<char>) -> Seq<char> {
    match p {
        Url::GenresPage => base + "/filter"@,
        Url::Filters { query } => base + "/comics?"@ + query@,
        Url::SearchPage => base + "/search"@,
        Url::Search { api, query } => base + api@ + "?"@ + query@,
        Url::Manga { key } => base + "/comic/"@ + key@,
        Url::ChapterList { manga_key } => base + "/comicdetail/"@ + manga_key@ + "/chapters"@,
        Url::Chapter { manga_key, key } => base + "/comic/"@ + manga_key@ + "/chapter/"@ + key@,
    }
}

impl Url {
    /// A title.
    pub fn manga(key: &str) -> (r: Url)
        ensures
            r matches Url::Manga { key: k } && k@ == key@,
    {
        Url::Manga { key: string_of(&chars_of(key)) }
    }

    /// A title's chapter list.
    pub fn chapter_list(manga_key: &str) -> (r: Url)
        ensures
            r matches Url::ChapterList { manga_key: k } && k@ == manga_key@,
    {
        Url::ChapterList { manga_key: string_of(&chars_of(manga_key)) }
    }

    /// A chapter.
    pub fn chapter(manga_key: &str, key: &str) -> (r: Url)
        ensures
            r matches Url::Chapter { manga_key: m, key: k } && m@ == manga_key@ && k@ == key@,
    {
        Url::Chapter { manga_key: string_of(&chars_of(manga_key)), key: string_of(&chars_of(key)) }
    }

    /// The address of this page below the base address (`to_string`).
    pub fn to_url(&self, base: &str) -> (r: String)
        ensures
            r@ == url_text(*self, base@),
    {
        let mut a: Vec<char> = Vec::new();
        push_str(&mut a, base);
        match self {
            Url::GenresPage => push_str(&mut a, "/filter"),
            Url::Filters { query } => {
                push_str(&mut a, "/comics?");
                push_str(&mut a, query.as_str());
            },
            Url::SearchPage => push_str(&mut a, "/search"),
            Url::Search { api, query } => {
                push_str(&mut a, api.as_str());
                push_str(&mut a, "?");
                push_str(&mut a, query.as_str());
            },
            Url::Manga { key } => {
                push_str(&mut a, "/comic/");
                push_str(&mut a, key.as_str());
            },
            Url::ChapterList { manga_key } => {
                push_str(&mut a, "/comicdetail/");
                push_str(&mut a, manga_key.as_str());
                push_str(&mut a, "/chapters");
            },
            Url::Chapter { manga_key, key } => {
                push_str(&mut a, "/comic/");
                push_str(&mut a, manga_key.as_str());
                push_str(&mut a, "/chapter/");
                push_str(&mut a, key.as_str());
            },
        }
        string_of(&a)
    }
}

// ---------------------------------------------------------------------------
// Chapter names
// ---------------------------------------------------------------------------

/// The pattern that splits a chapter name into a volume part (group 1, its
/// number in group 2), a chapter part (group 4, its number in group 6) and
/// a chapter range (group 8).
pub open spec fn name_pattern() -> Seq<char> {
    "^(?<volume>第?(?<volume_num>[\\d零一二三四五六七八九十百千]+(\\.\\d)?)[卷部季冊册]完?)?(?<chapter>(第|连载|CH)?(?<chapter_num>[\\d零一二三四五六七八九十百千]+(\\.\\d+)?)(?<more_chapters>-(\\d+(\\.\\d+)?))?[話话回]?)?([ +]|$)"@
}

/// What a chapter name gives: the text of its volume number, the text of
/// its chapter number, and the title left.
pub struct NameParts {
    pub volume: Option<String>,
    pub chapter: Option<String>,
    pub title: Option<String>,
}

/// A name that starts with 全一 or 全1 followed by one of `ends`.
pub open spec fn whole_one(name: Seq<char>, ends: Seq<char>) -> bool {
    name.len() >= 3 && name[0] == '全' && (name[1] == '一' || name[1] == '1') && ends.contains(name[2])
}

/// `s` without any occurrence of the group's text, when the group matched.
pub open spec fn without_group(s: Seq<char>, group: Option<Seq<char>>) -> Seq<char> {
    match group {
        Some(g) => replace_all(s, g, Seq::empty()),
        None => s,
    }
}

/// How a chapter name of a given kind splits: kind 3 names are titles only;
/// 全一卷 and 全一话 names are volume or chapter one; other names give the
/// numbers the pattern finds and keep as title what is left once the volume
/// part, and the chapter part unless it is a range, are taken out.
pub open spec fn name_parts_spec(kind: u8, name: Seq<char>) -> (Option<Seq<char>>, Option<Seq<char>>, Option<Seq<char>>) {
    if kind == 3 {
        (None, None, Some(name))
    } else if whole_one(name, seq!['卷', '冊', '册']) {
        (Some("1"@), None, Some(name))
    } else if whole_one(name, seq!['話', '话', '回']) {
        (None, Some("1"@), Some(name))
    } else if regex_captures_of(name_pattern(), name) is None {
        (None, None, Some(name))
    } else {
        let p = name_pattern();
        let no_volume = without_group(name, capture_spec(p, name, 1));
        let left = if capture_spec(p, name, 8) is None {
            without_group(no_volume, capture_spec(p, name, 4))
        } else {
            no_volume
        };
        (
            capture_spec(p, name, 2),
            capture_spec(p, name, 6),
            if trim(left).len() > 0 {
                Some(trim(left))
            } else {
                None
            },
        )
    }
}

fn group_at(gs: &Vec<Option<String>>, i: usize) -> (r: Option<String>)
    ensures
        opt_view(r) == (if i < gs@.len() {
            crate::primitives::group_views(gs@)[i as int]
        } else {
            None
        }),
{
    if i < gs.len() {
        match &gs[i] {
            Some(t) => Some(string_of(&chars_of(t.as_str()))),
            None => None,
        }
    } else {
        None
    }
}

fn remove_text(s: Vec<char>, group: &Option<String>) -> (r: Vec<char>)
    ensures
        r@ == without_group(s@, opt_view(*group)),
{
    match group {
        Some(g) => {
            let gv = chars_of(g.as_str());
            if gv.len() == 0 {
                proof {
                    reveal_strlit("");
                }
                s
            } else {
                let e: Vec<char> = Vec::new();
                assert(e@ =~= Seq::<char>::empty());
                replace_all_chars(&s, &gv, &e)
            }
        },
        None => s,
    }
}

/// Splits a chapter name (already trimmed) into the texts of its volume and
/// chapter numbers and the title left; the app reads the numbers.
pub fn chapter_name_parts(kind: u8, name: &str) -> (r: NameParts)
    ensures
        (opt_view(r.volume), opt_view(r.chapter), opt_view(r.title)) == name_parts_spec(kind, name@),
{
    let v = chars_of(name);
    if kind == 3 {
        return NameParts { volume: None, chapter: None, title: Some(string_of(&v)) };
    }
    if v.len() >= 3 && v[0] == '全' && (v[1] == '一' || v[1] == '1') {
        let c = v[2];
        if c == '卷' || c == '冊' || c == '册' {
            proof {
                reveal_strlit("1");
                assert(seq!['卷', '冊', '册'].contains(c) == (c == '卷' || c == '冊' || c == '册')) by {
                    if c == '卷' || c == '冊' || c == '册' {
                        assert(seq!['卷', '冊', '册'][0] == '卷');
                        assert(seq!['卷', '冊', '册'][1] == '冊');
                        assert(seq!['卷', '冊', '册'][2] == '册');
                    }
                }
            }
            return NameParts { volume: Some(string_of(&chars_of("1"))), chapter: None, title: Some(string_of(&v)) };
        }
        if c == '話' || c == '话' || c == '回' {
            proof {
                reveal_strlit("1");
                assert(!seq!['卷', '冊', '册'].contains(c));
                assert(seq!['話', '话', '回'][0] == '話');
                assert(seq!['話', '话', '回'][1] == '话');
                assert(seq!['話', '话', '回'][2] == '回');
            }
            return NameParts { volume: None, chapter: Some(string_of(&chars_of("1"))), title: Some(string_of(&v)) };
        }
        proof {
            assert(!seq!['卷', '冊', '册'].contains(c));
            assert(!seq!['話', '话', '回'].contains(c));
        }
    }
    let pattern = "^(?<volume>第?(?<volume_num>[\\d零一二三四五六七八九十百千]+(\\.\\d)?)[卷部季冊册]完?)?(?<chapter>(第|连载|CH)?(?<chapter_num>[\\d零一二三四五六七八九十百千]+(\\.\\d+)?)(?<more_chapters>-(\\d+(\\.\\d+)?))?[話话回]?)?([ +]|$)";
    let gs = match regex_captures(pattern, name) {
        Some(gs) => gs,
        None => {
            return NameParts { volume: None, chapter: None, title: Some(string_of(&v)) };
        },
    };
    let volume = group_at(&gs, 1);
    let volume_num = group_at(&gs, 2);
    let chapter = group_at(&gs, 4);
    let chapter_num = group_at(&gs, 6);
    let more = group_at(&gs, 8);
    let no_volume = remove_text(v, &volume);
    let left = if more.is_none() {
        remove_text(no_volume, &chapter)
    } else {
        no_volume
    };
    let t = trim_chars(&left);
    let title = if t.len() > 0 {
        Some(string_of(&t))
    } else {
        None
    };
    NameParts { volume: volume_num, chapter: chapter_num, title }
}

} // verus!
