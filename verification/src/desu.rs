//! Desu: the API's addresses for the chosen domain, the search query the
//! filters make, how the API's answers are read, and links into the site.
use vstd::prelude::*;

use crate::model::FilterValue;
use crate::text::{
    chars_of, contains_seq, i64_decimal, int_decimal, join, join_strings, opt_str_view, opt_view,
    pairs_view, push_pair, push_str, split_two, split_two_chars, str_eq, string_of, string_views,
    strip_prefix, strip_prefix_str,
};

verus! {

/// Entries per search page.
pub const PAGE_SIZE: usize = 20;

/// The domain used when the setting names none.
pub const DEFAULT_DOMAIN: &'static str = "desu.uno";

/// The domain: the setting, or `desu.uno`.
pub open spec fn domain_spec(setting: Option<Seq<char>>) -> Seq<char> {
    match setting {
        Some(d) => d,
        None => DEFAULT_DOMAIN@,
    }
}

/// The site for a domain setting.
pub fn base_url(domain: Option<&str>) -> (r: String)
    ensures
        r@ == "https://"@ + domain_spec(opt_str_view(domain)),
{
    let mut a: Vec<char> = Vec::new();
    push_str(&mut a, "https://");
    push_str(&mut a, match domain {
        Some(d) => d,
        None => DEFAULT_DOMAIN,
    });
    string_of(&a)
}

/// The API for a domain setting.
pub fn api_url(domain: Option<&str>) -> (r: String)
    ensures
        r@ == "https://"@ + domain_spec(opt_str_view(domain)) + "/manga/api"@,
{
    let mut a: Vec<char> = Vec::new();
    push_str(&mut a, "https://");
    push_str(&mut a, match domain {
        Some(d) => d,
        None => DEFAULT_DOMAIN,
    });
    push_str(&mut a, "/manga/api");
    string_of(&a)
}

/// Where a title is read.
pub fn title_url(api: &str, id: &str) -> (r: String)
    ensures
        r@ == api@ + "/"@ + id@,
{
    let mut a: Vec<char> = Vec::new();
    push_str(&mut a, api);
    push_str(&mut a, "/");
    push_str(&mut a, id);
    string_of(&a)
}

/// Where a chapter is read.
pub fn chapter_url(api: &str, item_id: &str, id: &str) -> (r: String)
    ensures
        r@ == api@ + "/"@ + item_id@ + "/chapter/"@ + id@,
{
    let mut a: Vec<char> = Vec::new();
    push_str(&mut a, api);
    push_str(&mut a, "/");
    push_str(&mut a, item_id);
    push_str(&mut a, "/chapter/");
    push_str(&mut a, id);
    string_of(&a)
}

// ---------------------------------------------------------------------------
// Search
// ---------------------------------------------------------------------------

/// The order a sort option asks for, or the order so far.
pub open spec fn order_spec(index: i32, current: Seq<char>) -> Seq<char> {
    if index == 0 {
        "id"@
    } else if index == 1 {
        "name"@
    } else if index == 2 {
        "popular"@
    } else {
        current
    }
}

/// The options of a multi-select: the included ones, then each excluded
/// one as `!option`.
pub open spec fn multi_values(included: Seq<Seq<char>>, excluded: Seq<Seq<char>>) -> Seq<Seq<char>> {
    included + excluded.map_values(|x: Seq<char>| "!"@ + x)
}

/// Where a search stands after some filters: the parameters so far, the
/// order, and the genres and tags collected.
pub open spec fn search_step(
    st: (Seq<(Seq<char>, Seq<char>)>, Seq<char>, Seq<Seq<char>>),
    f: FilterValue,
) -> (Seq<(Seq<char>, Seq<char>)>, Seq<char>, Seq<Seq<char>>) {
    let (ps, order, genres) = st;
    match f {
        FilterValue::Sort { index, .. } => (ps, order_spec(index, order), genres),
        FilterValue::MultiSelect { id, included, excluded } => {
            let v = multi_values(string_views(included@), string_views(excluded@));
            if id@ == "genres"@ || id@ == "tags"@ {
                (ps, order, genres + v)
            } else {
                (ps.push((id@, join(v, ","@))), order, genres)
            }
        },
        FilterValue::Select { id, value } => (ps.push((id@, value@)), order, genres),
        _ => st,
    }
}

/// The search after all filters, from a start.
pub open spec fn search_fold(
    st: (Seq<(Seq<char>, Seq<char>)>, Seq<char>, Seq<Seq<char>>),
    fs: Seq<FilterValue>,
) -> (Seq<(Seq<char>, Seq<char>)>, Seq<char>, Seq<Seq<char>>)
    decreases fs.len(),
{
    if fs.len() == 0 {
        st
    } else {
        search_step(search_fold(st, fs.drop_last()), fs.last())
    }
}

/// The parameters of a search: 20 a page, the page after the first, the
/// query, the filters' own parameters, the order (by update unless a sort
/// says otherwise), and the genres and tags together as `genres`.
pub open spec fn search_params_spec(query: Option<Seq<char>>, page: i32, fs: Seq<FilterValue>) -> Seq<(Seq<char>, Seq<char>)> {
    let start = seq![("limit"@, "20"@)] + (if page > 1 { seq![("page"@, int_decimal(page as int))] } else { seq![] })
        + (match query {
            Some(q) => seq![("search"@, q)],
            None => seq![],
        });
    let (ps, order, genres) = search_fold((start, "updated"@, seq![]), fs);
    ps.push(("order"@, order)) + if genres.len() > 0 { seq![("genres"@, join(genres, ","@))] } else { seq![] }
}

fn multi_values_exec(included: &Vec<String>, excluded: &Vec<String>) -> (r: Vec<String>)
    ensures
        string_views(r@) == multi_values(string_views(included@), string_views(excluded@)),
{
    let mut out: Vec<String> = Vec::new();
    let mut i: usize = 0;
    while i < included.len()
        invariant
            i <= included@.len(),
            string_views(out@) == string_views(included@).take(i as int),
        decreases included@.len() - i,
    {
        let ghost before = out@;
        out.push(string_of(&chars_of(included[i].as_str())));
        assert(string_views(out@) =~= string_views(before).push(included@[i as int]@));
        assert(string_views(included@).take(i + 1) =~= string_views(included@).take(i as int).push(included@[i as int]@));
        i = i + 1;
    }
    assert(string_views(included@).take(included@.len() as int) =~= string_views(included@));
    let mut j: usize = 0;
    while j < excluded.len()
        invariant
            j <= excluded@.len(),
            string_views(out@) == string_views(included@) + string_views(excluded@).take(j as int).map_values(
                |x: Seq<char>| "!"@ + x,
            ),
        decreases excluded@.len() - j,
    {
        let ghost before = out@;
        let mut a: Vec<char> = Vec::new();
        push_str(&mut a, "!");
        push_str(&mut a, excluded[j].as_str());
        out.push(string_of(&a));
        assert(string_views(out@) =~= string_views(before).push("!"@ + excluded@[j as int]@));
        assert(string_views(excluded@).take(j + 1).map_values(|x: Seq<char>| "!"@ + x) =~= string_views(excluded@).take(
            j as int,
        ).map_values(|x: Seq<char>| "!"@ + x).push("!"@ + excluded@[j as int]@));
        j = j + 1;
    }
    assert(string_views(excluded@).take(excluded@.len() as int) =~= string_views(excluded@));
    out
}

fn append_strings(a: &mut Vec<String>, b: Vec<String>)
    ensures
        string_views(final(a)@) == string_views(old(a)@) + string_views(b@),
{
    let mut b = b;
    let ghost a0 = a@;
    let ghost b0 = b@;
    a.append(&mut b);
    assert(string_views(a@) =~= string_views(a0) + string_views(b0));
}

/// The query parameters of a search (`search`), which `text::query_string`
/// writes percent-encoded.
pub fn search_params(query: Option<&str>, page: i32, filters: &[FilterValue]) -> (r: Vec<(String, String)>)
    ensures
        pairs_view(r@) == search_params_spec(opt_str_view(query), page, filters@),
{
    let mut ps: Vec<(String, String)> = Vec::new();
    push_pair(&mut ps, "limit", "20");
    if page > 1 {
        let p = string_of(&i64_decimal(page as i64));
        push_pair(&mut ps, "page", p.as_str());
    }
    if let Some(q) = query {
        push_pair(&mut ps, "search", q);
    }
    let ghost start = pairs_view(ps@);
    assert(start =~= seq![("limit"@, "20"@)] + (if page > 1 { seq![("page"@, int_decimal(page as int))] } else { seq![] })
        + (match opt_str_view(query) {
            Some(q) => seq![("search"@, q)],
            None => seq![],
        }));
    let mut order: &str = "updated";
    let mut genres: Vec<String> = Vec::new();
    let mut i: usize = 0;
    assert(filters@.take(0) =~= Seq::<FilterValue>::empty());
    assert(string_views(genres@) =~= Seq::<Seq<char>>::empty());
    while i < filters.len()
        invariant
            i <= filters@.len(),
            (pairs_view(ps@), order@, string_views(genres@)) == search_fold((start, "updated"@, seq![]), filters@.take(i as int)),
        decreases filters@.len() - i,
    {
        assert(filters@.take(i + 1).drop_last() =~= filters@.take(i as int));
        assert(filters@.take(i + 1).last() == filters@[i as int]);
        match &filters[i] {
            FilterValue::Sort { index, .. } => {
                if *index == 0 {
                    order = "id";
                } else if *index == 1 {
                    order = "name";
                } else if *index == 2 {
                    order = "popular";
                }
            },
            FilterValue::MultiSelect { id, included, excluded } => {
                let v = multi_values_exec(included, excluded);
                if str_eq(id.as_str(), "genres") || str_eq(id.as_str(), "tags") {
                    append_strings(&mut genres, v);
                } else {
                    let j = join_strings(&v, ",");
                    push_pair(&mut ps, id.as_str(), j.as_str());
                }
            },
            FilterValue::Select { id, value } => {
                push_pair(&mut ps, id.as_str(), value.as_str());
            },
            _ => {},
        }
        i = i + 1;
    }
    assert(filters@.take(filters@.len() as int) =~= filters@);
    let ghost fold_ps = pairs_view(ps@);
    push_pair(&mut ps, "order", order);
    let ghost with_order = pairs_view(ps@);
    if genres.len() > 0 {
        let j = join_strings(&genres, ",");
        push_pair(&mut ps, "genres", j.as_str());
    } else {
        assert(with_order =~= with_order + Seq::<(Seq<char>, Seq<char>)>::empty());
    }
    ps
}

/// A search page is followed by another when it is full.
pub fn has_next_page(count: usize) -> (r: bool)
    ensures
        r == (count >= PAGE_SIZE),
{
    count >= PAGE_SIZE
}

/// What the API answered.
#[derive(Debug, Clone, Copy, PartialEq, Eq, Structural)]
pub enum Answer {
    /// An error message.
    Error,
    /// The asked item.
    Response,
    /// Neither.
    Nothing,
}

/// How an answer reads: its error where it has one, else its response.
pub fn read_answer(has_error: bool, has_response: bool) -> (r: Answer)
    ensures
        r == if has_error { Answer::Error } else if has_response { Answer::Response } else { Answer::Nothing },
{
    if has_error {
        Answer::Error
    } else if has_response {
        Answer::Response
    } else {
        Answer::Nothing
    }
}

// ---------------------------------------------------------------------------
// Links
// ---------------------------------------------------------------------------

/// The first segment, after any leading `manga` and `api` segments, that
/// holds a `.`, or -1.
pub open spec fn id_segment_from(segs: Seq<Seq<char>>, i: int, skipping: bool) -> int
    decreases segs.len() - i,
{
    if i < 0 || i >= segs.len() {
        -1
    } else if skipping && (segs[i] == "manga"@ || segs[i] == "api"@) {
        id_segment_from(segs, i + 1, true)
    } else if contains_seq(segs[i], "."@) {
        i
    } else {
        id_segment_from(segs, i + 1, false)
    }
}

/// What a link opens: `None` for a link elsewhere; for a link to the site,
/// the title whose id is the first path segment holding a `.` (after any
/// leading `manga` and `api`), or `Some(None)` when there is none
/// ("Invalid URL").
pub open spec fn deep_link_spec(url: Seq<char>, base: Seq<char>) -> Option<Option<Seq<char>>> {
    match strip_prefix(url, base) {
        None => None,
        Some(path) => {
            let segs = split_two(path, '/', '/');
            let i = id_segment_from(segs, 0, true);
            if i < 0 {
                Some(None)
            } else {
                Some(Some(segs[i]))
            }
        },
    }
}

/// What a link to the site opens.
pub fn handle_deep_link(url: &str, base: &str) -> (r: Option<Option<String>>)
    ensures
        match r {
            None => deep_link_spec(url@, base@) is None,
            Some(o) => deep_link_spec(url@, base@) == Some(opt_view(o)),
        },
{
    let path = match strip_prefix_str(url, base) {
        Some(p) => p,
        None => return None,
    };
    let segs = split_two_chars(&chars_of(path.as_str()), '/', '/');
    let ghost sv = segs@.map_values(|x: Vec<char>| x@);
    assert(sv =~= split_two(path@, '/', '/'));
    let dot = chars_of(".");
    assert(strip_prefix(url@, base@) == Some(path@));
    let mut i: usize = 0;
    let mut skipping = true;
    while i < segs.len()
        invariant
            i <= segs@.len(),
            sv == segs@.map_values(|x: Vec<char>| x@),
            sv == split_two(path@, '/', '/'),
            strip_prefix(url@, base@) == Some(path@),
            dot@ == "."@,
            id_segment_from(sv, 0, true) == id_segment_from(sv, i as int, skipping),
        decreases segs@.len() - i,
    {
        assert(sv[i as int] == segs@[i as int]@);
        let s = &segs[i];
        if skipping && (crate::text::chars_eq(s, &chars_of("manga")) || crate::text::chars_eq(s, &chars_of("api"))) {
            i = i + 1;
        } else if crate::text::find_chars(s, &dot).is_some() {
            assert(contains_seq(sv[i as int], "."@));
            assert(id_segment_from(sv, i as int, skipping) == i as int);
            assert(strip_prefix(url@, base@) == Some(path@));
            return Some(Some(string_of(s)));
        } else {
            skipping = false;
            i = i + 1;
        }
    }
    Some(None)
}

} // verus!
