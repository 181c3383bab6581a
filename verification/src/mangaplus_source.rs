//! MANGA Plus, the source: which titles a language setting shows and each
//! only once, the pages of the title directory, the addresses it asks,
//! what a home banner opens, and how page images are unscrambled.
use vstd::prelude::*;
use vstd::utf8::*;

use crate::mangaplus::{Language, Title};
use crate::text::{
    chars_of, contains_seq, find_chars, lowercase, opt_str_view, opt_view, push_str, str_eq,
    string_of, strip_prefix, strip_prefix_str, to_lowercase,
};

verus! {

/// The site.
pub const BASE_URL: &'static str = "https://mangaplus.shueisha.co.jp";

/// The web API.
pub const WEB_API_URL: &'static str = "https://jumpg-webapi.tokyo-cdn.com/api";

/// The API of the mobile app.
pub const MOBILE_API_URL: &'static str = "https://jumpg-api.tokyo-cdn.com/api";

/// Titles per directory page.
pub const ITEMS_PER_PAGE: usize = 20;

// ---------------------------------------------------------------------------
// Which titles are shown
// ---------------------------------------------------------------------------

/// A title in `language` is shown: one without a language always, else when
/// the language is among the chosen ones.
pub open spec fn language_ok(language: Option<Language>, chosen: Seq<Language>) -> bool {
    match language {
        None => true,
        Some(l) => chosen.contains(l),
    }
}

/// Whether a title's language is among the chosen ones.
pub fn language_allowed(language: Option<Language>, chosen: &Vec<Language>) -> (r: bool)
    ensures
        r == language_ok(language, chosen@),
{
    match language {
        None => true,
        Some(l) => {
            let mut i: usize = 0;
            while i < chosen.len()
                invariant
                    language == Some(l),
                    i <= chosen@.len(),
                    forall|k: int| 0 <= k < i ==> chosen@[k] != l,
                decreases chosen@.len() - i,
            {
                if chosen[i] == l {
                    assert(chosen@[i as int] == l);
                    assert(chosen@.contains(l));
                    return true;
                }
                i = i + 1;
            }
            false
        },
    }
}

/// The ids of the titles at the given positions.
pub open spec fn ids_at(ts: Seq<Title>, ps: Seq<int>) -> Seq<i32> {
    ps.map_values(|p: int| ts[p].title_id)
}

/// The positions of the titles shown, in order: those in a chosen language
/// whose id no title shown before has.
pub open spec fn kept_positions(ts: Seq<Title>, chosen: Seq<Language>) -> Seq<int>
    decreases ts.len(),
{
    if ts.len() == 0 {
        seq![]
    } else {
        let prev = kept_positions(ts.drop_last(), chosen);
        let t = ts.last();
        if language_ok(t.language, chosen) && !ids_at(ts, prev).contains(t.title_id) {
            prev.push(ts.len() - 1)
        } else {
            prev
        }
    }
}

proof fn lemma_kept_below(ts: Seq<Title>, chosen: Seq<Language>)
    ensures
        forall|k: int| 0 <= k < kept_positions(ts, chosen).len() ==> 0 <= #[trigger] kept_positions(ts, chosen)[k] < ts.len(),
        forall|a: int, b: int| 0 <= a < b < kept_positions(ts, chosen).len() ==> #[trigger] kept_positions(ts, chosen)[a] < #[trigger] kept_positions(ts, chosen)[b],
    decreases ts.len(),
{
    if ts.len() > 0 {
        lemma_kept_below(ts.drop_last(), chosen);
        let prev = kept_positions(ts.drop_last(), chosen);
        assert(forall|k: int| 0 <= k < prev.len() ==> 0 <= #[trigger] prev[k] < ts.len() - 1);
        let cur = kept_positions(ts, chosen);
        assert(cur == prev || cur == prev.push(ts.len() - 1));
        assert forall|a: int, b: int| 0 <= a < b < cur.len() implies #[trigger] cur[a] < #[trigger] cur[b] by {
            if b < prev.len() {
                assert(cur[a] == prev[a] && cur[b] == prev[b]);
            } else {
                assert(cur[a] == prev[a]);
            }
        }
    }
}

proof fn lemma_ids_at_prefix(ts: Seq<Title>, n: int, ps: Seq<int>)
    requires
        0 <= n <= ts.len(),
        forall|k: int| 0 <= k < ps.len() ==> 0 <= #[trigger] ps[k] < n,
    ensures
        ids_at(ts.take(n), ps) == ids_at(ts, ps),
{
    assert(ids_at(ts.take(n), ps) =~= ids_at(ts, ps));
}

fn contains_id(ids: &Vec<i32>, id: i32) -> (r: bool)
    ensures
        r == ids@.contains(id),
{
    let mut i: usize = 0;
    while i < ids.len()
        invariant
            i <= ids@.len(),
            forall|k: int| 0 <= k < i ==> ids@[k] != id,
        decreases ids@.len() - i,
    {
        if ids[i] == id {
            assert(ids@[i as int] == id);
            return true;
        }
        i = i + 1;
    }
    false
}

proof fn lemma_kept_prefix(ts: Seq<Title>, chosen: Seq<Language>, j: int)
    requires
        0 <= j <= ts.len(),
    ensures
        kept_positions(ts.take(j), chosen).len() <= kept_positions(ts, chosen).len(),
        kept_positions(ts, chosen).take(kept_positions(ts.take(j), chosen).len() as int)
            == kept_positions(ts.take(j), chosen),
    decreases ts.len() - j,
{
    if j < ts.len() {
        lemma_kept_prefix(ts, chosen, j + 1);
        assert(ts.take(j + 1).drop_last() =~= ts.take(j));
        let a = kept_positions(ts.take(j), chosen);
        let b = kept_positions(ts.take(j + 1), chosen);
        let f = kept_positions(ts, chosen);
        assert(b == a || b == a.push(j));
        assert(f.take(a.len() as int) =~= f.take(b.len() as int).take(a.len() as int));
        assert(b.take(a.len() as int) =~= a);
    } else {
        assert(ts.take(j) =~= ts);
        assert(kept_positions(ts, chosen).take(kept_positions(ts, chosen).len() as int) =~= kept_positions(ts, chosen));
    }
}

/// The positions of the titles shown, at most `limit` of them when there is
/// a limit: the home page's ranking shows 50, the lists all.
pub fn select_titles(titles: &Vec<Title>, chosen: &Vec<Language>, limit: Option<usize>) -> (r: Vec<usize>)
    ensures
        r@.map_values(|p: usize| p as int) == match limit {
            Some(n) => if kept_positions(titles@, chosen@).len() > n {
                kept_positions(titles@, chosen@).take(n as int)
            } else {
                kept_positions(titles@, chosen@)
            },
            None => kept_positions(titles@, chosen@),
        },
{
    let ghost ts = titles@;
    let mut kept: Vec<usize> = Vec::new();
    let mut seen: Vec<i32> = Vec::new();
    let mut i: usize = 0;
    let mut done = false;
    assert(ts.take(0) =~= Seq::<Title>::empty());
    while i < titles.len() && !done
        invariant
            ts == titles@,
            i <= ts.len(),
            kept@.map_values(|p: usize| p as int) == kept_positions(ts.take(i as int), chosen@),
            seen@ == ids_at(ts, kept_positions(ts.take(i as int), chosen@)),
            match limit {
                Some(n) => kept@.len() <= n && (done ==> kept@.len() == n),
                None => !done,
            },
        decreases ts.len() - i + (if done { 0int } else { 1int }),
    {
        let full = match limit {
            Some(n) => kept.len() >= n,
            None => false,
        };
        if full {
            done = true;
        } else {
            let ghost prev = kept_positions(ts.take(i as int), chosen@);
            assert(ts.take(i + 1).drop_last() =~= ts.take(i as int));
            proof {
                lemma_kept_below(ts.take(i as int), chosen@);
                lemma_ids_at_prefix(ts, i as int, prev);
                lemma_ids_at_prefix(ts.take(i + 1), i as int, prev);
                assert(ts.take(i + 1).take(i as int) =~= ts.take(i as int));
                assert(ts.take(i + 1).last() == ts[i as int]);
                assert(forall|k: int| 0 <= k < prev.len() ==> ts.take(i + 1)[prev[k]] == #[trigger] ts[prev[k]]);
                assert(ids_at(ts.take(i + 1), prev) =~= ids_at(ts, prev));
            }
            let t = &titles[i];
            if language_allowed(t.language, chosen) && !contains_id(&seen, t.title_id) {
                let ghost old_kept = kept@;
                kept.push(i);
                seen.push(t.title_id);
                assert(kept@.map_values(|p: usize| p as int) =~= old_kept.map_values(|p: usize| p as int).push(i as int));
                assert(ids_at(ts, prev.push(i as int)) =~= ids_at(ts, prev).push(ts[i as int].title_id));
            }
            i = i + 1;
        }
    }
    proof {
        lemma_kept_prefix(ts, chosen@, i as int);
        if !done {
            assert(ts.take(ts.len() as int) =~= ts);
        }
        let f = kept_positions(ts, chosen@);
        assert(f.take(f.len() as int) =~= f);
    }
    kept
}

/// Every title shown is in a chosen language, and no two titles shown share
/// an id.
pub proof fn law_shown_titles_distinct(ts: Seq<Title>, chosen: Seq<Language>)
    ensures
        forall|k: int| 0 <= k < kept_positions(ts, chosen).len() ==> language_ok(
            ts[#[trigger] kept_positions(ts, chosen)[k]].language,
            chosen,
        ),
        forall|a: int, b: int| 0 <= a < b < kept_positions(ts, chosen).len() ==>
            ts[#[trigger] kept_positions(ts, chosen)[a]].title_id
                != ts[#[trigger] kept_positions(ts, chosen)[b]].title_id,
    decreases ts.len(),
{
    if ts.len() > 0 {
        let d = ts.drop_last();
        law_shown_titles_distinct(d, chosen);
        lemma_kept_below(d, chosen);
        let prev = kept_positions(d, chosen);
        let cur = kept_positions(ts, chosen);
        assert(forall|k: int| 0 <= k < prev.len() ==> ts[#[trigger] prev[k]] == d[prev[k]]);
        assert forall|k: int| 0 <= k < cur.len() implies language_ok(ts[#[trigger] cur[k]].language, chosen) by {
            if k < prev.len() {
                assert(cur[k] == prev[k]);
            }
        }
        assert forall|a: int, b: int| 0 <= a < b < cur.len() implies ts[#[trigger] cur[a]].title_id
            != ts[#[trigger] cur[b]].title_id by {
            if b < prev.len() {
                assert(cur[a] == prev[a] && cur[b] == prev[b]);
            } else {
                assert(cur[a] == prev[a]);
                assert(ids_at(ts, prev)[a] == ts[prev[a]].title_id);
            }
        }
    }
}

/// The title matches a search: its name, or its author where it has one,
/// contains the query, ignoring case.
pub open spec fn title_matches(t: Title, query: Seq<char>) -> bool {
    contains_seq(lowercase(t.name@), lowercase(query))
        || (t.author is Some && contains_seq(lowercase(t.author->0@), lowercase(query)))
}

/// The positions of the titles a search shows: those in a chosen language
/// that match the query, if there is one.
pub open spec fn search_positions(ts: Seq<Title>, chosen: Seq<Language>, query: Option<Seq<char>>) -> Seq<int>
    decreases ts.len(),
{
    if ts.len() == 0 {
        seq![]
    } else {
        let prev = search_positions(ts.drop_last(), chosen, query);
        let t = ts.last();
        if language_ok(t.language, chosen) && match query {
            Some(q) => title_matches(t, q),
            None => true,
        } {
            prev.push(ts.len() - 1)
        } else {
            prev
        }
    }
}

fn contains_lower(text: &str, lower_query: &Vec<char>) -> (r: bool)
    ensures
        r == contains_seq(lowercase(text@), lower_query@),
{
    let l = to_lowercase(text);
    find_chars(&chars_of(l.as_str()), lower_query).is_some()
}

/// The positions of the titles in the directory after a search.
pub fn search_titles(titles: &Vec<Title>, chosen: &Vec<Language>, query: Option<&str>) -> (r: Vec<usize>)
    ensures
        r@.map_values(|p: usize| p as int) == search_positions(titles@, chosen@, opt_str_view(query)),
{
    let ghost ts = titles@;
    let lq: Vec<char> = match query {
        Some(q) => chars_of(to_lowercase(q).as_str()),
        None => Vec::new(),
    };
    let mut out: Vec<usize> = Vec::new();
    let mut i: usize = 0;
    assert(ts.take(0) =~= Seq::<Title>::empty());
    while i < titles.len()
        invariant
            ts == titles@,
            i <= ts.len(),
            query is Some ==> lq@ == lowercase(query->0@),
            out@.map_values(|p: usize| p as int) == search_positions(ts.take(i as int), chosen@, opt_str_view(query)),
        decreases ts.len() - i,
    {
        assert(ts.take(i + 1).drop_last() =~= ts.take(i as int));
        assert(ts.take(i + 1).last() == ts[i as int]);
        let t = &titles[i];
        let shown = language_allowed(t.language, chosen) && match query {
            Some(_) => {
                contains_lower(t.name.as_str(), &lq) || match &t.author {
                    Some(a) => contains_lower(a.as_str(), &lq),
                    None => false,
                }
            },
            None => true,
        };
        if shown {
            let ghost old_out = out@;
            out.push(i);
            assert(out@.map_values(|p: usize| p as int) =~= old_out.map_values(|p: usize| p as int).push(i as int));
        }
        i = i + 1;
    }
    assert(ts.take(ts.len() as int) =~= ts);
    out
}

/// Moves the items of groups into one list, group after group.
pub open spec fn flat<T>(groups: Seq<Seq<T>>) -> Seq<T>
    decreases groups.len(),
{
    if groups.len() == 0 {
        seq![]
    } else {
        flat(groups.drop_last()) + groups.last()
    }
}

/// The items of the groups, group after group (`flat_map`).
pub fn flatten<T>(groups: Vec<Vec<T>>) -> (r: Vec<T>)
    ensures
        r@ == flat(groups@.map_values(|g: Vec<T>| g@)),
{
    let ghost gs = groups@.map_values(|g: Vec<T>| g@);
    let mut rest = groups;
    let mut out: Vec<T> = Vec::new();
    let ghost mut taken: int = 0;
    assert(gs.take(0) =~= Seq::<Seq<T>>::empty());
    while rest.len() > 0
        invariant
            0 <= taken <= gs.len(),
            rest@.map_values(|g: Vec<T>| g@) == gs.skip(taken),
            out@ == flat(gs.take(taken)),
        decreases rest@.len(),
    {
        let ghost before = rest@;
        assert(before.map_values(|g: Vec<T>| g@).len() == before.len());
        assert(taken < gs.len());
        assert(before.map_values(|g: Vec<T>| g@)[0] == gs.skip(taken)[0]);
        let mut g = rest.remove(0);
        assert(g@ == gs[taken]);
        out.append(&mut g);
        assert(gs.take(taken + 1).drop_last() =~= gs.take(taken));
        assert forall|k: int| 0 <= k < rest@.len() implies #[trigger] rest@[k]@ == gs[taken + 1 + k] by {
            assert(rest@[k] == before[k + 1]);
            assert(before.map_values(|g: Vec<T>| g@)[k + 1] == gs.skip(taken)[k + 1]);
        }
        assert(rest@.map_values(|g: Vec<T>| g@) =~= gs.skip(taken + 1));
        proof {
            taken = taken + 1;
        }
    }
    assert(gs.skip(taken).len() == 0);
    assert(gs.take(taken) =~= gs);
    out
}

// ---------------------------------------------------------------------------
// The title directory
// ---------------------------------------------------------------------------

/// The part of a directory of `len` titles that page `page` shows, and
/// whether the directory reads as having another page (the site's test:
/// the titles up to the page after next exceed it).
pub open spec fn directory_page_spec(len: int, page: int) -> (int, int, bool) {
    let start = if (page - 1) * 20 < len { (page - 1) * 20 } else { len };
    let end = if start + 20 < len { start + 20 } else { len };
    (start, end, (page + 1) * 20 < len)
}

/// The bounds of a directory page and whether it has a next one.
pub fn directory_page(len: usize, page: i32) -> (r: (usize, usize, bool))
    requires
        page >= 1,
        (page + 1) * 20 <= usize::MAX,
    ensures
        (r.0 as int, r.1 as int, r.2) == directory_page_spec(len as int, page as int),
{
    let p = page as usize;
    let skip = (p - 1) * ITEMS_PER_PAGE;
    let start = if skip < len { skip } else { len };
    let end = if len - start > ITEMS_PER_PAGE { start + ITEMS_PER_PAGE } else { len };
    (start, end, (p + 1) * ITEMS_PER_PAGE < len)
}

// ---------------------------------------------------------------------------
// Addresses
// ---------------------------------------------------------------------------

/// The API the source asks: the mobile app's or the web's.
pub fn api_url(mobile: bool) -> (r: &'static str)
    ensures
        r@ == if mobile { MOBILE_API_URL@ } else { WEB_API_URL@ },
{
    if mobile {
        MOBILE_API_URL
    } else {
        WEB_API_URL
    }
}

/// The credentials the mobile API wants appended to a query; none for the
/// web API.
pub open spec fn auth_params_spec(mobile: bool, os: Seq<char>, os_ver: Seq<char>, app_ver: Seq<char>, secret: Seq<char>) -> Seq<char> {
    if mobile {
        "&os="@ + os + "&os_ver="@ + os_ver + "&app_ver="@ + app_ver + "&secret="@ + secret
    } else {
        Seq::empty()
    }
}

/// The credentials of a query (`build_auth_params`).
pub fn auth_params(mobile: bool, os: &str, os_ver: &str, app_ver: &str, secret: &str) -> (r: String)
    ensures
        r@ == auth_params_spec(mobile, os@, os_ver@, app_ver@, secret@),
{
    let mut a: Vec<char> = Vec::new();
    if mobile {
        push_str(&mut a, "&os=");
        push_str(&mut a, os);
        push_str(&mut a, "&os_ver=");
        push_str(&mut a, os_ver);
        push_str(&mut a, "&app_ver=");
        push_str(&mut a, app_ver);
        push_str(&mut a, "&secret=");
        push_str(&mut a, secret);
    }
    string_of(&a)
}

/// What a search asks on its first page: `id:` and a title id asks for that
/// title, `chapter-id:` and a chapter id for that chapter's viewer, anything
/// else for the whole title list.
pub open spec fn search_url_spec(query: Option<Seq<char>>, api: Seq<char>, auth: Seq<char>) -> Seq<char> {
    let title = match query {
        Some(q) => strip_prefix(q, "id:"@),
        None => None,
    };
    let chapter = match query {
        Some(q) => strip_prefix(q, "chapter-id:"@),
        None => None,
    };
    if title is Some {
        api + "/title_detailV3?title_id="@ + title->0 + "&format=json"@ + auth
    } else if chapter is Some {
        WEB_API_URL@ + "/manga_viewer?chapter_id="@ + chapter->0 + "&split=no&img_quality=low&format=json"@
    } else {
        api + "/title_list/allV2?format=json"@ + auth
    }
}

/// The address a search asks.
pub fn search_url(query: Option<&str>, api: &str, auth: &str) -> (r: String)
    ensures
        r@ == search_url_spec(opt_str_view(query), api@, auth@),
{
    let mut a: Vec<char> = Vec::new();
    if let Some(q) = query {
        if let Some(id) = strip_prefix_str(q, "id:") {
            push_str(&mut a, api);
            push_str(&mut a, "/title_detailV3?title_id=");
            push_str(&mut a, id.as_str());
            push_str(&mut a, "&format=json");
            push_str(&mut a, auth);
            return string_of(&a);
        } else if let Some(id) = strip_prefix_str(q, "chapter-id:") {
            push_str(&mut a, WEB_API_URL);
            push_str(&mut a, "/manga_viewer?chapter_id=");
            push_str(&mut a, id.as_str());
            push_str(&mut a, "&split=no&img_quality=low&format=json");
            return string_of(&a);
        }
    }
    push_str(&mut a, api);
    push_str(&mut a, "/title_list/allV2?format=json");
    push_str(&mut a, auth);
    string_of(&a)
}

/// The address of a title's details.
pub fn title_url(api: &str, key: &str, auth: &str) -> (r: String)
    ensures
        r@ == api@ + "/title_detailV3?title_id="@ + key@ + "&format=json"@ + auth@,
{
    let mut a: Vec<char> = Vec::new();
    push_str(&mut a, api);
    push_str(&mut a, "/title_detailV3?title_id=");
    push_str(&mut a, key);
    push_str(&mut a, "&format=json");
    push_str(&mut a, auth);
    string_of(&a)
}

/// The address of a chapter's viewer, with pages split or not and in the
/// chosen image quality.
pub fn viewer_url(api: &str, chapter_key: &str, split: bool, quality: &str, auth: &str) -> (r: String)
    ensures
        r@ == api@ + "/manga_viewer?chapter_id="@ + chapter_key@ + "&split="@ + (if split { "yes"@ } else { "no"@ })
            + "&img_quality="@ + quality@ + "&format=json"@ + auth@,
{
    let mut a: Vec<char> = Vec::new();
    push_str(&mut a, api);
    push_str(&mut a, "/manga_viewer?chapter_id=");
    push_str(&mut a, chapter_key);
    push_str(&mut a, "&split=");
    push_str(&mut a, if split { "yes" } else { "no" });
    push_str(&mut a, "&img_quality=");
    push_str(&mut a, quality);
    push_str(&mut a, "&format=json");
    push_str(&mut a, auth);
    string_of(&a)
}

/// The address of the web home view, which the home page and the listings
/// read.
pub fn home_url() -> (r: String)
    ensures
        r@ == WEB_API_URL@ + "/web/web_homeV4?lang=eng&clang=eng&format=json"@,
{
    let mut a: Vec<char> = Vec::new();
    push_str(&mut a, WEB_API_URL);
    push_str(&mut a, "/web/web_homeV4?lang=eng&clang=eng&format=json");
    string_of(&a)
}

// ---------------------------------------------------------------------------
// Home page and listings
// ---------------------------------------------------------------------------

/// What a home banner opens.
pub enum BannerLink {
    /// The title with this id.
    Title(String),
    /// A web page.
    Url(String),
    /// Nothing.
    NoLink,
}

/// What a banner's action opens: a title for `mangaplus://open/detail?id=`;
/// for `mangaplus://open/webview?url=` the page whose address follows,
/// percent-decoded (nothing when the decoded bytes are not UTF-8); an
/// `https://` address as it is; else nothing.
pub open spec fn banner_spec(url: Seq<char>) -> BannerView {
    if strip_prefix(url, "mangaplus://open/detail?id="@) is Some {
        BannerView::Title(strip_prefix(url, "mangaplus://open/detail?id="@)->0)
    } else if strip_prefix(url, "mangaplus://open/webview?url="@) is Some {
        let d = crate::text::percent_decoded(encode_utf8(strip_prefix(url, "mangaplus://open/webview?url="@)->0));
        if valid_utf8(d) {
            BannerView::Url(decode_utf8(d))
        } else {
            BannerView::NoLink
        }
    } else if crate::text::starts_with(url, "https://"@) {
        BannerView::Url(url)
    } else {
        BannerView::NoLink
    }
}

/// The characters of a `BannerLink`.
pub enum BannerView {
    Title(Seq<char>),
    Url(Seq<char>),
    NoLink,
}

/// What a `BannerLink` holds.
pub open spec fn banner_view(b: BannerLink) -> BannerView {
    match b {
        BannerLink::Title(s) => BannerView::Title(s@),
        BannerLink::Url(s) => BannerView::Url(s@),
        BannerLink::NoLink => BannerView::NoLink,
    }
}

/// What a home banner opens.
pub fn banner_link(url: &str) -> (r: BannerLink)
    ensures
        banner_view(r) == banner_spec(url@),
{
    if let Some(id) = strip_prefix_str(url, "mangaplus://open/detail?id=") {
        BannerLink::Title(id)
    } else if let Some(enc) = strip_prefix_str(url, "mangaplus://open/webview?url=") {
        match crate::text::decode_uri(enc.as_str()) {
            Some(u) => BannerLink::Url(u),
            None => BannerLink::NoLink,
        }
    } else if crate::text::has_prefix(&chars_of(url), &chars_of("https://")) {
        BannerLink::Url(string_of(&chars_of(url)))
    } else {
        BannerLink::NoLink
    }
}

/// The name of the home view's group of the last day's updates.
pub const DAILY_UPDATES_GROUP: &'static str = "updates_latest_title_/_updates_past_24_title";

/// The position of the first group of the last day's updates, if any.
pub fn daily_updates_group(names: &Vec<String>) -> (r: Option<usize>)
    ensures
        match r {
            Some(i) => i < names@.len() && names@[i as int]@ == DAILY_UPDATES_GROUP@
                && forall|k: int| 0 <= k < i ==> #[trigger] names@[k]@ != DAILY_UPDATES_GROUP@,
            None => forall|k: int| 0 <= k < names@.len() ==> #[trigger] names@[k]@ != DAILY_UPDATES_GROUP@,
        },
{
    let mut i: usize = 0;
    while i < names.len()
        invariant
            i <= names@.len(),
            forall|k: int| 0 <= k < i ==> #[trigger] names@[k]@ != DAILY_UPDATES_GROUP@,
        decreases names@.len() - i,
    {
        if str_eq(names[i].as_str(), DAILY_UPDATES_GROUP) {
            return Some(i);
        }
        i = i + 1;
    }
    None
}

/// The listings of MANGA Plus.
#[derive(Debug, Clone, Copy, PartialEq, Eq, Structural)]
pub enum ListingKind {
    /// The latest updates.
    Updates,
    /// The ranking.
    Ranking,
}

/// The listing with an id; any other id is an invalid listing.
pub fn listing_kind(id: &str) -> (r: Option<ListingKind>)
    ensures
        r == if id@ == "Updates"@ {
            Some(ListingKind::Updates)
        } else if id@ == "Ranking"@ {
            Some(ListingKind::Ranking)
        } else {
            None::<ListingKind>
        },
{
    if str_eq(id, "Updates") {
        Some(ListingKind::Updates)
    } else if str_eq(id, "Ranking") {
        Some(ListingKind::Ranking)
    } else {
        None
    }
}

/// The title a link to the site opens: the id after `/titles/`.
pub open spec fn deep_link_spec(url: Seq<char>) -> Option<Seq<char>> {
    match strip_prefix(url, BASE_URL@) {
        Some(path) => strip_prefix(path, "/titles/"@),
        None => None,
    }
}

/// The title a link to the site opens, if it opens one.
pub fn handle_deep_link(url: &str) -> (r: Option<String>)
    ensures
        opt_view(r) == deep_link_spec(url@),
{
    match strip_prefix_str(url, BASE_URL) {
        Some(path) => strip_prefix_str(path.as_str(), "/titles/"),
        None => None,
    }
}

// ---------------------------------------------------------------------------
// Page images
// ---------------------------------------------------------------------------

/// The value of a hexadecimal digit.
pub open spec fn hex_digit(b: u8) -> Option<u8> {
    if 0x30 <= b <= 0x39 {
        Some((b - 0x30) as u8)
    } else if 0x61 <= b <= 0x66 {
        Some((b - 0x61 + 10) as u8)
    } else if 0x41 <= b <= 0x46 {
        Some((b - 0x41 + 10) as u8)
    } else {
        None
    }
}

/// A piece of a key read as a hexadecimal byte (`u8::from_str_radix` in base
/// 16 on one or two characters, which allows a leading `+`).
pub open spec fn chunk_value(c: Seq<u8>) -> Option<u8> {
    if c.len() == 1 {
        hex_digit(c[0])
    } else if c.len() == 2 {
        if c[0] == 0x2b {
            hex_digit(c[1])
        } else {
            match (hex_digit(c[0]), hex_digit(c[1])) {
                (Some(h), Some(l)) => Some((h * 16 + l) as u8),
                _ => None,
            }
        }
    } else {
        None
    }
}

/// A key read two characters at a time as hexadecimal bytes; none if any
/// piece is not a number.
pub open spec fn key_stream(k: Seq<u8>) -> Option<Seq<u8>>
    decreases k.len(),
{
    if k.len() == 0 {
        Some(seq![])
    } else if k.len() == 1 {
        match chunk_value(k) {
            Some(v) => Some(seq![v]),
            None => None,
        }
    } else {
        match (chunk_value(k.take(2)), key_stream(k.skip(2))) {
            (Some(v), Some(rest)) => Some(seq![v] + rest),
            _ => None,
        }
    }
}

/// A piece of a key is valid UTF-8 on its own: the site's keys are ASCII,
/// and a piece that splits a character stops the source.
pub open spec fn chunk_utf8(c: Seq<u8>) -> bool {
    if c.len() == 1 {
        c[0] < 0x80
    } else {
        (c[0] < 0x80 && c[1] < 0x80) || (0xc2 <= c[0] <= 0xdf && 0x80 <= c[1] <= 0xbf)
    }
}

/// The `j`-th two-character piece of a key (the last may have one).
pub open spec fn key_piece(k: Seq<u8>, j: int) -> Seq<u8> {
    k.subrange(2 * j, if 2 * j + 2 <= k.len() { 2 * j + 2 } else { k.len() as int })
}

/// Every two-character piece of the key is valid UTF-8 on its own.
pub open spec fn key_pieces_utf8(k: Seq<u8>) -> bool {
    forall|j: int| 0 <= j < (k.len() + 1) / 2 ==> chunk_utf8(#[trigger] key_piece(k, j))
}

/// An image unscrambled: each byte XOR the key byte at its position, the
/// key repeated.
pub open spec fn unscrambled(data: Seq<u8>, ks: Seq<u8>) -> Seq<u8> {
    Seq::new(data.len(), |i: int| data[i] ^ ks[i % (ks.len() as int)])
}

/// Unscrambling undoes itself: unscrambling an image twice with the same
/// key stream restores it.
pub proof fn law_unscramble_twice(data: Seq<u8>, ks: Seq<u8>)
    ensures
        unscrambled(unscrambled(data, ks), ks) == data,
{
    let once = unscrambled(data, ks);
    assert forall|i: int| 0 <= i < data.len() implies unscrambled(once, ks)[i] == data[i] by {
        let d = data[i];
        let k = ks[i % (ks.len() as int)];
        assert((d ^ k) ^ k == d) by (bit_vector);
    }
    assert(unscrambled(once, ks) =~= data);
}

fn hex_digit_exec(b: u8) -> (r: Option<u8>)
    ensures
        r == hex_digit(b),
{
    if 0x30 <= b && b <= 0x39 {
        Some(b - 0x30)
    } else if 0x61 <= b && b <= 0x66 {
        Some(b - 0x61 + 10)
    } else if 0x41 <= b && b <= 0x46 {
        Some(b - 0x41 + 10)
    } else {
        None
    }
}

fn chunk_value_exec(k: &[u8], start: usize, end: usize) -> (r: Option<u8>)
    requires
        start < end <= k@.len(),
        end - start <= 2,
    ensures
        r == chunk_value(k@.subrange(start as int, end as int)),
{
    let ghost c = k@.subrange(start as int, end as int);
    if end - start == 1 {
        hex_digit_exec(k[start])
    } else if k[start] == 0x2b {
        hex_digit_exec(k[start + 1])
    } else {
        match (hex_digit_exec(k[start]), hex_digit_exec(k[start + 1])) {
            (Some(h), Some(l)) => Some(h * 16 + l),
            _ => None,
        }
    }
}

/// The key stream of a page's key, read two characters at a time.
pub fn parse_key(key: &[u8]) -> (r: Option<Vec<u8>>)
    ensures
        match r {
            Some(v) => key_stream(key@) == Some(v@),
            None => key_stream(key@) is None,
        },
{
    let mut out: Vec<u8> = Vec::new();
    let mut i: usize = 0;
    assert(key@.skip(0) =~= key@);
    proof {
        if let Some(rest) = key_stream(key@) {
            assert(out@ + rest =~= rest);
        }
    }
    while i < key.len()
        invariant
            i <= key@.len(),
            key_stream(key@) == match key_stream(key@.skip(i as int)) {
                Some(rest) => Some(out@ + rest),
                None => None::<Seq<u8>>,
            },
        decreases key@.len() - i,
    {
        let ghost k = key@.skip(i as int);
        let end = if key.len() - i >= 2 { i + 2 } else { key.len() };
        let v = chunk_value_exec(key, i, end);
        proof {
            if k.len() == 1 {
                assert(k =~= key@.subrange(i as int, end as int));
            } else {
                assert(k.take(2) =~= key@.subrange(i as int, end as int));
                assert(k.skip(2) =~= key@.skip(end as int));
            }
        }
        match v {
            Some(b) => {
                let ghost old_out = out@;
                out.push(b);
                proof {
                    if k.len() >= 2 {
                        match key_stream(k.skip(2)) {
                            Some(rest) => {
                                assert(old_out + (seq![b] + rest) =~= out@ + rest);
                            },
                            None => {},
                        }
                    } else {
                        assert(key@.skip(end as int) =~= Seq::<u8>::empty());
                        assert(old_out + seq![b] =~= out@ + Seq::<u8>::empty());
                    }
                }
                i = end;
            },
            None => {
                return None;
            },
        }
    }
    assert(key@.skip(i as int) =~= Seq::<u8>::empty());
    assert(out@ + Seq::<u8>::empty() =~= out@);
    Some(out)
}

/// A scrambled page image unscrambled with its key
/// (`MangaPlus::process_page_image`); `None` when the key is not
/// hexadecimal ("Invalid encryption key").
pub fn decode_image(data: &[u8], key: &[u8]) -> (r: Option<Vec<u8>>)
    requires
        key_pieces_utf8(key@),
        key@.len() == 0 ==> data@.len() == 0,
    ensures
        match key_stream(key@) {
            Some(ks) => r is Some && r->0@ == unscrambled(data@, ks),
            None => r is None,
        },
{
    let ks = match parse_key(key) {
        Some(ks) => ks,
        None => return None,
    };
    proof {
        lemma_key_stream_len(key@);
    }
    let mut out: Vec<u8> = Vec::new();
    let mut i: usize = 0;
    while i < data.len()
        invariant
            i <= data@.len(),
            data@.len() > 0 ==> ks@.len() > 0,
            out@ == unscrambled(data@, ks@).take(i as int),
        decreases data@.len() - i,
    {
        let b = data[i] ^ ks[i % ks.len()];
        out.push(b);
        i = i + 1;
        assert(out@ =~= unscrambled(data@, ks@).take(i as int));
    }
    assert(out@ =~= unscrambled(data@, ks@));
    Some(out)
}

proof fn lemma_key_stream_len(k: Seq<u8>)
    ensures
        match key_stream(k) {
            Some(ks) => ks.len() == (k.len() + 1) / 2,
            None => true,
        },
    decreases k.len(),
{
    if k.len() >= 2 {
        lemma_key_stream_len(k.skip(2));
    }
}

// ---------------------------------------------------------------------------
// Device id
// ---------------------------------------------------------------------------

/// One step of the linear congruential generator (`seed * 1664525 +
/// 1013904223`, wrapping).
pub open spec fn lcg(seed: u64) -> u64 {
    seed.wrapping_mul(1664525).wrapping_add(1013904223)
}

/// The generator after `n` steps.
pub open spec fn lcg_n(seed: u64, n: nat) -> u64
    decreases n,
{
    if n == 0 {
        seed
    } else {
        lcg(lcg_n(seed, (n - 1) as nat))
    }
}

/// The 16 random bytes of a device id: four steps of the generator, the
/// low four bytes of each, least significant first.
pub open spec fn uuid_bytes_spec(seed: u64) -> Seq<u8> {
    Seq::new(16, |i: int| ((lcg_n(seed, (i / 4 + 1) as nat) >> ((8 * (i % 4)) as u64)) & 0xff) as u8)
}

/// The random bytes of a device id, from a seed (the current time).
pub fn uuid_bytes(seed: u64) -> (r: Vec<u8>)
    ensures
        r@ == uuid_bytes_spec(seed),
{
    let mut out: Vec<u8> = Vec::new();
    let mut s = seed;
    let mut c: usize = 0;
    while c < 4
        invariant
            c <= 4,
            s == lcg_n(seed, c as nat),
            out@.len() == 4 * c,
            forall|k: int| 0 <= k < out@.len() ==> out@[k] == uuid_bytes_spec(seed)[k],
        decreases 4 - c,
    {
        s = s.wrapping_mul(1664525).wrapping_add(1013904223);
        let mut i: usize = 0;
        while i < 4
            invariant
                i <= 4,
                c < 4,
                s == lcg_n(seed, (c + 1) as nat),
                out@.len() == 4 * c + i,
                forall|k: int| 0 <= k < out@.len() ==> out@[k] == uuid_bytes_spec(seed)[k],
            decreases 4 - i,
        {
            let b = ((s >> ((8 * i) as u64)) & 0xff) as u8;
            let ghost k = (4 * c + i) as int;
            assert(k / 4 == c as int && k % 4 == i as int);
            out.push(b);
            i = i + 1;
        }
        c = c + 1;
    }
    assert(out@ =~= uuid_bytes_spec(seed));
    out
}

/// The bytes of a random (version 4) UUID: the version in the high bits of
/// byte 6, the variant in the high bits of byte 8 (`Builder::from_random_bytes`).
pub open spec fn v4_bytes(b: Seq<u8>) -> Seq<u8> {
    b.update(6, (b[6] & 0x0f) | 0x40).update(8, (b[8] & 0x3f) | 0x80)
}

/// The hyphenated lower-case text of a UUID's bytes.
pub open spec fn uuid_text_spec(b: Seq<u8>) -> Seq<char> {
    let h = crate::primitives::hex_lower(b).map_values(|x: u8| x as char);
    h.subrange(0, 8) + "-"@ + h.subrange(8, 12) + "-"@ + h.subrange(12, 16) + "-"@ + h.subrange(16, 20) + "-"@
        + h.subrange(20, 32)
}

/// A pseudo-random device id from a seed (`uuid`): a version 4 UUID over
/// the generator's bytes, hyphenated, in lower case.
pub fn uuid(seed: u64) -> (r: String)
    ensures
        r@ == uuid_text_spec(v4_bytes(uuid_bytes_spec(seed))),
{
    let mut b = uuid_bytes(seed);
    let b6 = (b[6] & 0x0f) | 0x40;
    b.set(6, b6);
    let b8 = (b[8] & 0x3f) | 0x80;
    b.set(8, b8);
    assert(b@ =~= v4_bytes(uuid_bytes_spec(seed)));
    let hex = crate::primitives::to_hex_lower(&b);
    let ghost h = hex@.map_values(|x: u8| x as char);
    let mut out: Vec<char> = Vec::new();
    let mut i: usize = 0;
    while i < 32
        invariant
            i <= 32,
            hex@.len() == 32,
            h == hex@.map_values(|x: u8| x as char),
            out@ == (if i <= 8 {
                h.subrange(0, i as int)
            } else if i <= 12 {
                h.subrange(0, 8) + "-"@ + h.subrange(8, i as int)
            } else if i <= 16 {
                h.subrange(0, 8) + "-"@ + h.subrange(8, 12) + "-"@ + h.subrange(12, i as int)
            } else if i <= 20 {
                h.subrange(0, 8) + "-"@ + h.subrange(8, 12) + "-"@ + h.subrange(12, 16) + "-"@ + h.subrange(16, i as int)
            } else {
                h.subrange(0, 8) + "-"@ + h.subrange(8, 12) + "-"@ + h.subrange(12, 16) + "-"@ + h.subrange(16, 20) + "-"@
                    + h.subrange(20, i as int)
            }),
        decreases 32 - i,
    {
        proof {
            reveal_strlit("-");
        }
        if i == 8 || i == 12 || i == 16 || i == 20 {
            out.push('-');
        }
        let ghost before = out@;
        out.push(hex[i] as char);
        assert(h[i as int] == hex[i as int] as char);
        i = i + 1;
        proof {
            if i <= 8 {
                assert(out@ =~= h.subrange(0, i as int));
            } else if i <= 12 {
                assert(out@ =~= h.subrange(0, 8) + "-"@ + h.subrange(8, i as int));
            } else if i <= 16 {
                assert(out@ =~= h.subrange(0, 8) + "-"@ + h.subrange(8, 12) + "-"@ + h.subrange(12, i as int));
            } else if i <= 20 {
                assert(out@ =~= h.subrange(0, 8) + "-"@ + h.subrange(8, 12) + "-"@ + h.subrange(12, 16) + "-"@ + h.subrange(16, i as int));
            } else {
                assert(out@ =~= h.subrange(0, 8) + "-"@ + h.subrange(8, 12) + "-"@ + h.subrange(12, 16) + "-"@ + h.subrange(16, 20) + "-"@
                    + h.subrange(20, i as int));
            }
        }
    }
    string_of(&out)
}

} // verus!
